//! The command engine: identity commands are queued in the order of their
//! submission, executed one at a time, and each is completed exactly once.
//!
//! A producer submits a command and gets a ticket. The worker takes the
//! command at the head of the queue: it completes at once, or, where it needs
//! a counterpart that the wallet does not hold, it is parked until the
//! resolver's answer is handed in. The completion carries the ticket, by
//! which the worker finds the producer's callback.

use vstd::prelude::*;
use crate::crypto::Signus;
use crate::errors::SignusError;
use crate::json::text_view;
use crate::service::{same_records, IdentityService};
use crate::store::IdentityStore;

verus! {

/// An identity command with its parameters.
pub enum SignusCommand {
    /// Wallet handle, DID creation request (JSON).
    CreateAndStoreMyDid(i32, String),
    /// Wallet handle, key request (JSON), DID.
    ReplaceKeys(i32, String, String),
    /// Wallet handle, counterpart's identity (JSON).
    StoreTheirDid(i32, String),
    /// Wallet handle, DID, message.
    Sign(i32, String, String),
    /// Wallet handle, DID, message, signature.
    VerifySignature(i32, String, String, String),
    /// Wallet handle, DID, message.
    Encrypt(i32, String, String),
    /// Wallet handle, DID, encrypted message.
    Decrypt(i32, String, String),
}

/// What a command's completion hands to its producer, by kind of command.
pub enum SignusResult {
    /// DID, verification key, public encryption key.
    CreateAndStoreMyDid(Result<(String, String, String), SignusError>),
    /// New verification key, new public encryption key.
    ReplaceKeys(Result<(String, String), SignusError>),
    StoreTheirDid(Result<(), SignusError>),
    /// The signature.
    Sign(Result<String, SignusError>),
    /// Whether the signature is valid.
    VerifySignature(Result<bool, SignusError>),
    /// The encrypted message.
    Encrypt(Result<String, SignusError>),
    /// The message.
    Decrypt(Result<String, SignusError>),
}

impl SignusResult {
    /// The error that a result carries, if it is a failure.
    pub open spec fn failure(self) -> Option<SignusError> {
        match self {
            SignusResult::CreateAndStoreMyDid(r) => if r is Err {
                Some(r->Err_0)
            } else {
                None
            },
            SignusResult::ReplaceKeys(r) => if r is Err {
                Some(r->Err_0)
            } else {
                None
            },
            SignusResult::StoreTheirDid(r) => if r is Err {
                Some(r->Err_0)
            } else {
                None
            },
            SignusResult::Sign(r) => if r is Err {
                Some(r->Err_0)
            } else {
                None
            },
            SignusResult::VerifySignature(r) => if r is Err {
                Some(r->Err_0)
            } else {
                None
            },
            SignusResult::Encrypt(r) => if r is Err {
                Some(r->Err_0)
            } else {
                None
            },
            SignusResult::Decrypt(r) => if r is Err {
                Some(r->Err_0)
            } else {
                None
            },
        }
    }

    /// The error of a failed command; `None` for a success.
    pub fn error(&self) -> (e: Option<SignusError>)
        ensures
            e == self.failure(),
    {
        match self {
            SignusResult::CreateAndStoreMyDid(Err(e)) => Some(*e),
            SignusResult::ReplaceKeys(Err(e)) => Some(*e),
            SignusResult::StoreTheirDid(Err(e)) => Some(*e),
            SignusResult::Sign(Err(e)) => Some(*e),
            SignusResult::VerifySignature(Err(e)) => Some(*e),
            SignusResult::Encrypt(Err(e)) => Some(*e),
            SignusResult::Decrypt(Err(e)) => Some(*e),
            _ => None,
        }
    }
}

/// What a resolver answers for a counterpart.
pub enum Resolution {
    /// The counterpart's verification key (Base58) and transport endpoint.
    Found { verkey: String, endpoint: Option<String> },
    /// The resolver knows no such counterpart.
    NotFound,
    /// The resolver did not answer in time.
    TimedOut,
}

/// A submitted command with its ticket.
pub struct Submission {
    pub ticket: u64,
    pub command: SignusCommand,
}

/// The one completion of a submitted command.
pub struct Completion {
    pub ticket: u64,
    pub result: SignusResult,
}

/// What the worker has to do after a step of the engine.
pub enum Event {
    /// Hand the result to the producer of the ticket.
    Completed(Completion),
    /// Ask the resolver for the counterpart and hand its answer to `resolve`.
    ResolveRequested { ticket: u64, wallet: i32, did: String },
}

/// Whether a submission with this ticket is among `held`.
pub open spec fn holds_ticket(held: Seq<Submission>, ticket: u64) -> bool {
    exists|i: int| 0 <= i < held.len() && (#[trigger] held[i]).ticket == ticket
}

/// Where the submission with this ticket stands among `held`.
pub open spec fn ticket_index(held: Seq<Submission>, ticket: u64) -> int {
    choose|i: int| 0 <= i < held.len() && (#[trigger] held[i]).ticket == ticket
}

/// Whether a command is of a kind that may wait for a counterpart. These
/// kinds change no own identity, so a waiting command holds back no change.
pub open spec fn may_park(command: SignusCommand) -> bool {
    command is VerifySignature || command is Encrypt || command is Decrypt
}

/// The bookkeeping invariant: the queue is in the order of submission; no
/// ticket is held or logged twice; and every ticket issued so far is queued,
/// parked or logged as completed.
pub open spec fn tickets_ok(
    queue: Seq<Submission>,
    parked: Seq<Submission>,
    fired: Seq<u64>,
    next: u64,
) -> bool {
    &&& forall|i: int, j: int|
        0 <= i < j < queue.len() ==> (#[trigger] queue[i]).ticket < (#[trigger] queue[j]).ticket
    &&& forall|i: int, j: int|
        0 <= i < j < parked.len() ==> (#[trigger] parked[i]).ticket != (#[trigger] parked[j]).ticket
    &&& forall|i: int, j: int| 0 <= i < j < fired.len() ==> #[trigger] fired[i] != #[trigger] fired[j]
    &&& forall|i: int, j: int|
        0 <= i < queue.len() && 0 <= j < parked.len() ==> (#[trigger] queue[i]).ticket != (
        #[trigger] parked[j]).ticket
    &&& forall|i: int, j: int|
        0 <= i < queue.len() && 0 <= j < fired.len() ==> (#[trigger] queue[i]).ticket
            != #[trigger] fired[j]
    &&& forall|i: int, j: int|
        0 <= i < parked.len() && 0 <= j < fired.len() ==> (#[trigger] parked[i]).ticket
            != #[trigger] fired[j]
    &&& forall|i: int| 0 <= i < queue.len() ==> (#[trigger] queue[i]).ticket < next
    &&& forall|i: int| 0 <= i < parked.len() ==> (#[trigger] parked[i]).ticket < next
    &&& forall|i: int| 0 <= i < fired.len() ==> #[trigger] fired[i] < next
    &&& forall|i: int| 0 <= i < parked.len() ==> may_park((#[trigger] parked[i]).command)
    &&& forall|t: u64|
        t < next ==> #[trigger] holds_ticket(queue, t) || holds_ticket(parked, t) || fired.contains(t)
}

/// Submitting under the next ticket keeps the bookkeeping.
pub proof fn lemma_submitted(
    queue: Seq<Submission>,
    parked: Seq<Submission>,
    fired: Seq<u64>,
    next: u64,
    submission: Submission,
)
    requires
        tickets_ok(queue, parked, fired, next),
        submission.ticket == next,
        next < u64::MAX,
    ensures
        tickets_ok(queue.push(submission), parked, fired, (next + 1) as u64),
{
    let after = queue.push(submission);
    assert forall|t: u64| t < next + 1 implies #[trigger] holds_ticket(after, t) || holds_ticket(
        parked,
        t,
    ) || fired.contains(t) by {
        if t == next {
            assert(after[queue.len() as int].ticket == t);
        } else if holds_ticket(queue, t) {
            let i = ticket_index(queue, t);
            assert(after[i].ticket == t);
        }
    }
}

/// Completing the head of the queue keeps the bookkeeping.
pub proof fn lemma_head_completed(
    queue: Seq<Submission>,
    parked: Seq<Submission>,
    fired: Seq<u64>,
    next: u64,
)
    requires
        tickets_ok(queue, parked, fired, next),
        queue.len() > 0,
    ensures
        tickets_ok(queue.remove(0), parked, fired.push(queue[0].ticket), next),
{
    let rest = queue.remove(0);
    let log = fired.push(queue[0].ticket);
    assert forall|i: int| 0 <= i < rest.len() implies (#[trigger] rest[i]) == queue[i + 1] by {}
    assert forall|i: int, j: int| 0 <= i < j < log.len() implies #[trigger] log[i]
        != #[trigger] log[j] by {
        if j == fired.len() {
            assert(queue[0].ticket != fired[i]);
        }
    }
    assert forall|i: int, j: int| 0 <= i < rest.len() && 0 <= j < log.len() implies (
    #[trigger] rest[i]).ticket != #[trigger] log[j] by {
        assert(rest[i] == queue[i + 1]);
        if j == fired.len() {
            assert(queue[0].ticket < queue[i + 1].ticket);
        } else {
            assert(queue[i + 1].ticket != fired[j]);
        }
    }
    assert forall|i: int, j: int| 0 <= i < parked.len() && 0 <= j < log.len() implies (
    #[trigger] parked[i]).ticket != #[trigger] log[j] by {
        if j == fired.len() {
            assert(queue[0].ticket != parked[i].ticket);
        }
    }
    assert forall|i: int, j: int| 0 <= i < j < rest.len() implies (#[trigger] rest[i]).ticket < (
    #[trigger] rest[j]).ticket by {
        assert(queue[i + 1].ticket < queue[j + 1].ticket);
    }
    assert forall|i: int, j: int| 0 <= i < rest.len() && 0 <= j < parked.len() implies (
    #[trigger] rest[i]).ticket != (#[trigger] parked[j]).ticket by {
        assert(queue[i + 1].ticket != parked[j].ticket);
    }
    assert forall|i: int| 0 <= i < rest.len() implies (#[trigger] rest[i]).ticket < next by {
        assert(queue[i + 1].ticket < next);
    }
    assert forall|i: int| 0 <= i < log.len() implies #[trigger] log[i] < next by {
        if i == fired.len() {
            assert(queue[0].ticket < next);
        }
    }
    assert forall|t: u64| t < next implies #[trigger] holds_ticket(rest, t) || holds_ticket(
        parked,
        t,
    ) || log.contains(t) by {
        if holds_ticket(queue, t) {
            let i = ticket_index(queue, t);
            if i == 0 {
                assert(log[fired.len() as int] == t);
            } else {
                assert(rest[i - 1].ticket == t);
            }
        } else if fired.contains(t) {
            let j = choose|j: int| 0 <= j < fired.len() && fired[j] == t;
            assert(log[j] == t);
        }
    }
}

/// Parking the head of the queue keeps the bookkeeping.
pub proof fn lemma_head_parked(
    queue: Seq<Submission>,
    parked: Seq<Submission>,
    fired: Seq<u64>,
    next: u64,
)
    requires
        tickets_ok(queue, parked, fired, next),
        queue.len() > 0,
        may_park(queue[0].command),
    ensures
        tickets_ok(queue.remove(0), parked.push(queue[0]), fired, next),
{
    let rest = queue.remove(0);
    let waiting = parked.push(queue[0]);
    assert forall|i: int| 0 <= i < rest.len() implies (#[trigger] rest[i]) == queue[i + 1] by {}
    assert forall|i: int, j: int| 0 <= i < j < rest.len() implies (#[trigger] rest[i]).ticket < (
    #[trigger] rest[j]).ticket by {
        assert(queue[i + 1].ticket < queue[j + 1].ticket);
    }
    assert forall|i: int, j: int| 0 <= i < j < waiting.len() implies (
    #[trigger] waiting[i]).ticket != (#[trigger] waiting[j]).ticket by {
        if j == parked.len() {
            assert(queue[0].ticket != parked[i].ticket);
        }
    }
    assert forall|i: int, j: int| 0 <= i < rest.len() && 0 <= j < waiting.len() implies (
    #[trigger] rest[i]).ticket != (#[trigger] waiting[j]).ticket by {
        if j == parked.len() {
            assert(queue[0].ticket < queue[i + 1].ticket);
        } else {
            assert(queue[i + 1].ticket != parked[j].ticket);
        }
    }
    assert forall|i: int, j: int| 0 <= i < rest.len() && 0 <= j < fired.len() implies (
    #[trigger] rest[i]).ticket != #[trigger] fired[j] by {
        assert(queue[i + 1].ticket != fired[j]);
    }
    assert forall|i: int, j: int| 0 <= i < waiting.len() && 0 <= j < fired.len() implies (
    #[trigger] waiting[i]).ticket != #[trigger] fired[j] by {
        if i == parked.len() {
            assert(queue[0].ticket != fired[j]);
        }
    }
    assert forall|i: int| 0 <= i < rest.len() implies (#[trigger] rest[i]).ticket < next by {
        assert(queue[i + 1].ticket < next);
    }
    assert forall|i: int| 0 <= i < waiting.len() implies (#[trigger] waiting[i]).ticket < next by {
        if i == parked.len() {
            assert(queue[0].ticket < next);
        }
    }
    assert forall|i: int| 0 <= i < waiting.len() implies may_park(
        (#[trigger] waiting[i]).command,
    ) by {
        if i < parked.len() {
            assert(may_park(parked[i].command));
        }
    }
    assert forall|t: u64| t < next implies #[trigger] holds_ticket(rest, t) || holds_ticket(
        waiting,
        t,
    ) || fired.contains(t) by {
        if holds_ticket(queue, t) {
            let i = ticket_index(queue, t);
            if i == 0 {
                assert(waiting[parked.len() as int].ticket == t);
            } else {
                assert(rest[i - 1].ticket == t);
            }
        } else if holds_ticket(parked, t) {
            let j = ticket_index(parked, t);
            assert(waiting[j].ticket == t);
        }
    }
}

/// Completing a parked command keeps the bookkeeping.
pub proof fn lemma_parked_completed(
    queue: Seq<Submission>,
    parked: Seq<Submission>,
    fired: Seq<u64>,
    next: u64,
    at: int,
)
    requires
        tickets_ok(queue, parked, fired, next),
        0 <= at < parked.len(),
    ensures
        tickets_ok(queue, parked.remove(at), fired.push(parked[at].ticket), next),
{
    let rest = parked.remove(at);
    let log = fired.push(parked[at].ticket);
    assert forall|i: int| 0 <= i < rest.len() implies (#[trigger] rest[i]) == parked[if i < at {
        i
    } else {
        i + 1
    }] by {}
    assert forall|i: int, j: int| 0 <= i < j < rest.len() implies (#[trigger] rest[i]).ticket != (
    #[trigger] rest[j]).ticket by {
        let a = if i < at { i } else { i + 1 };
        let b = if j < at { j } else { j + 1 };
        assert(parked[a].ticket != parked[b].ticket);
    }
    assert forall|i: int, j: int| 0 <= i < j < log.len() implies #[trigger] log[i]
        != #[trigger] log[j] by {
        if j == fired.len() {
            assert(parked[at].ticket != fired[i]);
        }
    }
    assert forall|i: int, j: int| 0 <= i < queue.len() && 0 <= j < rest.len() implies (
    #[trigger] queue[i]).ticket != (#[trigger] rest[j]).ticket by {
        let b = if j < at { j } else { j + 1 };
        assert(queue[i].ticket != parked[b].ticket);
    }
    assert forall|i: int, j: int| 0 <= i < queue.len() && 0 <= j < log.len() implies (
    #[trigger] queue[i]).ticket != #[trigger] log[j] by {
        if j == fired.len() {
            assert(queue[i].ticket != parked[at].ticket);
        }
    }
    assert forall|i: int, j: int| 0 <= i < rest.len() && 0 <= j < log.len() implies (
    #[trigger] rest[i]).ticket != #[trigger] log[j] by {
        let a = if i < at { i } else { i + 1 };
        if j == fired.len() {
            if a < at {
                assert(parked[a].ticket != parked[at].ticket);
            } else {
                assert(parked[at].ticket != parked[a].ticket);
            }
        } else {
            assert(parked[a].ticket != fired[j]);
        }
    }
    assert forall|i: int| 0 <= i < rest.len() implies (#[trigger] rest[i]).ticket < next by {
        let a = if i < at { i } else { i + 1 };
        assert(parked[a].ticket < next);
    }
    assert forall|i: int| 0 <= i < log.len() implies #[trigger] log[i] < next by {
        if i == fired.len() {
            assert(parked[at].ticket < next);
        }
    }
    assert forall|i: int| 0 <= i < rest.len() implies may_park((#[trigger] rest[i]).command) by {
        let a = if i < at { i } else { i + 1 };
        assert(may_park(parked[a].command));
    }
    assert forall|t: u64| t < next implies #[trigger] holds_ticket(queue, t) || holds_ticket(
        rest,
        t,
    ) || log.contains(t) by {
        if holds_ticket(queue, t) {
        } else if holds_ticket(parked, t) {
            let j = ticket_index(parked, t);
            if j == at {
                assert(log[fired.len() as int] == t);
            } else if j < at {
                assert(rest[j].ticket == t);
            } else {
                assert(rest[j - 1].ticket == t);
            }
        } else {
            let j = choose|j: int| 0 <= j < fired.len() && fired[j] == t;
            assert(log[j] == t);
        }
    }
}

/// The counterpart that a command needs and the wallet does not hold: the
/// wallet handle and DID to resolve, or `None` where the command can be
/// completed with what is stored.
pub open spec fn awaited<C: Signus>(store: IdentityStore, command: SignusCommand) -> Option<
    (i32, Seq<char>),
> {
    match command {
        SignusCommand::VerifySignature(wallet, did, _, _) => if store.their_identity(wallet, did@)
            is None {
            Some((wallet, did@))
        } else {
            None
        },
        SignusCommand::Encrypt(wallet, did, _) => if store.my_identity(wallet, did@) is Some
            && store.their_identity(wallet, did@) is None {
            Some((wallet, did@))
        } else {
            None
        },
        SignusCommand::Decrypt(wallet, did, encrypted) => if store.my_identity(wallet, did@)
            is Some && IdentityService::<C>::named_sender(encrypted@) is Some
            && store.their_identity(
            wallet,
            IdentityService::<C>::named_sender(encrypted@)->Some_0,
        ) is None {
            Some((wallet, IdentityService::<C>::named_sender(encrypted@)->Some_0))
        } else {
            None
        },
        _ => None,
    }
}

/// Whether `result` is what executing `command` gives, and `after` the
/// store that it leaves of `before`.
pub open spec fn executed<C: Signus>(
    before: IdentityStore,
    after: IdentityStore,
    command: SignusCommand,
    result: SignusResult,
) -> bool {
    match (command, result) {
        (
            SignusCommand::CreateAndStoreMyDid(wallet, request),
            SignusResult::CreateAndStoreMyDid(r),
        ) => IdentityService::<C>::creation(before, after, wallet, request@, r),
        (SignusCommand::ReplaceKeys(wallet, request, did), SignusResult::ReplaceKeys(r)) =>
            IdentityService::<C>::rotation(before, after, wallet, request@, did@, r),
        (SignusCommand::StoreTheirDid(wallet, identity), SignusResult::StoreTheirDid(r)) =>
            IdentityService::<C>::storing(before, after, wallet, identity@, r),
        (SignusCommand::Sign(wallet, did, message), SignusResult::Sign(r)) => same_records(
            after,
            before,
        ) && IdentityService::<C>::signing(before, wallet, did@, message@, r),
        (
            SignusCommand::VerifySignature(wallet, did, message, signature),
            SignusResult::VerifySignature(r),
        ) => same_records(after, before) && r == IdentityService::<C>::verification(
            before,
            wallet,
            did@,
            message@,
            signature@,
        ),
        (SignusCommand::Encrypt(wallet, did, message), SignusResult::Encrypt(r)) => same_records(
            after,
            before,
        ) && IdentityService::<C>::encrypting(before, wallet, did@, message@, r),
        (SignusCommand::Decrypt(wallet, did, encrypted), SignusResult::Decrypt(r)) => same_records(
            after,
            before,
        ) && IdentityService::<C>::decrypting(before, wallet, did@, encrypted@, r),
        _ => false,
    }
}

/// Whether a result is of the kind of a command.
pub open spec fn answers(command: SignusCommand, result: SignusResult) -> bool {
    match (command, result) {
        (SignusCommand::CreateAndStoreMyDid(..), SignusResult::CreateAndStoreMyDid(_)) => true,
        (SignusCommand::ReplaceKeys(..), SignusResult::ReplaceKeys(_)) => true,
        (SignusCommand::StoreTheirDid(..), SignusResult::StoreTheirDid(_)) => true,
        (SignusCommand::Sign(..), SignusResult::Sign(_)) => true,
        (SignusCommand::VerifySignature(..), SignusResult::VerifySignature(_)) => true,
        (SignusCommand::Encrypt(..), SignusResult::Encrypt(_)) => true,
        (SignusCommand::Decrypt(..), SignusResult::Decrypt(_)) => true,
        _ => false,
    }
}

/// The record that a resolver's answer gives for a counterpart: `None`
/// where it found none, or a key that is not well-formed.
pub open spec fn found<C: Signus>(
    resolution: Resolution,
) -> Option<crate::store::TheirIdentityView> {
    match resolution {
        Resolution::Found { verkey, endpoint } => IdentityService::<C>::counterpart_record(
            verkey@,
            text_view(endpoint),
        ),
        _ => None,
    }
}

/// What resolving a parked command does. Where the counterpart is still
/// missing and the answer gives a record, the record is kept and the
/// command executed; if the store has no room for it, the command fails
/// with `StorageUnavailable`. In every other case the command is executed
/// on the records as they are (and fails with `UnknownDid` where the
/// counterpart is still missing).
pub open spec fn resolved<C: Signus>(
    before: IdentityStore,
    after: IdentityStore,
    command: SignusCommand,
    resolution: Resolution,
    result: SignusResult,
) -> bool {
    if awaited::<C>(before, command) is Some && found::<C>(resolution) is Some {
        let (wallet, did) = awaited::<C>(before, command)->Some_0;
        let record = found::<C>(resolution)->Some_0;
        if before.theirs().len() < before.limit() {
            &&& IdentityService::<C>::kept(
                before,
                after,
                wallet,
                did,
                record,
                Ok::<(), SignusError>(()),
            )
            &&& executed::<C>(after, after, command, result)
        } else {
            &&& same_records(after, before)
            &&& answers(command, result)
            &&& result.failure() == Some(SignusError::StorageUnavailable)
        }
    } else {
        same_records(after, before) && executed::<C>(after, after, command, result)
    }
}

/// A parked command whose counterpart the resolver does not find, or not
/// in time, fails with `UnknownDid`.
pub proof fn law_not_found_is_unknown<C: Signus>(
    before: IdentityStore,
    after: IdentityStore,
    command: SignusCommand,
    resolution: Resolution,
    result: SignusResult,
)
    requires
        awaited::<C>(before, command) is Some,
        found::<C>(resolution) is None,
        resolved::<C>(before, after, command, resolution, result),
    ensures
        result.failure() == Some(SignusError::UnknownDid),
        same_records(after, before),
{
    assert(awaited::<C>(after, command) == awaited::<C>(before, command));
    law_unresolved_is_unknown::<C>(after, after, command, result);
}

/// Only commands that change no record wait for a counterpart: a command
/// that changes the store is executed when it reaches the head of the
/// queue, so changes take effect in the order of submission.
pub proof fn law_changes_never_wait<C: Signus>(
    before: IdentityStore,
    after: IdentityStore,
    command: SignusCommand,
    result: SignusResult,
)
    requires
        executed::<C>(before, after, command, result),
    ensures
        awaited::<C>(before, command) is Some ==> may_park(command),
        may_park(command) ==> same_records(after, before),
        answers(command, result),
{
}

/// A command that lacks its counterpart on execution fails with `UnknownDid`.
pub proof fn law_unresolved_is_unknown<C: Signus>(
    store: IdentityStore,
    after: IdentityStore,
    command: SignusCommand,
    result: SignusResult,
)
    requires
        awaited::<C>(store, command) is Some,
        executed::<C>(store, after, command, result),
    ensures
        result.failure() == Some(SignusError::UnknownDid),
{
}

/// The engine that queues, dispatches and completes identity commands,
/// with the service that executes them.
pub struct SignusCommandExecutor<C: Signus> {
    service: IdentityService<C>,
    queue: Vec<Submission>,
    parked: Vec<Submission>,
    next_ticket: u64,
    capacity: usize,
    fired: Ghost<Seq<u64>>,
}

impl<C: Signus> SignusCommandExecutor<C> {
    /// The identity records that the service holds.
    pub closed spec fn store(&self) -> IdentityStore {
        self.service.store()
    }

    /// The submitted commands that wait for execution, first submitted first.
    pub closed spec fn queue(&self) -> Seq<Submission> {
        self.queue@
    }

    /// The commands that wait for a resolver's answer.
    pub closed spec fn parked(&self) -> Seq<Submission> {
        self.parked@
    }

    /// The tickets completed so far, in the order of completion.
    pub closed spec fn fired(&self) -> Seq<u64> {
        self.fired@
    }

    /// The ticket that the next submission gets.
    pub closed spec fn next_ticket(&self) -> u64 {
        self.next_ticket
    }

    /// The number of commands that the queue may hold.
    pub closed spec fn capacity(&self) -> nat {
        self.capacity as nat
    }

    /// Whether the service is well-formed.
    pub closed spec fn service_ok(&self) -> bool {
        self.service.wf()
    }

    /// The engine's invariant.
    pub open spec fn wf(&self) -> bool {
        &&& self.service_ok()
        &&& tickets_ok(self.queue(), self.parked(), self.fired(), self.next_ticket())
        &&& self.queue().len() <= self.capacity()
    }

    /// An engine with an empty queue that may hold `capacity` commands, over
    /// a provider and an empty store that may hold `store_limit` records of
    /// each kind.
    pub fn new(provider: C, store_limit: usize, capacity: usize) -> (executor: Self)
        ensures
            executor.wf(),
            executor.queue().len() == 0,
            executor.parked().len() == 0,
            executor.fired().len() == 0,
            executor.next_ticket() == 0,
            executor.capacity() == capacity,
            executor.store().limit() == store_limit,
            executor.store().mine().len() == 0,
            executor.store().theirs().len() == 0,
    {
        SignusCommandExecutor {
            service: IdentityService::new(provider, store_limit),
            queue: Vec::new(),
            parked: Vec::new(),
            next_ticket: 0,
            capacity,
            fired: Ghost(Seq::empty()),
        }
    }

    /// The counterpart that a command needs and the wallet does not hold.
    fn awaits(service: &IdentityService<C>, command: &SignusCommand) -> (r: Option<(i32, String)>)
        requires
            service.wf(),
        ensures
            match r {
                Some((wallet, did)) => awaited::<C>(service.store(), *command) == Some(
                    (wallet, did@),
                ),
                None => awaited::<C>(service.store(), *command) is None,
            },
    {
        match command {
            SignusCommand::VerifySignature(wallet, did, _, _) => {
                if service.knows_counterpart(*wallet, did.as_str()) {
                    None
                } else {
                    Some((*wallet, did.clone()))
                }
            },
            SignusCommand::Encrypt(wallet, did, _) => {
                if service.has_identity(*wallet, did.as_str()) && !service.knows_counterpart(
                    *wallet,
                    did.as_str(),
                ) {
                    Some((*wallet, did.clone()))
                } else {
                    None
                }
            },
            SignusCommand::Decrypt(wallet, did, encrypted) => {
                if !service.has_identity(*wallet, did.as_str()) {
                    return None;
                }
                match IdentityService::<C>::sender_did(encrypted.as_str()) {
                    Some(sender) => {
                        if service.knows_counterpart(*wallet, sender.as_str()) {
                            None
                        } else {
                            Some((*wallet, sender))
                        }
                    },
                    None => None,
                }
            },
            _ => None,
        }
    }

    /// Dispatches a command to the operation of its kind.
    fn perform(service: &mut IdentityService<C>, command: SignusCommand) -> (result: SignusResult)
        requires
            old(service).wf(),
        ensures
            final(service).wf(),
            final(service).store().limit() == old(service).store().limit(),
            executed::<C>(old(service).store(), final(service).store(), command, result),
            may_park(command) ==> *final(service) == *old(service),
    {
        match command {
            SignusCommand::CreateAndStoreMyDid(wallet, request) => {
                SignusResult::CreateAndStoreMyDid(
                    service.create_and_store_my_did(wallet, request.as_str()),
                )
            },
            SignusCommand::ReplaceKeys(wallet, request, did) => {
                SignusResult::ReplaceKeys(
                    service.replace_keys(wallet, request.as_str(), did.as_str()),
                )
            },
            SignusCommand::StoreTheirDid(wallet, identity) => {
                SignusResult::StoreTheirDid(service.store_their_did(wallet, identity.as_str()))
            },
            SignusCommand::Sign(wallet, did, message) => {
                SignusResult::Sign(service.sign(wallet, did.as_str(), message.as_str()))
            },
            SignusCommand::VerifySignature(wallet, did, message, signature) => {
                SignusResult::VerifySignature(
                    service.verify_signature(
                        wallet,
                        did.as_str(),
                        message.as_str(),
                        signature.as_str(),
                    ),
                )
            },
            SignusCommand::Encrypt(wallet, did, message) => {
                SignusResult::Encrypt(service.encrypt(wallet, did.as_str(), message.as_str()))
            },
            SignusCommand::Decrypt(wallet, did, encrypted) => {
                SignusResult::Decrypt(service.decrypt(wallet, did.as_str(), encrypted.as_str()))
            },
        }
    }

    /// The failure of a command with a given error.
    fn failed(command: &SignusCommand, error: SignusError) -> (result: SignusResult)
        ensures
            answers(*command, result),
            result.failure() == Some(error),
    {
        match command {
            SignusCommand::CreateAndStoreMyDid(..) => SignusResult::CreateAndStoreMyDid(Err(error)),
            SignusCommand::ReplaceKeys(..) => SignusResult::ReplaceKeys(Err(error)),
            SignusCommand::StoreTheirDid(..) => SignusResult::StoreTheirDid(Err(error)),
            SignusCommand::Sign(..) => SignusResult::Sign(Err(error)),
            SignusCommand::VerifySignature(..) => SignusResult::VerifySignature(Err(error)),
            SignusCommand::Encrypt(..) => SignusResult::Encrypt(Err(error)),
            SignusCommand::Decrypt(..) => SignusResult::Decrypt(Err(error)),
        }
    }

    /// Executes a command at once, past the queue, on what the store holds:
    /// a command that lacks its counterpart fails with `UnknownDid`.
    pub fn execute(&mut self, command: SignusCommand) -> (result: SignusResult)
        requires
            old(self).wf(),
        ensures
            final(self).wf(),
            executed::<C>(old(self).store(), final(self).store(), command, result),
            final(self).store().limit() == old(self).store().limit(),
            final(self).queue() == old(self).queue(),
            final(self).parked() == old(self).parked(),
            final(self).fired() == old(self).fired(),
            final(self).next_ticket() == old(self).next_ticket(),
            final(self).capacity() == old(self).capacity(),
    {
        Self::perform(&mut self.service, command)
    }

    /// Queues a command and returns its ticket. Refused with `QueueFull`,
    /// and nothing changed, where the queue holds `capacity` commands (or the
    /// tickets are used up).
    pub fn submit(&mut self, command: SignusCommand) -> (r: Result<u64, SignusError>)
        requires
            old(self).wf(),
        ensures
            final(self).wf(),
            final(self).store() == old(self).store(),
            final(self).parked() == old(self).parked(),
            final(self).fired() == old(self).fired(),
            final(self).capacity() == old(self).capacity(),
            r is Ok <==> old(self).queue().len() < old(self).capacity() && old(self).next_ticket()
                < u64::MAX,
            match r {
                Ok(ticket) => {
                    &&& ticket == old(self).next_ticket()
                    &&& final(self).next_ticket() == ticket + 1
                    &&& final(self).queue() == old(self).queue().push(Submission { ticket, command })
                },
                Err(e) => {
                    &&& e == SignusError::QueueFull
                    &&& final(self).next_ticket() == old(self).next_ticket()
                    &&& final(self).queue() == old(self).queue()
                },
            },
    {
        if self.queue.len() >= self.capacity || self.next_ticket == u64::MAX {
            return Err(SignusError::QueueFull);
        }
        let ticket = self.next_ticket;
        proof {
            lemma_submitted(
                self.queue@,
                self.parked@,
                self.fired@,
                self.next_ticket,
                Submission { ticket, command },
            );
        }
        self.queue.push(Submission { ticket, command });
        self.next_ticket = ticket + 1;
        Ok(ticket)
    }

    /// The number of commands that wait for execution.
    pub fn queued(&self) -> (n: usize)
        ensures
            n == self.queue().len(),
    {
        self.queue.len()
    }

    /// The number of commands that wait for a resolver's answer.
    pub fn waiting(&self) -> (n: usize)
        ensures
            n == self.parked().len(),
    {
        self.parked.len()
    }

    /// Takes the command at the head of the queue: completes it, or parks
    /// it and asks for the counterpart that it needs. `None` where the queue
    /// is empty.
    pub fn run_next(&mut self) -> (r: Option<Event>)
        requires
            old(self).wf(),
        ensures
            final(self).wf(),
            final(self).next_ticket() == old(self).next_ticket(),
            final(self).capacity() == old(self).capacity(),
            final(self).store().limit() == old(self).store().limit(),
            old(self).queue().len() == 0 ==> r is None && final(self).queue() == old(self).queue()
                && final(self).parked() == old(self).parked() && final(self).fired() == old(
                self,
            ).fired() && final(self).store() == old(self).store(),
            old(self).queue().len() > 0 ==> r is Some && final(self).queue() == old(
                self,
            ).queue().remove(0) && Self::stepped(
                old(self).store(),
                final(self).store(),
                old(self).queue()[0],
                old(self).parked(),
                final(self).parked(),
                old(self).fired(),
                final(self).fired(),
                r->Some_0,
            ),
    {
        if self.queue.len() == 0 {
            return None;
        }
        let needed = Self::awaits(&self.service, &self.queue[0].command);
        let ghost queue = self.queue@;
        let head = self.queue.remove(0);
        let ticket = head.ticket;
        match needed {
            Some((wallet, did)) => {
                proof {
                    lemma_head_parked(queue, self.parked@, self.fired@, self.next_ticket);
                }
                self.parked.push(head);
                Some(Event::ResolveRequested { ticket, wallet, did })
            },
            None => {
                proof {
                    lemma_head_completed(queue, self.parked@, self.fired@, self.next_ticket);
                }
                let result = Self::perform(&mut self.service, head.command);
                self.fired = Ghost(self.fired@.push(ticket));
                Some(Event::Completed(Completion { ticket, result }))
            },
        }
    }

    /// What a step on the head of the queue does: where the head needs a
    /// counterpart that is not held, it is parked and the counterpart asked
    /// for, nothing else changed; else it is executed, and its one
    /// completion is logged.
    pub open spec fn stepped(
        before: IdentityStore,
        after: IdentityStore,
        head: Submission,
        parked_before: Seq<Submission>,
        parked_after: Seq<Submission>,
        fired_before: Seq<u64>,
        fired_after: Seq<u64>,
        event: Event,
    ) -> bool {
        match awaited::<C>(before, head.command) {
            Some((wallet, did)) => {
                &&& event matches Event::ResolveRequested { ticket: t, wallet: w, did: d }
                &&& t == head.ticket && w == wallet && d@ == did
                &&& parked_after == parked_before.push(head)
                &&& fired_after == fired_before
                &&& after == before
            },
            None => {
                &&& event matches Event::Completed(completion)
                &&& completion.ticket == head.ticket
                &&& executed::<C>(before, after, head.command, completion.result)
                &&& parked_after == parked_before
                &&& fired_after == fired_before.push(head.ticket)
            },
        }
    }

    /// Where the submission with a ticket stands among the parked ones.
    fn parked_position(&self, ticket: u64) -> (r: Option<usize>)
        ensures
            match r {
                Some(i) => i < self.parked().len() && self.parked()[i as int].ticket == ticket,
                None => !holds_ticket(self.parked(), ticket),
            },
    {
        let mut i: usize = 0;
        while i < self.parked.len()
            invariant
                i <= self.parked@.len(),
                forall|j: int| 0 <= j < i ==> (#[trigger] self.parked@[j]).ticket != ticket,
            decreases self.parked@.len() - i,
        {
            if self.parked[i].ticket == ticket {
                return Some(i);
            }
            i += 1;
        }
        None
    }

    /// Hands in the resolver's answer for a parked command and completes
    /// the command. `None`, and nothing changed, where no command is parked
    /// under the ticket: an answer cannot complete a command twice.
    pub fn resolve(&mut self, ticket: u64, resolution: Resolution) -> (r: Option<Completion>)
        requires
            old(self).wf(),
        ensures
            final(self).wf(),
            final(self).next_ticket() == old(self).next_ticket(),
            final(self).capacity() == old(self).capacity(),
            final(self).store().limit() == old(self).store().limit(),
            final(self).queue() == old(self).queue(),
            r is Some <==> holds_ticket(old(self).parked(), ticket),
            r is None ==> final(self).parked() == old(self).parked() && final(self).fired() == old(
                self,
            ).fired() && final(self).store() == old(self).store(),
            r is Some ==> {
                let at = ticket_index(old(self).parked(), ticket);
                &&& r->Some_0.ticket == ticket
                &&& final(self).parked() == old(self).parked().remove(at)
                &&& final(self).fired() == old(self).fired().push(ticket)
                &&& resolved::<C>(
                    old(self).store(),
                    final(self).store(),
                    old(self).parked()[at].command,
                    resolution,
                    r->Some_0.result,
                )
            },
    {
        let at = match self.parked_position(ticket) {
            Some(at) => at,
            None => {
                return None;
            },
        };
        proof {
            let chosen = ticket_index(self.parked@, ticket);
            assert(self.parked@[at as int].ticket == ticket);
            assert(chosen == at) by {
                if chosen < at {
                    assert(self.parked@[chosen].ticket != self.parked@[at as int].ticket);
                } else if chosen > at {
                    assert(self.parked@[at as int].ticket != self.parked@[chosen].ticket);
                }
            }
            lemma_parked_completed(
                self.queue@,
                self.parked@,
                self.fired@,
                self.next_ticket,
                at as int,
            );
        }
        let waiting = self.parked.remove(at);
        let cached = match resolution {
            Resolution::Found { verkey, endpoint } => {
                match Self::awaits(&self.service, &waiting.command) {
                    Some((wallet, did)) => self.service.cache_counterpart(
                        wallet,
                        did.as_str(),
                        verkey.as_str(),
                        endpoint,
                    ),
                    None => Ok(()),
                }
            },
            _ => Ok(()),
        };
        let result = match cached {
            Err(SignusError::StorageUnavailable) => Self::failed(
                &waiting.command,
                SignusError::StorageUnavailable,
            ),
            _ => Self::perform(&mut self.service, waiting.command),
        };
        self.fired = Ghost(self.fired@.push(ticket));
        Some(Completion { ticket, result })
    }

    /// Every ticket issued so far is in exactly one place: queued, parked,
    /// or logged as completed, and logged no more than once.
    pub proof fn law_each_ticket_once(&self, ticket: u64)
        requires
            self.wf(),
            ticket < self.next_ticket(),
        ensures
            holds_ticket(self.queue(), ticket) || holds_ticket(self.parked(), ticket)
                || self.fired().contains(ticket),
            !(holds_ticket(self.queue(), ticket) && holds_ticket(self.parked(), ticket)),
            !(holds_ticket(self.queue(), ticket) && self.fired().contains(ticket)),
            !(holds_ticket(self.parked(), ticket) && self.fired().contains(ticket)),
            forall|i: int, j: int|
                0 <= i < self.fired().len() && 0 <= j < self.fired().len() && self.fired()[i]
                    == ticket && self.fired()[j] == ticket ==> i == j,
    {
        assert(holds_ticket(self.queue(), ticket) || holds_ticket(self.parked(), ticket)
            || self.fired().contains(ticket));
        if holds_ticket(self.queue(), ticket) {
            let i = ticket_index(self.queue(), ticket);
            if holds_ticket(self.parked(), ticket) {
                let j = ticket_index(self.parked(), ticket);
                assert(self.queue()[i].ticket != self.parked()[j].ticket);
            }
            if self.fired().contains(ticket) {
                let j = choose|j: int| 0 <= j < self.fired().len() && self.fired()[j] == ticket;
                assert(self.queue()[i].ticket != self.fired()[j]);
            }
        }
        if holds_ticket(self.parked(), ticket) && self.fired().contains(ticket) {
            let i = ticket_index(self.parked(), ticket);
            let j = choose|j: int| 0 <= j < self.fired().len() && self.fired()[j] == ticket;
            assert(self.parked()[i].ticket != self.fired()[j]);
        }
        assert forall|i: int, j: int|
            0 <= i < self.fired().len() && 0 <= j < self.fired().len() && self.fired()[i] == ticket
                && self.fired()[j] == ticket implies i == j by {
            if i < j {
                assert(self.fired()[i] != self.fired()[j]);
            } else if j < i {
                assert(self.fired()[j] != self.fired()[i]);
            }
        }
    }

    /// Once nothing waits, every ticket issued has been completed.
    pub proof fn law_idle_means_all_completed(&self, ticket: u64)
        requires
            self.wf(),
            self.queue().len() == 0,
            self.parked().len() == 0,
            ticket < self.next_ticket(),
        ensures
            self.fired().contains(ticket),
    {
        assert(holds_ticket(self.queue(), ticket) || holds_ticket(self.parked(), ticket)
            || self.fired().contains(ticket));
    }

    /// The queue is in the order of submission, and no ticket that will be
    /// issued is in it: a command is executed before all that were
    /// submitted later and have not been executed.
    pub proof fn law_queue_in_submission_order(&self, i: int, j: int)
        requires
            self.wf(),
            0 <= i < j < self.queue().len(),
        ensures
            self.queue()[i].ticket < self.queue()[j].ticket,
            self.queue()[j].ticket < self.next_ticket(),
    {
    }
}

} // verus!
