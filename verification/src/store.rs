//! The identity store: the records of own and counterpart identities, each
//! kept under a wallet handle and a DID.
//!
//! The store holds at most one record under a key, and a bounded number of
//! records of each kind. Private signing keys stay inside the crate: a
//! record gives them only to the code that hands them to a provider.

use vstd::prelude::*;
use crate::errors::SignusError;

verus! {

/// A wallet handle with a DID: what a record is kept under.
pub type Key = (i32, Seq<char>);

/// One record of a table with its key.
pub struct Entry<V> {
    pub wallet: i32,
    pub did: String,
    pub value: V,
}

impl<V> Entry<V> {
    pub open spec fn key(self) -> Key {
        (self.wallet, self.did@)
    }
}

/// Whether no two entries share a key.
pub open spec fn distinct<V>(entries: Seq<Entry<V>>) -> bool {
    forall|i: int, j: int|
        0 <= i < j < entries.len() ==> (#[trigger] entries[i]).key() != (#[trigger] entries[j]).key()
}

/// Whether some entry is kept under `key`.
pub open spec fn holds<V>(entries: Seq<Entry<V>>, key: Key) -> bool {
    exists|i: int| 0 <= i < entries.len() && (#[trigger] entries[i]).key() == key
}

/// The record kept under `key`, if there is one.
pub open spec fn lookup<V>(entries: Seq<Entry<V>>, key: Key) -> Option<V> {
    if holds(entries, key) {
        Some(entries[choose|i: int| 0 <= i < entries.len() && (#[trigger] entries[i]).key() == key].value)
    } else {
        None
    }
}

/// Among distinct entries, the record under an entry's key is that entry's.
pub proof fn lemma_lookup_at<V>(entries: Seq<Entry<V>>, i: int)
    requires
        distinct(entries),
        0 <= i < entries.len(),
    ensures
        holds(entries, entries[i].key()),
        lookup(entries, entries[i].key()) == Some(entries[i].value),
{
    let key = entries[i].key();
    let j = choose|j: int| 0 <= j < entries.len() && (#[trigger] entries[j]).key() == key;
    assert(j == i);
}

/// Adding an entry under a fresh key changes what is kept under that key only.
pub proof fn lemma_push<V>(entries: Seq<Entry<V>>, entry: Entry<V>)
    requires
        distinct(entries),
        !holds(entries, entry.key()),
    ensures
        distinct(entries.push(entry)),
        lookup(entries.push(entry), entry.key()) == Some(entry.value),
        forall|key: Key| key != entry.key() ==> lookup(entries.push(entry), key) == lookup(entries, key),
{
    let after = entries.push(entry);
    assert forall|i: int, j: int| 0 <= i < j < after.len() implies (#[trigger] after[i]).key() != (
    #[trigger] after[j]).key() by {
        if j == entries.len() {
            assert(entries[i].key() != entry.key());
        } else {
            assert(entries[i].key() != entries[j].key());
        }
    }
    lemma_lookup_at(after, entries.len() as int);
    assert forall|key: Key| key != entry.key() implies lookup(after, key) == lookup(
        entries,
        key,
    ) by {
        if holds(entries, key) {
            let i = choose|i: int| 0 <= i < entries.len() && (#[trigger] entries[i]).key() == key;
            assert(after[i].key() == key);
            lemma_lookup_at(after, i);
            lemma_lookup_at(entries, i);
        } else {
            if holds(after, key) {
                let j = choose|j: int| 0 <= j < after.len() && (#[trigger] after[j]).key() == key;
                assert(j < entries.len());
                assert(entries[j].key() == key);
            }
        }
    }
}

/// Replacing an entry by one of the same key changes what is kept under that key only.
pub proof fn lemma_update<V>(entries: Seq<Entry<V>>, i: int, entry: Entry<V>)
    requires
        distinct(entries),
        0 <= i < entries.len(),
        entries[i].key() == entry.key(),
    ensures
        distinct(entries.update(i, entry)),
        lookup(entries.update(i, entry), entry.key()) == Some(entry.value),
        forall|key: Key|
            key != entry.key() ==> lookup(entries.update(i, entry), key) == lookup(entries, key),
{
    let after = entries.update(i, entry);
    assert forall|a: int, b: int| 0 <= a < b < after.len() implies (#[trigger] after[a]).key() != (
    #[trigger] after[b]).key() by {
        assert(entries[a].key() != entries[b].key());
    }
    lemma_lookup_at(after, i);
    assert forall|key: Key| key != entry.key() implies lookup(after, key) == lookup(
        entries,
        key,
    ) by {
        if holds(entries, key) {
            let j = choose|j: int| 0 <= j < entries.len() && (#[trigger] entries[j]).key() == key;
            assert(after[j].key() == key);
            lemma_lookup_at(after, j);
            lemma_lookup_at(entries, j);
        } else {
            if holds(after, key) {
                let j = choose|j: int| 0 <= j < after.len() && (#[trigger] after[j]).key() == key;
                assert(entries[j].key() == key);
            }
        }
    }
}

/// A bounded table of records, at most one under each key.
pub struct Table<V> {
    entries: Vec<Entry<V>>,
    limit: usize,
}

impl<V> View for Table<V> {
    type V = Seq<Entry<V>>;

    closed spec fn view(&self) -> Seq<Entry<V>> {
        self.entries@
    }
}

impl<V> Table<V> {
    /// The number of records that the table may hold.
    pub closed spec fn limit(&self) -> nat {
        self.limit as nat
    }

    /// The table's invariant: one record under a key, and no more than `limit`.
    pub open spec fn wf(&self) -> bool {
        distinct(self@) && self@.len() <= self.limit()
    }

    /// An empty table that may hold `limit` records.
    pub fn new(limit: usize) -> (table: Table<V>)
        ensures
            table.wf(),
            table@.len() == 0,
            table.limit() == limit,
    {
        Table { entries: Vec::new(), limit }
    }

    /// The number of records held.
    pub fn len(&self) -> (n: usize)
        ensures
            n == self@.len(),
    {
        self.entries.len()
    }

    /// The number of records that the table may hold.
    pub fn capacity(&self) -> (n: usize)
        ensures
            n == self.limit(),
    {
        self.limit
    }

    /// Adds a record under a key that the table does not hold yet.
    pub fn push_new(&mut self, wallet: i32, did: String, value: V)
        requires
            old(self).wf(),
            !holds(old(self)@, (wallet, did@)),
            old(self)@.len() < old(self).limit(),
        ensures
            final(self).wf(),
            final(self).limit() == old(self).limit(),
            final(self)@ == old(self)@.push(Entry { wallet, did, value }),
    {
        proof {
            lemma_push(self@, Entry { wallet, did, value });
        }
        self.entries.push(Entry { wallet, did, value });
    }

    /// Where the record under a key stands, if there is one.
    fn position(&self, wallet: i32, did: &String) -> (r: Option<usize>)
        ensures
            match r {
                Some(i) => i < self@.len() && self@[i as int].key() == (wallet, did@),
                None => !holds(self@, (wallet, did@)),
            },
    {
        let mut i: usize = 0;
        while i < self.entries.len()
            invariant
                i <= self.entries@.len(),
                forall|j: int| 0 <= j < i ==> (#[trigger] self.entries@[j]).key() != (wallet, did@),
            decreases self.entries@.len() - i,
        {
            if self.entries[i].wallet == wallet && self.entries[i].did == *did {
                return Some(i);
            }
            i += 1;
        }
        None
    }

    /// The record kept under a wallet handle and a DID.
    pub fn get(&self, wallet: i32, did: &String) -> (r: Option<&V>)
        requires
            self.wf(),
        ensures
            match r {
                Some(value) => lookup(self@, (wallet, did@)) == Some(*value),
                None => lookup(self@, (wallet, did@)) is None,
            },
    {
        match self.position(wallet, did) {
            Some(i) => {
                proof {
                    lemma_lookup_at(self@, i as int);
                }
                Some(&self.entries[i].value)
            },
            None => None,
        }
    }

    /// Whether a record is kept under a wallet handle and a DID.
    pub fn contains(&self, wallet: i32, did: &String) -> (r: bool)
        requires
            self.wf(),
        ensures
            r == holds(self@, (wallet, did@)),
            r == lookup(self@, (wallet, did@)) is Some,
    {
        match self.position(wallet, did) {
            Some(i) => {
                proof {
                    lemma_lookup_at(self@, i as int);
                }
                true
            },
            None => false,
        }
    }

    /// Keeps `value` under a key: in place of the record that is there, or as
    /// a new record where the table has room. A full table refuses a new key
    /// and stays as it is.
    pub fn put(&mut self, wallet: i32, did: String, value: V) -> (r: Result<(), SignusError>)
        requires
            old(self).wf(),
        ensures
            final(self).wf(),
            final(self).limit() == old(self).limit(),
            r is Ok <==> holds(old(self)@, (wallet, did@)) || old(self)@.len() < old(self).limit(),
            r is Err ==> r->Err_0 == SignusError::StorageUnavailable && final(self)@ == old(self)@,
            r is Ok ==> lookup(final(self)@, (wallet, did@)) == Some(value),
            r is Ok ==> forall|key: Key|
                key != (wallet, did@) ==> lookup(final(self)@, key) == lookup(old(self)@, key),
            r is Ok ==> final(self)@.len() == old(self)@.len() + if holds(
                old(self)@,
                (wallet, did@),
            ) {
                0int
            } else {
                1int
            },
    {
        let entry = Entry { wallet, did, value };
        match self.position(wallet, &entry.did) {
            Some(i) => {
                proof {
                    lemma_update(self@, i as int, entry);
                }
                self.entries.set(i, entry);
                Ok(())
            },
            None => {
                if self.entries.len() >= self.limit {
                    return Err(SignusError::StorageUnavailable);
                }
                proof {
                    lemma_push(self@, entry);
                }
                self.entries.push(entry);
                Ok(())
            },
        }
    }
}

/// An identity of the wallet's owner: its verification key, the scheme it
/// belongs to, and the private signing key that matches.
pub struct MyIdentity {
    verkey: Vec<u8>,
    crypto_type: String,
    signing_key: Vec<u8>,
}

/// The mathematical content of a `MyIdentity`.
pub struct MyIdentityView {
    pub verkey: Seq<u8>,
    pub crypto_type: Seq<char>,
    pub secret: Seq<u8>,
}

impl View for MyIdentity {
    type V = MyIdentityView;

    closed spec fn view(&self) -> MyIdentityView {
        MyIdentityView {
            verkey: self.verkey@,
            crypto_type: self.crypto_type@,
            secret: self.signing_key@,
        }
    }
}

impl MyIdentity {
    pub fn new(verkey: Vec<u8>, crypto_type: String, signing_key: Vec<u8>) -> (record: MyIdentity)
        ensures
            record@ == (MyIdentityView {
                verkey: verkey@,
                crypto_type: crypto_type@,
                secret: signing_key@,
            }),
    {
        MyIdentity { verkey, crypto_type, signing_key }
    }

    /// The public verification key.
    pub fn verkey(&self) -> (key: &[u8])
        ensures
            key@ == self@.verkey,
    {
        self.verkey.as_slice()
    }

    /// The tag of the scheme that the keys belong to.
    pub fn crypto_type(&self) -> (tag: &String)
        ensures
            tag@ == self@.crypto_type,
    {
        &self.crypto_type
    }

    /// The private signing key, for the provider call that needs it.
    pub(crate) fn signing_key(&self) -> (key: &[u8])
        ensures
            key@ == self@.secret,
    {
        self.signing_key.as_slice()
    }
}

/// A counterpart's identity: public material only.
pub struct TheirIdentity {
    pub verkey: Vec<u8>,
    pub crypto_type: String,
    pub endpoint: Option<String>,
}

/// The mathematical content of a `TheirIdentity`.
pub struct TheirIdentityView {
    pub verkey: Seq<u8>,
    pub crypto_type: Seq<char>,
    pub endpoint: Option<Seq<char>>,
}

impl View for TheirIdentity {
    type V = TheirIdentityView;

    open spec fn view(&self) -> TheirIdentityView {
        TheirIdentityView {
            verkey: self.verkey@,
            crypto_type: self.crypto_type@,
            endpoint: match self.endpoint {
                Some(text) => Some(text@),
                None => None,
            },
        }
    }
}

/// The secret-holding store of identity records.
pub struct IdentityStore {
    mine: Table<MyIdentity>,
    theirs: Table<TheirIdentity>,
}

impl IdentityStore {
    /// The own identities held, each with its key.
    pub closed spec fn mine(&self) -> Seq<Entry<MyIdentity>> {
        self.mine@
    }

    /// The counterparts' identities held, each with its key.
    pub closed spec fn theirs(&self) -> Seq<Entry<TheirIdentity>> {
        self.theirs@
    }

    /// The number of records of each kind that the store may hold.
    pub closed spec fn limit(&self) -> nat {
        self.mine.limit()
    }

    /// The store's invariant: under each key at most one record of each
    /// kind, and of each kind no more than `limit`.
    pub closed spec fn wf(&self) -> bool {
        self.mine.wf() && self.theirs.wf() && self.theirs.limit() == self.mine.limit()
    }

    /// The own identity kept under a wallet handle and a DID.
    pub open spec fn my_identity(&self, wallet: i32, did: Seq<char>) -> Option<MyIdentityView> {
        match lookup(self.mine(), (wallet, did)) {
            Some(record) => Some(record@),
            None => None,
        }
    }

    /// The counterpart's identity kept under a wallet handle and a DID.
    pub open spec fn their_identity(&self, wallet: i32, did: Seq<char>) -> Option<
        TheirIdentityView,
    > {
        match lookup(self.theirs(), (wallet, did)) {
            Some(record) => Some(record@),
            None => None,
        }
    }

    /// What `wf` says of the records.
    pub proof fn lemma_wf(&self)
        requires
            self.wf(),
        ensures
            distinct(self.mine()),
            distinct(self.theirs()),
            self.mine().len() <= self.limit(),
            self.theirs().len() <= self.limit(),
    {
    }

    /// An empty store that may hold `limit` records of each kind.
    pub fn new(limit: usize) -> (store: IdentityStore)
        ensures
            store.wf(),
            store.limit() == limit,
            store.mine().len() == 0,
            store.theirs().len() == 0,
    {
        IdentityStore { mine: Table::new(limit), theirs: Table::new(limit) }
    }

    /// The number of own identities held.
    pub fn my_count(&self) -> (n: usize)
        ensures
            n == self.mine().len(),
    {
        self.mine.len()
    }

    /// The number of counterparts' identities held.
    pub fn their_count(&self) -> (n: usize)
        ensures
            n == self.theirs().len(),
    {
        self.theirs.len()
    }

    /// Commits a new own identity. Refused, with the store unchanged, where
    /// one is already kept under this key (`DidAlreadyExists`) or the store
    /// is full (`StorageUnavailable`).
    pub fn put_my_identity(&mut self, wallet: i32, did: String, record: MyIdentity) -> (r: Result<
        (),
        SignusError,
    >)
        requires
            old(self).wf(),
        ensures
            final(self).wf(),
            final(self).limit() == old(self).limit(),
            final(self).theirs() == old(self).theirs(),
            r == Self::put_my_outcome(old(self).mine(), old(self).limit(), wallet, did@),
            r is Err ==> final(self).mine() == old(self).mine(),
            r is Ok ==> final(self).mine() == old(self).mine().push(
                Entry { wallet, did, value: record },
            ),
            r is Ok ==> final(self).my_identity(wallet, did@) == Some(record@),
            r is Ok ==> forall|w: i32, d: Seq<char>|
                (w, d) != (wallet, did@) ==> #[trigger] final(self).my_identity(w, d) == old(
                    self,
                ).my_identity(w, d),
    {
        if self.mine.contains(wallet, &did) {
            return Err(SignusError::DidAlreadyExists);
        }
        if self.mine.len() >= self.mine.capacity() {
            return Err(SignusError::StorageUnavailable);
        }
        proof {
            lemma_push(self.mine@, Entry { wallet, did, value: record });
        }
        self.mine.push_new(wallet, did, record);
        Ok(())
    }

    /// Whether a new own identity can be committed under a key, and the
    /// error where it cannot.
    pub open spec fn put_my_outcome(
        mine: Seq<Entry<MyIdentity>>,
        limit: nat,
        wallet: i32,
        did: Seq<char>,
    ) -> Result<(), SignusError> {
        if holds(mine, (wallet, did)) {
            Err(SignusError::DidAlreadyExists)
        } else if mine.len() >= limit {
            Err(SignusError::StorageUnavailable)
        } else {
            Ok(())
        }
    }

    /// The own identity kept under a wallet handle and a DID.
    pub fn get_my_identity(&self, wallet: i32, did: &String) -> (r: Option<&MyIdentity>)
        requires
            self.wf(),
        ensures
            match r {
                Some(record) => self.my_identity(wallet, did@) == Some(record@),
                None => self.my_identity(wallet, did@) is None,
            },
    {
        self.mine.get(wallet, did)
    }

    /// Replaces the key material of an own identity in one step. Refused
    /// with `DidNotFound`, and the store unchanged, where none is kept under
    /// this key.
    pub fn update_my_identity(
        &mut self,
        wallet: i32,
        did: String,
        record: MyIdentity,
    ) -> (r: Result<
        (),
        SignusError,
    >)
        requires
            old(self).wf(),
        ensures
            final(self).wf(),
            final(self).limit() == old(self).limit(),
            final(self).theirs() == old(self).theirs(),
            final(self).mine().len() == old(self).mine().len(),
            r is Ok <==> old(self).my_identity(wallet, did@) is Some,
            r is Err ==> r->Err_0 == SignusError::DidNotFound && final(self).mine() == old(
                self,
            ).mine(),
            r is Ok ==> final(self).my_identity(wallet, did@) == Some(record@),
            r is Ok ==> forall|w: i32, d: Seq<char>|
                (w, d) != (wallet, did@) ==> #[trigger] final(self).my_identity(w, d) == old(
                    self,
                ).my_identity(w, d),
    {
        if !self.mine.contains(wallet, &did) {
            return Err(SignusError::DidNotFound);
        }
        let done = self.mine.put(wallet, did, record);
        Ok(())
    }

    /// Keeps a counterpart's identity under a key, in place of the one that
    /// is there or as a new record. Refused with `StorageUnavailable`, and
    /// the store unchanged, where the key is new and the store is full.
    pub fn put_their_identity(
        &mut self,
        wallet: i32,
        did: String,
        record: TheirIdentity,
    ) -> (r: Result<
        (),
        SignusError,
    >)
        requires
            old(self).wf(),
        ensures
            final(self).wf(),
            final(self).limit() == old(self).limit(),
            final(self).mine() == old(self).mine(),
            r is Ok <==> old(self).their_identity(wallet, did@) is Some || old(self).theirs().len()
                < old(self).limit(),
            r is Err ==> r->Err_0 == SignusError::StorageUnavailable && final(self).theirs() == old(
                self,
            ).theirs(),
            r is Ok ==> final(self).their_identity(wallet, did@) == Some(record@),
            r is Ok ==> forall|w: i32, d: Seq<char>|
                (w, d) != (wallet, did@) ==> #[trigger] final(self).their_identity(w, d) == old(
                    self,
                ).their_identity(w, d),
            r is Ok ==> final(self).theirs().len() == old(self).theirs().len() + if old(
                self,
            ).their_identity(wallet, did@) is Some {
                0int
            } else {
                1int
            },
    {
        self.theirs.put(wallet, did, record)
    }

    /// The counterpart's identity kept under a wallet handle and a DID.
    pub fn get_their_identity(&self, wallet: i32, did: &String) -> (r: Option<&TheirIdentity>)
        requires
            self.wf(),
        ensures
            match r {
                Some(record) => self.their_identity(wallet, did@) == Some(record@),
                None => self.their_identity(wallet, did@) is None,
            },
    {
        self.theirs.get(wallet, did)
    }
}

} // verus!
