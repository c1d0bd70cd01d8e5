//! The identity operations: create and rotate own identities, keep
//! counterparts' identities, sign, verify, encrypt and decrypt.
//!
//! Keys, signatures and encrypted messages cross this interface as Base58
//! text; messages are text whose UTF-8 bytes are signed and encrypted.

use vstd::prelude::*;
use vstd::utf8::*;
use vstd::slice::*;
use crate::crypto::{KeyPair, Signus};
use crate::encoding::{
    base58_bytes,
    base58_decode,
    base58_encode,
    base58_text,
    text_from_utf8,
    utf8_bytes,
    utf8_text,
};
use crate::envelope::{decoded, Envelope, EnvelopeView};
use crate::errors::SignusError;
use crate::json::{
    did_request_of,
    parse_did_request,
    parse_their_did,
    text_view,
    their_did_of,
    DidRequestView,
};
use crate::store::{IdentityStore, MyIdentity, MyIdentityView, TheirIdentity, TheirIdentityView};

verus! {

/// The number of leading bytes of a verification key that a DID is derived from.
pub const DID_KEY_BYTES: usize = 16;

/// The DID that belongs to a verification key: the Base58 text of its first
/// sixteen bytes (of all of it, where it is shorter).
pub open spec fn did_of_verkey(verkey: Seq<u8>) -> Seq<char> {
    if verkey.len() <= DID_KEY_BYTES {
        base58_text(verkey)
    } else {
        base58_text(verkey.subrange(0, DID_KEY_BYTES as int))
    }
}

/// The DID of a new identity: the one asked for, else the one derived from
/// the verification key.
pub open spec fn target_did(explicit: Option<Seq<char>>, verkey: Seq<u8>) -> Seq<char> {
    match explicit {
        Some(did) => did,
        None => did_of_verkey(verkey),
    }
}

/// The seed bytes that a request gives: the UTF-8 bytes of its `seed`, where
/// it has one that is not empty.
pub open spec fn seed_of(seed: Option<Seq<char>>) -> Option<Seq<u8>> {
    match seed {
        Some(text) => if encode_utf8(text).len() > 0 {
            Some(encode_utf8(text))
        } else {
            None
        },
        None => None,
    }
}

/// Whether two stores hold the same records.
pub open spec fn same_records(a: IdentityStore, b: IdentityStore) -> bool {
    a.mine() == b.mine() && a.theirs() == b.theirs()
}

/// Whether two stores hold the same own identities but, possibly, under one key.
pub open spec fn same_mine_but(
    a: IdentityStore,
    b: IdentityStore,
    wallet: i32,
    did: Seq<char>,
) -> bool {
    forall|w: i32, d: Seq<char>|
        (w, d) != (wallet, did) ==> #[trigger] a.my_identity(w, d) == b.my_identity(w, d)
}

/// Whether two stores hold the same counterparts but, possibly, under one key.
pub open spec fn same_theirs_but(
    a: IdentityStore,
    b: IdentityStore,
    wallet: i32,
    did: Seq<char>,
) -> bool {
    forall|w: i32, d: Seq<char>|
        (w, d) != (wallet, did) ==> #[trigger] a.their_identity(w, d) == b.their_identity(w, d)
}

/// The identity operations over a provider of scheme `C` and a store.
pub struct IdentityService<C: Signus> {
    provider: C,
    store: IdentityStore,
}

impl<C: Signus> IdentityService<C> {
    /// The store of identity records.
    pub closed spec fn store(&self) -> IdentityStore {
        self.store
    }

    /// The service's invariant: the store's own, every own identity holds a
    /// matching signing key pair of the provider's scheme, and every
    /// counterpart's key is a well-formed verification key.
    pub open spec fn wf(&self) -> bool {
        self.store().wf() && Self::records_ok(self.store())
    }

    /// What the invariant asks of the records of a store.
    pub open spec fn records_ok(store: IdentityStore) -> bool {
        &&& forall|w: i32, d: Seq<char>| #[trigger]
            store.my_identity(w, d) is Some ==> Self::my_record_ok(store.my_identity(w, d)->Some_0)
        &&& forall|w: i32, d: Seq<char>| #[trigger]
            store.their_identity(w, d) is Some ==> Self::their_record_ok(
                store.their_identity(w, d)->Some_0,
            )
    }

    /// A store that differs from a good one in one own identity, itself
    /// good, is good.
    pub proof fn lemma_mine_changed(
        before: IdentityStore,
        after: IdentityStore,
        wallet: i32,
        did: Seq<char>,
    )
        requires
            Self::records_ok(before),
            same_mine_but(after, before, wallet, did),
            after.theirs() == before.theirs(),
            after.my_identity(wallet, did) is Some ==> Self::my_record_ok(
                after.my_identity(wallet, did)->Some_0,
            ),
        ensures
            Self::records_ok(after),
    {
        assert forall|w: i32, d: Seq<char>| #[trigger]
            after.my_identity(w, d) is Some implies Self::my_record_ok(
            after.my_identity(w, d)->Some_0,
        ) by {
            if (w, d) != (wallet, did) {
                assert(after.my_identity(w, d) == before.my_identity(w, d));
            }
        }
        assert forall|w: i32, d: Seq<char>| #[trigger]
            after.their_identity(w, d) is Some implies Self::their_record_ok(
            after.their_identity(w, d)->Some_0,
        ) by {
            assert(after.their_identity(w, d) == before.their_identity(w, d));
        }
    }

    /// A store that differs from a good one in one counterpart, itself good,
    /// is good.
    pub proof fn lemma_theirs_changed(
        before: IdentityStore,
        after: IdentityStore,
        wallet: i32,
        did: Seq<char>,
    )
        requires
            Self::records_ok(before),
            same_theirs_but(after, before, wallet, did),
            after.mine() == before.mine(),
            after.their_identity(wallet, did) is Some ==> Self::their_record_ok(
                after.their_identity(wallet, did)->Some_0,
            ),
        ensures
            Self::records_ok(after),
    {
        assert forall|w: i32, d: Seq<char>| #[trigger]
            after.my_identity(w, d) is Some implies Self::my_record_ok(
            after.my_identity(w, d)->Some_0,
        ) by {
            assert(after.my_identity(w, d) == before.my_identity(w, d));
        }
        assert forall|w: i32, d: Seq<char>| #[trigger]
            after.their_identity(w, d) is Some implies Self::their_record_ok(
            after.their_identity(w, d)->Some_0,
        ) by {
            if (w, d) != (wallet, did) {
                assert(after.their_identity(w, d) == before.their_identity(w, d));
            }
        }
    }

    /// A store with the records of a good one is good.
    pub proof fn lemma_unchanged(before: IdentityStore, after: IdentityStore)
        requires
            Self::records_ok(before),
            same_records(after, before),
        ensures
            Self::records_ok(after),
    {
        assert forall|w: i32, d: Seq<char>| #[trigger]
            after.my_identity(w, d) is Some implies Self::my_record_ok(
            after.my_identity(w, d)->Some_0,
        ) by {
            assert(after.my_identity(w, d) == before.my_identity(w, d));
        }
        assert forall|w: i32, d: Seq<char>| #[trigger]
            after.their_identity(w, d) is Some implies Self::their_record_ok(
            after.their_identity(w, d)->Some_0,
        ) by {
            assert(after.their_identity(w, d) == before.their_identity(w, d));
        }
    }

    /// What the invariant asks of an own identity: its keys are a signing
    /// key pair of the provider's scheme, and the encryption keys that they
    /// convert to are well-formed and match.
    pub open spec fn my_record_ok(record: MyIdentityView) -> bool {
        &&& C::signing_pair(record.verkey, record.secret)
        &&& record.crypto_type == C::crypto_type_text()
        &&& C::private_encryption_key(C::encryption_private(record.secret))
        &&& C::public_encryption_key(C::encryption_public(record.verkey))
        &&& C::encryption_pair(
            C::encryption_public(record.verkey),
            C::encryption_private(record.secret),
        )
    }

    /// What the invariant asks of a counterpart's identity: its key is a
    /// verification key of the provider's scheme, and the encryption key
    /// that it converts to is well-formed.
    pub open spec fn their_record_ok(record: TheirIdentityView) -> bool {
        &&& C::verification_key(record.verkey)
        &&& record.crypto_type == C::crypto_type_text()
        &&& C::public_encryption_key(C::encryption_public(record.verkey))
    }

    /// A service with an empty store that may hold `limit` records of each kind.
    pub fn new(provider: C, limit: usize) -> (service: Self)
        ensures
            service.wf(),
            service.store().limit() == limit,
            service.store().mine().len() == 0,
            service.store().theirs().len() == 0,
    {
        let service = IdentityService { provider, store: IdentityStore::new(limit) };
        proof {
            service.store.lemma_wf();
        }
        service
    }

    /// Whether a scheme tag names the provider's scheme; no tag does.
    pub open spec fn scheme_admitted(tag: Option<Seq<char>>) -> bool {
        match tag {
            Some(text) => text == C::crypto_type_text(),
            None => true,
        }
    }

    fn admits_scheme(&self, tag: &Option<String>) -> (r: bool)
        ensures
            r == Self::scheme_admitted(text_view(*tag)),
    {
        match tag {
            Some(text) => {
                let own = self.provider.crypto_type();
                *text == own
            },
            None => true,
        }
    }

    /// The DID derived from a verification key.
    fn derive_did(verkey: &[u8]) -> (did: String)
        ensures
            did@ == did_of_verkey(verkey@),
    {
        if verkey.len() <= DID_KEY_BYTES {
            base58_encode(verkey)
        } else {
            base58_encode(slice_subrange(verkey, 0, DID_KEY_BYTES))
        }
    }

    /// Whether `text` is the Base58 form of `key`, and so decodes to it.
    pub open spec fn key_text(key: Seq<u8>, text: Seq<char>) -> bool {
        text == base58_text(key) && base58_bytes(text) == Some(key)
    }

    /// What committing a new own identity with the signing keys `public` and
    /// `private` does to the store, and what it returns: the DID, the
    /// verification key and the public encryption key, or the store's
    /// refusal with nothing changed.
    pub open spec fn committed(
        before: IdentityStore,
        after: IdentityStore,
        wallet: i32,
        explicit: Option<Seq<char>>,
        public: Seq<u8>,
        private: Seq<u8>,
        r: Result<(String, String, String), SignusError>,
    ) -> bool {
        let did = target_did(explicit, public);
        match r {
            Ok((did_text, verkey_text, encryption_text)) => {
                &&& IdentityStore::put_my_outcome(before.mine(), before.limit(), wallet, did) is Ok
                &&& did_text@ == did
                &&& Self::key_text(public, verkey_text@)
                &&& Self::key_text(C::encryption_public(public), encryption_text@)
                &&& after.my_identity(wallet, did) == Some(
                    MyIdentityView {
                        verkey: public,
                        crypto_type: C::crypto_type_text(),
                        secret: private,
                    },
                )
                &&& after.mine().len() == before.mine().len() + 1
                &&& same_mine_but(after, before, wallet, did)
                &&& after.theirs() == before.theirs()
            },
            Err(e) => {
                &&& IdentityStore::put_my_outcome(before.mine(), before.limit(), wallet, did) == Err::<
                    (),
                    SignusError,
                >(e)
                &&& same_records(after, before)
            },
        }
    }

    /// Commits a new own identity with a given signing key pair, under the
    /// DID asked for or the one derived from the verification key.
    pub fn commit_my_identity(
        &mut self,
        wallet: i32,
        did: Option<String>,
        pair: KeyPair,
    ) -> (r: Result<
        (String, String, String),
        SignusError,
    >)
        requires
            old(self).wf(),
            C::signing_pair(pair.public@, pair.private@),
        ensures
            final(self).wf(),
            final(self).store().limit() == old(self).store().limit(),
            Self::committed(
                old(self).store(),
                final(self).store(),
                wallet,
                text_view(did),
                pair.public@,
                pair.private@,
                r,
            ),
    {
        let encryption = self.provider.derive_encryption_key_pair(&pair);
        let did_text = match did {
            Some(text) => text,
            None => Self::derive_did(pair.public.as_slice()),
        };
        let verkey_text = base58_encode(pair.public.as_slice());
        let encryption_text = base58_encode(encryption.public.as_slice());
        let tag = self.provider.crypto_type();
        let record = MyIdentity::new(pair.public, tag, pair.private);
        let ghost before = self.store;
        match self.store.put_my_identity(wallet, did_text.clone(), record) {
            Ok(()) => {
                proof {
                    Self::lemma_mine_changed(before, self.store, wallet, did_text@);
                }
                Ok((did_text, verkey_text, encryption_text))
            },
            Err(e) => {
                proof {
                    Self::lemma_unchanged(before, self.store);
                }
                Err(e)
            },
        }
    }

    /// Whether a request gives a seed of a length that the scheme does not take.
    pub open spec fn seed_misfits(seed: Option<Seq<char>>) -> bool {
        seed_of(seed) is Some && !C::seed_length(seed_of(seed)->Some_0.len())
    }

    /// The error that a creation request itself calls for, whatever the
    /// store holds: `None` where the request is acceptable.
    pub open spec fn request_refused(document: Seq<char>) -> Option<SignusError> {
        match did_request_of(document) {
            None => Some(SignusError::InvalidIdentityJson),
            Some(request) => if !Self::scheme_admitted(request.crypto_type) {
                Some(SignusError::InvalidIdentityJson)
            } else if Self::seed_misfits(request.seed) {
                Some(SignusError::InvalidSeedLength)
            } else {
                None
            },
        }
    }

    /// Whether `public` and `private` are signing keys that a request may
    /// get: a matching pair, and the one its seed determines where it has one.
    pub open spec fn keys_for(seed: Option<Seq<char>>, public: Seq<u8>, private: Seq<u8>) -> bool {
        &&& C::signing_pair(public, private)
        &&& seed_of(seed) is Some ==> (public, private) == C::pair_of_seed(seed_of(seed)->Some_0)
    }

    /// Whether creating an identity for an acceptable request went as it
    /// does with the signing keys `public` and `private`.
    pub open spec fn created_with(
        before: IdentityStore,
        after: IdentityStore,
        wallet: i32,
        request: DidRequestView,
        public: Seq<u8>,
        private: Seq<u8>,
        r: Result<(String, String, String), SignusError>,
    ) -> bool {
        Self::keys_for(request.seed, public, private) && Self::committed(
            before,
            after,
            wallet,
            request.did,
            public,
            private,
            r,
        )
    }

    /// What creating an identity does: the request's own error with nothing
    /// changed, or what committing some signing keys that the request may
    /// get does.
    pub open spec fn creation(
        before: IdentityStore,
        after: IdentityStore,
        wallet: i32,
        document: Seq<char>,
        r: Result<(String, String, String), SignusError>,
    ) -> bool {
        &&& Self::request_refused(document) is Some ==> r is Err && r->Err_0
            == Self::request_refused(document)->Some_0 && same_records(after, before)
        &&& Self::request_refused(document) is None ==> Self::no_randomness(
            did_request_of(document)->Some_0.seed,
            r is Err,
            r->Err_0,
        ) && same_records(after, before) || exists|public: Seq<u8>, private: Seq<u8>| #[trigger]
            Self::created_with(
                before,
                after,
                wallet,
                did_request_of(document)->Some_0,
                public,
                private,
                r,
            )
    }

    /// Whether an operation failed for want of randomness: its request
    /// gave no seed, so that keys had to be drawn, and the random source
    /// gave none.
    pub open spec fn no_randomness(seed: Option<Seq<char>>, failed: bool, e: SignusError) -> bool {
        seed_of(seed) is None && failed && e == SignusError::RandomSourceFailed
    }

    /// The signing key pair that a request asks for: from its seed, or random.
    fn keys_of_request(&self, seed: &Option<String>) -> (r: Result<KeyPair, SignusError>)
        ensures
            match r {
                Ok(pair) => !Self::seed_misfits(text_view(*seed)) && Self::keys_for(
                    text_view(*seed),
                    pair.public@,
                    pair.private@,
                ),
                Err(e) => if Self::seed_misfits(text_view(*seed)) {
                    e == SignusError::InvalidSeedLength
                } else {
                    e == SignusError::RandomSourceFailed && seed_of(text_view(*seed)) is None
                },
            },
    {
        let bytes: Option<&[u8]> = match seed {
            Some(text) => Some(text.as_str().as_bytes()),
            None => None,
        };
        match self.provider.generate_signing_key_pair(bytes) {
            Ok(pair) => Ok(pair),
            Err(e) => Err(SignusError::from_crypto(e)),
        }
    }

    /// Creates an identity of the wallet's owner and stores it.
    ///
    /// The request is a JSON object with the optional members `did`, `seed`
    /// and `crypto_type`. The signing keys come from the seed, or are random
    /// where none is given; the DID is the one asked for, or derived from
    /// the verification key. Returns the DID, the verification key and the
    /// public encryption key, the keys in Base58. On an error nothing is
    /// stored.
    pub fn create_and_store_my_did(&mut self, wallet: i32, did_json: &str) -> (r: Result<
        (String, String, String),
        SignusError,
    >)
        requires
            old(self).wf(),
        ensures
            final(self).wf(),
            final(self).store().limit() == old(self).store().limit(),
            Self::creation(old(self).store(), final(self).store(), wallet, did_json@, r),
    {
        let request = match parse_did_request(did_json) {
            Ok(request) => request,
            Err(e) => {
                return Err(e);
            },
        };
        if !self.admits_scheme(&request.crypto_type) {
            return Err(SignusError::InvalidIdentityJson);
        }
        let pair = match self.keys_of_request(&request.seed) {
            Ok(pair) => pair,
            Err(e) => {
                return Err(e);
            },
        };
        let ghost public = pair.public@;
        let ghost private = pair.private@;
        let ghost before = self.store;
        let r = self.commit_my_identity(wallet, request.did, pair);
        proof {
            assert(Self::created_with(before, self.store, wallet, request@, public, private, r));
        }
        r
    }

    /// What installing the signing keys `public` and `private` under an own
    /// identity does to the store, and what it returns: the new verification
    /// key and public encryption key, or `DidNotFound` with nothing changed.
    pub open spec fn installed(
        before: IdentityStore,
        after: IdentityStore,
        wallet: i32,
        did: Seq<char>,
        public: Seq<u8>,
        private: Seq<u8>,
        r: Result<(String, String), SignusError>,
    ) -> bool {
        match r {
            Ok((verkey_text, encryption_text)) => {
                &&& before.my_identity(wallet, did) is Some
                &&& Self::key_text(public, verkey_text@)
                &&& Self::key_text(C::encryption_public(public), encryption_text@)
                &&& after.my_identity(wallet, did) == Some(
                    MyIdentityView {
                        verkey: public,
                        crypto_type: C::crypto_type_text(),
                        secret: private,
                    },
                )
                &&& after.mine().len() == before.mine().len()
                &&& same_mine_but(after, before, wallet, did)
                &&& after.theirs() == before.theirs()
            },
            Err(e) => {
                &&& e == SignusError::DidNotFound
                &&& before.my_identity(wallet, did) is None
                &&& same_records(after, before)
            },
        }
    }

    /// Replaces the keys of an own identity by a given signing key pair, in
    /// one step; the old keys are gone.
    pub fn install_keys(&mut self, wallet: i32, did: String, pair: KeyPair) -> (r: Result<
        (String, String),
        SignusError,
    >)
        requires
            old(self).wf(),
            C::signing_pair(pair.public@, pair.private@),
        ensures
            final(self).wf(),
            final(self).store().limit() == old(self).store().limit(),
            Self::installed(
                old(self).store(),
                final(self).store(),
                wallet,
                did@,
                pair.public@,
                pair.private@,
                r,
            ),
    {
        let encryption = self.provider.derive_encryption_key_pair(&pair);
        let verkey_text = base58_encode(pair.public.as_slice());
        let encryption_text = base58_encode(encryption.public.as_slice());
        let tag = self.provider.crypto_type();
        let record = MyIdentity::new(pair.public, tag, pair.private);
        let ghost before = self.store;
        let ghost did_view = did@;
        match self.store.update_my_identity(wallet, did, record) {
            Ok(()) => {
                proof {
                    Self::lemma_mine_changed(before, self.store, wallet, did_view);
                }
                Ok((verkey_text, encryption_text))
            },
            Err(e) => {
                proof {
                    Self::lemma_unchanged(before, self.store);
                }
                Err(e)
            },
        }
    }

    /// The error that a key replacement calls for before any key is made:
    /// `None` where the request is acceptable and the identity is there.
    pub open spec fn rotation_refused(
        store: IdentityStore,
        wallet: i32,
        did: Seq<char>,
        document: Seq<char>,
    ) -> Option<
        SignusError,
    > {
        match did_request_of(document) {
            None => Some(SignusError::InvalidIdentityJson),
            Some(request) => if !Self::scheme_admitted(request.crypto_type) {
                Some(SignusError::InvalidIdentityJson)
            } else if store.my_identity(wallet, did) is None {
                Some(SignusError::DidNotFound)
            } else if Self::seed_misfits(request.seed) {
                Some(SignusError::InvalidSeedLength)
            } else {
                None
            },
        }
    }

    /// Whether replacing the keys of an identity went as it does with the
    /// new signing keys `public` and `private`.
    pub open spec fn replaced_with(
        before: IdentityStore,
        after: IdentityStore,
        wallet: i32,
        did: Seq<char>,
        seed: Option<Seq<char>>,
        public: Seq<u8>,
        private: Seq<u8>,
        r: Result<(String, String), SignusError>,
    ) -> bool {
        Self::keys_for(seed, public, private) && r is Ok && Self::installed(
            before,
            after,
            wallet,
            did,
            public,
            private,
            r,
        )
    }

    /// What replacing keys does: the error that precedes the making of
    /// keys, with nothing changed, or the installing of some signing keys
    /// that the request may get.
    pub open spec fn rotation(
        before: IdentityStore,
        after: IdentityStore,
        wallet: i32,
        document: Seq<char>,
        did: Seq<char>,
        r: Result<(String, String), SignusError>,
    ) -> bool {
        &&& Self::rotation_refused(before, wallet, did, document) is Some ==> r is Err && r->Err_0
            == Self::rotation_refused(before, wallet, did, document)->Some_0 && same_records(
            after,
            before,
        )
        &&& Self::rotation_refused(before, wallet, did, document) is None ==> Self::no_randomness(
            did_request_of(document)->Some_0.seed,
            r is Err,
            r->Err_0,
        ) && same_records(after, before) || exists|public: Seq<u8>, private: Seq<u8>| #[trigger]
            Self::replaced_with(
                before,
                after,
                wallet,
                did,
                did_request_of(document)->Some_0.seed,
                public,
                private,
                r,
            )
    }

    /// Replaces the keys of an own identity by new ones.
    ///
    /// The request is a JSON object with the optional members `seed` and
    /// `crypto_type` (a `did` member is not read: the DID stays). The new
    /// signing keys come from the seed, or are random where none is given.
    /// Returns the new verification key and public encryption key in
    /// Base58. On an error the identity keeps its keys.
    pub fn replace_keys(&mut self, wallet: i32, identity_json: &str, did: &str) -> (r: Result<
        (String, String),
        SignusError,
    >)
        requires
            old(self).wf(),
        ensures
            final(self).wf(),
            final(self).store().limit() == old(self).store().limit(),
            Self::rotation(old(self).store(), final(self).store(), wallet, identity_json@, did@, r),
    {
        let request = match parse_did_request(identity_json) {
            Ok(request) => request,
            Err(e) => {
                return Err(e);
            },
        };
        if !self.admits_scheme(&request.crypto_type) {
            return Err(SignusError::InvalidIdentityJson);
        }
        let key = did.to_owned();
        if self.store.get_my_identity(wallet, &key).is_none() {
            return Err(SignusError::DidNotFound);
        }
        let pair = match self.keys_of_request(&request.seed) {
            Ok(pair) => pair,
            Err(e) => {
                return Err(e);
            },
        };
        let ghost public = pair.public@;
        let ghost private = pair.private@;
        let ghost before = self.store;
        let r = self.install_keys(wallet, key, pair);
        proof {
            assert(Self::replaced_with(
                before,
                self.store,
                wallet,
                did@,
                request@.seed,
                public,
                private,
                r,
            ));
        }
        r
    }

    /// The record that a counterpart's verification key in Base58 makes,
    /// if the text is Base58 and the key well-formed.
    pub open spec fn counterpart_record(verkey: Seq<char>, endpoint: Option<Seq<char>>) -> Option<
        TheirIdentityView,
    > {
        match base58_bytes(verkey) {
            Some(key) => if C::verification_key(key) {
                Some(
                    TheirIdentityView {
                        verkey: key,
                        crypto_type: C::crypto_type_text(),
                        endpoint: endpoint,
                    },
                )
            } else {
                None
            },
            None => None,
        }
    }

    fn make_counterpart(&self, verkey: &str, endpoint: Option<String>) -> (r: Option<TheirIdentity>)
        ensures
            match r {
                Some(record) => Self::counterpart_record(verkey@, text_view(endpoint))
                    == Some(record@) && Self::their_record_ok(record@),
                None => Self::counterpart_record(verkey@, text_view(endpoint))
                    is None,
            },
    {
        let key = match base58_decode(verkey) {
            Some(key) => key,
            None => {
                return None;
            },
        };
        if self.provider.convert_verification_key(key.as_slice()).is_none() {
            return None;
        }
        let crypto_type = self.provider.crypto_type();
        Some(TheirIdentity { verkey: key, crypto_type, endpoint })
    }

    /// What keeping a counterpart's record under a key does to the store:
    /// the record stands there, in place of an older one or as a new one, or
    /// the store is full and nothing has changed.
    pub open spec fn kept(
        before: IdentityStore,
        after: IdentityStore,
        wallet: i32,
        did: Seq<char>,
        record: TheirIdentityView,
        r: Result<(), SignusError>,
    ) -> bool {
        match r {
            Ok(()) => {
                &&& before.their_identity(wallet, did) is Some || before.theirs().len()
                    < before.limit()
                &&& after.their_identity(wallet, did) == Some(record)
                &&& same_theirs_but(after, before, wallet, did)
                &&& after.mine() == before.mine()
                &&& after.theirs().len() == before.theirs().len() + if before.their_identity(
                    wallet,
                    did,
                ) is Some {
                    0int
                } else {
                    1int
                }
            },
            Err(e) => {
                &&& e == SignusError::StorageUnavailable
                &&& before.their_identity(wallet, did) is None
                &&& before.theirs().len() >= before.limit()
                &&& same_records(after, before)
            },
        }
    }

    fn keep_counterpart(&mut self, wallet: i32, did: String, record: TheirIdentity) -> (r: Result<
        (),
        SignusError,
    >)
        requires
            old(self).wf(),
            Self::their_record_ok(record@),
        ensures
            final(self).wf(),
            final(self).store().limit() == old(self).store().limit(),
            Self::kept(old(self).store(), final(self).store(), wallet, did@, record@, r),
    {
        let ghost before = self.store;
        let ghost did_view = did@;
        let r = self.store.put_their_identity(wallet, did, record);
        proof {
            if r is Ok {
                Self::lemma_theirs_changed(before, self.store, wallet, did_view);
            } else {
                Self::lemma_unchanged(before, self.store);
            }
        }
        r
    }

    /// The counterpart that an identity JSON states, with its DID: `None`
    /// where the JSON, the scheme or the verification key is not acceptable.
    pub open spec fn their_record_of(
        document: Seq<char>,
    ) -> Option<(Seq<char>, TheirIdentityView)> {
        match their_did_of(document) {
            Some(identity) => if Self::scheme_admitted(identity.crypto_type)
                && Self::counterpart_record(identity.verkey, identity.endpoint) is Some {
                Some(
                    (identity.did, Self::counterpart_record(identity.verkey, identity.endpoint)->Some_0),
                )
            } else {
                None
            },
            None => None,
        }
    }

    /// What storing a counterpart does: `InvalidIdentityJson` with nothing
    /// changed where the JSON states no acceptable counterpart, else the
    /// keeping of its record.
    pub open spec fn storing(
        before: IdentityStore,
        after: IdentityStore,
        wallet: i32,
        document: Seq<char>,
        r: Result<(), SignusError>,
    ) -> bool {
        &&& Self::their_record_of(document) is None ==> r == Err::<(), SignusError>(
            SignusError::InvalidIdentityJson,
        ) && same_records(after, before)
        &&& Self::their_record_of(document) is Some ==> Self::kept(
            before,
            after,
            wallet,
            Self::their_record_of(document)->Some_0.0,
            Self::their_record_of(document)->Some_0.1,
            r,
        )
    }

    /// Stores a counterpart's identity, in place of the one kept under its
    /// DID or as a new record.
    ///
    /// The identity is a JSON object with the members `did` and `verkey`
    /// (Base58) and the optional members `crypto_type` and `endpoint`.
    /// Anything else, another scheme or a malformed key is
    /// `InvalidIdentityJson`. On an error nothing is stored.
    pub fn store_their_did(
        &mut self,
        wallet: i32,
        identity_json: &str,
    ) -> (r: Result<(), SignusError>)
        requires
            old(self).wf(),
        ensures
            final(self).wf(),
            final(self).store().limit() == old(self).store().limit(),
            Self::storing(old(self).store(), final(self).store(), wallet, identity_json@, r),
    {
        let identity = match parse_their_did(identity_json) {
            Ok(identity) => identity,
            Err(e) => {
                return Err(e);
            },
        };
        if !self.admits_scheme(&identity.crypto_type) {
            return Err(SignusError::InvalidIdentityJson);
        }
        let record = match self.make_counterpart(identity.verkey.as_str(), identity.endpoint) {
            Some(record) => record,
            None => {
                return Err(SignusError::InvalidIdentityJson);
            },
        };
        self.keep_counterpart(wallet, identity.did, record)
    }

    /// Whether an own identity is kept under a wallet handle and a DID.
    pub fn has_identity(&self, wallet: i32, did: &str) -> (r: bool)
        requires
            self.wf(),
        ensures
            r == self.store().my_identity(wallet, did@) is Some,
    {
        let key = did.to_owned();
        self.store.get_my_identity(wallet, &key).is_some()
    }

    /// Whether a counterpart's identity is kept under a wallet handle and a DID.
    pub fn knows_counterpart(&self, wallet: i32, did: &str) -> (r: bool)
        requires
            self.wf(),
        ensures
            r == self.store().their_identity(wallet, did@) is Some,
    {
        let key = did.to_owned();
        self.store.get_their_identity(wallet, &key).is_some()
    }

    /// Keeps what a resolver found for a counterpart. A key that is not
    /// Base58 or not well-formed is no answer: `UnknownDid`, nothing stored.
    pub fn cache_counterpart(
        &mut self,
        wallet: i32,
        did: &str,
        verkey: &str,
        endpoint: Option<String>,
    ) -> (r: Result<(), SignusError>)
        requires
            old(self).wf(),
        ensures
            final(self).wf(),
            final(self).store().limit() == old(self).store().limit(),
            Self::counterpart_record(verkey@, text_view(endpoint)) is None ==> r
                == Err::<(), SignusError>(SignusError::UnknownDid) && same_records(
                final(self).store(),
                old(self).store(),
            ),
            Self::counterpart_record(verkey@, text_view(endpoint)) is Some
                ==> Self::kept(
                old(self).store(),
                final(self).store(),
                wallet,
                did@,
                Self::counterpart_record(verkey@, text_view(endpoint))->Some_0,
                r,
            ),
    {
        let record = match self.make_counterpart(verkey, endpoint) {
            Some(record) => record,
            None => {
                return Err(SignusError::UnknownDid);
            },
        };
        self.keep_counterpart(wallet, did.to_owned(), record)
    }

    /// Whether `text` is the Base58 form of a well-formed signature that is
    /// valid for the UTF-8 bytes of `message` under `verkey`.
    pub open spec fn signed(verkey: Seq<u8>, message: Seq<char>, text: Seq<char>) -> bool {
        &&& base58_bytes(text) is Some
        &&& C::signature_format(base58_bytes(text)->Some_0)
        &&& C::accepts(verkey, encode_utf8(message), base58_bytes(text)->Some_0)
    }

    /// What signing gives: a signature that verifies under the own
    /// identity's verification key, or `DidNotFound` where there is none.
    pub open spec fn signing(
        store: IdentityStore,
        wallet: i32,
        did: Seq<char>,
        message: Seq<char>,
        r: Result<String, SignusError>,
    ) -> bool {
        match r {
            Ok(text) => store.my_identity(wallet, did) is Some && Self::signed(
                store.my_identity(wallet, did)->Some_0.verkey,
                message,
                text@,
            ),
            Err(e) => e == SignusError::DidNotFound && store.my_identity(wallet, did) is None,
        }
    }

    /// Signs a message with the private key of an own identity.
    ///
    /// Returns the signature in Base58: one that verifies under the
    /// identity's verification key. `DidNotFound` where the wallet holds no
    /// own identity under the DID.
    pub fn sign(&self, wallet: i32, did: &str, message: &str) -> (r: Result<String, SignusError>)
        requires
            self.wf(),
        ensures
            Self::signing(self.store(), wallet, did@, message@, r),
    {
        let key = did.to_owned();
        match self.store.get_my_identity(wallet, &key) {
            None => Err(SignusError::DidNotFound),
            Some(me) => {
                proof {
                    C::lemma_signing_pair_key(me@.verkey, me@.secret);
                }
                let signature = self.provider.sign(me.signing_key(), message.as_bytes());
                Ok(base58_encode(signature.as_slice()))
            },
        }
    }

    /// What verifying a signature gives: `UnknownDid` where no counterpart
    /// is kept under the DID, `InvalidSignatureFormat` where the text is not
    /// the Base58 form of a well-formed signature, else whether the
    /// signature is valid for the message under the counterpart's key.
    pub open spec fn verification(
        store: IdentityStore,
        wallet: i32,
        did: Seq<char>,
        message: Seq<char>,
        signature: Seq<char>,
    ) -> Result<bool, SignusError> {
        match store.their_identity(wallet, did) {
            None => Err(SignusError::UnknownDid),
            Some(them) => match base58_bytes(signature) {
                None => Err(SignusError::InvalidSignatureFormat),
                Some(bytes) => if C::signature_format(bytes) {
                    Ok(C::accepts(them.verkey, encode_utf8(message), bytes))
                } else {
                    Err(SignusError::InvalidSignatureFormat)
                },
            },
        }
    }

    /// Verifies a signature on a message against a counterpart's
    /// verification key. A signature that does not match is `Ok(false)`.
    pub fn verify_signature(
        &self,
        wallet: i32,
        did: &str,
        message: &str,
        signature: &str,
    ) -> (r: Result<
        bool,
        SignusError,
    >)
        requires
            self.wf(),
        ensures
            r == Self::verification(self.store(), wallet, did@, message@, signature@),
    {
        let key = did.to_owned();
        let them = match self.store.get_their_identity(wallet, &key) {
            Some(them) => them,
            None => {
                return Err(SignusError::UnknownDid);
            },
        };
        let bytes = match base58_decode(signature) {
            Some(bytes) => bytes,
            None => {
                return Err(SignusError::InvalidSignatureFormat);
            },
        };
        match self.provider.verify(them.verkey.as_slice(), message.as_bytes(), bytes.as_slice()) {
            Ok(valid) => Ok(valid),
            Err(e) => Err(SignusError::from_crypto(e)),
        }
    }

    /// The encryption key pair of an own identity.
    fn encryption_keys(&self, me: &MyIdentity) -> (r: KeyPair)
        requires
            Self::my_record_ok(me@),
        ensures
            r.public@ == C::encryption_public(me@.verkey),
            r.private@ == C::encryption_private(me@.secret),
            C::private_encryption_key(r.private@),
            C::public_encryption_key(r.public@),
            C::encryption_pair(r.public@, r.private@),
    {
        let signing = KeyPair {
            public: slice_to_vec(me.verkey()),
            private: slice_to_vec(me.signing_key()),
        };
        self.provider.derive_encryption_key_pair(&signing)
    }

    /// Whether `text` is the Base58 form of an envelope that names the
    /// sender by the DID, and whose ciphertext opens to the UTF-8 bytes of
    /// `message` under the own identity's private and the counterpart's
    /// public encryption key, both kept under the DID; and opens to them as
    /// well from the counterpart's side, under the private key that matches
    /// the counterpart's public key and the own public key.
    pub open spec fn sealed(
        store: IdentityStore,
        wallet: i32,
        did: Seq<char>,
        message: Seq<char>,
        text: Seq<char>,
    ) -> bool {
        &&& store.my_identity(wallet, did) is Some
        &&& store.their_identity(wallet, did) is Some
        &&& base58_bytes(text) is Some
        &&& decoded(base58_bytes(text)->Some_0) is Some
        &&& {
            let envelope = decoded(base58_bytes(text)->Some_0)->Some_0;
            &&& envelope.by_did
            &&& envelope.sender == encode_utf8(did)
            &&& envelope.nonce.len() == C::nonce_len()
            &&& C::opened(
                C::encryption_private(store.my_identity(wallet, did)->Some_0.secret),
                C::encryption_public(store.their_identity(wallet, did)->Some_0.verkey),
                envelope.ciphertext,
                envelope.nonce,
            ) == Some(encode_utf8(message))
            &&& forall|own_public: Seq<u8>, peer_private: Seq<u8>|
                #![trigger C::opened(peer_private, own_public, envelope.ciphertext, envelope.nonce)]
                C::encryption_pair(
                    own_public,
                    C::encryption_private(store.my_identity(wallet, did)->Some_0.secret),
                ) && C::encryption_pair(
                    C::encryption_public(store.their_identity(wallet, did)->Some_0.verkey),
                    peer_private,
                ) && C::private_encryption_key(peer_private) && C::public_encryption_key(
                    own_public,
                ) ==> C::opened(peer_private, own_public, envelope.ciphertext, envelope.nonce)
                    == Some(encode_utf8(message))
        }
    }

    /// What sealing with a given nonce gives: an envelope that carries the
    /// nonce, `DidNotFound` where the wallet holds no own identity under the
    /// DID, else `UnknownDid` where it holds no counterpart.
    pub open spec fn sealing(
        store: IdentityStore,
        wallet: i32,
        did: Seq<char>,
        message: Seq<char>,
        nonce: Seq<u8>,
        r: Result<String, SignusError>,
    ) -> bool {
        match r {
            Ok(text) => Self::sealed(store, wallet, did, message, text@) && decoded(
                base58_bytes(text@)->Some_0,
            )->Some_0.nonce == nonce,
            Err(e) => if store.my_identity(wallet, did) is None {
                e == SignusError::DidNotFound
            } else {
                e == SignusError::UnknownDid && store.their_identity(wallet, did) is None
            },
        }
    }

    /// What encrypting gives: a sealed envelope; `DidNotFound` where the
    /// wallet holds no own identity under the DID, else `UnknownDid` where
    /// it holds no counterpart; and where it holds both, `RandomSourceFailed`
    /// if no nonce could be drawn.
    pub open spec fn encrypting(
        store: IdentityStore,
        wallet: i32,
        did: Seq<char>,
        message: Seq<char>,
        r: Result<String, SignusError>,
    ) -> bool {
        match r {
            Ok(text) => Self::sealed(store, wallet, did, message, text@),
            Err(e) => if store.my_identity(wallet, did) is None {
                e == SignusError::DidNotFound
            } else if store.their_identity(wallet, did) is None {
                e == SignusError::UnknownDid
            } else {
                e == SignusError::RandomSourceFailed
            },
        }
    }

    /// Encrypts a message between the own identity and the counterpart that
    /// are kept under a DID, with a nonce that the caller has drawn and uses
    /// for no other message. Returns, in Base58, the envelope of nonce,
    /// ciphertext and the DID as the sender's name.
    pub fn encrypt_with_nonce(
        &self,
        wallet: i32,
        did: &str,
        message: &str,
        nonce: Vec<u8>,
    ) -> (r: Result<String, SignusError>)
        requires
            self.wf(),
            nonce@.len() == C::nonce_len(),
        ensures
            Self::sealing(self.store(), wallet, did@, message@, nonce@, r),
    {
        let key = did.to_owned();
        let me = match self.store.get_my_identity(wallet, &key) {
            Some(me) => me,
            None => {
                return Err(SignusError::DidNotFound);
            },
        };
        let them = match self.store.get_their_identity(wallet, &key) {
            Some(them) => them,
            None => {
                return Err(SignusError::UnknownDid);
            },
        };
        let own = self.encryption_keys(me);
        let peer = self.provider.convert_verification_key(them.verkey.as_slice()).unwrap();
        let ciphertext = self.provider.encrypt(
            own.private.as_slice(),
            peer.as_slice(),
            message.as_bytes(),
            nonce.as_slice(),
        );
        let envelope = Envelope { by_did: true, nonce, sender: utf8_bytes(did), ciphertext };
        let bytes = envelope.encode();
        Ok(base58_encode(bytes.as_slice()))
    }

    /// Encrypts a message between the own identity and the counterpart that
    /// are kept under a DID.
    ///
    /// A fresh nonce is drawn for every call. Returns, in Base58, the
    /// envelope of nonce, ciphertext and the DID as the sender's name.
    /// `DidNotFound` where the wallet holds no own identity under the DID,
    /// else `UnknownDid` where it holds no counterpart; with both held, the
    /// call fails only where the system has no randomness for the nonce.
    pub fn encrypt(&self, wallet: i32, did: &str, message: &str) -> (r: Result<String, SignusError>)
        requires
            self.wf(),
        ensures
            Self::encrypting(self.store(), wallet, did@, message@, r),
    {
        if !self.has_identity(wallet, did) {
            return Err(SignusError::DidNotFound);
        }
        if !self.knows_counterpart(wallet, did) {
            return Err(SignusError::UnknownDid);
        }
        match self.provider.generate_nonce() {
            Ok(nonce) => self.encrypt_with_nonce(wallet, did, message, nonce),
            Err(e) => Err(SignusError::from_crypto(e)),
        }
    }

    /// The verification key of an envelope's sender: the key it carries, or
    /// the key of the counterpart kept under the DID it carries.
    pub open spec fn sender_key(
        store: IdentityStore,
        wallet: i32,
        envelope: EnvelopeView,
    ) -> Result<
        Seq<u8>,
        SignusError,
    > {
        if envelope.by_did {
            match utf8_text(envelope.sender) {
                None => Err(SignusError::DecryptionFailed),
                Some(did) => match store.their_identity(wallet, did) {
                    None => Err(SignusError::UnknownDid),
                    Some(them) => Ok(them.verkey),
                },
            }
        } else if C::verification_key(envelope.sender) {
            Ok(envelope.sender)
        } else {
            Err(SignusError::DecryptionFailed)
        }
    }

    /// What decrypting gives: `DidNotFound` where the wallet holds no own
    /// identity under the DID; `DecryptionFailed` where the text is no
    /// Base58 envelope, its sender is malformed, the ciphertext does not
    /// open or the plaintext is not UTF-8; `UnknownDid` where the envelope
    /// names a sender that is not kept; else the message.
    pub open spec fn decryption(
        store: IdentityStore,
        wallet: i32,
        did: Seq<char>,
        text: Seq<char>,
    ) -> Result<
        Seq<char>,
        SignusError,
    > {
        if store.my_identity(wallet, did) is None {
            Err(SignusError::DidNotFound)
        } else if base58_bytes(text) is None || decoded(base58_bytes(text)->Some_0) is None {
            Err(SignusError::DecryptionFailed)
        } else {
            let envelope = decoded(base58_bytes(text)->Some_0)->Some_0;
            match Self::sender_key(store, wallet, envelope) {
                Err(e) => Err(e),
                Ok(verkey) => match C::opened(
                    C::encryption_private(store.my_identity(wallet, did)->Some_0.secret),
                    C::encryption_public(verkey),
                    envelope.ciphertext,
                    envelope.nonce,
                ) {
                    None => Err(SignusError::DecryptionFailed),
                    Some(plain) => match utf8_text(plain) {
                        None => Err(SignusError::DecryptionFailed),
                        Some(message) => Ok(message),
                    },
                },
            }
        }
    }

    /// Whether a result is what decrypting gives.
    pub open spec fn decrypting(
        store: IdentityStore,
        wallet: i32,
        did: Seq<char>,
        text: Seq<char>,
        r: Result<String, SignusError>,
    ) -> bool {
        match r {
            Ok(message) => Self::decryption(store, wallet, did, text) == Ok::<
                Seq<char>,
                SignusError,
            >(message@),
            Err(e) => Self::decryption(store, wallet, did, text) == Err::<Seq<char>, SignusError>(
                e,
            ),
        }
    }

    /// The public encryption key of an envelope's sender.
    fn sender_encryption_key(&self, wallet: i32, envelope: &Envelope) -> (r: Result<
        Vec<u8>,
        SignusError,
    >)
        requires
            self.wf(),
        ensures
            match r {
                Ok(key) => Self::sender_key(self.store(), wallet, envelope@) is Ok && key@
                    == C::encryption_public(
                    Self::sender_key(self.store(), wallet, envelope@)->Ok_0,
                ),
                Err(e) => Self::sender_key(self.store(), wallet, envelope@) == Err::<
                    Seq<u8>,
                    SignusError,
                >(e),
            },
    {
        if envelope.by_did {
            let did = match text_from_utf8(slice_to_vec(envelope.sender.as_slice())) {
                Some(did) => did,
                None => {
                    return Err(SignusError::DecryptionFailed);
                },
            };
            match self.store.get_their_identity(wallet, &did) {
                None => Err(SignusError::UnknownDid),
                Some(them) => Ok(
                    self.provider.convert_verification_key(them.verkey.as_slice()).unwrap(),
                ),
            }
        } else {
            match self.provider.convert_verification_key(envelope.sender.as_slice()) {
                Some(key) => Ok(key),
                None => Err(SignusError::DecryptionFailed),
            }
        }
    }

    /// Decrypts an envelope with the private key of an own identity and the
    /// public key of the sender that the envelope names.
    pub fn decrypt(
        &self,
        wallet: i32,
        did: &str,
        encrypted: &str,
    ) -> (r: Result<String, SignusError>)
        requires
            self.wf(),
        ensures
            Self::decrypting(self.store(), wallet, did@, encrypted@, r),
    {
        let key = did.to_owned();
        let me = match self.store.get_my_identity(wallet, &key) {
            Some(me) => me,
            None => {
                return Err(SignusError::DidNotFound);
            },
        };
        let bytes = match base58_decode(encrypted) {
            Some(bytes) => bytes,
            None => {
                return Err(SignusError::DecryptionFailed);
            },
        };
        let envelope = match Envelope::decode(bytes.as_slice()) {
            Some(envelope) => envelope,
            None => {
                return Err(SignusError::DecryptionFailed);
            },
        };
        let peer = match self.sender_encryption_key(wallet, &envelope) {
            Ok(peer) => peer,
            Err(e) => {
                return Err(e);
            },
        };
        let own = self.encryption_keys(me);
        let plain = match self.provider.decrypt(
            own.private.as_slice(),
            peer.as_slice(),
            envelope.ciphertext.as_slice(),
            envelope.nonce.as_slice(),
        ) {
            Ok(plain) => plain,
            Err(_) => {
                return Err(SignusError::DecryptionFailed);
            },
        };
        match text_from_utf8(plain) {
            Some(message) => Ok(message),
            None => Err(SignusError::DecryptionFailed),
        }
    }

    /// The DID by which an encrypted message names its sender, if it names
    /// it by a DID.
    pub open spec fn named_sender(text: Seq<char>) -> Option<Seq<char>> {
        if base58_bytes(text) is Some && decoded(base58_bytes(text)->Some_0) is Some && decoded(
            base58_bytes(text)->Some_0,
        )->Some_0.by_did {
            utf8_text(decoded(base58_bytes(text)->Some_0)->Some_0.sender)
        } else {
            None
        }
    }

    /// Reads the sender's DID from an encrypted message.
    pub fn sender_did(encrypted: &str) -> (r: Option<String>)
        ensures
            text_view(r) == Self::named_sender(encrypted@),
    {
        let bytes = match base58_decode(encrypted) {
            Some(bytes) => bytes,
            None => {
                return None;
            },
        };
        match Envelope::decode(bytes.as_slice()) {
            Some(envelope) => if envelope.by_did {
                text_from_utf8(envelope.sender)
            } else {
                None
            },
            None => None,
        }
    }

    /// A signature made for an own identity verifies against a counterpart
    /// kept under the same DID with the same verification key.
    pub proof fn law_signed_verifies(
        store: IdentityStore,
        wallet: i32,
        did: Seq<char>,
        message: Seq<char>,
        signature: Seq<char>,
    )
        requires
            store.my_identity(wallet, did) is Some,
            store.their_identity(wallet, did) is Some,
            store.their_identity(wallet, did)->Some_0.verkey == store.my_identity(
                wallet,
                did,
            )->Some_0.verkey,
            Self::signed(store.my_identity(wallet, did)->Some_0.verkey, message, signature),
        ensures
            Self::verification(store, wallet, did, message, signature) == Ok::<bool, SignusError>(
                true,
            ),
    {
    }

    /// What `encrypt` returned for a message, `decrypt` turns back into the
    /// message, in the same wallet and under the same DID.
    pub proof fn law_decrypt_inverts_encrypt(
        store: IdentityStore,
        wallet: i32,
        did: Seq<char>,
        message: Seq<char>,
        encrypted: Seq<char>,
    )
        requires
            Self::sealed(store, wallet, did, message, encrypted),
        ensures
            Self::decryption(store, wallet, did, encrypted) == Ok::<Seq<char>, SignusError>(
                message,
            ),
    {
        encode_utf8_valid_utf8(did);
        encode_utf8_decode_utf8(did);
        encode_utf8_valid_utf8(message);
        encode_utf8_decode_utf8(message);
    }

    /// Two identities created from requests with the same seed have the
    /// same keys, and the same DID where it is derived or asked for alike.
    pub proof fn law_seed_determines_identity(
        before1: IdentityStore,
        after1: IdentityStore,
        wallet1: i32,
        public1: Seq<u8>,
        private1: Seq<u8>,
        r1: Result<(String, String, String), SignusError>,
        before2: IdentityStore,
        after2: IdentityStore,
        wallet2: i32,
        public2: Seq<u8>,
        private2: Seq<u8>,
        r2: Result<(String, String, String), SignusError>,
        request: DidRequestView,
    )
        requires
            seed_of(request.seed) is Some,
            Self::created_with(before1, after1, wallet1, request, public1, private1, r1),
            Self::created_with(before2, after2, wallet2, request, public2, private2, r2),
            r1 is Ok,
            r2 is Ok,
        ensures
            r1->Ok_0.0@ == r2->Ok_0.0@,
            r1->Ok_0.1@ == r2->Ok_0.1@,
            r1->Ok_0.2@ == r2->Ok_0.2@,
            after1.my_identity(wallet1, r1->Ok_0.0@) == after2.my_identity(wallet2, r2->Ok_0.0@),
    {
    }

    /// A signature made after a key replacement is made with the new key:
    /// it verifies under the verification key that the replacement installed.
    pub proof fn law_sign_after_rotation(
        before: IdentityStore,
        after: IdentityStore,
        wallet: i32,
        did: Seq<char>,
        public: Seq<u8>,
        private: Seq<u8>,
        replaced: Result<(String, String), SignusError>,
        message: Seq<char>,
        signature: Result<String, SignusError>,
    )
        requires
            replaced is Ok,
            Self::installed(before, after, wallet, did, public, private, replaced),
            Self::signing(after, wallet, did, message, signature),
        ensures
            signature is Ok,
            Self::signed(public, message, signature->Ok_0@),
            base58_bytes(replaced->Ok_0.0@) == Some(public) ==> Self::signed(
                base58_bytes(replaced->Ok_0.0@)->Some_0,
                message,
                signature->Ok_0@,
            ),
    {
    }

    /// Storing a counterpart twice under one DID leaves one record under
    /// it, the later one: the second storing cannot fail for want of room
    /// and adds no record.
    pub proof fn law_their_did_upsert(
        first: IdentityStore,
        second: IdentityStore,
        third: IdentityStore,
        wallet: i32,
        did: Seq<char>,
        earlier: TheirIdentityView,
        later: TheirIdentityView,
        r: Result<(), SignusError>,
    )
        requires
            third.wf(),
            Self::kept(first, second, wallet, did, earlier, Ok::<(), SignusError>(())),
            Self::kept(second, third, wallet, did, later, r),
        ensures
            r is Ok,
            third.their_identity(wallet, did) == Some(later),
            third.theirs().len() == second.theirs().len(),
            crate::store::distinct(third.theirs()),
    {
        third.lemma_wf();
    }

    /// What one party encrypts, its counterpart decrypts: where each wallet
    /// holds under the DID its own identity and, as the counterpart, the
    /// other's verification key, the recipient's `decrypt` turns what the
    /// sender's `encrypt` returned back into the message.
    pub proof fn law_counterpart_decrypts(
        sender: IdentityStore,
        sender_wallet: i32,
        recipient: IdentityStore,
        recipient_wallet: i32,
        did: Seq<char>,
        message: Seq<char>,
        encrypted: Seq<char>,
    )
        requires
            Self::records_ok(sender),
            Self::records_ok(recipient),
            Self::sealed(sender, sender_wallet, did, message, encrypted),
            recipient.my_identity(recipient_wallet, did) is Some,
            recipient.their_identity(recipient_wallet, did) is Some,
            recipient.their_identity(recipient_wallet, did)->Some_0.verkey == sender.my_identity(
                sender_wallet,
                did,
            )->Some_0.verkey,
            sender.their_identity(sender_wallet, did)->Some_0.verkey == recipient.my_identity(
                recipient_wallet,
                did,
            )->Some_0.verkey,
        ensures
            Self::decryption(recipient, recipient_wallet, did, encrypted) == Ok::<
                Seq<char>,
                SignusError,
            >(message),
    {
        encode_utf8_valid_utf8(did);
        encode_utf8_decode_utf8(did);
        encode_utf8_valid_utf8(message);
        encode_utf8_decode_utf8(message);
        let envelope = decoded(base58_bytes(encrypted)->Some_0)->Some_0;
        let mine = sender.my_identity(sender_wallet, did)->Some_0;
        let yours = recipient.my_identity(recipient_wallet, did)->Some_0;
        assert(Self::my_record_ok(mine));
        assert(Self::my_record_ok(yours));
        assert(C::opened(
            C::encryption_private(yours.secret),
            C::encryption_public(mine.verkey),
            envelope.ciphertext,
            envelope.nonce,
        ) == Some(encode_utf8(message)));
    }

    /// A well-formed signature that the scheme does not accept under the
    /// counterpart's key is a plain `false`, no error.
    pub proof fn law_rejected_is_false(
        store: IdentityStore,
        wallet: i32,
        did: Seq<char>,
        message: Seq<char>,
        signature: Seq<char>,
    )
        requires
            store.their_identity(wallet, did) is Some,
            base58_bytes(signature) is Some,
            C::signature_format(base58_bytes(signature)->Some_0),
            !C::accepts(
                store.their_identity(wallet, did)->Some_0.verkey,
                encode_utf8(message),
                base58_bytes(signature)->Some_0,
            ),
        ensures
            Self::verification(store, wallet, did, message, signature) == Ok::<bool, SignusError>(
                false,
            ),
    {
    }

    /// An envelope whose ciphertext does not open under the keys of
    /// recipient and sender gives `DecryptionFailed` and no plaintext.
    pub proof fn law_unopened_is_failure(
        store: IdentityStore,
        wallet: i32,
        did: Seq<char>,
        encrypted: Seq<char>,
    )
        requires
            store.my_identity(wallet, did) is Some,
            base58_bytes(encrypted) is Some,
            decoded(base58_bytes(encrypted)->Some_0) is Some,
            Self::sender_key(store, wallet, decoded(base58_bytes(encrypted)->Some_0)->Some_0)
                is Ok,
            C::opened(
                C::encryption_private(store.my_identity(wallet, did)->Some_0.secret),
                C::encryption_public(
                    Self::sender_key(
                        store,
                        wallet,
                        decoded(base58_bytes(encrypted)->Some_0)->Some_0,
                    )->Ok_0,
                ),
                decoded(base58_bytes(encrypted)->Some_0)->Some_0.ciphertext,
                decoded(base58_bytes(encrypted)->Some_0)->Some_0.nonce,
            ) is None,
        ensures
            Self::decryption(store, wallet, did, encrypted) == Err::<Seq<char>, SignusError>(
                SignusError::DecryptionFailed,
            ),
    {
    }
}

} // verus!
