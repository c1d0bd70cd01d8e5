//! The cryptographic provider interface and its Ed25519 / X25519 provider.
//!
//! A provider is stateless: it generates signing key pairs, signs and
//! verifies, converts signing keys to encryption keys, and seals and opens
//! messages under the secret that two parties' keys agree on.

use vstd::prelude::*;
use sha2::Digest;
use crate::errors::CryptoError;

verus! {

/// A public key with the private key that matches it.
pub struct KeyPair {
    pub public: Vec<u8>,
    pub private: Vec<u8>,
}

/// One family of signature and encryption schemes.
///
/// The spec functions are the scheme's mathematical model; the executable
/// methods are stated over them.
pub trait Signus {
    /// The tag under which identity records name this scheme.
    spec fn crypto_type_text() -> Seq<char>;

    /// Whether a seed of `len` bytes is of a length that the scheme takes.
    spec fn seed_length(len: nat) -> bool;

    /// The length in bytes of a nonce.
    spec fn nonce_len() -> nat;

    /// Whether `private` is a well-formed private signing key.
    spec fn signing_key(private: Seq<u8>) -> bool;

    /// Whether `public` is the verification key of the signing key `private`.
    spec fn signing_pair(public: Seq<u8>, private: Seq<u8>) -> bool;

    /// The `(public, private)` signing keys that a seed of a fitting length determines.
    spec fn pair_of_seed(seed: Seq<u8>) -> (Seq<u8>, Seq<u8>);

    /// Whether `key` is a well-formed public verification key.
    spec fn verification_key(key: Seq<u8>) -> bool;

    /// The public encryption key that a verification key converts to.
    spec fn encryption_public(verification_key: Seq<u8>) -> Seq<u8>;

    /// The private encryption key that a private signing key converts to.
    spec fn encryption_private(signing_key: Seq<u8>) -> Seq<u8>;

    /// Whether `key` is a well-formed private encryption key.
    spec fn private_encryption_key(key: Seq<u8>) -> bool;

    /// Whether `key` is a well-formed public encryption key.
    spec fn public_encryption_key(key: Seq<u8>) -> bool;

    /// Whether `public` is the public encryption key that matches the private
    /// encryption key `private`.
    spec fn encryption_pair(public: Seq<u8>, private: Seq<u8>) -> bool;

    /// Whether `signature` parses in the scheme's signature encoding.
    spec fn signature_format(signature: Seq<u8>) -> bool;

    /// Whether `signature` is valid for `message` under the verification key `public`.
    spec fn accepts(public: Seq<u8>, message: Seq<u8>, signature: Seq<u8>) -> bool;

    /// The message that `ciphertext` authenticates and decrypts to under the
    /// secret agreed between `private` and `public`, bound to `nonce`; `None`
    /// where authentication fails or an input is malformed.
    spec fn opened(
        private: Seq<u8>,
        public: Seq<u8>,
        ciphertext: Seq<u8>,
        nonce: Seq<u8>,
    ) -> Option<Seq<u8>>;

    /// The private half of a signing key pair is a well-formed signing key.
    proof fn lemma_signing_pair_key(public: Seq<u8>, private: Seq<u8>)
        requires
            Self::signing_pair(public, private),
        ensures
            Self::signing_key(private),
    ;

    /// The scheme's tag.
    fn crypto_type(&self) -> (tag: String)
        ensures
            tag@ == Self::crypto_type_text(),
    ;

    /// A signing key pair: the one that the seed determines, or a fresh random
    /// one where no seed (or an empty one) is given. A non-empty seed of a
    /// length that the scheme does not take is refused. Only the drawing of
    /// random keys can fail otherwise, where the system has no randomness.
    fn generate_signing_key_pair(&self, seed: Option<&[u8]>) -> (r: Result<KeyPair, CryptoError>)
        ensures
            seeded(seed) && Self::seed_length(seed->Some_0@.len()) ==> r is Ok && (
                r->Ok_0.public@,
                r->Ok_0.private@,
            ) == Self::pair_of_seed(seed->Some_0@),
            seeded(seed) && !Self::seed_length(seed->Some_0@.len()) ==> r is Err && r->Err_0
                == CryptoError::InvalidSeedLength,
            !seeded(seed) && r is Err ==> r->Err_0 == CryptoError::RandomSourceFailed,
            r is Ok ==> Self::signing_pair(r->Ok_0.public@, r->Ok_0.private@),
    ;

    /// The encryption key pair that matches a signing key pair.
    fn derive_encryption_key_pair(&self, signing: &KeyPair) -> (r: KeyPair)
        requires
            Self::signing_pair(signing.public@, signing.private@),
        ensures
            r.public@ == Self::encryption_public(signing.public@),
            r.private@ == Self::encryption_private(signing.private@),
            Self::private_encryption_key(r.private@),
            Self::public_encryption_key(r.public@),
            Self::encryption_pair(r.public@, r.private@),
            Self::verification_key(signing.public@),
    ;

    /// The public encryption key of a counterpart, from its verification key;
    /// `None` exactly where the key is not a well-formed verification key.
    fn convert_verification_key(&self, verification_key: &[u8]) -> (r: Option<Vec<u8>>)
        ensures
            r is Some <==> Self::verification_key(verification_key@),
            r is Some ==> r->Some_0@ == Self::encryption_public(verification_key@),
            r is Some ==> Self::public_encryption_key(r->Some_0@),
    ;

    /// Signs a message. The signature is well-formed and valid under every
    /// verification key that matches the signing key.
    fn sign(&self, private_key: &[u8], message: &[u8]) -> (signature: Vec<u8>)
        requires
            Self::signing_key(private_key@),
        ensures
            Self::signature_format(signature@),
            forall|public: Seq<u8>| #[trigger]
                Self::signing_pair(public, private_key@) ==> Self::accepts(
                    public,
                    message@,
                    signature@,
                ),
    ;

    /// Whether a signature is valid for a message under a verification key.
    /// A well-formed signature that does not match gives `false`; one that
    /// does not parse is an error.
    fn verify(&self, public_key: &[u8], message: &[u8], signature: &[u8]) -> (r: Result<
        bool,
        CryptoError,
    >)
        ensures
            Self::signature_format(signature@) ==> r == Ok::<bool, CryptoError>(
                Self::accepts(public_key@, message@, signature@),
            ),
            !Self::signature_format(signature@) ==> r == Err::<bool, CryptoError>(
                CryptoError::InvalidSignatureFormat,
            ),
    ;

    /// A fresh random nonce, or `RandomSourceFailed` where the system has no
    /// randomness.
    fn generate_nonce(&self) -> (r: Result<Vec<u8>, CryptoError>)
        ensures
            match r {
                Ok(nonce) => nonce@.len() == Self::nonce_len(),
                Err(e) => e == CryptoError::RandomSourceFailed,
            },
    ;

    /// Seals a message under the secret agreed between `private_key` and
    /// `public_key`, bound to `nonce`. Opening the result with the same keys
    /// and nonce gives the message back, and so does opening it from the
    /// other side: with the private key that matches `public_key` and the
    /// public key that matches `private_key`.
    fn encrypt(
        &self,
        private_key: &[u8],
        public_key: &[u8],
        message: &[u8],
        nonce: &[u8],
    ) -> (ciphertext: Vec<u8>)
        requires
            Self::private_encryption_key(private_key@),
            Self::public_encryption_key(public_key@),
            nonce@.len() == Self::nonce_len(),
        ensures
            Self::opened(private_key@, public_key@, ciphertext@, nonce@) == Some(message@),
            forall|own_public: Seq<u8>, peer_private: Seq<u8>|
                #![trigger Self::opened(peer_private, own_public, ciphertext@, nonce@)]
                Self::encryption_pair(own_public, private_key@) && Self::encryption_pair(
                    public_key@,
                    peer_private,
                ) && Self::private_encryption_key(peer_private) && Self::public_encryption_key(
                    own_public,
                ) ==> Self::opened(peer_private, own_public, ciphertext@, nonce@) == Some(
                    message@,
                ),
    ;

    /// Opens a sealed message: the plaintext, or `DecryptionFailed` where the
    /// ciphertext does not authenticate under these keys and nonce.
    fn decrypt(
        &self,
        private_key: &[u8],
        public_key: &[u8],
        ciphertext: &[u8],
        nonce: &[u8],
    ) -> (r: Result<
        Vec<u8>,
        CryptoError,
    >)
        ensures
            match r {
                Ok(message) => Self::opened(private_key@, public_key@, ciphertext@, nonce@)
                    == Some(message@),
                Err(e) => e == CryptoError::DecryptionFailed && Self::opened(
                    private_key@,
                    public_key@,
                    ciphertext@,
                    nonce@,
                ) is None,
            },
    ;
}

/// Whether a seed is given that is not empty.
pub open spec fn seeded(seed: Option<&[u8]>) -> bool {
    seed is Some && seed->Some_0@.len() > 0
}

/// What `Signus::sign` ensures of a signature: it is well-formed, and valid
/// under every verification key that matches the signing key.
pub open spec fn signs<C: Signus>(private: Seq<u8>, message: Seq<u8>, signature: Seq<u8>) -> bool {
    &&& C::signature_format(signature)
    &&& forall|public: Seq<u8>| #[trigger]
        C::signing_pair(public, private) ==> C::accepts(public, message, signature)
}

/// What `Signus::verify` returns: whether the signature is valid, or
/// `InvalidSignatureFormat` where it does not parse.
pub open spec fn verdict<C: Signus>(
    public: Seq<u8>,
    message: Seq<u8>,
    signature: Seq<u8>,
) -> Result<
    bool,
    CryptoError,
> {
    if C::signature_format(signature) {
        Ok(C::accepts(public, message, signature))
    } else {
        Err(CryptoError::InvalidSignatureFormat)
    }
}

/// What `Signus::decrypt` ensures of its result: the message that the
/// ciphertext opens to, or `DecryptionFailed` where there is none.
pub open spec fn opens<C: Signus>(
    private: Seq<u8>,
    public: Seq<u8>,
    ciphertext: Seq<u8>,
    nonce: Seq<u8>,
    r: Result<Vec<u8>, CryptoError>,
) -> bool {
    match r {
        Ok(message) => C::opened(private, public, ciphertext, nonce) == Some(message@),
        Err(e) => e == CryptoError::DecryptionFailed && C::opened(
            private,
            public,
            ciphertext,
            nonce,
        ) is None,
    }
}

/// Decrypting what was encrypted, with the same keys and nonce, gives the
/// message back: a ciphertext as `Signus::encrypt` ensures it, handed to
/// `Signus::decrypt`, has the message for its result.
pub proof fn law_decrypt_encrypted<C: Signus>(
    private: Seq<u8>,
    public: Seq<u8>,
    message: Seq<u8>,
    nonce: Seq<u8>,
    ciphertext: Seq<u8>,
    r: Result<Vec<u8>, CryptoError>,
)
    requires
        C::opened(private, public, ciphertext, nonce) == Some(message),
        opens::<C>(private, public, ciphertext, nonce, r),
    ensures
        r is Ok,
        r->Ok_0@ == message,
{
}

/// A seed determines the keys: two key pairs generated from one seed are
/// the same.
pub proof fn law_seed_determines_keys<C: Signus>(seed: Seq<u8>, first: KeyPair, second: KeyPair)
    requires
        (first.public@, first.private@) == C::pair_of_seed(seed),
        (second.public@, second.private@) == C::pair_of_seed(seed),
    ensures
        first.public@ == second.public@,
        first.private@ == second.private@,
{
}

/// A signature verifies under the verification key that matches the key it
/// was made with.
pub proof fn law_verify_signed<C: Signus>(
    public: Seq<u8>,
    private: Seq<u8>,
    message: Seq<u8>,
    signature: Seq<u8>,
)
    requires
        C::signing_pair(public, private),
        signs::<C>(private, message, signature),
    ensures
        verdict::<C>(public, message, signature) == Ok::<bool, CryptoError>(true),
{
}

/// The verification key that Ed25519 derives from a 32-byte secret key.
pub uninterp spec fn ed25519_public(secret: Seq<u8>) -> Seq<u8>;

/// Whether Ed25519 verification accepts a 64-byte signature for a message
/// under a 32-byte verification key.
pub uninterp spec fn ed25519_accepts(public: Seq<u8>, message: Seq<u8>, signature: Seq<u8>) -> bool;

/// Whether the scalar half of a 64-byte signature is in canonical form:
/// what Ed25519 verification asks of a signature before it checks it.
pub uninterp spec fn ed25519_parses(signature: Seq<u8>) -> bool;

/// The SHA-256 digest of a byte string.
pub uninterp spec fn sha256(bytes: Seq<u8>) -> Seq<u8>;

/// The X25519 secret that an Ed25519 secret key converts to.
pub uninterp spec fn x25519_secret(secret: Seq<u8>) -> Seq<u8>;

/// The X25519 public key that an Ed25519 verification key converts to; `None`
/// where the 32 bytes are not the encoding of a curve point.
pub uninterp spec fn x25519_public(public: Seq<u8>) -> Option<Seq<u8>>;

/// The plaintext that a NaCl box opens to under an X25519 secret key, the
/// other party's public key and a 24-byte nonce; `None` where the
/// authentication tag does not match.
pub uninterp spec fn box_opened(
    secret: Seq<u8>,
    public: Seq<u8>,
    ciphertext: Seq<u8>,
    nonce: Seq<u8>,
) -> Option<Seq<u8>>;

pub const ED25519_KEY_LEN: usize = 32;

pub const ED25519_SIGNATURE_LEN: usize = 64;

pub const BOX_NONCE_LEN: usize = 24;

/// Calls `ed25519_dalek::SigningKey::from_bytes` and `verifying_key`. The
/// result is named `ed25519_public`. It is 32 bytes, and being the
/// compression of a curve point it converts to an X25519 public key.
#[verifier::external_body]
fn ed25519_verifying_key(secret: &[u8]) -> (public: Vec<u8>)
    requires
        secret@.len() == ED25519_KEY_LEN,
    ensures
        public@ == ed25519_public(secret@),
        public@.len() == ED25519_KEY_LEN,
        x25519_public(public@) is Some,
{
    let bytes: [u8; 32] = secret.try_into().unwrap();
    ed25519_dalek::SigningKey::from_bytes(&bytes).verifying_key().to_bytes().to_vec()
}

/// Calls `sha2::Digest::digest` of `sha2::Sha256`. The result is named
/// `sha256` and is 32 bytes.
#[verifier::external_body]
fn sha256_digest(bytes: &[u8]) -> (digest: Vec<u8>)
    ensures
        digest@ == sha256(bytes@),
        digest@.len() == ED25519_KEY_LEN,
{
    sha2::Sha256::digest(bytes).to_vec()
}

/// Calls `ed25519_dalek::Signer::sign` on the signing key of these bytes.
/// The signature is 64 bytes with a scalar half in canonical form, and
/// verification under the key pair's own verification key accepts it.
#[verifier::external_body]
fn ed25519_sign(secret: &[u8], message: &[u8]) -> (signature: Vec<u8>)
    requires
        secret@.len() == ED25519_KEY_LEN,
    ensures
        signature@.len() == ED25519_SIGNATURE_LEN,
        ed25519_parses(signature@),
        ed25519_accepts(ed25519_public(secret@), message@, signature@),
{
    let bytes: [u8; 32] = secret.try_into().unwrap();
    let key = ed25519_dalek::SigningKey::from_bytes(&bytes);
    ed25519_dalek::Signer::sign(&key, message).to_bytes().to_vec()
}

/// Calls `ed25519_dalek::Signature::s_bytes` and
/// `curve25519_dalek::Scalar::from_canonical_bytes`, the test that
/// `ed25519_dalek` makes when it parses a signature for verification. The
/// result is named `ed25519_parses`.
#[verifier::external_body]
fn ed25519_signature_parses(signature: &[u8]) -> (parses: bool)
    requires
        signature@.len() == ED25519_SIGNATURE_LEN,
    ensures
        parses == ed25519_parses(signature@),
{
    let bytes: [u8; 64] = signature.try_into().unwrap();
    let parsed = ed25519_dalek::Signature::from_bytes(&bytes);
    curve25519_dalek::Scalar::from_canonical_bytes(*parsed.s_bytes()).is_some().into()
}

/// Calls `ed25519_dalek::VerifyingKey::from_bytes` and
/// `ed25519_dalek::Verifier::verify`. The result is named `ed25519_accepts`:
/// `true` where the key decodes and the signature is valid for the message.
#[verifier::external_body]
fn ed25519_verify(public: &[u8], message: &[u8], signature: &[u8]) -> (valid: bool)
    requires
        public@.len() == ED25519_KEY_LEN,
        signature@.len() == ED25519_SIGNATURE_LEN,
    ensures
        valid == ed25519_accepts(public@, message@, signature@),
{
    let key_bytes: [u8; 32] = public.try_into().unwrap();
    let signature_bytes: [u8; 64] = signature.try_into().unwrap();
    let parsed = ed25519_dalek::Signature::from_bytes(&signature_bytes);
    match ed25519_dalek::VerifyingKey::from_bytes(&key_bytes) {
        Ok(key) => ed25519_dalek::Verifier::verify(&key, message, &parsed).is_ok(),
        Err(_) => false,
    }
}

/// Calls `ed25519_dalek::SigningKey::to_scalar_bytes`. The result is named
/// `x25519_secret` and is 32 bytes.
#[verifier::external_body]
fn ed25519_to_x25519_secret(secret: &[u8]) -> (converted: Vec<u8>)
    requires
        secret@.len() == ED25519_KEY_LEN,
    ensures
        converted@ == x25519_secret(secret@),
        converted@.len() == ED25519_KEY_LEN,
{
    let bytes: [u8; 32] = secret.try_into().unwrap();
    ed25519_dalek::SigningKey::from_bytes(&bytes).to_scalar_bytes().to_vec()
}

/// Calls `ed25519_dalek::VerifyingKey::from_bytes` and `to_montgomery`. The
/// result is named `x25519_public`: 32 bytes, or `None` where the key does
/// not decode to a curve point.
#[verifier::external_body]
fn ed25519_to_x25519_public(public: &[u8]) -> (converted: Option<Vec<u8>>)
    requires
        public@.len() == ED25519_KEY_LEN,
    ensures
        match converted {
            Some(key) => x25519_public(public@) == Some(key@) && key@.len() == ED25519_KEY_LEN,
            None => x25519_public(public@) is None,
        },
{
    let bytes: [u8; 32] = public.try_into().unwrap();
    match ed25519_dalek::VerifyingKey::from_bytes(&bytes) {
        Ok(key) => Some(key.to_montgomery().to_bytes().to_vec()),
        Err(_) => None,
    }
}

/// Calls `crypto_box::SalsaBox::new` and `aead::Aead::encrypt`. Without
/// associated data the call does not fail; opening the result with the same
/// keys and nonce gives the message back. Where the keys are those that the
/// Ed25519 secret keys `s` and `t` convert to, the sender's secret and the
/// recipient's public key, the two sides agree on one secret: the result
/// opens as well with the recipient's secret and the sender's public key.
#[verifier::external_body]
fn box_seal(
    secret: &[u8],
    public: &[u8],
    message: &[u8],
    nonce: &[u8],
) -> (ciphertext: Option<Vec<u8>>)
    requires
        secret@.len() == ED25519_KEY_LEN,
        public@.len() == ED25519_KEY_LEN,
        nonce@.len() == BOX_NONCE_LEN,
    ensures
        ciphertext is Some,
        box_opened(secret@, public@, ciphertext->Some_0@, nonce@) == Some(message@),
        forall|s: Seq<u8>, t: Seq<u8>|
            #![trigger x25519_secret(s), x25519_secret(t)]
            s.len() == ED25519_KEY_LEN && t.len() == ED25519_KEY_LEN && x25519_secret(s)
                == secret@ && x25519_public(ed25519_public(t)) == Some(public@)
                && x25519_public(ed25519_public(s)) is Some ==> box_opened(
                x25519_secret(t),
                x25519_public(ed25519_public(s))->Some_0,
                ciphertext->Some_0@,
                nonce@,
            ) == Some(message@),
{
    let secret_bytes: [u8; 32] = secret.try_into().unwrap();
    let public_bytes: [u8; 32] = public.try_into().unwrap();
    let sealer = crypto_box::SalsaBox::new(
        &crypto_box::PublicKey::from(public_bytes),
        &crypto_box::SecretKey::from(secret_bytes),
    );
    crypto_box::aead::Aead::encrypt(&sealer, crypto_box::Nonce::from_slice(nonce), message).ok()
}

/// Calls `crypto_box::SalsaBox::new` and `aead::Aead::decrypt`. The result is
/// named `box_opened`: `None` where the authentication tag does not match.
#[verifier::external_body]
fn box_open(
    secret: &[u8],
    public: &[u8],
    ciphertext: &[u8],
    nonce: &[u8],
) -> (message: Option<Vec<u8>>)
    requires
        secret@.len() == ED25519_KEY_LEN,
        public@.len() == ED25519_KEY_LEN,
        nonce@.len() == BOX_NONCE_LEN,
    ensures
        match message {
            Some(m) => box_opened(secret@, public@, ciphertext@, nonce@) == Some(m@),
            None => box_opened(secret@, public@, ciphertext@, nonce@) is None,
        },
{
    let secret_bytes: [u8; 32] = secret.try_into().unwrap();
    let public_bytes: [u8; 32] = public.try_into().unwrap();
    let opener = crypto_box::SalsaBox::new(
        &crypto_box::PublicKey::from(public_bytes),
        &crypto_box::SecretKey::from(secret_bytes),
    );
    crypto_box::aead::Aead::decrypt(&opener, crypto_box::Nonce::from_slice(nonce), ciphertext).ok()
}

/// Calls `rand::RngCore::try_fill_bytes` on `rand::rngs::OsRng`: `count`
/// bytes from the operating system's random source, or `None` where it
/// gives an error. Nothing is known of the bytes but their number, and
/// nothing of when the source fails.
#[verifier::external_body]
fn random_bytes(count: usize) -> (bytes: Option<Vec<u8>>)
    ensures
        match bytes {
            Some(drawn) => drawn@.len() == count,
            None => true,
        },
{
    let mut drawn = vec![0u8; count];
    match rand::RngCore::try_fill_bytes(&mut rand::rngs::OsRng, &mut drawn) {
        Ok(()) => Some(drawn),
        Err(_) => None,
    }
}

/// The Ed25519 secret key that a seed of at least 32 bytes stands for: the
/// seed itself where it has 32 bytes, else its SHA-256 digest.
pub open spec fn secret_of_seed(seed: Seq<u8>) -> Seq<u8> {
    if seed.len() == ED25519_KEY_LEN {
        seed
    } else {
        sha256(seed)
    }
}

/// Ed25519 signatures with the matching X25519 key agreement and NaCl box
/// encryption. A private signing key is the 32-byte Ed25519 secret key.
///
/// A seed has at least 32 bytes. One of 32 bytes is the secret key itself;
/// a longer one is condensed to the secret key by SHA-256.
pub struct Ed25519Signus {}

impl Ed25519Signus {
    pub fn new() -> Ed25519Signus {
        Ed25519Signus {  }
    }
}

impl Signus for Ed25519Signus {
    open spec fn crypto_type_text() -> Seq<char> {
        "ed25519"@
    }

    open spec fn seed_length(len: nat) -> bool {
        len >= ED25519_KEY_LEN
    }

    open spec fn nonce_len() -> nat {
        BOX_NONCE_LEN as nat
    }

    open spec fn signing_key(private: Seq<u8>) -> bool {
        private.len() == ED25519_KEY_LEN
    }

    open spec fn signing_pair(public: Seq<u8>, private: Seq<u8>) -> bool {
        &&& private.len() == ED25519_KEY_LEN
        &&& public == ed25519_public(private)
        &&& Self::verification_key(public)
    }

    open spec fn pair_of_seed(seed: Seq<u8>) -> (Seq<u8>, Seq<u8>) {
        (ed25519_public(secret_of_seed(seed)), secret_of_seed(seed))
    }

    open spec fn verification_key(key: Seq<u8>) -> bool {
        &&& key.len() == ED25519_KEY_LEN
        &&& x25519_public(key) is Some
    }

    open spec fn encryption_public(verification_key: Seq<u8>) -> Seq<u8> {
        x25519_public(verification_key).unwrap()
    }

    open spec fn encryption_private(signing_key: Seq<u8>) -> Seq<u8> {
        x25519_secret(signing_key)
    }

    open spec fn private_encryption_key(key: Seq<u8>) -> bool {
        key.len() == ED25519_KEY_LEN
    }

    open spec fn public_encryption_key(key: Seq<u8>) -> bool {
        key.len() == ED25519_KEY_LEN
    }

    open spec fn encryption_pair(public: Seq<u8>, private: Seq<u8>) -> bool {
        exists|secret: Seq<u8>|
            #[trigger] x25519_secret(secret) == private && secret.len() == ED25519_KEY_LEN
                && x25519_public(ed25519_public(secret)) == Some(public)
    }

    open spec fn signature_format(signature: Seq<u8>) -> bool {
        signature.len() == ED25519_SIGNATURE_LEN && ed25519_parses(signature)
    }

    open spec fn accepts(public: Seq<u8>, message: Seq<u8>, signature: Seq<u8>) -> bool {
        &&& public.len() == ED25519_KEY_LEN
        &&& signature.len() == ED25519_SIGNATURE_LEN
        &&& ed25519_accepts(public, message, signature)
    }

    open spec fn opened(
        private: Seq<u8>,
        public: Seq<u8>,
        ciphertext: Seq<u8>,
        nonce: Seq<u8>,
    ) -> Option<Seq<u8>> {
        if private.len() == ED25519_KEY_LEN && public.len() == ED25519_KEY_LEN && nonce.len()
            == BOX_NONCE_LEN {
            box_opened(private, public, ciphertext, nonce)
        } else {
            None
        }
    }

    proof fn lemma_signing_pair_key(public: Seq<u8>, private: Seq<u8>) {
    }

    fn crypto_type(&self) -> (tag: String) {
        "ed25519".to_string()
    }

    fn generate_signing_key_pair(&self, seed: Option<&[u8]>) -> (r: Result<KeyPair, CryptoError>) {
        let drawn = match seed {
            Some(given) => {
                if given.len() == ED25519_KEY_LEN {
                    Some(vstd::slice::slice_to_vec(given))
                } else if given.len() > ED25519_KEY_LEN {
                    Some(sha256_digest(given))
                } else if given.len() > 0 {
                    return Err(CryptoError::InvalidSeedLength);
                } else {
                    random_bytes(ED25519_KEY_LEN)
                }
            },
            None => random_bytes(ED25519_KEY_LEN),
        };
        let private = match drawn {
            Some(private) => private,
            None => {
                return Err(CryptoError::RandomSourceFailed);
            },
        };
        let public = ed25519_verifying_key(private.as_slice());
        Ok(KeyPair { public, private })
    }

    fn derive_encryption_key_pair(&self, signing: &KeyPair) -> (r: KeyPair) {
        let private = ed25519_to_x25519_secret(signing.private.as_slice());
        let converted = ed25519_to_x25519_public(signing.public.as_slice());
        KeyPair { public: converted.unwrap(), private }
    }

    fn convert_verification_key(&self, verification_key: &[u8]) -> (r: Option<Vec<u8>>) {
        if verification_key.len() != ED25519_KEY_LEN {
            return None;
        }
        ed25519_to_x25519_public(verification_key)
    }

    fn sign(&self, private_key: &[u8], message: &[u8]) -> (signature: Vec<u8>) {
        ed25519_sign(private_key, message)
    }

    fn verify(&self, public_key: &[u8], message: &[u8], signature: &[u8]) -> (r: Result<
        bool,
        CryptoError,
    >) {
        if signature.len() != ED25519_SIGNATURE_LEN || !ed25519_signature_parses(signature) {
            return Err(CryptoError::InvalidSignatureFormat);
        }
        if public_key.len() != ED25519_KEY_LEN {
            return Ok(false);
        }
        Ok(ed25519_verify(public_key, message, signature))
    }

    fn generate_nonce(&self) -> (r: Result<Vec<u8>, CryptoError>) {
        match random_bytes(BOX_NONCE_LEN) {
            Some(nonce) => Ok(nonce),
            None => Err(CryptoError::RandomSourceFailed),
        }
    }

    fn encrypt(
        &self,
        private_key: &[u8],
        public_key: &[u8],
        message: &[u8],
        nonce: &[u8],
    ) -> (ciphertext: Vec<u8>) {
        let ciphertext = box_seal(private_key, public_key, message, nonce).unwrap();
        proof {
            assert forall|own_public: Seq<u8>, peer_private: Seq<u8>|
                Self::encryption_pair(own_public, private_key@) && Self::encryption_pair(
                    public_key@,
                    peer_private,
                ) && Self::private_encryption_key(peer_private) && Self::public_encryption_key(
                    own_public,
                ) implies #[trigger] Self::opened(peer_private, own_public, ciphertext@, nonce@)
                == Some(message@) by {
                let s = choose|s: Seq<u8>|
                    #[trigger] x25519_secret(s) == private_key@ && s.len() == ED25519_KEY_LEN
                        && x25519_public(ed25519_public(s)) == Some(own_public);
                let t = choose|t: Seq<u8>|
                    #[trigger] x25519_secret(t) == peer_private && t.len() == ED25519_KEY_LEN
                        && x25519_public(ed25519_public(t)) == Some(public_key@);
                assert(x25519_secret(s) == private_key@ && x25519_secret(t) == peer_private);
            }
        }
        ciphertext
    }

    fn decrypt(
        &self,
        private_key: &[u8],
        public_key: &[u8],
        ciphertext: &[u8],
        nonce: &[u8],
    ) -> (r: Result<
        Vec<u8>,
        CryptoError,
    >) {
        if private_key.len() != ED25519_KEY_LEN || public_key.len() != ED25519_KEY_LEN
            || nonce.len() != BOX_NONCE_LEN {
            return Err(CryptoError::DecryptionFailed);
        }
        match box_open(private_key, public_key, ciphertext, nonce) {
            Some(message) => Ok(message),
            None => Err(CryptoError::DecryptionFailed),
        }
    }
}

} // verus!
