use signus::crypto::{Ed25519Signus, KeyPair, Signus};
use signus::envelope::Envelope;
use signus::errors::{CryptoError, SignusError};
use signus::service::IdentityService;

const STEWARD: &str = r#"{"seed":"000000000000000000000000Steward1"}"#;
const STEWARD_VERKEY: &str = "FYmoFw55GeQH7SRFa37dkx1d2dZ3zUF8ckg7wmL7ofN4";
const STEWARD_DID: &str = "Th7MpTaRZVRYnPiabds81Y";
const TRUSTEE_VERKEY: &str = "GJ1SzoWzavQYfNL9XkaJdrQejfztN4XqdsiV4ct3LXKL";

fn service() -> IdentityService<Ed25519Signus> {
    IdentityService::new(Ed25519Signus::new(), 16)
}

fn their(did: &str, verkey: &str) -> String {
    format!(r#"{{"did":"{}","verkey":"{}"}}"#, did, verkey)
}

/// A wallet that holds, under "D1", an own identity and a counterpart with the same key.
fn paired() -> IdentityService<Ed25519Signus> {
    let mut s = service();
    let (did, verkey, _) = s
        .create_and_store_my_did(1, r#"{"did":"D1","seed":"000000000000000000000000Steward1"}"#)
        .unwrap();
    assert_eq!(did, "D1");
    s.store_their_did(1, &their("D1", &verkey)).unwrap();
    s
}

#[test]
fn create_from_seed_gives_fixed_identity() {
    let mut a = service();
    let mut b = service();
    let x = a.create_and_store_my_did(1, STEWARD).unwrap();
    let y = b.create_and_store_my_did(1, STEWARD).unwrap();
    assert_eq!(x, y);
    assert_eq!(x.0, STEWARD_DID);
    assert_eq!(x.1, STEWARD_VERKEY);
    let enc = bs58::decode(&x.2).into_vec().unwrap();
    assert_eq!(enc.len(), 32);
    assert_ne!(x.2, x.1);
    // the same identity in another wallet of the same store
    let z = a.create_and_store_my_did(2, STEWARD).unwrap();
    assert_eq!(z, x);
}

#[test]
fn create_from_longer_seed_gives_fixed_identity() {
    let request = r#"{"seed":"000000000000000000000000000Steward1"}"#;
    let mut a = service();
    let mut b = service();
    b.create_and_store_my_did(1, r#"{"did":"unrelated"}"#).unwrap();
    let x = a.create_and_store_my_did(1, request).unwrap();
    let y = b.create_and_store_my_did(1, request).unwrap();
    assert_eq!(x, y);
    assert_eq!(x.0, "VA1DZhfUTLDossLNA3r8XK");
    assert_eq!(x.1, "GM3U78HT97mu7mgCQLyrQH9BFVFz8USqsDABmmjzgoTb");
    assert_eq!(bs58::decode(&x.2).into_vec().unwrap().len(), 32);
    assert!(a.has_identity(1, &x.0));
    // a second creation from the request is refused, and the record stays
    assert_eq!(a.create_and_store_my_did(1, request), Err(SignusError::DidAlreadyExists));
    a.store_their_did(1, &their(&x.0, &x.1)).unwrap();
    let sig = a.sign(1, &x.0, "m").unwrap();
    assert_eq!(a.verify_signature(1, &x.0, "m", &sig), Ok(true));
}

#[test]
fn create_with_seed_that_is_too_short_is_refused() {
    let mut s = service();
    let r = s.create_and_store_my_did(1, r#"{"did":"D1","seed":"00000000000000000000000Steward1"}"#);
    assert_eq!(r, Err(SignusError::InvalidSeedLength));
    let again = s.create_and_store_my_did(1, r#"{"did":"D1","seed":"Steward1"}"#);
    assert_eq!(again, Err(SignusError::InvalidSeedLength));
    assert!(!s.has_identity(1, "D1"));
}

#[test]
fn create_without_seed_gives_fresh_identities() {
    let mut s = service();
    let a = s.create_and_store_my_did(1, "{}").unwrap();
    let b = s.create_and_store_my_did(1, r#"{"seed":""}"#).unwrap();
    assert_ne!(a.0, b.0);
    assert_ne!(a.1, b.1);
    let key = bs58::decode(&a.1).into_vec().unwrap();
    assert_eq!(key.len(), 32);
    assert_eq!(a.0, bs58::encode(&key[..16]).into_string());
    assert!(s.has_identity(1, &a.0) && s.has_identity(1, &b.0));
}

#[test]
fn create_refuses_bad_requests() {
    let mut s = service();
    assert_eq!(s.create_and_store_my_did(1, "nonsense"), Err(SignusError::InvalidIdentityJson));
    assert_eq!(s.create_and_store_my_did(1, r#"{"did":7}"#), Err(SignusError::InvalidIdentityJson));
    assert_eq!(
        s.create_and_store_my_did(1, r#"{"crypto_type":"secp256k1"}"#),
        Err(SignusError::InvalidIdentityJson)
    );
    assert!(s.create_and_store_my_did(1, r#"{"crypto_type":"ed25519"}"#).is_ok());
}

#[test]
fn create_twice_under_one_did_is_refused() {
    let mut s = service();
    s.create_and_store_my_did(1, STEWARD).unwrap();
    assert_eq!(s.create_and_store_my_did(1, STEWARD), Err(SignusError::DidAlreadyExists));
    assert_eq!(
        s.create_and_store_my_did(1, r#"{"did":"Th7MpTaRZVRYnPiabds81Y"}"#),
        Err(SignusError::DidAlreadyExists)
    );
    // the first identity still signs with its own key
    s.store_their_did(1, &their(STEWARD_DID, STEWARD_VERKEY)).unwrap();
    let sig = s.sign(1, STEWARD_DID, "m").unwrap();
    assert_eq!(s.verify_signature(1, STEWARD_DID, "m", &sig), Ok(true));
}

#[test]
fn full_store_is_unavailable() {
    let mut s = IdentityService::new(Ed25519Signus::new(), 1);
    s.create_and_store_my_did(1, r#"{"did":"D1"}"#).unwrap();
    assert_eq!(s.create_and_store_my_did(1, r#"{"did":"D2"}"#), Err(SignusError::StorageUnavailable));
    assert!(!s.has_identity(1, "D2"));
    s.store_their_did(1, &their("T1", STEWARD_VERKEY)).unwrap();
    assert_eq!(s.store_their_did(1, &their("T2", STEWARD_VERKEY)), Err(SignusError::StorageUnavailable));
    assert_eq!(s.store_their_did(1, &their("T1", TRUSTEE_VERKEY)), Ok(()));
}

#[test]
fn commit_and_install_take_given_keys() {
    let mut s = service();
    let provider = Ed25519Signus::new();
    let pair: KeyPair = provider.generate_signing_key_pair(Some(b"000000000000000000000000Steward1")).unwrap();
    let r = s.commit_my_identity(3, None, pair).unwrap();
    assert_eq!((r.0.as_str(), r.1.as_str()), (STEWARD_DID, STEWARD_VERKEY));
    let other = provider.generate_signing_key_pair(Some(b"000000000000000000000000Trustee1")).unwrap();
    let (verkey, _) = s.install_keys(3, STEWARD_DID.to_string(), other).unwrap();
    assert_eq!(verkey, TRUSTEE_VERKEY);
    let third = provider.generate_signing_key_pair(None).unwrap();
    assert_eq!(s.install_keys(3, "absent".to_string(), third), Err(SignusError::DidNotFound));
}

#[test]
fn replace_keys_installs_new_keys() {
    let mut s = paired();
    let before = s.sign(1, "D1", "hello").unwrap();
    let (verkey, enc) = s.replace_keys(1, r#"{"seed":"000000000000000000000000Trustee1"}"#, "D1").unwrap();
    assert_eq!(verkey, TRUSTEE_VERKEY);
    assert_eq!(bs58::decode(&enc).into_vec().unwrap().len(), 32);
    // the counterpart record still holds the old key: new signatures do not verify under it
    let after = s.sign(1, "D1", "hello").unwrap();
    assert_ne!(after, before);
    assert_eq!(s.verify_signature(1, "D1", "hello", &before), Ok(true));
    assert_eq!(s.verify_signature(1, "D1", "hello", &after), Ok(false));
    // with the new key held for the counterpart, they do
    s.store_their_did(1, &their("D1", &verkey)).unwrap();
    assert_eq!(s.verify_signature(1, "D1", "hello", &after), Ok(true));
    assert_eq!(s.verify_signature(1, "D1", "hello", &before), Ok(false));
}

#[test]
fn replace_keys_errors_leave_keys() {
    let mut s = paired();
    assert_eq!(s.replace_keys(1, "{}", "D9"), Err(SignusError::DidNotFound));
    assert_eq!(s.replace_keys(2, "{}", "D1"), Err(SignusError::DidNotFound));
    assert_eq!(s.replace_keys(1, "[", "D1"), Err(SignusError::InvalidIdentityJson));
    assert_eq!(s.replace_keys(1, "[", "D9"), Err(SignusError::InvalidIdentityJson));
    assert_eq!(s.replace_keys(1, r#"{"crypto_type":"x"}"#, "D1"), Err(SignusError::InvalidIdentityJson));
    assert_eq!(s.replace_keys(1, r#"{"seed":"short"}"#, "D1"), Err(SignusError::InvalidSeedLength));
    assert_eq!(s.replace_keys(1, r#"{"seed":"short"}"#, "D9"), Err(SignusError::DidNotFound));
    let sig = s.sign(1, "D1", "hello").unwrap();
    assert_eq!(s.verify_signature(1, "D1", "hello", &sig), Ok(true));
    // random replacement
    let (a, _) = s.replace_keys(1, "{}", "D1").unwrap();
    let (b, _) = s.replace_keys(1, "{}", "D1").unwrap();
    assert_ne!(a, b);
}

#[test]
fn store_their_did_upserts() {
    let mut s = service();
    let (_, steward, _) = s.create_and_store_my_did(1, r#"{"did":"D1","seed":"000000000000000000000000Steward1"}"#).unwrap();
    s.store_their_did(1, &their("D1", TRUSTEE_VERKEY)).unwrap();
    assert!(s.knows_counterpart(1, "D1"));
    assert!(!s.knows_counterpart(2, "D1"));
    let sig = s.sign(1, "D1", "hello").unwrap();
    assert_eq!(s.verify_signature(1, "D1", "hello", &sig), Ok(false));
    s.store_their_did(1, &their("D1", &steward)).unwrap();
    assert_eq!(s.verify_signature(1, "D1", "hello", &sig), Ok(true));
    // still one record: a store with room for one counterpart takes both writes
    let mut one = IdentityService::new(Ed25519Signus::new(), 1);
    one.store_their_did(1, &their("T", TRUSTEE_VERKEY)).unwrap();
    one.store_their_did(1, &their("T", STEWARD_VERKEY)).unwrap();
    assert_eq!(one.store_their_did(1, &their("U", STEWARD_VERKEY)), Err(SignusError::StorageUnavailable));
}

#[test]
fn store_their_did_refuses_bad_identities() {
    let mut s = service();
    for bad in [
        "{}".to_string(),
        r#"{"did":"D2"}"#.to_string(),
        their("D2", "0OIl"),
        their("D2", "abc"),
        their("D2", "FYmoFw55GeQH7SRFa37dkx1d2dZ3zUF8ckg7wmL7ofN"),
        r#"{"did":"D2","verkey":"FYmoFw55GeQH7SRFa37dkx1d2dZ3zUF8ckg7wmL7ofN4","crypto_type":"rsa"}"#.to_string(),
    ] {
        assert_eq!(s.store_their_did(1, &bad), Err(SignusError::InvalidIdentityJson), "{}", bad);
    }
    assert!(!s.knows_counterpart(1, "D2"));
    // 32 bytes that are no curve point
    let mut tried = 0;
    for b in 0u8..=255 {
        let mut key = [b; 32];
        key[0] = 2;
        if Ed25519Signus::new().convert_verification_key(&key).is_none() {
            let text = bs58::encode(key).into_string();
            assert_eq!(s.store_their_did(1, &their("D2", &text)), Err(SignusError::InvalidIdentityJson));
            tried += 1;
        }
    }
    assert!(tried > 0);
    assert!(s.store_their_did(1, r#"{"did":"D2","verkey":"FYmoFw55GeQH7SRFa37dkx1d2dZ3zUF8ckg7wmL7ofN4","crypto_type":"ed25519","endpoint":"tcp://h:1"}"#).is_ok());
}

#[test]
fn sign_then_verify() {
    let s = paired();
    let signature = s.sign(1, "D1", "hello").unwrap();
    assert_eq!(bs58::decode(&signature).into_vec().unwrap().len(), 64);
    assert_eq!(s.verify_signature(1, "D1", "hello", &signature), Ok(true));
    assert_eq!(s.verify_signature(1, "D1", "hellx", &signature), Ok(false));
    // signing is deterministic
    assert_eq!(s.sign(1, "D1", "hello").unwrap(), signature);
    assert_ne!(s.sign(1, "D1", "hellx").unwrap(), signature);
}

#[test]
fn sign_needs_own_identity() {
    let mut s = service();
    s.store_their_did(1, &their("D1", STEWARD_VERKEY)).unwrap();
    assert_eq!(s.sign(1, "D1", "hello"), Err(SignusError::DidNotFound));
    let s = paired();
    assert_eq!(s.sign(2, "D1", "hello"), Err(SignusError::DidNotFound));
}

#[test]
fn verify_signature_errors() {
    let s = paired();
    let signature = s.sign(1, "D1", "hello").unwrap();
    assert_eq!(s.verify_signature(1, "D2", "hello", &signature), Err(SignusError::UnknownDid));
    assert_eq!(s.verify_signature(2, "D1", "hello", &signature), Err(SignusError::UnknownDid));
    assert_eq!(s.verify_signature(1, "D1", "hello", "0OIl"), Err(SignusError::InvalidSignatureFormat));
    assert_eq!(s.verify_signature(1, "D1", "hello", "abc"), Err(SignusError::InvalidSignatureFormat));
    assert_eq!(s.verify_signature(1, "D1", "hello", ""), Err(SignusError::InvalidSignatureFormat));
    let out_of_range = bs58::encode([0xffu8; 64]).into_string();
    assert_eq!(s.verify_signature(1, "D1", "hello", &out_of_range), Err(SignusError::InvalidSignatureFormat));
    let in_range = bs58::encode([1u8; 64]).into_string();
    assert_eq!(s.verify_signature(1, "D1", "hello", &in_range), Ok(false));
    // unknown did comes before the signature's format
    assert_eq!(s.verify_signature(1, "D2", "hello", "0OIl"), Err(SignusError::UnknownDid));
    // a well-formed signature of another key is a plain false
    let mut other = service();
    other.create_and_store_my_did(1, r#"{"did":"D1","seed":"000000000000000000000000Trustee1"}"#).unwrap();
    let foreign = other.sign(1, "D1", "hello").unwrap();
    assert_eq!(s.verify_signature(1, "D1", "hello", &foreign), Ok(false));
}

#[test]
fn encrypt_then_decrypt_round_trip() {
    let s = paired();
    for message in ["", "hello", "päivää — 日本語", &"x".repeat(5000)] {
        let sealed = s.encrypt(1, "D1", message).unwrap();
        assert_eq!(s.decrypt(1, "D1", &sealed).unwrap(), message);
    }
    // a fresh nonce each time
    let a = s.encrypt(1, "D1", "hello").unwrap();
    let b = s.encrypt(1, "D1", "hello").unwrap();
    assert_ne!(a, b);
    let ea = Envelope::decode(&bs58::decode(&a).into_vec().unwrap()).unwrap();
    let eb = Envelope::decode(&bs58::decode(&b).into_vec().unwrap()).unwrap();
    assert!(ea.by_did);
    assert_eq!(ea.sender, b"D1".to_vec());
    assert_eq!(ea.nonce.len(), 24);
    assert_ne!(ea.nonce, eb.nonce);
    assert_eq!(ea.ciphertext.len(), 5 + 16);
    assert_eq!(IdentityService::<Ed25519Signus>::sender_did(&a).as_deref(), Some("D1"));
    assert_eq!(IdentityService::<Ed25519Signus>::sender_did("0OIl"), None);
}

#[test]
fn two_parties_exchange_a_message() {
    let mut alice = service();
    let mut bob = service();
    let (_, alice_key, _) = alice.create_and_store_my_did(1, r#"{"did":"pair","seed":"000000000000000000000000Steward1"}"#).unwrap();
    let (_, bob_key, _) = bob.create_and_store_my_did(7, r#"{"did":"pair","seed":"000000000000000000000000Trustee1"}"#).unwrap();
    alice.store_their_did(1, &their("pair", &bob_key)).unwrap();
    bob.store_their_did(7, &their("pair", &alice_key)).unwrap();
    let sealed = alice.encrypt(1, "pair", "for bob").unwrap();
    assert_eq!(bob.decrypt(7, "pair", &sealed).unwrap(), "for bob");
    let signature = alice.sign(1, "pair", "signed").unwrap();
    assert_eq!(bob.verify_signature(7, "pair", "signed", &signature), Ok(true));
    assert_eq!(alice.verify_signature(1, "pair", "signed", &signature), Ok(false));
}

#[test]
fn decrypt_tampered_ciphertext_fails() {
    let s = paired();
    let sealed = s.encrypt(1, "D1", "hello").unwrap();
    let bytes = bs58::decode(&sealed).into_vec().unwrap();
    let envelope = Envelope::decode(&bytes).unwrap();
    let start = bytes.len() - envelope.ciphertext.len();
    for at in start..bytes.len() {
        let mut bad = bytes.clone();
        bad[at] ^= 0x01;
        assert_eq!(s.decrypt(1, "D1", &bs58::encode(&bad).into_string()), Err(SignusError::DecryptionFailed));
    }
    // a tampered nonce fails as well
    let mut bad = bytes.clone();
    bad[9] ^= 0x80;
    assert_eq!(s.decrypt(1, "D1", &bs58::encode(&bad).into_string()), Err(SignusError::DecryptionFailed));
    assert_eq!(s.decrypt(1, "D1", &sealed).unwrap(), "hello");
}

#[test]
fn decrypt_errors() {
    let s = paired();
    let sealed = s.encrypt(1, "D1", "hello").unwrap();
    assert_eq!(s.decrypt(1, "D2", &sealed), Err(SignusError::DidNotFound));
    assert_eq!(s.decrypt(2, "D1", &sealed), Err(SignusError::DidNotFound));
    assert_eq!(s.decrypt(1, "D1", "0OIl"), Err(SignusError::DecryptionFailed));
    assert_eq!(s.decrypt(1, "D1", "abc"), Err(SignusError::DecryptionFailed));
    assert_eq!(s.decrypt(1, "D1", ""), Err(SignusError::DecryptionFailed));
    // a sender that is not held
    let mut envelope = Envelope::decode(&bs58::decode(&sealed).into_vec().unwrap()).unwrap();
    envelope.sender = b"D7".to_vec();
    assert_eq!(s.decrypt(1, "D1", &bs58::encode(envelope.encode()).into_string()), Err(SignusError::UnknownDid));
    // a sender that is no text
    envelope.sender = vec![0xff, 0xfe];
    assert_eq!(s.decrypt(1, "D1", &bs58::encode(envelope.encode()).into_string()), Err(SignusError::DecryptionFailed));
    // a wrong nonce size
    let mut envelope = Envelope::decode(&bs58::decode(&sealed).into_vec().unwrap()).unwrap();
    envelope.nonce.pop();
    assert_eq!(s.decrypt(1, "D1", &bs58::encode(envelope.encode()).into_string()), Err(SignusError::DecryptionFailed));
}

#[test]
fn decrypt_with_sender_named_by_key() {
    let s = paired();
    let sealed = s.encrypt(1, "D1", "hello").unwrap();
    let mut envelope = Envelope::decode(&bs58::decode(&sealed).into_vec().unwrap()).unwrap();
    envelope.by_did = false;
    envelope.sender = bs58::decode(STEWARD_VERKEY).into_vec().unwrap();
    let by_key = bs58::encode(envelope.encode()).into_string();
    assert_eq!(s.decrypt(1, "D1", &by_key).unwrap(), "hello");
    assert_eq!(IdentityService::<Ed25519Signus>::sender_did(&by_key), None);
    envelope.sender = bs58::decode(TRUSTEE_VERKEY).into_vec().unwrap();
    assert_eq!(s.decrypt(1, "D1", &bs58::encode(envelope.encode()).into_string()), Err(SignusError::DecryptionFailed));
    envelope.sender = vec![1, 2, 3];
    assert_eq!(s.decrypt(1, "D1", &bs58::encode(envelope.encode()).into_string()), Err(SignusError::DecryptionFailed));
}

#[test]
fn decrypt_plaintext_that_is_no_text_fails() {
    let s = paired();
    let provider = Ed25519Signus::new();
    let signing = provider.generate_signing_key_pair(Some(b"000000000000000000000000Steward1")).unwrap();
    let keys = provider.derive_encryption_key_pair(&signing);
    let nonce = provider.generate_nonce().unwrap();
    let ciphertext = provider.encrypt(&keys.private, &keys.public, &[0xff, 0xfe, 0x00], &nonce);
    let envelope = Envelope { by_did: true, nonce, sender: b"D1".to_vec(), ciphertext };
    assert_eq!(s.decrypt(1, "D1", &bs58::encode(envelope.encode()).into_string()), Err(SignusError::DecryptionFailed));
}

#[test]
fn encrypt_with_given_nonce_is_determined() {
    let s = paired();
    let a = s.encrypt_with_nonce(1, "D1", "hello", vec![5u8; 24]).unwrap();
    let b = s.encrypt_with_nonce(1, "D1", "hello", vec![5u8; 24]).unwrap();
    assert_eq!(a, b);
    let c = s.encrypt_with_nonce(1, "D1", "hello", vec![6u8; 24]).unwrap();
    assert_ne!(a, c);
    let envelope = Envelope::decode(&bs58::decode(&a).into_vec().unwrap()).unwrap();
    assert_eq!(envelope.nonce, vec![5u8; 24]);
    assert_eq!(s.decrypt(1, "D1", &a).unwrap(), "hello");
    assert_eq!(s.encrypt_with_nonce(1, "D9", "hello", vec![5u8; 24]), Err(SignusError::DidNotFound));
    let mut lone = service();
    lone.create_and_store_my_did(1, r#"{"did":"D2"}"#).unwrap();
    assert_eq!(lone.encrypt_with_nonce(1, "D2", "hello", vec![5u8; 24]), Err(SignusError::UnknownDid));
}

#[test]
fn encrypt_errors() {
    let mut s = service();
    assert_eq!(s.encrypt(1, "D1", "m"), Err(SignusError::DidNotFound));
    s.store_their_did(1, &their("D1", STEWARD_VERKEY)).unwrap();
    assert_eq!(s.encrypt(1, "D1", "m"), Err(SignusError::DidNotFound));
    s.create_and_store_my_did(1, r#"{"did":"D2"}"#).unwrap();
    assert_eq!(s.encrypt(1, "D2", "m"), Err(SignusError::UnknownDid));
}

#[test]
fn cache_counterpart_keeps_resolved_key() {
    let mut s = service();
    assert_eq!(s.cache_counterpart(1, "D5", "0OIl", None), Err(SignusError::UnknownDid));
    assert_eq!(s.cache_counterpart(1, "D5", "abc", None), Err(SignusError::UnknownDid));
    assert!(!s.knows_counterpart(1, "D5"));
    assert_eq!(s.cache_counterpart(1, "D5", STEWARD_VERKEY, Some("tcp://h:9".to_string())), Ok(()));
    assert!(s.knows_counterpart(1, "D5"));
}

#[test]
fn error_kinds_have_names() {
    assert_eq!(SignusError::InvalidIdentityJson.kind(), "InvalidIdentityJson");
    assert_eq!(SignusError::InvalidSeedLength.kind(), "InvalidSeedLength");
    assert_eq!(SignusError::DidAlreadyExists.kind(), "DidAlreadyExists");
    assert_eq!(SignusError::DidNotFound.kind(), "DidNotFound");
    assert_eq!(SignusError::UnknownDid.kind(), "UnknownDid");
    assert_eq!(SignusError::InvalidSignatureFormat.kind(), "InvalidSignatureFormat");
    assert_eq!(SignusError::DecryptionFailed.kind(), "DecryptionFailed");
    assert_eq!(SignusError::QueueFull.kind(), "QueueFull");
    assert_eq!(SignusError::StorageUnavailable.kind(), "StorageUnavailable");
    assert_eq!(SignusError::RandomSourceFailed.kind(), "RandomSourceFailed");
    assert_eq!(SignusError::RandomSourceFailed.message(), "the random source gave no bytes");
    assert_eq!(SignusError::from_crypto(CryptoError::RandomSourceFailed), SignusError::RandomSourceFailed);
    assert_eq!(SignusError::QueueFull.message(), "the command queue is full");
    assert_eq!(SignusError::UnknownDid.message(), "the counterpart is not stored and could not be resolved");
    assert_eq!(SignusError::from_crypto(CryptoError::InvalidSeedLength), SignusError::InvalidSeedLength);
    assert_eq!(SignusError::from_crypto(CryptoError::InvalidSignatureFormat), SignusError::InvalidSignatureFormat);
    assert_eq!(SignusError::from_crypto(CryptoError::DecryptionFailed), SignusError::DecryptionFailed);
}
