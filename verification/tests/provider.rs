use signus::crypto::{Ed25519Signus, KeyPair, Signus};
use signus::errors::CryptoError;

fn pair(seed: &[u8]) -> KeyPair {
    Ed25519Signus::new().generate_signing_key_pair(Some(seed)).unwrap()
}

#[test]
fn seeded_key_pair_is_reproducible() {
    let a = pair(b"000000000000000000000000Steward1");
    let b = pair(b"000000000000000000000000Steward1");
    assert_eq!(a.public, b.public);
    assert_eq!(a.private, b.private);
    assert_eq!(bs58::encode(&a.public).into_string(), "FYmoFw55GeQH7SRFa37dkx1d2dZ3zUF8ckg7wmL7ofN4");
}

#[test]
fn unseeded_key_pairs_differ() {
    let provider = Ed25519Signus::new();
    let a = provider.generate_signing_key_pair(None).unwrap();
    let b = provider.generate_signing_key_pair(None).unwrap();
    assert_ne!(a.private, b.private);
    assert_ne!(a.public, b.public);
    let c = provider.generate_signing_key_pair(Some(&[])).unwrap();
    assert_ne!(a.private, c.private);
}

#[test]
fn seed_that_is_too_short_is_refused() {
    let provider = Ed25519Signus::new();
    let r = provider.generate_signing_key_pair(Some(b"short"));
    assert!(matches!(r, Err(CryptoError::InvalidSeedLength)));
    let r = provider.generate_signing_key_pair(Some(b"00000000000000000000000Steward1"));
    assert!(matches!(r, Err(CryptoError::InvalidSeedLength)));
    let r = provider.generate_signing_key_pair(Some(b"0"));
    assert!(matches!(r, Err(CryptoError::InvalidSeedLength)));
}

#[test]
fn longer_seed_is_condensed_to_the_secret_key() {
    let long = pair(b"000000000000000000000000000Steward1");
    assert_eq!(bs58::encode(&long.public).into_string(), "GM3U78HT97mu7mgCQLyrQH9BFVFz8USqsDABmmjzgoTb");
    assert_eq!(long.private.len(), 32);
    assert_ne!(long.private, b"000000000000000000000000000Stewa".to_vec());
    let again = pair(b"000000000000000000000000000Steward1");
    assert_eq!((&again.public, &again.private), (&long.public, &long.private));
    // every byte of the seed counts
    let other = pair(b"000000000000000000000000000Steward2");
    assert_ne!(other.public, long.public);
    let longer = pair(&[7u8; 1000]);
    assert_eq!(longer.private.len(), 32);
    // the keys sign and verify like any other
    let provider = Ed25519Signus::new();
    let sig = provider.sign(&long.private, b"hello");
    assert_eq!(provider.verify(&long.public, b"hello", &sig), Ok(true));
}

#[test]
fn signature_verifies_under_matching_key_only() {
    let provider = Ed25519Signus::new();
    let a = pair(b"000000000000000000000000Steward1");
    let b = pair(b"000000000000000000000000Trustee1");
    let sig = provider.sign(&a.private, b"hello");
    assert_eq!(sig.len(), 64);
    assert_eq!(provider.verify(&a.public, b"hello", &sig), Ok(true));
    assert_eq!(provider.verify(&a.public, b"hellx", &sig), Ok(false));
    let other = provider.sign(&b.private, b"hello");
    assert_eq!(provider.verify(&a.public, b"hello", &other), Ok(false));
}

#[test]
fn malformed_signature_is_an_error() {
    let provider = Ed25519Signus::new();
    let a = pair(b"000000000000000000000000Steward1");
    assert_eq!(
        provider.verify(&a.public, b"hello", &[1u8; 63]),
        Err(CryptoError::InvalidSignatureFormat)
    );
    assert_eq!(provider.verify(&[3u8; 5], b"hello", &[1u8; 64]), Ok(false));
    assert_eq!(provider.verify(&a.public, b"hello", &[1u8; 64]), Ok(false));
    // 64 bytes whose scalar half is out of range do not parse
    assert_eq!(
        provider.verify(&a.public, b"hello", &[0xffu8; 64]),
        Err(CryptoError::InvalidSignatureFormat)
    );
    let mut high = provider.sign(&a.private, b"hello");
    high[63] |= 0x80;
    assert_eq!(provider.verify(&a.public, b"hello", &high), Err(CryptoError::InvalidSignatureFormat));
    // a changed point half still parses, and does not verify
    let mut other = provider.sign(&a.private, b"hello");
    other[0] ^= 1;
    assert_eq!(provider.verify(&a.public, b"hello", &other), Ok(false));
}

#[test]
fn box_round_trip_and_tamper() {
    let provider = Ed25519Signus::new();
    let a = provider.derive_encryption_key_pair(&pair(b"000000000000000000000000Steward1"));
    let b = provider.derive_encryption_key_pair(&pair(b"000000000000000000000000Trustee1"));
    let nonce = provider.generate_nonce().unwrap();
    assert_eq!(nonce.len(), 24);
    assert_ne!(provider.generate_nonce().unwrap(), nonce);
    let sealed = provider.encrypt(&a.private, &b.public, b"top secret", &nonce);
    assert_ne!(sealed, b"top secret".to_vec());
    assert_eq!(provider.decrypt(&a.private, &b.public, &sealed, &nonce), Ok(b"top secret".to_vec()));
    assert_eq!(provider.decrypt(&b.private, &a.public, &sealed, &nonce), Ok(b"top secret".to_vec()));
    let mut bad = sealed.clone();
    bad[sealed.len() - 1] ^= 1;
    assert_eq!(provider.decrypt(&a.private, &b.public, &bad, &nonce), Err(CryptoError::DecryptionFailed));
    let c = provider.derive_encryption_key_pair(&pair(b"00000000000000000000000000000My1"));
    assert_eq!(provider.decrypt(&c.private, &a.public, &sealed, &nonce), Err(CryptoError::DecryptionFailed));
    assert_eq!(provider.decrypt(&a.private, &b.public, &sealed, &nonce[..23]), Err(CryptoError::DecryptionFailed));
}

#[test]
fn verification_key_conversion_matches_derived_pair() {
    let provider = Ed25519Signus::new();
    let signing = pair(b"000000000000000000000000Steward1");
    let derived = provider.derive_encryption_key_pair(&signing);
    assert_eq!(provider.convert_verification_key(&signing.public), Some(derived.public.clone()));
    assert_ne!(derived.public, signing.public);
    assert_ne!(derived.private, signing.private);
    assert_eq!(provider.convert_verification_key(&[1u8; 31]), None);
    assert_eq!(provider.crypto_type(), "ed25519");
}
