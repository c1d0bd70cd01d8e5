use signus::envelope::{append_bytes, Envelope, FORM_DID, FORM_KEY};

#[test]
fn envelope_layout_is_exact() {
    let e = Envelope { by_did: true, nonce: vec![7, 8, 9], sender: b"D1".to_vec(), ciphertext: vec![0xaa, 0xbb] };
    let bytes = e.encode();
    let expected: Vec<u8> = vec![
        1, 3, 0, 0, 0, 0, 0, 0, 0, 7, 8, 9, 2, 0, 0, 0, 0, 0, 0, 0, b'D', b'1', 0xaa, 0xbb,
    ];
    assert_eq!(bytes, expected);
    assert_eq!(FORM_DID, 1);
    assert_eq!(FORM_KEY, 0);
}

#[test]
fn envelope_round_trip() {
    let e = Envelope { by_did: false, nonce: vec![1; 24], sender: vec![2; 32], ciphertext: vec![3; 100] };
    let d = Envelope::decode(&e.encode()).unwrap();
    assert!(!d.by_did);
    assert_eq!(d.nonce, vec![1; 24]);
    assert_eq!(d.sender, vec![2; 32]);
    assert_eq!(d.ciphertext, vec![3; 100]);
}

#[test]
fn envelope_with_empty_parts() {
    let e = Envelope { by_did: true, nonce: vec![], sender: vec![], ciphertext: vec![] };
    let bytes = e.encode();
    assert_eq!(bytes.len(), 17);
    let d = Envelope::decode(&bytes).unwrap();
    assert!(d.by_did && d.nonce.is_empty() && d.sender.is_empty() && d.ciphertext.is_empty());
}

#[test]
fn malformed_envelopes_are_refused() {
    assert!(Envelope::decode(&[]).is_none());
    assert!(Envelope::decode(&[0, 1, 2]).is_none());
    // unknown form byte
    let mut bytes = Envelope { by_did: true, nonce: vec![1], sender: vec![2], ciphertext: vec![3] }.encode();
    bytes[0] = 2;
    assert!(Envelope::decode(&bytes).is_none());
    // nonce length beyond the end
    let mut bytes = Envelope { by_did: true, nonce: vec![1], sender: vec![2], ciphertext: vec![3] }.encode();
    bytes[1] = 200;
    assert!(Envelope::decode(&bytes).is_none());
    // huge nonce length
    let mut bytes = Envelope { by_did: true, nonce: vec![1], sender: vec![2], ciphertext: vec![3] }.encode();
    for i in 1..9 {
        bytes[i] = 0xff;
    }
    assert!(Envelope::decode(&bytes).is_none());
    // sender length beyond the end
    let mut bytes = Envelope { by_did: true, nonce: vec![1], sender: vec![2], ciphertext: vec![3] }.encode();
    bytes[10] = 3;
    assert!(Envelope::decode(&bytes).is_none());
    // nine bytes only: no room for the sender's length
    assert!(Envelope::decode(&[0, 0, 0, 0, 0, 0, 0, 0, 0]).is_none());
}

#[test]
fn append_bytes_appends() {
    let mut v = vec![1u8, 2];
    append_bytes(&mut v, &[3, 4, 5]);
    assert_eq!(v, vec![1, 2, 3, 4, 5]);
    append_bytes(&mut v, &[]);
    assert_eq!(v, vec![1, 2, 3, 4, 5]);
}
