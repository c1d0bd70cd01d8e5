use signus::errors::SignusError;
use signus::json::{parse_did_request, parse_their_did};

#[test]
fn did_request_with_all_members() {
    let r = parse_did_request(r#"{"did":"D1","seed":"000000000000000000000000Steward1","crypto_type":"ed25519"}"#).unwrap();
    assert_eq!(r.did.as_deref(), Some("D1"));
    assert_eq!(r.seed.as_deref(), Some("000000000000000000000000Steward1"));
    assert_eq!(r.crypto_type.as_deref(), Some("ed25519"));
}

#[test]
fn did_request_members_are_optional() {
    let r = parse_did_request("{}").unwrap();
    assert!(r.did.is_none() && r.seed.is_none() && r.crypto_type.is_none());
    let r = parse_did_request(r#"{"did":null,"seed":"s","other":5}"#).unwrap();
    assert!(r.did.is_none());
    assert_eq!(r.seed.as_deref(), Some("s"));
}

#[test]
fn malformed_did_requests_are_refused() {
    for bad in ["", "not json", "[]", "\"text\"", "5", "null", r#"{"did":5}"#, r#"{"seed":["a"]}"#, r#"{"crypto_type":true}"#, r#"{"did":"D1""#] {
        assert!(matches!(parse_did_request(bad), Err(SignusError::InvalidIdentityJson)), "{}", bad);
    }
}

#[test]
fn their_did_requires_did_and_verkey() {
    let t = parse_their_did(r#"{"did":"D2","verkey":"abc","endpoint":"tcp://host:1"}"#).unwrap();
    assert_eq!(t.did, "D2");
    assert_eq!(t.verkey, "abc");
    assert!(t.crypto_type.is_none());
    assert_eq!(t.endpoint.as_deref(), Some("tcp://host:1"));
    for bad in ["{}", r#"{"did":"D2"}"#, r#"{"verkey":"abc"}"#, r#"{"did":null,"verkey":"abc"}"#, r#"{"did":"D2","verkey":7}"#, r#"{"did":"D2","verkey":"abc","endpoint":1}"#, "[1]", "{"] {
        assert!(matches!(parse_their_did(bad), Err(SignusError::InvalidIdentityJson)), "{}", bad);
    }
}
