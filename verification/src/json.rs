//! The JSON parameters of the identity commands.
//!
//! A DID creation request is `{"did": .., "seed": .., "crypto_type": ..}`,
//! every member optional. A counterpart's identity is
//! `{"did": .., "verkey": .., "crypto_type": .., "endpoint": ..}`, of which
//! `did` and `verkey` are required. All members are strings; an optional
//! member may be left out or be `null`.

use vstd::prelude::*;
use crate::errors::SignusError;

verus! {

/// What a JSON document holds under one member name.
pub enum JsonMember {
    /// The document is not JSON.
    Unparsable,
    /// The document is JSON, but not an object.
    NotAnObject,
    /// The object has no member of that name.
    Absent,
    /// The member is `null`.
    Null,
    /// The member is a string.
    Text(String),
    /// The member is of another type.
    Other,
}

/// The mathematical content of a `JsonMember`.
pub enum JsonMemberView {
    Unparsable,
    NotAnObject,
    Absent,
    Null,
    Text(Seq<char>),
    Other,
}

impl View for JsonMember {
    type V = JsonMemberView;

    open spec fn view(&self) -> JsonMemberView {
        match self {
            JsonMember::Unparsable => JsonMemberView::Unparsable,
            JsonMember::NotAnObject => JsonMemberView::NotAnObject,
            JsonMember::Absent => JsonMemberView::Absent,
            JsonMember::Null => JsonMemberView::Null,
            JsonMember::Text(text) => JsonMemberView::Text(text@),
            JsonMember::Other => JsonMemberView::Other,
        }
    }
}

/// What the JSON text `document` holds under the member `name`.
pub uninterp spec fn json_member(document: Seq<char>, name: Seq<char>) -> JsonMemberView;

/// Calls `serde_json::from_str` for a `serde_json::Value` and, on an object,
/// `serde_json::Map::get`. The result is named `json_member`; the arms only
/// tell the variants of `Value` apart.
#[verifier::external_body]
fn read_member(document: &str, name: &str) -> (member: JsonMember)
    ensures
        member@ == json_member(document@, name@),
{
    match serde_json::from_str::<serde_json::Value>(document) {
        Err(_) => JsonMember::Unparsable,
        Ok(serde_json::Value::Object(members)) => match members.get(name) {
            None => JsonMember::Absent,
            Some(serde_json::Value::Null) => JsonMember::Null,
            Some(serde_json::Value::String(text)) => JsonMember::Text(text.clone()),
            Some(_) => JsonMember::Other,
        },
        Ok(_) => JsonMember::NotAnObject,
    }
}

/// An optional string member: `Some(None)` where it is left out or `null`,
/// `None` where the document or the member's type is wrong.
pub open spec fn optional_text(member: JsonMemberView) -> Option<Option<Seq<char>>> {
    match member {
        JsonMemberView::Absent | JsonMemberView::Null => Some(None),
        JsonMemberView::Text(text) => Some(Some(text)),
        _ => None,
    }
}

/// A required string member: `None` unless it is there and a string.
pub open spec fn required_text(member: JsonMemberView) -> Option<Seq<char>> {
    match member {
        JsonMemberView::Text(text) => Some(text),
        _ => None,
    }
}

/// The view of an optional string.
pub open spec fn text_view(text: Option<String>) -> Option<Seq<char>> {
    match text {
        Some(t) => Some(t@),
        None => None,
    }
}

/// Reads an optional string member from what the document holds under its name.
pub fn optional_member(member: JsonMember) -> (r: Option<Option<String>>)
    ensures
        match r {
            Some(text) => optional_text(member@) == Some(text_view(text)),
            None => optional_text(member@) is None,
        },
{
    match member {
        JsonMember::Absent => Some(None),
        JsonMember::Null => Some(None),
        JsonMember::Text(text) => Some(Some(text)),
        _ => None,
    }
}

/// Reads a required string member from what the document holds under its name.
pub fn required_member(member: JsonMember) -> (r: Option<String>)
    ensures
        text_view(r) == required_text(member@),
{
    match member {
        JsonMember::Text(text) => Some(text),
        _ => None,
    }
}

/// A request to create an identity.
pub struct DidRequest {
    /// The DID to use; derived from the verification key where left out.
    pub did: Option<String>,
    /// The seed that determines the key pair; random keys where left out.
    pub seed: Option<String>,
    /// The scheme to use; the provider's own where left out.
    pub crypto_type: Option<String>,
}

/// The mathematical content of a `DidRequest`.
pub struct DidRequestView {
    pub did: Option<Seq<char>>,
    pub seed: Option<Seq<char>>,
    pub crypto_type: Option<Seq<char>>,
}

impl View for DidRequest {
    type V = DidRequestView;

    open spec fn view(&self) -> DidRequestView {
        DidRequestView {
            did: text_view(self.did),
            seed: text_view(self.seed),
            crypto_type: text_view(self.crypto_type),
        }
    }
}

/// A counterpart's identity as it is handed in for storage.
pub struct TheirDid {
    pub did: String,
    /// The verification key, in Base58.
    pub verkey: String,
    pub crypto_type: Option<String>,
    pub endpoint: Option<String>,
}

/// The mathematical content of a `TheirDid`.
pub struct TheirDidView {
    pub did: Seq<char>,
    pub verkey: Seq<char>,
    pub crypto_type: Option<Seq<char>>,
    pub endpoint: Option<Seq<char>>,
}

impl View for TheirDid {
    type V = TheirDidView;

    open spec fn view(&self) -> TheirDidView {
        TheirDidView {
            did: self.did@,
            verkey: self.verkey@,
            crypto_type: text_view(self.crypto_type),
            endpoint: text_view(self.endpoint),
        }
    }
}

/// The creation request that a JSON text states, if it states one.
pub open spec fn did_request_of(document: Seq<char>) -> Option<DidRequestView> {
    let did = optional_text(json_member(document, "did"@));
    let seed = optional_text(json_member(document, "seed"@));
    let crypto_type = optional_text(json_member(document, "crypto_type"@));
    if did is Some && seed is Some && crypto_type is Some {
        Some(DidRequestView { did: did->Some_0, seed: seed->Some_0, crypto_type: crypto_type->Some_0 })
    } else {
        None
    }
}

/// The counterpart identity that a JSON text states, if it states one.
pub open spec fn their_did_of(document: Seq<char>) -> Option<TheirDidView> {
    let did = required_text(json_member(document, "did"@));
    let verkey = required_text(json_member(document, "verkey"@));
    let crypto_type = optional_text(json_member(document, "crypto_type"@));
    let endpoint = optional_text(json_member(document, "endpoint"@));
    if did is Some && verkey is Some && crypto_type is Some && endpoint is Some {
        Some(
            TheirDidView {
                did: did->Some_0,
                verkey: verkey->Some_0,
                crypto_type: crypto_type->Some_0,
                endpoint: endpoint->Some_0,
            },
        )
    } else {
        None
    }
}

/// Parses a DID creation request. Anything but a JSON object whose `did`,
/// `seed` and `crypto_type` are strings, `null` or left out is refused.
pub fn parse_did_request(document: &str) -> (r: Result<DidRequest, SignusError>)
    ensures
        match r {
            Ok(request) => did_request_of(document@) == Some(request@),
            Err(e) => e == SignusError::InvalidIdentityJson && did_request_of(document@) is None,
        },
{
    let did = optional_member(read_member(document, "did"));
    let seed = optional_member(read_member(document, "seed"));
    let crypto_type = optional_member(read_member(document, "crypto_type"));
    match (did, seed, crypto_type) {
        (Some(did), Some(seed), Some(crypto_type)) => Ok(DidRequest { did, seed, crypto_type }),
        _ => Err(SignusError::InvalidIdentityJson),
    }
}

/// Parses a counterpart's identity. Anything but a JSON object with string
/// members `did` and `verkey`, and `crypto_type` and `endpoint` strings,
/// `null` or left out, is refused.
pub fn parse_their_did(document: &str) -> (r: Result<TheirDid, SignusError>)
    ensures
        match r {
            Ok(identity) => their_did_of(document@) == Some(identity@),
            Err(e) => e == SignusError::InvalidIdentityJson && their_did_of(document@) is None,
        },
{
    let did = required_member(read_member(document, "did"));
    let verkey = required_member(read_member(document, "verkey"));
    let crypto_type = optional_member(read_member(document, "crypto_type"));
    let endpoint = optional_member(read_member(document, "endpoint"));
    match (did, verkey, crypto_type, endpoint) {
        (Some(did), Some(verkey), Some(crypto_type), Some(endpoint)) => Ok(
            TheirDid { did, verkey, crypto_type, endpoint },
        ),
        _ => Err(SignusError::InvalidIdentityJson),
    }
}

} // verus!
