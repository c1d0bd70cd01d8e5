//! The wire form of an encrypted message.
//!
//! An envelope is laid out as
//!
//! ```text
//! form (1 byte) | nonce length (8, LE) | nonce | sender length (8, LE) | sender | ciphertext
//! ```
//!
//! where `form` says how the sender is named: `0` for a verification key,
//! `1` for the UTF-8 bytes of a DID. The nonce length is read from the
//! envelope itself, so the layout serves schemes with any nonce size.

use vstd::prelude::*;
use vstd::bytes::*;
use vstd::slice::*;

verus! {

/// The `form` byte of an envelope whose sender is a verification key.
pub const FORM_KEY: u8 = 0;

/// The `form` byte of an envelope whose sender is a DID.
pub const FORM_DID: u8 = 1;

/// An encrypted message with what is needed to open it.
pub struct Envelope {
    /// Whether `sender` holds a DID (else a verification key).
    pub by_did: bool,
    pub nonce: Vec<u8>,
    pub sender: Vec<u8>,
    pub ciphertext: Vec<u8>,
}

/// The mathematical content of an envelope.
pub struct EnvelopeView {
    pub by_did: bool,
    pub nonce: Seq<u8>,
    pub sender: Seq<u8>,
    pub ciphertext: Seq<u8>,
}

impl View for Envelope {
    type V = EnvelopeView;

    open spec fn view(&self) -> EnvelopeView {
        EnvelopeView {
            by_did: self.by_did,
            nonce: self.nonce@,
            sender: self.sender@,
            ciphertext: self.ciphertext@,
        }
    }
}

impl EnvelopeView {
    /// Whether the lengths of nonce and sender fit their 8-byte fields.
    pub open spec fn fits(self) -> bool {
        self.nonce.len() <= u64::MAX && self.sender.len() <= u64::MAX
    }

    /// The bytes that stand for the envelope.
    pub open spec fn encoded(self) -> Seq<u8> {
        seq![if self.by_did { FORM_DID } else { FORM_KEY }]
            + spec_u64_to_le_bytes(self.nonce.len() as u64) + self.nonce
            + spec_u64_to_le_bytes(self.sender.len() as u64) + self.sender + self.ciphertext
    }
}

/// The envelope that a byte string stands for, if it is laid out as one.
pub open spec fn decoded(bytes: Seq<u8>) -> Option<EnvelopeView> {
    if bytes.len() < 9 || (bytes[0] != FORM_KEY && bytes[0] != FORM_DID) {
        None
    } else {
        let n = spec_u64_from_le_bytes(bytes.subrange(1, 9)) as int;
        if bytes.len() - 17 < n {
            None
        } else {
            let s = spec_u64_from_le_bytes(bytes.subrange(9 + n, 17 + n)) as int;
            if bytes.len() - 17 - n < s {
                None
            } else {
                Some(
                    EnvelopeView {
                        by_did: bytes[0] == FORM_DID,
                        nonce: bytes.subrange(9, 9 + n),
                        sender: bytes.subrange(17 + n, 17 + n + s),
                        ciphertext: bytes.subrange(17 + n + s, bytes.len() as int),
                    },
                )
            }
        }
    }
}

/// Decoding what was encoded gives the envelope back.
pub proof fn lemma_decode_encode(e: EnvelopeView)
    requires
        e.fits(),
    ensures
        decoded(e.encoded()) == Some(e),
{
    lemma_auto_spec_u64_to_from_le_bytes();
    let bytes = e.encoded();
    let n = e.nonce.len() as int;
    let s = e.sender.len() as int;
    let nb = spec_u64_to_le_bytes(e.nonce.len() as u64);
    let sb = spec_u64_to_le_bytes(e.sender.len() as u64);
    assert(bytes.len() == 17 + n + s + e.ciphertext.len());
    assert(bytes.subrange(1, 9) =~= nb);
    assert(bytes.subrange(9 + n, 17 + n) =~= sb);
    assert(bytes.subrange(9, 9 + n) =~= e.nonce);
    assert(bytes.subrange(17 + n, 17 + n + s) =~= e.sender);
    assert(bytes.subrange(17 + n + s, bytes.len() as int) =~= e.ciphertext);
}

/// Only the encoding of an envelope decodes to it: the layout is canonical.
pub proof fn lemma_encode_decode(bytes: Seq<u8>)
    requires
        decoded(bytes) is Some,
    ensures
        decoded(bytes)->Some_0.fits(),
        decoded(bytes)->Some_0.encoded() == bytes,
{
    lemma_auto_spec_u64_to_from_le_bytes();
    let e = decoded(bytes)->Some_0;
    let n = spec_u64_from_le_bytes(bytes.subrange(1, 9)) as int;
    let s = spec_u64_from_le_bytes(bytes.subrange(9 + n, 17 + n)) as int;
    assert(e.nonce.len() == n);
    assert(e.sender.len() == s);
    assert(spec_u64_to_le_bytes(n as u64) == bytes.subrange(1, 9));
    assert(spec_u64_to_le_bytes(s as u64) == bytes.subrange(9 + n, 17 + n));
    assert(e.encoded() =~= bytes);
}

/// Appends a copy of `tail` to `buffer`.
pub fn append_bytes(buffer: &mut Vec<u8>, tail: &[u8])
    ensures
        final(buffer)@ == old(buffer)@ + tail@,
{
    let mut i: usize = 0;
    while i < tail.len()
        invariant
            i <= tail@.len(),
            buffer@ == old(buffer)@ + tail@.subrange(0, i as int),
        decreases tail@.len() - i,
    {
        buffer.push(tail[i]);
        i += 1;
        assert(tail@.subrange(0, i as int) =~= tail@.subrange(0, i as int - 1).push(
            tail@[i as int - 1],
        ));
    }
    assert(tail@.subrange(0, i as int) =~= tail@);
}

impl Envelope {
    /// The bytes that stand for this envelope.
    pub fn encode(&self) -> (bytes: Vec<u8>)
        ensures
            self@.fits(),
            bytes@ == self@.encoded(),
            decoded(bytes@) == Some(self@),
    {
        let mut bytes: Vec<u8> = Vec::new();
        bytes.push(if self.by_did { FORM_DID } else { FORM_KEY });
        let nonce_len = u64_to_le_bytes(self.nonce.len() as u64);
        append_bytes(&mut bytes, nonce_len.as_slice());
        append_bytes(&mut bytes, self.nonce.as_slice());
        let sender_len = u64_to_le_bytes(self.sender.len() as u64);
        append_bytes(&mut bytes, sender_len.as_slice());
        append_bytes(&mut bytes, self.sender.as_slice());
        append_bytes(&mut bytes, self.ciphertext.as_slice());
        proof {
            assert(bytes@ =~= self@.encoded());
            lemma_decode_encode(self@);
        }
        bytes
    }

    /// Reads an envelope from its bytes: `None` where they are not laid out
    /// as one.
    pub fn decode(bytes: &[u8]) -> (r: Option<Envelope>)
        ensures
            match r {
                Some(e) => decoded(bytes@) == Some(e@),
                None => decoded(bytes@) is None,
            },
    {
        let len = bytes.len();
        if len < 9 || (bytes[0] != FORM_KEY && bytes[0] != FORM_DID) {
            return None;
        }
        let n64 = u64_from_le_bytes(slice_subrange(bytes, 1, 9));
        if len < 17 || ((len - 17) as u64) < n64 {
            return None;
        }
        let n = n64 as usize;
        let s64 = u64_from_le_bytes(slice_subrange(bytes, 9 + n, 17 + n));
        if ((len - 17 - n) as u64) < s64 {
            return None;
        }
        let s = s64 as usize;
        Some(
            Envelope {
                by_did: bytes[0] == FORM_DID,
                nonce: slice_to_vec(slice_subrange(bytes, 9, 9 + n)),
                sender: slice_to_vec(slice_subrange(bytes, 17 + n, 17 + n + s)),
                ciphertext: slice_to_vec(slice_subrange(bytes, 17 + n + s, len)),
            },
        )
    }
}

} // verus!
