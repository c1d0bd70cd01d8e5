//! Error kinds of the cryptographic provider and of the identity commands.

use vstd::prelude::*;

verus! {

/// Failures of a cryptographic provider.
#[derive(Clone, Copy, Debug, PartialEq, Eq, Structural)]
pub enum CryptoError {
    /// A seed was given whose length is not the one the scheme requires.
    InvalidSeedLength,
    /// A signature cannot be parsed in the scheme's encoding.
    InvalidSignatureFormat,
    /// A ciphertext failed authentication, or its keys or nonce are malformed.
    DecryptionFailed,
    /// The system's random source gave no bytes for a key or a nonce.
    RandomSourceFailed,
}

/// Failures that an identity command reports to its producer.
#[derive(Clone, Copy, Debug, PartialEq, Eq, Structural)]
pub enum SignusError {
    /// A JSON parameter is malformed or lacks a required field.
    InvalidIdentityJson,
    /// A seed was given whose length is not the one the scheme requires.
    InvalidSeedLength,
    /// The wallet already holds an identity of its own under this DID.
    DidAlreadyExists,
    /// The wallet holds no identity of its own under this DID.
    DidNotFound,
    /// The counterpart is not stored and could not be resolved in time.
    UnknownDid,
    /// A signature cannot be parsed in the scheme's encoding.
    InvalidSignatureFormat,
    /// An encrypted message failed authentication or is corrupted.
    DecryptionFailed,
    /// The command queue is at capacity.
    QueueFull,
    /// The identity store cannot take or give a record.
    StorageUnavailable,
    /// The system's random source gave no bytes for a key or a nonce.
    RandomSourceFailed,
}

impl SignusError {
    /// The command-level error that stands for a provider failure.
    pub open spec fn of_crypto(e: CryptoError) -> SignusError {
        match e {
            CryptoError::InvalidSeedLength => SignusError::InvalidSeedLength,
            CryptoError::InvalidSignatureFormat => SignusError::InvalidSignatureFormat,
            CryptoError::DecryptionFailed => SignusError::DecryptionFailed,
            CryptoError::RandomSourceFailed => SignusError::RandomSourceFailed,
        }
    }

    /// Wraps a provider failure, keeping its kind.
    pub fn from_crypto(e: CryptoError) -> (r: SignusError)
        ensures
            r == Self::of_crypto(e),
    {
        match e {
            CryptoError::InvalidSeedLength => SignusError::InvalidSeedLength,
            CryptoError::InvalidSignatureFormat => SignusError::InvalidSignatureFormat,
            CryptoError::DecryptionFailed => SignusError::DecryptionFailed,
            CryptoError::RandomSourceFailed => SignusError::RandomSourceFailed,
        }
    }

    /// The name of the error kind, as it is shown to a command producer.
    pub open spec fn kind_text(self) -> Seq<char> {
        match self {
            SignusError::InvalidIdentityJson => "InvalidIdentityJson"@,
            SignusError::InvalidSeedLength => "InvalidSeedLength"@,
            SignusError::DidAlreadyExists => "DidAlreadyExists"@,
            SignusError::DidNotFound => "DidNotFound"@,
            SignusError::UnknownDid => "UnknownDid"@,
            SignusError::InvalidSignatureFormat => "InvalidSignatureFormat"@,
            SignusError::DecryptionFailed => "DecryptionFailed"@,
            SignusError::QueueFull => "QueueFull"@,
            SignusError::StorageUnavailable => "StorageUnavailable"@,
            SignusError::RandomSourceFailed => "RandomSourceFailed"@,
        }
    }

    /// What went wrong, in words.
    pub open spec fn message_text(self) -> Seq<char> {
        match self {
            SignusError::InvalidIdentityJson => "the identity JSON is malformed or lacks a required member"@,
            SignusError::InvalidSeedLength => "the seed is not of the length that the scheme requires"@,
            SignusError::DidAlreadyExists => "the wallet already holds an identity under this DID"@,
            SignusError::DidNotFound => "the wallet holds no identity of its own under this DID"@,
            SignusError::UnknownDid => "the counterpart is not stored and could not be resolved"@,
            SignusError::InvalidSignatureFormat => "the signature cannot be parsed"@,
            SignusError::DecryptionFailed => "the encrypted message failed authentication or is corrupted"@,
            SignusError::QueueFull => "the command queue is full"@,
            SignusError::StorageUnavailable => "the identity store cannot take or give the record"@,
            SignusError::RandomSourceFailed => "the random source gave no bytes"@,
        }
    }

    /// The message that goes with the error kind in a failure.
    pub fn message(&self) -> (text: String)
        ensures
            text@ == self.message_text(),
    {
        match self {
            SignusError::InvalidIdentityJson => "the identity JSON is malformed or lacks a required member".to_string(),
            SignusError::InvalidSeedLength => "the seed is not of the length that the scheme requires".to_string(),
            SignusError::DidAlreadyExists => "the wallet already holds an identity under this DID".to_string(),
            SignusError::DidNotFound => "the wallet holds no identity of its own under this DID".to_string(),
            SignusError::UnknownDid => "the counterpart is not stored and could not be resolved".to_string(),
            SignusError::InvalidSignatureFormat => "the signature cannot be parsed".to_string(),
            SignusError::DecryptionFailed => "the encrypted message failed authentication or is corrupted".to_string(),
            SignusError::QueueFull => "the command queue is full".to_string(),
            SignusError::StorageUnavailable => "the identity store cannot take or give the record".to_string(),
            SignusError::RandomSourceFailed => "the random source gave no bytes".to_string(),
        }
    }

    /// The error kind as text, for the failure that a completion carries.
    pub fn kind(&self) -> (text: String)
        ensures
            text@ == self.kind_text(),
    {
        match self {
            SignusError::InvalidIdentityJson => "InvalidIdentityJson".to_string(),
            SignusError::InvalidSeedLength => "InvalidSeedLength".to_string(),
            SignusError::DidAlreadyExists => "DidAlreadyExists".to_string(),
            SignusError::DidNotFound => "DidNotFound".to_string(),
            SignusError::UnknownDid => "UnknownDid".to_string(),
            SignusError::InvalidSignatureFormat => "InvalidSignatureFormat".to_string(),
            SignusError::DecryptionFailed => "DecryptionFailed".to_string(),
            SignusError::QueueFull => "QueueFull".to_string(),
            SignusError::StorageUnavailable => "StorageUnavailable".to_string(),
            SignusError::RandomSourceFailed => "RandomSourceFailed".to_string(),
        }
    }
}

} // verus!
