//! Identity and secure-messaging command core: decentralized identifiers,
//! their key material, and the signing and encryption done on their behalf.
//!
//! - `crypto`: the provider interface `Signus` and its Ed25519 provider;
//! - `store`: the records of own and counterpart identities;
//! - `service`: the seven identity operations over provider and store;
//! - `commands`: the engine that queues commands and completes each once;
//! - `envelope`, `json`, `encoding`: the wire and text forms;
//! - `errors`: the error kinds.

pub mod commands;
pub mod crypto;
pub mod encoding;
pub mod envelope;
pub mod errors;
pub mod json;
pub mod service;
pub mod store;

pub use commands::{
    Completion, Event, Resolution, SignusCommand, SignusCommandExecutor, SignusResult, Submission,
};
pub use crypto::{Ed25519Signus, KeyPair, Signus};
pub use errors::{CryptoError, SignusError};
pub use service::IdentityService;
pub use store::IdentityStore;
