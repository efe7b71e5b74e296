//! A decentralized-identity registry: each identity (a public key) has one
//! current owner, a set of time-bounded delegates authorized to act on its
//! behalf, and a set of expiring, versioned attributes. The authorization
//! core decides whether a presented signer is currently entitled to act for
//! an identity, and applies state changes with replay protection and
//! monotonic versioning.

pub mod crypto;
pub mod registry;
pub mod scale;
pub mod types;

pub use crypto::check_signature;
pub use registry::Registry;
pub use types::{AccountKey, Attribute, AttributeTransaction, Error, MockOnTimestampSet, SignatureBytes};
