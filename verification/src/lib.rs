//! Signing text messages with an Ed25519 key and checking such signatures:
//! the signed envelope and its wire format, the rules by which keys are
//! found, and the decision taken over a set of candidate keys.
pub mod codec;
pub mod encoding;
pub mod envelope;
pub mod error;
pub mod fanout;
pub mod json;
pub mod resolver;
pub mod roundtrip;
pub mod signer;
pub mod text;
