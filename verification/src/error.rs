use vstd::prelude::*;

verus! {

/// Why an operation of this library gave no result.
///
/// A signature that no key validates is not among these: the verifier reports
/// it as an ordinary `false`.
#[derive(Clone, Copy, Debug, PartialEq, Eq, Structural)]
pub enum Error {
    /// The text is not an object with a `message` and a `signature` string.
    MalformedEnvelope,
    /// The signature field is not base64, or not 64 bytes once decoded.
    InvalidSignatureEncoding,
    /// The signing key is not an Ed25519 key.
    UnsupportedKeyAlgorithm,
    /// A key file could not be read or parsed.
    KeyLoadError,
    /// No key path was given and the user's home directory is unknown.
    NoDefaultKeyLocation,
    /// The published keys of an identity could not be fetched.
    KeyFetchError,
    /// Remote lookup was asked for, but no identity is at hand.
    ConfigurationError,
}

impl Error {
    /// A one-line description of the error for the user.
    pub fn describe(&self) -> (text: &'static str)
        ensures
            text@ == match *self {
                Error::MalformedEnvelope => "Failed to parse message!"@,
                Error::InvalidSignatureEncoding => "Signature not proper base64!"@,
                Error::UnsupportedKeyAlgorithm => "Specified or detected key was not an Ed25519 key!"@,
                Error::KeyLoadError => "Failed to load key!"@,
                Error::NoDefaultKeyLocation => "No home directory detected, please specify private key using -k!"@,
                Error::KeyFetchError => "Failed to get github keys!"@,
                Error::ConfigurationError => "No github user in message!"@,
            },
    {
        match self {
            Error::MalformedEnvelope => "Failed to parse message!",
            Error::InvalidSignatureEncoding => "Signature not proper base64!",
            Error::UnsupportedKeyAlgorithm => "Specified or detected key was not an Ed25519 key!",
            Error::KeyLoadError => "Failed to load key!",
            Error::NoDefaultKeyLocation => "No home directory detected, please specify private key using -k!",
            Error::KeyFetchError => "Failed to get github keys!",
            Error::ConfigurationError => "No github user in message!",
        }
    }
}

} // verus!
