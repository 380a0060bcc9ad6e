use vstd::prelude::*;
use crate::encoding::{base64_encode, base64_text};
use crate::envelope::{signature_of_text, text_bytes, EnvelopeView, SignedEnvelope};
use crate::error::Error;

verus! {

/// What signing with a key gave: the 64 bytes of an Ed25519 signature, or a
/// signature of another algorithm, which this library does not handle.
#[derive(Clone, Copy, Debug, PartialEq, Eq)]
pub enum RawSignature {
    Ed25519([u8; 64]),
    Other,
}

/// The envelope of a message, the bytes of its signature and an identity.
pub open spec fn sealed(message: Seq<char>, signature: Seq<u8>, identity: Option<Seq<char>>) -> EnvelopeView {
    EnvelopeView { message, signature: base64_text(signature), identity }
}

/// Puts a message, its detached signature and the signer's identity label
/// into an envelope.
///
/// The message and the identity are taken as they are. The identity is not
/// signed and is not checked against the key. A signature that is not an
/// Ed25519 signature is refused with `UnsupportedKeyAlgorithm`.
pub fn seal(message: String, signature: &RawSignature, identity: Option<String>) -> (r: Result<
    SignedEnvelope,
    Error,
>)
    ensures
        match *signature {
            RawSignature::Ed25519(bytes) => r matches Ok(env) && env@ == sealed(
                message@,
                bytes@,
                match identity {
                    Some(id) => Some(id@),
                    None => None,
                },
            ) && signature_of_text(env.signature@) == Some(bytes@),
            RawSignature::Other => r == Err::<SignedEnvelope, Error>(
                Error::UnsupportedKeyAlgorithm,
            ),
        },
{
    match signature {
        RawSignature::Ed25519(bytes) => {
            let text = base64_encode(bytes.as_slice());
            Ok(SignedEnvelope { message, signature: text, identity })
        },
        RawSignature::Other => Err(Error::UnsupportedKeyAlgorithm),
    }
}

/// Signs a message and puts it into an envelope with its signature and the
/// signer's identity label.
///
/// `signer` holds the private key: it is handed the bytes of the message,
/// exactly as they are, and gives their detached signature. What `seal` makes
/// of that signature is the result.
pub fn sign<F: Fn(&[u8]) -> RawSignature>(message: String, identity: Option<String>, signer: F) -> (r:
    Result<SignedEnvelope, Error>)
    requires
        forall|bytes: &[u8]| call_requires(signer, (bytes,)),
    ensures
        exists|bytes: &[u8], signature: RawSignature|
            {
                &&& bytes@ == text_bytes(message@)
                &&& call_ensures(signer, (bytes,), signature)
                &&& match signature {
                    RawSignature::Ed25519(signed) => r matches Ok(env) && env@ == sealed(
                        message@,
                        signed@,
                        match identity {
                            Some(id) => Some(id@),
                            None => None,
                        },
                    ) && signature_of_text(env.signature@) == Some(signed@),
                    RawSignature::Other => r == Err::<SignedEnvelope, Error>(
                        Error::UnsupportedKeyAlgorithm,
                    ),
                }
            },
{
    let signature = signer(message.as_str().as_bytes());
    seal(message, &signature, identity)
}

} // verus!
