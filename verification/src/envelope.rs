use vstd::prelude::*;
use vstd::string::StrSliceExecFns;
use crate::encoding::{base64_bytes, base64_decode};
use crate::error::Error;

verus! {

/// Length in bytes of an Ed25519 signature.
pub const SIGNATURE_LEN: usize = 64;

/// Length in characters of the padded base64 text of a signature.
pub const SIGNATURE_TEXT_LEN: usize = 88;

/// A message with its detached signature, as signer and verifier exchange it.
///
/// Only `message` is signed. `identity` is a hint for finding candidate keys
/// and proves nothing about who signed.
#[derive(Clone, Debug, PartialEq, Eq)]
pub struct SignedEnvelope {
    /// The text that was signed, exactly as it was given.
    pub message: String,
    /// The signature over the bytes of `message`, in base64.
    pub signature: String,
    /// Whose published keys may validate the signature, if anybody's.
    pub identity: Option<String>,
}

/// What a `SignedEnvelope` holds.
pub struct EnvelopeView {
    pub message: Seq<char>,
    pub signature: Seq<char>,
    pub identity: Option<Seq<char>>,
}

impl View for SignedEnvelope {
    type V = EnvelopeView;

    open spec fn view(&self) -> EnvelopeView {
        EnvelopeView {
            message: self.message@,
            signature: self.signature@,
            identity: match self.identity {
                Some(id) => Some(id@),
                None => None,
            },
        }
    }
}

/// The bytes of a text in UTF-8. They are what is signed.
pub open spec fn text_bytes(text: Seq<char>) -> Seq<u8> {
    vstd::utf8::encode_utf8(text)
}

/// The signature that decoded base64 gives: the bytes, where there are
/// exactly 64 of them.
pub open spec fn signature_of_bytes(decoded: Option<Seq<u8>>) -> Option<Seq<u8>> {
    match decoded {
        Some(b) => if b.len() == SIGNATURE_LEN { Some(b) } else { None },
        None => None,
    }
}

/// The signature that `text` stands for: `text` is base64 of at most 88
/// characters and decodes to exactly 64 bytes.
pub open spec fn signature_of_text(text: Seq<char>) -> Option<Seq<u8>> {
    if text.len() <= SIGNATURE_TEXT_LEN {
        signature_of_bytes(base64_bytes(text))
    } else {
        None
    }
}

/// Accepts decoded bytes as a signature where there are exactly 64 of them.
pub fn checked_signature(decoded: Option<Vec<u8>>) -> (r: Result<Vec<u8>, Error>)
    ensures
        match r {
            Ok(b) => decoded == Some(b) && b@.len() == SIGNATURE_LEN,
            Err(e) => e == Error::InvalidSignatureEncoding && !(decoded matches Some(b) && b@.len()
                == SIGNATURE_LEN),
        },
{
    match decoded {
        Some(b) => {
            if b.len() == SIGNATURE_LEN {
                Ok(b)
            } else {
                Err(Error::InvalidSignatureEncoding)
            }
        },
        None => Err(Error::InvalidSignatureEncoding),
    }
}

/// Decodes a signature field: the 64 bytes it stands for, or
/// `InvalidSignatureEncoding` where it is not base64 or not of that length.
pub fn signature_from_text(text: &str) -> (r: Result<Vec<u8>, Error>)
    ensures
        match r {
            Ok(b) => signature_of_text(text@) == Some(b@),
            Err(e) => e == Error::InvalidSignatureEncoding && signature_of_text(text@) is None,
        },
{
    if text.unicode_len() > SIGNATURE_TEXT_LEN {
        return Err(Error::InvalidSignatureEncoding);
    }
    let decoded = match base64_decode(text) {
        Ok(b) => Some(b),
        Err(_) => None,
    };
    checked_signature(decoded)
}

impl SignedEnvelope {
    /// Whether the signature field stands for a signature.
    pub open spec fn wf(&self) -> bool {
        signature_of_text(self.signature@) is Some
    }

    /// The 64 signature bytes of the envelope, or `InvalidSignatureEncoding`
    /// where its signature field is not base64 or not of that length.
    pub fn signature_bytes(&self) -> (r: Result<Vec<u8>, Error>)
        ensures
            match r {
                Ok(b) => signature_of_text(self.signature@) == Some(b@),
                Err(e) => e == Error::InvalidSignatureEncoding && !self.wf(),
            },
    {
        signature_from_text(self.signature.as_str())
    }
}

} // verus!
