use vstd::prelude::*;
use vstd::string::StringExecFns;
use crate::envelope::{signature_from_text, signature_of_text, EnvelopeView, SignedEnvelope};
use crate::error::Error;
use crate::json::{
    json_is_value, json_quote, json_quoted, json_string_value, json_unquote, json_value_text,
    lemma_spaces_end_bounds, lemma_value_end_bounds, lemma_string_end_bounds, scan_string,
    scan_value, skip_spaces, spaces_end, string_end, value_end,
};
use crate::roundtrip::lemma_decode_encoded;
use crate::text::{string_of, to_chars};

verus! {

// ---------------------------------------------------------------------------
// The wire format
// ---------------------------------------------------------------------------

/// The key of the message field.
pub open spec fn message_key() -> Seq<char> {
    seq!['m', 'e', 's', 's', 'a', 'g', 'e']
}

/// The key of the signature field.
pub open spec fn signature_key() -> Seq<char> {
    seq!['s', 'i', 'g', 'n', 'a', 't', 'u', 'r', 'e']
}

/// The key of the identity field.
pub open spec fn identity_key() -> Seq<char> {
    seq!['g', 'i', 't', 'h', 'u', 'b', '_', 'u', 's', 'e', 'r']
}

/// The JSON literal that stands for an absent identity.
pub open spec fn null_text() -> Seq<char> {
    seq!['n', 'u', 'l', 'l']
}

/// What stands before each key: nothing, or a line break and two spaces.
pub open spec fn gap(pretty: bool) -> Seq<char> {
    if pretty {
        seq!['\n', ' ', ' ']
    } else {
        Seq::empty()
    }
}

/// What stands between a key and its value.
pub open spec fn colon(pretty: bool) -> Seq<char> {
    if pretty {
        seq![':', ' ']
    } else {
        seq![':']
    }
}

/// What closes the object.
pub open spec fn closing(pretty: bool) -> Seq<char> {
    if pretty {
        seq!['\n', '}']
    } else {
        seq!['}']
    }
}

/// One field with a string value.
pub open spec fn member_text(key: Seq<char>, value: Seq<char>, pretty: bool) -> Seq<char> {
    gap(pretty) + json_quoted(key) + colon(pretty) + json_quoted(value)
}

/// The identity field with the comma before it, or nothing where the
/// envelope has no identity.
pub open spec fn identity_text(identity: Option<Seq<char>>, pretty: bool) -> Seq<char> {
    match identity {
        Some(id) => seq![','] + member_text(identity_key(), id, pretty),
        None => Seq::empty(),
    }
}

/// The text of an envelope: an object of the message, the signature and,
/// where there is one, the identity, compact or indented.
pub open spec fn encoded(env: EnvelopeView, pretty: bool) -> Seq<char> {
    seq!['{'] + member_text(message_key(), env.message, pretty) + seq![','] + member_text(
        signature_key(),
        env.signature,
        pretty,
    ) + identity_text(env.identity, pretty) + closing(pretty)
}

/// The fields of an envelope as far as a text has given them. An identity
/// that was given as `null` is `Some(None)`.
pub struct Fields {
    pub message: Option<Seq<char>>,
    pub signature: Option<Seq<char>>,
    pub identity: Option<Option<Seq<char>>>,
}

/// No field given yet.
pub open spec fn no_fields() -> Fields {
    Fields { message: None, signature: None, identity: None }
}

/// The fields after a member with key `key` and value text `value`: a known
/// field is taken once, as a string (the identity also as `null`); any other
/// member is passed over where its value is a JSON value. `None` where the
/// member is not acceptable.
pub open spec fn stored(fields: Fields, key: Seq<char>, value: Seq<char>) -> Option<Fields> {
    if key == message_key() {
        match (fields.message, json_string_value(value)) {
            (None, Some(v)) => Some(Fields { message: Some(v), ..fields }),
            _ => None,
        }
    } else if key == signature_key() {
        match (fields.signature, json_string_value(value)) {
            (None, Some(v)) => Some(Fields { signature: Some(v), ..fields }),
            _ => None,
        }
    } else if key == identity_key() {
        if fields.identity is Some {
            None
        } else if value == null_text() {
            Some(Fields { identity: Some(None), ..fields })
        } else {
            match json_string_value(value) {
                Some(v) => Some(Fields { identity: Some(Some(v)), ..fields }),
                None => None,
            }
        }
    } else if json_value_text(value) {
        Some(fields)
    } else {
        None
    }
}

/// The member whose key opens at `i`: the fields with it, and the index
/// behind its value.
pub open spec fn member_at(s: Seq<char>, i: int, fields: Fields) -> Option<(Fields, int)> {
    if 0 <= i < s.len() && s[i] == '"' {
        match string_end(s, i + 1) {
            Some(j) => match json_string_value(s.subrange(i, j)) {
                Some(key) => {
                    let k = spaces_end(s, j);
                    if k < s.len() && s[k] == ':' {
                        let v = spaces_end(s, k + 1);
                        match value_end(s, v) {
                            Some(e) => match stored(fields, key, s.subrange(v, e)) {
                                Some(f) => Some((f, e)),
                                None => None,
                            },
                            None => None,
                        }
                    } else {
                        None
                    }
                },
                None => None,
            },
            None => None,
        }
    } else {
        None
    }
}

/// The members from `i` on, separated by commas, up to the closing brace:
/// the fields they give, and the index behind the brace.
pub open spec fn members_from(s: Seq<char>, i: int, fields: Fields) -> Option<(Fields, int)>
    decreases s.len() - i,
    via members_from_decreases
{
    match member_at(s, i, fields) {
        Some((f, e)) => {
            let n = spaces_end(s, e);
            if n < s.len() && s[n] == ',' {
                members_from(s, spaces_end(s, n + 1), f)
            } else if n < s.len() && s[n] == '}' {
                Some((f, n + 1))
            } else {
                None
            }
        },
        None => None,
    }
}

#[via_fn]
proof fn members_from_decreases(s: Seq<char>, i: int, fields: Fields) {
    lemma_member_at_bounds(s, i, fields);
    if let Some((f, e)) = member_at(s, i, fields) {
        lemma_spaces_end_bounds(s, e);
        let n = spaces_end(s, e);
        if n < s.len() {
            lemma_spaces_end_bounds(s, n + 1);
        }
    }
}

/// A member ends behind its start and inside the text.
pub proof fn lemma_member_at_bounds(s: Seq<char>, i: int, fields: Fields)
    ensures
        member_at(s, i, fields) matches Some((f, e)) ==> 0 <= i < e <= s.len(),
{
    if 0 <= i < s.len() && s[i] == '"' {
        lemma_string_end_bounds(s, i + 1);
        if let Some(j) = string_end(s, i + 1) {
            lemma_spaces_end_bounds(s, j);
            let k = spaces_end(s, j);
            if k < s.len() {
                lemma_spaces_end_bounds(s, k + 1);
                lemma_value_end_bounds(s, spaces_end(s, k + 1));
            }
        }
    }
}

/// The fields of the one object that `s` holds, with nothing but JSON spaces
/// around it.
pub open spec fn object_fields(s: Seq<char>) -> Option<Fields> {
    let i = spaces_end(s, 0);
    if i < s.len() && s[i] == '{' {
        let j = spaces_end(s, i + 1);
        let inner = if j < s.len() && s[j] == '}' {
            Some((no_fields(), j + 1))
        } else {
            members_from(s, j, no_fields())
        };
        match inner {
            Some((f, e)) => if spaces_end(s, e) == s.len() { Some(f) } else { None },
            None => None,
        }
    } else {
        None
    }
}

/// The envelope that the fields make: `MalformedEnvelope` without a message
/// or a signature, `InvalidSignatureEncoding` where the signature field
/// stands for no signature.
pub open spec fn envelope_of(fields: Fields) -> Result<EnvelopeView, Error> {
    match (fields.message, fields.signature) {
        (Some(message), Some(signature)) => {
            if signature_of_text(signature) is Some {
                Ok(
                    EnvelopeView {
                        message,
                        signature,
                        identity: match fields.identity {
                            Some(id) => id,
                            None => None,
                        },
                    },
                )
            } else {
                Err(Error::InvalidSignatureEncoding)
            }
        },
        _ => Err(Error::MalformedEnvelope),
    }
}

/// The envelope that the text `s` stands for.
pub open spec fn decoded(s: Seq<char>) -> Result<EnvelopeView, Error> {
    match object_fields(s) {
        Some(fields) => envelope_of(fields),
        None => Err(Error::MalformedEnvelope),
    }
}

// ---------------------------------------------------------------------------
// Reading
// ---------------------------------------------------------------------------

/// The fields of an envelope as far as a text has given them.
#[derive(Debug)]
pub struct ParsedFields {
    pub message: Option<String>,
    pub signature: Option<String>,
    /// `Some(None)` where the identity was given as `null`.
    pub identity: Option<Option<String>>,
}

impl View for ParsedFields {
    type V = Fields;

    open spec fn view(&self) -> Fields {
        Fields {
            message: match self.message {
                Some(m) => Some(m@),
                None => None,
            },
            signature: match self.signature {
                Some(s) => Some(s@),
                None => None,
            },
            identity: match self.identity {
                Some(Some(id)) => Some(Some(id@)),
                Some(None) => Some(None),
                None => None,
            },
        }
    }
}

/// Whether the result of reading a text is `expected`: the same error, or an
/// envelope that holds the same.
pub open spec fn agrees(r: Result<SignedEnvelope, Error>, expected: Result<EnvelopeView, Error>) -> bool {
    match r {
        Ok(env) => expected == Ok::<EnvelopeView, Error>(env@),
        Err(e) => expected == Err::<EnvelopeView, Error>(e),
    }
}

/// Makes the envelope of the fields that a text gave: `MalformedEnvelope`
/// without a message or a signature, `InvalidSignatureEncoding` where the
/// signature field is not base64 or not 64 bytes long.
pub fn envelope_from_fields(fields: ParsedFields) -> (r: Result<SignedEnvelope, Error>)
    ensures
        agrees(r, envelope_of(fields@)),
        r matches Ok(env) ==> env.wf(),
{
    let ParsedFields { message, signature, identity } = fields;
    match (message, signature) {
        (Some(message), Some(signature)) => {
            match signature_from_text(signature.as_str()) {
                Ok(_) => {
                    let identity = match identity {
                        Some(id) => id,
                        None => None,
                    };
                    Ok(SignedEnvelope { message, signature, identity })
                },
                Err(e) => Err(e),
            }
        },
        _ => Err(Error::MalformedEnvelope),
    }
}

/// Whether `s` is the text `literal`.
fn is_text(s: &String, literal: &str) -> (r: bool)
    ensures
        r == (s@ == literal@),
{
    let other = String::from_str(literal);
    *s == other
}

/// Takes in the member with key `key` and value text `value`.
fn store(fields: ParsedFields, key: &String, value: &String) -> (r: Option<ParsedFields>)
    ensures
        match r {
            Some(f) => stored(fields@, key@, value@) == Some(f@),
            None => stored(fields@, key@, value@) is None,
        },
{
    proof {
        reveal_strlit("message");
        reveal_strlit("signature");
        reveal_strlit("github_user");
        reveal_strlit("null");
        assert("message"@ =~= message_key());
        assert("signature"@ =~= signature_key());
        assert("github_user"@ =~= identity_key());
        assert("null"@ =~= null_text());
    }
    let ParsedFields { message, signature, identity } = fields;
    if is_text(key, "message") {
        if message.is_some() {
            return None;
        }
        match json_unquote(value.as_str()) {
            Some(v) => Some(ParsedFields { message: Some(v), signature, identity }),
            None => None,
        }
    } else if is_text(key, "signature") {
        if signature.is_some() {
            return None;
        }
        match json_unquote(value.as_str()) {
            Some(v) => Some(ParsedFields { message, signature: Some(v), identity }),
            None => None,
        }
    } else if is_text(key, "github_user") {
        if identity.is_some() {
            return None;
        }
        if is_text(value, "null") {
            return Some(ParsedFields { message, signature, identity: Some(None) });
        }
        match json_unquote(value.as_str()) {
            Some(v) => Some(ParsedFields { message, signature, identity: Some(Some(v)) }),
            None => None,
        }
    } else if json_is_value(value.as_str()) {
        Some(ParsedFields { message, signature, identity })
    } else {
        None
    }
}

/// Reads the member whose key opens at `i`.
fn parse_member(chars: &Vec<char>, i: usize, fields: ParsedFields) -> (r: Option<
    (ParsedFields, usize),
>)
    requires
        i <= chars@.len(),
    ensures
        match r {
            Some((f, e)) => member_at(chars@, i as int, fields@) == Some((f@, e as int)) && i < e
                <= chars@.len(),
            None => member_at(chars@, i as int, fields@) is None,
        },
{
    let len = chars.len();
    if i >= len || chars[i] != '"' {
        return None;
    }
    let j = match scan_string(chars, i + 1) {
        Some(j) => j,
        None => { return None; },
    };
    let key_text = string_of(chars, i, j);
    let key = match json_unquote(key_text.as_str()) {
        Some(key) => key,
        None => { return None; },
    };
    let k = skip_spaces(chars, j);
    if k >= len || chars[k] != ':' {
        return None;
    }
    let v = skip_spaces(chars, k + 1);
    let e = match scan_value(chars, v) {
        Some(e) => e,
        None => { return None; },
    };
    let value_text = string_of(chars, v, e);
    match store(fields, &key, &value_text) {
        Some(f) => Some((f, e)),
        None => None,
    }
}

/// Reads the members from `start` on, up to the closing brace.
fn parse_members(chars: &Vec<char>, start: usize) -> (r: Option<(ParsedFields, usize)>)
    requires
        start <= chars@.len(),
    ensures
        match r {
            Some((f, e)) => members_from(chars@, start as int, no_fields()) == Some((f@, e as int))
                && e <= chars@.len(),
            None => members_from(chars@, start as int, no_fields()) is None,
        },
{
    let len = chars.len();
    let mut fields = ParsedFields { message: None, signature: None, identity: None };
    let mut i: usize = start;
    loop
        invariant
            len == chars@.len(),
            i <= len,
            members_from(chars@, start as int, no_fields()) == members_from(
                chars@,
                i as int,
                fields@,
            ),
        decreases len - i,
    {
        match parse_member(chars, i, fields) {
            Some((f, e)) => {
                let n = skip_spaces(chars, e);
                if n < len && chars[n] == ',' {
                    i = skip_spaces(chars, n + 1);
                    fields = f;
                } else if n < len && chars[n] == '}' {
                    return Some((f, n + 1));
                } else {
                    return None;
                }
            },
            None => {
                return None;
            },
        }
    }
}

/// Reads the fields of the one object that `chars` holds.
pub fn parse_fields(chars: &Vec<char>) -> (r: Option<ParsedFields>)
    ensures
        match r {
            Some(f) => object_fields(chars@) == Some(f@),
            None => object_fields(chars@) is None,
        },
{
    let len = chars.len();
    let i = skip_spaces(chars, 0);
    if i >= len || chars[i] != '{' {
        return None;
    }
    let j = skip_spaces(chars, i + 1);
    let inner = if j < len && chars[j] == '}' {
        Some((ParsedFields { message: None, signature: None, identity: None }, j + 1))
    } else {
        parse_members(chars, j)
    };
    match inner {
        Some((f, e)) => {
            if skip_spaces(chars, e) == len {
                Some(f)
            } else {
                None
            }
        },
        None => None,
    }
}

/// Reads an envelope from its text, compact or indented.
///
/// The text must be one JSON object with the string fields `message` and
/// `signature`, each at most once; `github_user` may be a string, `null` or
/// missing; other fields are passed over. Anything else is a
/// `MalformedEnvelope`. A signature field that is not base64 of 64 bytes is an
/// `InvalidSignatureEncoding`.
pub fn decode(text: &str) -> (r: Result<SignedEnvelope, Error>)
    ensures
        agrees(r, decoded(text@)),
        r matches Ok(env) ==> env.wf(),
{
    let chars = to_chars(text);
    match parse_fields(&chars) {
        Some(fields) => envelope_from_fields(fields),
        None => Err(Error::MalformedEnvelope),
    }
}

// ---------------------------------------------------------------------------
// Writing
// ---------------------------------------------------------------------------

/// Appends one field with a string value. Reading back either quoted string
/// gives the string.
fn append_member(out: &mut String, key: &str, value: &str, pretty: bool)
    ensures
        final(out)@ == old(out)@ + member_text(key@, value@, pretty),
        json_string_value(json_quoted(key@)) == Some(key@),
        json_string_value(json_quoted(value@)) == Some(value@),
{
    proof {
        reveal_strlit("\n  ");
        reveal_strlit(": ");
        reveal_strlit(":");
        assert("\n  "@ =~= gap(true));
        assert(": "@ =~= colon(true));
        assert(":"@ =~= colon(false));
    }
    let quoted_key = json_quote(key);
    let quoted_value = json_quote(value);
    if pretty {
        out.append("\n  ");
        out.append(quoted_key.as_str());
        out.append(": ");
    } else {
        out.append(quoted_key.as_str());
        out.append(":");
    }
    out.append(quoted_value.as_str());
    assert(out@ =~= old(out)@ + member_text(key@, value@, pretty));
}

/// Writes an envelope as text: one JSON object with the fields `message`,
/// `signature` and, only where the envelope has an identity, `github_user`,
/// in this order; without any space, or indented by two spaces with one field
/// per line.
///
/// `decode` reads the text back as the same envelope, where the signature
/// field of the envelope stands for a signature.
pub fn encode(env: &SignedEnvelope, pretty: bool) -> (text: String)
    ensures
        text@ == encoded(env@, pretty),
        env.wf() ==> decoded(text@) == Ok::<EnvelopeView, Error>(env@),
{
    proof {
        reveal_strlit("{");
        reveal_strlit(",");
        reveal_strlit("}");
        reveal_strlit("\n}");
        reveal_strlit("message");
        reveal_strlit("signature");
        reveal_strlit("github_user");
        assert("{"@ =~= seq!['{']);
        assert(","@ =~= seq![',']);
        assert("}"@ =~= closing(false));
        assert("\n}"@ =~= closing(true));
        assert("message"@ =~= message_key());
        assert("signature"@ =~= signature_key());
        assert("github_user"@ =~= identity_key());
    }
    let mut out = String::from_str("{");
    append_member(&mut out, "message", env.message.as_str(), pretty);
    out.append(",");
    append_member(&mut out, "signature", env.signature.as_str(), pretty);
    match &env.identity {
        Some(id) => {
            let ghost before = out@;
            out.append(",");
            append_member(&mut out, "github_user", id.as_str(), pretty);
            assert(out@ =~= before + identity_text(env@.identity, pretty));
        },
        None => {
            assert(out@ =~= out@ + identity_text(env@.identity, pretty));
        },
    }
    if pretty {
        out.append("\n}");
    } else {
        out.append("}");
    }
    proof {
        if env.wf() {
            lemma_decode_encoded(env@, pretty);
        }
    }
    out
}

} // verus!
