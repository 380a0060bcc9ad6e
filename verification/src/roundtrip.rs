use vstd::prelude::*;
use crate::codec::{
    closing, colon, decoded, encoded, envelope_of, gap, identity_key, member_at, members_from,
    message_key, no_fields, null_text, object_fields, signature_key, stored, Fields,
};
use crate::envelope::{signature_of_text, EnvelopeView};
use crate::error::Error;
use crate::json::{
    escaped, escaped_char, is_json_space, json_quoted, json_string_value, spaces_end, string_end,
    value_end,
};
use crate::text::has_at;

verus! {

/// Whether `s` ends with `text`, and `text` starts at `at`.
pub open spec fn tail_at(s: Seq<char>, at: int, text: Seq<char>) -> bool {
    has_at(s, at, text) && at + text.len() == s.len()
}

/// Where two texts stand one behind the other, each stands at its place.
pub proof fn lemma_has_at_split(s: Seq<char>, at: int, a: Seq<char>, b: Seq<char>)
    requires
        has_at(s, at, a + b),
    ensures
        has_at(s, at, a),
        has_at(s, at + a.len(), b),
{
    let whole = s.subrange(at, at + (a + b).len());
    assert(s.subrange(at, at + a.len()) =~= whole.subrange(0, a.len() as int));
    assert((a + b).subrange(0, a.len() as int) =~= a);
    assert(s.subrange(at + a.len(), at + a.len() + b.len()) =~= whole.subrange(
        a.len() as int,
        (a + b).len() as int,
    ));
    assert((a + b).subrange(a.len() as int, (a + b).len() as int) =~= b);
}

/// The characters of a text that stands at `at`.
pub proof fn lemma_has_at_index(s: Seq<char>, at: int, text: Seq<char>, k: int)
    requires
        has_at(s, at, text),
        0 <= k < text.len(),
    ensures
        s[at + k] == text[k],
{
    assert(s.subrange(at, at + text.len())[k] == s[at + k]);
}

/// No escape of a character is empty, and only a quote's escape holds a
/// quote, behind a backslash.
pub proof fn lemma_escaped_char_shape(c: char)
    ensures
        1 <= escaped_char(c).len() <= 6,
        escaped_char(c).len() == 1 ==> escaped_char(c)[0] != '"' && escaped_char(c)[0] != '\\',
        escaped_char(c).len() > 1 ==> escaped_char(c)[0] == '\\',
        escaped_char(c).len() != 1 ==> escaped_char(c).len() == 2 || escaped_char(c).len() == 6,
        escaped_char(c).len() == 6 ==> {
            &&& escaped_char(c)[2] != '"' && escaped_char(c)[2] != '\\'
            &&& escaped_char(c)[3] != '"' && escaped_char(c)[3] != '\\'
            &&& escaped_char(c)[4] != '"' && escaped_char(c)[4] != '\\'
            &&& escaped_char(c)[5] != '"' && escaped_char(c)[5] != '\\'
        },
{
}

/// Behind the escaped characters of `m` and a quote, the string ends.
pub proof fn lemma_escaped_end(s: Seq<char>, i: int, m: Seq<char>)
    requires
        has_at(s, i, escaped(m) + seq!['"']),
    ensures
        string_end(s, i) == Some(i + escaped(m).len() + 1),
    decreases m.len(),
{
    if m.len() == 0 {
        lemma_has_at_index(s, i, escaped(m) + seq!['"'], 0);
    } else {
        let c = m[0];
        let e = escaped_char(c);
        let rest = escaped(m.drop_first()) + seq!['"'];
        assert(escaped(m) + seq!['"'] =~= e + rest);
        lemma_has_at_split(s, i, e, rest);
        lemma_escaped_char_shape(c);
        lemma_escaped_end(s, i + e.len(), m.drop_first());
        lemma_has_at_index(s, i, e, 0);
        if e.len() == 1 {
        } else if e.len() == 2 {
        } else {
            lemma_has_at_index(s, i, e, 2);
            lemma_has_at_index(s, i, e, 3);
            lemma_has_at_index(s, i, e, 4);
            lemma_has_at_index(s, i, e, 5);
            assert(string_end(s, i) == string_end(s, i + 2));
            assert(string_end(s, i + 2) == string_end(s, i + 3));
            assert(string_end(s, i + 3) == string_end(s, i + 4));
            assert(string_end(s, i + 4) == string_end(s, i + 5));
            assert(string_end(s, i + 5) == string_end(s, i + 6));
        }
    }
}

/// A quoted string that stands at `i` is the value that starts there.
pub proof fn lemma_quoted_value(s: Seq<char>, i: int, m: Seq<char>)
    requires
        has_at(s, i, json_quoted(m)),
    ensures
        s[i] == '"',
        string_end(s, i + 1) == Some(i + json_quoted(m).len()),
        value_end(s, i) == Some(i + json_quoted(m).len()),
        s.subrange(i, i + json_quoted(m).len()) == json_quoted(m),
{
    let body = escaped(m) + seq!['"'];
    assert(json_quoted(m) =~= seq!['"'] + body);
    lemma_has_at_split(s, i, seq!['"'], body);
    lemma_has_at_index(s, i, seq!['"'], 0);
    lemma_escaped_end(s, i + 1, m);
}

/// Behind a key's gap the spaces end, where something else follows.
pub proof fn lemma_gap_skipped(s: Seq<char>, i: int, pretty: bool, next: Seq<char>)
    requires
        has_at(s, i, gap(pretty) + next),
        next.len() > 0,
        !is_json_space(next[0]),
    ensures
        spaces_end(s, i) == i + gap(pretty).len(),
        has_at(s, i + gap(pretty).len(), next),
{
    lemma_has_at_split(s, i, gap(pretty), next);
    lemma_has_at_index(s, i + gap(pretty).len(), next, 0);
    if pretty {
        lemma_has_at_index(s, i, gap(pretty), 0);
        lemma_has_at_index(s, i, gap(pretty), 1);
        lemma_has_at_index(s, i, gap(pretty), 2);
        assert(spaces_end(s, i) == spaces_end(s, i + 1));
        assert(spaces_end(s, i + 1) == spaces_end(s, i + 2));
        assert(spaces_end(s, i + 2) == spaces_end(s, i + 3));
    }
}

/// A key, the colon and a string value that stand at `i` are one member.
pub proof fn lemma_member(
    s: Seq<char>,
    i: int,
    fields: Fields,
    key: Seq<char>,
    value: Seq<char>,
    pretty: bool,
)
    requires
        has_at(s, i, json_quoted(key) + colon(pretty) + json_quoted(value)),
        json_string_value(json_quoted(key)) == Some(key),
    ensures
        member_at(s, i, fields) == match stored(fields, key, json_quoted(value)) {
            Some(f) => Some(
                (f, i + json_quoted(key).len() + colon(pretty).len() + json_quoted(value).len()),
            ),
            None => None,
        },
{
    let qk = json_quoted(key);
    let qv = json_quoted(value);
    lemma_has_at_split(s, i, qk + colon(pretty), qv);
    lemma_has_at_split(s, i, qk, colon(pretty));
    lemma_quoted_value(s, i, key);
    let j: int = i + qk.len();
    lemma_has_at_index(s, j, colon(pretty), 0);
    assert(spaces_end(s, j) == j);
    let v: int = j + colon(pretty).len();
    lemma_quoted_value(s, v, value);
    if pretty {
        lemma_has_at_index(s, j, colon(pretty), 1);
        assert(spaces_end(s, j + 1) == spaces_end(s, j + 2));
    }
    assert(spaces_end(s, j + 1) == v);
}

/// Where a member is followed by a comma, a gap and another key, the
/// members go on with that key.
pub proof fn lemma_members_more(
    s: Seq<char>,
    i: int,
    fields: Fields,
    key: Seq<char>,
    value: Seq<char>,
    pretty: bool,
    next: Seq<char>,
)
    requires
        has_at(
            s,
            i,
            json_quoted(key) + colon(pretty) + json_quoted(value) + (seq![','] + gap(pretty) + next),
        ),
        json_string_value(json_quoted(key)) == Some(key),
        next.len() > 0,
        next[0] == '"',
    ensures
        stored(fields, key, json_quoted(value)) matches Some(f) ==> members_from(s, i, fields)
            == members_from(
            s,
            i + json_quoted(key).len() + colon(pretty).len() + json_quoted(value).len() + 1 + gap(
                pretty,
            ).len(),
            f,
        ),
        has_at(
            s,
            i + json_quoted(key).len() + colon(pretty).len() + json_quoted(value).len() + 1 + gap(
                pretty,
            ).len(),
            next,
        ),
{
    let member = json_quoted(key) + colon(pretty) + json_quoted(value);
    let after = seq![','] + gap(pretty) + next;
    lemma_has_at_split(s, i, member, after);
    lemma_member(s, i, fields, key, value, pretty);
    let e: int = i + member.len();
    assert(after =~= seq![','] + (gap(pretty) + next));
    lemma_has_at_split(s, e, seq![','], gap(pretty) + next);
    lemma_has_at_index(s, e, seq![','], 0);
    assert(spaces_end(s, e) == e);
    lemma_gap_skipped(s, e + 1, pretty, next);
}

/// Where a member is followed by the closing of the object and the text ends
/// there, the members end with it.
pub proof fn lemma_members_last(
    s: Seq<char>,
    i: int,
    fields: Fields,
    key: Seq<char>,
    value: Seq<char>,
    pretty: bool,
)
    requires
        tail_at(s, i, json_quoted(key) + colon(pretty) + json_quoted(value) + closing(pretty)),
        json_string_value(json_quoted(key)) == Some(key),
    ensures
        stored(fields, key, json_quoted(value)) matches Some(f) ==> members_from(s, i, fields)
            == Some((f, s.len() as int)),
{
    let member = json_quoted(key) + colon(pretty) + json_quoted(value);
    lemma_has_at_split(s, i, member, closing(pretty));
    lemma_member(s, i, fields, key, value, pretty);
    let e: int = i + member.len();
    lemma_has_at_index(s, e, closing(pretty), 0);
    if pretty {
        lemma_has_at_index(s, e, closing(pretty), 1);
        assert(spaces_end(s, e) == spaces_end(s, e + 1));
        assert(spaces_end(s, e + 1) == e + 1);
    } else {
        assert(spaces_end(s, e) == e);
    }
}

/// What the two members that every envelope has leave of the fields, and
/// what an identity adds.
pub proof fn lemma_stored_fields(env: EnvelopeView)
    requires
        json_string_value(json_quoted(env.message)) == Some(env.message),
        json_string_value(json_quoted(env.signature)) == Some(env.signature),
        env.identity matches Some(id) ==> json_string_value(json_quoted(id)) == Some(id),
    ensures
        stored(no_fields(), message_key(), json_quoted(env.message)) == Some(
            Fields { message: Some(env.message), signature: None, identity: None },
        ),
        stored(
            Fields { message: Some(env.message), signature: None, identity: None },
            signature_key(),
            json_quoted(env.signature),
        ) == Some(
            Fields { message: Some(env.message), signature: Some(env.signature), identity: None },
        ),
        env.identity matches Some(id) ==> stored(
            Fields { message: Some(env.message), signature: Some(env.signature), identity: None },
            identity_key(),
            json_quoted(id),
        ) == Some(
            Fields {
                message: Some(env.message),
                signature: Some(env.signature),
                identity: Some(Some(id)),
            },
        ),
{
    assert(message_key().len() == 7);
    assert(signature_key().len() == 9);
    assert(identity_key().len() == 11);
    if let Some(id) = env.identity {
        assert(json_quoted(id)[0] == '"');
        assert(null_text()[0] == 'n');
    }
}

/// An object that opens with a brace and a gap, and whose members reach the
/// end of the text, holds the fields of its members.
pub proof fn lemma_object(s: Seq<char>, pretty: bool, inner: Seq<char>, f: Fields)
    requires
        s == seq!['{'] + (gap(pretty) + inner),
        inner.len() > 0,
        inner[0] == '"',
        members_from(s, 1 + gap(pretty).len() as int, no_fields()) == Some((f, s.len() as int)),
    ensures
        object_fields(s) == Some(f),
{
    assert(has_at(s, 0, seq!['{'] + (gap(pretty) + inner))) by {
        assert(s.subrange(0, s.len() as int) =~= s);
    }
    lemma_has_at_split(s, 0, seq!['{'], gap(pretty) + inner);
    lemma_has_at_index(s, 0, seq!['{'], 0);
    assert(spaces_end(s, 0) == 0);
    lemma_gap_skipped(s, 1, pretty, inner);
    lemma_has_at_index(s, 1 + gap(pretty).len() as int, inner, 0);
    assert(spaces_end(s, s.len() as int) == s.len());
}

/// The text behind the opening gap of an envelope's text.
pub open spec fn inner_text(env: EnvelopeView, pretty: bool) -> Seq<char> {
    let m1 = json_quoted(message_key()) + colon(pretty) + json_quoted(env.message);
    let m2 = json_quoted(signature_key()) + colon(pretty) + json_quoted(env.signature);
    let t2 = match env.identity {
        Some(id) => m2 + (seq![','] + gap(pretty) + (json_quoted(identity_key()) + colon(pretty)
            + json_quoted(id) + closing(pretty))),
        None => m2 + closing(pretty),
    };
    m1 + (seq![','] + gap(pretty) + t2)
}

/// How the pieces of a text with two members group.
proof fn lemma_group_two(
    open: Seq<char>,
    g: Seq<char>,
    k1: Seq<char>,
    c: Seq<char>,
    v1: Seq<char>,
    comma: Seq<char>,
    k2: Seq<char>,
    v2: Seq<char>,
    close: Seq<char>,
)
    ensures
        open + (g + k1 + c + v1) + comma + (g + k2 + c + v2) + Seq::<char>::empty() + close == open
            + (g + ((k1 + c + v1) + (comma + g + ((k2 + c + v2) + close)))),
{
    let left = open + (g + k1 + c + v1) + comma + (g + k2 + c + v2) + Seq::<char>::empty() + close;
    let right = open + (g + ((k1 + c + v1) + (comma + g + ((k2 + c + v2) + close))));
    assert(left.len() == right.len());
    assert(left =~= right);
}

/// How the pieces of a text with three members group.
proof fn lemma_group_three(
    open: Seq<char>,
    g: Seq<char>,
    k1: Seq<char>,
    c: Seq<char>,
    v1: Seq<char>,
    comma: Seq<char>,
    k2: Seq<char>,
    v2: Seq<char>,
    k3: Seq<char>,
    v3: Seq<char>,
    close: Seq<char>,
)
    ensures
        open + (g + k1 + c + v1) + comma + (g + k2 + c + v2) + (comma + (g + k3 + c + v3)) + close
            == open + (g + ((k1 + c + v1) + (comma + g + ((k2 + c + v2) + (comma + g + (k3 + c + v3
            + close)))))),
{
    let left = open + (g + k1 + c + v1) + comma + (g + k2 + c + v2) + (comma + (g + k3 + c + v3))
        + close;
    let right = open + (g + ((k1 + c + v1) + (comma + g + ((k2 + c + v2) + (comma + g + (k3 + c
        + v3 + close))))));
    assert(left.len() == right.len());
    assert(left =~= right);
}

/// The text of an envelope is a brace, a gap and the inner text.
pub proof fn lemma_encoded_shape(env: EnvelopeView, pretty: bool)
    ensures
        encoded(env, pretty) == seq!['{'] + (gap(pretty) + inner_text(env, pretty)),
        inner_text(env, pretty).len() > 0,
        inner_text(env, pretty)[0] == '"',
        tail_at(encoded(env, pretty), 1 + gap(pretty).len() as int, inner_text(env, pretty)),
{
    let s = encoded(env, pretty);
    let inner = inner_text(env, pretty);
    let t = seq!['{'] + (gap(pretty) + inner);
    match env.identity {
        Some(id) => {
            lemma_group_three(
                seq!['{'],
                gap(pretty),
                json_quoted(message_key()),
                colon(pretty),
                json_quoted(env.message),
                seq![','],
                json_quoted(signature_key()),
                json_quoted(env.signature),
                json_quoted(identity_key()),
                json_quoted(id),
                closing(pretty),
            );
        },
        None => {
            lemma_group_two(
                seq!['{'],
                gap(pretty),
                json_quoted(message_key()),
                colon(pretty),
                json_quoted(env.message),
                seq![','],
                json_quoted(signature_key()),
                json_quoted(env.signature),
                closing(pretty),
            );
        },
    }
    assert(s == t);
    lemma_suffix(seq!['{'] + gap(pretty), inner);
    assert(seq!['{'] + gap(pretty) + inner =~= t);
    lemma_first_of_quoted(message_key(), colon(pretty) + json_quoted(env.message));
}

/// A text stands behind what it is appended to, up to the end.
proof fn lemma_suffix(a: Seq<char>, b: Seq<char>)
    ensures
        tail_at(a + b, a.len() as int, b),
{
    assert((a + b).subrange(a.len() as int, (a + b).len() as int) =~= b);
}

/// A quoted string and what follows it start with a quote.
proof fn lemma_first_of_quoted(m: Seq<char>, rest: Seq<char>)
    ensures
        (json_quoted(m) + rest).len() > 0,
        (json_quoted(m) + rest)[0] == '"',
        json_quoted(m)[0] == '"',
{
}

/// The members of an envelope's text give its fields and reach the end of
/// the text.
pub proof fn lemma_members_of_encoded(s: Seq<char>, at: int, env: EnvelopeView, pretty: bool)
    requires
        tail_at(s, at, inner_text(env, pretty)),
        json_string_value(json_quoted(message_key())) == Some(message_key()),
        json_string_value(json_quoted(signature_key())) == Some(signature_key()),
        env.identity is Some ==> json_string_value(json_quoted(identity_key())) == Some(
            identity_key(),
        ),
        json_string_value(json_quoted(env.message)) == Some(env.message),
        json_string_value(json_quoted(env.signature)) == Some(env.signature),
        env.identity matches Some(id) ==> json_string_value(json_quoted(id)) == Some(id),
    ensures
        members_from(s, at, no_fields()) == Some(
            (
                Fields {
                    message: Some(env.message),
                    signature: Some(env.signature),
                    identity: match env.identity {
                        Some(id) => Some(Some(id)),
                        None => None,
                    },
                },
                s.len() as int,
            ),
        ),
{
    let g = gap(pretty);
    let m1 = json_quoted(message_key()) + colon(pretty) + json_quoted(env.message);
    let m2 = json_quoted(signature_key()) + colon(pretty) + json_quoted(env.signature);
    let f0 = no_fields();
    let f1 = Fields { message: Some(env.message), signature: None, identity: None };
    let f2 = Fields { message: Some(env.message), signature: Some(env.signature), identity: None };
    lemma_stored_fields(env);
    assert(json_quoted(signature_key())[0] == '"');
    assert(json_quoted(identity_key())[0] == '"');
    let p2: int = at + m1.len() + 1 + g.len();
    match env.identity {
        Some(id) => {
            let t3 = json_quoted(identity_key()) + colon(pretty) + json_quoted(id) + closing(
                pretty,
            );
            let t2 = m2 + (seq![','] + g + t3);
            assert(t2[0] == '"');
            assert(t3[0] == '"');
            lemma_members_more(s, at, f0, message_key(), env.message, pretty, t2);
            lemma_members_more(s, p2, f1, signature_key(), env.signature, pretty, t3);
            let p3: int = p2 + m2.len() + 1 + g.len();
            assert(p3 + t3.len() == s.len());
            lemma_members_last(s, p3, f2, identity_key(), id, pretty);
        },
        None => {
            let t2 = m2 + closing(pretty);
            assert(t2[0] == '"');
            lemma_members_more(s, at, f0, message_key(), env.message, pretty, t2);
            assert(p2 + t2.len() == s.len());
            lemma_members_last(s, p2, f1, signature_key(), env.signature, pretty);
        },
    }
}

/// Decoding the text of an envelope gives the envelope back, where reading a
/// quoted string gives the string back for the keys and the fields, and the
/// signature field stands for a signature.
pub proof fn lemma_decode_encoded(env: EnvelopeView, pretty: bool)
    requires
        json_string_value(json_quoted(message_key())) == Some(message_key()),
        json_string_value(json_quoted(signature_key())) == Some(signature_key()),
        env.identity is Some ==> json_string_value(json_quoted(identity_key())) == Some(
            identity_key(),
        ),
        json_string_value(json_quoted(env.message)) == Some(env.message),
        json_string_value(json_quoted(env.signature)) == Some(env.signature),
        env.identity matches Some(id) ==> json_string_value(json_quoted(id)) == Some(id),
        signature_of_text(env.signature) is Some,
    ensures
        decoded(encoded(env, pretty)) == Ok::<EnvelopeView, Error>(env),
{
    let s = encoded(env, pretty);
    let f = Fields {
        message: Some(env.message),
        signature: Some(env.signature),
        identity: match env.identity {
            Some(id) => Some(Some(id)),
            None => None,
        },
    };
    lemma_encoded_shape(env, pretty);
    lemma_members_of_encoded(s, 1 + gap(pretty).len() as int, env, pretty);
    lemma_object(s, pretty, inner_text(env, pretty), f);
    assert(envelope_of(f) == Ok::<EnvelopeView, Error>(env));
}

} // verus!
