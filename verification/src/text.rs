use vstd::prelude::*;
use vstd::std_specs::iter::IteratorSpec;

verus! {

/// The characters of `s`, in order.
pub fn to_chars(s: &str) -> (out: Vec<char>)
    ensures
        out@ == s@,
{
    broadcast use vstd::string::axiom_spec_iter, vstd::string::next_postcondition;
    let mut out: Vec<char> = Vec::new();
    let mut it = s.chars();
    loop
        invariant
            it.obeys_prophetic_iter_laws(),
            it.decrease() is Some,
            out@ + it.remaining() == s@,
        ensures
            out@ == s@,
        decreases it.decrease()->0,
    {
        match it.next() {
            Some(c) => {
                out.push(c);
                assert(out@ + it.remaining() =~= s@);
            },
            None => {
                assert(out@ =~= s@);
                break;
            },
        }
    }
    out
}

/// `String::push`: appends one character to the string.
#[verifier::external_body]
pub(crate) fn push_char(s: &mut String, c: char)
    ensures
        final(s)@ == old(s)@.push(c),
{
    s.push(c);
}

/// The string made of `chars[from..to]`.
pub fn string_of(chars: &Vec<char>, from: usize, to: usize) -> (out: String)
    requires
        from <= to <= chars@.len(),
    ensures
        out@ == chars@.subrange(from as int, to as int),
{
    let mut out = String::new();
    let mut i: usize = from;
    while i < to
        invariant
            from <= i <= to <= chars@.len(),
            out@ == chars@.subrange(from as int, i as int),
        decreases to - i,
    {
        push_char(&mut out, chars[i]);
        i = i + 1;
        assert(out@ =~= chars@.subrange(from as int, i as int));
    }
    out
}

/// Whether `text` occurs in `s` at index `at`.
pub open spec fn has_at(s: Seq<char>, at: int, text: Seq<char>) -> bool {
    0 <= at && at + text.len() <= s.len() && s.subrange(at, at + text.len()) == text
}

/// Whether `text` occurs in `chars` at index `at`.
pub fn starts_at(chars: &Vec<char>, at: usize, text: &Vec<char>) -> (found: bool)
    requires
        at <= chars@.len(),
    ensures
        found == has_at(chars@, at as int, text@),
{
    if text.len() > chars.len() - at {
        return false;
    }
    let mut i: usize = 0;
    while i < text.len()
        invariant
            at + text@.len() <= chars@.len() <= usize::MAX,
            i <= text@.len(),
            chars@.subrange(at as int, at + i) == text@.subrange(0, i as int),
        decreases text@.len() - i,
    {
        if chars[at + i] != text[i] {
            assert(chars@.subrange(at as int, at + text@.len())[i as int] != text@[i as int]);
            return false;
        }
        i = i + 1;
        assert(chars@.subrange(at as int, at + i) =~= text@.subrange(0, i as int)) by {
            assert(chars@.subrange(at as int, at + i) =~= chars@.subrange(at as int, at + i - 1).push(chars@[at + i - 1]));
            assert(text@.subrange(0, i as int) =~= text@.subrange(0, i - 1).push(text@[i - 1]));
        }
    }
    assert(text@.subrange(0, text@.len() as int) =~= text@);
    true
}

} // verus!
