use vstd::prelude::*;

verus! {

// ---------------------------------------------------------------------------
// Writing a string
// ---------------------------------------------------------------------------

/// The lower-case hexadecimal digit of `n`, for `0 <= n < 16`.
pub open spec fn hex_digit(n: int) -> char {
    if n == 0 { '0' } else if n == 1 { '1' } else if n == 2 { '2' } else if n == 3 { '3' }
    else if n == 4 { '4' } else if n == 5 { '5' } else if n == 6 { '6' } else if n == 7 { '7' }
    else if n == 8 { '8' } else if n == 9 { '9' } else if n == 10 { 'a' } else if n == 11 { 'b' }
    else if n == 12 { 'c' } else if n == 13 { 'd' } else if n == 14 { 'e' } else { 'f' }
}

/// How one character stands inside a JSON string: the quote, the backslash
/// and the control characters are escaped, every other character stands for
/// itself.
pub open spec fn escaped_char(c: char) -> Seq<char> {
    if c == '"' {
        seq!['\\', '"']
    } else if c == '\\' {
        seq!['\\', '\\']
    } else if c == '\u{8}' {
        seq!['\\', 'b']
    } else if c == '\t' {
        seq!['\\', 't']
    } else if c == '\n' {
        seq!['\\', 'n']
    } else if c == '\u{c}' {
        seq!['\\', 'f']
    } else if c == '\r' {
        seq!['\\', 'r']
    } else if (c as u32) < 0x20 {
        seq!['\\', 'u', '0', '0', hex_digit((c as u32) as int / 16), hex_digit((c as u32) as int % 16)]
    } else {
        seq![c]
    }
}

/// The characters of `s`, each escaped, in order.
pub open spec fn escaped(s: Seq<char>) -> Seq<char>
    decreases s.len(),
{
    if s.len() == 0 {
        Seq::empty()
    } else {
        escaped_char(s[0]) + escaped(s.drop_first())
    }
}

/// `s` as a JSON string: escaped, between two quotes.
pub open spec fn json_quoted(s: Seq<char>) -> Seq<char> {
    seq!['"'] + escaped(s) + seq!['"']
}

/// What a JSON string stands for: the text between the quotes with its
/// escapes resolved, or `None` where `text` is not one JSON string.
pub uninterp spec fn json_string_value(text: Seq<char>) -> Option<Seq<char>>;

/// Whether `text` is one JSON value of any kind.
pub uninterp spec fn json_value_text(text: Seq<char>) -> bool;

/// `serde_json::to_string` on a string slice. It writes the string between
/// quotes and escapes the quote, the backslash and the characters below
/// U+0020, and nothing else; writing into memory, it does not fail. What it
/// wrote, `serde_json::from_str` reads back as the same string.
#[verifier::external_body]
pub(crate) fn json_quote(s: &str) -> (text: String)
    ensures
        text@ == json_quoted(s@),
        json_string_value(text@) == Some(s@),
{
    serde_json::to_string(s).unwrap_or_default()
}

/// `serde_json::from_str` for a `String`: the string that the JSON string
/// `text` stands for, or nothing where `text` is not one JSON string.
#[verifier::external_body]
pub(crate) fn json_unquote(text: &str) -> (value: Option<String>)
    ensures
        match value {
            Some(v) => json_string_value(text@) == Some(v@),
            None => json_string_value(text@) is None,
        },
{
    serde_json::from_str::<String>(text).ok()
}

/// `serde_json::from_str` for `serde::de::IgnoredAny`: whether `text` is one
/// JSON value, whose content is not looked at.
#[verifier::external_body]
pub(crate) fn json_is_value(text: &str) -> (ok: bool)
    ensures
        ok == json_value_text(text@),
{
    serde_json::from_str::<serde::de::IgnoredAny>(text).is_ok()
}

// ---------------------------------------------------------------------------
// Finding where a value ends
// ---------------------------------------------------------------------------

/// The four characters that JSON allows between its tokens.
pub open spec fn is_json_space(c: char) -> bool {
    c == ' ' || c == '\n' || c == '\t' || c == '\r'
}

/// The first index from `i` on that holds no JSON space (the length of `s`
/// where there is none).
pub open spec fn spaces_end(s: Seq<char>, i: int) -> int
    decreases s.len() - i,
{
    if 0 <= i < s.len() && is_json_space(s[i]) {
        spaces_end(s, i + 1)
    } else {
        i
    }
}

/// The index just behind the quote that closes a string whose content starts
/// at `i`. A backslash takes the character behind it along.
pub open spec fn string_end(s: Seq<char>, i: int) -> Option<int>
    decreases s.len() - i,
{
    if i < 0 || i >= s.len() {
        None
    } else if s[i] == '"' {
        Some(i + 1)
    } else if s[i] == '\\' {
        if i + 1 < s.len() {
            string_end(s, i + 2)
        } else {
            None
        }
    } else {
        string_end(s, i + 1)
    }
}

/// The index just behind the bracket that closes an array or object of which
/// `depth` brackets are open at `i`; `quoted` says whether `i` lies inside a
/// string. Brackets inside strings do not count.
pub open spec fn nested_end(s: Seq<char>, i: int, depth: nat, quoted: bool) -> Option<int>
    decreases s.len() - i,
{
    if i < 0 || i >= s.len() {
        None
    } else if quoted {
        if s[i] == '"' {
            nested_end(s, i + 1, depth, false)
        } else if s[i] == '\\' {
            if i + 1 < s.len() {
                nested_end(s, i + 2, depth, true)
            } else {
                None
            }
        } else {
            nested_end(s, i + 1, depth, true)
        }
    } else if s[i] == '"' {
        nested_end(s, i + 1, depth, true)
    } else if s[i] == '{' || s[i] == '[' {
        nested_end(s, i + 1, depth + 1, false)
    } else if s[i] == '}' || s[i] == ']' {
        if depth <= 1 {
            Some(i + 1)
        } else {
            nested_end(s, i + 1, (depth - 1) as nat, false)
        }
    } else {
        nested_end(s, i + 1, depth, false)
    }
}

/// The characters that end a number or a literal.
pub open spec fn ends_scalar(c: char) -> bool {
    is_json_space(c) || c == ',' || c == '}' || c == ']'
}

/// The first index from `i` on that ends a number or a literal.
pub open spec fn scalar_end(s: Seq<char>, i: int) -> int
    decreases s.len() - i,
{
    if 0 <= i < s.len() && !ends_scalar(s[i]) {
        scalar_end(s, i + 1)
    } else {
        i
    }
}

/// The index just behind the value that starts at `i`: a string, an array or
/// object, or a run of other characters. Whether the characters in between
/// are a value is not decided here.
pub open spec fn value_end(s: Seq<char>, i: int) -> Option<int> {
    if i < 0 || i >= s.len() {
        None
    } else if s[i] == '"' {
        string_end(s, i + 1)
    } else if s[i] == '{' || s[i] == '[' {
        nested_end(s, i + 1, 1, false)
    } else if scalar_end(s, i) > i {
        Some(scalar_end(s, i))
    } else {
        None
    }
}

/// Skipping spaces goes forward, stays inside the text and ends at a
/// character that is no space.
pub proof fn lemma_spaces_end_bounds(s: Seq<char>, i: int)
    requires
        0 <= i <= s.len(),
    ensures
        i <= spaces_end(s, i) <= s.len(),
        spaces_end(s, i) < s.len() ==> !is_json_space(s[spaces_end(s, i)]),
    decreases s.len() - i,
{
    if i < s.len() && is_json_space(s[i]) {
        lemma_spaces_end_bounds(s, i + 1);
    }
}

/// A string that ends, ends behind its start and inside the text.
pub proof fn lemma_string_end_bounds(s: Seq<char>, i: int)
    ensures
        string_end(s, i) matches Some(j) ==> i < j <= s.len(),
    decreases s.len() - i,
{
    if 0 <= i < s.len() && s[i] != '"' {
        if s[i] == '\\' {
            if i + 1 < s.len() {
                lemma_string_end_bounds(s, i + 2);
            }
        } else {
            lemma_string_end_bounds(s, i + 1);
        }
    }
}

/// An array or object that ends, ends behind its start and inside the text.
pub proof fn lemma_nested_end_bounds(s: Seq<char>, i: int, depth: nat, quoted: bool)
    ensures
        nested_end(s, i, depth, quoted) matches Some(j) ==> i < j <= s.len(),
    decreases s.len() - i,
{
    if 0 <= i < s.len() {
        if quoted {
            if s[i] == '"' {
                lemma_nested_end_bounds(s, i + 1, depth, false);
            } else if s[i] == '\\' {
                if i + 1 < s.len() {
                    lemma_nested_end_bounds(s, i + 2, depth, true);
                }
            } else {
                lemma_nested_end_bounds(s, i + 1, depth, true);
            }
        } else if s[i] == '"' {
            lemma_nested_end_bounds(s, i + 1, depth, true);
        } else if s[i] == '{' || s[i] == '[' {
            lemma_nested_end_bounds(s, i + 1, depth + 1, false);
        } else if s[i] == '}' || s[i] == ']' {
            if depth > 1 {
                lemma_nested_end_bounds(s, i + 1, (depth - 1) as nat, false);
            }
        } else {
            lemma_nested_end_bounds(s, i + 1, depth, false);
        }
    }
}

/// A number or literal ends at or behind its start and inside the text.
pub proof fn lemma_scalar_end_bounds(s: Seq<char>, i: int)
    requires
        0 <= i <= s.len(),
    ensures
        i <= scalar_end(s, i) <= s.len(),
    decreases s.len() - i,
{
    if i < s.len() && !ends_scalar(s[i]) {
        lemma_scalar_end_bounds(s, i + 1);
    }
}

/// A value that ends, ends behind its start and inside the text.
pub proof fn lemma_value_end_bounds(s: Seq<char>, i: int)
    ensures
        value_end(s, i) matches Some(j) ==> i < j <= s.len(),
{
    if 0 <= i < s.len() {
        lemma_string_end_bounds(s, i + 1);
        lemma_nested_end_bounds(s, i + 1, 1, false);
        lemma_scalar_end_bounds(s, i);
    }
}

/// Whether `c` is one of the four JSON spaces.
pub fn is_space(c: char) -> (r: bool)
    ensures
        r == is_json_space(c),
{
    c == ' ' || c == '\n' || c == '\t' || c == '\r'
}

/// Skips the JSON spaces from `from` on.
pub fn skip_spaces(chars: &Vec<char>, from: usize) -> (at: usize)
    requires
        from <= chars@.len(),
    ensures
        at == spaces_end(chars@, from as int),
        from <= at <= chars@.len(),
{
    let mut i: usize = from;
    while i < chars.len() && is_space(chars[i])
        invariant
            from <= i <= chars@.len(),
            spaces_end(chars@, from as int) == spaces_end(chars@, i as int),
        decreases chars@.len() - i,
    {
        i = i + 1;
    }
    i
}

/// Finds the end of the string whose content starts at `from`.
pub fn scan_string(chars: &Vec<char>, from: usize) -> (end: Option<usize>)
    requires
        from <= chars@.len(),
    ensures
        match end {
            Some(j) => string_end(chars@, from as int) == Some(j as int) && from < j <= chars@.len(),
            None => string_end(chars@, from as int) is None,
        },
{
    let mut i: usize = from;
    while i < chars.len()
        invariant
            from <= i <= chars@.len(),
            string_end(chars@, from as int) == string_end(chars@, i as int),
        decreases chars@.len() - i,
    {
        let c = chars[i];
        if c == '"' {
            return Some(i + 1);
        } else if c == '\\' {
            if i + 1 < chars.len() {
                i = i + 2;
            } else {
                return None;
            }
        } else {
            i = i + 1;
        }
    }
    None
}

/// Finds the end of the array or object whose content starts at `from`.
pub fn scan_nested(chars: &Vec<char>, from: usize) -> (end: Option<usize>)
    requires
        0 < from <= chars@.len(),
    ensures
        match end {
            Some(j) => nested_end(chars@, from as int, 1, false) == Some(j as int) && from < j
                <= chars@.len(),
            None => nested_end(chars@, from as int, 1, false) is None,
        },
{
    let len = chars.len();
    let mut i: usize = from;
    let mut depth: usize = 1;
    let mut quoted = false;
    while i < len
        invariant
            len == chars@.len(),
            0 < from <= i <= len,
            1 <= depth <= i - from + 1,
            nested_end(chars@, from as int, 1, false) == nested_end(
                chars@,
                i as int,
                depth as nat,
                quoted,
            ),
        decreases chars@.len() - i,
    {
        let c = chars[i];
        if quoted {
            if c == '"' {
                quoted = false;
                i = i + 1;
            } else if c == '\\' {
                if i + 1 < len {
                    i = i + 2;
                } else {
                    return None;
                }
            } else {
                i = i + 1;
            }
        } else if c == '"' {
            quoted = true;
            i = i + 1;
        } else if c == '{' || c == '[' {
            depth = depth + 1;
            i = i + 1;
        } else if c == '}' || c == ']' {
            if depth <= 1 {
                return Some(i + 1);
            }
            depth = depth - 1;
            i = i + 1;
        } else {
            i = i + 1;
        }
    }
    None
}

/// Finds the end of the number or literal that starts at `from`.
pub fn scan_scalar(chars: &Vec<char>, from: usize) -> (end: usize)
    requires
        from <= chars@.len(),
    ensures
        end == scalar_end(chars@, from as int),
        from <= end <= chars@.len(),
{
    let mut i: usize = from;
    while i < chars.len() && !(is_space(chars[i]) || chars[i] == ',' || chars[i] == '}' || chars[i]
        == ']')
        invariant
            from <= i <= chars@.len(),
            scalar_end(chars@, from as int) == scalar_end(chars@, i as int),
        decreases chars@.len() - i,
    {
        i = i + 1;
    }
    i
}

/// Finds the end of the value that starts at `from`.
pub fn scan_value(chars: &Vec<char>, from: usize) -> (end: Option<usize>)
    requires
        from <= chars@.len(),
    ensures
        match end {
            Some(j) => value_end(chars@, from as int) == Some(j as int) && from < j <= chars@.len(),
            None => value_end(chars@, from as int) is None,
        },
{
    if from >= chars.len() {
        return None;
    }
    let c = chars[from];
    if c == '"' {
        scan_string(chars, from + 1)
    } else if c == '{' || c == '[' {
        scan_nested(chars, from + 1)
    } else {
        let end = scan_scalar(chars, from);
        if end > from {
            Some(end)
        } else {
            None
        }
    }
}

} // verus!
