use vstd::prelude::*;
use vstd::string::StringExecFns;
use crate::error::Error;
use crate::text::{has_at, starts_at, string_of, to_chars};

verus! {

// ---------------------------------------------------------------------------
// Where the message comes from
// ---------------------------------------------------------------------------

/// Where the text to sign or to verify is taken from.
#[derive(Clone, Debug, PartialEq, Eq)]
pub enum MessageSource {
    /// The text itself was given.
    Given(String),
    /// The text is the content of the file at this path.
    File(String),
    /// The text is read from standard input.
    StandardInput,
}

/// Chooses the source of the message: a text that was given goes before a
/// file, and a file before standard input.
pub fn message_source(message: Option<String>, input: Option<String>) -> (source: MessageSource)
    ensures
        source == match (message, input) {
            (Some(m), _) => MessageSource::Given(m),
            (None, Some(path)) => MessageSource::File(path),
            (None, None) => MessageSource::StandardInput,
        },
{
    match message {
        Some(m) => MessageSource::Given(m),
        None => match input {
            Some(path) => MessageSource::File(path),
            None => MessageSource::StandardInput,
        },
    }
}

// ---------------------------------------------------------------------------
// The private key
// ---------------------------------------------------------------------------

/// `base` with the path component `name` behind it: a separator stands
/// between them unless `base` is empty or ends with one.
pub open spec fn pushed(base: Seq<char>, name: Seq<char>) -> Seq<char> {
    if base.len() == 0 || base.last() == '/' {
        base + name
    } else {
        base + seq!['/'] + name
    }
}

/// The conventional place of the private key under the home directory
/// `home`: `.ssh/id_ed25519`.
pub open spec fn default_key_path(home: Seq<char>) -> Seq<char> {
    pushed(pushed(home, ".ssh"@), "id_ed25519"@)
}

/// `dirs::home_dir`: the home directory of the current user as the
/// environment gives it, if it gives one that is valid Unicode.
#[verifier::external_body]
pub(crate) fn home_directory() -> (home: Option<String>) {
    dirs::home_dir().and_then(|p| p.into_os_string().into_string().ok())
}

/// Appends the path component `name` to `base`.
fn push_component(base: String, name: &str) -> (path: String)
    ensures
        path@ == pushed(base@, name@),
{
    let chars = to_chars(base.as_str());
    if chars.len() == 0 || chars[chars.len() - 1] == '/' {
        base.concat(name)
    } else {
        proof {
            reveal_strlit("/");
            assert("/"@ =~= seq!['/']);
        }
        base.concat("/").concat(name)
    }
}

/// The path of the private key: the one that was given or, without one, the
/// conventional place under the home directory `home`. Without either,
/// `NoDefaultKeyLocation`.
pub fn private_key_path(explicit: Option<String>, home: Option<String>) -> (r: Result<String, Error>)
    ensures
        match (explicit, home) {
            (Some(path), _) => r == Ok::<String, Error>(path),
            (None, Some(h)) => r matches Ok(path) && path@ == default_key_path(h@),
            (None, None) => r == Err::<String, Error>(Error::NoDefaultKeyLocation),
        },
{
    match explicit {
        Some(path) => Ok(path),
        None => match home {
            Some(h) => Ok(push_component(push_component(h, ".ssh"), "id_ed25519")),
            None => Err(Error::NoDefaultKeyLocation),
        },
    }
}

/// The path of the private key: the one that was given or, without one, the
/// conventional place under the user's home directory, which is asked for
/// only then. `NoDefaultKeyLocation` where neither is to be had.
pub fn resolve_private_key_path(explicit: Option<String>) -> (r: Result<String, Error>)
    ensures
        match explicit {
            Some(path) => r == Ok::<String, Error>(path),
            None => match r {
                Ok(path) => exists|home: Seq<char>| path@ == default_key_path(home),
                Err(e) => e == Error::NoDefaultKeyLocation,
            },
        },
{
    match explicit {
        Some(path) => Ok(path),
        None => {
            let home = home_directory();
            let ghost found = home;
            let r = private_key_path(None, home);
            proof {
                if let Some(h) = found {
                    assert(r matches Ok(path) && path@ == default_key_path(h@));
                }
            }
            r
        },
    }
}

// ---------------------------------------------------------------------------
// The public keys
// ---------------------------------------------------------------------------

/// The identity whose published keys are to be fetched: none unless remote
/// lookup is asked for; with it, the identity that the envelope carries.
/// Remote lookup without an identity is a `ConfigurationError`.
pub fn lookup_identity(remote: bool, identity: &Option<String>) -> (r: Result<Option<String>, Error>)
    ensures
        match (remote, *identity) {
            (false, _) => r == Ok::<Option<String>, Error>(None),
            (true, Some(id)) => r matches Ok(Some(found)) && found@ == id@,
            (true, None) => r == Err::<Option<String>, Error>(Error::ConfigurationError),
        },
{
    if !remote {
        return Ok(None);
    }
    match identity {
        Some(id) => Ok(Some(String::from_str(id.as_str()))),
        None => Err(Error::ConfigurationError),
    }
}

/// Where the candidate public keys come from.
#[derive(Clone, Debug, PartialEq, Eq)]
pub enum KeySource {
    /// One key, from the file at this path.
    File(String),
    /// The keys that this address publishes.
    Remote(String),
    /// No key at all.
    Nowhere,
}

/// What a `KeySource` holds.
pub enum KeySourceView {
    File(Seq<char>),
    Remote(Seq<char>),
    Nowhere,
}

impl View for KeySource {
    type V = KeySourceView;

    open spec fn view(&self) -> KeySourceView {
        match *self {
            KeySource::File(path) => KeySourceView::File(path@),
            KeySource::Remote(url) => KeySourceView::Remote(url@),
            KeySource::Nowhere => KeySourceView::Nowhere,
        }
    }
}

/// The address that publishes the keys of `identity`.
pub open spec fn keys_address(identity: Seq<char>) -> Seq<char> {
    "https://github.com/"@ + identity + ".keys"@
}

/// The address that publishes the keys of `identity`.
pub fn keys_url(identity: &str) -> (url: String)
    ensures
        url@ == keys_address(identity@),
{
    String::from_str("https://github.com/").concat(identity).concat(".keys")
}

/// Chooses where the candidate keys come from: a key file that was given
/// goes before the published keys of an identity; without either there is no
/// key.
pub fn public_key_source(explicit: Option<String>, identity: Option<String>) -> (source: KeySource)
    ensures
        source@ == match (explicit, identity) {
            (Some(path), _) => KeySourceView::File(path@),
            (None, Some(id)) => KeySourceView::Remote(keys_address(id@)),
            (None, None) => KeySourceView::Nowhere,
        },
{
    match explicit {
        Some(path) => KeySource::File(path),
        None => match identity {
            Some(id) => KeySource::Remote(keys_url(id.as_str())),
            None => KeySource::Nowhere,
        },
    }
}

/// The key that loading gave, or `KeyLoadError` where it gave none: the
/// file could not be read or parsed, or holds a key of another algorithm.
pub fn loaded_key<K>(loaded: Option<K>) -> (r: Result<K, Error>)
    ensures
        r == match loaded {
            Some(key) => Ok::<K, Error>(key),
            None => Err::<K, Error>(Error::KeyLoadError),
        },
{
    match loaded {
        Some(key) => Ok(key),
        None => Err(Error::KeyLoadError),
    }
}

/// The items of `parsed` that are there, in order.
pub open spec fn present<K>(parsed: Seq<Option<K>>) -> Seq<K>
    decreases parsed.len(),
{
    if parsed.len() == 0 {
        Seq::empty()
    } else {
        match parsed.last() {
            Some(key) => present(parsed.drop_last()).push(key),
            None => present(parsed.drop_last()),
        }
    }
}

/// Keeps the keys that could be parsed, in order, and passes over the key
/// texts that could not.
pub fn parsed_keys<K>(parsed: Vec<Option<K>>) -> (keys: Vec<K>)
    ensures
        keys@ == present(parsed@),
{
    broadcast use vstd::std_specs::vec::axiom_spec_into_iter;
    let mut keys: Vec<K> = Vec::new();
    let ghost all = parsed@;
    for item in it: parsed.into_iter()
        invariant
            it.seq() == all,
            keys@ == present(all.take(it.index() as int)),
    {
        proof {
            assert(all.take(it.index() + 1).drop_last() =~= all.take(it.index() as int));
        }
        match item {
            Some(key) => {
                keys.push(key);
            },
            None => {},
        }
    }
    assert(all.take(all.len() as int) =~= all);
    keys
}

// ---------------------------------------------------------------------------
// The published keys of an identity
// ---------------------------------------------------------------------------

/// The characters with the Unicode property White_Space.
pub open spec fn is_blank(c: char) -> bool {
    let n = c as u32;
    (0x09 <= n <= 0x0d) || n == 0x20 || n == 0x85 || n == 0xa0 || n == 0x1680 || (0x2000 <= n
        <= 0x200a) || n == 0x2028 || n == 0x2029 || n == 0x202f || n == 0x205f || n == 0x3000
}

/// The marker that a line with an Ed25519 key starts with.
pub open spec fn key_marker() -> Seq<char> {
    seq!['s', 's', 'h', '-', 'e', 'd', '2', '5', '5', '1', '9']
}

/// The end of the line that holds index `i`: the index of the next line
/// break, or the length of `s`.
pub open spec fn line_end(s: Seq<char>, i: int) -> int
    decreases s.len() - i,
{
    if 0 <= i < s.len() && s[i] != '\n' {
        line_end(s, i + 1)
    } else {
        i
    }
}

/// The first index from `i` on, before `end`, that holds no blank (`end`
/// where there is none).
pub open spec fn blanks_end(s: Seq<char>, i: int, end: int) -> int
    decreases end - i,
{
    if 0 <= i < end <= s.len() && is_blank(s[i]) {
        blanks_end(s, i + 1, end)
    } else {
        i
    }
}

/// The first index from `i` on, before `end`, that holds a blank (`end`
/// where there is none).
pub open spec fn word_end(s: Seq<char>, i: int, end: int) -> int
    decreases end - i,
{
    if 0 <= i < end <= s.len() && !is_blank(s[i]) {
        word_end(s, i + 1, end)
    } else {
        i
    }
}

/// The key text of the line `s[start..end]`: the second of its words, where
/// the line starts with the marker and has a second word.
pub open spec fn line_key(s: Seq<char>, start: int, end: int) -> Option<Seq<char>> {
    if has_at(s, start, key_marker()) && start + key_marker().len() <= end {
        let second = blanks_end(s, word_end(s, start, end), end);
        if second < end {
            Some(s.subrange(second, word_end(s, second, end)))
        } else {
            None
        }
    } else {
        None
    }
}

/// The key texts of the lines from index `i` on, in order.
pub open spec fn keys_from(s: Seq<char>, i: int) -> Seq<Seq<char>>
    decreases s.len() + 1 - i,
    via keys_from_decreases
{
    if 0 <= i < s.len() {
        let rest = keys_from(s, line_end(s, i) + 1);
        match line_key(s, i, line_end(s, i)) {
            Some(key) => seq![key] + rest,
            None => rest,
        }
    } else {
        Seq::empty()
    }
}

#[via_fn]
proof fn keys_from_decreases(s: Seq<char>, i: int) {
    if 0 <= i < s.len() {
        lemma_line_end_bounds(s, i);
    }
}

/// The key texts that a published list holds: of each line that starts with
/// `ssh-ed25519`, the second word. Other lines, and lines without a second
/// word, give none.
pub open spec fn published_keys(body: Seq<char>) -> Seq<Seq<char>> {
    keys_from(body, 0)
}

/// A line ends at or behind each of its indices, and inside the text.
pub proof fn lemma_line_end_bounds(s: Seq<char>, i: int)
    requires
        0 <= i <= s.len(),
    ensures
        i <= line_end(s, i) <= s.len(),
    decreases s.len() - i,
{
    if i < s.len() && s[i] != '\n' {
        lemma_line_end_bounds(s, i + 1);
    }
}

/// The key texts of the list that fetching gave, or `KeyFetchError` where it
/// gave none. A list without any Ed25519 line gives no key text and is no
/// error.
pub fn fetched_key_texts(body: Option<String>) -> (r: Result<Vec<String>, Error>)
    ensures
        match body {
            Some(list) => r matches Ok(keys) && texts(keys@) == published_keys(list@),
            None => r matches Err(e) && e == Error::KeyFetchError,
        },
{
    match body {
        Some(list) => Ok(remote_key_texts(list.as_str())),
        None => Err(Error::KeyFetchError),
    }
}

/// Whether `c` has the Unicode property White_Space.
pub fn is_whitespace(c: char) -> (r: bool)
    ensures
        r == is_blank(c),
{
    let n: u32 = c as u32;
    (0x09 <= n && n <= 0x0d) || n == 0x20 || n == 0x85 || n == 0xa0 || n == 0x1680 || (0x2000 <= n
        && n <= 0x200a) || n == 0x2028 || n == 0x2029 || n == 0x202f || n == 0x205f || n == 0x3000
}

/// Finds the end of the line that holds `from`.
fn find_line_end(chars: &Vec<char>, from: usize) -> (end: usize)
    requires
        from <= chars@.len(),
    ensures
        end == line_end(chars@, from as int),
        from <= end <= chars@.len(),
{
    let mut i: usize = from;
    while i < chars.len() && chars[i] != '\n'
        invariant
            from <= i <= chars@.len(),
            line_end(chars@, from as int) == line_end(chars@, i as int),
        decreases chars@.len() - i,
    {
        i = i + 1;
    }
    i
}

/// Skips the blanks from `from` on, up to `end`.
fn skip_blanks(chars: &Vec<char>, from: usize, end: usize) -> (at: usize)
    requires
        from <= end <= chars@.len(),
    ensures
        at == blanks_end(chars@, from as int, end as int),
        from <= at <= end,
{
    let mut i: usize = from;
    while i < end && is_whitespace(chars[i])
        invariant
            from <= i <= end <= chars@.len(),
            blanks_end(chars@, from as int, end as int) == blanks_end(chars@, i as int, end as int),
        decreases end - i,
    {
        i = i + 1;
    }
    i
}

/// Skips the characters from `from` on that are no blanks, up to `end`.
fn skip_word(chars: &Vec<char>, from: usize, end: usize) -> (at: usize)
    requires
        from <= end <= chars@.len(),
    ensures
        at == word_end(chars@, from as int, end as int),
        from <= at <= end,
{
    let mut i: usize = from;
    while i < end && !is_whitespace(chars[i])
        invariant
            from <= i <= end <= chars@.len(),
            word_end(chars@, from as int, end as int) == word_end(chars@, i as int, end as int),
        decreases end - i,
    {
        i = i + 1;
    }
    i
}

/// The key text of the line `chars[start..end]`, if it has one.
fn key_of_line(chars: &Vec<char>, marker: &Vec<char>, start: usize, end: usize) -> (key: Option<
    String,
>)
    requires
        start <= end <= chars@.len(),
        marker@ == key_marker(),
    ensures
        match key {
            Some(k) => line_key(chars@, start as int, end as int) == Some(k@),
            None => line_key(chars@, start as int, end as int) is None,
        },
{
    if end - start < marker.len() || !starts_at(chars, start, marker) {
        return None;
    }
    let first_end = skip_word(chars, start, end);
    let second = skip_blanks(chars, first_end, end);
    if second < end {
        let second_end = skip_word(chars, second, end);
        Some(string_of(chars, second, second_end))
    } else {
        None
    }
}

/// The views of a list of strings.
pub open spec fn texts(list: Seq<String>) -> Seq<Seq<char>> {
    list.map_values(|t: String| t@)
}

/// Picks the key texts out of a published list of keys: of each line that
/// starts with `ssh-ed25519`, the second word. All other lines are passed
/// over.
pub fn remote_key_texts(body: &str) -> (keys: Vec<String>)
    ensures
        texts(keys@) == published_keys(body@),
{
    let chars = to_chars(body);
    let marker = to_chars("ssh-ed25519");
    proof {
        reveal_strlit("ssh-ed25519");
        assert(marker@ =~= key_marker());
    }
    let len = chars.len();
    let mut keys: Vec<String> = Vec::new();
    let mut i: usize = 0;
    assert(texts(keys@) =~= Seq::<Seq<char>>::empty());
    while i < len
        invariant
            len == chars@.len(),
            i <= len,
            marker@ == key_marker(),
            texts(keys@) + keys_from(chars@, i as int) == published_keys(body@),
            chars@ == body@,
        decreases len - i,
    {
        let end = find_line_end(&chars, i);
        let ghost before = texts(keys@);
        match key_of_line(&chars, &marker, i, end) {
            Some(key) => {
                keys.push(key);
                assert(texts(keys@) =~= before + seq![key@]);
                assert(texts(keys@) + keys_from(chars@, end + 1) =~= before + (seq![key@]
                    + keys_from(chars@, end + 1)));
            },
            None => {},
        }
        if end == len {
            assert(texts(keys@) + keys_from(chars@, end + 1) =~= texts(keys@));
            return keys;
        }
        i = end + 1;
    }
    assert(texts(keys@) + keys_from(chars@, i as int) =~= texts(keys@));
    keys
}

} // verus!
