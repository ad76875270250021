//! The header-line parser: `TOKEN ":" *SP VALUE CRLF`, on raw bytes.
//! Header lines are handled leniently — one that does not match is simply
//! skipped by the caller — since only the `Authorization` header is acted
//! upon.

use vstd::prelude::*;

verus! {

/// One request header, name and value as raw bytes.
#[derive(PartialEq, Eq, Debug)]
pub struct Header {
    pub name: Vec<u8>,
    pub value: Vec<u8>,
}

/// The token bytes of the header grammar: ASCII alphanumerics and the usual
/// token punctuation.
pub open spec fn is_token_byte(b: u8) -> bool {
    (('a' as u8) <= b && b <= ('z' as u8)) || (('A' as u8) <= b && b <= ('Z' as u8)) || (('0' as u8) <= b && b <= ('9' as u8)) || b == ('!' as u8)
        || b == ('#' as u8) || b == ('$' as u8) || b == ('%' as u8) || b == ('&' as u8) || b == ('\'' as u8) || b == ('*' as u8) || b == ('+' as u8)
        || b == ('-' as u8) || b == ('.' as u8) || b == ('^' as u8) || b == ('_' as u8) || b == ('`' as u8) || b == ('|' as u8) || b == ('~' as u8)
        || b == ('=' as u8)
}

/// The blank bytes skipped between a header's colon and its value.
pub open spec fn is_space_byte(b: u8) -> bool {
    b == (' ' as u8) || b == ('\t' as u8)
}

/// The bytes a header value may consist of: tab, printable ASCII, and the
/// upper byte range.
pub open spec fn spec_is_header_value_char(b: u8) -> bool {
    b == 9 || (b >= 32 && b <= 126) || b >= 160
}

/// Whether `b` may appear in a header value.
pub fn is_header_value_char(b: u8) -> (r: bool)
    ensures
        r == spec_is_header_value_char(b),
{
    b == 9 || (b >= 32 && b <= 126) || b >= 160
}

/// The length of the maximal run of token bytes starting at `i`.
pub open spec fn token_byte_run(s: Seq<u8>, i: int) -> int
    decreases s.len() - i,
{
    if i < 0 || i >= s.len() {
        0
    } else if is_token_byte(s[i]) {
        1 + token_byte_run(s, i + 1)
    } else {
        0
    }
}

/// The length of the maximal run of blank bytes starting at `i`.
pub open spec fn space_byte_run(s: Seq<u8>, i: int) -> int
    decreases s.len() - i,
{
    if i < 0 || i >= s.len() {
        0
    } else if is_space_byte(s[i]) {
        1 + space_byte_run(s, i + 1)
    } else {
        0
    }
}

/// The length of the maximal run of header-value bytes starting at `i`.
pub open spec fn value_byte_run(s: Seq<u8>, i: int) -> int
    decreases s.len() - i,
{
    if i < 0 || i >= s.len() {
        0
    } else if spec_is_header_value_char(s[i]) {
        1 + value_byte_run(s, i + 1)
    } else {
        0
    }
}

/// The header grammar `TOKEN ":" *SP VALUE CRLF` applied at the start of
/// `s`: the name, the value, and how many bytes the header line spans —
/// or nothing when `s` starts with no complete header line.
pub open spec fn spec_message_header(s: Seq<u8>) -> Option<(Seq<u8>, Seq<u8>, int)> {
    let n = token_byte_run(s, 0);
    if n >= s.len() || s[n] != (':' as u8) {
        None
    } else {
        let sp = space_byte_run(s, n + 1);
        let v = value_byte_run(s, n + 1 + sp);
        let end = n + 1 + sp + v;
        if end + 2 <= s.len() && s[end] == ('\r' as u8) && s[end + 1] == ('\n' as u8) {
            Some((s.subrange(0, n), s.subrange(n + 1 + sp, end), end + 2))
        } else {
            None
        }
    }
}

/// Measures the token-byte run starting at `start`.
fn scan_token_bytes(s: &[u8], start: usize) -> (n: usize)
    requires
        start <= s@.len(),
    ensures
        n == token_byte_run(s@, start as int),
        start + n <= s@.len(),
{
    let len = s.len();
    let mut i: usize = start;
    while i < len && is_token_byte_exec(s[i])
        invariant
            len == s@.len(),
            start <= i <= len,
            token_byte_run(s@, start as int) == i - start + token_byte_run(s@, i as int),
        decreases len - i,
    {
        i = i + 1;
    }
    i - start
}

/// Whether `b` is a token byte.
fn is_token_byte_exec(b: u8) -> (r: bool)
    ensures
        r == is_token_byte(b),
{
    (('a' as u8) <= b && b <= ('z' as u8)) || (('A' as u8) <= b && b <= ('Z' as u8)) || (('0' as u8) <= b && b <= ('9' as u8)) || b == ('!' as u8)
        || b == ('#' as u8) || b == ('$' as u8) || b == ('%' as u8) || b == ('&' as u8) || b == ('\'' as u8) || b == ('*' as u8) || b == ('+' as u8)
        || b == ('-' as u8) || b == ('.' as u8) || b == ('^' as u8) || b == ('_' as u8) || b == ('`' as u8) || b == ('|' as u8) || b == ('~' as u8)
        || b == ('=' as u8)
}

/// Measures the blank-byte run starting at `start`.
fn scan_space_bytes(s: &[u8], start: usize) -> (n: usize)
    requires
        start <= s@.len(),
    ensures
        n == space_byte_run(s@, start as int),
        start + n <= s@.len(),
{
    let len = s.len();
    let mut i: usize = start;
    while i < len && (s[i] == (' ' as u8) || s[i] == ('\t' as u8))
        invariant
            len == s@.len(),
            start <= i <= len,
            space_byte_run(s@, start as int) == i - start + space_byte_run(s@, i as int),
        decreases len - i,
    {
        i = i + 1;
    }
    i - start
}

/// Measures the header-value run starting at `start`.
fn scan_value_bytes(s: &[u8], start: usize) -> (n: usize)
    requires
        start <= s@.len(),
    ensures
        n == value_byte_run(s@, start as int),
        start + n <= s@.len(),
{
    let len = s.len();
    let mut i: usize = start;
    while i < len && is_header_value_char(s[i])
        invariant
            len == s@.len(),
            start <= i <= len,
            value_byte_run(s@, start as int) == i - start + value_byte_run(s@, i as int),
        decreases len - i,
    {
        i = i + 1;
    }
    i - start
}

/// Copies `s[from..to]` into an owned byte vector.
fn bytes_of_range(s: &[u8], from: usize, to: usize) -> (r: Vec<u8>)
    requires
        from <= to <= s@.len(),
    ensures
        r@ == s@.subrange(from as int, to as int),
{
    let mut out: Vec<u8> = Vec::new();
    let mut i: usize = from;
    proof {
        assert(out@ =~= s@.subrange(from as int, from as int));
    }
    while i < to
        invariant
            from <= i <= to <= s@.len(),
            out@ == s@.subrange(from as int, i as int),
        decreases to - i,
    {
        out.push(s[i]);
        proof {
            assert(out@ =~= s@.subrange(from as int, i as int + 1));
        }
        i = i + 1;
    }
    out
}

/// Parses one header line at the start of `i`: its name and value, and how
/// many bytes were consumed, exactly when the line matches the grammar.
pub fn message_header(i: &[u8]) -> (r: Option<(Header, usize)>)
    ensures
        match r {
            Some(h) => spec_message_header(i@) matches Some(p) && h.0.name@ == p.0 && h.0.value@
                == p.1 && h.1 == p.2,
            None => spec_message_header(i@) is None,
        },
{
    let len = i.len();
    let n = scan_token_bytes(i, 0);
    if n >= len || i[n] != (':' as u8) {
        return None;
    }
    let sp = scan_space_bytes(i, n + 1);
    let v = scan_value_bytes(i, n + 1 + sp);
    let end = n + 1 + sp + v;
    if len - end < 2 {
        return None;
    }
    if !(i[end] == ('\r' as u8) && i[end + 1] == ('\n' as u8)) {
        return None;
    }
    let name = bytes_of_range(i, 0, n);
    let value = bytes_of_range(i, n + 1 + sp, end);
    Some((Header { name, value }, end + 2))
}

} // verus!
