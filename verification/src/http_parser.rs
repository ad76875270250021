//! The request parser: the HTTP/1.x request line (`METHOD SP URI SP
//! "HTTP/1." DIGIT`), the `Authorization` header, and the decoding of Basic
//! credentials.  The request line is parsed strictly; anything that does not
//! match the grammar is rejected.

use vstd::prelude::*;
use vstd::utf8::{decode_utf8, valid_utf8};
use crate::strings::{first_index_of, lemma_first_index_of_found, lemma_first_index_of_none,
    str_eq};
use base64::Engine;

verus! {

/// The request methods this server routes; an unrecognized method token is
/// kept verbatim so routing, not parsing, can reject it.
#[derive(PartialEq, Eq, Debug, Clone)]
pub enum Method {
    Get,
    Head,
    Options,
    Custom(String),
}

/// The protocol versions accepted on a request line.
#[derive(PartialEq, Eq, Debug, Clone, Copy, Structural)]
pub enum Version {
    V10,
    V11,
}

/// The request line as sliced out of the input, before the method token is
/// classified.
#[derive(PartialEq, Eq, Debug)]
pub struct RawRequestLine<'a> {
    pub method: &'a str,
    pub uri: &'a str,
    pub version: Version,
}

/// A parsed request line.
#[derive(PartialEq, Eq, Debug, Clone)]
pub struct RequestLine {
    pub method: Method,
    pub uri: String,
    pub version: Version,
}

/// The authentication scheme found in an `Authorization` header.
#[derive(PartialEq, Eq, Debug, Clone)]
pub enum AuthMethod {
    Basic,
}

/// An `Authorization` header's payload, still base64-encoded.
#[derive(PartialEq, Eq, Debug, Clone)]
pub struct Authentication {
    pub method: AuthMethod,
    pub encoded_credentials: String,
}

/// A decoded credential pair.
#[derive(PartialEq, Eq, Debug, Clone)]
pub struct BasicCredentials {
    pub username: String,
    pub password: String,
}

/// The token characters of the request grammar: ASCII alphanumerics and the
/// usual token punctuation.
pub open spec fn is_token_char(c: char) -> bool {
    ('a' <= c && c <= 'z') || ('A' <= c && c <= 'Z') || ('0' <= c && c <= '9') || c == '!' || c
        == '#' || c == '$' || c == '%' || c == '&' || c == '\'' || c == '*' || c == '+' || c == '-'
        || c == '.' || c == '^' || c == '_' || c == '`' || c == '|' || c == '~' || c == '='
}

/// Whether `c` is a token character.
pub fn is_token_char_exec(c: char) -> (r: bool)
    ensures
        r == is_token_char(c),
{
    ('a' <= c && c <= 'z') || ('A' <= c && c <= 'Z') || ('0' <= c && c <= '9') || c == '!' || c
        == '#' || c == '$' || c == '%' || c == '&' || c == '\'' || c == '*' || c == '+' || c == '-'
        || c == '.' || c == '^' || c == '_' || c == '`' || c == '|' || c == '~' || c == '='
}

/// The visible characters a URI may consist of: ASCII 33 through 125.
pub open spec fn spec_is_vchar(c: char) -> bool {
    32 < (c as u32) && (c as u32) < 126
}

/// Whether `c` may appear in a URI.
pub fn is_vchar(c: char) -> (r: bool)
    ensures
        r == spec_is_vchar(c),
{
    let v = c as u32;
    32 < v && v < 126
}

/// The length of the maximal run of token characters starting at `i`.
pub open spec fn token_run(s: Seq<char>, i: int) -> int
    decreases s.len() - i,
{
    if i < 0 || i >= s.len() {
        0
    } else if is_token_char(s[i]) {
        1 + token_run(s, i + 1)
    } else {
        0
    }
}

/// The length of the maximal run of URI characters starting at `i`.
pub open spec fn vchar_run(s: Seq<char>, i: int) -> int
    decreases s.len() - i,
{
    if i < 0 || i >= s.len() {
        0
    } else if spec_is_vchar(s[i]) {
        1 + vchar_run(s, i + 1)
    } else {
        0
    }
}

/// Measures the token run starting at `start`.
fn scan_token_run(s: &str, start: usize, len: usize) -> (n: usize)
    requires
        len == s@.len(),
        start <= len,
    ensures
        n == token_run(s@, start as int),
        start + n <= len,
{
    let mut i: usize = start;
    while i < len && is_token_char_exec(s.get_char(i))
        invariant
            len == s@.len(),
            start <= i <= len,
            token_run(s@, start as int) == i - start + token_run(s@, i as int),
        decreases len - i,
    {
        i = i + 1;
    }
    i - start
}

/// Measures the URI-character run starting at `start`.
fn scan_vchar_run(s: &str, start: usize, len: usize) -> (n: usize)
    requires
        len == s@.len(),
        start <= len,
    ensures
        n == vchar_run(s@, start as int),
        start + n <= len,
{
    let mut i: usize = start;
    while i < len && is_vchar(s.get_char(i))
        invariant
            len == s@.len(),
            start <= i <= len,
            vchar_run(s@, start as int) == i - start + vchar_run(s@, i as int),
        decreases len - i,
    {
        i = i + 1;
    }
    i - start
}

/// An upper-case ASCII letter mapped to lower case; everything else is left
/// alone.
pub open spec fn lower_char(c: char) -> char {
    if 'A' <= c && c <= 'Z' {
        (((c as u8) + 32) as char)
    } else {
        c
    }
}

/// `s` with its upper-case ASCII letters lowered.
pub open spec fn lower_chars(s: Seq<char>) -> Seq<char> {
    s.map_values(|c: char| lower_char(c))
}

/// Compares two strings ignoring ASCII case.
pub fn str_eq_no_case(a: &str, b: &str) -> (r: bool)
    ensures
        r == (lower_chars(a@) == lower_chars(b@)),
{
    let la = a.unicode_len();
    let lb = b.unicode_len();
    if la != lb {
        proof {
            assert(lower_chars(a@).len() != lower_chars(b@).len());
        }
        return false;
    }
    let mut i: usize = 0;
    while i < la
        invariant
            la == a@.len(),
            la == b@.len(),
            i <= la,
            forall|k: int| 0 <= k < i ==> lower_char(a@[k]) == lower_char(b@[k]),
        decreases la - i,
    {
        let ca = lower_char_exec(a.get_char(i));
        let cb = lower_char_exec(b.get_char(i));
        if ca != cb {
            proof {
                assert(lower_chars(a@)[i as int] != lower_chars(b@)[i as int]);
            }
            return false;
        }
        i = i + 1;
    }
    proof {
        assert(lower_chars(a@) =~= lower_chars(b@));
    }
    true
}

/// Lowers one ASCII letter.
fn lower_char_exec(c: char) -> (r: char)
    ensures
        r == lower_char(c),
{
    if 'A' <= c && c <= 'Z' {
        ((c as u8) + 32) as char
    } else {
        c
    }
}

/// Whether the method token `s` spells one of the recognized methods,
/// ignoring ASCII case.
pub open spec fn is_known_method(s: Seq<char>) -> bool {
    lower_chars(s) == lower_chars("GET"@) || lower_chars(s) == lower_chars("HEAD"@)
        || lower_chars(s) == lower_chars("OPTIONS"@)
}

/// Whether `m` is the classification of the method token `s`: the recognized
/// methods are matched ignoring ASCII case, and any other token is kept
/// verbatim.
pub open spec fn method_matches(m: &Method, s: Seq<char>) -> bool {
    match m {
        Method::Get => lower_chars(s) == lower_chars("GET"@),
        Method::Head => lower_chars(s) == lower_chars("HEAD"@),
        Method::Options => lower_chars(s) == lower_chars("OPTIONS"@),
        Method::Custom(t) => t@ == s && !is_known_method(s),
    }
}

impl Method {
    /// The method's text on the wire: the canonical spelling for the
    /// recognized methods, the kept token for a custom one.
    pub fn text(&self) -> (r: String)
        ensures
            r@ == spec_method_text(self),
    {
        match self {
            Method::Get => String::from_str("GET"),
            Method::Head => String::from_str("HEAD"),
            Method::Options => String::from_str("OPTIONS"),
            Method::Custom(s) => s.clone(),
        }
    }

    /// Classifies a method token.
    pub fn new(s: &str) -> (m: Method)
        ensures
            method_matches(&m, s@),
    {
        if str_eq_no_case(s, "GET") {
            Method::Get
        } else if str_eq_no_case(s, "HEAD") {
            Method::Head
        } else if str_eq_no_case(s, "OPTIONS") {
            Method::Options
        } else {
            Method::Custom(String::from_str(s))
        }
    }
}

/// An upper-case ASCII byte mapped to lower case; everything else is left
/// alone.
pub open spec fn lower_u8(b: u8) -> u8 {
    if 65 <= b && b <= 90 {
        (b + 32) as u8
    } else {
        b
    }
}

/// Compares two byte strings ignoring ASCII case.
pub fn compare_no_case(left: &[u8], right: &[u8]) -> (r: bool)
    ensures
        r == (left@.map_values(|b: u8| lower_u8(b)) == right@.map_values(|b: u8| lower_u8(b))),
{
    let ll = left.len();
    let lr = right.len();
    if ll != lr {
        proof {
            assert(left@.map_values(|b: u8| lower_u8(b)).len() != right@.map_values(
                |b: u8| lower_u8(b),
            ).len());
        }
        return false;
    }
    let mut i: usize = 0;
    while i < ll
        invariant
            ll == left@.len(),
            ll == right@.len(),
            i <= ll,
            forall|k: int| 0 <= k < i ==> lower_u8(left@[k]) == lower_u8(right@[k]),
        decreases ll - i,
    {
        let a = left[i];
        let b = right[i];
        let la = if 65 <= a && a <= 90 {
            a + 32
        } else {
            a
        };
        let lb = if 65 <= b && b <= 90 {
            b + 32
        } else {
            b
        };
        if la != lb {
            proof {
                assert(left@.map_values(|x: u8| lower_u8(x))[i as int] != right@.map_values(
                    |x: u8| lower_u8(x),
                )[i as int]);
            }
            return false;
        }
        i = i + 1;
    }
    proof {
        assert(left@.map_values(|b: u8| lower_u8(b)) =~= right@.map_values(|b: u8| lower_u8(b)));
    }
    true
}

/// Whether the parsed line `r` carries the method token `m`, the URI `u` and
/// the version `v`.
pub open spec fn req_line_matches(r: &RequestLine, m: Seq<char>, u: Seq<char>, v: Version) -> bool {
    method_matches(&r.method, m) && r.uri@ == u && r.version == v
}

impl RequestLine {
    /// Classifies the method token of a sliced-out request line and takes
    /// ownership of its parts.
    pub fn from_raw_request(r: RawRequestLine<'_>) -> (res: Option<RequestLine>)
        ensures
            res matches Some(line) && req_line_matches(&line, r.method@, r.uri@, r.version),
    {
        Some(
            RequestLine {
                method: Method::new(r.method),
                uri: String::from_str(r.uri),
                version: r.version,
            },
        )
    }
}

/// The request-line grammar `METHOD SP URI SP "HTTP/1." DIGIT`, with maximal
/// munch for the method token and the URI and anything after the version
/// digit ignored: the method token, the URI and the version of `s`, or
/// nothing when `s` does not match.
pub open spec fn spec_parse_request_line(s: Seq<char>) -> Option<(Seq<char>, Seq<char>, Version)> {
    let m = token_run(s, 0);
    if m >= s.len() || s[m] != ' ' {
        None
    } else {
        let u = vchar_run(s, m + 1);
        let au = m + 1 + u;
        if au >= s.len() || s[au] != ' ' {
            None
        } else if au + 9 <= s.len() && s.subrange(au + 1, au + 8) == "HTTP/1."@ && (s[au + 8] == '0'
            || s[au + 8] == '1') {
            Some(
                (
                    s.subrange(0, m),
                    s.subrange(m + 1, au),
                    if s[au + 8] == '0' {
                        Version::V10
                    } else {
                        Version::V11
                    },
                ),
            )
        } else {
            None
        }
    }
}

/// The text of a method on the wire: the canonical spelling for the
/// recognized methods, the kept token for a custom one.
pub open spec fn spec_method_text(m: &Method) -> Seq<char> {
    match m {
        Method::Get => "GET"@,
        Method::Head => "HEAD"@,
        Method::Options => "OPTIONS"@,
        Method::Custom(t) => t@,
    }
}

/// A request line on the wire: method, URI and version joined by single
/// spaces, the version spelled `HTTP/1.0` or `HTTP/1.1`.
pub open spec fn spec_serialize_request_line(l: &RequestLine) -> Seq<char> {
    spec_method_text(&l.method) + seq![' '] + l.uri@ + seq![' '] + "HTTP/1."@ + (match l.version {
        Version::V10 => seq!['0'],
        Version::V11 => seq!['1'],
    })
}

/// Writes a request line back onto the wire.
pub fn serialize_request_line(line: &RequestLine) -> (r: String)
    ensures
        r@ == spec_serialize_request_line(line),
{
    let mut out = String::new();
    match &line.method {
        Method::Get => out.append("GET"),
        Method::Head => out.append("HEAD"),
        Method::Options => out.append("OPTIONS"),
        Method::Custom(t) => out.append(t.as_str()),
    }
    out.append(" ");
    out.append(line.uri.as_str());
    out.append(" ");
    out.append("HTTP/1.");
    match line.version {
        Version::V10 => out.append("0"),
        Version::V11 => out.append("1"),
    }
    proof {
        reveal_strlit(" ");
        reveal_strlit("0");
        reveal_strlit("1");
        assert(" "@ =~= seq![' ']);
        assert("0"@ =~= seq!['0']);
        assert("1"@ =~= seq!['1']);
        assert(out@ =~= spec_serialize_request_line(line));
    }
    out
}

/// Whether every character of `s` is a token character.
pub open spec fn all_token_chars(s: Seq<char>) -> bool {
    forall|i: int| 0 <= i < s.len() ==> is_token_char(#[trigger] s[i])
}

/// Whether every character of `s` may appear in a URI.
pub open spec fn all_vchars(s: Seq<char>) -> bool {
    forall|i: int| 0 <= i < s.len() ==> spec_is_vchar(#[trigger] s[i])
}

/// Whether `l` matches the request-line grammar: a kept custom method token
/// consists of token characters and is not a recognized method in disguise,
/// and the URI consists of visible characters.
pub open spec fn spec_valid_request_line(l: &RequestLine) -> bool {
    (match l.method {
        Method::Custom(t) => all_token_chars(t@) && !is_known_method(t@),
        _ => true,
    }) && all_vchars(l.uri@)
}

/// A maximal token run over known characters: it spans exactly the token
/// characters up to the first non-token position.
proof fn lemma_token_run_exact(s: Seq<char>, i: int, n: int)
    requires
        0 <= i <= n <= s.len(),
        forall|k: int| i <= k < n ==> is_token_char(#[trigger] s[k]),
        n == s.len() || !is_token_char(s[n]),
    ensures
        token_run(s, i) == n - i,
    decreases n - i,
{
    if i < n {
        lemma_token_run_exact(s, i + 1, n);
    }
}

/// A maximal URI-character run over known characters: it spans exactly the
/// visible characters up to the first other position.
proof fn lemma_vchar_run_exact(s: Seq<char>, i: int, n: int)
    requires
        0 <= i <= n <= s.len(),
        forall|k: int| i <= k < n ==> spec_is_vchar(#[trigger] s[k]),
        n == s.len() || !spec_is_vchar(s[n]),
    ensures
        vchar_run(s, i) == n - i,
    decreases n - i,
{
    if i < n {
        lemma_vchar_run_exact(s, i + 1, n);
    }
}

/// Round trip: a request line that matches the grammar parses back from its
/// own wire form to the same method, URI and version.
pub proof fn lemma_request_line_round_trip(l: &RequestLine)
    requires
        spec_valid_request_line(l),
    ensures
        spec_parse_request_line(spec_serialize_request_line(l)) matches Some(p)
            && req_line_matches(l, p.0, p.1, p.2),
{
    reveal_strlit("HTTP/1.");
    reveal_strlit("GET");
    reveal_strlit("HEAD");
    reveal_strlit("OPTIONS");
    let mt = spec_method_text(&l.method);
    assert(all_token_chars(mt)) by {
        match l.method {
            Method::Get => {
                assert forall|i: int| 0 <= i < "GET"@.len() implies is_token_char(
                    #[trigger] "GET"@[i],
                ) by {}
            },
            Method::Head => {
                assert forall|i: int| 0 <= i < "HEAD"@.len() implies is_token_char(
                    #[trigger] "HEAD"@[i],
                ) by {}
            },
            Method::Options => {
                assert forall|i: int| 0 <= i < "OPTIONS"@.len() implies is_token_char(
                    #[trigger] "OPTIONS"@[i],
                ) by {}
            },
            Method::Custom(_) => {},
        }
    }
    let u = l.uri@;
    let d = match l.version {
        Version::V10 => seq!['0'],
        Version::V11 => seq!['1'],
    };
    let s = spec_serialize_request_line(l);
    assert("HTTP/1."@.len() == 7);
    assert(s.len() == mt.len() + 1 + u.len() + 1 + 7 + 1);
    assert(s[mt.len() as int] == ' ');
    assert(!is_token_char(' '));
    lemma_token_run_exact(s, 0, mt.len() as int);
    let m = token_run(s, 0);
    assert(m == mt.len());
    let au = m + 1 + u.len();
    assert(s[au] == ' ');
    assert(!spec_is_vchar(' '));
    assert(forall|k: int| m + 1 <= k < au ==> spec_is_vchar(#[trigger] s[k]));
    lemma_vchar_run_exact(s, m + 1, au);
    assert(vchar_run(s, m + 1) == u.len());
    assert(s.subrange(au + 1, au + 8) =~= "HTTP/1."@);
    assert(s[au + 8] == d[0]);
    assert(s.subrange(0, m) =~= mt);
    assert(s.subrange(m + 1, au) =~= u);
}

/// Parses the first input line into a request line.  Exactly the lines that
/// match the grammar parse; everything else is a Bad Request.
pub fn request_line(line: &str) -> (r: Option<RequestLine>)
    ensures
        match r {
            Some(rl) => spec_parse_request_line(line@) matches Some(p) && req_line_matches(
                &rl,
                p.0,
                p.1,
                p.2,
            ),
            None => spec_parse_request_line(line@) is None,
        },
{
    let len = line.unicode_len();
    let m = scan_token_run(line, 0, len);
    if m >= len || line.get_char(m) != ' ' {
        return None;
    }
    let u = scan_vchar_run(line, m + 1, len);
    let au = m + 1 + u;
    if au >= len || line.get_char(au) != ' ' {
        return None;
    }
    if len - (au + 1) < 8 {
        return None;
    }
    let tag = line.substring_char(au + 1, au + 8);
    if !str_eq(tag, "HTTP/1.") {
        return None;
    }
    let digit = line.get_char(au + 8);
    let version = if digit == '0' {
        Version::V10
    } else if digit == '1' {
        Version::V11
    } else {
        return None;
    };
    let method = line.substring_char(0, m);
    let uri = line.substring_char(m + 1, au);
    let raw = RawRequestLine { method, uri, version };
    RequestLine::from_raw_request(raw)
}

/// Whether `s` starts with `p` up to ASCII case.
pub fn str_starts_with_no_case(s: &str, p: &str) -> (r: bool)
    ensures
        r == (p@.len() <= s@.len() && lower_chars(s@.take(p@.len() as int)) == lower_chars(p@)),
{
    let lp = p.unicode_len();
    let ls = s.unicode_len();
    if lp > ls {
        return false;
    }
    let mut i: usize = 0;
    while i < lp
        invariant
            lp == p@.len(),
            ls == s@.len(),
            lp <= ls,
            i <= lp,
            forall|k: int| 0 <= k < i ==> lower_char(s@[k]) == lower_char(p@[k]),
        decreases lp - i,
    {
        let cs = lower_char_exec(s.get_char(i));
        let cp = lower_char_exec(p.get_char(i));
        if cs != cp {
            proof {
                assert(lower_chars(s@.take(lp as int))[i as int] != lower_chars(p@)[i as int]);
            }
            return false;
        }
        i = i + 1;
    }
    proof {
        assert(lower_chars(s@.take(lp as int)) =~= lower_chars(p@));
    }
    true
}

/// The `Authorization: Basic <credentials>` header grammar: the encoded
/// credentials of a header line that matches it, or nothing.  The header
/// name is compared ignoring ASCII case; the `Basic` scheme keyword is
/// matched as spelled.
pub open spec fn spec_basic_authorization_header(s: Seq<char>) -> Option<Seq<char>> {
    let name = "Authorization:"@;
    let scheme = " Basic "@;
    if name.len() + scheme.len() <= s.len() && lower_chars(s.take(name.len() as int))
        == lower_chars(name) && s.subrange(
        name.len() as int,
        (name.len() + scheme.len()) as int,
    ) == scheme {
        Some(s.skip((name.len() + scheme.len()) as int))
    } else {
        None
    }
}

/// Recognizes a Basic `Authorization` header line — its name matched
/// ignoring ASCII case — and slices out its encoded credentials.
pub fn basic_authorization_header(line: &str) -> (r: Option<Authentication>)
    ensures
        match r {
            Some(auth) => auth.method == AuthMethod::Basic && spec_basic_authorization_header(
                line@,
            ) == Some(auth.encoded_credentials@),
            None => spec_basic_authorization_header(line@) is None,
        },
{
    let name = "Authorization:";
    let scheme = " Basic ";
    let nlen = name.unicode_len();
    let slen = scheme.unicode_len();
    let len = line.unicode_len();
    if len < nlen || len - nlen < slen {
        return None;
    }
    if !str_starts_with_no_case(line, name) {
        return None;
    }
    let mid = line.substring_char(nlen, nlen + slen);
    proof {
        assert(mid@ =~= line@.subrange(name@.len() as int, (name@.len() + scheme@.len()) as int));
    }
    if !str_eq(mid, scheme) {
        return None;
    }
    let credentials = line.substring_char(nlen + slen, len);
    proof {
        assert(credentials@ =~= line@.skip((name@.len() + scheme@.len()) as int));
    }
    Some(
        Authentication {
            method: AuthMethod::Basic,
            encoded_credentials: String::from_str(credentials),
        },
    )
}

/// The encoded credentials of the first header line that matches the Basic
/// `Authorization` grammar, or nothing when no line does.
pub open spec fn spec_find_auth(lines: Seq<Seq<char>>) -> Option<Seq<char>>
    decreases lines.len(),
{
    if lines.len() == 0 {
        None
    } else {
        match spec_basic_authorization_header(lines[0]) {
            Some(c) => Some(c),
            None => spec_find_auth(lines.drop_first()),
        }
    }
}

/// Walks the request's header lines in order and returns the first Basic
/// `Authorization` header found.
pub fn find_basic_authorization_header(http_request: Vec<String>) -> (r: Option<Authentication>)
    ensures
        match r {
            Some(auth) => auth.method == AuthMethod::Basic && spec_find_auth(
                http_request.deep_view(),
            ) == Some(auth.encoded_credentials@),
            None => spec_find_auth(http_request.deep_view()) is None,
        },
{
    find_basic_authorization_header_in(&http_request)
}

/// Walks header lines, borrowed, for the first Basic `Authorization` header.
pub(crate) fn find_basic_authorization_header_in(http_request: &Vec<String>) -> (r: Option<
    Authentication,
>)
    ensures
        match r {
            Some(auth) => auth.method == AuthMethod::Basic && spec_find_auth(
                http_request.deep_view(),
            ) == Some(auth.encoded_credentials@),
            None => spec_find_auth(http_request.deep_view()) is None,
        },
{
    let ghost lines = http_request.deep_view();
    let n = http_request.len();
    proof {
        assert(lines.skip(0) =~= lines);
    }
    let mut i: usize = 0;
    while i < n
        invariant
            n == http_request.len(),
            lines == http_request.deep_view(),
            i <= n,
            spec_find_auth(lines) == spec_find_auth(lines.skip(i as int)),
        decreases n - i,
    {
        proof {
            assert(lines.skip(i as int)[0] == http_request@[i as int]@);
            assert(lines.skip(i as int).drop_first() =~= lines.skip(i as int + 1));
        }
        if let Some(auth) = basic_authorization_header(http_request[i].as_str()) {
            return Some(auth);
        }
        i = i + 1;
    }
    proof {
        assert(lines.skip(n as int) =~= Seq::<Seq<char>>::empty());
    }
    None
}

/// What base64's standard-alphabet decoding returns: the decoded bytes for a
/// well-formed encoding, nothing otherwise.
pub uninterp spec fn base64_standard_decode(s: Seq<char>) -> Option<Seq<u8>>;

/// Relies on base64's `Engine::decode` on the `STANDARD` engine (the padded
/// standard alphabet): the outcome is a function of the input characters
/// alone.
#[verifier::external_body]
fn base64_decode(s: &str) -> (r: Option<Vec<u8>>)
    ensures
        match r {
            Some(v) => base64_standard_decode(s@) == Some(v@),
            None => base64_standard_decode(s@) is None,
        },
{
    match base64::engine::general_purpose::STANDARD.decode(s) {
        Ok(v) => Some(v),
        Err(_) => None,
    }
}

/// Relies on `String::from_utf8`: it succeeds exactly on valid UTF-8 and
/// returns its decoding.
#[verifier::external_body]
fn string_from_utf8(bytes: Vec<u8>) -> (r: Option<String>)
    ensures
        match r {
            Some(s) => valid_utf8(bytes@) && s@ == decode_utf8(bytes@),
            None => !valid_utf8(bytes@),
        },
{
    match String::from_utf8(bytes) {
        Ok(s) => Some(s),
        Err(_) => None,
    }
}

/// The credential pair hidden in a base64 payload: the base64 decoding, read
/// as UTF-8, split once at its first `:` into user name and password.
/// Nothing comes out when the encoding, the UTF-8 or the `:` is missing.
pub open spec fn spec_decode_credentials(enc: Seq<char>) -> Option<(Seq<char>, Seq<char>)> {
    match base64_standard_decode(enc) {
        Some(bytes) => if valid_utf8(bytes) {
            let s = decode_utf8(bytes);
            let p = first_index_of(s, ':');
            if p >= 0 {
                Some((s.take(p), s.skip(p + 1)))
            } else {
                None
            }
        } else {
            None
        },
        None => None,
    }
}

/// Decodes an `Authorization` header's base64 payload into the credential
/// pair it carries.
pub fn decode_user_name_password(authentication: &Authentication) -> (r: Option<BasicCredentials>)
    ensures
        match r {
            Some(c) => spec_decode_credentials(authentication.encoded_credentials@) == Some(
                (c.username@, c.password@),
            ),
            None => spec_decode_credentials(authentication.encoded_credentials@) is None,
        },
{
    let bytes = match base64_decode(authentication.encoded_credentials.as_str()) {
        Some(b) => b,
        _ => {
            return None;
        },
    };
    let ghost enc = authentication.encoded_credentials@;
    let ghost bs = bytes@;
    let decoded = match string_from_utf8(bytes) {
        Some(s) => s,
        _ => {
            return None;
        },
    };
    let s = decoded.as_str();
    let len = s.unicode_len();
    let mut i: usize = 0;
    while i < len
        invariant
            enc == authentication.encoded_credentials@,
            base64_standard_decode(enc) == Some(bs),
            valid_utf8(bs),
            s@ == decode_utf8(bs),
            len == s@.len(),
            i <= len,
            forall|k: int| 0 <= k < i ==> s@[k] != ':',
        decreases len - i,
    {
        if s.get_char(i) == ':' {
            let username = s.substring_char(0, i);
            let password = s.substring_char(i + 1, len);
            proof {
                lemma_first_index_of_found(s@, ':', i as int);
                assert(username@ =~= s@.take(i as int));
                assert(password@ =~= s@.skip(i as int + 1));
            }
            return Some(
                BasicCredentials {
                    username: String::from_str(username),
                    password: String::from_str(password),
                },
            );
        }
        i = i + 1;
    }
    proof {
        lemma_first_index_of_none(s@, ':');
    }
    None
}

} // verus!
