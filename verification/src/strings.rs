//! Plain string transformations on request URIs and filesystem paths:
//! collapsing runs of path separators, directory-index substitution, and
//! extracting the final path segment of a URI.

use vstd::prelude::*;

verus! {

/// The string with every run of two or more consecutive `/` collapsed to a
/// single `/`; all other characters are kept in order.
pub open spec fn collapse_slashes(s: Seq<char>) -> Seq<char>
    decreases s.len(),
{
    if s.len() == 0 {
        Seq::empty()
    } else if s[0] == '/' && s.len() > 1 && s[1] == '/' {
        collapse_slashes(s.drop_first())
    } else {
        seq![s[0]] + collapse_slashes(s.drop_first())
    }
}

/// True when `s` contains no two consecutive `/` characters.
pub open spec fn no_double_slash(s: Seq<char>) -> bool {
    forall|i: int| 0 <= i && i + 1 < s.len() ==> !((#[trigger] s[i]) == '/' && s[i + 1] == '/')
}

/// Collapsing slash runs never leaves two consecutive separators behind.
pub proof fn lemma_collapse_no_double_slash(s: Seq<char>)
    ensures
        no_double_slash(collapse_slashes(s)),
    decreases s.len(),
{
    if s.len() == 0 {
    } else if s[0] == '/' && s.len() > 1 && s[1] == '/' {
        lemma_collapse_no_double_slash(s.drop_first());
    } else {
        lemma_collapse_no_double_slash(s.drop_first());
        let r = collapse_slashes(s);
        let rest = collapse_slashes(s.drop_first());
        assert(r == seq![s[0]] + rest);
        if s[0] == '/' && rest.len() > 0 {
            lemma_collapse_head_not_slash_after_slash(s);
        }
    }
}

/// If the first character survives as `/`, the collapsed tail cannot start
/// with another `/`.
proof fn lemma_collapse_head_not_slash_after_slash(s: Seq<char>)
    requires
        s.len() > 0,
        s[0] == '/',
        !(s.len() > 1 && s[1] == '/'),
        collapse_slashes(s.drop_first()).len() > 0,
    ensures
        collapse_slashes(s.drop_first())[0] != '/',
{
    lemma_collapse_first_char(s.drop_first());
}

/// A non-empty collapse result starts with the first character of its input.
proof fn lemma_collapse_first_char(s: Seq<char>)
    requires
        collapse_slashes(s).len() > 0,
    ensures
        s.len() > 0,
        collapse_slashes(s)[0] == s[0],
    decreases s.len(),
{
    if s.len() == 0 {
    } else if s[0] == '/' && s.len() > 1 && s[1] == '/' {
        lemma_collapse_first_char(s.drop_first());
        assert(s.drop_first()[0] == s[1]);
    }
}

/// Replaces every run of two or more consecutive `/` in `uri` by a single `/`.
pub fn remove_double_slash(uri: &str) -> (r: String)
    ensures
        r@ == collapse_slashes(uri@),
{
    let len = uri.unicode_len();
    let mut out = String::new();
    proof {
        assert(uri@.skip(0) =~= uri@);
        assert(out@ + collapse_slashes(uri@) =~= collapse_slashes(uri@));
    }
    let mut i: usize = 0;
    while i < len
        invariant
            len == uri@.len(),
            i <= len,
            out@ + collapse_slashes(uri@.skip(i as int)) == collapse_slashes(uri@),
        decreases len - i,
    {
        let c = uri.get_char(i);
        proof {
            lemma_collapse_unfold(uri@, i as int);
        }
        if c == '/' && i + 1 < len && uri.get_char(i + 1) == '/' {
            // drop this slash: the next one represents the run
        } else {
            push_char(&mut out, c);
        }
        i = i + 1;
    }
    proof {
        assert(uri@.skip(len as int) =~= Seq::<char>::empty());
    }
    out
}

/// One step of `collapse_slashes` on the suffix starting at `i`.
proof fn lemma_collapse_unfold(s: Seq<char>, i: int)
    requires
        0 <= i < s.len(),
    ensures
        collapse_slashes(s.skip(i)) == if s[i] == '/' && i + 1 < s.len() && s[i + 1] == '/' {
            collapse_slashes(s.skip(i + 1))
        } else {
            seq![s[i]] + collapse_slashes(s.skip(i + 1))
        },
{
    let suf = s.skip(i);
    assert(suf.len() == s.len() - i);
    assert(suf[0] == s[i]);
    if suf.len() > 1 {
        assert(suf[1] == s[i + 1]);
    }
    assert(suf.drop_first() =~= s.skip(i + 1));
}

/// A URI that ends in `/` denotes a directory; the directory index page is
/// substituted by appending `index.html`.
pub open spec fn spec_replace_slash(s: Seq<char>) -> Seq<char> {
    if s.len() > 0 && s[s.len() - 1] == '/' {
        s + "index.html"@
    } else {
        s
    }
}

/// Appends `index.html` to a URI that ends in `/`; any other URI is returned
/// unchanged.
pub fn replace_slash(uri: String) -> (r: String)
    ensures
        r@ == spec_replace_slash(uri@),
{
    let len = uri.as_str().unicode_len();
    if len > 0 && uri.as_str().get_char(len - 1) == '/' {
        uri.concat("index.html")
    } else {
        uri
    }
}

/// The position of the last occurrence of `c` in `s` at or below position
/// `i`; `-1` when there is none.
pub open spec fn last_index_at_or_below(s: Seq<char>, c: char, i: int) -> int
    decreases i + 1,
{
    if i < 0 {
        -1
    } else if s[i] == c {
        i
    } else {
        last_index_at_or_below(s, c, i - 1)
    }
}

/// The final path segment of a URI: everything after the last `/` that is
/// followed by at least one character; a URI without such a `/` is returned
/// whole.
pub open spec fn spec_extract_file_name(s: Seq<char>) -> Seq<char> {
    let p = last_index_at_or_below(s, '/', s.len() - 2);
    if p >= 0 {
        s.skip(p + 1)
    } else {
        s
    }
}

/// Extracts the file name a URI points at: the non-empty run of characters
/// after its last interior `/`.
pub fn extract_file_name(uri: String) -> (r: String)
    ensures
        r@ == spec_extract_file_name(uri@),
{
    let len = uri.as_str().unicode_len();
    if len < 2 {
        proof {
            assert(last_index_at_or_below(uri@, '/', len - 2) == -1);
        }
        return uri;
    }
    let mut j: usize = len - 1;
    while j > 0
        invariant
            len == uri@.len(),
            1 <= len,
            j <= len - 1,
            last_index_at_or_below(uri@, '/', len - 2) == last_index_at_or_below(
                uri@,
                '/',
                j - 1,
            ),
        decreases j,
    {
        if uri.as_str().get_char(j - 1) == '/' {
            let seg = uri.as_str().substring_char(j, len);
            proof {
                assert(seg@ =~= uri@.skip(j as int));
            }
            return String::from_str(seg);
        }
        j = j - 1;
    }
    proof {
        assert(last_index_at_or_below(uri@, '/', -1) == -1);
    }
    uri
}

/// The position of the first occurrence of `c` in `s`; `-1` when there is
/// none.
pub open spec fn first_index_of(s: Seq<char>, c: char) -> int
    decreases s.len(),
{
    if s.len() == 0 {
        -1
    } else if s[0] == c {
        0
    } else {
        let r = first_index_of(s.drop_first(), c);
        if r < 0 {
            -1
        } else {
            r + 1
        }
    }
}

/// The first occurrence, when there is one, lies inside the string.
pub proof fn lemma_first_index_of_bounds(s: Seq<char>, c: char)
    ensures
        -1 <= first_index_of(s, c) < s.len(),
    decreases s.len(),
{
    if s.len() > 0 && s[0] != c {
        lemma_first_index_of_bounds(s.drop_first(), c);
    }
}

/// `first_index_of` finds the position before which `c` does not occur.
pub proof fn lemma_first_index_of_found(s: Seq<char>, c: char, p: int)
    requires
        0 <= p < s.len(),
        s[p] == c,
        forall|k: int| 0 <= k < p ==> s[k] != c,
    ensures
        first_index_of(s, c) == p,
    decreases p,
{
    if p > 0 {
        lemma_first_index_of_found(s.drop_first(), c, p - 1);
    }
}

/// `first_index_of` reports absence exactly when `c` occurs nowhere.
pub proof fn lemma_first_index_of_none(s: Seq<char>, c: char)
    requires
        forall|k: int| 0 <= k < s.len() ==> s[k] != c,
    ensures
        first_index_of(s, c) == -1,
    decreases s.len(),
{
    if s.len() > 0 {
        lemma_first_index_of_none(s.drop_first(), c);
    }
}

/// The whitespace characters trimmed from protected-folder entries.
pub open spec fn is_ws(c: char) -> bool {
    c == ' ' || c == '\t' || c == '\r' || c == '\n'
}

/// `s` with its leading and trailing whitespace removed.
pub open spec fn spec_trim(s: Seq<char>) -> Seq<char>
    decreases s.len(),
{
    if s.len() > 0 && is_ws(s[0]) {
        spec_trim(s.drop_first())
    } else if s.len() > 0 && is_ws(s.last()) {
        spec_trim(s.drop_last())
    } else {
        s
    }
}

/// Returns `s` shorn of surrounding whitespace.
pub fn trim_str(s: &str) -> (r: String)
    ensures
        r@ == spec_trim(s@),
{
    let len = s.unicode_len();
    let mut lo: usize = 0;
    let mut hi: usize = len;
    proof {
        assert(s@.subrange(0, len as int) =~= s@);
    }
    while lo < hi && is_ws_char(s.get_char(lo))
        invariant
            len == s@.len(),
            lo <= hi <= len,
            spec_trim(s@) == spec_trim(s@.subrange(lo as int, hi as int)),
        decreases hi - lo,
    {
        proof {
            let cur = s@.subrange(lo as int, hi as int);
            assert(cur.drop_first() =~= s@.subrange(lo as int + 1, hi as int));
        }
        lo = lo + 1;
    }
    while lo < hi && is_ws_char(s.get_char(hi - 1))
        invariant
            len == s@.len(),
            lo <= hi <= len,
            lo < hi ==> !is_ws(s@[lo as int]),
            spec_trim(s@) == spec_trim(s@.subrange(lo as int, hi as int)),
        decreases hi,
    {
        proof {
            let cur = s@.subrange(lo as int, hi as int);
            assert(cur.drop_last() =~= s@.subrange(lo as int, hi as int - 1));
        }
        hi = hi - 1;
    }
    let piece = s.substring_char(lo, hi);
    proof {
        let cur = s@.subrange(lo as int, hi as int);
        assert(piece@ =~= cur);
    }
    String::from_str(piece)
}

/// Whether `c` is one of the trimmed whitespace characters.
pub fn is_ws_char(c: char) -> (r: bool)
    ensures
        r == is_ws(c),
{
    c == ' ' || c == '\t' || c == '\r' || c == '\n'
}

/// Whether `p` spells out the first characters of `s`.
pub fn str_starts_with(s: &str, p: &str) -> (r: bool)
    ensures
        r == p@.is_prefix_of(s@),
{
    let lp = p.unicode_len();
    let ls = s.unicode_len();
    if lp > ls {
        return false;
    }
    let mut i: usize = 0;
    while i < lp
        invariant
            lp == p@.len(),
            ls == s@.len(),
            lp <= ls,
            i <= lp,
            forall|k: int| 0 <= k < i ==> s@[k] == p@[k],
        decreases lp - i,
    {
        if s.get_char(i) != p.get_char(i) {
            proof {
                assert(s@.take(lp as int)[i as int] != p@[i as int]);
            }
            return false;
        }
        i = i + 1;
    }
    proof {
        assert(s@.take(lp as int) =~= p@);
    }
    true
}

/// Compares two strings character by character.
pub fn str_eq(a: &str, b: &str) -> (r: bool)
    ensures
        r == (a@ == b@),
{
    let la = a.unicode_len();
    let lb = b.unicode_len();
    if la != lb {
        return false;
    }
    let mut i: usize = 0;
    while i < la
        invariant
            la == a@.len(),
            la == b@.len(),
            i <= la,
            forall|k: int| 0 <= k < i ==> a@[k] == b@[k],
        decreases la - i,
    {
        if a.get_char(i) != b.get_char(i) {
            return false;
        }
        i = i + 1;
    }
    proof {
        assert(a@ =~= b@);
    }
    true
}

/// Relies on `String::push`: appends exactly the one character handed in.
#[verifier::external_body]
pub(crate) fn push_char(out: &mut String, c: char)
    ensures
        final(out)@ == old(out)@ + seq![c],
{
    out.push(c);
}

} // verus!
