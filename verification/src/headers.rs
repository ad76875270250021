//! Outgoing headers: an insertion-ordered, duplicate-suppressing header
//! collection, the fixed header lines every response carries, and the
//! rendering of numbers for `Content-Length`.

use vstd::prelude::*;
use crate::strings::str_eq;

verus! {

pub const SERVER_NAME: &'static str = "Gil HTTP";

/// Whether `s` holds no entry twice.
pub open spec fn spec_no_duplicates(s: Seq<Seq<char>>) -> bool {
    forall|i: int, j: int| 0 <= i < j < s.len() ==> s[i] != s[j]
}

/// Inserting into an ordered header set: a header already present is
/// dropped, keeping its first position; a new one goes to the end.
pub open spec fn spec_insert_header(s: Seq<Seq<char>>, h: Seq<char>) -> Seq<Seq<char>> {
    if s.contains(h) {
        s
    } else {
        s.push(h)
    }
}

/// The outgoing header collection: insertion-ordered and duplicate-free, so
/// the wire order of the headers is deterministic.
pub struct OrderedHeaderSet {
    headers: Vec<String>,
}

impl View for OrderedHeaderSet {
    type V = Seq<Seq<char>>;

    closed spec fn view(&self) -> Seq<Seq<char>> {
        self.headers.deep_view()
    }
}

impl OrderedHeaderSet {
    /// Every entry occurs once.
    pub open spec fn wf(&self) -> bool {
        spec_no_duplicates(self@)
    }

    /// An empty header set.
    pub fn new() -> (r: OrderedHeaderSet)
        ensures
            r@ == Seq::<Seq<char>>::empty(),
            r.wf(),
    {
        let r = OrderedHeaderSet { headers: Vec::new() };
        proof {
            assert(r@ =~= Seq::<Seq<char>>::empty());
        }
        r
    }

    /// Appends `h` unless an equal header is already present; the first
    /// insertion keeps its position.
    pub fn insert(&mut self, h: String)
        requires
            old(self).wf(),
        ensures
            final(self)@ == spec_insert_header(old(self)@, h@),
            final(self).wf(),
    {
        let n = self.headers.len();
        let ghost hs = self@;
        let mut i: usize = 0;
        while i < n
            invariant
                n == self.headers.len(),
                hs == self@,
                spec_no_duplicates(hs),
                i <= n,
                forall|k: int| 0 <= k < i ==> hs[k] != h@,
            decreases n - i,
        {
            proof {
                assert(hs[i as int] == self.headers@[i as int]@);
            }
            if str_eq(self.headers[i].as_str(), h.as_str()) {
                proof {
                    assert(hs.contains(h@));
                }
                return ;
            }
            i = i + 1;
        }
        proof {
            if hs.contains(h@) {
                let w = choose|w: int| 0 <= w < hs.len() && hs[w] == h@;
                assert(hs[w] != h@);
            }
        }
        self.headers.push(h);
        proof {
            assert(self@ =~= hs.push(h@));
        }
    }

    /// How many headers are held.
    pub fn len(&self) -> (n: usize)
        ensures
            n == self@.len(),
    {
        self.headers.len()
    }
}

/// All the entries of `ss` joined in order.
pub open spec fn spec_concat_seqs(ss: Seq<Seq<char>>) -> Seq<char>
    decreases ss.len(),
{
    if ss.len() == 0 {
        Seq::empty()
    } else {
        ss[0] + spec_concat_seqs(ss.drop_first())
    }
}

/// Joins all held header lines into the response's header block.
pub fn concatenate_headers(header_map: &OrderedHeaderSet) -> (r: String)
    ensures
        r@ == spec_concat_seqs(header_map@),
{
    let ghost hs = header_map@;
    let n = header_map.headers.len();
    let mut out = String::new();
    proof {
        assert(hs.skip(0) =~= hs);
        assert(out@ + spec_concat_seqs(hs) =~= spec_concat_seqs(hs));
    }
    let mut i: usize = 0;
    while i < n
        invariant
            n == header_map.headers.len(),
            hs == header_map@,
            i <= n,
            out@ + spec_concat_seqs(hs.skip(i as int)) == spec_concat_seqs(hs),
        decreases n - i,
    {
        proof {
            assert(hs.skip(i as int)[0] == header_map.headers@[i as int]@);
            assert(hs.skip(i as int).drop_first() =~= hs.skip(i as int + 1));
        }
        out.append(header_map.headers[i].as_str());
        i = i + 1;
    }
    proof {
        assert(hs.skip(n as int) =~= Seq::<Seq<char>>::empty());
    }
    out
}

/// The decimal digit `d` as a character.
pub open spec fn spec_digit_char(d: nat) -> char {
    (((d + 48) as u8) as char)
}

/// The decimal numeral for `n`, most significant digit first, without
/// leading zeros (a single `0` for zero).
pub open spec fn spec_dec_digits(n: nat) -> Seq<char>
    decreases n,
{
    if n < 10 {
        seq![spec_digit_char(n)]
    } else {
        spec_dec_digits((n / 10) as nat) + seq![spec_digit_char(n % 10)]
    }
}

/// The decimal digit `d` spelled out.
pub(crate) fn digit_str(d: u64) -> (r: &'static str)
    requires
        d < 10,
    ensures
        r@ == seq![spec_digit_char(d as nat)],
{
    proof {
        reveal_strlit("0");
        reveal_strlit("1");
        reveal_strlit("2");
        reveal_strlit("3");
        reveal_strlit("4");
        reveal_strlit("5");
        reveal_strlit("6");
        reveal_strlit("7");
        reveal_strlit("8");
        reveal_strlit("9");
    }
    if d == 0 {
        proof {
            assert("0"@ =~= seq![spec_digit_char(0)]);
        }
        "0"
    } else if d == 1 {
        proof {
            assert("1"@ =~= seq![spec_digit_char(1)]);
        }
        "1"
    } else if d == 2 {
        proof {
            assert("2"@ =~= seq![spec_digit_char(2)]);
        }
        "2"
    } else if d == 3 {
        proof {
            assert("3"@ =~= seq![spec_digit_char(3)]);
        }
        "3"
    } else if d == 4 {
        proof {
            assert("4"@ =~= seq![spec_digit_char(4)]);
        }
        "4"
    } else if d == 5 {
        proof {
            assert("5"@ =~= seq![spec_digit_char(5)]);
        }
        "5"
    } else if d == 6 {
        proof {
            assert("6"@ =~= seq![spec_digit_char(6)]);
        }
        "6"
    } else if d == 7 {
        proof {
            assert("7"@ =~= seq![spec_digit_char(7)]);
        }
        "7"
    } else if d == 8 {
        proof {
            assert("8"@ =~= seq![spec_digit_char(8)]);
        }
        "8"
    } else {
        proof {
            assert("9"@ =~= seq![spec_digit_char(9)]);
        }
        "9"
    }
}

/// Renders `n` as its decimal numeral.
pub fn u64_to_string(n: u64) -> (r: String)
    ensures
        r@ == spec_dec_digits(n as nat),
    decreases n,
{
    if n < 10 {
        String::from_str(digit_str(n))
    } else {
        let mut s = u64_to_string(n / 10);
        s.append(digit_str(n % 10));
        s
    }
}

/// Renders a length as its decimal numeral.
pub fn usize_to_string(n: usize) -> (r: String)
    ensures
        r@ == spec_dec_digits(n as nat),
{
    u64_to_string(n as u64)
}

/// The three header lines every response carries: the status line, the
/// cache policy, and the server name, each with its line ending.
pub fn generate_status_with_common_headers(status_line: &str) -> (r: (String, String, String))
    ensures
        r.0@ == status_line@ + "\r\n"@,
        r.1@ == "Cache-Control: public, max-age=120\r\n"@,
        r.2@ == "Server: "@ + SERVER_NAME@ + "\r\n"@,
{
    let mut sl = String::from_str(status_line);
    sl.append("\r\n");
    let cache_control = String::from_str("Cache-Control: public, max-age=120\r\n");
    let mut server = String::from_str("Server: ");
    server.append(SERVER_NAME);
    server.append("\r\n");
    (sl, cache_control, server)
}

} // verus!
