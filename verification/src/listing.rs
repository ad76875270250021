//! The directory lister: entries adapted from filesystem metadata, their
//! sort order (directories before files, then by name), entry timestamps,
//! and the rendered HTML page.

use vstd::prelude::*;
use vstd::multiset::Multiset;
use std::time::SystemTime;
use chrono::{Datelike, Timelike};
use crate::headers::{spec_dec_digits, spec_digit_char, u64_to_string, usize_to_string};

verus! {

#[verifier::external_type_specification]
#[verifier::external_body]
pub struct ExSystemTime(SystemTime);

/// One directory entry as shown in a listing: name, size, kind, and its two
/// timestamps already rendered.
#[derive(Debug, Clone)]
pub struct FileData {
    pub file_name: String,
    pub file_size: u64,
    pub is_dir: bool,
    pub create_date: String,
    pub modified_date: String,
}

/// The sort key of a listing entry: a `d`/`f` marker for directories versus
/// files, an underscore, then the name — so directories order before files,
/// and names decide within each kind.
pub open spec fn spec_file_key(f: FileData) -> Seq<char> {
    (if f.is_dir {
        "d"@
    } else {
        "f"@
    }) + "_"@ + f.file_name@
}

/// Builds the sort key of one entry.
pub fn create_key(file_data: &FileData) -> (r: String)
    ensures
        r@ == spec_file_key(*file_data),
{
    let mut out = String::new();
    if file_data.is_dir {
        out.append("d");
    } else {
        out.append("f");
    }
    out.append("_");
    out.append(file_data.file_name.as_str());
    proof {
        assert(out@ =~= spec_file_key(*file_data));
    }
    out
}

/// Lexicographic order on character sequences: the empty sequence first, a
/// prefix before its extensions, otherwise the first differing character
/// decides.
pub open spec fn lex_le(a: Seq<char>, b: Seq<char>) -> bool
    decreases a.len(),
{
    if a.len() == 0 {
        true
    } else if b.len() == 0 {
        false
    } else if a[0] != b[0] {
        a[0] < b[0]
    } else {
        lex_le(a.drop_first(), b.drop_first())
    }
}

/// Lexicographic order is total.
pub proof fn lemma_lex_le_total(a: Seq<char>, b: Seq<char>)
    ensures
        lex_le(a, b) || lex_le(b, a),
    decreases a.len(),
{
    if a.len() > 0 && b.len() > 0 && a[0] == b[0] {
        lemma_lex_le_total(a.drop_first(), b.drop_first());
    }
}

/// Lexicographic order is transitive.
pub proof fn lemma_lex_le_trans(a: Seq<char>, b: Seq<char>, c: Seq<char>)
    requires
        lex_le(a, b),
        lex_le(b, c),
    ensures
        lex_le(a, c),
    decreases a.len(),
{
    if a.len() > 0 && b.len() > 0 && c.len() > 0 && a[0] == b[0] && b[0] == c[0] {
        lemma_lex_le_trans(a.drop_first(), b.drop_first(), c.drop_first());
    }
}

/// Compares two strings in lexicographic order.
pub fn lex_le_str(a: &str, b: &str) -> (r: bool)
    ensures
        r == lex_le(a@, b@),
{
    let la = a.unicode_len();
    let lb = b.unicode_len();
    proof {
        assert(a@.skip(0) =~= a@);
        assert(b@.skip(0) =~= b@);
    }
    let mut i: usize = 0;
    while i < la && i < lb
        invariant
            la == a@.len(),
            lb == b@.len(),
            i <= la,
            i <= lb,
            lex_le(a@, b@) == lex_le(a@.skip(i as int), b@.skip(i as int)),
            lex_le(b@, a@) == lex_le(b@.skip(i as int), a@.skip(i as int)),
        decreases la - i,
    {
        let ca = a.get_char(i);
        let cb = b.get_char(i);
        proof {
            assert(a@.skip(i as int)[0] == a@[i as int]);
            assert(b@.skip(i as int)[0] == b@[i as int]);
            assert(a@.skip(i as int).drop_first() =~= a@.skip(i as int + 1));
            assert(b@.skip(i as int).drop_first() =~= b@.skip(i as int + 1));
        }
        if ca != cb {
            return ca < cb;
        }
        i = i + 1;
    }
    proof {
        if i == la {
            assert(a@.skip(la as int) =~= Seq::<char>::empty());
        } else {
            assert(b@.skip(i as int) =~= Seq::<char>::empty());
            assert(a@.skip(i as int).len() > 0);
        }
    }
    la <= lb
}

/// Whether the entries are in listing order: sort keys ascending.
pub open spec fn spec_sorted_by_key(s: Seq<FileData>) -> bool {
    forall|i: int, j: int|
        0 <= i < j < s.len() ==> lex_le(
            spec_file_key(#[trigger] s[i]),
            spec_file_key(#[trigger] s[j]),
        )
}

/// Sorts the entries by their listing keys, keeping exactly the given
/// entries.
pub fn sort_file_data(v: Vec<FileData>) -> (r: Vec<FileData>)
    ensures
        r@.to_multiset() == v@.to_multiset(),
        spec_sorted_by_key(r@),
{
    broadcast use vstd::seq_lib::group_to_multiset_ensures;

    let mut src = v;
    let mut out: Vec<FileData> = Vec::new();
    proof {
        assert(out@.to_multiset().add(src@.to_multiset()) =~= v@.to_multiset());
    }
    while src.len() > 0
        invariant
            out@.to_multiset().add(src@.to_multiset()) == v@.to_multiset(),
            spec_sorted_by_key(out@),
            forall|i: int, j: int|
                0 <= i < out@.len() && 0 <= j < src@.len() ==> lex_le(
                    spec_file_key(#[trigger] out@[i]),
                    spec_file_key(#[trigger] src@[j]),
                ),
        decreases src.len(),
    {
        let n = src.len();
        let mut m: usize = 0;
        proof {
            lemma_lex_le_total(spec_file_key(src@[0]), spec_file_key(src@[0]));
        }
        let mut j: usize = 1;
        while j < n
            invariant
                n == src.len(),
                m < j <= n,
                forall|k: int|
                    0 <= k < j ==> lex_le(
                        spec_file_key(src@[m as int]),
                        spec_file_key(#[trigger] src@[k]),
                    ),
            decreases n - j,
        {
            let kj = create_key(&src[j]);
            let km = create_key(&src[m]);
            if lex_le_str(kj.as_str(), km.as_str()) && !lex_le_str(km.as_str(), kj.as_str()) {
                proof {
                    assert forall|k: int| 0 <= k < j + 1 implies lex_le(
                        spec_file_key(src@[j as int]),
                        spec_file_key(#[trigger] src@[k]),
                    ) by {
                        if k < j {
                            lemma_lex_le_trans(
                                spec_file_key(src@[j as int]),
                                spec_file_key(src@[m as int]),
                                spec_file_key(src@[k]),
                            );
                        } else {
                            lemma_lex_le_total(
                                spec_file_key(src@[j as int]),
                                spec_file_key(src@[j as int]),
                            );
                        }
                    }
                }
                m = j;
            } else {
                proof {
                    lemma_lex_le_total(
                        spec_file_key(src@[m as int]),
                        spec_file_key(src@[j as int]),
                    );
                }
            }
            j = j + 1;
        }
        let ghost old_src = src@;
        let ghost old_out = out@;
        let x = src.remove(m);
        out.push(x);
        proof {
            broadcast use vstd::multiset::group_multiset_axioms;

            assert(out@ =~= old_out.push(x));
            assert(src@ == old_src.remove(m as int));
            assert(old_src.contains(x)) by {
                assert(old_src[m as int] == x);
            }
            vstd::seq_lib::to_multiset_remove(old_src, m as int);
            vstd::seq_lib::to_multiset_build(old_out, x);
            vstd::seq_lib::to_multiset_contains(old_src, x);
            assert(src@.to_multiset() =~= old_src.to_multiset().remove(x));
            assert(out@.to_multiset() =~= old_out.to_multiset().insert(x));
            assert(old_src.to_multiset().count(x) > 0);
            assert(out@.to_multiset().add(src@.to_multiset()) =~= v@.to_multiset());
            assert forall|i: int, j2: int|
                0 <= i < out@.len() && 0 <= j2 < src@.len() implies lex_le(
                spec_file_key(#[trigger] out@[i]),
                spec_file_key(#[trigger] src@[j2]),
            ) by {
                let orig_j = if j2 < m { j2 } else { j2 + 1 };
                assert(src@[j2] == old_src[orig_j]);
                if i < old_out.len() {
                    assert(out@[i] == old_out[i]);
                } else {
                    assert(out@[i] == x);
                }
            }
            assert forall|i: int, j2: int| 0 <= i < j2 < out@.len() implies lex_le(
                spec_file_key(#[trigger] out@[i]),
                spec_file_key(#[trigger] out@[j2]),
            ) by {
                if j2 < old_out.len() {
                } else {
                    assert(out@[j2] == x);
                    assert(x == old_src[m as int]);
                }
            }
        }
    }
    proof {
        assert(src@.to_multiset() =~= Multiset::<FileData>::empty());
        assert(out@.to_multiset() =~= v@.to_multiset());
    }
    out
}

/// Listing order, spelled out: a directory sorts strictly before every
/// file, and among entries of the same kind the names decide, ascending.
pub proof fn lemma_key_order(a: FileData, b: FileData)
    ensures
        a.is_dir && !b.is_dir ==> lex_le(spec_file_key(a), spec_file_key(b)) && spec_file_key(a)
            != spec_file_key(b),
        a.is_dir == b.is_dir ==> (lex_le(spec_file_key(a), spec_file_key(b)) <==> lex_le(
            a.file_name@,
            b.file_name@,
        )),
{
    reveal_strlit("d");
    reveal_strlit("f");
    reveal_strlit("_");
    let ka = spec_file_key(a);
    let kb = spec_file_key(b);
    assert(ka.len() == 2 + a.file_name@.len());
    assert(kb.len() == 2 + b.file_name@.len());
    assert(ka[0] == if a.is_dir { 'd' } else { 'f' });
    assert(kb[0] == if b.is_dir { 'd' } else { 'f' });
    if a.is_dir == b.is_dir {
        assert(ka.drop_first().drop_first() =~= a.file_name@);
        assert(kb.drop_first().drop_first() =~= b.file_name@);
        assert(ka.drop_first()[0] == '_');
        assert(kb.drop_first()[0] == '_');
        assert(lex_le(ka, kb) == lex_le(ka.drop_first(), kb.drop_first()));
        assert(lex_le(ka.drop_first(), kb.drop_first()) == lex_le(
            ka.drop_first().drop_first(),
            kb.drop_first().drop_first(),
        ));
    }
}

/// The pieces of a local calendar date and wall-clock time.
#[derive(PartialEq, Eq, Structural, Debug, Clone, Copy)]
pub struct DateParts {
    pub year: i32,
    pub month: u8,
    pub day: u8,
    pub hour: u8,
    pub minute: u8,
    pub second: u8,
}

/// The ranges the calendar guarantees of a date's pieces.
pub open spec fn valid_date_parts(p: DateParts) -> bool {
    1 <= p.month <= 12 && 1 <= p.day <= 31 && p.hour < 24 && p.minute < 60 && p.second < 60
}

/// The conventional three-letter abbreviation of month `m`.
pub open spec fn spec_month_abbrev(m: u8) -> Seq<char> {
    if m == 1 {
        "Jan"@
    } else if m == 2 {
        "Feb"@
    } else if m == 3 {
        "Mar"@
    } else if m == 4 {
        "Apr"@
    } else if m == 5 {
        "May"@
    } else if m == 6 {
        "Jun"@
    } else if m == 7 {
        "Jul"@
    } else if m == 8 {
        "Aug"@
    } else if m == 9 {
        "Sep"@
    } else if m == 10 {
        "Oct"@
    } else if m == 11 {
        "Nov"@
    } else {
        "Dec"@
    }
}

/// Names month `m` by its three-letter abbreviation.
fn month_abbrev(m: u8) -> (r: &'static str)
    requires
        1 <= m <= 12,
    ensures
        r@ == spec_month_abbrev(m),
{
    if m == 1 {
        "Jan"
    } else if m == 2 {
        "Feb"
    } else if m == 3 {
        "Mar"
    } else if m == 4 {
        "Apr"
    } else if m == 5 {
        "May"
    } else if m == 6 {
        "Jun"
    } else if m == 7 {
        "Jul"
    } else if m == 8 {
        "Aug"
    } else if m == 9 {
        "Sep"
    } else if m == 10 {
        "Oct"
    } else if m == 11 {
        "Nov"
    } else {
        "Dec"
    }
}

/// `n` as exactly two digits, zero-padded.
pub open spec fn spec_two_digits(n: u8) -> Seq<char>
    recommends
        n < 100,
{
    seq![spec_digit_char((n / 10) as nat), spec_digit_char((n % 10) as nat)]
}

/// Renders `n` as two zero-padded digits.
fn two_digits(n: u8) -> (r: String)
    requires
        n < 100,
    ensures
        r@ == spec_two_digits(n),
{
    let mut out = String::from_str(crate::headers::digit_str((n / 10) as u64));
    out.append(crate::headers::digit_str((n % 10) as u64));
    proof {
        assert(out@ =~= spec_two_digits(n));
    }
    out
}

/// `n` as a decimal numeral zero-padded to at least four digits.
pub open spec fn spec_pad4(n: nat) -> Seq<char> {
    if n < 10 {
        seq!['0', '0', '0'] + spec_dec_digits(n)
    } else if n < 100 {
        seq!['0', '0'] + spec_dec_digits(n)
    } else if n < 1000 {
        seq!['0'] + spec_dec_digits(n)
    } else {
        spec_dec_digits(n)
    }
}

/// A calendar year as rendered into a listing: four digits, zero-padded,
/// with a leading minus for years before year zero.
pub open spec fn spec_year_chars(y: int) -> Seq<char> {
    if y < 0 {
        seq!['-'] + spec_pad4((-y) as nat)
    } else {
        spec_pad4(y as nat)
    }
}

/// Renders a year as at least four zero-padded digits.
fn year_chars(y: i32) -> (r: String)
    ensures
        r@ == spec_year_chars(y as int),
{
    proof {
        reveal_strlit("-");
        reveal_strlit("0");
        reveal_strlit("00");
        reveal_strlit("000");
        assert("-"@ =~= seq!['-']);
        assert("0"@ =~= seq!['0']);
        assert("00"@ =~= seq!['0', '0']);
        assert("000"@ =~= seq!['0', '0', '0']);
    }
    let mut out = String::new();
    let mag: u64 = if y < 0 {
        (-(y as i64)) as u64
    } else {
        y as u64
    };
    if y < 0 {
        out.append("-");
    }
    if mag < 10 {
        out.append("000");
    } else if mag < 100 {
        out.append("00");
    } else if mag < 1000 {
        out.append("0");
    }
    out.append(u64_to_string(mag).as_str());
    proof {
        assert(out@ =~= spec_year_chars(y as int));
    }
    out
}

/// A day of the month as rendered into a listing: two characters, padded
/// with a space for the single-digit days.
pub open spec fn spec_day_padded(d: u8) -> Seq<char> {
    if d < 10 {
        seq![' '] + spec_dec_digits(d as nat)
    } else {
        spec_dec_digits(d as nat)
    }
}

/// An entry timestamp as shown in a listing: month abbreviation, padded
/// day, then the wall-clock time for dates of the given year and the year
/// itself for older (or newer) ones.
pub open spec fn spec_format_entry_date(p: DateParts, now_year: i32) -> Seq<char> {
    spec_month_abbrev(p.month) + seq![' '] + spec_day_padded(p.day) + seq![' '] + (if p.year
        == now_year {
        spec_two_digits(p.hour) + seq![':'] + spec_two_digits(p.minute) + seq![':']
            + spec_two_digits(p.second)
    } else {
        spec_year_chars(p.year as int)
    })
}

/// Renders a date for a listing row: time of day for this year's entries,
/// the year for all others.
pub fn format_entry_date(parts: &DateParts, current_year: i32) -> (r: String)
    requires
        valid_date_parts(*parts),
    ensures
        r@ == spec_format_entry_date(*parts, current_year),
{
    proof {
        reveal_strlit(" ");
        reveal_strlit(":");
        assert(" "@ =~= seq![' ']);
        assert(":"@ =~= seq![':']);
    }
    let mut out = String::from_str(month_abbrev(parts.month));
    out.append(" ");
    if parts.day < 10 {
        out.append(" ");
        out.append(crate::headers::digit_str(parts.day as u64));
    } else {
        out.append(two_digits(parts.day).as_str());
    }
    out.append(" ");
    if parts.year == current_year {
        out.append(two_digits(parts.hour).as_str());
        out.append(":");
        out.append(two_digits(parts.minute).as_str());
        out.append(":");
        out.append(two_digits(parts.second).as_str());
    } else {
        out.append(year_chars(parts.year).as_str());
    }
    proof {
        if parts.day < 10 {
            assert(spec_day_padded(parts.day) =~= seq![' '] + seq![
                spec_digit_char(parts.day as nat),
            ]);
        } else {
            assert(spec_dec_digits((parts.day / 10) as nat) =~= seq![
                spec_digit_char((parts.day / 10) as nat),
            ]);
            assert(spec_two_digits(parts.day) =~= spec_dec_digits(parts.day as nat));
        }
        assert(out@ =~= spec_format_entry_date(*parts, current_year));
    }
    out
}

/// Relies on `SystemTime::duration_since` against the epoch: the instant as
/// whole seconds since the epoch, negative for instants before it,
/// saturated at the `i64` range.  No clause is stated; only the date
/// wrapper's ranges are relied on downstream.
#[verifier::external_body]
fn epoch_seconds(t: &SystemTime) -> i64 {
    match t.duration_since(std::time::UNIX_EPOCH) {
        Ok(d) => i64::try_from(d.as_secs()).unwrap_or(i64::MAX),
        Err(e) => i64::try_from(e.duration().as_secs())
            .unwrap_or(i64::MAX)
            .checked_neg()
            .unwrap_or(i64::MIN),
    }
}

/// Relies on chrono's non-panicking `DateTime::from_timestamp`, on
/// `with_timezone` with `Local`, and on the `Datelike` and `Timelike`
/// accessors: month is 1 to 12, day 1 to 31, hour below 24, minute and
/// second below 60.  Which date comes back depends on the machine's time
/// zone, so no more is stated; seconds beyond chrono's representable range
/// fall back to the epoch date, so the conversion is total.
#[verifier::external_body]
fn local_date_parts(secs: i64) -> (r: DateParts)
    ensures
        valid_date_parts(r),
{
    match chrono::DateTime::from_timestamp(secs, 0) {
        Some(utc) => {
            let dt = utc.with_timezone(&chrono::Local);
            DateParts {
                year: dt.year(),
                month: dt.month() as u8,
                day: dt.day() as u8,
                hour: dt.hour() as u8,
                minute: dt.minute() as u8,
                second: dt.second() as u8,
            }
        },
        None => DateParts { year: 1970, month: 1, day: 1, hour: 0, minute: 0, second: 0 },
    }
}

/// Relies on chrono's `Utc::now`: the year of the wall clock, of which
/// nothing can be promised.
#[verifier::external_body]
fn utc_now_year() -> (r: i32) {
    chrono::Utc::now().year()
}

/// The name a listed directory is titled with and linked under: its base
/// name, or the empty string when it is the document root itself.
pub fn listing_folder_name(target: String, root_path: &String) -> (r: String)
    ensures
        r@ == if target@ == root_path@ {
            Seq::<char>::empty()
        } else {
            crate::strings::spec_extract_file_name(target@)
        },
{
    if crate::strings::str_eq(target.as_str(), root_path.as_str()) {
        String::new()
    } else {
        crate::strings::extract_file_name(target)
    }
}

/// Renders an entry's timestamp: nothing for an unreadable one, otherwise
/// the listing date format applied to the local calendar date of the
/// instant and to the current year.
pub fn convert_time(time: Option<&SystemTime>) -> (r: String)
    ensures
        time is None ==> r@ == Seq::<char>::empty(),
        time is Some ==> exists|p: DateParts, y: i32|
            valid_date_parts(p) && r@ == #[trigger] spec_format_entry_date(p, y),
{
    match time {
        Some(t) => {
            let parts = local_date_parts(epoch_seconds(t));
            let year_now = utc_now_year();
            let r = format_entry_date(&parts, year_now);
            proof {
                assert(valid_date_parts(parts) && r@ == spec_format_entry_date(parts, year_now));
            }
            r
        },
        _ => String::new(),
    }
}

/// Bundles one directory entry for the listing, rendering its timestamps;
/// an unreadable timestamp shows as an empty cell.
pub fn adapt_file_data(
    file_name: &str,
    file_size: u64,
    is_dir: bool,
    created: Option<&SystemTime>,
    modified: Option<&SystemTime>,
) -> (r: FileData)
    ensures
        r.file_name@ == file_name@,
        r.file_size == file_size,
        r.is_dir == is_dir,
        created is None ==> r.create_date@ == Seq::<char>::empty(),
        created is Some ==> exists|p: DateParts, y: i32|
            valid_date_parts(p) && r.create_date@ == #[trigger] spec_format_entry_date(p, y),
        modified is None ==> r.modified_date@ == Seq::<char>::empty(),
        modified is Some ==> exists|p: DateParts, y: i32|
            valid_date_parts(p) && r.modified_date@ == #[trigger] spec_format_entry_date(p, y),
{
    let created_str = convert_time(created);
    let modified_str = convert_time(modified);
    FileData {
        file_size,
        file_name: String::from_str(file_name),
        is_dir,
        create_date: created_str,
        modified_date: modified_str,
    }
}

/// One listing row: a folder or file glyph, the size, the two timestamps,
/// and a link to the entry under the listed folder.
pub open spec fn spec_table_row(folder_name: Seq<char>, f: FileData) -> Seq<char> {
    "<tr><td>"@ + (if f.is_dir {
        "&#x1F4C1;"@
    } else {
        "&#128196;"@
    }) + "</td><td align='right'>"@ + spec_dec_digits(f.file_size as nat)
        + "</td><td align='right'>"@ + f.create_date@ + "</td><td align='right'>"@
        + f.modified_date@ + "</td><td><a href='"@ + folder_name + "/"@ + f.file_name@ + "'>"@
        + f.file_name@ + "</a></td></tr>"@
}

/// Renders one entry as a table row of the listing.
pub fn print_table_row(folder_name: &str, file_data: &FileData) -> (r: String)
    ensures
        r@ == spec_table_row(folder_name@, *file_data),
{
    let mut out = String::from_str("<tr><td>");
    if file_data.is_dir {
        out.append("&#x1F4C1;");
    } else {
        out.append("&#128196;");
    }
    out.append("</td><td align='right'>");
    out.append(u64_to_string(file_data.file_size).as_str());
    out.append("</td><td align='right'>");
    out.append(file_data.create_date.as_str());
    out.append("</td><td align='right'>");
    out.append(file_data.modified_date.as_str());
    out.append("</td><td><a href='");
    out.append(folder_name);
    out.append("/");
    out.append(file_data.file_name.as_str());
    out.append("'>");
    out.append(file_data.file_name.as_str());
    out.append("</a></td></tr>");
    proof {
        assert(out@ =~= spec_table_row(folder_name@, *file_data));
    }
    out
}

/// The rows of the given entries, in order.
pub open spec fn spec_render_rows(folder_name: Seq<char>, entries: Seq<FileData>) -> Seq<char>
    decreases entries.len(),
{
    if entries.len() == 0 {
        Seq::empty()
    } else {
        spec_table_row(folder_name, entries[0]) + spec_render_rows(
            folder_name,
            entries.drop_first(),
        )
    }
}

/// The whole listing page for the given entries, in the given order: the
/// page header naming the folder, the entry count, and the rows in a table.
pub open spec fn spec_render_listing(folder_name: Seq<char>, entries: Seq<FileData>) -> Seq<char> {
    "\n<html>\n    <head>\n        <title>"@ + folder_name
        + "</title>\n        <meta name='viewport' content='width=device-width'/>\n    </head>\n    <body>\n        <h1>"@
        + folder_name + "</h1>\n"@ + "<h4>total "@ + spec_dec_digits(entries.len()) + "</h4>"@
        + "<table>"@ + spec_render_rows(folder_name, entries) + "</table>"@ + "</body></html>"@
}

/// Renders the listing page of a directory: `folder_name` is the
/// directory's base name (empty for the document root itself), and the
/// entries appear sorted — directories first, then by name.
pub fn list_folder(files_vec: Vec<FileData>, folder_name: &str) -> (r: String)
    ensures
        exists|sorted: Seq<FileData>|
            sorted.to_multiset() == files_vec@.to_multiset() && spec_sorted_by_key(sorted) && r@
                == #[trigger] spec_render_listing(folder_name@, sorted),
{
    let ghost unsorted = files_vec@;
    let sorted_vec = sort_file_data(files_vec);
    let ghost sorted = sorted_vec@;
    let n = sorted_vec.len();
    let mut out = String::from_str("\n<html>\n    <head>\n        <title>");
    out.append(folder_name);
    out.append(
        "</title>\n        <meta name='viewport' content='width=device-width'/>\n    </head>\n    <body>\n        <h1>",
    );
    out.append(folder_name);
    out.append("</h1>\n");
    out.append("<h4>total ");
    out.append(usize_to_string(n).as_str());
    out.append("</h4>");
    out.append("<table>");
    let ghost before_rows = out@;
    let mut i: usize = 0;
    proof {
        assert(sorted.skip(0) =~= sorted);
        assert(out@ + spec_render_rows(folder_name@, sorted) =~= before_rows + spec_render_rows(
            folder_name@,
            sorted,
        ));
    }
    while i < n
        invariant
            n == sorted_vec.len(),
            sorted == sorted_vec@,
            i <= n,
            out@ + spec_render_rows(folder_name@, sorted.skip(i as int)) == before_rows
                + spec_render_rows(folder_name@, sorted),
        decreases n - i,
    {
        proof {
            assert(sorted.skip(i as int)[0] == sorted_vec@[i as int]);
            assert(sorted.skip(i as int).drop_first() =~= sorted.skip(i as int + 1));
        }
        let row = print_table_row(folder_name, &sorted_vec[i]);
        out.append(row.as_str());
        i = i + 1;
    }
    proof {
        assert(sorted.skip(n as int) =~= Seq::<FileData>::empty());
    }
    out.append("</table>");
    out.append("</body></html>");
    proof {
        assert(out@ =~= spec_render_listing(folder_name@, sorted));
        assert(sorted.to_multiset() == unsorted.to_multiset() && spec_sorted_by_key(sorted) && out@
            == spec_render_listing(folder_name@, sorted));
    }
    out
}

} // verus!
