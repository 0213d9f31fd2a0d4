//! Test reports: their files, their listing, and the parts of their text
//! that do not depend on measured rates.

use vstd::prelude::*;
use vstd::seq_lib::{to_multiset_remove, to_multiset_insert};
use crate::text::{occurs_at, chars_of, contains, contains_str, push_char, decimal, decimal_string, str_eq};
use crate::platform::{Os, join, join_path};
use crate::clock;

verus! {

/// Where reports are kept, and the system whose path rules apply there.
pub struct ReportGenerator {
    pub reports_dir: String,
    pub os: Os,
}

/// A report file as listed.
pub struct ReportInfo {
    pub filename: String,
    pub path: String,
    pub size: u64,
    pub created: String,
}

/// Whether `a` comes strictly before `b` in code-point order (the order of
/// `String`'s `Ord`: UTF-8 byte order is code-point order).
pub open spec fn text_lt(a: Seq<char>, b: Seq<char>) -> bool
    decreases a.len(),
{
    if a.len() == 0 {
        b.len() > 0
    } else if b.len() == 0 {
        false
    } else if a[0] != b[0] {
        a[0] < b[0]
    } else {
        text_lt(a.drop_first(), b.drop_first())
    }
}

pub proof fn lemma_text_lt_asymmetric(a: Seq<char>, b: Seq<char>)
    ensures
        !(text_lt(a, b) && text_lt(b, a)),
    decreases a.len(),
{
    if a.len() > 0 && b.len() > 0 && a[0] == b[0] {
        lemma_text_lt_asymmetric(a.drop_first(), b.drop_first());
    }
}

pub proof fn lemma_text_lt_total(a: Seq<char>, b: Seq<char>)
    ensures
        text_lt(a, b) || text_lt(b, a) || a == b,
    decreases a.len(),
{
    if a.len() > 0 && b.len() > 0 {
        if a[0] == b[0] {
            lemma_text_lt_total(a.drop_first(), b.drop_first());
            if a.drop_first() == b.drop_first() {
                assert(a =~= seq![a[0]] + a.drop_first());
                assert(b =~= seq![b[0]] + b.drop_first());
            }
        }
    } else if a.len() == 0 && b.len() == 0 {
        assert(a =~= b);
    }
}

pub proof fn lemma_text_lt_transitive(a: Seq<char>, b: Seq<char>, c: Seq<char>)
    requires
        text_lt(a, b),
        text_lt(b, c),
    ensures
        text_lt(a, c),
    decreases a.len(),
{
    if a.len() > 0 && b.len() > 0 && c.len() > 0 && a[0] == b[0] && b[0] == c[0] {
        lemma_text_lt_transitive(a.drop_first(), b.drop_first(), c.drop_first());
    }
}

/// Whether `text_lt(a, b)`.
pub fn text_less(a: &str, b: &str) -> (r: bool)
    ensures
        r == text_lt(a@, b@),
{
    let va = chars_of(a);
    let vb = chars_of(b);
    let mut i: usize = 0;
    assert(a@.skip(0) =~= a@);
    assert(b@.skip(0) =~= b@);
    loop
        invariant
            va@ == a@,
            vb@ == b@,
            i <= va@.len(),
            i <= vb@.len(),
            text_lt(a@, b@) == text_lt(a@.skip(i as int), b@.skip(i as int)),
        decreases va.len() - i,
    {
        let ghost sa = a@.skip(i as int);
        let ghost sb = b@.skip(i as int);
        if i == va.len() {
            return i < vb.len();
        }
        if i == vb.len() {
            return false;
        }
        assert(sa[0] == va@[i as int]);
        assert(sb[0] == vb@[i as int]);
        if va[i] != vb[i] {
            return va[i] < vb[i];
        }
        assert(sa.drop_first() =~= a@.skip(i + 1));
        assert(sb.drop_first() =~= b@.skip(i + 1));
        i = i + 1;
    }
}

/// Whether the reports are listed newest first: no file name comes before
/// the next ones.
pub open spec fn sorted_by_name_desc(s: Seq<ReportInfo>) -> bool {
    forall|i: int, j: int| 0 <= i < j < s.len() ==> !text_lt(#[trigger] s[i].filename@, #[trigger] s[j].filename@)
}

/// Whether `name` has the extension `html` (`Path::extension`: the text
/// after the last dot, when that dot is not the first character).
pub open spec fn has_html_extension(name: Seq<char>) -> bool {
    exists|k: int| 0 < k < name.len() && name[k] == '.' && #[trigger] name.skip(k + 1) == "html"@
}

impl ReportGenerator {
    /// A generator writing into `reports_dir` on `os`.
    pub fn new(reports_dir: String, os: Os) -> (g: Self)
        ensures
            g.reports_dir@ == reports_dir@,
            g.os == os,
    {
        ReportGenerator { reports_dir, os }
    }

    /// The path of the report file `filename`.
    pub fn report_path(&self, filename: &str) -> (p: String)
        ensures
            p@ == join_path(self.os, self.reports_dir@, filename@),
    {
        join(self.os, self.reports_dir.as_str(), filename)
    }

    /// The path of the report file `filename`, when that file exists.
    pub fn get_report_path(&self, filename: &str, exists: bool) -> (p: Option<String>)
        ensures
            p is Some <==> exists,
            p matches Some(q) ==> q@ == join_path(self.os, self.reports_dir@, filename@),
    {
        if exists {
            Some(self.report_path(filename))
        } else {
            None
        }
    }

    /// Whether the directory entry `name` is a report.
    pub fn is_report_file(name: &str) -> (b: bool)
        ensures
            b == has_html_extension(name@),
    {
        let v = chars_of(name);
        let n = v.len();
        let mut k = n;
        while k > 0 && v[k - 1] != '.'
            invariant
                v@ == name@,
                n == v@.len(),
                k <= n,
                forall|m: int| k <= m < n ==> v@[m] != '.',
            decreases k,
        {
            k = k - 1;
        }
        proof { reveal_strlit("html"); }
        if k <= 1 {
            proof {
                assert forall|j: int| 0 < j < name@.len() && name@[j] == '.' implies #[trigger] name@.skip(j + 1) != "html"@ by {
                    assert(name@[j] == v@[j]);
                    assert(forall|m: int| k <= m < n ==> v@[m] != '.');
                    if j >= k {
                        assert(k <= j && j < n);
                        assert(v@[j] != '.');
                    } else {
                        assert(0 < j && j < k && k <= 1);
                    }
                }
            }
            return false;
        }
        let dot = k - 1;
        let ext_ok = n - k == 4 && v[k] == 'h' && v[k + 1] == 't' && v[k + 2] == 'm' && v[k + 3] == 'l';
        proof {
            if ext_ok {
                assert(name@.skip(dot + 1) =~= "html"@);
            } else {
                assert forall|j: int| 0 < j < name@.len() && name@[j] == '.' implies #[trigger] name@.skip(j + 1) != "html"@ by {
                    if j > dot {
                        assert(v@[j] != '.');
                    } else if name@.skip(j + 1) == "html"@ {
                        let t = name@.skip(j + 1);
                        assert(t.len() == 4);
                        if j < dot {
                            assert(t[dot - j - 1] == '.');
                        } else {
                            assert(t[0] == v@[k as int]);
                            assert(t[1] == v@[k + 1]);
                            assert(t[2] == v@[k + 2]);
                            assert(t[3] == v@[k + 3]);
                        }
                    }
                }
            }
        }
        ext_ok
    }
}

/// The reports newest first: ordered by file name from last to first.
pub fn sort_reports(reports: Vec<ReportInfo>) -> (r: Vec<ReportInfo>)
    ensures
        sorted_by_name_desc(r@),
        r@.to_multiset() == reports@.to_multiset(),
{
    broadcast use vstd::seq_lib::group_to_multiset_ensures;
    let mut rest = reports;
    let mut out: Vec<ReportInfo> = Vec::new();
    let ghost orig = rest@;
    assert(out@.to_multiset() =~= vstd::multiset::Multiset::empty());
    assert(out@.to_multiset().add(rest@.to_multiset()) =~= orig.to_multiset());
    while rest.len() > 0
        invariant
            sorted_by_name_desc(out@),
            out@.to_multiset().add(rest@.to_multiset()) == orig.to_multiset(),
        decreases rest.len(),
    {
        let ghost before_rest = rest@;
        let ghost before_out = out@;
        let x = rest.remove(0);
        proof {
            to_multiset_remove(before_rest, 0);
            assert(rest@.to_multiset() =~= before_rest.to_multiset().remove(x));
        }
        let mut p: usize = 0;
        while p < out.len() && !text_less(out[p].filename.as_str(), x.filename.as_str())
            invariant
                p <= out@.len(),
                forall|k: int| 0 <= k < p ==> !text_lt(#[trigger] out@[k].filename@, x.filename@),
            decreases out.len() - p,
        {
            p = p + 1;
        }
        let ghost before = out@;
        proof { to_multiset_insert(before, p as int, x); }
        out.insert(p, x);
        proof {
            assert forall|i: int, j: int| 0 <= i < j < out@.len() implies !text_lt(#[trigger] out@[i].filename@, #[trigger] out@[j].filename@) by {
                if i < p && j == p {
                } else if i == p {
                    let y = before[j - 1];
                    assert(out@[j] == y);
                    let z = before[p as int];
                    assert(text_lt(z.filename@, x.filename@));
                    if j - 1 > p {
                        assert(!text_lt(z.filename@, y.filename@));
                    }
                    lemma_text_lt_total(z.filename@, y.filename@);
                    if text_lt(y.filename@, z.filename@) {
                        lemma_text_lt_transitive(y.filename@, z.filename@, x.filename@);
                    }
                    lemma_text_lt_asymmetric(y.filename@, x.filename@);
                } else {
                    let i0 = if i < p { i } else { i - 1 };
                    let j0 = if j < p { j } else { j - 1 };
                    assert(out@[i] == before[i0]);
                    assert(out@[j] == before[j0]);
                }
            }
            assert(before_rest[0] == x);
            assert(before_rest.contains(x));
            vstd::seq_lib::to_multiset_contains(before_rest, x);
            assert(before_rest.to_multiset().count(x) > 0);
            assert(before == before_out);
            assert(out@.to_multiset() =~= before_out.to_multiset().insert(x));
            assert(out@.to_multiset().add(rest@.to_multiset()) =~= orig.to_multiset());
        }
    }
    proof {
        vstd::multiset::lemma_multiset_empty_len(rest@.to_multiset());
        assert(rest@.to_multiset() =~= vstd::multiset::Multiset::empty());
        assert(out@.to_multiset().add(rest@.to_multiset()) =~= out@.to_multiset());
    }
    out
}

/// Whether a requested report name stays inside the report directory: it
/// holds neither `..` nor `/`.
pub open spec fn is_safe_report_name(name: Seq<char>) -> bool {
    !contains(name, ".."@) && !contains(name, "/"@)
}

/// Whether a requested report name stays inside the report directory.
pub fn is_safe_report_filename(name: &str) -> (b: bool)
    ensures
        b == is_safe_report_name(name@),
{
    let v = chars_of(name);
    !contains_str(v.as_slice(), "..") && !contains_str(v.as_slice(), "/")
}

/// On a system whose only separator is `/`, a name that passes the download
/// check names a file directly inside the report directory: its path is the
/// directory, a separator, then the name, which holds no separator and is
/// not the parent directory.
pub proof fn law_safe_report_path_stays_in_directory(os: Os, dir: Seq<char>, name: Seq<char>)
    requires
        os != Os::Windows,
        is_safe_report_name(name),
    ensures
        join_path(os, dir, name) == (if dir.len() == 0 || dir.last() == '/' { dir } else { dir.push('/') }) + name,
        forall|i: int| 0 <= i < name.len() ==> name[i] != '/',
        name != ".."@,
{
    reveal_strlit("..");
    reveal_strlit("/");
    assert forall|i: int| 0 <= i < name.len() implies name[i] != '/' by {
        if name[i] == '/' {
            assert(name.subrange(i, i + 1) =~= "/"@);
            assert(occurs_at(name, "/"@, i));
        }
    }
    if name == ".."@ {
        assert(name.subrange(0, 2) =~= ".."@);
        assert(occurs_at(name, ".."@, 0));
    }
}

/// The file name of the report identified by `id`.
pub open spec fn report_file_name(id: Seq<char>) -> Seq<char> {
    "speedtest_report_"@ + id + ".html"@
}

/// The file name of the report identified by `id`.
pub fn report_file_name_for(id: &str) -> (f: String)
    ensures
        f@ == report_file_name(id@),
{
    String::from_str("speedtest_report_").concat(id).concat(".html")
}

/// The file name of a new report: identified by its history record when it
/// has one, else by the local time (`YYYYMMDD_hhmmss`).
pub fn new_report_file_name(record_id: Option<&str>) -> (f: String)
    ensures
        record_id matches Some(id) ==> f@ == report_file_name(id@),
        record_id is None ==> exists|stamp: Seq<char>|
            clock::is_time_text("%Y%m%d_%H%M%S"@, stamp) && f@ == #[trigger] report_file_name(stamp),
{
    let timestamp = clock::local_now_formatted("%Y%m%d_%H%M%S");
    match record_id {
        Some(id) => report_file_name_for(id),
        None => {
            let f = report_file_name_for(timestamp.as_str());
            assert(f@ == report_file_name(timestamp@));
            f
        },
    }
}

/// The HTML text of a character.
pub open spec fn escaped_char(c: char) -> Seq<char> {
    if c == '&' {
        "&amp;"@
    } else if c == '<' {
        "&lt;"@
    } else if c == '>' {
        "&gt;"@
    } else {
        seq![c]
    }
}

/// `s` with `&`, `<` and `>` written as HTML entities.
pub open spec fn html_escaped(s: Seq<char>) -> Seq<char>
    decreases s.len(),
{
    if s.len() == 0 {
        Seq::empty()
    } else {
        html_escaped(s.drop_last()) + escaped_char(s.last())
    }
}

/// `text` with `&`, `<` and `>` written as HTML entities.
pub fn html_escape(text: &str) -> (r: String)
    ensures
        r@ == html_escaped(text@),
{
    let v = chars_of(text);
    let mut r = String::new();
    let mut i: usize = 0;
    while i < v.len()
        invariant
            v@ == text@,
            i <= v@.len(),
            r@ == html_escaped(v@.take(i as int)),
        decreases v.len() - i,
    {
        let c = v[i];
        proof {
            assert(v@.take(i + 1).drop_last() =~= v@.take(i as int));
            assert(v@.take(i + 1).last() == c);
        }
        if c == '&' {
            r.append("&amp;");
        } else if c == '<' {
            r.append("&lt;");
        } else if c == '>' {
            r.append("&gt;");
        } else {
            push_char(&mut r, c);
        }
        i = i + 1;
    }
    assert(v@.take(v@.len() as int) =~= v@);
    r
}

/// Escaped text holds no angle brackets, and an ampersand only where an
/// entity begins.
pub proof fn law_escaped_text_has_no_markup(s: Seq<char>)
    ensures
        forall|i: int| 0 <= i < html_escaped(s).len() ==> #[trigger] html_escaped(s)[i] != '<' && html_escaped(s)[i] != '>',
        forall|i: int| 0 <= i < html_escaped(s).len() && #[trigger] html_escaped(s)[i] == '&' ==>
            occurs_at(html_escaped(s), "&lt;"@, i)
            || occurs_at(html_escaped(s), "&gt;"@, i)
            || occurs_at(html_escaped(s), "&amp;"@, i),
    decreases s.len(),
{
    reveal_strlit("&amp;");
    reveal_strlit("&lt;");
    reveal_strlit("&gt;");
    if s.len() > 0 {
        let p = html_escaped(s.drop_last());
        let e = escaped_char(s.last());
        let h = html_escaped(s);
        law_escaped_text_has_no_markup(s.drop_last());
        assert(h == p + e);
        assert forall|i: int| 0 <= i < h.len() implies #[trigger] h[i] != '<' && h[i] != '>' by {
            if i >= p.len() {
                assert(h[i] == e[i - p.len()]);
            } else {
                assert(h[i] == p[i]);
            }
        }
        assert forall|i: int| 0 <= i < h.len() && #[trigger] h[i] == '&' implies
            occurs_at(h, "&lt;"@, i) || occurs_at(h, "&gt;"@, i) || occurs_at(h, "&amp;"@, i) by {
            if i >= p.len() {
                assert(h[i] == e[i - p.len()]);
                assert(i == p.len());
                assert(h.subrange(i, h.len() as int) =~= e);
            } else {
                assert(h[i] == p[i]);
                assert(p[i] == '&');
                if occurs_at(p, "&lt;"@, i) {
                    assert(h.subrange(i, i + 4) =~= p.subrange(i, i + 4));
                } else if occurs_at(p, "&gt;"@, i) {
                    assert(h.subrange(i, i + 4) =~= p.subrange(i, i + 4));
                } else {
                    assert(h.subrange(i, i + 5) =~= p.subrange(i, i + 5));
                }
            }
        }
    }
}

/// The kind of test a report describes.
pub open spec fn test_type_label(bidirectional: bool, reverse: bool) -> Seq<char> {
    if bidirectional { "上下行测试"@ } else if reverse { "下载测试"@ } else { "上传测试"@ }
}

/// The kind of test a report describes.
pub fn test_type_label_of(bidirectional: bool, reverse: bool) -> (l: String)
    ensures
        l@ == test_type_label(bidirectional, reverse),
{
    if bidirectional {
        String::from_str("上下行测试")
    } else if reverse {
        String::from_str("下载测试")
    } else {
        String::from_str("上传测试")
    }
}

/// The direction of a single-direction test.
pub open spec fn direction_label(reverse: bool) -> Seq<char> {
    if reverse { "下载"@ } else { "上传"@ }
}

/// The direction of a single-direction test.
pub fn direction_label_of(reverse: bool) -> (l: String)
    ensures
        l@ == direction_label(reverse),
{
    if reverse { String::from_str("下载") } else { String::from_str("上传") }
}

/// `n` spaces.
pub open spec fn spaces(n: nat) -> Seq<char> {
    Seq::new(n, |i: int| ' ')
}

/// `s` right-aligned in `width` characters (`{:>width}`).
pub open spec fn pad_left(s: Seq<char>, width: nat) -> Seq<char> {
    if s.len() < width { spaces((width - s.len()) as nat) + s } else { s }
}

/// `s` left-aligned in `width` characters (`{:<width}`).
pub open spec fn pad_right(s: Seq<char>, width: nat) -> Seq<char> {
    if s.len() < width { s + spaces((width - s.len()) as nat) } else { s }
}

fn append_spaces(r: &mut String, n: usize)
    ensures
        final(r)@ == old(r)@ + spaces(n as nat),
{
    let mut i: usize = 0;
    while i < n
        invariant
            i <= n,
            r@ == old(r)@ + spaces(i as nat),
        decreases n - i,
    {
        push_char(r, ' ');
        i = i + 1;
        assert(r@ =~= old(r)@ + spaces(i as nat));
    }
}

/// Appends `s` right-aligned in `width` characters.
pub fn append_padded_left(r: &mut String, s: &str, width: usize)
    ensures
        final(r)@ == old(r)@ + pad_left(s@, width as nat),
{
    let n = s.unicode_len();
    if n < width {
        append_spaces(r, width - n);
    }
    r.append(s);
    assert(final(r)@ =~= old(r)@ + pad_left(s@, width as nat));
}

/// Appends `s` left-aligned in `width` characters.
pub fn append_padded_right(r: &mut String, s: &str, width: usize)
    ensures
        final(r)@ == old(r)@ + pad_right(s@, width as nat),
{
    let n = s.unicode_len();
    r.append(s);
    if n < width {
        append_spaces(r, width - n);
    }
    assert(final(r)@ =~= old(r)@ + pad_right(s@, width as nat));
}

/// A row of the terminal transcript table: five columns of widths 5
/// (right-aligned), 15, 12, 15 and 10 (left-aligned), two spaces apart.
pub open spec fn table_row(id: Seq<char>, interval: Seq<char>, transfer: Seq<char>, bitrate: Seq<char>, retr: Seq<char>) -> Seq<char> {
    pad_left(id, 5) + "  "@ + pad_right(interval, 15) + "  "@ + pad_right(transfer, 12) + "  "@
        + pad_right(bitrate, 15) + "  "@ + pad_right(retr, 10)
}

/// A row of the terminal transcript table (see `table_row`).
pub fn table_row_of(id: &str, interval: &str, transfer: &str, bitrate: &str, retr: &str) -> (r: String)
    ensures
        r@ == table_row(id@, interval@, transfer@, bitrate@, retr@),
{
    let mut r = String::new();
    append_padded_left(&mut r, id, 5);
    r.append("  ");
    append_padded_right(&mut r, interval, 15);
    r.append("  ");
    append_padded_right(&mut r, transfer, 12);
    r.append("  ");
    append_padded_right(&mut r, bitrate, 15);
    r.append("  ");
    append_padded_right(&mut r, retr, 10);
    assert(r@ =~= table_row(id@, interval@, transfer@, bitrate@, retr@));
    r
}

/// The header of the terminal transcript table.
pub fn table_header() -> (r: String)
    ensures
        r@ == table_row("[ID]"@, "Interval"@, "Transfer"@, "Bitrate"@, "Retr"@),
{
    table_row_of("[ID]", "Interval", "Transfer", "Bitrate", "Retr")
}

/// The retransmission column: the count, or `-` when there were none.
pub open spec fn retransmits_text(retransmits: nat) -> Seq<char> {
    if retransmits > 0 { decimal(retransmits) } else { "-"@ }
}

/// The retransmission column (see `retransmits_text`).
pub fn retransmits_text_of(retransmits: u32) -> (t: String)
    ensures
        t@ == retransmits_text(retransmits as nat),
{
    if retransmits > 0 {
        decimal_string(retransmits as u64)
    } else {
        String::from_str("-")
    }
}

/// The sum of `s`.
pub open spec fn total(s: Seq<u64>) -> nat
    decreases s.len(),
{
    if s.len() == 0 {
        0
    } else {
        total(s.drop_last()) + s.last() as nat
    }
}

/// The bytes transferred over all intervals, when the sum fits in a `u64`.
pub fn total_bytes(bytes: &[u64]) -> (t: Option<u64>)
    ensures
        t matches Some(x) ==> x == total(bytes@),
        t is None <==> total(bytes@) > u64::MAX,
{
    let mut sum: u64 = 0;
    let mut i: usize = 0;
    while i < bytes.len()
        invariant
            i <= bytes@.len(),
            sum == total(bytes@.take(i as int)),
        decreases bytes.len() - i,
    {
        proof {
            assert(bytes@.take(i + 1).drop_last() =~= bytes@.take(i as int));
        }
        match sum.checked_add(bytes[i]) {
            Some(x) => {
                sum = x;
            },
            None => {
                proof { lemma_total_prefix_grows(bytes@, i + 1); }
                return None;
            },
        }
        i = i + 1;
    }
    assert(bytes@.take(bytes@.len() as int) =~= bytes@);
    Some(sum)
}

proof fn lemma_total_prefix_grows(s: Seq<u64>, k: int)
    requires
        0 <= k <= s.len(),
    ensures
        total(s.take(k)) <= total(s),
    decreases s.len() - k,
{
    if k < s.len() {
        lemma_total_prefix_grows(s, k + 1);
        assert(s.take(k + 1).drop_last() =~= s.take(k));
    } else {
        assert(s.take(k) =~= s);
    }
}

/// The line echoing a command in the transcript.
pub fn command_echo(command: &str) -> (l: String)
    ensures
        l@ == "$ "@ + command@,
{
    String::from_str("$ ").concat(command)
}

} // verus!
