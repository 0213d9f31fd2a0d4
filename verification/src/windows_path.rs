//! How `Path::join` adjoins a name to a path on Windows.
//!
//! Both `\` and `/` separate components, except after a verbatim prefix
//! (`\\?\`), where only `\` does. A path may start with a prefix: a drive
//! (`C:`), a share (`\\server\share`), a device (`\\.\COM1`) or one of the
//! verbatim forms (`\\?\name`, `\\?\UNC\server\share`, `\\?\C:`).

use vstd::prelude::*;
use crate::iperf::joined;
use crate::text::{copy_range, string_from_chars};

verus! {

/// Whether `c` separates components (only `\` after a verbatim prefix).
pub open spec fn is_win_sep(c: char, verbatim: bool) -> bool {
    c == '\\' || (!verbatim && c == '/')
}

/// The first index at or after `from` holding a separator, or the length
/// of `p` when there is none.
pub open spec fn next_sep(p: Seq<char>, from: int, verbatim: bool) -> int
    decreases p.len() - from,
{
    if from >= p.len() {
        p.len() as int
    } else if is_win_sep(p[from], verbatim) {
        from
    } else {
        next_sep(p, from + 1, verbatim)
    }
}

/// The kinds of path prefix.
#[derive(PartialEq, Eq, Structural, Clone, Copy, Debug)]
pub enum PrefixKind {
    /// No prefix.
    Plain,
    /// `C:`
    Disk,
    /// `\\server\share`
    Unc,
    /// `\\.\device`
    Device,
    /// `\\?\name`
    Verbatim,
    /// `\\?\UNC\server\share`
    VerbatimUnc,
    /// `\\?\C:`
    VerbatimDisk,
}

/// Whether a prefix is one of the verbatim forms.
pub open spec fn is_verbatim(k: PrefixKind) -> bool {
    k == PrefixKind::Verbatim || k == PrefixKind::VerbatimUnc || k == PrefixKind::VerbatimDisk
}

/// Whether `c` is an ASCII letter.
pub open spec fn is_ascii_letter(c: char) -> bool {
    ('a' <= c && c <= 'z') || ('A' <= c && c <= 'Z')
}

/// The length of a `\\?\UNC\server\share` prefix: the server, then the
/// share when it is not empty.
pub open spec fn verbatim_unc_len(p: Seq<char>) -> int {
    let server_end = next_sep(p, 8, true);
    if server_end >= p.len() {
        p.len() as int
    } else {
        let share_end = next_sep(p, server_end + 1, true);
        if share_end == server_end + 1 { server_end } else { share_end }
    }
}

/// A `\\server\share` prefix, which needs both a server and a share.
pub open spec fn unc_prefix(p: Seq<char>) -> (PrefixKind, int) {
    let server_end = next_sep(p, 2, false);
    if server_end == 2 || server_end >= p.len() {
        (PrefixKind::Plain, 0)
    } else {
        let share_end = next_sep(p, server_end + 1, false);
        if share_end == server_end + 1 { (PrefixKind::Plain, 0) } else { (PrefixKind::Unc, share_end) }
    }
}

/// The prefix of `p`: its kind and its length.
pub open spec fn prefix_of(p: Seq<char>) -> (PrefixKind, int) {
    if p.len() >= 2 && is_win_sep(p[0], false) && is_win_sep(p[1], false) {
        if p.len() >= 4 && p[0] == '\\' && p[1] == '\\' && p[2] == '?' && p[3] == '\\' {
            if p.len() >= 8 && p[4] == 'U' && p[5] == 'N' && p[6] == 'C' && p[7] == '\\' {
                (PrefixKind::VerbatimUnc, verbatim_unc_len(p))
            } else if p.len() >= 6 && is_ascii_letter(p[4]) && p[5] == ':' && (p.len() == 6 || p[6] == '\\') {
                (PrefixKind::VerbatimDisk, 6)
            } else {
                (PrefixKind::Verbatim, next_sep(p, 4, true))
            }
        } else if p.len() >= 4 && p[2] == '.' && is_win_sep(p[3], false) {
            (PrefixKind::Device, next_sep(p, 4, false))
        } else {
            unc_prefix(p)
        }
    } else if p.len() >= 2 && is_ascii_letter(p[0]) && p[1] == ':' {
        (PrefixKind::Disk, 2)
    } else {
        (PrefixKind::Plain, 0)
    }
}

/// The non-empty runs of non-separators of `s`, in order.
pub open spec fn pieces(s: Seq<char>, verbatim: bool) -> Seq<Seq<char>>
    decreases s.len(),
{
    if s.len() == 0 {
        Seq::empty()
    } else {
        let init = pieces(s.drop_last(), verbatim);
        let c = s.last();
        if is_win_sep(c, verbatim) {
            init
        } else if s.len() >= 2 && !is_win_sep(s[s.len() - 2], verbatim) {
            init.drop_last().push(init.last().push(c))
        } else {
            init.push(seq![c])
        }
    }
}

/// Whether a component is `.` or `..`.
pub open spec fn is_dot_part(x: Seq<char>) -> bool {
    x == seq!['.'] || x == seq!['.', '.']
}

/// One component of the name adjoined to a verbatim path: `.` is dropped,
/// `..` removes the last ordinary component, if any, and any other is
/// appended.
pub open spec fn step_part(parts: Seq<Seq<char>>, x: Seq<char>) -> Seq<Seq<char>> {
    if x == seq!['.'] {
        parts
    } else if x == seq!['.', '.'] {
        if parts.len() > 0 && !is_dot_part(parts.last()) { parts.drop_last() } else { parts }
    } else {
        parts.push(x)
    }
}

/// The components after adjoining each of `names` in turn.
pub open spec fn fold_parts(parts: Seq<Seq<char>>, names: Seq<Seq<char>>) -> Seq<Seq<char>>
    decreases names.len(),
{
    if names.len() == 0 {
        parts
    } else {
        step_part(fold_parts(parts, names.drop_last()), names.last())
    }
}

/// A non-empty name without prefix adjoined to a path with a verbatim
/// prefix: the result is rebuilt from components, `\`-separated, with the
/// name's `.` and `..` resolved; a name with a root keeps only the prefix.
pub open spec fn verbatim_join(base: Seq<char>, name: Seq<char>) -> Seq<char> {
    let plen = prefix_of(base).1;
    let base_root = base.len() > plen && is_win_sep(base[plen], false);
    let rest = base.skip(if base_root { plen + 1 } else { plen });
    let name_root = name.len() > 0 && is_win_sep(name[0], false);
    let start = if name_root { Seq::<Seq<char>>::empty() } else { pieces(rest, true) };
    let parts = fold_parts(start, pieces(name, false));
    base.take(plen) + (if base_root || name_root || parts.len() > 0 { seq!['\\'] } else { Seq::<char>::empty() })
        + joined(parts, seq!['\\'])
}

/// `base` with `name` adjoined as `Path::join` does on Windows. A name
/// with a prefix replaces the base; after a verbatim base the result is
/// rebuilt (see `verbatim_join`); a name with a root keeps only the base's
/// prefix; otherwise the name is appended after a `\`, unless the base is
/// empty, ends with a separator or is a bare drive (`C:`).
pub open spec fn windows_join(base: Seq<char>, name: Seq<char>) -> Seq<char> {
    let bp = prefix_of(base);
    if prefix_of(name).0 != PrefixKind::Plain {
        name
    } else if is_verbatim(bp.0) && name.len() > 0 {
        verbatim_join(base, name)
    } else if name.len() > 0 && is_win_sep(name[0], false) {
        base.take(bp.1) + name
    } else if base.len() > 0 && !is_win_sep(base.last(), false) && !(bp.0 == PrefixKind::Disk && bp.1 == base.len()) {
        base.push('\\') + name
    } else {
        base + name
    }
}

/// The characters of each vector.
pub open spec fn char_views(v: Seq<Vec<char>>) -> Seq<Seq<char>> {
    v.map_values(|x: Vec<char>| x@)
}

fn is_win_sep_exec(c: char, verbatim: bool) -> (b: bool)
    ensures
        b == is_win_sep(c, verbatim),
{
    c == '\\' || (!verbatim && c == '/')
}

fn is_ascii_letter_exec(c: char) -> (b: bool)
    ensures
        b == is_ascii_letter(c),
{
    ('a' <= c && c <= 'z') || ('A' <= c && c <= 'Z')
}

proof fn lemma_next_sep_bounds(p: Seq<char>, from: int, verbatim: bool)
    requires
        0 <= from <= p.len(),
    ensures
        from <= next_sep(p, from, verbatim) <= p.len(),
    decreases p.len() - from,
{
    if from < p.len() && !is_win_sep(p[from], verbatim) {
        lemma_next_sep_bounds(p, from + 1, verbatim);
    }
}

fn next_sep_exec(p: &[char], from: usize, verbatim: bool) -> (k: usize)
    requires
        from <= p@.len(),
    ensures
        k as int == next_sep(p@, from as int, verbatim),
        from <= k <= p@.len(),
{
    let mut k = from;
    while k < p.len() && !is_win_sep_exec(p[k], verbatim)
        invariant
            from <= k <= p@.len(),
            next_sep(p@, from as int, verbatim) == next_sep(p@, k as int, verbatim),
        decreases p.len() - k,
    {
        k = k + 1;
    }
    k
}

/// The prefix of `p` (see `prefix_of`).
pub fn prefix_of_exec(p: &[char]) -> (r: (PrefixKind, usize))
    ensures
        r.0 == prefix_of(p@).0,
        r.1 as int == prefix_of(p@).1,
        r.1 <= p@.len(),
{
    let n = p.len();
    if n >= 2 && is_win_sep_exec(p[0], false) && is_win_sep_exec(p[1], false) {
        if n >= 4 && p[0] == '\\' && p[1] == '\\' && p[2] == '?' && p[3] == '\\' {
            if n >= 8 && p[4] == 'U' && p[5] == 'N' && p[6] == 'C' && p[7] == '\\' {
                let server_end = next_sep_exec(p, 8, true);
                if server_end >= n {
                    (PrefixKind::VerbatimUnc, n)
                } else {
                    let share_end = next_sep_exec(p, server_end + 1, true);
                    if share_end == server_end + 1 {
                        (PrefixKind::VerbatimUnc, server_end)
                    } else {
                        (PrefixKind::VerbatimUnc, share_end)
                    }
                }
            } else if n >= 6 && is_ascii_letter_exec(p[4]) && p[5] == ':' && (n == 6 || p[6] == '\\') {
                (PrefixKind::VerbatimDisk, 6)
            } else {
                (PrefixKind::Verbatim, next_sep_exec(p, 4, true))
            }
        } else if n >= 4 && p[2] == '.' && is_win_sep_exec(p[3], false) {
            (PrefixKind::Device, next_sep_exec(p, 4, false))
        } else {
            let server_end = next_sep_exec(p, 2, false);
            if server_end == 2 || server_end >= n {
                (PrefixKind::Plain, 0)
            } else {
                let share_end = next_sep_exec(p, server_end + 1, false);
                if share_end == server_end + 1 {
                    (PrefixKind::Plain, 0)
                } else {
                    (PrefixKind::Unc, share_end)
                }
            }
        }
    } else if n >= 2 && is_ascii_letter_exec(p[0]) && p[1] == ':' {
        (PrefixKind::Disk, 2)
    } else {
        (PrefixKind::Plain, 0)
    }
}

/// The non-empty runs of non-separators of `s` (see `pieces`).
pub fn pieces_exec(s: &[char], verbatim: bool) -> (r: Vec<Vec<char>>)
    ensures
        char_views(r@) == pieces(s@, verbatim),
{
    let mut out: Vec<Vec<char>> = Vec::new();
    let mut i: usize = 0;
    assert(s@.take(0) =~= Seq::<char>::empty());
    assert(char_views(out@) =~= Seq::<Seq<char>>::empty());
    while i < s.len()
        invariant
            i <= s@.len(),
            char_views(out@) == pieces(s@.take(i as int), verbatim),
            i > 0 && !is_win_sep(s@[i - 1], verbatim) ==> out@.len() > 0,
        decreases s.len() - i,
    {
        let c = s[i];
        let ghost t = s@.take(i + 1);
        let ghost before = char_views(out@);
        proof {
            assert(t.drop_last() =~= s@.take(i as int));
            assert(t.last() == c);
            if i > 0 {
                assert(t[t.len() - 2] == s@[i - 1]);
            }
        }
        if is_win_sep_exec(c, verbatim) {
        } else if i > 0 && !is_win_sep_exec(s[i - 1], verbatim) {
            let mut last = out.pop().unwrap();
            let ghost last_view = last@;
            last.push(c);
            out.push(last);
            proof {
                assert(before.last() == last_view);
                assert(char_views(out@) =~= before.drop_last().push(last_view.push(c)));
            }
        } else {
            let mut piece: Vec<char> = Vec::new();
            piece.push(c);
            out.push(piece);
            proof {
                assert(piece@ =~= seq![c]);
                assert(char_views(out@) =~= before.push(seq![c]));
            }
        }
        i = i + 1;
    }
    assert(s@.take(s@.len() as int) =~= s@);
    out
}

fn is_one_dot(x: &Vec<char>) -> (b: bool)
    ensures
        b == (x@ == seq!['.']),
{
    let b = x.len() == 1 && x[0] == '.';
    if b {
        assert(x@ =~= seq!['.']);
    }
    b
}

fn is_two_dots(x: &Vec<char>) -> (b: bool)
    ensures
        b == (x@ == seq!['.', '.']),
{
    let b = x.len() == 2 && x[0] == '.' && x[1] == '.';
    if b {
        assert(x@ =~= seq!['.', '.']);
    }
    b
}

/// `prefix`, a `\` when there is a root or any component, then the
/// components separated by `\`.
fn render(prefix: &[char], root: bool, parts: &Vec<Vec<char>>) -> (r: String)
    ensures
        r@ == prefix@ + (if root || parts@.len() > 0 { seq!['\\'] } else { Seq::<char>::empty() })
            + joined(char_views(parts@), seq!['\\']),
{
    let mut out = copy_range(prefix, 0, prefix.len());
    assert(out@ =~= prefix@);
    if root || parts.len() > 0 {
        out.push('\\');
    }
    let ghost head = out@;
    let ghost all = char_views(parts@);
    let mut i: usize = 0;
    assert(all.take(0) =~= Seq::<Seq<char>>::empty());
    assert(out@ =~= head + joined(all.take(0), seq!['\\']));
    while i < parts.len()
        invariant
            i <= parts@.len(),
            all == char_views(parts@),
            out@ == head + joined(all.take(i as int), seq!['\\']),
        decreases parts.len() - i,
    {
        proof {
            assert(all.take(i + 1).drop_last() =~= all.take(i as int));
            assert(all.take(i + 1).last() == parts@[i as int]@);
        }
        if i > 0 {
            out.push('\\');
        } else {
            assert(all.take(1)[0] == all[0]);
        }
        let piece = &parts[i];
        let mut k: usize = 0;
        let ghost before = out@;
        while k < piece.len()
            invariant
                k <= piece@.len(),
                out@ == before + piece@.take(k as int),
            decreases piece.len() - k,
        {
            out.push(piece[k]);
            proof { assert(piece@.take(k + 1) =~= piece@.take(k as int).push(piece@[k as int])); }
            k = k + 1;
        }
        proof {
            assert(piece@.take(piece@.len() as int) =~= piece@);
            assert(out@ =~= head + joined(all.take(i + 1), seq!['\\']));
        }
        i = i + 1;
    }
    assert(all.take(parts@.len() as int) =~= all);
    string_from_chars(out.as_slice())
}

fn verbatim_join_exec(b: &[char], n: &[char]) -> (r: String)
    ensures
        r@ == verbatim_join(b@, n@),
{
    let (_, plen) = prefix_of_exec(b);
    let base_root = b.len() > plen && is_win_sep_exec(b[plen], false);
    let rest_start = if base_root { plen + 1 } else { plen };
    let rest = copy_range(b, rest_start, b.len());
    assert(rest@ =~= b@.skip(rest_start as int));
    let name_root = n.len() > 0 && is_win_sep_exec(n[0], false);
    let mut parts: Vec<Vec<char>> = if name_root { Vec::new() } else { pieces_exec(rest.as_slice(), true) };
    let ghost start = if name_root { Seq::<Seq<char>>::empty() } else { pieces(rest@, true) };
    assert(char_views(parts@) =~= start);
    let names = pieces_exec(n, false);
    let ghost all = char_views(names@);
    let mut i: usize = 0;
    assert(all.take(0) =~= Seq::<Seq<char>>::empty());
    while i < names.len()
        invariant
            i <= names@.len(),
            all == char_views(names@),
            char_views(parts@) == fold_parts(start, all.take(i as int)),
        decreases names.len() - i,
    {
        let ghost before = char_views(parts@);
        proof {
            assert(all.take(i + 1).drop_last() =~= all.take(i as int));
            assert(all.take(i + 1).last() == names@[i as int]@);
        }
        let x = &names[i];
        if is_one_dot(x) {
        } else if is_two_dots(x) {
            if parts.len() > 0 {
                let last_index = parts.len() - 1;
                let last_dot = is_one_dot(&parts[last_index]) || is_two_dots(&parts[last_index]);
                proof { assert(before.last() == parts@[last_index as int]@); }
                if !last_dot {
                    parts.pop();
                    proof { assert(char_views(parts@) =~= before.drop_last()); }
                }
            }
        } else {
            let owned = copy_range(x.as_slice(), 0, x.len());
            assert(owned@ =~= x@);
            parts.push(owned);
            proof { assert(char_views(parts@) =~= before.push(x@)); }
        }
        i = i + 1;
    }
    assert(all.take(names@.len() as int) =~= all);
    let prefix = copy_range(b, 0, plen);
    assert(prefix@ =~= b@.take(plen as int));
    render(prefix.as_slice(), base_root || name_root, &parts)
}

/// Adjoins `name` to `base` as `Path::join` does on Windows (see
/// `windows_join`).
pub fn windows_join_exec(base: &[char], name: &[char]) -> (r: String)
    ensures
        r@ == windows_join(base@, name@),
{
    let (nk, _) = prefix_of_exec(name);
    if nk != PrefixKind::Plain {
        return string_from_chars(name);
    }
    let (bk, bl) = prefix_of_exec(base);
    let verbatim = bk == PrefixKind::Verbatim || bk == PrefixKind::VerbatimUnc || bk == PrefixKind::VerbatimDisk;
    if verbatim && name.len() > 0 {
        return verbatim_join_exec(base, name);
    }
    let mut out: Vec<char>;
    if name.len() > 0 && is_win_sep_exec(name[0], false) {
        out = copy_range(base, 0, bl);
        assert(out@ =~= base@.take(bl as int));
    } else {
        out = copy_range(base, 0, base.len());
        assert(out@ =~= base@);
        if base.len() > 0 && !is_win_sep_exec(base[base.len() - 1], false) && !(bk == PrefixKind::Disk && bl == base.len()) {
            out.push('\\');
        }
    }
    let ghost head = out@;
    let mut k: usize = 0;
    while k < name.len()
        invariant
            k <= name@.len(),
            out@ == head + name@.take(k as int),
        decreases name.len() - k,
    {
        out.push(name[k]);
        proof { assert(name@.take(k + 1) =~= name@.take(k as int).push(name@[k as int])); }
        k = k + 1;
    }
    assert(name@.take(name@.len() as int) =~= name@);
    string_from_chars(out.as_slice())
}

} // verus!
