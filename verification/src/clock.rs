//! The local wall clock, read through `chrono`.
//!
//! What the clock reads is not known here; what is stated is the shape of
//! every text it can give: each calendar field in its range, written as
//! chrono writes it.

use vstd::prelude::*;
use crate::text::decimal;

verus! {

/// `n` in decimal, zero-padded to at least `width` digits.
pub open spec fn zero_padded(n: nat, width: nat) -> Seq<char> {
    let d = decimal(n);
    if d.len() < width {
        Seq::new((width - d.len()) as nat, |i: int| '0') + d
    } else {
        d
    }
}

/// A year as chrono writes it (`%Y`): four digits from 0 to 9999, else a
/// sign followed by at least four digits.
pub open spec fn year_text(y: int) -> Seq<char> {
    if 0 <= y && y <= 9999 {
        zero_padded(y as nat, 4)
    } else if y < 0 {
        seq!['-'] + zero_padded((-y) as nat, 4)
    } else {
        seq!['+'] + zero_padded(y as nat, 4)
    }
}

/// A two-digit field (`%m`, `%d`, `%H`, `%M`, `%S`).
pub open spec fn two_digits(n: int) -> Seq<char> {
    zero_padded(n as nat, 2)
}

/// Whether month, day, hour, minute and second are in the ranges chrono
/// gives them (a leap second reads as 60).
pub open spec fn is_calendar_time(month: int, day: int, hour: int, minute: int, second: int) -> bool {
    &&& 1 <= month <= 12
    &&& 1 <= day <= 31
    &&& 0 <= hour <= 23
    &&& 0 <= minute <= 59
    &&& 0 <= second <= 60
}

/// The `strftime` patterns the library formats the local time with.
pub open spec fn is_supported_time_format(fmt: Seq<char>) -> bool {
    ||| fmt == "%Y%m%d%H%M%S"@
    ||| fmt == "%Y%m%d_%H%M%S"@
}

/// A time rendered with one of the supported patterns: `YYYYMMDDhhmmss`, or
/// `YYYYMMDD_hhmmss` for the pattern with an underscore.
pub open spec fn time_text(fmt: Seq<char>, y: int, mo: int, d: int, h: int, mi: int, s: int) -> Seq<char> {
    let date = year_text(y) + two_digits(mo) + two_digits(d);
    let time = two_digits(h) + two_digits(mi) + two_digits(s);
    if fmt == "%Y%m%d_%H%M%S"@ {
        date + seq!['_'] + time
    } else {
        date + time
    }
}

/// Whether `s` is some time rendered with the supported pattern `fmt`.
pub open spec fn is_time_text(fmt: Seq<char>, s: Seq<char>) -> bool {
    &&& is_supported_time_format(fmt)
    &&& exists|y: int, mo: int, d: int, h: int, mi: int, sec: int|
        is_calendar_time(mo, d, h, mi, sec) && s == #[trigger] time_text(fmt, y, mo, d, h, mi, sec)
}

/// Whether `f` is the fraction of a second chrono writes in RFC 3339: none,
/// or a dot and three, six or nine digits.
pub open spec fn is_second_fraction(f: Seq<char>) -> bool {
    ||| f.len() == 0
    ||| {
        &&& f.len() == 4 || f.len() == 7 || f.len() == 10
        &&& f[0] == '.'
        &&& forall|i: int| 1 <= i < f.len() ==> '0' <= #[trigger] f[i] && f[i] <= '9'
    }
}

/// A time in RFC 3339, as chrono writes it: `YYYY-MM-DDThh:mm:ss`, the
/// fraction of a second, and the offset from UTC as a sign, hours, `:`
/// and minutes.
pub open spec fn rfc3339_text(
    y: int, mo: int, d: int, h: int, mi: int, s: int,
    fraction: Seq<char>, sign: char, off_h: int, off_m: int,
) -> Seq<char> {
    year_text(y) + seq!['-'] + two_digits(mo) + seq!['-'] + two_digits(d) + seq!['T']
        + two_digits(h) + seq![':'] + two_digits(mi) + seq![':'] + two_digits(s)
        + fraction + seq![sign] + two_digits(off_h) + seq![':'] + two_digits(off_m)
}

/// Whether `s` is some time in RFC 3339 as chrono writes it.
pub open spec fn is_rfc3339_time(s: Seq<char>) -> bool {
    exists|y: int, mo: int, d: int, h: int, mi: int, sec: int, fraction: Seq<char>, sign: char, off_h: int, off_m: int|
        is_calendar_time(mo, d, h, mi, sec) && is_second_fraction(fraction)
            && (sign == '+' || sign == '-') && 0 <= off_h <= 24 && 0 <= off_m <= 59
            && s == #[trigger] rfc3339_text(y, mo, d, h, mi, sec, fraction, sign, off_h, off_m)
}

/// The current local time formatted with `fmt`
/// (`chrono::Local::now().format(fmt).to_string()`).
///
/// Which time is read depends on the clock and the time zone; the contract
/// states the shape every reading takes with the admitted patterns, which
/// hold only the numeric fields `%Y %m %d %H %M %S`. chrono always renders
/// those, so the call does not fail.
#[verifier::external_body]
pub(crate) fn local_now_formatted(fmt: &str) -> (s: String)
    requires
        is_supported_time_format(fmt@),
    ensures
        is_time_text(fmt@, s@),
{
    chrono::Local::now().format(fmt).to_string()
}

/// The current local time in RFC 3339 (`chrono::Local::now().to_rfc3339()`).
///
/// Which time is read depends on the clock and the time zone; the contract
/// states the shape every reading takes.
#[verifier::external_body]
pub(crate) fn local_now_rfc3339() -> (s: String)
    ensures
        is_rfc3339_time(s@),
{
    chrono::Local::now().to_rfc3339()
}

} // verus!
