//! Calendar dates held as plain year/month/day numbers.
//!
//! Snapshot keys are date strings in the `YYYY-MM-DD` form; the library
//! models them with this type so that ordering is by calendar date, not
//! by string comparison.

use vstd::prelude::*;

use crate::text::all_digits;
use crate::text::check_digits;
use crate::text::digits_val;
use crate::text::four_digit_rep;
use crate::text::lemma_pow10_vals;
use crate::text::parse_digits;
use crate::text::two_digit_rep;
use crate::text::u64_to_four_digits;
use crate::text::u64_to_two_digits;

verus! {

/// A calendar date as plain numbers.
#[derive(Clone, Copy, PartialEq, Eq, Structural, Debug)]
pub struct Date {
    pub year: u32,
    pub month: u32,
    pub day: u32,
}

/// Gregorian leap-year rule.
pub open spec fn is_leap_year(y: int) -> bool {
    (y % 4 == 0 && y % 100 != 0) || y % 400 == 0
}

/// Number of days in month `m` of year `y`.
pub open spec fn days_in_month(y: int, m: int) -> int {
    if m == 2 {
        if is_leap_year(y) {
            29
        } else {
            28
        }
    } else if m == 4 || m == 6 || m == 9 || m == 11 {
        30
    } else {
        31
    }
}

impl Date {
    /// A real calendar date with a four-digit year.
    pub open spec fn valid(self) -> bool {
        &&& self.year <= 9999
        &&& 1 <= self.month <= 12
        &&& 1 <= self.day <= days_in_month(self.year as int, self.month as int)
    }

    /// Total order on dates: later dates have larger keys.
    pub open spec fn key(self) -> int {
        self.year * 10000 + self.month * 100 + self.day
    }

    /// Strict calendar order.
    pub fn lt(&self, other: &Date) -> (r: bool)
        requires
            self.valid(),
            other.valid(),
        ensures
            r == (self.key() < other.key()),
    {
        if self.year != other.year {
            self.year < other.year
        } else if self.month != other.month {
            self.month < other.month
        } else {
            self.day < other.day
        }
    }

    /// Calendar equality.
    pub fn same(&self, other: &Date) -> (r: bool)
        requires
            self.valid(),
            other.valid(),
        ensures
            r == (self.key() == other.key()),
            r == (*self == *other),
    {
        self.year == other.year && self.month == other.month && self.day == other.day
    }
}

/// Number of digits of the month field of a date string: the month runs
/// from index 5 to the second dash.
pub open spec fn month_len(s: Seq<char>) -> int {
    if 6 < s.len() && s[6] == '-' {
        1
    } else {
        2
    }
}

/// `s` has the shape of a date string: a four-digit year, a dash, a one-
/// or two-digit month, a dash, and a one- or two-digit day.
pub open spec fn is_date_str(s: Seq<char>) -> bool {
    let ml = month_len(s);
    let dl = s.len() as int - 6 - ml;
    &&& 1 <= dl <= 2
    &&& all_digits(s.subrange(0, 4))
    &&& s[4] == '-'
    &&& all_digits(s.subrange(5, 5 + ml))
    &&& s[5 + ml] == '-'
    &&& all_digits(s.subrange(6 + ml, s.len() as int))
}

/// The date a date-shaped string denotes.
pub open spec fn date_of_str(s: Seq<char>) -> Date {
    let ml = month_len(s);
    Date {
        year: digits_val(s.subrange(0, 4)) as u32,
        month: digits_val(s.subrange(5, 5 + ml)) as u32,
        day: digits_val(s.subrange(6 + ml, s.len() as int)) as u32,
    }
}

/// Parses a date string.
///
/// Returns `Some` exactly when the string has the date shape and denotes
/// a real calendar date; zero padding of month and day is tolerated both
/// ways, since ordering is by the parsed date.
pub fn parse_date(s: &str) -> (r: Option<Date>)
    ensures
        r is Some <==> is_date_str(s@) && date_of_str(s@).valid(),
        r matches Some(d) ==> d == date_of_str(s@) && d.valid(),
{
    let n = s.unicode_len();
    if n < 8 || n > 10 {
        return None;
    }
    if s.get_char(4) != '-' {
        return None;
    }
    let ml: usize = if s.get_char(6) == '-' {
        1
    } else {
        2
    };
    proof {
        assert(ml as int == month_len(s@));
    }
    let dl: usize = n - 6 - ml;
    if dl < 1 || dl > 2 {
        return None;
    }
    if ml == 2 && s.get_char(7) != '-' {
        return None;
    }
    if !check_digits(s, n, 0, 4) {
        return None;
    }
    if !check_digits(s, n, 5, ml) {
        return None;
    }
    if !check_digits(s, n, 6 + ml, dl) {
        return None;
    }
    proof {
        lemma_pow10_vals();
    }
    let y = parse_digits(s, n, 0, 4);
    let mo = parse_digits(s, n, 5, ml);
    let d = parse_digits(s, n, 6 + ml, dl);
    proof {
        crate::text::lemma_pow10_increases(ml as nat, 2nat);
        crate::text::lemma_pow10_increases(dl as nat, 2nat);
        assert(is_date_str(s@));
    }
    if mo < 1 || mo > 12 {
        return None;
    }
    if d < 1 || d as u32 > days_in_month_exec(y as u32, mo as u32) {
        return None;
    }
    let date = Date { year: y as u32, month: mo as u32, day: d as u32 };
    proof {
        assert(date == date_of_str(s@));
    }
    Some(date)
}

/// The canonical `YYYY-MM-DD` rendering of a date.
pub open spec fn iso_rep(d: Date) -> Seq<char> {
    four_digit_rep(d.year as nat) + seq!['-'] + two_digit_rep(d.month as nat) + seq!['-']
        + two_digit_rep(d.day as nat)
}

/// The `MM-DD` rendering used for chart axis labels.
pub open spec fn month_day_rep(d: Date) -> Seq<char> {
    two_digit_rep(d.month as nat) + seq!['-'] + two_digit_rep(d.day as nat)
}

/// Formatting a date and parsing the result is the identity: the
/// store keys the library writes are read back as the same date on the
/// next run.
pub proof fn lemma_iso_round_trip(d: Date)
    requires
        d.valid(),
    ensures
        is_date_str(iso_rep(d)),
        date_of_str(iso_rep(d)) == d,
{
    let s = iso_rep(d);
    let y = four_digit_rep(d.year as nat);
    let m2 = two_digit_rep(d.month as nat);
    let d2 = two_digit_rep(d.day as nat);
    crate::text::lemma_four_digit_rep(d.year as nat);
    crate::text::lemma_two_digit_rep(d.month as nat);
    crate::text::lemma_two_digit_rep(d.day as nat);
    assert(s.len() == 10);
    assert(s[4] == '-');
    assert(s[6] == m2[1]);
    assert(crate::text::is_digit(m2[1]));
    assert('-' as u32 == 45);
    assert(s[6] != '-');
    assert(month_len(s) == 2);
    assert(s[7] == '-');
    assert(s.subrange(0, 4) =~= y);
    assert(s.subrange(5, 7) =~= m2);
    assert(s.subrange(8, 10) =~= d2);
    assert(is_date_str(s));
    assert(date_of_str(s) == d);
}

/// Formats a date as zero-padded `YYYY-MM-DD`.
pub fn format_iso(d: &Date) -> (s: String)
    requires
        d.valid(),
    ensures
        s@ == iso_rep(*d),
{
    proof {
        reveal_strlit("-");
    }
    let mut s = u64_to_four_digits(d.year as u64);
    s.append("-");
    let mo = u64_to_two_digits(d.month as u64);
    s.append(mo.as_str());
    s.append("-");
    let da = u64_to_two_digits(d.day as u64);
    s.append(da.as_str());
    proof {
        assert(s@ =~= iso_rep(*d));
    }
    s
}

/// Formats a date as zero-padded `MM-DD`.
pub fn format_month_day(d: &Date) -> (s: String)
    requires
        d.valid(),
    ensures
        s@ == month_day_rep(*d),
{
    proof {
        reveal_strlit("-");
    }
    let mut s = u64_to_two_digits(d.month as u64);
    s.append("-");
    let da = u64_to_two_digits(d.day as u64);
    s.append(da.as_str());
    proof {
        assert(s@ =~= month_day_rep(*d));
    }
    s
}

/// Executable counterpart of [`days_in_month`].
pub fn days_in_month_exec(y: u32, m: u32) -> (r: u32)
    requires
        1 <= m <= 12,
    ensures
        r == days_in_month(y as int, m as int),
{
    if m == 2 {
        if (y % 4 == 0 && y % 100 != 0) || y % 400 == 0 {
            29
        } else {
            28
        }
    } else if m == 4 || m == 6 || m == 9 || m == 11 {
        30
    } else {
        31
    }
}

} // verus!
