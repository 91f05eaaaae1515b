//! ISO 8601 rendering of a clock reading, on the proleptic Gregorian calendar.
use vstd::prelude::*;

use crate::text::{decimal_digits, digit_char, push_char, push_decimal};

verus! {

pub open spec fn is_leap_year(y: int) -> bool {
    (y % 4 == 0 && y % 100 != 0) || y % 400 == 0
}

pub open spec fn year_length(y: int) -> int {
    if is_leap_year(y) {
        366
    } else {
        365
    }
}

pub open spec fn month_length(y: int, m: int) -> int {
    if m == 2 {
        if is_leap_year(y) {
            29
        } else {
            28
        }
    } else if m == 4 || m == 6 || m == 9 || m == 11 {
        30
    } else {
        31
    }
}

/// The number of leap years among the years `1 ..= y - 1`.
pub open spec fn leap_years_before(y: int) -> int {
    (y - 1) / 4 - (y - 1) / 100 + (y - 1) / 400
}

/// The days from 1970-01-01 to the first day of year `y`.
pub open spec fn days_before_year(y: int) -> int {
    365 * (y - 1970) + leap_years_before(y) - leap_years_before(1970)
}

/// The days of the year `y` before the first day of month `m` (`m` in `1 ..= 13`).
pub open spec fn days_before_month(y: int, m: int) -> int {
    let l: int = if is_leap_year(y) {
        1
    } else {
        0
    };
    if m <= 1 {
        0
    } else if m == 2 {
        31
    } else if m == 3 {
        59 + l
    } else if m == 4 {
        90 + l
    } else if m == 5 {
        120 + l
    } else if m == 6 {
        151 + l
    } else if m == 7 {
        181 + l
    } else if m == 8 {
        212 + l
    } else if m == 9 {
        243 + l
    } else if m == 10 {
        273 + l
    } else if m == 11 {
        304 + l
    } else if m == 12 {
        334 + l
    } else {
        365 + l
    }
}

/// `(y, m, d)` is a date of the calendar, from 1970 on.
pub open spec fn is_civil_date(y: int, m: int, d: int) -> bool {
    &&& y >= 1970
    &&& 1 <= m <= 12
    &&& 1 <= d <= month_length(y, m)
}

/// The number of days from 1970-01-01 to the date `(y, m, d)`.
pub open spec fn epoch_day(y: int, m: int, d: int) -> int {
    days_before_year(y) + days_before_month(y, m) + d - 1
}

/// The date that lies `days` days after 1970-01-01.
pub open spec fn civil_from_days(days: int) -> (int, int, int) {
    choose|c: (int, int, int)| is_civil_date(c.0, c.1, c.2) && epoch_day(c.0, c.1, c.2) == days
}

/// Two decimal digits of `n` (below 100), with a leading zero.
pub open spec fn two_digits(n: nat) -> Seq<char> {
    seq![digit_char((n / 10) % 10), digit_char(n % 10)]
}

/// The year with at least four digits, zero-padded.
pub open spec fn year_digits(y: nat) -> Seq<char> {
    if y < 10000 {
        seq![
            digit_char(y / 1000),
            digit_char((y / 100) % 10),
            digit_char((y / 10) % 10),
            digit_char(y % 10),
        ]
    } else {
        decimal_digits(y)
    }
}

/// The ISO 8601 rendering `YYYY-MM-DDTHH:MM:SSZ` (UTC) of the time `t`
/// seconds after the Unix epoch.
pub open spec fn iso8601(t: nat) -> Seq<char> {
    let c = civil_from_days((t / 86400) as int);
    let s = t % 86400;
    year_digits(c.0 as nat) + seq!['-'] + two_digits(c.1 as nat) + seq!['-'] + two_digits(
        c.2 as nat,
    ) + seq!['T'] + two_digits(s / 3600) + seq![':'] + two_digits((s / 60) % 60) + seq![':']
        + two_digits(s % 60) + seq!['Z']
}

proof fn lemma_year_step(y: int)
    requires
        y >= 1970,
    ensures
        days_before_year(y + 1) == days_before_year(y) + year_length(y),
{
    assert(leap_years_before(y + 1) - leap_years_before(y) == if is_leap_year(y) {
        1int
    } else {
        0int
    }) by {
        assert(y / 4 - (y - 1) / 4 == if y % 4 == 0 {
            1int
        } else {
            0int
        });
        assert(y / 100 - (y - 1) / 100 == if y % 100 == 0 {
            1int
        } else {
            0int
        });
        assert(y / 400 - (y - 1) / 400 == if y % 400 == 0 {
            1int
        } else {
            0int
        });
    }
}

proof fn lemma_four_centuries(q: int)
    requires
        q >= 0,
    ensures
        days_before_year(1970 + 400 * q) == 146097 * q,
{
    assert((1969 + 400 * q) / 4 == 492 + 100 * q);
    assert((1969 + 400 * q) / 100 == 19 + 4 * q);
    assert((1969 + 400 * q) / 400 == 4 + q);
}

proof fn lemma_years_increase(a: int, b: int)
    requires
        1970 <= a < b,
    ensures
        days_before_year(a + 1) <= days_before_year(b),
    decreases b - a,
{
    lemma_year_step(b - 1);
    if a + 1 < b {
        lemma_years_increase(a, b - 1);
    }
}

proof fn lemma_date_within_year(y: int, m: int, d: int)
    requires
        is_civil_date(y, m, d),
    ensures
        days_before_year(y) <= epoch_day(y, m, d) < days_before_year(y + 1),
        days_before_month(y, m) <= epoch_day(y, m, d) - days_before_year(y) < days_before_month(
            y,
            m + 1,
        ),
{
    lemma_year_step(y);
}

/// A day count after the Unix epoch names at most one calendar date.
pub proof fn lemma_civil_date_unique(y1: int, m1: int, d1: int, y2: int, m2: int, d2: int)
    requires
        is_civil_date(y1, m1, d1),
        is_civil_date(y2, m2, d2),
        epoch_day(y1, m1, d1) == epoch_day(y2, m2, d2),
    ensures
        y1 == y2 && m1 == m2 && d1 == d2,
{
    lemma_date_within_year(y1, m1, d1);
    lemma_date_within_year(y2, m2, d2);
    if y1 < y2 {
        lemma_years_increase(y1, y2);
    } else if y2 < y1 {
        lemma_years_increase(y2, y1);
    }
    assert(y1 == y2);
    if m1 < m2 {
        assert(days_before_month(y1, m1 + 1) <= days_before_month(y1, m2));
    } else if m2 < m1 {
        assert(days_before_month(y1, m2 + 1) <= days_before_month(y1, m1));
    }
}

fn push_two_digits(s: &mut String, n: u64)
    requires
        n < 100,
    ensures
        final(s)@ == old(s)@ + two_digits(n as nat),
{
    push_char(s, crate::text::digit((n / 10) % 10));
    push_char(s, crate::text::digit(n % 10));
    assert(final(s)@ =~= old(s)@ + two_digits(n as nat));
}

fn push_year(s: &mut String, y: u64)
    ensures
        final(s)@ == old(s)@ + year_digits(y as nat),
{
    if y < 10000 {
        push_char(s, crate::text::digit(y / 1000));
        push_char(s, crate::text::digit((y / 100) % 10));
        push_char(s, crate::text::digit((y / 10) % 10));
        push_char(s, crate::text::digit(y % 10));
        assert(final(s)@ =~= old(s)@ + year_digits(y as nat));
    } else {
        push_decimal(s, y);
    }
}

fn leap(y: u64) -> (res: bool)
    ensures
        res == is_leap_year(y as int),
{
    (y % 4 == 0 && y % 100 != 0) || y % 400 == 0
}

/// The year in which the day `days` after the Unix epoch falls, and the day's
/// index within that year.
fn year_of_day(days: u64) -> (res: (u64, u64))
    requires
        days <= u64::MAX / 86400,
    ensures
        res.0 >= 1970,
        days_before_year(res.0 as int) + res.1 == days,
        res.1 < year_length(res.0 as int),
{
    let q: u64 = days / 146097;
    let r0: u64 = days % 146097;
    assert(q <= 1_500_000_000) by (nonlinear_arith)
        requires
            q == days / 146097,
            days <= u64::MAX / 86400,
    ;
    let y0: u64 = 1970 + 400 * q;
    proof {
        lemma_four_centuries(q as int);
    }
    let mut y: u64 = y0;
    let mut r: u64 = r0;
    let mut len: u64 = if leap(y) {
        366
    } else {
        365
    };
    while r >= len
        invariant
            y >= y0 >= 1970,
            y0 == 1970 + 400 * q,
            q <= 1_500_000_000,
            r0 < 146097,
            365 * (y - y0) + r <= r0,
            days_before_year(y as int) + r == days,
            len == year_length(y as int),
        decreases r,
    {
        proof {
            lemma_year_step(y as int);
        }
        r = r - len;
        y = y + 1;
        len = if leap(y) {
            366
        } else {
            365
        };
    }
    (y, r)
}

/// The month and day of the day with index `r` within year `y`.
fn month_of_day(y: u64, r0: u64) -> (res: (u64, u64))
    requires
        y >= 1970,
        r0 < year_length(y as int),
    ensures
        is_civil_date(y as int, res.0 as int, res.1 as int),
        days_before_month(y as int, res.0 as int) + res.1 - 1 == r0,
{
    let lp = leap(y);
    let mut m: u64 = 1;
    let mut r: u64 = r0;
    let mut mlen: u64 = 31;
    while r >= mlen
        invariant
            1 <= m <= 12,
            lp == is_leap_year(y as int),
            r + days_before_month(y as int, m as int) < year_length(y as int),
            days_before_month(y as int, m as int) + r == r0,
            mlen == month_length(y as int, m as int),
            days_before_month(y as int, m as int + 1) == days_before_month(y as int, m as int)
                + mlen,
        decreases r,
    {
        r = r - mlen;
        m = m + 1;
        mlen = if m == 2 {
            if lp {
                29
            } else {
                28
            }
        } else if m == 4 || m == 6 || m == 9 || m == 11 {
            30
        } else {
            31
        };
    }
    (m, r + 1)
}

/// The ISO 8601 rendering of `secs` seconds after the Unix epoch (see [`iso8601`]).
pub fn iso8601_string(secs: u64) -> (res: String)
    ensures
        res@ == iso8601(secs as nat),
{
    let days: u64 = secs / 86400;
    let in_day: u64 = secs % 86400;
    let (y, r) = year_of_day(days);
    let (m, d) = month_of_day(y, r);
    proof {
        let w = (y as int, m as int, d as int);
        assert(is_civil_date(w.0, w.1, w.2) && epoch_day(w.0, w.1, w.2) == days);
        let c = civil_from_days(days as int);
        assert(is_civil_date(c.0, c.1, c.2) && epoch_day(c.0, c.1, c.2) == days);
        lemma_civil_date_unique(c.0, c.1, c.2, y as int, m as int, d as int);
    }
    let mut s = String::new();
    push_year(&mut s, y);
    push_char(&mut s, '-');
    push_two_digits(&mut s, m);
    push_char(&mut s, '-');
    push_two_digits(&mut s, d);
    push_char(&mut s, 'T');
    push_two_digits(&mut s, in_day / 3600);
    push_char(&mut s, ':');
    push_two_digits(&mut s, (in_day / 60) % 60);
    push_char(&mut s, ':');
    push_two_digits(&mut s, in_day % 60);
    push_char(&mut s, 'Z');
    assert(s@ =~= iso8601(secs as nat));
    s
}

} // verus!
