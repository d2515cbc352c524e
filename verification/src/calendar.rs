//! The proleptic Gregorian calendar: civil dates of day counts since
//! 1970-01-01, and the timestamp text `YYYY-MM-DDTHH:MM:SSZ`.

use vstd::prelude::*;
use crate::text::{push_zero_padded, string_from, zero_padded};

verus! {

/// Whether `y` is a leap year.
pub open spec fn is_leap(y: int) -> bool {
    y % 4 == 0 && (y % 100 != 0 || y % 400 == 0)
}

/// The number of days of year `y`.
pub open spec fn year_len(y: int) -> int {
    if is_leap(y) { 366 } else { 365 }
}

/// The number of days of month `m` (1 to 12) of year `y`.
pub open spec fn month_len(y: int, m: int) -> int {
    if m == 2 {
        if is_leap(y) { 29 } else { 28 }
    } else if m == 4 || m == 6 || m == 9 || m == 11 {
        30
    } else {
        31
    }
}

/// The number of leap years among the years 1 to `k`.
pub open spec fn leaps(k: int) -> int {
    k / 4 - k / 100 + k / 400
}

/// The number of days from 1970-01-01 to January 1st of year `y`.
pub open spec fn days_before_year(y: int) -> int {
    365 * (y - 1970) + leaps(y - 1) - leaps(1969)
}

/// The number of days of year `y` before month `m`.
pub open spec fn days_before_month(y: int, m: int) -> int
    decreases m,
{
    if m <= 1 {
        0
    } else {
        days_before_month(y, m - 1) + month_len(y, m - 1)
    }
}

/// Whether `(y, m, d)` is a date of the calendar.
pub open spec fn valid_date(y: int, m: int, d: int) -> bool {
    1 <= m <= 12 && 1 <= d <= month_len(y, m)
}

/// The number of days from 1970-01-01 to the date `(y, m, d)`.
pub open spec fn epoch_days(y: int, m: int, d: int) -> int {
    days_before_year(y) + days_before_month(y, m) + d - 1
}

proof fn lemma_div_step(y: int, k: int)
    requires
        k == 4 || k == 100 || k == 400,
    ensures
        y / k - (y - 1) / k == if y % k == 0 { 1int } else { 0int },
{
    assert(y == k * (y / k) + y % k && 0 <= y % k < k) by (nonlinear_arith)
        requires
            k > 0,
    ;
    assert((y - 1) == k * ((y - 1) / k) + (y - 1) % k && 0 <= (y - 1) % k < k) by (nonlinear_arith)
        requires
            k > 0,
    ;
    if y % k == 0 {
        assert(y / k - (y - 1) / k == 1) by (nonlinear_arith)
            requires
                k > 0,
                y == k * (y / k),
                y - 1 == k * ((y - 1) / k) + (y - 1) % k,
                0 <= (y - 1) % k < k,
        ;
    } else {
        assert(y / k - (y - 1) / k == 0) by (nonlinear_arith)
            requires
                k > 0,
                y == k * (y / k) + y % k,
                0 < y % k < k,
                y - 1 == k * ((y - 1) / k) + (y - 1) % k,
                0 <= (y - 1) % k < k,
        ;
    }
}

proof fn lemma_next_year(y: int)
    ensures
        days_before_year(y + 1) == days_before_year(y) + year_len(y),
{
    lemma_div_step(y, 4);
    lemma_div_step(y, 100);
    lemma_div_step(y, 400);
    if y % 100 == 0 {
        assert(y % 4 == 0);
    }
    if y % 400 == 0 {
        assert(y % 100 == 0);
    }
    assert(leaps(y) - leaps(y - 1) == if is_leap(y) { 1int } else { 0int });
}

proof fn lemma_four_centuries(y: int)
    ensures
        days_before_year(y + 400) == days_before_year(y) + 146097,
{
    assert((y + 399) / 4 == (y - 1) / 4 + 100);
    assert((y + 399) / 100 == (y - 1) / 100 + 4);
    assert((y + 399) / 400 == (y - 1) / 400 + 1);
}

proof fn lemma_eras(e: nat)
    ensures
        days_before_year(1970 + 400 * (e as int)) == 146097 * e,
    decreases e,
{
    if e > 0 {
        lemma_eras((e - 1) as nat);
        lemma_four_centuries(1970 + 400 * (e - 1));
        assert(1970 + 400 * (e - 1) + 400 == 1970 + 400 * e);
    }
}

proof fn lemma_months(y: int)
    ensures
        days_before_month(y, 13) == year_len(y),
        forall|m: int| 1 <= m <= 12 ==> days_before_month(y, m + 1) == #[trigger] days_before_month(y, m) + month_len(y, m),
{
    reveal_with_fuel(days_before_month, 13);
}

fn year_length(y: u64) -> (r: u64)
    ensures
        r == year_len(y as int),
{
    if y % 4 == 0 && (y % 100 != 0 || y % 400 == 0) { 366 } else { 365 }
}

fn month_length(y: u64, m: u64) -> (r: u64)
    ensures
        r == month_len(y as int, m as int),
{
    if m == 2 {
        if y % 4 == 0 && (y % 100 != 0 || y % 400 == 0) { 29 } else { 28 }
    } else if m == 4 || m == 6 || m == 9 || m == 11 {
        30
    } else {
        31
    }
}

/// The civil date `(year, month, day)` that is `days` days after 1970-01-01.
pub fn days_to_ymd(days: u64) -> (r: (u64, u64, u64))
    ensures
        valid_date(r.0 as int, r.1 as int, r.2 as int),
        epoch_days(r.0 as int, r.1 as int, r.2 as int) == days as int,
{
    let era = days / 146097;
    let mut rem = days % 146097;
    let base: u64 = 1970 + 400 * era;
    let mut y: u64 = base;
    proof {
        lemma_eras(era as nat);
    }
    while rem >= year_length(y)
        invariant
            base == 1970 + 400 * era,
            era <= u64::MAX / 146097,
            base <= y <= base + 400,
            days_before_year(y as int) + rem == days as int,
            days_before_year(y as int) - days_before_year(base as int) + rem < 146097,
        decreases rem,
    {
        proof {
            lemma_next_year(y as int);
            if y == base + 400 {
                lemma_four_centuries(base as int);
            }
        }
        rem = rem - year_length(y);
        y = y + 1;
    }
    let ghost start = rem;
    proof {
        lemma_months(y as int);
    }
    let mut m: u64 = 1;
    while rem >= month_length(y, m)
        invariant
            1 <= m <= 12,
            start < year_len(y as int),
            days_before_month(y as int, m as int) + rem == start,
            days_before_month(y as int, 13) == year_len(y as int),
            forall|k: int| 1 <= k <= 12 ==> days_before_month(y as int, k + 1) == #[trigger] days_before_month(y as int, k) + month_len(y as int, k),
        decreases rem,
    {
        rem = rem - month_length(y, m);
        m = m + 1;
    }
    (y, m, rem + 1)
}


proof fn lemma_date_in_year(y: int, m: int, d: int)
    requires
        valid_date(y, m, d),
    ensures
        days_before_year(y) <= epoch_days(y, m, d) < days_before_year(y + 1),
        days_before_month(y, m) <= epoch_days(y, m, d) - days_before_year(y) < days_before_month(y, m + 1),
{
    lemma_months(y);
    lemma_next_year(y);
    reveal_with_fuel(days_before_month, 13);
}

proof fn lemma_years_increase(a: int, b: int)
    requires
        a < b,
    ensures
        days_before_year(a + 1) <= days_before_year(b),
    decreases b - a,
{
    if a + 1 < b {
        lemma_years_increase(a, b - 1);
        lemma_next_year(b - 1);
    }
}

proof fn lemma_months_increase(y: int, a: int, b: int)
    requires
        1 <= a < b <= 12,
    ensures
        days_before_month(y, a + 1) <= days_before_month(y, b),
    decreases b - a,
{
    if a + 1 < b {
        lemma_months_increase(y, a, b - 1);
        lemma_months(y);
        assert(days_before_month(y, b) == days_before_month(y, b - 1) + month_len(y, b - 1));
    }
}

/// Distinct dates have distinct day counts: a day count names one date.
pub proof fn lemma_date_unique(y1: int, m1: int, d1: int, y2: int, m2: int, d2: int)
    requires
        valid_date(y1, m1, d1),
        valid_date(y2, m2, d2),
        epoch_days(y1, m1, d1) == epoch_days(y2, m2, d2),
    ensures
        y1 == y2 && m1 == m2 && d1 == d2,
{
    lemma_date_in_year(y1, m1, d1);
    lemma_date_in_year(y2, m2, d2);
    if y1 < y2 {
        lemma_years_increase(y1, y2);
    } else if y2 < y1 {
        lemma_years_increase(y2, y1);
    }
    if m1 < m2 {
        lemma_months_increase(y1, m1, m2);
    } else if m2 < m1 {
        lemma_months_increase(y1, m2, m1);
    }
}

/// The date that is `days` days after 1970-01-01.
pub open spec fn civil_date(days: int) -> (int, int, int) {
    choose|t: (int, int, int)| valid_date(t.0, t.1, t.2) && epoch_days(t.0, t.1, t.2) == days
}

/// The date of a day count, as `days_to_ymd` computes it.
pub fn civil_date_of(days: u64) -> (r: (u64, u64, u64))
    ensures
        (r.0 as int, r.1 as int, r.2 as int) == civil_date(days as int),
        r.0 >= 1970,
{
    let r = days_to_ymd(days);
    proof {
        let t = (r.0 as int, r.1 as int, r.2 as int);
        assert(valid_date(t.0, t.1, t.2) && epoch_days(t.0, t.1, t.2) == days as int);
        let c = civil_date(days as int);
        lemma_date_unique(t.0, t.1, t.2, c.0, c.1, c.2);
        if r.0 < 1970 {
            lemma_years_increase(r.0 as int, 1970);
            lemma_date_in_year(t.0, t.1, t.2);
        }
    }
    r
}

/// The UTC timestamp `YYYY-MM-DDTHH:MM:SSZ` of `secs` seconds after the epoch
/// (the year has at least four digits).
pub open spec fn timestamp_text(secs: nat) -> Seq<char> {
    let date = civil_date((secs / 86400) as int);
    let t = secs % 86400;
    zero_padded(date.0 as nat, 4) + seq!['-'] + zero_padded(date.1 as nat, 2) + seq!['-']
        + zero_padded(date.2 as nat, 2) + seq!['T'] + zero_padded(t / 3600, 2) + seq![':']
        + zero_padded((t % 3600) / 60, 2) + seq![':'] + zero_padded(t % 60, 2) + seq!['Z']
}

/// Formats `secs` seconds after the epoch as `YYYY-MM-DDTHH:MM:SSZ`.
pub fn format_timestamp(secs: u64) -> (r: String)
    ensures
        r@ == timestamp_text(secs as nat),
{
    let days = secs / 86400;
    let tod = secs % 86400;
    let (y, m, d) = civil_date_of(days);
    let mut v: Vec<char> = Vec::new();
    push_zero_padded(&mut v, y, 4);
    v.push('-');
    push_zero_padded(&mut v, m, 2);
    v.push('-');
    push_zero_padded(&mut v, d, 2);
    v.push('T');
    push_zero_padded(&mut v, tod / 3600, 2);
    v.push(':');
    push_zero_padded(&mut v, (tod % 3600) / 60, 2);
    v.push(':');
    push_zero_padded(&mut v, tod % 60, 2);
    v.push('Z');
    assert(v@ =~= timestamp_text(secs as nat));
    string_from(&v)
}

} // verus!
