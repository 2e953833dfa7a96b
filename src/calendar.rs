//! Conversion of Gregorian dates to the Jalali (Persian) calendar, by the
//! arithmetic of day numbers counted from 1600.
//!
//! The arithmetic is on `i32` and divides with truncation toward zero, so
//! dates before the start of the count give results outside the calendar;
//! the conversion is defined wherever no step overflows. The day of the month
//! it reports is one past the Jalali day: 1 Farvardin 1403 (20 March 2024)
//! comes out as `(1403, 1, 2)`.

use vstd::prelude::*;

verus! {

/// Quotient of `a` by a positive `b`, truncated toward zero.
pub open spec fn tdiv(a: int, b: int) -> int {
    if a >= 0 {
        a / b
    } else {
        -((-a) / b)
    }
}

/// Remainder that goes with `tdiv`: it has the sign of `a`.
pub open spec fn trem(a: int, b: int) -> int {
    a - b * tdiv(a, b)
}

/// Days of the Gregorian month with zero-based index `i`, in a common year.
pub open spec fn gregorian_month_days(i: int) -> int {
    if i == 1 {
        28
    } else if i == 3 || i == 5 || i == 8 || i == 10 {
        30
    } else {
        31
    }
}

/// Days of the Jalali month with zero-based index `i`.
pub open spec fn jalali_month_days(i: int) -> int {
    if i < 6 {
        31
    } else if i < 11 {
        30
    } else {
        29
    }
}

/// Days in the first `k` Gregorian months of a common year.
pub open spec fn days_before(k: int) -> int
    decreases k,
{
    if k <= 0 {
        0
    } else {
        days_before(k - 1) + gregorian_month_days(k - 1)
    }
}

pub open spec fn is_leap(y: int) -> bool {
    (y % 4 == 0 && y % 100 != 0) || y % 400 == 0
}

/// Days from 1600 to the start of year `y`.
pub open spec fn year_days(y: int) -> int {
    365 * (y - 1600) + tdiv(y - 1600, 4) - tdiv(y - 1600, 100) + tdiv(y - 1600, 400)
}

/// Days from 1600 to the start of month `m` of year `y`.
pub open spec fn month_start(y: int, m: int) -> int {
    year_days(y) + days_before(m - 1) + if m > 2 && is_leap(y) {
        1int
    } else {
        0int
    }
}

/// The day number of a Gregorian date, the day being given as `g_d` reads as an `i32`.
pub open spec fn day_number(g_y: i32, g_m: u32, g_d: u32) -> int {
    month_start(g_y as int, g_m as int) + (g_d as i32) as int - 1
}

/// Walks through the Jalali months from month `m`, `day` days in; gives the
/// month reached and the days left in it.
pub open spec fn walk_months(day: int, m: int) -> (int, int)
    decreases 11 - m,
{
    if m < 11 && day >= jalali_month_days(m) {
        walk_months(day - jalali_month_days(m), m + 1)
    } else {
        (m, day)
    }
}

/// Year and day of the Jalali year that a day number (less 79) falls in.
pub open spec fn jalali_year_day(j: int) -> (int, int) {
    let np = tdiv(j, 12053);
    let j1 = trem(j, 12053);
    let y1 = 979 + 33 * np + 4 * tdiv(j1, 1461);
    let j2 = trem(j1, 1461);
    if j2 >= 366 {
        (y1 + tdiv(j2 - 1, 365), trem(j2 - 1, 365))
    } else {
        (y1, j2)
    }
}

/// The Jalali year, month and day of a Gregorian date.
pub open spec fn jalali_of(g_y: i32, g_m: u32, g_d: u32) -> (i32, u32, u32) {
    let (y, day) = jalali_year_day(day_number(g_y, g_m, g_d) - 79);
    let (m, d) = walk_months(day, 0);
    (y as i32, (m + 1) as u32, (d + 2) as u32)
}

pub open spec fn fits(x: int) -> bool {
    i32::MIN <= x <= i32::MAX
}

/// The month indexes a month table, and no step of the conversion overflows.
pub open spec fn conversion_defined(g_y: i32, g_m: u32, g_d: u32) -> bool {
    let a = g_y - 1600;
    &&& 1 <= g_m <= 13
    &&& fits(a)
    &&& fits(365 * a)
    &&& fits(365 * a + tdiv(a, 4))
    &&& fits(365 * a + tdiv(a, 4) - tdiv(a, 100))
    &&& fits(year_days(g_y as int))
    &&& fits(year_days(g_y as int) + days_before(g_m - 1))
    &&& fits(month_start(g_y as int, g_m as int))
    &&& fits((g_d as i32) as int - 1)
    &&& fits(day_number(g_y, g_m, g_d))
    &&& fits(day_number(g_y, g_m, g_d) - 79)
    &&& walk_months(jalali_year_day(day_number(g_y, g_m, g_d) - 79).1, 0).1 != -1
    &&& walk_months(jalali_year_day(day_number(g_y, g_m, g_d) - 79).1, 0).1 != -2
}

proof fn lemma_days_before_grows(k: int, n: int)
    requires
        0 <= k <= n,
    ensures
        0 <= days_before(k) <= days_before(n),
    decreases n,
{
    if k < n {
        lemma_days_before_grows(k, n - 1);
    } else if k > 0 {
        lemma_days_before_grows(k - 1, k - 1);
    }
}

fn gregorian_month_len(i: usize) -> (r: i32)
    ensures
        r == gregorian_month_days(i as int),
{
    if i == 1 {
        28
    } else if i == 3 || i == 5 || i == 8 || i == 10 {
        30
    } else {
        31
    }
}

fn jalali_month_len(i: usize) -> (r: i32)
    ensures
        r == jalali_month_days(i as int),
{
    if i < 6 {
        31
    } else if i < 11 {
        30
    } else {
        29
    }
}

/// The day number of a Gregorian date.
fn day_count(g_y: i32, g_m: u32, g_d: u32) -> (r: i32)
    requires
        conversion_defined(g_y, g_m, g_d),
    ensures
        r == day_number(g_y, g_m, g_d),
{
    let a = g_y - 1600;
    let mut g_day_no = 365 * a + (a / 4) - (a / 100) + (a / 400);
    let months = (g_m - 1) as usize;
    let mut i: usize = 0;
    while i < months
        invariant
            conversion_defined(g_y, g_m, g_d),
            months == g_m - 1,
            i <= months,
            g_day_no == year_days(g_y as int) + days_before(i as int),
        decreases months - i,
    {
        proof {
            lemma_days_before_grows(i + 1, months as int);
            lemma_days_before_grows(0, i as int);
        }
        g_day_no = g_day_no + gregorian_month_len(i);
        i += 1;
    }
    if g_m > 2 && ((g_y % 4 == 0 && g_y % 100 != 0) || g_y % 400 == 0) {
        g_day_no = g_day_no + 1;
    }
    let day = #[verifier::truncate] (g_d as i32);
    g_day_no + (day - 1)
}

/// The Jalali year, and the day within it, of day number `j` (less 79).
fn year_and_day(j: i32) -> (r: (i32, i32))
    ensures
        (r.0 as int, r.1 as int) == jalali_year_day(j as int),
        -1461 < r.1 < 1461,
{
    let j_np = j / 12053;
    let mut j_day_no = j % 12053;
    let mut j_y = 979 + (33 * j_np) + (4 * (j_day_no / 1461));
    j_day_no = j_day_no % 1461;
    if j_day_no >= 366 {
        j_y = j_y + (j_day_no - 1) / 365;
        j_day_no = (j_day_no - 1) % 365;
    }
    (j_y, j_day_no)
}

/// The Jalali month, from zero, and the days into it, of day `day` of the year.
fn month_and_day(day: i32) -> (r: (usize, i32))
    requires
        -1461 < day < 1461,
    ensures
        (r.0 as int, r.1 as int) == walk_months(day as int, 0),
        r.0 <= 11,
        -1461 < r.1 < 1461,
{
    let mut j_day_no = day;
    let mut j_m: usize = 0;
    while j_m < 11 && j_day_no >= jalali_month_len(j_m)
        invariant
            j_m <= 11,
            -1461 < j_day_no < 1461,
            walk_months(j_day_no as int, j_m as int) == walk_months(day as int, 0),
        decreases 11 - j_m,
    {
        j_day_no = j_day_no - jalali_month_len(j_m);
        j_m += 1;
    }
    (j_m, j_day_no)
}

/// The Jalali year, month and day of the Gregorian date `g_y`-`g_m`-`g_d`.
pub fn gregorian_to_jalali(g_y: i32, g_m: u32, g_d: u32) -> (r: (i32, u32, u32))
    requires
        conversion_defined(g_y, g_m, g_d),
    ensures
        r == jalali_of(g_y, g_m, g_d),
{
    let (j_y, day) = year_and_day(day_count(g_y, g_m, g_d) - 79);
    let (j_m, j_day_no) = month_and_day(day);
    let d = #[verifier::truncate] (j_day_no as u32);
    assert(d < 0xffff_fffe && d + 2 == (j_day_no + 2) as u32) by (bit_vector)
        requires
            d == j_day_no as u32,
            j_day_no != -1i32,
            j_day_no != -2i32,
            j_day_no < 1461i32,
    ;
    (j_y, j_m as u32 + 1, d + 2)
}

} // verus!
