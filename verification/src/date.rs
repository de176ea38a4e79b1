//! Calendar dates as plain values: validity, a linear day numbering of the
//! proleptic Gregorian calendar, parsing of the two supported textual date
//! forms, and the ordering lemma that links calendar order to day numbers.

use vstd::arithmetic::div_mod::{
    lemma_fundamental_div_mod, lemma_fundamental_div_mod_converse_div,
    lemma_fundamental_div_mod_converse_mod, lemma_mod_division_less_than_divisor,
    lemma_mod_multiples_basic,
};
use vstd::prelude::*;

use chrono::Datelike;

verus! {

/// Gregorian leap-year rule.
pub open spec fn is_leap_year(y: int) -> bool {
    (y % 4 == 0 && y % 100 != 0) || y % 400 == 0
}

/// Number of days in month `m` (1..=12) of year `y`.
pub open spec fn days_in_month(y: int, m: int) -> int {
    if m == 2 {
        if is_leap_year(y) {
            29
        } else {
            28
        }
    } else if m == 4 || m == 6 || m == 9 || m == 11 {
        30
    } else {
        31
    }
}

/// The dates this scheduler works with: years 1 through 9999.
pub open spec fn valid_date(y: int, m: int, d: int) -> bool {
    1 <= y <= 9999 && 1 <= m <= 12 && 1 <= d <= days_in_month(y, m)
}

/// A calendar date, held as plain year, month and day values.
pub struct CivilDate {
    pub year: u64,
    pub month: u8,
    pub day: u8,
}

impl CivilDate {
    /// The date is within the supported range and the day exists in its month.
    pub open spec fn wf(self) -> bool {
        valid_date(self.year as int, self.month as int, self.day as int)
    }
}

/// Years counted so that January and February belong to the previous year,
/// putting the leap day at the end of the counting year.
pub open spec fn shifted_year(y: int, m: int) -> int {
    if m <= 2 {
        y - 1
    } else {
        y
    }
}

/// Months renumbered March = 0 through February = 11.
pub open spec fn shifted_month(m: int) -> int {
    if m <= 2 {
        m + 9
    } else {
        m - 3
    }
}

/// Days contributed by all shifted years before `yy`, counting leap days.
pub open spec fn year_days(yy: int) -> int {
    365 * yy + yy / 4 - yy / 100 + yy / 400
}

/// Days contributed by the shifted months before `mm` within one shifted year.
pub open spec fn month_days(mm: int) -> int {
    (153 * mm + 2) / 5
}

/// Linear day number of a date: equal dates get equal numbers, and later
/// dates get strictly larger numbers (`lemma_day_number_increases`).
pub open spec fn civil_day_number(y: int, m: int, d: int) -> int {
    year_days(shifted_year(y, m)) + month_days(shifted_month(m)) + d - 1
}

/// Strict calendar order on (year, month, day) triples.
pub open spec fn date_lt(y1: int, m1: int, d1: int, y2: int, m2: int, d2: int) -> bool {
    y1 < y2 || (y1 == y2 && (m1 < m2 || (m1 == m2 && d1 < d2)))
}

/// Stepping the numerator by one raises a non-negative quotient by one
/// exactly when the new numerator is a multiple of the divisor.
proof fn lemma_div_step(y: int, d: int)
    requires
        y >= 0,
        d >= 1,
    ensures
        (y + 1) / d == y / d + (if (y + 1) % d == 0 {
            1int
        } else {
            0int
        }),
{
    let q = y / d;
    let r = y % d;
    lemma_fundamental_div_mod(y, d);
    lemma_mod_division_less_than_divisor(y, d);
    if r + 1 < d {
        lemma_fundamental_div_mod_converse_div(y + 1, d, q, r + 1);
        lemma_fundamental_div_mod_converse_mod(y + 1, d, q, r + 1);
    } else {
        assert(y + 1 == (q + 1) * d + 0) by (nonlinear_arith)
            requires
                y == q * d + r,
                r + 1 == d,
        ;
        lemma_fundamental_div_mod_converse_div(y + 1, d, q + 1, 0);
        lemma_fundamental_div_mod_converse_mod(y + 1, d, q + 1, 0);
    }
}

/// A multiple of 400 is a multiple of 100, and a multiple of 100 one of 4.
proof fn lemma_divisibility_chain(x: int)
    requires
        x >= 0,
    ensures
        x % 400 == 0 ==> x % 100 == 0,
        x % 100 == 0 ==> x % 4 == 0,
{
    if x % 400 == 0 {
        lemma_fundamental_div_mod(x, 400);
        assert(x == 100 * (4 * (x / 400))) by (nonlinear_arith)
            requires
                x == 400 * (x / 400) + 0,
        ;
        lemma_mod_multiples_basic(4 * (x / 400), 100);
    }
    if x % 100 == 0 {
        lemma_fundamental_div_mod(x, 100);
        assert(x == 4 * (25 * (x / 100))) by (nonlinear_arith)
            requires
                x == 100 * (x / 100) + 0,
        ;
        lemma_mod_multiples_basic(25 * (x / 100), 4);
    }
}

/// One shifted year contributes 365 days, or 366 when it ends in a leap
/// February, i.e. when `yy + 1` is a leap year.
proof fn lemma_year_days_step(yy: int)
    requires
        yy >= 0,
    ensures
        year_days(yy + 1) == year_days(yy) + 365 + (if is_leap_year(yy + 1) {
            1int
        } else {
            0int
        }),
{
    lemma_div_step(yy, 4);
    lemma_div_step(yy, 100);
    lemma_div_step(yy, 400);
    lemma_divisibility_chain(yy + 1);
}

/// `year_days` grows by at least 365 per shifted year.
proof fn lemma_year_days_mono(a: int, b: int)
    requires
        0 <= a <= b,
    ensures
        year_days(a) + 365 * (b - a) <= year_days(b),
    decreases b - a,
{
    if a < b {
        lemma_year_days_mono(a, b - 1);
        lemma_year_days_step(b - 1);
    }
}

/// The twelve partial sums of shifted-month lengths.
proof fn lemma_month_days_values()
    ensures
        month_days(0) == 0,
        month_days(1) == 31,
        month_days(2) == 61,
        month_days(3) == 92,
        month_days(4) == 122,
        month_days(5) == 153,
        month_days(6) == 184,
        month_days(7) == 214,
        month_days(8) == 245,
        month_days(9) == 275,
        month_days(10) == 306,
        month_days(11) == 337,
{
}

/// Strictly later calendar dates have strictly larger day numbers.
pub proof fn lemma_day_number_increases(y1: int, m1: int, d1: int, y2: int, m2: int, d2: int)
    requires
        valid_date(y1, m1, d1),
        valid_date(y2, m2, d2),
        date_lt(y1, m1, d1, y2, m2, d2),
    ensures
        civil_day_number(y1, m1, d1) < civil_day_number(y2, m2, d2),
{
    let yy1 = shifted_year(y1, m1);
    let mm1 = shifted_month(m1);
    let yy2 = shifted_year(y2, m2);
    let mm2 = shifted_month(m2);
    lemma_month_days_values();
    assert(yy1 < yy2 || (yy1 == yy2 && (mm1 < mm2 || (mm1 == mm2 && m1 == m2 && d1 < d2))));
    if yy1 < yy2 {
        // The first date lies at most at the end of shifted year yy1; the
        // second lies at or after the start of shifted year yy2.
        if mm1 == 11 {
            assert(m1 == 2);
            assert(y1 == yy1 + 1);
            lemma_year_days_step(yy1);
            assert(d1 <= 28 + (if is_leap_year(yy1 + 1) {
                1int
            } else {
                0int
            }));
            assert(civil_day_number(y1, m1, d1) < year_days(yy1 + 1));
        } else {
            assert(month_days(mm1) + d1 - 1 <= 336);
            lemma_year_days_step(yy1);
            assert(civil_day_number(y1, m1, d1) < year_days(yy1 + 1));
        }
        lemma_year_days_mono(yy1 + 1, yy2);
        assert(month_days(mm2) >= 0);
        assert(year_days(yy2) <= civil_day_number(y2, m2, d2));
    } else if mm1 < mm2 {
        // Within one shifted year, a valid day never reaches the next
        // month's offset: d1 is at most the length of shifted month mm1.
        assert(d1 <= days_in_month(y1, m1));
        assert(mm1 <= 10);
        assert(month_days(mm1) + d1 <= month_days(mm1 + 1));
        assert(month_days(mm1 + 1) <= month_days(mm2));
    } else {
    }
}

/// ASCII decimal digit.
pub open spec fn is_digit(b: u8) -> bool {
    48 <= b <= 57
}

/// Numeric value of an ASCII digit.
pub open spec fn digit_val(b: u8) -> int {
    b - 48
}

/// Strict ISO `YYYY-MM-DD`: four digits, hyphen, two digits, hyphen, two
/// digits, naming a valid date.
pub open spec fn spec_parse_iso(s: Seq<u8>) -> Option<(int, int, int)> {
    if s.len() == 10 && is_digit(s[0]) && is_digit(s[1]) && is_digit(s[2]) && is_digit(s[3]) && s[4]
        == 45 && is_digit(s[5]) && is_digit(s[6]) && s[7] == 45 && is_digit(s[8]) && is_digit(
        s[9],
    ) {
        let y = 1000 * digit_val(s[0]) + 100 * digit_val(s[1]) + 10 * digit_val(s[2]) + digit_val(
            s[3],
        );
        let m = 10 * digit_val(s[5]) + digit_val(s[6]);
        let d = 10 * digit_val(s[8]) + digit_val(s[9]);
        if valid_date(y, m, d) {
            Some((y, m, d))
        } else {
            None
        }
    } else {
        None
    }
}

/// ASCII upper-case letters folded to lower case; other bytes unchanged.
pub open spec fn to_lower(b: u8) -> u8 {
    if 65 <= b <= 90 {
        (b + 32) as u8
    } else {
        b
    }
}

/// Month number of a three-letter English abbreviation, case-insensitive:
/// jan feb mar apr may jun jul aug sep oct nov dec.
pub open spec fn month_of_abbr(a0: u8, b0: u8, c0: u8) -> Option<int> {
    let a = to_lower(a0);
    let b = to_lower(b0);
    let c = to_lower(c0);
    if a == 106 && b == 97 && c == 110 {
        Some(1int)
    } else if a == 102 && b == 101 && c == 98 {
        Some(2int)
    } else if a == 109 && b == 97 && c == 114 {
        Some(3int)
    } else if a == 97 && b == 112 && c == 114 {
        Some(4int)
    } else if a == 109 && b == 97 && c == 121 {
        Some(5int)
    } else if a == 106 && b == 117 && c == 110 {
        Some(6int)
    } else if a == 106 && b == 117 && c == 108 {
        Some(7int)
    } else if a == 97 && b == 117 && c == 103 {
        Some(8int)
    } else if a == 115 && b == 101 && c == 112 {
        Some(9int)
    } else if a == 111 && b == 99 && c == 116 {
        Some(10int)
    } else if a == 110 && b == 111 && c == 118 {
        Some(11int)
    } else if a == 100 && b == 101 && c == 99 {
        Some(12int)
    } else {
        None
    }
}

/// Short `D-Mon` / `DD-Mon` start-date form: one or two digits of day, a
/// hyphen, and a three-letter month abbreviation; the year is assumed.
pub open spec fn spec_parse_short(s: Seq<u8>, year: int) -> Option<(int, int, int)> {
    if !(1 <= year <= 9999) {
        None
    } else if s.len() == 5 && is_digit(s[0]) && s[1] == 45 {
        match month_of_abbr(s[2], s[3], s[4]) {
            Some(m) => {
                let d = digit_val(s[0]);
                if valid_date(year, m, d) {
                    Some((year, m, d))
                } else {
                    None
                }
            },
            None => None,
        }
    } else if s.len() == 6 && is_digit(s[0]) && is_digit(s[1]) && s[2] == 45 {
        match month_of_abbr(s[3], s[4], s[5]) {
            Some(m) => {
                let d = 10 * digit_val(s[0]) + digit_val(s[1]);
                if valid_date(year, m, d) {
                    Some((year, m, d))
                } else {
                    None
                }
            },
            None => None,
        }
    } else {
        None
    }
}

/// Does the byte occur in the sequence?
pub open spec fn contains_byte(s: Seq<u8>, b: u8) -> bool {
    exists|i: int| 0 <= i < s.len() && s[i] == b
}

/// A start date is read in the short day-month form exactly when it holds a
/// hyphen and is at most six bytes long; otherwise it is read as ISO.
pub open spec fn uses_short_form(s: Seq<u8>) -> bool {
    s.len() <= 6 && contains_byte(s, 45)
}

/// How an account start date parses: short form with the assumed year where
/// selected, strict ISO otherwise.
pub open spec fn spec_parse_start_date(s: Seq<u8>, year: int) -> Option<(int, int, int)> {
    if uses_short_form(s) {
        spec_parse_short(s, year)
    } else {
        spec_parse_iso(s)
    }
}

/// Leap-year test on a plain year value.
pub fn is_leap_year_exec(y: u64) -> (b: bool)
    ensures
        b == is_leap_year(y as int),
{
    (y % 4 == 0 && y % 100 != 0) || y % 400 == 0
}

/// Number of days in month `m` of year `y`.
pub fn days_in_month_exec(y: u64, m: u8) -> (n: u8)
    requires
        1 <= m <= 12,
    ensures
        n == days_in_month(y as int, m as int),
{
    if m == 2 {
        if is_leap_year_exec(y) {
            29
        } else {
            28
        }
    } else if m == 4 || m == 6 || m == 9 || m == 11 {
        30
    } else {
        31
    }
}

impl CivilDate {
    /// Construct a date after checking validity.
    pub fn checked(year: u64, month: u8, day: u8) -> (r: Option<CivilDate>)
        ensures
            match r {
                Some(date) => valid_date(year as int, month as int, day as int) && date
                    == (CivilDate { year, month, day }),
                None => !valid_date(year as int, month as int, day as int),
            },
    {
        if 1 <= year && year <= 9999 && 1 <= month && month <= 12 && 1 <= day && day
            <= days_in_month_exec(year, month) {
            Some(CivilDate { year, month, day })
        } else {
            None
        }
    }

    /// The date's linear day number.
    pub fn day_number(&self) -> (n: u64)
        requires
            self.wf(),
        ensures
            n == civil_day_number(self.year as int, self.month as int, self.day as int),
            n < 4000000,
    {
        let yy: u64 = if self.month <= 2 {
            self.year - 1
        } else {
            self.year
        };
        let mm: u64 = if self.month <= 2 {
            self.month as u64 + 9
        } else {
            self.month as u64 - 3
        };
        let yd: u64 = 365 * yy + yy / 4 - yy / 100 + yy / 400;
        proof {
            assert(yy / 100 <= yy / 4) by {
                vstd::arithmetic::div_mod::lemma_div_is_ordered_by_denominator(yy as int, 4, 100);
            }
            assert(yy / 4 <= yy / 1) by {
                vstd::arithmetic::div_mod::lemma_div_is_ordered_by_denominator(yy as int, 1, 4);
            }
        }
        let md: u64 = (153 * mm + 2) / 5;
        yd + md + (self.day as u64) - 1
    }
}

/// Strict ISO `YYYY-MM-DD` parse of a byte string.
pub fn parse_iso_date(s: &[u8]) -> (r: Option<CivilDate>)
    ensures
        match r {
            Some(date) => {
                &&& spec_parse_iso(s@) == Some(
                    (date.year as int, date.month as int, date.day as int),
                )
                &&& date.wf()
            },
            None => spec_parse_iso(s@) is None,
        },
{
    if s.len() != 10 {
        return None;
    }
    let ok = is_digit_exec(s[0]) && is_digit_exec(s[1]) && is_digit_exec(s[2]) && is_digit_exec(
        s[3],
    ) && s[4] == 45 && is_digit_exec(s[5]) && is_digit_exec(s[6]) && s[7] == 45 && is_digit_exec(
        s[8],
    ) && is_digit_exec(s[9]);
    if !ok {
        return None;
    }
    let y: u64 = 1000 * digit_exec(s[0]) + 100 * digit_exec(s[1]) + 10 * digit_exec(s[2])
        + digit_exec(s[3]);
    let m: u8 = (10 * digit_exec(s[5]) + digit_exec(s[6])) as u8;
    let d: u8 = (10 * digit_exec(s[8]) + digit_exec(s[9])) as u8;
    CivilDate::checked(y, m, d)
}

/// ASCII decimal digit test.
fn is_digit_exec(b: u8) -> (r: bool)
    ensures
        r == is_digit(b),
{
    48 <= b && b <= 57
}

/// Numeric value of an ASCII digit.
fn digit_exec(b: u8) -> (v: u64)
    requires
        is_digit(b),
    ensures
        v == digit_val(b),
        v <= 9,
{
    (b - 48) as u64
}

/// ASCII lower-casing of one byte.
fn to_lower_exec(b: u8) -> (r: u8)
    ensures
        r == to_lower(b),
{
    if 65 <= b && b <= 90 {
        b + 32
    } else {
        b
    }
}

/// Month number of a three-letter abbreviation, case-insensitive.
fn month_of_abbr_exec(a0: u8, b0: u8, c0: u8) -> (r: Option<u8>)
    ensures
        match r {
            Some(m) => month_of_abbr(a0, b0, c0) == Some(m as int) && 1 <= m <= 12,
            None => month_of_abbr(a0, b0, c0) is None,
        },
{
    let a = to_lower_exec(a0);
    let b = to_lower_exec(b0);
    let c = to_lower_exec(c0);
    if a == 106 && b == 97 && c == 110 {
        Some(1)
    } else if a == 102 && b == 101 && c == 98 {
        Some(2)
    } else if a == 109 && b == 97 && c == 114 {
        Some(3)
    } else if a == 97 && b == 112 && c == 114 {
        Some(4)
    } else if a == 109 && b == 97 && c == 121 {
        Some(5)
    } else if a == 106 && b == 117 && c == 110 {
        Some(6)
    } else if a == 106 && b == 117 && c == 108 {
        Some(7)
    } else if a == 97 && b == 117 && c == 103 {
        Some(8)
    } else if a == 115 && b == 101 && c == 112 {
        Some(9)
    } else if a == 111 && b == 99 && c == 116 {
        Some(10)
    } else if a == 110 && b == 111 && c == 118 {
        Some(11)
    } else if a == 100 && b == 101 && c == 99 {
        Some(12)
    } else {
        None
    }
}

/// Short `D-Mon` / `DD-Mon` parse, with `year` as the assumed year.
pub fn parse_short_date(s: &[u8], year: i64) -> (r: Option<CivilDate>)
    ensures
        match r {
            Some(date) => {
                &&& spec_parse_short(s@, year as int) == Some(
                    (date.year as int, date.month as int, date.day as int),
                )
                &&& date.wf()
            },
            None => spec_parse_short(s@, year as int) is None,
        },
{
    if !(1 <= year && year <= 9999) {
        return None;
    }
    let y: u64 = year as u64;
    if s.len() == 5 {
        if !(is_digit_exec(s[0]) && s[1] == 45) {
            return None;
        }
        match month_of_abbr_exec(s[2], s[3], s[4]) {
            Some(m) => {
                let d: u8 = digit_exec(s[0]) as u8;
                CivilDate::checked(y, m, d)
            },
            None => None,
        }
    } else if s.len() == 6 {
        if !(is_digit_exec(s[0]) && is_digit_exec(s[1]) && s[2] == 45) {
            return None;
        }
        match month_of_abbr_exec(s[3], s[4], s[5]) {
            Some(m) => {
                let d: u8 = (10 * digit_exec(s[0]) + digit_exec(s[1])) as u8;
                CivilDate::checked(y, m, d)
            },
            None => None,
        }
    } else {
        None
    }
}

/// Is the hyphen byte anywhere in the slice?
fn contains_hyphen(s: &[u8]) -> (r: bool)
    ensures
        r == contains_byte(s@, 45),
{
    let mut i: usize = 0;
    while i < s.len()
        invariant
            0 <= i <= s@.len(),
            forall|j: int| 0 <= j < i ==> s@[j] != 45,
        decreases s@.len() - i,
    {
        if s[i] == 45 {
            return true;
        }
        i += 1;
    }
    false
}

/// Parse an account start date: the short day-month form (with `year`
/// assumed) when the text holds a hyphen and is at most six bytes, strict
/// ISO otherwise.
pub fn parse_start_date(s: &[u8], year: i64) -> (r: Option<CivilDate>)
    ensures
        match r {
            Some(date) => {
                &&& spec_parse_start_date(s@, year as int) == Some(
                    (date.year as int, date.month as int, date.day as int),
                )
                &&& date.wf()
            },
            None => spec_parse_start_date(s@, year as int) is None,
        },
{
    if s.len() <= 6 && contains_hyphen(s) {
        parse_short_date(s, year)
    } else {
        parse_iso_date(s)
    }
}

/// Relies on chrono's `Utc::now` and `Datelike::year` for the current UTC
/// year. `Utc::now` panics only when the system clock is before the Unix
/// epoch, so the year is at least 1970; chrono's calendar ends at year
/// 262142, so it is at most that.
#[verifier::external_body]
pub(crate) fn current_utc_year() -> (y: i64)
    ensures
        1970 <= y <= 262142,
{
    chrono::Utc::now().year() as i64
}

} // verus!
