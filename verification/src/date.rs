//! Calendar dates. A date is a plain year/month/day triple in the proleptic
//! Gregorian calendar; the text encoding is `D.M.YYYY` (day, month, year,
//! separated by literal dots, no zero-padding required). Chronological order
//! is captured by a day number, so that "date minus a number of days" becomes
//! integer arithmetic.

use vstd::prelude::*;

use crate::digits::dec_str;
use crate::digits::is_digit;
use crate::digits::lemma_dec_str_val;
use crate::digits::parse_num_spec;
use crate::digits::parse_number;
use crate::digits::u32_dec_string;
use crate::result::Error;
use crate::result::parse_err;

verus! {

#[derive(Clone, Copy, Debug, PartialEq, Eq, Structural)]
pub struct Date {
    pub year: i32,
    pub month: u32,
    pub day: u32,
}

pub open spec fn is_leap_year(y: int) -> bool {
    (y % 4 == 0 && y % 100 != 0) || y % 400 == 0
}

pub open spec fn days_in_month(y: int, m: int) -> int {
    if m == 2 {
        if is_leap_year(y) {
            29
        } else {
            28
        }
    } else if m == 4 || m == 6 || m == 9 || m == 11 {
        30
    } else {
        31
    }
}

/// A syntactically valid calendar date. The year is unconstrained: future
/// dates are permitted, the record keeps what was entered.
pub open spec fn valid_date(d: Date) -> bool {
    &&& 1 <= d.month <= 12
    &&& 1 <= d.day <= days_in_month(d.year as int, d.month as int)
}

/// The rank of a date in chronological order: consecutive calendar days have
/// consecutive day numbers. The year is shifted by a multiple of 400 so every
/// intermediate quantity stays non-negative; only differences of day numbers
/// are meaningful.
pub open spec fn day_number(d: Date) -> int {
    let m = d.month as int;
    let y = (if m <= 2 {
        d.year as int - 1
    } else {
        d.year as int
    }) + 2147484000;
    let era = y / 400;
    let yoe = y % 400;
    let mp = if m <= 2 {
        m + 9
    } else {
        m - 3
    };
    let doy = (153 * mp + 2) / 5 + d.day as int - 1;
    let doe = yoe * 365 + yoe / 4 - yoe / 100 + doy;
    era * 146097 + doe
}

pub fn date_day_number(d: &Date) -> (n: i64)
    requires
        valid_date(*d),
    ensures
        n as int == day_number(*d),
        0 <= n < 0x8000_0000_0000,
{
    let m: u64 = d.month as u64;
    let yraw: i64 = if m <= 2 {
        d.year as i64 - 1
    } else {
        d.year as i64
    };
    let y: u64 = (yraw + 2147484000) as u64;
    let era: u64 = y / 400;
    let yoe: u64 = y % 400;
    let mp: u64 = if m <= 2 {
        m + 9
    } else {
        m - 3
    };
    let doy: u64 = (153 * mp + 2) / 5 + (d.day as u64) - 1;
    let doe: u64 = yoe * 365 + yoe / 4 - yoe / 100 + doy;
    let n: u64 = era * 146097 + doe;
    n as i64
}

/// The calendar day after `d`.
pub open spec fn next_day(d: Date) -> Date {
    if d.day < days_in_month(d.year as int, d.month as int) {
        Date { year: d.year, month: d.month, day: (d.day + 1) as u32 }
    } else if d.month < 12 {
        Date { year: d.year, month: (d.month + 1) as u32, day: 1 }
    } else {
        Date { year: (d.year + 1) as i32, month: 1, day: 1 }
    }
}

/// The day number walks the calendar one step at a time: the next calendar
/// day has the next day number, across month and year ends and leap days
/// alike. This is what makes "date minus a number of days" the same thing as
/// day-number arithmetic.
pub proof fn lemma_day_number_next(d: Date)
    requires
        valid_date(d),
        d.year < 0x7fff_ffff,
    ensures
        valid_date(next_day(d)),
        day_number(next_day(d)) == day_number(d) + 1,
{
    let dim = days_in_month(d.year as int, d.month as int);
    if d.day < dim {
    } else if d.month == 2 {
        let yp = d.year as int - 1 + 2147484000;
        let ys = yp + 1;
        let era = yp / 400;
        let yoe = yp % 400;
        assert(yp == 400 * era + yoe);
        assert(0 <= yoe < 400);
        if yoe == 399 {
            assert(ys / 400 == era + 1 && ys % 400 == 0) by (nonlinear_arith)
                requires
                    ys == 400 * era + 400,
            ;
            assert(ys % 400 == 0 ==> ys % 4 == 0 && ys % 100 == 0) by (nonlinear_arith);
            assert((d.year as int) % 400 == ys % 400) by (nonlinear_arith)
                requires
                    d.year as int == ys - 2147484000,
            ;
            assert(is_leap_year(d.year as int));
        } else {
            assert(ys / 400 == era && ys % 400 == yoe + 1) by (nonlinear_arith)
                requires
                    ys == 400 * era + yoe + 1 && 0 <= yoe + 1 < 400,
            ;
            assert((d.year as int) % 4 == ys % 4) by (nonlinear_arith)
                requires
                    d.year as int == ys - 2147484000,
            ;
            assert((d.year as int) % 100 == ys % 100) by (nonlinear_arith)
                requires
                    d.year as int == ys - 2147484000,
            ;
            assert((d.year as int) % 400 == ys % 400) by (nonlinear_arith)
                requires
                    d.year as int == ys - 2147484000,
            ;
            assert(ys % 4 == (yoe + 1) % 4 && ys % 100 == (yoe + 1) % 100) by (nonlinear_arith)
                requires
                    ys == 400 * era + yoe + 1 && 0 <= yoe + 1 < 400,
            ;
            assert((yoe + 1) % 100 == 0 ==> (yoe + 1) % 4 == 0) by (nonlinear_arith);
            assert((yoe + 1) % 4 == 0 ==> (yoe + 1) / 4 - yoe / 4 == 1) by (nonlinear_arith)
                requires
                    0 <= yoe,
            ;
            assert((yoe + 1) % 4 != 0 ==> (yoe + 1) / 4 - yoe / 4 == 0) by (nonlinear_arith)
                requires
                    0 <= yoe,
            ;
            assert((yoe + 1) % 100 == 0 ==> (yoe + 1) / 100 - yoe / 100 == 1) by (nonlinear_arith)
                requires
                    0 <= yoe,
            ;
            assert((yoe + 1) % 100 != 0 ==> (yoe + 1) / 100 - yoe / 100 == 0) by (nonlinear_arith)
                requires
                    0 <= yoe,
            ;
        }
    }
}

/// The index of the first dot at or after `from`, if any.
pub open spec fn find_dot_spec(s: Seq<char>, from: int) -> Option<int>
    decreases s.len() - from,
{
    if from < 0 || from >= s.len() {
        Option::None
    } else if s[from] == '.' {
        Option::Some(from)
    } else {
        find_dot_spec(s, from + 1)
    }
}

fn find_dot(s: &str, from: usize) -> (r: Option<usize>)
    requires
        from <= s@.len(),
    ensures
        match r {
            Option::Some(k) => find_dot_spec(s@, from as int) == Option::Some(k as int)
                && from <= k < s@.len(),
            Option::None => find_dot_spec(s@, from as int) is None,
        },
{
    let n = s.unicode_len();
    let mut i = from;
    while i < n
        invariant
            from <= i <= n == s@.len(),
            find_dot_spec(s@, from as int) == find_dot_spec(s@, i as int),
        decreases n - i,
    {
        let c = s.get_char(i);
        if c == '.' {
            return Some(i);
        }
        i = i + 1;
    }
    None
}

/// What `parse_date` accepts: exactly three dot-separated segments in
/// day-month-year order, each a non-empty digit string, the year within `i32`,
/// the whole a valid calendar date.
pub open spec fn parse_date_spec(s: Seq<char>) -> Option<Date> {
    match find_dot_spec(s, 0) {
        Option::None => Option::None,
        Option::Some(i) => match find_dot_spec(s, i + 1) {
            Option::None => Option::None,
            Option::Some(j) => {
                if find_dot_spec(s, j + 1) is Some {
                    Option::None
                } else {
                    let day = parse_num_spec(s.subrange(0, i));
                    let mon = parse_num_spec(s.subrange(i + 1, j));
                    let yr = parse_num_spec(s.subrange(j + 1, s.len() as int));
                    if day is Some && mon is Some && yr is Some && yr.unwrap() <= i32::MAX as u32 {
                        let d = Date {
                            year: yr.unwrap() as i32,
                            month: mon.unwrap(),
                            day: day.unwrap(),
                        };
                        if valid_date(d) {
                            Option::Some(d)
                        } else {
                            Option::None
                        }
                    } else {
                        Option::None
                    }
                }
            },
        },
    }
}

fn days_in_month_exec(y: i32, m: u32) -> (r: u32)
    requires
        1 <= m <= 12,
    ensures
        r as int == days_in_month(y as int, m as int),
{
    if m == 2 {
        if (y % 4 == 0 && y % 100 != 0) || y % 400 == 0 {
            29
        } else {
            28
        }
    } else if m == 4 || m == 6 || m == 9 || m == 11 {
        30
    } else {
        31
    }
}

/// Whether the triple of fields forms a valid calendar date.
pub fn date_is_valid(d: &Date) -> (r: bool)
    ensures
        r == valid_date(*d),
{
    1 <= d.month && d.month <= 12 && 1 <= d.day && d.day <= days_in_month_exec(d.year, d.month)
}

/// Parses `D.M.YYYY`. Fails when segments are missing or extra, when one is
/// empty or non-numeric, or when the three numbers do not form a valid
/// calendar date.
pub fn parse_date(s: &str) -> (r: Result<Date, Error>)
    ensures
        match parse_date_spec(s@) {
            Option::Some(d) => r == Result::<Date, Error>::Ok(d),
            Option::None => r matches Err(Error::Parse(_)),
        },
{
    let n = s.unicode_len();
    let i = match find_dot(s, 0) {
        Some(i) => i,
        None => {
            return Err(parse_err(s));
        },
    };
    assert(i < n);
    let j = match find_dot(s, i + 1) {
        Some(j) => j,
        None => {
            return Err(parse_err(s));
        },
    };
    assert(j < n);
    if let Some(_) = find_dot(s, j + 1) {
        return Err(parse_err(s));
    }
    let day_part = s.substring_char(0, i);
    let mon_part = s.substring_char(i + 1, j);
    let yr_part = s.substring_char(j + 1, n);
    let day = match parse_number(day_part) {
        Some(v) => v,
        None => {
            return Err(parse_err(s));
        },
    };
    let mon = match parse_number(mon_part) {
        Some(v) => v,
        None => {
            return Err(parse_err(s));
        },
    };
    let yr = match parse_number(yr_part) {
        Some(v) => v,
        None => {
            return Err(parse_err(s));
        },
    };
    if yr > i32::MAX as u32 {
        return Err(parse_err(s));
    }
    let d = Date { year: yr as i32, month: mon, day: day };
    if 1 <= mon && mon <= 12 && 1 <= day && day <= days_in_month_exec(d.year, mon) {
        Ok(d)
    } else {
        Err(parse_err(s))
    }
}

proof fn lemma_find_dot_at(s: Seq<char>, from: int, k: int)
    requires
        0 <= from <= k < s.len(),
        s[k] == '.',
        forall|t: int| from <= t < k ==> s[t] != '.',
    ensures
        find_dot_spec(s, from) == Option::Some(k),
    decreases k - from,
{
    if from < k {
        lemma_find_dot_at(s, from + 1, k);
    }
}

proof fn lemma_find_dot_none(s: Seq<char>, from: int)
    requires
        0 <= from,
        forall|t: int| from <= t < s.len() ==> s[t] != '.',
    ensures
        find_dot_spec(s, from) is None,
    decreases s.len() - from,
{
    if from < s.len() {
        lemma_find_dot_none(s, from + 1);
    }
}

/// Parsing reads back exactly what formatting wrote: for a valid date with a
/// non-negative year, the text `format_date` produces is accepted by
/// `parse_date` and yields the same day, month and year again.
pub proof fn lemma_date_round_trip(d: Date)
    requires
        valid_date(d),
        0 <= d.year,
    ensures
        parse_date_spec(format_date_spec(d)) == Option::Some(d),
{
    let a = dec_str(d.day as int);
    let b = dec_str(d.month as int);
    let c = dec_str(d.year as int);
    lemma_dec_str_val(d.day as int);
    lemma_dec_str_val(d.month as int);
    lemma_dec_str_val(d.year as int);
    let s = format_date_spec(d);
    let i = a.len() as int;
    let j = a.len() as int + 1 + b.len() as int;
    assert(s == a + seq!['.'] + b + seq!['.'] + c);
    assert(s.len() == a.len() + b.len() + c.len() + 2);
    assert(forall|t: int| 0 <= t < a.len() ==> s[t] == a[t]);
    assert(s[i] == '.');
    assert(forall|t: int| 0 <= t < b.len() ==> s[i + 1 + t] == b[t]);
    assert(s[j] == '.');
    assert(forall|t: int| 0 <= t < c.len() ==> s[j + 1 + t] == c[t]);
    assert(forall|t: int| 0 <= t < i ==> s[t] != '.') by {
        assert(forall|t: int| 0 <= t < i ==> is_digit(#[trigger] s[t]));
    }
    assert(forall|t: int| i + 1 <= t < j ==> s[t] != '.') by {
        assert(forall|t: int| i + 1 <= t < j ==> is_digit(#[trigger] s[t]));
    }
    assert(forall|t: int| j + 1 <= t < s.len() ==> s[t] != '.') by {
        assert(forall|t: int| j + 1 <= t < s.len() ==> is_digit(#[trigger] s[t]));
    }
    lemma_find_dot_at(s, 0, i);
    lemma_find_dot_at(s, i + 1, j);
    lemma_find_dot_none(s, j + 1);
    assert(s.subrange(0, i) =~= a);
    assert(s.subrange(i + 1, j) =~= b);
    assert(s.subrange(j + 1, s.len() as int) =~= c);
    assert(parse_num_spec(a) == Option::Some(d.day));
    assert(parse_num_spec(b) == Option::Some(d.month));
    assert(parse_num_spec(c) == Option::Some(d.year as u32));
    assert((d.year as u32) as i32 == d.year);
}

/// The rendering of a (possibly negative) year.
pub open spec fn int_str(n: int) -> Seq<char> {
    if n < 0 {
        seq!['-'] + dec_str(-n)
    } else {
        dec_str(n)
    }
}

/// The canonical text of a date: `day.month.year`, no zero-padding.
pub open spec fn format_date_spec(d: Date) -> Seq<char> {
    dec_str(d.day as int) + seq!['.'] + dec_str(d.month as int) + seq!['.'] + int_str(d.year as int)
}

pub fn format_date(d: &Date) -> (r: String)
    ensures
        r@ == format_date_spec(*d),
{
    proof {
        reveal_strlit(".");
        reveal_strlit("-");
    }
    let mut r = u32_dec_string(d.day);
    r.append(".");
    let mon = u32_dec_string(d.month);
    r.append(mon.as_str());
    r.append(".");
    if d.year < 0 {
        r.append("-");
        let mag = ((-(d.year as i64)) as u32);
        let y = u32_dec_string(mag);
        r.append(y.as_str());
        proof {
            assert(r@ =~= format_date_spec(*d));
        }
    } else {
        let y = u32_dec_string(d.year as u32);
        r.append(y.as_str());
        proof {
            assert(r@ =~= format_date_spec(*d));
        }
    }
    r
}

} // verus!
