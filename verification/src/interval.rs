//! Recurrence intervals: a whole number of days or of weeks. The text
//! encoding is a one-character unit tag (`D`/`d` or `W`/`w`) immediately
//! followed by a non-negative amount. Formatting is asymmetric by design: an
//! interval whose whole-week count exceeds one is written `W<weeks>`, anything
//! else `D<days>`, so exactly one week comes out as `D7`, never `W1`. The
//! threshold is strictly greater than one, kept for compatibility with
//! existing stored text.

use vstd::prelude::*;

use crate::digits::dec_str;
use crate::digits::lemma_dec_str_val;
use crate::digits::parse_num_spec;
use crate::digits::parse_number;
use crate::digits::u32_dec_string;
use crate::result::Error;
use crate::result::parse_err;

verus! {

#[derive(Clone, Copy, Debug, PartialEq, Eq, Structural)]
pub enum Interval {
    Days(u32),
    Weeks(u32),
}

/// The magnitude of an interval as a day count.
pub open spec fn interval_days(iv: Interval) -> int {
    match iv {
        Interval::Days(n) => n as int,
        Interval::Weeks(n) => 7 * n as int,
    }
}

impl Interval {
    pub fn num_days(&self) -> (r: u64)
        ensures
            r as int == interval_days(*self),
    {
        match self {
            Interval::Days(n) => *n as u64,
            Interval::Weeks(n) => 7 * (*n as u64),
        }
    }
}

/// What `parse_duration` accepts: a unit tag `D`/`d` (days) or `W`/`w`
/// (weeks), immediately followed by a non-negative decimal amount.
pub open spec fn parse_duration_spec(s: Seq<char>) -> Option<Interval> {
    if s.len() == 0 {
        Option::None
    } else {
        match parse_num_spec(s.subrange(1, s.len() as int)) {
            Option::None => Option::None,
            Option::Some(n) => {
                let u = s[0];
                if u == 'd' || u == 'D' {
                    Option::Some(Interval::Days(n))
                } else if u == 'w' || u == 'W' {
                    Option::Some(Interval::Weeks(n))
                } else {
                    Option::None
                }
            },
        }
    }
}

/// Parses a duration token. Fails on empty input, a non-numeric amount, or an
/// unrecognized unit tag.
pub fn parse_duration(s: &str) -> (r: Result<Interval, Error>)
    ensures
        match parse_duration_spec(s@) {
            Option::Some(iv) => r == Result::<Interval, Error>::Ok(iv),
            Option::None => r matches Err(Error::Parse(_)),
        },
{
    let n = s.unicode_len();
    if n == 0 {
        return Err(parse_err(s));
    }
    let amount = match parse_number(s.substring_char(1, n)) {
        Some(v) => v,
        None => {
            return Err(parse_err(s));
        },
    };
    let u = s.get_char(0);
    if u == 'd' || u == 'D' {
        Ok(Interval::Days(amount))
    } else if u == 'w' || u == 'W' {
        Ok(Interval::Weeks(amount))
    } else {
        Err(parse_err(s))
    }
}

/// The canonical text of an interval: `W<weeks>` when the whole-week count is
/// strictly greater than one, else `D<days>`.
pub open spec fn format_duration_spec(iv: Interval) -> Seq<char> {
    let d = interval_days(iv);
    let w = d / 7;
    if w > 1 {
        seq!['W'] + dec_str(w)
    } else {
        seq!['D'] + dec_str(d)
    }
}

pub fn format_duration(iv: &Interval) -> (r: String)
    ensures
        r@ == format_duration_spec(*iv),
{
    proof {
        reveal_strlit("W");
        reveal_strlit("D");
    }
    let d: u64 = iv.num_days();
    let w: u64 = d / 7;
    if w > 1 {
        assert(w <= u32::MAX);
        let mut r = String::from_str("W");
        let ws = u32_dec_string(w as u32);
        r.append(ws.as_str());
        proof {
            assert(r@ =~= format_duration_spec(*iv));
        }
        r
    } else {
        assert(d <= 13);
        let mut r = String::from_str("D");
        let ds = u32_dec_string(d as u32);
        r.append(ds.as_str());
        proof {
            assert(r@ =~= format_duration_spec(*iv));
        }
        r
    }
}

/// Formatting then parsing a duration is accepted again and preserves the
/// magnitude whenever the day count is a whole number of weeks or lies below
/// the two-week formatting threshold; the unit tag itself may change (one
/// week, for instance, is written `D7` and read back as a seven-day
/// interval). A day count above one week that is not a whole multiple of
/// seven is truncated to whole weeks by the formatter, so it is left out
/// here.
pub proof fn lemma_duration_round_trip(iv: Interval)
    requires
        interval_days(iv) % 7 == 0 || interval_days(iv) / 7 <= 1,
    ensures
        parse_duration_spec(format_duration_spec(iv)) is Some,
        interval_days(parse_duration_spec(format_duration_spec(iv)).unwrap()) == interval_days(
            iv,
        ),
{
    let d = interval_days(iv);
    let w = d / 7;
    assert(0 <= d <= 7 * 0xffff_ffff);
    if w > 1 {
        let body = dec_str(w);
        lemma_dec_str_val(w);
        let s = seq!['W'] + body;
        assert(s.subrange(1, s.len() as int) =~= body);
        assert(s[0] == 'W');
        assert(w <= u32::MAX);
        assert(parse_num_spec(body) == Option::Some(w as u32));
        assert(parse_duration_spec(s) == Option::Some(Interval::Weeks(w as u32)));
        assert(d % 7 == 0);
        assert(7 * w == d);
    } else {
        let body = dec_str(d);
        lemma_dec_str_val(d);
        let s = seq!['D'] + body;
        assert(s.subrange(1, s.len() as int) =~= body);
        assert(s[0] == 'D');
        assert(d <= 13);
        assert(parse_num_spec(body) == Option::Some(d as u32));
        assert(parse_duration_spec(s) == Option::Some(Interval::Days(d as u32)));
    }
}

} // verus!
