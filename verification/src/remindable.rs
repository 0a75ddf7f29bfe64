//! The domain entity: a recurring task with an identity, a description, the
//! date it was last done, and a recurrence interval. A task is to-do exactly
//! when today minus the interval lies strictly after the last-done date, so
//! it becomes due the day after `last_update + remind_interval`, not on that
//! day itself.

use vstd::prelude::*;

use chrono::Datelike;

use crate::date::Date;
use crate::date::date_day_number;
use crate::date::day_number;
use crate::date::format_date;
use crate::date::format_date_spec;
use crate::date::parse_date;
use crate::date::parse_date_spec;
use crate::date::valid_date;
use crate::interval::Interval;
use crate::interval::format_duration;
use crate::interval::format_duration_spec;
use crate::interval::interval_days;
use crate::interval::parse_duration;
use crate::interval::parse_duration_spec;
use crate::result::Error;

verus! {

pub struct Remindable {
    pub key: String,
    pub name: String,
    pub last_update: Date,
    pub remind_interval: Interval,
}

/// Overdue on a given day: today minus the interval lies strictly after the
/// last-done date, in chronological (day-number) order.
pub open spec fn is_todo_spec(r: Remindable, today: Date) -> bool {
    day_number(today) - interval_days(r.remind_interval) > day_number(r.last_update)
}

/// Relies on chrono's `Local::now` and `NaiveDate`'s `year`/`month`/`day`
/// accessors for the current local calendar day; chrono hands back a valid
/// proleptic Gregorian date.
#[verifier::external_body]
fn today_date() -> (d: Date)
    ensures
        valid_date(d),
{
    let now = chrono::Local::now().date_naive();
    Date { year: now.year(), month: now.month(), day: now.day() }
}

impl Remindable {
    /// Builds a task from its stored text fields, re-parsing the date and the
    /// interval; fails with the codec's parse error on malformed input.
    pub fn from_strings(
        key: String,
        name: String,
        last_update: String,
        remind_interval: String,
    ) -> (r: Result<Self, Error>)
        ensures
            match (parse_date_spec(last_update@), parse_duration_spec(remind_interval@)) {
                (Option::Some(d), Option::Some(iv)) => r matches Ok(rem) && rem.key@ == key@
                    && rem.name@ == name@ && rem.last_update == d && rem.remind_interval == iv,
                _ => r matches Err(Error::Parse(_)),
            },
    {
        let lu = match parse_date(last_update.as_str()) {
            Ok(d) => d,
            Err(e) => {
                return Err(e);
            },
        };
        let ri = match parse_duration(remind_interval.as_str()) {
            Ok(v) => v,
            Err(e) => {
                return Err(e);
            },
        };
        Ok(Remindable { key, name, last_update: lu, remind_interval: ri })
    }

    /// Whether the task is overdue on the given day; the strict inequality
    /// makes it due the day after `last_update + remind_interval`.
    pub fn is_todo_on(&self, today: &Date) -> (r: bool)
        requires
            valid_date(self.last_update),
            valid_date(*today),
        ensures
            r == is_todo_spec(*self, *today),
    {
        let t = date_day_number(today);
        let l = date_day_number(&self.last_update);
        let iv = self.remind_interval.num_days();
        t - (iv as i64) > l
    }

    /// Whether the task is overdue now, judged against the current local
    /// calendar day.
    pub fn is_todo(&self) -> (r: bool)
        requires
            valid_date(self.last_update),
        ensures
            exists|t: Date| valid_date(t) && r == is_todo_spec(*self, t),
    {
        let t = today_date();
        let r = self.is_todo_on(&t);
        proof {
            assert(valid_date(t) && r == is_todo_spec(*self, t));
        }
        r
    }

    /// Sets the last-done date to the current local calendar day; the key,
    /// the name and the interval are untouched.
    pub fn set_done_today(&mut self)
        ensures
            final(self).key == old(self).key,
            final(self).name == old(self).name,
            final(self).remind_interval == old(self).remind_interval,
            valid_date(final(self).last_update),
    {
        self.last_update = today_date();
    }

    /// Re-parses and replaces the last-done date; on malformed input the
    /// task is left unchanged.
    pub fn set_last_update(&mut self, value: String) -> (r: Result<(), Error>)
        ensures
            match parse_date_spec(value@) {
                Option::Some(d) => {
                    &&& r is Ok
                    &&& final(self).last_update == d
                    &&& final(self).key == old(self).key
                    &&& final(self).name == old(self).name
                    &&& final(self).remind_interval == old(self).remind_interval
                },
                Option::None => r matches Err(Error::Parse(_)) && *final(self) == *old(self),
            },
    {
        match parse_date(value.as_str()) {
            Ok(d) => {
                self.last_update = d;
                Ok(())
            },
            Err(e) => Err(e),
        }
    }

    /// Re-parses and replaces the recurrence interval; on malformed input the
    /// task is left unchanged.
    pub fn set_remind_interval(&mut self, value: String) -> (r: Result<(), Error>)
        ensures
            match parse_duration_spec(value@) {
                Option::Some(iv) => {
                    &&& r is Ok
                    &&& final(self).remind_interval == iv
                    &&& final(self).key == old(self).key
                    &&& final(self).name == old(self).name
                    &&& final(self).last_update == old(self).last_update
                },
                Option::None => r matches Err(Error::Parse(_)) && *final(self) == *old(self),
            },
    {
        match parse_duration(value.as_str()) {
            Ok(iv) => {
                self.remind_interval = iv;
                Ok(())
            },
            Err(e) => Err(e),
        }
    }

    /// The stored text of the last-done date.
    pub fn get_last_update_string(&self) -> (r: String)
        ensures
            r@ == format_date_spec(self.last_update),
    {
        format_date(&self.last_update)
    }

    /// The stored text of the recurrence interval.
    pub fn get_remind_interval_string(&self) -> (r: String)
        ensures
            r@ == format_duration_spec(self.remind_interval),
    {
        format_duration(&self.remind_interval)
    }

    /// The fixed human-readable rendering: key, quoted name, formatted
    /// last-done date, formatted interval.
    pub fn display_string(&self) -> (r: String)
        ensures
            r@ == self.key@ + seq![' ', '"'] + self.name@ + seq!['"', ' '] + format_date_spec(
                self.last_update,
            ) + seq![' '] + format_duration_spec(self.remind_interval),
    {
        proof {
            reveal_strlit(" \"");
            reveal_strlit("\" ");
            reveal_strlit(" ");
        }
        let mut r = self.key.clone();
        r.append(" \"");
        r.append(self.name.as_str());
        r.append("\" ");
        let lu = self.get_last_update_string();
        r.append(lu.as_str());
        r.append(" ");
        let ri = self.get_remind_interval_string();
        r.append(ri.as_str());
        proof {
            assert(r@ =~= self.key@ + seq![' ', '"'] + self.name@ + seq!['"', ' ']
                + format_date_spec(self.last_update) + seq![' '] + format_duration_spec(
                self.remind_interval,
            ));
        }
        r
    }
}

/// A task marked done on a day is not to-do on that same day, for any
/// positive interval.
pub proof fn lemma_done_today_not_todo(rem: Remindable, today: Date)
    requires
        rem.last_update == today,
        interval_days(rem.remind_interval) >= 1,
    ensures
        !is_todo_spec(rem, today),
{
}

} // verus!
