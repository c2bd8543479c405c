//! The decisions around a run: which date window an import covers, and
//! what a continuous-import schedule accepts. The surrounding process
//! parses arguments, talks to the ledgers and sleeps between cycles.

use vstd::prelude::*;
use chrono::Datelike;
use crate::errors::ConfigurationError;

verus! {

/// The operating-mode arguments an import runs under: an explicit window,
/// textual day-month-year dates, or a range of days back from today.
pub struct Args {
    pub start_date: Option<String>,
    pub end_date: Option<String>,
    pub date_range: Option<i64>,
}

/// A civil calendar date.
#[derive(Debug, PartialEq, Eq, Structural, Clone, Copy)]
pub struct Date {
    pub year: i32,
    pub month: u8,
    pub day: u8,
}

pub open spec fn is_leap_year(y: int) -> bool {
    y % 4 == 0 && (y % 100 != 0 || y % 400 == 0)
}

pub open spec fn days_in_month(y: int, m: int) -> int {
    if m == 2 {
        if is_leap_year(y) {
            29
        } else {
            28
        }
    } else if m == 4 || m == 6 || m == 9 || m == 11 {
        30
    } else {
        31
    }
}

impl Date {
    /// A real calendar date with a four-digit year.
    pub open spec fn valid(&self) -> bool {
        &&& 0 <= self.year <= 9999
        &&& 1 <= self.month <= 12
        &&& 1 <= self.day <= days_in_month(self.year as int, self.month as int)
    }
}

/// The civil date a number of days before the given one, when the calendar
/// holds one in range.
pub uninterp spec fn date_shifted_back(year: int, month: int, day: int, days: int) -> Option<
    (int, int, int),
>;

/// Relies on chrono's `NaiveDate::from_ymd_opt`, `TimeDelta::try_days`,
/// `NaiveDate::checked_sub_signed` and the `Datelike` accessors: shifting a
/// civil date back by a number of days depends on the date and the count
/// alone, and what comes back is a real calendar date, or nothing when the
/// count or the result leaves the supported range.
#[verifier::external_body]
fn date_minus_days(date: &Date, days: i64) -> (r: Option<Date>)
    requires
        date.valid(),
    ensures
        match r {
            Some(d) => date_shifted_back(
                date.year as int,
                date.month as int,
                date.day as int,
                days as int,
            ) == Some((d.year as int, d.month as int, d.day as int)) && 1 <= d.month <= 12 && 1
                <= d.day <= 31,
            None => date_shifted_back(
                date.year as int,
                date.month as int,
                date.day as int,
                days as int,
            ) is None,
        },
{
    let nd = chrono::NaiveDate::from_ymd_opt(date.year, date.month as u32, date.day as u32)?;
    let delta = chrono::TimeDelta::try_days(days)?;
    let shifted = nd.checked_sub_signed(delta)?;
    Some(Date { year: shifted.year(), month: shifted.month() as u8, day: shifted.day() as u8 })
}

/// Resolves the window an import covers. An explicit start date wins over a
/// day range; a day range alone counts back from the end date, or from
/// today when none is given; with neither, the window is whatever was
/// passed in, unbounded ends included.
pub fn resolve_date_window(
    start_date: Option<Date>,
    end_date: Option<Date>,
    date_range: Option<i64>,
    today: Date,
) -> (r: Result<(Option<Date>, Option<Date>), ConfigurationError>)
    requires
        today.valid(),
        (start_date matches Some(d) ==> d.valid()),
        (end_date matches Some(d) ==> d.valid()),
    ensures
        match r {
            Ok(w) => ({
                if date_range is Some && start_date is Some {
                    w == (start_date, end_date)
                } else if date_range is Some {
                    let days = date_range->0;
                    let e = if end_date is Some {
                        end_date->0
                    } else {
                        today
                    };
                    &&& w.1 == Some(e)
                    &&& (w.0 matches Some(s2) && date_shifted_back(
                        e.year as int,
                        e.month as int,
                        e.day as int,
                        days as int,
                    ) == Some((s2.year as int, s2.month as int, s2.day as int)))
                } else {
                    w == (start_date, end_date)
                }
            }),
            Err(err) => ({
                let e = if end_date is Some {
                    end_date->0
                } else {
                    today
                };
                &&& err == ConfigurationError::InvalidDateRange
                &&& date_range is Some
                &&& start_date is None
                &&& date_shifted_back(
                    e.year as int,
                    e.month as int,
                    e.day as int,
                    date_range->0 as int,
                ) is None
            }),
        },
{
    if date_range.is_some() && start_date.is_some() {
        // both given: the explicit start date wins, the range is ignored
        Ok((start_date, end_date))
    } else {
        match date_range {
            Some(days) => {
                let end_eff = match end_date {
                    Some(d) => d,
                    None => today,
                };
                match date_minus_days(&end_eff, days) {
                    Some(start2) => Ok((Some(start2), Some(end_eff))),
                    None => Err(ConfigurationError::InvalidDateRange),
                }
            }
            None => Ok((start_date, end_date)),
        }
    }
}

/// What a continuous-import schedule accepts: no fixed window, and a day
/// range that falls back to thirty days when none is set.
pub fn check_continuous_args(args: &Args) -> (r: Result<i64, ConfigurationError>)
    ensures
        match r {
            Ok(d) => args.start_date is None && args.end_date is None && d == (
            match args.date_range {
                Some(x) => x,
                None => 30i64,
            }),
            Err(e) => e == ConfigurationError::WindowInContinuousMode && (args.start_date is Some
                || args.end_date is Some),
        },
{
    if args.start_date.is_some() || args.end_date.is_some() {
        return Err(ConfigurationError::WindowInContinuousMode);
    }
    match args.date_range {
        Some(days) => Ok(days),
        None => Ok(30),
    }
}

} // verus!
