//! The decisions of the application layer: which mode a command line
//! selects, when the daemon sees a new day, and how long it pauses.
use vstd::prelude::*;

use crate::date::{chrono_parse, Date};
use crate::links_db::iso_format;

verus! {

/// The command line.
#[derive(Clone, Debug)]
pub struct Cli {
    /// Root directory that overrides the configuration file's.
    pub root_directory: Option<String>,
    /// Path to the TOML configuration file.
    pub settings_file: String,
    /// Single date to process (`YYYY-MM-DD`).
    pub date: Option<String>,
    /// First date of a range to process (`YYYY-MM-DD`).
    pub start: Option<String>,
    /// Last date of a range to process (`YYYY-MM-DD`).
    pub end: Option<String>,
    /// Process the current day once and exit.
    pub once: bool,
    /// Seconds between checks in continuous mode.
    pub interval: u64,
}

/// What the program does.
#[derive(Clone, Debug)]
pub enum RunMode {
    /// Process every date from `start` to `end`, then exit.
    Range { start: String, end: String },
    /// Process one date, then exit.
    Single(String),
    /// Process the current day once, then exit.
    Once,
    /// Process the current day every `interval` seconds, indefinitely.
    Continuous(u64),
}

impl Cli {
    /// The mode the command line selects: a range when both ends are given,
    /// else a single date when one is given, else one run for today when
    /// `once` is set, else the continuous mode.
    pub fn mode(&self) -> (r: RunMode)
        ensures
            match r {
                RunMode::Range { start, end } => self.start matches Some(s) && self.end matches Some(e)
                    && start@ == s@ && end@ == e@,
                RunMode::Single(d) => !(self.start is Some && self.end is Some) && (self.date matches Some(x)
                    && d@ == x@),
                RunMode::Once => !(self.start is Some && self.end is Some) && self.date is None
                    && self.once,
                RunMode::Continuous(i) => !(self.start is Some && self.end is Some) && self.date is None
                    && !self.once && i == self.interval,
            },
    {
        match (&self.start, &self.end) {
            (Some(s), Some(e)) => {
                return RunMode::Range { start: s.clone(), end: e.clone() };
            },
            _ => {},
        }
        match &self.date {
            Some(d) => RunMode::Single(d.clone()),
            None => {
                if self.once {
                    RunMode::Once
                } else {
                    RunMode::Continuous(self.interval)
                }
            },
        }
    }
}

/// Reads a date given as `YYYY-MM-DD`.
pub fn parse_date(s: &str) -> (r: Option<Date>)
    ensures
        match chrono_parse(s@, iso_format()) {
            Some(t) => r matches Some(d) && d.ymd() == (t.0 as int, t.1 as int, t.2 as int),
            None => r is None,
        },
{
    proof {
        reveal_strlit("%Y-%m-%d");
        assert("%Y-%m-%d"@ =~= iso_format());
    }
    Date::parse_from_str(s, "%Y-%m-%d")
}

/// The day the continuous mode last processed.
#[derive(Clone, Copy, Debug)]
pub struct DayTracker {
    last_date: Date,
}

impl DayTracker {
    /// The last day seen.
    pub closed spec fn last(self) -> Date {
        self.last_date
    }

    /// Starts tracking at `today`.
    pub fn new(today: Date) -> (r: DayTracker)
        ensures
            r.last() == today,
    {
        DayTracker { last_date: today }
    }

    /// The last day seen.
    pub fn last_date(&self) -> (r: Date)
        ensures
            r == self.last(),
    {
        self.last_date
    }

    /// Records that the current day is `today`; returns whether it differs
    /// from the last day seen.
    pub fn observe(&mut self, today: Date) -> (changed: bool)
        ensures
            changed == (old(self).last() != today),
            final(self).last() == today,
    {
        let changed = !(self.last_date.year() == today.year() && self.last_date.month() == today.month()
            && self.last_date.day() == today.day());
        proof {
            self.last_date.lemma_ymd_injective(today);
        }
        self.last_date = today;
        changed
    }
}

/// After a run created the printed folder, the daemon sleeps until the next
/// day: the seconds left until midnight, but never less than the interval
/// (both taken as signed seconds, the result read back as unsigned).
pub fn sleep_until_next_day_secs(secs_until_midnight: i64, interval_secs: u64) -> (r: u64)
    ensures
        r == (if secs_until_midnight >= (interval_secs as i64) {
            secs_until_midnight
        } else {
            interval_secs as i64
        }) as u64,
{
    let floor = interval_secs as i64;
    let secs = if secs_until_midnight >= floor {
        secs_until_midnight
    } else {
        floor
    };
    secs as u64
}

} // verus!
