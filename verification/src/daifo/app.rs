//! The decisions of the application layer: which mode a command line
//! selects.
use vstd::prelude::*;

pub use crate::daily_folder::app::{parse_date, sleep_until_next_day_secs, DayTracker, RunMode};

verus! {

/// The command line.
#[derive(Clone, Debug)]
pub struct Cli {
    /// Root directory that overrides the configuration file's.
    pub root_directory: Option<String>,
    /// Path to the TOML configuration file.
    pub settings_file: String,
    /// Single date to process (`YYYY-MM-DD`).
    pub date: Option<String>,
    /// First date of a range to process (`YYYY-MM-DD`).
    pub start: Option<String>,
    /// Last date of a range to process (`YYYY-MM-DD`).
    pub end: Option<String>,
    /// Process the current day once and exit.
    pub once: bool,
    /// Seconds between checks in continuous mode.
    pub interval: u64,
}

impl Cli {
    /// The mode the command line selects: a range when both ends are given,
    /// else a single date when one is given, else one run for today when
    /// `once` is set, else the continuous mode.
    pub fn mode(&self) -> (r: RunMode)
        ensures
            match r {
                RunMode::Range { start, end } => self.start matches Some(s) && self.end matches Some(e)
                    && start@ == s@ && end@ == e@,
                RunMode::Single(d) => !(self.start is Some && self.end is Some) && (self.date matches Some(x)
                    && d@ == x@),
                RunMode::Once => !(self.start is Some && self.end is Some) && self.date is None
                    && self.once,
                RunMode::Continuous(i) => !(self.start is Some && self.end is Some) && self.date is None
                    && !self.once && i == self.interval,
            },
    {
        match (&self.start, &self.end) {
            (Some(s), Some(e)) => {
                return RunMode::Range { start: s.clone(), end: e.clone() };
            },
            _ => {},
        }
        match &self.date {
            Some(d) => RunMode::Single(d.clone()),
            None => {
                if self.once {
                    RunMode::Once
                } else {
                    RunMode::Continuous(self.interval)
                }
            },
        }
    }
}

} // verus!
