//! The errors that the domain logic reports.
use vstd::prelude::*;

verus! {

/// Errors of the domain logic.
#[derive(Debug)]
pub enum DaifoError {
    /// File system read/write failure.
    Io(std::io::Error),
    /// The configuration could not be used: the TOML file could not be
    /// parsed, or the path template it gives cannot be rendered.
    SettingsParse(String),
}

} // verus!
