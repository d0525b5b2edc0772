//! The errors that the domain logic reports.
use vstd::prelude::*;

verus! {

/// `std::io::Error`, carried through unchanged from the file system.
#[verifier::external_type_specification]
#[verifier::external_body]
pub struct ExIoError(std::io::Error);

/// Errors of the domain logic.
#[derive(Debug)]
pub enum ImpresosError {
    /// File system read/write failure.
    Io(std::io::Error),
    /// The TOML configuration file could not be parsed.
    SettingsParse(String),
    /// The path template holds specifiers that cannot be rendered.
    InvalidTemplate(String),
    /// A month name is missing from the configuration table.
    MissingMonthName(String),
    /// The base directory could not be created.
    DirectoryCreationFailed(String),
    /// The shortcut could not be created.
    LinkCreationFailed(String),
}

} // verus!
