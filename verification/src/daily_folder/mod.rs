//! Daily folder organizer whose links are Windows shortcut files
//! (`.lnk`), and whose flattened names collapse runs of dots.
pub mod app;
pub mod error;
pub mod link;
pub mod ops;
pub mod settings;
pub mod template;

pub use error::ImpresosError;
pub use settings::{default_month_names, Settings};
pub use link::LINK_NAME_SEPARATOR;
pub use ops::{generate_date_path, should_create_impresos};
