//! Daily folder organizer whose links are directory symbolic links, and
//! whose flattened names collapse runs of dashes and runs of dots.
pub mod app;
pub mod error;
pub mod link;
pub mod ops;
pub mod settings;

pub use crate::daily_folder::template;
pub use error::DaifoError;
pub use link::LINK_NAME_SEPARATOR;
pub use ops::{generate_date_path, should_create_printed};
pub use settings::{default_month_names, Settings};
