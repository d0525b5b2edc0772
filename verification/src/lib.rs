//! Daily folder organizer: dated day directories built from a path
//! template, links to them with flattened names, the "printed" sub-folder
//! rule, the record of created links, and the default configuration file.

pub mod daifo;
pub mod daily_folder;
pub mod date;
pub mod link_name;
pub mod links_db;
pub mod month_defaults;
pub mod month_names;
pub mod paths;
pub mod settings_doc;
pub mod text;
pub mod toml_doc;
pub mod tray_menu;
pub mod trigger;
pub mod windows_path;
