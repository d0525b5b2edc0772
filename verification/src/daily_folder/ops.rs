//! Domain operations: where the day directory goes, and whether it gets
//! its printed folder.
use vstd::prelude::*;

use crate::date::Date;
use crate::daily_folder::error::ImpresosError;
use crate::daily_folder::settings::Settings;
use crate::daily_folder::template::{expand_template, expanded};
use crate::paths::{is_main_separator, join_path, join_with, joined, main_separator};
use crate::trigger::{str_views, string_views, wants_printed, wants_printed_folder};

verus! {

/// Whether the printed folder should be created in a directory, given
/// whether it exists and the names of the files it holds: it should when
/// the directory holds more than `max_files` files, or a file whose
/// extension is in `extensions` (ignoring case and leading dots).
pub fn should_create_impresos(
    dir_exists: bool,
    file_names: &Vec<String>,
    max_files: usize,
    extensions: &[&str],
) -> (r: bool)
    ensures
        r == wants_printed_folder(
            dir_exists,
            string_views(file_names@),
            max_files as int,
            str_views(extensions@),
        ),
{
    wants_printed(dir_exists, file_names, max_files, extensions)
}

/// Whether the day directory wants its printed folder under `settings`.
pub fn day_wants_impresos(settings: &Settings, dir_exists: bool, file_names: &Vec<String>) -> (r: bool)
    ensures
        r == wants_printed_folder(
            dir_exists,
            string_views(file_names@),
            settings.max_files_before_trigger as int,
            string_views(settings.extension_trigger_impresos@),
        ),
{
    let mut triggers: Vec<&str> = Vec::new();
    let mut k: usize = 0;
    while k < settings.extension_trigger_impresos.len()
        invariant
            k <= settings.extension_trigger_impresos.len(),
            triggers.len() == k,
            forall|j: int|
                0 <= j < k ==> (#[trigger] triggers@[j])@ == settings.extension_trigger_impresos@[j]@,
        decreases settings.extension_trigger_impresos.len() - k,
    {
        triggers.push(settings.extension_trigger_impresos[k].as_str());
        k += 1;
    }
    assert(str_views(triggers@) =~= string_views(settings.extension_trigger_impresos@));
    should_create_impresos(
        dir_exists,
        file_names,
        settings.max_files_before_trigger as usize,
        triggers.as_slice(),
    )
}

/// What `generate_date_path` gives on the platform whose main separator
/// is `sep`: the root directory joined with the expanded template, or
/// `None` when the template cannot be rendered.
pub open spec fn date_path(settings: Settings, date: Date, sep: char) -> Option<Seq<char>> {
    match expanded(settings.create_path@, date, settings.month_names@) {
        Some(rel) => Some(joined(settings.root_directory@, rel, sep)),
        None => None,
    }
}

/// The path of the day directory: the template expanded for `date`, under
/// the root directory, joined with the platform's separator.
pub fn generate_date_path(settings: &Settings, date: Date) -> (r: Result<String, ImpresosError>)
    ensures
        match expanded(settings.create_path@, date, settings.month_names@) {
            Some(rel) => r matches Ok(s) && exists|sep: char|
                is_main_separator(sep) && #[trigger] date_path(*settings, date, sep) == Some(s@),
            None => r matches Err(ImpresosError::InvalidTemplate(t)) && t@ == settings.create_path@,
        },
{
    match expand_template(settings.create_path.as_str(), date, &settings.month_names) {
        Some(relative) => {
            let sep = main_separator();
            let p = join_with(settings.root_directory.as_str(), relative.as_str(), sep);
            assert(date_path(*settings, date, sep) == Some(p@));
            Ok(p)
        },
        None => Err(ImpresosError::InvalidTemplate(settings.create_path.clone())),
    }
}

/// The path of the printed folder inside the day directory `day_dir`,
/// joined with the platform's separator.
pub fn impresos_dir_path(settings: &Settings, day_dir: &str) -> (r: String)
    ensures
        exists|sep: char|
            is_main_separator(sep) && r@ == #[trigger] joined(day_dir@, settings.impresos_folder_name@, sep),
{
    join_path(day_dir, settings.impresos_folder_name.as_str())
}

} // verus!
