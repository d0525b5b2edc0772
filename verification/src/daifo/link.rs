//! Directory symbolic links to the day directory: their flattened names,
//! the plan of which ones to make, and the record of the ones made.
use vstd::prelude::*;

use crate::date::Date;
use crate::daifo::error::DaifoError;
use crate::daifo::settings::Settings;
use crate::daily_folder::template::{expand_template, expanded};
use crate::link_name::{
    flatten_with, flattened, has_no_separator, is_path_separator, lemma_extra_separator,
    lemma_flattened_idempotent, lemma_flattened_shape, no_repeated_run,
};
use crate::links_db::LinkPlan;
use crate::month_names::MonthNames;

pub use crate::links_db::{duplicate_action, DuplicateAction, LinkEntry, LinkOutcome, LinksDatabase};

verus! {

/// Character used to replace path separators (`/`, `\`) when flattening
/// the link name.
pub const LINK_NAME_SEPARATOR: char = '-';

/// The link name for a path: a leading `./` or `.\` is dropped, every path
/// separator becomes a dash, a run of separators and dashes keeps only its
/// first character, so does a run of dots, and one leading dash is dropped.
pub open spec fn link_file_name(raw: Seq<char>) -> Seq<char> {
    flattened(raw, true)
}

/// Converts a path into a "flattened" link name, e.g.
/// `./2025/01 enero/15` into `2025-01 enero-15`.
pub fn flatten_link_name(raw: &str) -> (r: String)
    ensures
        r@ == link_file_name(raw@),
        has_no_separator(r@),
        no_repeated_run(r@, true),
        !(r@.len() > 0 && r@[0] == LINK_NAME_SEPARATOR),
{
    proof {
        lemma_flattened_shape(raw@, true);
    }
    flatten_with(raw, true)
}

/// Flattening a flattened name gives it back.
pub proof fn law_flatten_idempotent(raw: Seq<char>)
    ensures
        link_file_name(link_file_name(raw)) == link_file_name(raw),
{
    lemma_flattened_idempotent(raw);
}

/// A path separator right after another one does not change the link
/// name, unless the first one directly follows a leading `.`.
pub proof fn law_separator_runs_collapse(x: Seq<char>, y: Seq<char>, c1: char, c2: char)
    requires
        is_path_separator(c1),
        is_path_separator(c2),
        x != seq!['.'],
    ensures
        link_file_name(x + seq![c1] + y) == link_file_name(x + seq![c1, c2] + y),
{
    lemma_extra_separator(x, y, c1, c2, true);
}

/// What `make_link_name` gives: the link name of the expanded template.
pub open spec fn link_name_for(template: Seq<char>, date: Date, names: Map<Seq<char>, Seq<char>>) -> Option<Seq<char>> {
    match expanded(template, date, names) {
        Some(e) => Some(link_file_name(e)),
        None => None,
    }
}

/// The link name for `date`: the template expanded for the date, then
/// flattened. `None` when the template cannot be rendered.
pub fn make_link_name(template: &str, date: Date, month_names: &MonthNames) -> (r: Option<String>)
    ensures
        match r {
            Some(n) => link_name_for(template@, date, month_names@) == Some(n@),
            None => link_name_for(template@, date, month_names@) is None,
        },
{
    match expand_template(template, date, month_names) {
        Some(expanded) => Some(flatten_link_name(expanded.as_str())),
        None => None,
    }
}

/// The links to make for `date` and the day directory `day_dir`: `Ok(None)`
/// when the settings disable them, an error naming the template when it
/// cannot be rendered.
pub fn link_plan(settings: &Settings, date: Date, day_dir: &str) -> (r: Result<Option<LinkPlan>, DaifoError>)
    ensures
        !settings.create_link_to_daily_folder ==> r matches Ok(None),
        settings.create_link_to_daily_folder ==> match link_name_for(
            settings.create_path@,
            date,
            settings.month_names@,
        ) {
            Some(name) => r matches Ok(Some(p)) && p.describes(
                name,
                settings.root_directory@,
                day_dir@,
                date,
                settings.duplicate_daily_folder_link_to@.map_values(|s: String| s@),
            ),
            None => r matches Err(DaifoError::SettingsParse(t)) && t@ == settings.create_path@,
        },
{
    if !settings.create_link_to_daily_folder {
        return Ok(None);
    }
    match make_link_name(settings.create_path.as_str(), date, &settings.month_names) {
        Some(name) => Ok(
            Some(
                LinkPlan::new(
                    name,
                    settings.root_directory.as_str(),
                    day_dir,
                    date,
                    &settings.duplicate_daily_folder_link_to,
                ),
            ),
        ),
        None => Err(DaifoError::SettingsParse(settings.create_path.clone())),
    }
}

/// What became of the primary link. `attempt` is `None` when the link was
/// already there, so that nothing was attempted, and the result of making
/// it otherwise: a link already there is `AlreadyPresent`, one made now is
/// `Created`, and a failure to make it (such as missing rights) is
/// `Failed`, which does not stop the run.
pub fn primary_link_outcome(attempt: Option<Result<(), DaifoError>>) -> (r: LinkOutcome)
    ensures
        match attempt {
            None => r == LinkOutcome::AlreadyPresent,
            Some(Ok(())) => r == LinkOutcome::Created,
            Some(Err(_)) => r == LinkOutcome::Failed,
        },
{
    match attempt {
        None => LinkOutcome::AlreadyPresent,
        Some(Ok(())) => LinkOutcome::Created,
        Some(Err(_)) => LinkOutcome::Failed,
    }
}

} // verus!
