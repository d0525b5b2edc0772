//! Shortcuts (`.lnk`) to the day directory: their flattened names, the
//! plan of which ones to make, and the record of the ones made.
use vstd::prelude::*;

use crate::date::Date;
use crate::daily_folder::error::ImpresosError;
use crate::daily_folder::settings::Settings;
use crate::daily_folder::template::{expand_template, expanded};
use crate::link_name::{
    flatten_with, flattened, has_no_separator, is_path_separator, lemma_extra_separator,
    lemma_flattened_shape, no_repeated_run,
};
use crate::links_db::LinkPlan;
use crate::month_names::MonthNames;
use crate::text::{push_str, replace_all, replace_all_str};

pub use crate::links_db::{duplicate_action, DuplicateAction, LinkEntry, LinkOutcome, LinksDatabase};

verus! {

/// Character that stands for the path separators (`/`, `\`) in a
/// flattened shortcut name.
pub const LINK_NAME_SEPARATOR: char = '-';

/// The extension of a shortcut file.
pub open spec fn lnk_extension() -> Seq<char> {
    seq!['.', 'l', 'n', 'k']
}

/// The shortcut name for a path: a leading `./` or `.\` is dropped, every
/// path separator becomes a dash, a run of separators and dots keeps only
/// its first character, one leading dash is dropped, and `.lnk` is added.
pub open spec fn link_file_name(raw: Seq<char>) -> Seq<char> {
    flattened(raw, false) + lnk_extension()
}

/// Converts a path into a "flattened" shortcut name, e.g.
/// `./2025/01 enero/15` into `2025-01 enero-15.lnk`.
pub fn flatten_link_name(raw: &str) -> (r: String)
    ensures
        r@ == link_file_name(raw@),
        has_no_separator(r@),
        no_repeated_run(flattened(raw@, false), false),
{
    let mut r = flatten_with(raw, false);
    proof {
        reveal_strlit(".lnk");
        lemma_flattened_shape(raw@, false);
    }
    push_str(&mut r, ".lnk");
    proof {
        assert(".lnk"@ =~= lnk_extension());
        let f = flattened(raw@, false);
        assert forall|i: int| 0 <= i < r@.len() implies !is_path_separator(#[trigger] r@[i]) by {
            if i < f.len() {
                assert(r@[i] == f[i]);
            } else {
                assert(r@[i] == lnk_extension()[i - f.len()]);
            }
        }
    }
    r
}

/// A path separator right after another one does not change the shortcut
/// name, unless the first one directly follows a leading `.`.
pub proof fn law_separator_runs_collapse(x: Seq<char>, y: Seq<char>, c1: char, c2: char)
    requires
        is_path_separator(c1),
        is_path_separator(c2),
        x != seq!['.'],
    ensures
        link_file_name(x + seq![c1] + y) == link_file_name(x + seq![c1, c2] + y),
{
    lemma_extra_separator(x, y, c1, c2, false);
}

/// What `make_link_name` gives: the shortcut name of the expanded template.
pub open spec fn link_name_for(template: Seq<char>, date: Date, names: Map<Seq<char>, Seq<char>>) -> Option<Seq<char>> {
    match expanded(template, date, names) {
        Some(e) => Some(link_file_name(e)),
        None => None,
    }
}

/// The shortcut name for `date`: the template expanded for the date, then
/// flattened. `None` when the template cannot be rendered.
pub fn make_link_name(template: &str, date: Date, month_names: &MonthNames) -> (r: Option<String>)
    ensures
        match r {
            Some(n) => link_name_for(template@, date, month_names@) == Some(n@),
            None => link_name_for(template@, date, month_names@) is None,
        },
{
    match expand_template(template, date, month_names) {
        Some(expanded) => Some(flatten_link_name(expanded.as_str())),
        None => None,
    }
}

/// The shortcuts to make for `date` and the day directory `day_dir`:
/// `Ok(None)` when the settings disable them, an error when the template
/// cannot be rendered.
pub fn link_plan(settings: &Settings, date: Date, day_dir: &str) -> (r: Result<Option<LinkPlan>, ImpresosError>)
    ensures
        !settings.create_link_to_daily_folder ==> r matches Ok(None),
        settings.create_link_to_daily_folder ==> match link_name_for(
            settings.create_path@,
            date,
            settings.month_names@,
        ) {
            Some(name) => r matches Ok(Some(p)) && p.describes(
                name,
                settings.root_directory@,
                day_dir@,
                date,
                settings.duplicate_daily_folder_link_to@.map_values(|s: String| s@),
            ),
            None => r matches Err(ImpresosError::InvalidTemplate(t)) && t@ == settings.create_path@,
        },
{
    if !settings.create_link_to_daily_folder {
        return Ok(None);
    }
    match make_link_name(settings.create_path.as_str(), date, &settings.month_names) {
        Some(name) => Ok(
            Some(
                LinkPlan::new(
                    name,
                    settings.root_directory.as_str(),
                    day_dir,
                    date,
                    &settings.duplicate_daily_folder_link_to,
                ),
            ),
        ),
        None => Err(ImpresosError::InvalidTemplate(settings.create_path.clone())),
    }
}

/// What became of the primary shortcut. `attempt` is `None` when the
/// shortcut was already there, so that nothing was attempted, and the
/// result of making it otherwise: a shortcut already there is
/// `AlreadyPresent`, one made now is `Created`, and a failure to make it is
/// the error, which ends the run for that day.
pub fn primary_shortcut_outcome(attempt: Option<Result<(), ImpresosError>>) -> (r: Result<LinkOutcome, ImpresosError>)
    ensures
        match attempt {
            None => r == Ok::<LinkOutcome, ImpresosError>(LinkOutcome::AlreadyPresent),
            Some(Ok(())) => r == Ok::<LinkOutcome, ImpresosError>(LinkOutcome::Created),
            Some(Err(e)) => r == Err::<LinkOutcome, ImpresosError>(e),
        },
{
    match attempt {
        None => Ok(LinkOutcome::AlreadyPresent),
        Some(Ok(())) => Ok(LinkOutcome::Created),
        Some(Err(e)) => Err(e),
    }
}

/// The script text before the shortcut's path.
pub const SCRIPT_HEAD: &'static str = "\n$WScriptShell = New-Object -ComObject WScript.Shell\n$Shortcut = $WScriptShell.CreateShortcut('";

/// The script text between the shortcut's path and its target.
pub const SCRIPT_MIDDLE: &'static str = "')\n$Shortcut.TargetPath = '";

/// The script text after the target.
pub const SCRIPT_TAIL: &'static str = "'\n$Shortcut.Save()\n";

/// `s` inside a single-quoted PowerShell string: each `'` is doubled.
pub open spec fn powershell_quoted(s: Seq<char>) -> Seq<char> {
    replace_all(s, seq!['\''], seq!['\'', '\''])
}

/// The PowerShell script that makes, through `WScript.Shell`, a shortcut at
/// `link` that points to `target`.
pub open spec fn shortcut_script(link: Seq<char>, target: Seq<char>) -> Seq<char> {
    SCRIPT_HEAD@ + powershell_quoted(link) + SCRIPT_MIDDLE@ + powershell_quoted(target) + SCRIPT_TAIL@
}

/// Computes `shortcut_script(link, target)`.
pub fn shortcut_script_text(link: &str, target: &str) -> (r: String)
    ensures
        r@ == shortcut_script(link@, target@),
{
    proof {
        reveal_strlit("'");
        reveal_strlit("''");
    }
    let mut r = SCRIPT_HEAD.to_owned();
    push_str(&mut r, replace_all_str(link, "'", "''").as_str());
    push_str(&mut r, SCRIPT_MIDDLE);
    push_str(&mut r, replace_all_str(target, "'", "''").as_str());
    push_str(&mut r, SCRIPT_TAIL);
    proof {
        assert("'"@ =~= seq!['\'']);
        assert("''"@ =~= seq!['\'', '\'']);
    }
    r
}

} // verus!
