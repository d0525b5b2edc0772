//! The rule that decides whether a day directory gets its "printed" folder.
use vstd::prelude::*;

use crate::paths::{
    extension_of, file_extension, law_extension_after_last_dot, lowercase, to_lowercase, trim_leading_dots,
    trim_leading_dots_str,
};

verus! {

/// A file name whose extension, ignoring case, equals the trigger without
/// its leading dots (ignoring case too).
pub open spec fn extension_matches(name: Seq<char>, trigger: Seq<char>) -> bool {
    match file_extension(name) {
        Some(e) => lowercase(e) == lowercase(trim_leading_dots(trigger)),
        None => false,
    }
}

/// Some file name matches some trigger.
pub open spec fn has_trigger(names: Seq<Seq<char>>, triggers: Seq<Seq<char>>) -> bool {
    exists|i: int, j: int|
        0 <= i < names.len() && 0 <= j < triggers.len() && #[trigger] extension_matches(
            names[i],
            triggers[j],
        )
}

/// A directory wants its "printed" folder when it exists and either holds
/// more than `max_files` files or holds a file with a trigger extension.
pub open spec fn wants_printed_folder(
    dir_exists: bool,
    names: Seq<Seq<char>>,
    max_files: int,
    triggers: Seq<Seq<char>>,
) -> bool {
    dir_exists && (names.len() > max_files || has_trigger(names, triggers))
}

/// The views of a list of strings.
pub open spec fn string_views(v: Seq<String>) -> Seq<Seq<char>> {
    v.map_values(|s: String| s@)
}

/// The views of a list of string slices.
pub open spec fn str_views(v: Seq<&str>) -> Seq<Seq<char>> {
    v.map_values(|s: &str| s@)
}

/// Whether the file `name` has the extension `trigger`.
pub fn extension_matches_exec(name: &str, trigger: &str) -> (r: bool)
    ensures
        r == extension_matches(name@, trigger@),
{
    match extension_of(name) {
        Some(ext) => {
            let ext_lower = to_lowercase(ext.as_str());
            let trimmed = trim_leading_dots_str(trigger);
            let trigger_clean = to_lowercase(trimmed.as_str());
            ext_lower == trigger_clean
        },
        None => false,
    }
}

/// Whether one of the files has one of the trigger extensions.
pub fn has_trigger_extension(file_names: &Vec<String>, extensions: &[&str]) -> (r: bool)
    ensures
        r == has_trigger(string_views(file_names@), str_views(extensions@)),
{
    let ghost names = string_views(file_names@);
    let ghost triggers = str_views(extensions@);
    let mut i: usize = 0;
    while i < file_names.len()
        invariant
            i <= file_names.len(),
            names == string_views(file_names@),
            triggers == str_views(extensions@),
            forall|a: int, b: int|
                0 <= a < i && 0 <= b < triggers.len() ==> !#[trigger] extension_matches(
                    names[a],
                    triggers[b],
                ),
        decreases file_names.len() - i,
    {
        let mut j: usize = 0;
        while j < extensions.len()
            invariant
                i < file_names.len(),
                j <= extensions.len(),
                names == string_views(file_names@),
                triggers == str_views(extensions@),
                forall|a: int, b: int|
                    0 <= a < i && 0 <= b < triggers.len() ==> !#[trigger] extension_matches(
                        names[a],
                        triggers[b],
                    ),
                forall|b: int| 0 <= b < j ==> !#[trigger] extension_matches(names[i as int], triggers[b]),
            decreases extensions.len() - j,
        {
            if extension_matches_exec(file_names[i].as_str(), extensions[j]) {
                assert(extension_matches(names[i as int], triggers[j as int]));
                return true;
            }
            j += 1;
        }
        i += 1;
    }
    false
}

/// Whether a directory with the listed files wants its "printed" folder.
pub fn wants_printed(dir_exists: bool, file_names: &Vec<String>, max_files: usize, extensions: &[&str]) -> (r: bool)
    ensures
        r == wants_printed_folder(
            dir_exists,
            string_views(file_names@),
            max_files as int,
            str_views(extensions@),
        ),
{
    if !dir_exists {
        return false;
    }
    if file_names.len() > max_files {
        return true;
    }
    has_trigger_extension(file_names, extensions)
}


/// More files in a directory never withdraw the printed folder: once a
/// directory wants it, it still does after files are added.
pub proof fn law_more_files_still_want(
    dir_exists: bool,
    names: Seq<Seq<char>>,
    extra: Seq<Seq<char>>,
    max_files: int,
    triggers: Seq<Seq<char>>,
)
    requires
        wants_printed_folder(dir_exists, names, max_files, triggers),
    ensures
        wants_printed_folder(dir_exists, names + extra, max_files, triggers),
{
    if !(names.len() > max_files) {
        let (i, j) = choose|i: int, j: int|
            0 <= i < names.len() && 0 <= j < triggers.len() && #[trigger] extension_matches(
                names[i],
                triggers[j],
            );
        assert((names + extra)[i] == names[i]);
        assert(extension_matches((names + extra)[i], triggers[j]));
    }
}

/// An existing directory that holds a file named `p.e`, where `e` has no
/// dot and equals a trigger (leading dots dropped) up to case, wants its
/// printed folder, however few files it holds.
pub proof fn law_trigger_file_wants_folder(
    names: Seq<Seq<char>>,
    max_files: int,
    triggers: Seq<Seq<char>>,
    i: int,
    j: int,
    p: Seq<char>,
    e: Seq<char>,
)
    requires
        0 <= i < names.len(),
        0 <= j < triggers.len(),
        p.len() > 0,
        forall|k: int| 0 <= k < e.len() ==> e[k] != '.',
        names[i] == p + seq!['.'] + e,
        names[i] != seq!['.', '.'],
        lowercase(e) == lowercase(trim_leading_dots(triggers[j])),
    ensures
        wants_printed_folder(true, names, max_files, triggers),
{
    law_extension_after_last_dot(p, e);
    assert(extension_matches(names[i], triggers[j]));
}

/// A directory that does not exist never wants the folder, and one with
/// no more than `max_files` files, none with a trigger extension, does not
/// either.
pub proof fn law_no_trigger_no_folder(
    dir_exists: bool,
    names: Seq<Seq<char>>,
    max_files: int,
    triggers: Seq<Seq<char>>,
)
    requires
        !dir_exists || (names.len() <= max_files && forall|i: int, j: int|
            0 <= i < names.len() && 0 <= j < triggers.len() ==> !(#[trigger] extension_matches(
                names[i],
                triggers[j],
            ))),
    ensures
        !wants_printed_folder(dir_exists, names, max_files, triggers),
{
}

} // verus!
