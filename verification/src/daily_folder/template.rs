//! Expansion of path templates written with strftime-style specifiers.
use vstd::prelude::*;

use crate::date::{chrono_format, opt_view, Date};
use crate::month_names::MonthNames;
use crate::text::{replace_all, replace_all_str};

verus! {

/// The decimal digit `d` as a character.
pub open spec fn digit_char(d: int) -> char {
    if d == 0 { '0' }
    else if d == 1 { '1' }
    else if d == 2 { '2' }
    else if d == 3 { '3' }
    else if d == 4 { '4' }
    else if d == 5 { '5' }
    else if d == 6 { '6' }
    else if d == 7 { '7' }
    else if d == 8 { '8' }
    else { '9' }
}

/// The two-digit key of month `m` (`"01"` for January).
pub open spec fn month_key(m: int) -> Seq<char> {
    seq![digit_char(m / 10), digit_char(m % 10)]
}

/// The month-name specifier `%B`.
pub open spec fn month_name_specifier() -> Seq<char> {
    seq!['%', 'B']
}

/// The template with `%B` replaced by the table's name for month `m`, or
/// unchanged when the table has no such month.
pub open spec fn with_month_name(template: Seq<char>, m: int, names: Map<Seq<char>, Seq<char>>) -> Seq<char> {
    if names.dom().contains(month_key(m)) {
        replace_all(template, month_name_specifier(), names[month_key(m)])
    } else {
        template
    }
}

/// What `expand_template` gives for a template, a date and a name table.
pub open spec fn expanded(template: Seq<char>, date: Date, names: Map<Seq<char>, Seq<char>>) -> Option<Seq<char>> {
    chrono_format(
        date.y() as i32,
        date.m() as u32,
        date.d() as u32,
        with_month_name(template, date.m(), names),
    )
}

fn digit(d: u32) -> (r: char)
    requires
        d < 10,
    ensures
        r == digit_char(d as int),
{
    if d == 0 { '0' }
    else if d == 1 { '1' }
    else if d == 2 { '2' }
    else if d == 3 { '3' }
    else if d == 4 { '4' }
    else if d == 5 { '5' }
    else if d == 6 { '6' }
    else if d == 7 { '7' }
    else if d == 8 { '8' }
    else { '9' }
}

/// The two-digit key of a month, zero-padded.
pub fn month_key_string(m: u32) -> (r: String)
    requires
        m < 100,
    ensures
        r@ == month_key(m as int),
{
    let mut s = String::new();
    crate::text::push_char(&mut s, digit(m / 10));
    crate::text::push_char(&mut s, digit(m % 10));
    s
}

/// Expands `template` for `date`: `%B` is first replaced by the name of the
/// date's month from `month_names` when the table has it; every remaining
/// specifier is rendered by the date formatter. `None` when the resulting
/// format holds a specifier that the formatter rejects.
pub fn expand_template(template: &str, date: Date, month_names: &MonthNames) -> (r: Option<String>)
    ensures
        opt_view(r) == expanded(template@, date, month_names@),
{
    let key = month_key_string(date.month());
    let pre = match month_names.get(&key) {
        Some(name) => {
            proof {
                reveal_strlit("%B");
                assert("%B"@ =~= month_name_specifier());
            }
            replace_all_str(template, "%B", name.as_str())
        },
        None => template.to_owned(),
    };
    date.format(pre.as_str())
}

} // verus!
