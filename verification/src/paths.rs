//! Path text: joining a base directory with a relative path, and the
//! extension of a file name.
use vstd::prelude::*;

use crate::text::{chars_of, push_char, push_str, string_from_chars};
use crate::windows_path::{windows_join, windows_joined};

verus! {

/// A separator the platform may use between path components: `/` on
/// Unix-like systems, `\\` on Windows.
pub open spec fn is_main_separator(sep: char) -> bool {
    sep == '/' || sep == '\\'
}

/// `rel` appended to `base` as `PathBuf::join` does it on a Unix-like
/// system: a `rel` that starts with `/` stands on its own; otherwise one
/// `/` goes between the two unless `base` is empty or ends with `/`.
pub open spec fn unix_joined(base: Seq<char>, rel: Seq<char>) -> Seq<char> {
    if rel.len() > 0 && rel[0] == '/' {
        rel
    } else if base.len() == 0 || base.last() == '/' {
        base + rel
    } else {
        base + seq!['/'] + rel
    }
}

/// `rel` appended to `base` as `PathBuf::join` does it on the platform
/// whose main separator is `sep`.
pub open spec fn joined(base: Seq<char>, rel: Seq<char>, sep: char) -> Seq<char> {
    if sep == '\\' {
        windows_joined(base, rel)
    } else {
        unix_joined(base, rel)
    }
}

/// `std::path::MAIN_SEPARATOR`: the separator of the platform the program
/// was built for, which is `/` or `\\`.
#[verifier::external_body]
pub(crate) fn main_separator() -> (r: char)
    ensures
        is_main_separator(r),
{
    std::path::MAIN_SEPARATOR
}

/// Computes `unix_joined(base, rel)`.
fn unix_join(base: &str, rel: &str) -> (r: String)
    ensures
        r@ == unix_joined(base@, rel@),
{
    let rv = chars_of(rel);
    if rv.len() > 0 && rv[0] == '/' {
        return rel.to_owned();
    }
    let bv = chars_of(base);
    let mut out = base.to_owned();
    if bv.len() > 0 && bv[bv.len() - 1] != '/' {
        push_char(&mut out, '/');
    }
    push_str(&mut out, rel);
    out
}

/// Computes `joined(base, rel, sep)`.
pub fn join_with(base: &str, rel: &str, sep: char) -> (r: String)
    requires
        is_main_separator(sep),
    ensures
        r@ == joined(base@, rel@, sep),
{
    if sep == '\\' {
        windows_join(base, rel)
    } else {
        unix_join(base, rel)
    }
}

/// `rel` appended to `base` with the platform's own separator.
pub fn join_path(base: &str, rel: &str) -> (r: String)
    ensures
        exists|sep: char| is_main_separator(sep) && r@ == #[trigger] joined(base@, rel@, sep),
{
    let sep = main_separator();
    join_with(base, rel, sep)
}

/// The extension of a file name, as `std::path::Path::extension` documents
/// it: the text after the last `.`, unless the name has no `.` at all, or
/// its only `.` is the first character, or the name is `..`.
pub open spec fn file_extension(name: Seq<char>) -> Option<Seq<char>> {
    if name == seq!['.', '.'] {
        None
    } else if exists|i: int| 0 <= i < name.len() && name[i] == '.' {
        let k = choose|i: int|
            0 <= i < name.len() && name[i] == '.' && forall|j: int|
                i < j < name.len() ==> name[j] != '.';
        if k == 0 {
            None
        } else {
            Some(name.skip(k + 1))
        }
    } else {
        None
    }
}

/// Computes `file_extension(name)`.
pub fn extension_of(name: &str) -> (r: Option<String>)
    ensures
        opt_string_view(r) == file_extension(name@),
{
    let v = chars_of(name);
    if v.len() == 2 && v[0] == '.' && v[1] == '.' {
        assert(v@ =~= seq!['.', '.']);
        return None;
    }
    proof {
        if v@ =~= seq!['.', '.'] {
            assert(v@[0] == '.' && v@[1] == '.');
        }
    }
    let mut i = v.len();
    while i > 0
        invariant
            i <= v.len(),
            v@ == name@,
            v@ != seq!['.', '.'],
            forall|j: int| i <= j < v.len() ==> v@[j] != '.',
        decreases i,
    {
        if v[i - 1] == '.' {
            let k = i - 1;
            proof {
                assert(0 <= k < v@.len() && v@[k as int] == '.');
                assert(forall|j: int| k < j < v@.len() ==> v@[j] != '.');
                let c = choose|c: int|
                    0 <= c < v@.len() && v@[c] == '.' && forall|j: int|
                        c < j < v@.len() ==> v@[j] != '.';
                assert(c == k) by {
                    if c < k {
                        assert(v@[k as int] != '.');
                    }
                    if c > k {
                        assert(v@[c] != '.');
                    }
                }
            }
            if k == 0 {
                return None;
            }
            return Some(string_from_chars(&v, i));
        }
        i -= 1;
    }
    proof {
        if v@ == seq!['.', '.'] {
            assert(v@.len() == 2 && v@[0] == '.');
        }
    }
    None
}

/// The extension is what follows the last dot: a name made of a non-empty
/// part, a dot, and a text without dots has that text as its extension,
/// unless the name is `..`.
pub proof fn law_extension_after_last_dot(p: Seq<char>, e: Seq<char>)
    requires
        p.len() > 0,
        forall|i: int| 0 <= i < e.len() ==> e[i] != '.',
        p + seq!['.'] + e != seq!['.', '.'],
    ensures
        file_extension(p + seq!['.'] + e) == Some(e),
{
    let name = p + seq!['.'] + e;
    let n = p.len() as int;
    assert(name[n] == '.');
    assert forall|j: int| n < j < name.len() implies name[j] != '.' by {
        assert(name[j] == e[j - n - 1]);
    }
    assert(exists|i: int| 0 <= i < name.len() && name[i] == '.');
    let k = choose|i: int|
        0 <= i < name.len() && name[i] == '.' && forall|j: int| i < j < name.len() ==> name[j] != '.';
    assert(k == n) by {
        if k < n {
            assert(name[n] != '.');
        }
        if k > n {
            assert(name[k] == e[k - n - 1]);
        }
    }
    assert(name.skip(n + 1) =~= e);
}

/// A name with a dot has a last dot.
proof fn lemma_last_dot(name: Seq<char>, i: int)
    requires
        0 <= i < name.len(),
        name[i] == '.',
    ensures
        exists|k: int|
            0 <= k < name.len() && name[k] == '.' && forall|j: int| k < j < name.len() ==> name[j] != '.',
    decreases name.len() - i,
{
    if exists|j: int| i < j < name.len() && name[j] == '.' {
        let j = choose|j: int| i < j < name.len() && name[j] == '.';
        lemma_last_dot(name, j);
    } else {
        assert(forall|j: int| i < j < name.len() ==> name[j] != '.');
    }
}

/// Whenever a name has an extension, the name is a non-empty part, a dot,
/// and the extension, which holds no dot; a name without a dot has none.
pub proof fn law_extension_shape(name: Seq<char>)
    ensures
        file_extension(name) matches Some(e) ==> e.len() < name.len() && name == name.take(
            name.len() - e.len() - 1,
        ) + seq!['.'] + e && name.len() - e.len() - 1 > 0 && forall|i: int|
            0 <= i < e.len() ==> e[i] != '.',
        (forall|i: int| 0 <= i < name.len() ==> name[i] != '.') ==> file_extension(name) is None,
{
    if file_extension(name) is Some {
        let e = file_extension(name)->Some_0;
        assert(name != seq!['.', '.']);
        let i = choose|i: int| 0 <= i < name.len() && name[i] == '.';
        lemma_last_dot(name, i);
        let k = choose|i: int|
            0 <= i < name.len() && name[i] == '.' && forall|j: int| i < j < name.len() ==> name[j] != '.';
        assert(k != 0);
        assert(e =~= name.skip(k + 1));
        assert(name =~= name.take(k) + seq!['.'] + e);
        assert forall|i: int| 0 <= i < e.len() implies e[i] != '.' by {
            assert(e[i] == name[k + 1 + i]);
        }
    }
    if forall|i: int| 0 <= i < name.len() ==> name[i] != '.' {
        if name == seq!['.', '.'] {
            assert(name[0] == '.');
        }
    }
}

/// The views of an optional string.
pub open spec fn opt_string_view(o: Option<String>) -> Option<Seq<char>> {
    match o {
        Some(s) => Some(s@),
        None => None,
    }
}

/// What `str::to_lowercase` gives for `s`.
pub uninterp spec fn lowercase(s: Seq<char>) -> Seq<char>;

/// `str::to_lowercase`: the Unicode lowercase mapping of every character.
#[verifier::external_body]
pub(crate) fn to_lowercase(s: &str) -> (r: String)
    ensures
        r@ == lowercase(s@),
{
    s.to_lowercase()
}

/// `s` without its leading dots.
pub open spec fn trim_leading_dots(s: Seq<char>) -> Seq<char>
    decreases s.len(),
{
    if s.len() > 0 && s[0] == '.' {
        trim_leading_dots(s.drop_first())
    } else {
        s
    }
}

/// Computes `trim_leading_dots(s)` (as `trim_start_matches('.')`).
pub fn trim_leading_dots_str(s: &str) -> (r: String)
    ensures
        r@ == trim_leading_dots(s@),
{
    let v = chars_of(s);
    let mut i: usize = 0;
    assert(v@.skip(0) =~= v@);
    while i < v.len() && v[i] == '.'
        invariant
            i <= v.len(),
            trim_leading_dots(v@.skip(i as int)) == trim_leading_dots(v@),
        decreases v.len() - i,
    {
        assert(v@.skip(i as int).drop_first() =~= v@.skip(i + 1));
        i += 1;
    }
    assert(v@.skip(0) =~= v@);
    string_from_chars(&v, i)
}

} // verus!
