//! Flattening of a relative path into a single file name: path separators
//! become a dash and runs of separators collapse into one.
use vstd::prelude::*;

use crate::text::{chars_of, string_from_chars};

verus! {

/// `/` and `\` both separate path components.
pub open spec fn is_path_separator(c: char) -> bool {
    c == '/' || c == '\\'
}

/// Drops a leading `./` or `.\`.
pub open spec fn strip_dot_prefix(s: Seq<char>) -> Seq<char> {
    if s.len() >= 2 && s[0] == '.' && is_path_separator(s[1]) {
        s.skip(2)
    } else {
        s
    }
}

/// The run a character belongs to when collapsing: `0` for an ordinary
/// character, which never collapses. Path separators are run `1`. Without
/// `dash_mode` a dot joins them; with it, dashes join them and dots form a
/// run `2` of their own.
pub open spec fn run_class(c: char, dash_mode: bool) -> int {
    if is_path_separator(c) || (dash_mode && c == '-') {
        1
    } else if c == '.' {
        if dash_mode {
            2
        } else {
            1
        }
    } else {
        0
    }
}

/// Replaces each path separator by `-` and keeps only the first character
/// of every run of characters of one class; `run` is the class of the run
/// that is open before `s` (`0` for none).
pub open spec fn collapse(s: Seq<char>, run: int, dash_mode: bool) -> Seq<char>
    decreases s.len(),
{
    if s.len() == 0 {
        Seq::empty()
    } else {
        let c = s[0];
        let rest = s.drop_first();
        let k = run_class(c, dash_mode);
        if k == 0 {
            seq![c] + collapse(rest, 0, dash_mode)
        } else if k == run {
            collapse(rest, k, dash_mode)
        } else {
            seq![if is_path_separator(c) { '-' } else { c }] + collapse(rest, k, dash_mode)
        }
    }
}

/// Drops one leading `-`.
pub open spec fn strip_leading_dash(s: Seq<char>) -> Seq<char> {
    if s.len() > 0 && s[0] == '-' {
        s.drop_first()
    } else {
        s
    }
}

/// The flattened form of `raw`.
pub open spec fn flattened(raw: Seq<char>, dash_mode: bool) -> Seq<char> {
    strip_leading_dash(collapse(strip_dot_prefix(raw), 0, dash_mode))
}

/// No character of `s` is a path separator.
pub open spec fn has_no_separator(s: Seq<char>) -> bool {
    forall|i: int| 0 <= i < s.len() ==> !is_path_separator(#[trigger] s[i])
}

/// No two characters of one collapsing class stand side by side in `s`.
pub open spec fn no_repeated_run(s: Seq<char>, dash_mode: bool) -> bool {
    forall|i: int|
        0 <= i < s.len() - 1 ==> #[trigger] run_class(s[i], dash_mode) == 0 || run_class(s[i], dash_mode)
            != run_class(s[i + 1], dash_mode)
}

/// Computes `run_class(c, dash_mode)`.
fn class_of(c: char, dash_mode: bool) -> (k: u8)
    ensures
        k as int == run_class(c, dash_mode),
{
    if c == '/' || c == '\\' || (dash_mode && c == '-') {
        1
    } else if c == '.' {
        if dash_mode {
            2
        } else {
            1
        }
    } else {
        0
    }
}

/// Computes `flattened(raw, dash_mode)`.
pub fn flatten_with(raw: &str, dash_mode: bool) -> (r: String)
    ensures
        r@ == flattened(raw@, dash_mode),
{
    let v = chars_of(raw);
    let start: usize = if v.len() >= 2 && v[0] == '.' && (v[1] == '/' || v[1] == '\\') {
        2
    } else {
        0
    };
    assert(strip_dot_prefix(raw@) == v@.skip(start as int));
    let mut out: Vec<char> = Vec::new();
    let mut run: u8 = 0;
    let mut i = start;
    while i < v.len()
        invariant
            start <= i <= v.len(),
            out@ + collapse(v@.skip(i as int), run as int, dash_mode) == collapse(
                v@.skip(start as int),
                0,
                dash_mode,
            ),
        decreases v.len() - i,
    {
        let c = v[i];
        let ghost before = out@;
        proof {
            assert(v@.skip(i as int).drop_first() =~= v@.skip(i + 1));
            assert(v@.skip(i as int)[0] == c);
        }
        let k = class_of(c, dash_mode);
        if k == 0 {
            out.push(c);
            run = 0;
        } else if k != run {
            if c == '/' || c == '\\' {
                out.push('-');
            } else {
                out.push(c);
            }
            run = k;
        }
        i += 1;
        proof {
            if out@.len() > before.len() {
                assert(out@ == before + seq![out@[before.len() as int]]);
            }
        }
    }
    assert(v@.skip(i as int) =~= Seq::<char>::empty());
    assert(out@ =~= collapse(v@.skip(start as int), 0, dash_mode));
    let skip: usize = if out.len() > 0 && out[0] == '-' {
        1
    } else {
        0
    };
    let r = string_from_chars(&out, skip);
    assert(r@ =~= flattened(raw@, dash_mode));
    r
}

/// The class of the run that is open after reading `s`, starting with
/// the run `run`.
pub open spec fn run_after(s: Seq<char>, run: int, dash_mode: bool) -> int {
    if s.len() == 0 {
        run
    } else {
        run_class(s.last(), dash_mode)
    }
}

/// Collapsing never produces a path separator.
pub proof fn lemma_collapse_no_separator(s: Seq<char>, run: int, dash_mode: bool)
    ensures
        has_no_separator(collapse(s, run, dash_mode)),
    decreases s.len(),
{
    if s.len() > 0 {
        let k = run_class(s[0], dash_mode);
        let rest = s.drop_first();
        lemma_collapse_no_separator(rest, k, dash_mode);
        let t = collapse(rest, k, dash_mode);
        let r = collapse(s, run, dash_mode);
        assert forall|i: int| 0 <= i < r.len() implies !is_path_separator(#[trigger] r[i]) by {
            if r.len() > t.len() && i > 0 {
                assert(r[i] == t[i - 1]);
            }
        }
    }
}

/// Collapsing never puts two characters of one collapsing class side by
/// side, and after an open run it does not start with a character of that
/// run's class.
pub proof fn lemma_collapse_no_repeat(s: Seq<char>, run: int, dash_mode: bool)
    requires
        0 <= run,
    ensures
        no_repeated_run(collapse(s, run, dash_mode), dash_mode),
        run != 0 && collapse(s, run, dash_mode).len() > 0 ==> run_class(
            collapse(s, run, dash_mode)[0],
            dash_mode,
        ) != run,
    decreases s.len(),
{
    if s.len() > 0 {
        let c = s[0];
        let k = run_class(c, dash_mode);
        let rest = s.drop_first();
        lemma_collapse_no_repeat(rest, k, dash_mode);
        let t = collapse(rest, k, dash_mode);
        let r = collapse(s, run, dash_mode);
        if k == 0 || k != run {
            assert(r == seq![r[0]] + t);
            assert(run_class(r[0], dash_mode) == k || run_class(r[0], dash_mode) == 0);
            assert forall|i: int| 0 <= i < r.len() - 1 implies #[trigger] run_class(r[i], dash_mode) == 0
                || run_class(r[i], dash_mode) != run_class(r[i + 1], dash_mode) by {
                if i > 0 {
                    assert(r[i] == t[i - 1] && r[i + 1] == t[i]);
                } else {
                    assert(r[1] == t[0]);
                }
            }
        }
    }
}

/// A flattened name holds no path separator and no two characters of one
/// collapsing class side by side; in dash mode it does not start with a
/// dash.
pub proof fn lemma_flattened_shape(raw: Seq<char>, dash_mode: bool)
    ensures
        has_no_separator(flattened(raw, dash_mode)),
        no_repeated_run(flattened(raw, dash_mode), dash_mode),
        dash_mode ==> !(flattened(raw, dash_mode).len() > 0 && flattened(raw, dash_mode)[0] == '-'),
{
    let c = collapse(strip_dot_prefix(raw), 0, dash_mode);
    lemma_collapse_no_separator(strip_dot_prefix(raw), 0, dash_mode);
    lemma_collapse_no_repeat(strip_dot_prefix(raw), 0, dash_mode);
    let f = flattened(raw, dash_mode);
    if c.len() > 0 && c[0] == '-' {
        assert forall|i: int| 0 <= i < f.len() implies !is_path_separator(#[trigger] f[i]) by {
            assert(f[i] == c[i + 1]);
        }
        assert forall|i: int| 0 <= i < f.len() - 1 implies #[trigger] run_class(f[i], dash_mode) == 0
            || run_class(f[i], dash_mode) != run_class(f[i + 1], dash_mode) by {
            assert(f[i] == c[i + 1] && f[i + 1] == c[i + 2]);
        }
        if dash_mode && f.len() > 0 {
            assert(f[0] == c[1]);
            assert(run_class(c[0], dash_mode) == 1);
        }
    }
}

/// Collapsing a text free of separators and of repeated runs, that does
/// not start with a character of the open run's class, gives the text back.
pub proof fn lemma_collapse_identity(t: Seq<char>, run: int, dash_mode: bool)
    requires
        has_no_separator(t),
        no_repeated_run(t, dash_mode),
        run != 0 && t.len() > 0 ==> run_class(t[0], dash_mode) != run,
    ensures
        collapse(t, run, dash_mode) == t,
    decreases t.len(),
{
    if t.len() > 0 {
        let rest = t.drop_first();
        assert(has_no_separator(rest)) by {
            assert forall|i: int| 0 <= i < rest.len() implies !is_path_separator(#[trigger] rest[i]) by {
                assert(rest[i] == t[i + 1]);
            }
        }
        assert(no_repeated_run(rest, dash_mode)) by {
            assert forall|i: int| 0 <= i < rest.len() - 1 implies #[trigger] run_class(rest[i], dash_mode)
                == 0 || run_class(rest[i], dash_mode) != run_class(rest[i + 1], dash_mode) by {
                assert(rest[i] == t[i + 1] && rest[i + 1] == t[i + 2]);
            }
        }
        assert(!is_path_separator(t[0]));
        if rest.len() > 0 {
            assert(rest[0] == t[1]);
            assert(run_class(t[0], dash_mode) == 0 || run_class(t[0], dash_mode) != run_class(t[1], dash_mode));
        }
        lemma_collapse_identity(rest, run_class(t[0], dash_mode), dash_mode);
        assert(t =~= seq![t[0]] + rest);
    }
}

/// Collapsing a concatenation collapses each part in turn.
pub proof fn lemma_collapse_append(a: Seq<char>, b: Seq<char>, run: int, dash_mode: bool)
    ensures
        collapse(a + b, run, dash_mode) == collapse(a, run, dash_mode) + collapse(
            b,
            run_after(a, run, dash_mode),
            dash_mode,
        ),
    decreases a.len(),
{
    if a.len() == 0 {
        assert(a + b =~= b);
    } else {
        let c = a[0];
        let rest = a.drop_first();
        assert((a + b).drop_first() =~= rest + b);
        assert((a + b)[0] == c);
        lemma_collapse_append(rest, b, run_class(c, dash_mode), dash_mode);
        if rest.len() > 0 {
            assert(rest.last() == a.last());
        }
    }
}

/// In dash mode, flattening an already flattened name changes nothing.
pub proof fn lemma_flattened_idempotent(raw: Seq<char>)
    ensures
        flattened(flattened(raw, true), true) == flattened(raw, true),
{
    let t = flattened(raw, true);
    lemma_flattened_shape(raw, true);
    if t.len() >= 2 {
        assert(!is_path_separator(t[1]));
    }
    assert(strip_dot_prefix(t) == t);
    lemma_collapse_identity(t, 0, true);
}

/// A path separator right after another one changes nothing in the
/// flattened name, unless the first one directly follows a leading `.`.
pub proof fn lemma_extra_separator(x: Seq<char>, y: Seq<char>, c1: char, c2: char, dash_mode: bool)
    requires
        is_path_separator(c1),
        is_path_separator(c2),
        x != seq!['.'],
    ensures
        flattened(x + seq![c1] + y, dash_mode) == flattened(x + seq![c1, c2] + y, dash_mode),
{
    let w1 = seq![c1] + y;
    let w2 = seq![c1, c2] + y;
    assert(x + seq![c1] + y =~= x + w1);
    assert(x + seq![c1, c2] + y =~= x + w2);
    assert(w1[0] == c1 && w2[0] == c1);
    assert(w1.drop_first() =~= y);
    assert(w2.drop_first() =~= seq![c2] + y);
    assert((seq![c2] + y).drop_first() =~= y);
    assert((seq![c2] + y)[0] == c2);
    let xs = strip_dot_prefix(x);
    if x.len() >= 2 {
        assert((x + w1)[0] == x[0] && (x + w1)[1] == x[1]);
        assert((x + w2)[0] == x[0] && (x + w2)[1] == x[1]);
        if x[0] == '.' && is_path_separator(x[1]) {
            assert((x + w1).skip(2) =~= x.skip(2) + w1);
            assert((x + w2).skip(2) =~= x.skip(2) + w2);
        }
    } else if x.len() == 1 {
        assert((x + w1)[1] == c1);
        if x[0] == '.' {
            assert(x =~= seq!['.']);
        }
        assert((x + w1)[0] == x[0] && (x + w2)[0] == x[0]);
    } else {
        assert(x + w1 =~= w1);
        assert(x + w2 =~= w2);
    }
    assert(strip_dot_prefix(x + w1) == xs + w1);
    assert(strip_dot_prefix(x + w2) == xs + w2);
    lemma_collapse_append(xs, w1, 0, dash_mode);
    lemma_collapse_append(xs, w2, 0, dash_mode);
    let f = run_after(xs, 0, dash_mode);
    assert(collapse(seq![c2] + y, 1, dash_mode) == collapse(y, 1, dash_mode));
    assert(collapse(w1, f, dash_mode) == collapse(w2, f, dash_mode));
    assert(x + seq![c1] + y == x + w1);
    assert(x + seq![c1, c2] + y == x + w2);
}

/// A character that flattening may drop, rewrite or add: a path
/// separator, a dot or a dash.
pub open spec fn is_link_punct(c: char) -> bool {
    c == '/' || c == '\\' || c == '.' || c == '-'
}

/// The characters of `s` other than separators, dots and dashes, in order.
pub open spec fn plain_chars(s: Seq<char>) -> Seq<char>
    decreases s.len(),
{
    if s.len() == 0 {
        Seq::empty()
    } else if is_link_punct(s[0]) {
        plain_chars(s.drop_first())
    } else {
        seq![s[0]] + plain_chars(s.drop_first())
    }
}

/// Only separators, dots and dashes collapse: every other character keeps
/// its run class `0`.
proof fn lemma_plain_class(c: char, dash_mode: bool)
    ensures
        run_class(c, dash_mode) != 0 ==> is_link_punct(c),
{
}

/// Collapsing keeps every character other than separators, dots and
/// dashes, in order.
proof fn lemma_collapse_keeps_plain(s: Seq<char>, run: int, dash_mode: bool)
    ensures
        plain_chars(collapse(s, run, dash_mode)) == plain_chars(s),
    decreases s.len(),
{
    if s.len() > 0 {
        let c = s[0];
        let rest = s.drop_first();
        let k = run_class(c, dash_mode);
        lemma_collapse_keeps_plain(rest, k, dash_mode);
        lemma_plain_class(c, dash_mode);
        let t = collapse(rest, k, dash_mode);
        let r = collapse(s, run, dash_mode);
        if k == 0 || k != run {
            assert(r == seq![r[0]] + t);
            assert((seq![r[0]] + t).drop_first() =~= t);
        }
    }
}

/// Dropping a leading part made only of separators, dots and dashes keeps
/// the plain characters.
proof fn lemma_plain_skip(s: Seq<char>, n: int)
    requires
        0 <= n <= s.len(),
        forall|i: int| 0 <= i < n ==> is_link_punct(#[trigger] s[i]),
    ensures
        plain_chars(s.skip(n)) == plain_chars(s),
    decreases n,
{
    if n > 0 {
        assert(is_link_punct(s[0]));
        assert forall|i: int| 0 <= i < n - 1 implies is_link_punct(#[trigger] s.drop_first()[i]) by {
            assert(s.drop_first()[i] == s[i + 1]);
        }
        lemma_plain_skip(s.drop_first(), n - 1);
        assert(s.drop_first().skip(n - 1) =~= s.skip(n));
    } else {
        assert(s.skip(0) =~= s);
    }
}

/// Flattening keeps every character other than path separators, dots and
/// dashes, in order and without loss: it only drops, rewrites or keeps
/// those.
pub proof fn law_flatten_keeps_plain_chars(raw: Seq<char>, dash_mode: bool)
    ensures
        plain_chars(flattened(raw, dash_mode)) == plain_chars(raw),
{
    let s = strip_dot_prefix(raw);
    if raw.len() >= 2 && raw[0] == '.' && is_path_separator(raw[1]) {
        lemma_plain_skip(raw, 2);
    }
    lemma_collapse_keeps_plain(s, 0, dash_mode);
    let c = collapse(s, 0, dash_mode);
    if c.len() > 0 && c[0] == '-' {
        lemma_plain_skip(c, 1);
        assert(c.skip(1) =~= c.drop_first());
    }
}

/// A path without separators, dots or dashes is its own flattened form.
pub proof fn law_flatten_plain_unchanged(raw: Seq<char>, dash_mode: bool)
    requires
        forall|i: int| 0 <= i < raw.len() ==> !is_link_punct(#[trigger] raw[i]),
    ensures
        flattened(raw, dash_mode) == raw,
{
    assert forall|i: int| 0 <= i < raw.len() implies !is_path_separator(#[trigger] raw[i]) by {
        assert(!is_link_punct(raw[i]));
    }
    assert forall|i: int| 0 <= i < raw.len() - 1 implies #[trigger] run_class(raw[i], dash_mode) == 0
        || run_class(raw[i], dash_mode) != run_class(raw[i + 1], dash_mode) by {
        assert(!is_link_punct(raw[i]));
        lemma_plain_class(raw[i], dash_mode);
    }
    if raw.len() >= 2 {
        assert(!is_link_punct(raw[0]));
    }
    lemma_collapse_identity(raw, 0, dash_mode);
    if raw.len() > 0 {
        assert(!is_link_punct(raw[0]));
    }
}

} // verus!
