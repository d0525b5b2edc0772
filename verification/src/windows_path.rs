//! Windows path text: the prefixes a path may start with (`C:`,
//! `\\server\share`, `\\.\device`, and the verbatim `\\?\` forms), and the
//! parts a path splits into, as far as joining paths needs them.
use vstd::prelude::*;

use crate::text::{chars_of, string_from_chars};

verus! {

/// `/` or `\`, both separators in an ordinary Windows path.
pub open spec fn is_sep_either(c: char) -> bool {
    c == '/' || c == '\\'
}

/// Whether `c` separates two parts: in a verbatim path only `\` does.
pub open spec fn is_part_sep(c: char, verbatim: bool) -> bool {
    c == '\\' || (!verbatim && c == '/')
}

/// An ASCII letter.
pub open spec fn is_ascii_letter(c: char) -> bool {
    ('a' <= c && c <= 'z') || ('A' <= c && c <= 'Z')
}

/// The index of the first separator at or after `i`, or the length of `s`
/// when there is none.
pub open spec fn next_sep(s: Seq<char>, i: int, verbatim: bool) -> int
    decreases s.len() - i,
{
    if i >= s.len() {
        s.len() as int
    } else if is_part_sep(s[i], verbatim) {
        i
    } else {
        next_sep(s, i + 1, verbatim)
    }
}

/// `s` starts with two separators.
pub open spec fn two_seps(s: Seq<char>) -> bool {
    s.len() >= 2 && is_sep_either(s[0]) && is_sep_either(s[1])
}

/// `s` starts with the verbatim marker `\\?\`.
pub open spec fn verbatim_marker(s: Seq<char>) -> bool {
    two_seps(s) && s.len() >= 4 && s[2] == '?' && is_sep_either(s[3])
}

/// `s` starts with the device marker `\\.\`.
pub open spec fn device_marker(s: Seq<char>) -> bool {
    two_seps(s) && s.len() >= 4 && s[2] == '.' && is_sep_either(s[3])
}

/// `s` starts with the verbatim UNC marker `\\?\UNC\`.
pub open spec fn verbatim_unc_marker(s: Seq<char>) -> bool {
    verbatim_marker(s) && s.len() >= 8 && s[4] == 'U' && s[5] == 'N' && s[6] == 'C' && is_sep_either(s[7])
}

/// A drive such as `C:` stands at index `i` of `s`.
pub open spec fn drive_at(s: Seq<char>, i: int) -> bool {
    0 <= i && s.len() >= i + 2 && is_ascii_letter(s[i]) && s[i + 1] == ':'
}

/// Where a server name starting at `i` and the share name after it end:
/// the end of the share, or `None` when the share is empty.
pub open spec fn share_end(s: Seq<char>, i: int, verbatim: bool) -> Option<int> {
    let e1 = next_sep(s, i, verbatim);
    if e1 < s.len() && next_sep(s, e1 + 1, verbatim) > e1 + 1 {
        Some(next_sep(s, e1 + 1, verbatim))
    } else {
        None
    }
}

/// The length of the prefix of the Windows path `s`, `0` when it has none:
/// `\\?\UNC\server\share`, `\\?\C:`, `\\?\name`, `\\.\name`,
/// `\\server\share` (both names non-empty) or `C:`. In the markers at the
/// start either separator counts; inside a verbatim prefix only `\` ends a
/// name.
pub open spec fn prefix_len(s: Seq<char>) -> int {
    if verbatim_marker(s) {
        if verbatim_unc_marker(s) {
            match share_end(s, 8, true) {
                Some(e) => e,
                None => next_sep(s, 8, true),
            }
        } else if drive_at(s, 4) && (s.len() == 6 || s[6] == '\\') {
            6
        } else {
            next_sep(s, 4, true)
        }
    } else if device_marker(s) {
        next_sep(s, 4, false)
    } else if two_seps(s) {
        if next_sep(s, 2, false) > 2 {
            match share_end(s, 2, false) {
                Some(e) => e,
                None => 0,
            }
        } else {
            0
        }
    } else if drive_at(s, 0) {
        2
    } else {
        0
    }
}

/// A part of a path: its root, `.`, `..`, or a name.
pub enum PathPart {
    Root,
    Cur,
    Parent,
    Normal(Seq<char>),
}

/// The parts one piece between separators gives: none for an empty piece or
/// for `.` outside a verbatim path.
pub open spec fn piece_parts(p: Seq<char>, verbatim: bool) -> Seq<PathPart> {
    if p.len() == 0 {
        Seq::empty()
    } else if p == seq!['.'] {
        if verbatim {
            seq![PathPart::Cur]
        } else {
            Seq::empty()
        }
    } else if p == seq!['.', '.'] {
        seq![PathPart::Parent]
    } else {
        seq![PathPart::Normal(p)]
    }
}

/// The parts of `s`, the piece `cur` having been read before it.
pub open spec fn parts_from(s: Seq<char>, cur: Seq<char>, verbatim: bool) -> Seq<PathPart>
    decreases s.len(),
{
    if s.len() == 0 {
        piece_parts(cur, verbatim)
    } else if is_part_sep(s[0], verbatim) {
        piece_parts(cur, verbatim) + parts_from(s.drop_first(), Seq::empty(), verbatim)
    } else {
        parts_from(s.drop_first(), cur.push(s[0]), verbatim)
    }
}

/// The parts of what follows a path's prefix: a root when it starts with a
/// separator, then its pieces.
pub open spec fn body_parts(body: Seq<char>, verbatim: bool) -> Seq<PathPart> {
    if body.len() > 0 && is_sep_either(body[0]) {
        seq![PathPart::Root] + parts_from(body.drop_first(), Seq::empty(), verbatim)
    } else {
        parts_from(body, Seq::empty(), verbatim)
    }
}

/// The parts after the prefix once `parts` are added to `buf`: a root
/// drops everything but the prefix, `.` is dropped, and `..` removes the
/// name before it.
pub open spec fn apply_parts(buf: Seq<PathPart>, parts: Seq<PathPart>) -> Seq<PathPart>
    decreases parts.len(),
{
    if parts.len() == 0 {
        buf
    } else {
        let next = match parts[0] {
            PathPart::Root => seq![PathPart::Root],
            PathPart::Cur => buf,
            PathPart::Parent => if buf.len() > 0 && buf.last() is Normal {
                buf.drop_last()
            } else {
                buf
            },
            PathPart::Normal(x) => buf.push(PathPart::Normal(x)),
        };
        apply_parts(next, parts.drop_first())
    }
}

/// The text of a part other than the root.
pub open spec fn part_text(p: PathPart) -> Seq<char> {
    match p {
        PathPart::Root => seq!['\\'],
        PathPart::Cur => seq!['.'],
        PathPart::Parent => seq!['.', '.'],
        PathPart::Normal(x) => x,
    }
}

/// The parts written out with `\`: no separator right after the root, and
/// one before every other part when `need_sep` holds or a part came
/// before.
pub open spec fn render_parts(parts: Seq<PathPart>, need_sep: bool) -> Seq<char>
    decreases parts.len(),
{
    if parts.len() == 0 {
        Seq::empty()
    } else if parts[0] is Root {
        seq!['\\'] + render_parts(parts.drop_first(), false)
    } else {
        (if need_sep {
            seq!['\\']
        } else {
            Seq::<char>::empty()
        }) + part_text(parts[0]) + render_parts(parts.drop_first(), true)
    }
}

/// `rel`, which has no prefix and is not empty, joined to `base`, which has
/// a verbatim prefix: the parts are put together, `.` and `..` resolved,
/// and the whole written out again after the prefix.
pub open spec fn verbatim_joined(base: Seq<char>, rel: Seq<char>) -> Seq<char> {
    let n = prefix_len(base);
    base.take(n) + render_parts(
        apply_parts(body_parts(base.skip(n), true), body_parts(rel, false)),
        true,
    )
}

/// `rel` appended to `base` as Windows' `PathBuf::join` does it. A `rel`
/// with a prefix stands on its own. After a verbatim `base`, a non-empty
/// `rel` is resolved part by part. A `rel` that starts with a separator
/// keeps only the prefix of `base`. Otherwise `\` goes between the two
/// unless `base` is empty, ends with a separator or is a bare drive `C:`.
pub open spec fn windows_joined(base: Seq<char>, rel: Seq<char>) -> Seq<char> {
    if prefix_len(rel) > 0 {
        rel
    } else if verbatim_marker(base) && rel.len() > 0 {
        verbatim_joined(base, rel)
    } else if rel.len() > 0 && is_sep_either(rel[0]) {
        base.take(prefix_len(base)) + rel
    } else if base.len() == 0 || is_sep_either(base.last()) || (drive_at(base, 0) && base.len() == 2) {
        base + rel
    } else {
        base + seq!['\\'] + rel
    }
}

/// A part of a path, as the program holds it.
pub enum Part {
    Root,
    Cur,
    Parent,
    Normal(Vec<char>),
}

/// What a `Part` stands for.
pub open spec fn part_view(p: Part) -> PathPart {
    match p {
        Part::Root => PathPart::Root,
        Part::Cur => PathPart::Cur,
        Part::Parent => PathPart::Parent,
        Part::Normal(x) => PathPart::Normal(x@),
    }
}

/// What a sequence of `Part`s stands for.
pub open spec fn parts_view(v: Seq<Part>) -> Seq<PathPart> {
    v.map_values(|p: Part| part_view(p))
}

/// Computes `is_part_sep(c, verbatim)`.
fn part_sep(c: char, verbatim: bool) -> (r: bool)
    ensures
        r == is_part_sep(c, verbatim),
{
    c == '\\' || (!verbatim && c == '/')
}

/// Computes `is_sep_either(c)`.
fn sep_either(c: char) -> (r: bool)
    ensures
        r == is_sep_either(c),
{
    c == '/' || c == '\\'
}

/// Computes `next_sep(v, i, verbatim)`.
fn next_sep_at(v: &Vec<char>, i: usize, verbatim: bool) -> (r: usize)
    requires
        i <= v.len(),
    ensures
        r as int == next_sep(v@, i as int, verbatim),
        i <= r <= v.len(),
{
    let mut j = i;
    while j < v.len() && !part_sep(v[j], verbatim)
        invariant
            i <= j <= v.len(),
            next_sep(v@, j as int, verbatim) == next_sep(v@, i as int, verbatim),
        decreases v.len() - j,
    {
        j += 1;
    }
    j
}

/// Computes `two_seps(v)`.
fn starts_two_seps(v: &Vec<char>) -> (r: bool)
    ensures
        r == two_seps(v@),
{
    v.len() >= 2 && sep_either(v[0]) && sep_either(v[1])
}

/// Computes `drive_at(v, i)`.
fn drive_at_exec(v: &Vec<char>, i: usize) -> (r: bool)
    ensures
        r == drive_at(v@, i as int),
{
    i <= v.len() && v.len() - i >= 2 && (('a' <= v[i] && v[i] <= 'z') || ('A' <= v[i] && v[i] <= 'Z'))
        && v[i + 1] == ':'
}

/// Computes `verbatim_marker(v)`.
fn has_verbatim_marker(v: &Vec<char>) -> (r: bool)
    ensures
        r == verbatim_marker(v@),
{
    starts_two_seps(v) && v.len() >= 4 && v[2] == '?' && sep_either(v[3])
}

/// Computes `share_end(v, i, verbatim)`.
fn share_end_at(v: &Vec<char>, i: usize, verbatim: bool) -> (r: Option<usize>)
    requires
        i <= v.len(),
    ensures
        match r {
            Some(e) => share_end(v@, i as int, verbatim) == Some(e as int),
            None => share_end(v@, i as int, verbatim) is None,
        },
        r matches Some(e) ==> e <= v.len(),
{
    let e1 = next_sep_at(v, i, verbatim);
    if e1 < v.len() {
        let e2 = next_sep_at(v, e1 + 1, verbatim);
        if e2 > e1 + 1 {
            return Some(e2);
        }
    }
    None
}

/// Computes `prefix_len(v)`.
pub fn prefix_len_of(v: &Vec<char>) -> (r: usize)
    ensures
        r as int == prefix_len(v@),
        r <= v.len(),
{
    if has_verbatim_marker(v) {
        if v.len() >= 8 && v[4] == 'U' && v[5] == 'N' && v[6] == 'C' && sep_either(v[7]) {
            match share_end_at(v, 8, true) {
                Some(e) => e,
                None => next_sep_at(v, 8, true),
            }
        } else if drive_at_exec(v, 4) && (v.len() == 6 || v[6] == '\\') {
            6
        } else {
            next_sep_at(v, 4, true)
        }
    } else if starts_two_seps(v) && v.len() >= 4 && v[2] == '.' && sep_either(v[3]) {
        next_sep_at(v, 4, false)
    } else if starts_two_seps(v) {
        if next_sep_at(v, 2, false) > 2 {
            match share_end_at(v, 2, false) {
                Some(e) => e,
                None => 0,
            }
        } else {
            0
        }
    } else if drive_at_exec(v, 0) {
        2
    } else {
        0
    }
}

/// Appends the parts of the piece `cur` to `out`.
fn push_piece(out: &mut Vec<Part>, cur: Vec<char>, verbatim: bool)
    ensures
        parts_view(final(out)@) == parts_view(old(out)@) + piece_parts(cur@, verbatim),
{
    let ghost o = out@;
    if cur.len() == 0 {
        assert(parts_view(out@) =~= parts_view(o) + piece_parts(cur@, verbatim));
    } else if cur.len() == 1 && cur[0] == '.' {
        assert(cur@ =~= seq!['.']);
        if verbatim {
            out.push(Part::Cur);
        }
        assert(parts_view(out@) =~= parts_view(o) + piece_parts(cur@, verbatim));
    } else if cur.len() == 2 && cur[0] == '.' && cur[1] == '.' {
        assert(cur@ =~= seq!['.', '.']);
        out.push(Part::Parent);
        assert(parts_view(out@) =~= parts_view(o) + piece_parts(cur@, verbatim));
    } else {
        proof {
            if cur@ == seq!['.'] {
                assert(cur@.len() == 1 && cur@[0] == '.');
            }
            if cur@ == seq!['.', '.'] {
                assert(cur@.len() == 2 && cur@[0] == '.' && cur@[1] == '.');
            }
        }
        let ghost c = cur@;
        out.push(Part::Normal(cur));
        assert(parts_view(out@) =~= parts_view(o) + piece_parts(c, verbatim));
    }
}

/// Computes `body_parts(v.skip(start), verbatim)`.
fn body_parts_of(v: &Vec<char>, start: usize, verbatim: bool) -> (r: Vec<Part>)
    requires
        start <= v.len(),
    ensures
        parts_view(r@) == body_parts(v@.skip(start as int), verbatim),
{
    let ghost body = v@.skip(start as int);
    let mut out: Vec<Part> = Vec::new();
    let mut i = start;
    if start < v.len() && sep_either(v[start]) {
        out.push(Part::Root);
        i = start + 1;
        assert(body.drop_first() =~= v@.skip(i as int));
    }
    let ghost i0 = i;
    let ghost target = body_parts(body, verbatim);
    assert(parts_view(out@) + parts_from(v@.skip(i as int), Seq::empty(), verbatim) =~= target);
    let mut cur: Vec<char> = Vec::new();
    while i < v.len()
        invariant
            i0 <= i <= v.len(),
            parts_view(out@) + parts_from(v@.skip(i as int), cur@, verbatim) == target,
        decreases v.len() - i,
    {
        let c = v[i];
        proof {
            assert(v@.skip(i as int)[0] == c);
            assert(v@.skip(i as int).drop_first() =~= v@.skip(i + 1));
        }
        if part_sep(c, verbatim) {
            let ghost before = parts_view(out@);
            let ghost piece = cur@;
            push_piece(&mut out, cur, verbatim);
            cur = Vec::new();
            proof {
                assert(parts_view(out@) + parts_from(v@.skip(i + 1), cur@, verbatim) =~= before
                    + parts_from(v@.skip(i as int), piece, verbatim));
            }
        } else {
            cur.push(c);
        }
        i += 1;
    }
    assert(v@.skip(i as int) =~= Seq::<char>::empty());
    let ghost before = parts_view(out@);
    let ghost piece = cur@;
    push_piece(&mut out, cur, verbatim);
    assert(parts_view(out@) =~= target);
    out
}

/// A copy of `x`.
fn copy_chars(x: &Vec<char>) -> (r: Vec<char>)
    ensures
        r@ == x@,
{
    let mut r: Vec<char> = Vec::new();
    let mut i: usize = 0;
    while i < x.len()
        invariant
            i <= x.len(),
            r@ == x@.take(i as int),
        decreases x.len() - i,
    {
        r.push(x[i]);
        i += 1;
        assert(r@ =~= x@.take(i as int));
    }
    assert(x@.take(i as int) =~= x@);
    r
}

/// Computes `apply_parts(buf, parts)`.
fn apply_parts_to(buf: Vec<Part>, parts: &Vec<Part>) -> (r: Vec<Part>)
    ensures
        parts_view(r@) == apply_parts(parts_view(buf@), parts_view(parts@)),
{
    let ghost target = apply_parts(parts_view(buf@), parts_view(parts@));
    let mut cur = buf;
    let mut k: usize = 0;
    assert(parts_view(parts@).skip(0) =~= parts_view(parts@));
    while k < parts.len()
        invariant
            k <= parts.len(),
            apply_parts(parts_view(cur@), parts_view(parts@).skip(k as int)) == target,
        decreases parts.len() - k,
    {
        let ghost pv = parts_view(parts@).skip(k as int);
        let ghost before = parts_view(cur@);
        proof {
            assert(pv[0] == part_view(parts@[k as int]));
            assert(pv.drop_first() =~= parts_view(parts@).skip(k + 1));
        }
        match &parts[k] {
            Part::Root => {
                cur = Vec::new();
                cur.push(Part::Root);
                assert(parts_view(cur@) =~= seq![PathPart::Root]);
            },
            Part::Cur => {},
            Part::Parent => {
                let n = cur.len();
                if n > 0 && (match &cur[n - 1] {
                    Part::Normal(_) => true,
                    _ => false,
                }) {
                    cur.pop();
                    assert(parts_view(cur@) =~= before.drop_last());
                } else {
                    assert(!(before.len() > 0 && before.last() is Normal));
                }
            },
            Part::Normal(x) => {
                let y = copy_chars(x);
                cur.push(Part::Normal(y));
                assert(parts_view(cur@) =~= before.push(PathPart::Normal(x@)));
            },
        }
        k += 1;
    }
    assert(parts_view(parts@).skip(k as int) =~= Seq::<PathPart>::empty());
    cur
}

/// Appends the characters of `x` to `out`.
fn append_chars(out: &mut Vec<char>, x: &Vec<char>)
    ensures
        final(out)@ == old(out)@ + x@,
{
    let ghost o = out@;
    let mut i: usize = 0;
    while i < x.len()
        invariant
            i <= x.len(),
            out@ == o + x@.take(i as int),
        decreases x.len() - i,
    {
        out.push(x[i]);
        i += 1;
        assert(out@ =~= o + x@.take(i as int));
    }
    assert(x@.take(i as int) =~= x@);
}

/// Appends `render_parts(parts, need_sep)` to `out`.
fn render_parts_into(out: &mut Vec<char>, parts: &Vec<Part>, need_sep: bool)
    ensures
        final(out)@ == old(out)@ + render_parts(parts_view(parts@), need_sep),
{
    let ghost o = out@;
    let ghost all = parts_view(parts@);
    let mut need = need_sep;
    let mut k: usize = 0;
    assert(all.skip(0) =~= all);
    assert(out@ + render_parts(all.skip(0), need) =~= o + render_parts(all, need_sep));
    while k < parts.len()
        invariant
            k <= parts.len(),
            all == parts_view(parts@),
            out@ + render_parts(all.skip(k as int), need) == o + render_parts(all, need_sep),
        decreases parts.len() - k,
    {
        let ghost pv = all.skip(k as int);
        let ghost before = out@;
        let ghost need0 = need;
        proof {
            assert(pv[0] == part_view(parts@[k as int]));
            assert(pv.drop_first() =~= all.skip(k + 1));
        }
        match &parts[k] {
            Part::Root => {
                out.push('\\');
                need = false;
            },
            Part::Cur => {
                if need {
                    out.push('\\');
                }
                out.push('.');
                need = true;
            },
            Part::Parent => {
                if need {
                    out.push('\\');
                }
                out.push('.');
                out.push('.');
                need = true;
            },
            Part::Normal(x) => {
                if need {
                    out.push('\\');
                }
                append_chars(out, x);
                need = true;
            },
        }
        proof {
            let head = if pv[0] is Root {
                seq!['\\']
            } else {
                (if need0 {
                    seq!['\\']
                } else {
                    Seq::<char>::empty()
                }) + part_text(pv[0])
            };
            assert(out@ =~= before + head);
            assert(render_parts(pv, need0) == head + render_parts(pv.drop_first(), need));
        }
        k += 1;
    }
    assert(all.skip(k as int) =~= Seq::<PathPart>::empty());
}

/// The first `n` characters of `v`.
fn take_chars(v: &Vec<char>, n: usize) -> (r: Vec<char>)
    requires
        n <= v.len(),
    ensures
        r@ == v@.take(n as int),
{
    let mut r: Vec<char> = Vec::new();
    let mut i: usize = 0;
    while i < n
        invariant
            i <= n <= v.len(),
            r@ == v@.take(i as int),
        decreases n - i,
    {
        r.push(v[i]);
        i += 1;
        assert(r@ =~= v@.take(i as int));
    }
    r
}

/// Computes `windows_joined(base, rel)`.
pub fn windows_join(base: &str, rel: &str) -> (r: String)
    ensures
        r@ == windows_joined(base@, rel@),
{
    let bv = chars_of(base);
    let rv = chars_of(rel);
    if prefix_len_of(&rv) > 0 {
        return rel.to_owned();
    }
    let n = prefix_len_of(&bv);
    if has_verbatim_marker(&bv) && rv.len() > 0 {
        let base_parts = body_parts_of(&bv, n, true);
        let rel_parts = body_parts_of(&rv, 0, false);
        assert(rv@.skip(0) =~= rv@);
        let all = apply_parts_to(base_parts, &rel_parts);
        let mut out = take_chars(&bv, n);
        render_parts_into(&mut out, &all, true);
        return string_from_chars(&out, 0);
    }
    let mut out = if rv.len() > 0 && sep_either(rv[0]) {
        take_chars(&bv, n)
    } else if bv.len() == 0 || sep_either(bv[bv.len() - 1]) || (drive_at_exec(&bv, 0) && bv.len() == 2) {
        take_chars(&bv, bv.len())
    } else {
        let mut o = take_chars(&bv, bv.len());
        o.push('\\');
        o
    };
    append_chars(&mut out, &rv);
    let r = string_from_chars(&out, 0);
    proof {
        assert(bv@.take(bv.len() as int) =~= bv@);
        assert(r@ =~= windows_joined(base@, rel@));
    }
    r
}

} // verus!
