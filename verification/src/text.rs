//! Character-level helpers shared by the path and template logic.
use vstd::prelude::*;

verus! {

/// Appends one character to a string (std `String::push`).
#[verifier::external_body]
pub(crate) fn push_char(s: &mut String, c: char)
    ensures
        final(s)@ == old(s)@.push(c),
{
    s.push(c);
}

/// The characters of `s`, in order.
pub fn chars_of(s: &str) -> (r: Vec<char>)
    ensures
        r@ == s@,
{
    let mut out: Vec<char> = Vec::new();
    for c in it: s.chars()
        invariant
            out@ == it.seq().take(it.index() as int),
            it.seq() == s@,
    {
        out.push(c);
    }
    out
}


/// A string holding the characters of `v` from index `start` on.
pub fn string_from_chars(v: &Vec<char>, start: usize) -> (r: String)
    requires
        start <= v.len(),
    ensures
        r@ == v@.skip(start as int),
{
    let mut out = String::new();
    let mut i = start;
    while i < v.len()
        invariant
            start <= i <= v.len(),
            out@ == v@.subrange(start as int, i as int),
        decreases v.len() - i,
    {
        push_char(&mut out, v[i]);
        i += 1;
        assert(out@ =~= v@.subrange(start as int, i as int));
    }
    assert(v@.subrange(start as int, v.len() as int) =~= v@.skip(start as int));
    out
}

/// Appends the characters of `t` to `s`.
pub fn push_str(s: &mut String, t: &str)
    ensures
        final(s)@ == old(s)@ + t@,
{
    let ghost s0 = s@;
    for c in it: t.chars()
        invariant
            it.seq() == t@,
            s@ == s0 + it.seq().take(it.index() as int),
    {
        push_char(s, c);
        assert(s@ =~= s0 + it.seq().take(it.index() + 1));
    }
}


/// `s` with every non-overlapping occurrence of `pat`, scanned from the
/// left, replaced by `rep`.
pub open spec fn replace_all(s: Seq<char>, pat: Seq<char>, rep: Seq<char>) -> Seq<char>
    decreases s.len(),
{
    if pat.len() == 0 || s.len() == 0 {
        s
    } else if pat.len() <= s.len() && s.take(pat.len() as int) == pat {
        rep + replace_all(s.skip(pat.len() as int), pat, rep)
    } else {
        seq![s[0]] + replace_all(s.drop_first(), pat, rep)
    }
}

/// Whether `p` occurs in `v` at index `i`.
fn occurs_at(v: &Vec<char>, i: usize, p: &Vec<char>) -> (r: bool)
    requires
        i <= v.len(),
    ensures
        r == (p.len() <= v.len() - i && v@.skip(i as int).take(p.len() as int) == p@),
{
    if p.len() > v.len() - i {
        return false;
    }
    let mut j: usize = 0;
    while j < p.len()
        invariant
            p.len() <= v.len() - i,
            j <= p.len(),
            forall|k: int| 0 <= k < j ==> v@[i + k] == p@[k],
        decreases p.len() - j,
    {
        if v[i + j] != p[j] {
            assert(v@.skip(i as int).take(p.len() as int)[j as int] != p@[j as int]);
            return false;
        }
        j += 1;
    }
    assert(v@.skip(i as int).take(p.len() as int) =~= p@);
    true
}

/// Replaces every non-overlapping occurrence of the non-empty `pat` in `s`
/// by `rep` (as `str::replace` does).
pub fn replace_all_str(s: &str, pat: &str, rep: &str) -> (r: String)
    requires
        pat@.len() > 0,
    ensures
        r@ == replace_all(s@, pat@, rep@),
{
    let v = chars_of(s);
    let p = chars_of(pat);
    let mut out = String::new();
    let mut i: usize = 0;
    assert(v@.skip(0) =~= v@);
    assert(out@ + replace_all(v@.skip(0), p@, rep@) =~= replace_all(v@, p@, rep@));
    while i < v.len()
        invariant
            i <= v.len(),
            p@ == pat@,
            p@.len() > 0,
            out@ + replace_all(v@.skip(i as int), p@, rep@) == replace_all(v@, p@, rep@),
        decreases v.len() - i,
    {
        let ghost before = out@;
        let ghost rest = v@.skip(i as int);
        if occurs_at(&v, i, &p) {
            push_str(&mut out, rep);
            proof {
                assert(rest.skip(p@.len() as int) =~= v@.skip(i + p@.len()));
            }
            i += p.len();
        } else {
            push_char(&mut out, v[i]);
            proof {
                assert(rest.drop_first() =~= v@.skip(i + 1));
                assert(rest[0] == v@[i as int]);
            }
            i += 1;
        }
        proof {
            assert(out@ + replace_all(v@.skip(i as int), p@, rep@) =~= before + replace_all(rest, p@, rep@));
        }
    }
    assert(v@.skip(i as int) =~= Seq::<char>::empty());
    assert(v@.skip(0) =~= v@);
    out
}

} // verus!
