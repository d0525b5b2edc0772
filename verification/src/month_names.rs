//! The table of month names that `%B` is taken from, keyed by the
//! two-digit month number (`"01"` to `"12"`).
use vstd::prelude::*;

verus! {

/// The map that a list of `(key, name)` pairs describes; a later pair wins
/// over an earlier one with the same key.
pub open spec fn pairs_to_map(s: Seq<(Seq<char>, Seq<char>)>) -> Map<Seq<char>, Seq<char>>
    decreases s.len(),
{
    if s.len() == 0 {
        Map::empty()
    } else {
        pairs_to_map(s.drop_last()).insert(s.last().0, s.last().1)
    }
}

/// The views of a list of string pairs.
pub open spec fn pair_views(s: Seq<(String, String)>) -> Seq<(Seq<char>, Seq<char>)> {
    s.map_values(|p: (String, String)| (p.0@, p.1@))
}

/// Month names by two-digit month key.
#[derive(Clone, Debug)]
pub struct MonthNames {
    entries: Vec<(String, String)>,
}

impl View for MonthNames {
    type V = Map<Seq<char>, Seq<char>>;

    closed spec fn view(&self) -> Map<Seq<char>, Seq<char>> {
        pairs_to_map(pair_views(self.entries@))
    }
}

/// The last pair with key `k` decides the value of `k`; a key no pair has is absent.
proof fn lemma_pairs_lookup(s: Seq<(Seq<char>, Seq<char>)>, k: Seq<char>, i: int)
    requires
        -1 <= i < s.len(),
        forall|j: int| i < j < s.len() ==> (#[trigger] s[j]).0 != k,
    ensures
        i >= 0 && s[i].0 == k ==> pairs_to_map(s).dom().contains(k) && pairs_to_map(s)[k]
            == s[i].1,
        i == -1 ==> !pairs_to_map(s).dom().contains(k),
    decreases s.len(),
{
    if s.len() > 0 {
        if i < s.len() - 1 {
            assert(s.last() == s[s.len() - 1]);
            lemma_pairs_lookup(s.drop_last(), k, i);
        }
    }
}

impl MonthNames {
    /// An empty table.
    pub fn new() -> (r: MonthNames)
        ensures
            r@ == Map::<Seq<char>, Seq<char>>::empty(),
    {
        MonthNames { entries: Vec::new() }
    }

    /// Sets the name of month `key`, replacing any earlier name.
    pub fn insert(&mut self, key: String, name: String)
        ensures
            final(self)@ == old(self)@.insert(key@, name@),
    {
        let ghost old_entries = self.entries@;
        self.entries.push((key, name));
        proof {
            assert(pair_views(self.entries@).drop_last() =~= pair_views(old_entries));
        }
    }

    /// The name of month `key`, if the table has one.
    pub fn get(&self, key: &String) -> (r: Option<&String>)
        ensures
            match r {
                Some(v) => self@.dom().contains(key@) && self@[key@] == v@,
                None => !self@.dom().contains(key@),
            },
    {
        let ghost pv = pair_views(self.entries@);
        let mut i = self.entries.len();
        while i > 0
            invariant
                0 <= i <= self.entries.len(),
                pv == pair_views(self.entries@),
                forall|j: int| i <= j < pv.len() ==> (#[trigger] pv[j]).0 != key@,
            decreases i,
        {
            i -= 1;
            if self.entries[i].0 == *key {
                proof {
                    lemma_pairs_lookup(pv, key@, i as int);
                }
                return Some(&self.entries[i].1);
            }
        }
        proof {
            lemma_pairs_lookup(pv, key@, -1);
        }
        None
    }

    /// Whether the table names month `key`.
    pub fn contains_key(&self, key: &String) -> (r: bool)
        ensures
            r == self@.dom().contains(key@),
    {
        self.get(key).is_some()
    }

    /// The `(key, name)` pairs in insertion order; a later pair overrides an
    /// earlier one with the same key.
    pub fn pairs(&self) -> (r: &Vec<(String, String)>)
        ensures
            pairs_to_map(pair_views(r@)) == self@,
    {
        &self.entries
    }
}


/// After `insert(key, name)`, `get(key)` gives `name`, and every other key
/// keeps what it had.
pub proof fn law_get_after_insert(
    table: Map<Seq<char>, Seq<char>>,
    key: Seq<char>,
    name: Seq<char>,
    other: Seq<char>,
)
    ensures
        table.insert(key, name).dom().contains(key),
        table.insert(key, name)[key] == name,
        other != key ==> (table.insert(key, name).dom().contains(other) == table.dom().contains(other)),
        other != key && table.dom().contains(other) ==> table.insert(key, name)[other] == table[other],
{
}

} // verus!
