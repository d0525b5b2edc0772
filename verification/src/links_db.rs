//! The record of created links: which link points to which day directory,
//! and for which date it was made.
use vstd::prelude::*;

use crate::date::{chrono_format, chrono_parse, next_ymd, ymd_lt, Date};
use crate::paths::{is_main_separator, join_with, joined, main_separator};

verus! {

/// What a link entry holds, as character sequences.
pub struct LinkRecord {
    pub link_path: Seq<char>,
    pub target_path: Seq<char>,
    pub created_date: Seq<char>,
}

/// An entry in the record of created links.
#[derive(Clone, Debug)]
pub struct LinkEntry {
    /// Path of the link.
    pub link_path: String,
    /// Path of the directory the link points to.
    pub target_path: String,
    /// Date it was created for (ISO: `YYYY-MM-DD`).
    pub created_date: String,
}

impl View for LinkEntry {
    type V = LinkRecord;

    open spec fn view(&self) -> LinkRecord {
        LinkRecord {
            link_path: self.link_path@,
            target_path: self.target_path@,
            created_date: self.created_date@,
        }
    }
}

/// The record of created links.
#[derive(Clone, Debug)]
pub struct LinksDatabase {
    pub links: Vec<LinkEntry>,
}

/// The views of a list of entries.
pub open spec fn record_views(v: Seq<LinkEntry>) -> Seq<LinkRecord> {
    v.map_values(|e: LinkEntry| e@)
}

impl View for LinksDatabase {
    type V = Seq<LinkRecord>;

    open spec fn view(&self) -> Seq<LinkRecord> {
        record_views(self.links@)
    }
}

/// Some entry of `s` is for the link at `path`.
pub open spec fn has_link(s: Seq<LinkRecord>, path: Seq<char>) -> bool {
    exists|i: int| 0 <= i < s.len() && (#[trigger] s[i]).link_path == path
}

/// The ISO date format that entries are written and read with.
pub open spec fn iso_format() -> Seq<char> {
    seq!['%', 'Y', '-', '%', 'm', '-', '%', 'd']
}

/// An entry is stale when its target directory is gone, or when its date
/// cannot be read or lies before `today`.
pub open spec fn is_stale(e: LinkRecord, target_exists: bool, today: Date) -> bool {
    ||| !target_exists
    ||| match chrono_parse(e.created_date, iso_format()) {
        Some(t) => ymd_lt((t.0 as int, t.1 as int, t.2 as int), today.ymd()),
        None => true,
    }
}

/// The entries of `s` that are not stale, in order.
pub open spec fn surviving(s: Seq<LinkRecord>, exists: Seq<bool>, today: Date) -> Seq<LinkRecord>
    decreases s.len(),
{
    if s.len() == 0 {
        Seq::empty()
    } else {
        let rest = surviving(s.drop_last(), exists.drop_last(), today);
        if is_stale(s.last(), exists[s.len() - 1], today) {
            rest
        } else {
            rest.push(s.last())
        }
    }
}

/// The stale entries of `s`, in order.
pub open spec fn stale(s: Seq<LinkRecord>, exists: Seq<bool>, today: Date) -> Seq<LinkRecord>
    decreases s.len(),
{
    if s.len() == 0 {
        Seq::empty()
    } else {
        let rest = stale(s.drop_last(), exists.drop_last(), today);
        if is_stale(s.last(), exists[s.len() - 1], today) {
            rest.push(s.last())
        } else {
            rest
        }
    }
}

impl LinksDatabase {
    /// An empty record.
    pub fn new() -> (r: LinksDatabase)
        ensures
            r@ == Seq::<LinkRecord>::empty(),
    {
        LinksDatabase { links: Vec::new() }
    }

    /// Registers a new link.
    pub fn insert(&mut self, entry: LinkEntry)
        ensures
            final(self)@ == old(self)@.push(entry@),
    {
        self.links.push(entry);
        assert(self@ =~= old(self)@.push(entry@));
    }

    /// Whether some entry is for the link at `path`.
    pub fn contains_link(&self, path: &String) -> (r: bool)
        ensures
            r == has_link(self@, path@),
    {
        let mut i: usize = 0;
        while i < self.links.len()
            invariant
                i <= self.links.len(),
                forall|j: int| 0 <= j < i ==> (#[trigger] self@[j]).link_path != path@,
            decreases self.links.len() - i,
        {
            if self.links[i].link_path == *path {
                assert(self@[i as int].link_path == path@);
                return true;
            }
            i += 1;
        }
        false
    }

    /// Drops the stale entries: those whose target directory no longer
    /// exists (`target_exists[i]` tells it for entry `i`), and those whose
    /// date is unreadable or before `today`. Returns the dropped entries, in
    /// order, so that their links can be deleted.
    pub fn cleanup_stale(&mut self, today: Date, target_exists: &Vec<bool>) -> (removed: Vec<LinkEntry>)
        requires
            old(self).links.len() == target_exists.len(),
        ensures
            final(self)@ == surviving(old(self)@, target_exists@, today),
            record_views(removed@) == stale(old(self)@, target_exists@, today),
    {
        let ghost all = self@;
        let mut old_links: Vec<LinkEntry> = Vec::new();
        std::mem::swap(&mut old_links, &mut self.links);
        assert(record_views(old_links@) == all);
        let mut kept: Vec<LinkEntry> = Vec::new();
        let mut removed: Vec<LinkEntry> = Vec::new();
        let mut i: usize = 0;
        for entry in it: old_links.into_iter()
            invariant
                it.seq() == old_links@,
                i == it.index(),
                i <= all.len(),
                all.len() == target_exists.len(),
                record_views(old_links@) == all,
                record_views(kept@) == surviving(all.take(i as int), target_exists@.take(i as int), today),
                record_views(removed@) == stale(all.take(i as int), target_exists@.take(i as int), today),
        {
            proof {
                assert(all.take(i + 1).drop_last() =~= all.take(i as int));
                assert(target_exists@.take(i + 1).drop_last() =~= target_exists@.take(i as int));
                assert(all[i as int] == entry@);
            }
            let ok_target = target_exists[i];
            let stale_now = if !ok_target {
                true
            } else {
                proof {
                    reveal_strlit("%Y-%m-%d");
                    assert("%Y-%m-%d"@ =~= iso_format());
                }
                match Date::parse_from_str(entry.created_date.as_str(), "%Y-%m-%d") {
                    Some(d) => d.is_before(&today),
                    None => true,
                }
            };
            if stale_now {
                removed.push(entry);
                assert(record_views(removed@) =~= stale(all.take(i + 1), target_exists@.take(i + 1), today));
                assert(record_views(kept@) =~= surviving(all.take(i + 1), target_exists@.take(i + 1), today));
            } else {
                kept.push(entry);
                assert(record_views(removed@) =~= stale(all.take(i + 1), target_exists@.take(i + 1), today));
                assert(record_views(kept@) =~= surviving(all.take(i + 1), target_exists@.take(i + 1), today));
            }
            i += 1;
        }
        assert(all.take(i as int) =~= all);
        assert(target_exists@.take(i as int) =~= target_exists@);
        self.links = kept;
        removed
    }
}


/// What became of one link.
#[derive(Clone, Copy, Debug, PartialEq, Eq, Structural)]
pub enum LinkOutcome {
    /// The link was made.
    Created,
    /// Making the link failed.
    Failed,
    /// A file already stands at the link's path.
    AlreadyPresent,
    /// The directory meant to hold the link does not exist.
    Skipped,
}

/// What to do about one duplicate link.
#[derive(Clone, Copy, Debug, PartialEq, Eq, Structural)]
pub enum DuplicateAction {
    /// The directory meant to hold it is missing: leave it.
    Skip,
    /// Something already stands at its path: only record it.
    Register,
    /// Make it.
    Create,
}

/// Decides about a duplicate link from whether its directory exists and
/// whether something already stands at its path.
pub fn duplicate_action(dir_exists: bool, link_exists: bool) -> (r: DuplicateAction)
    ensures
        r == (if !dir_exists {
            DuplicateAction::Skip
        } else if link_exists {
            DuplicateAction::Register
        } else {
            DuplicateAction::Create
        }),
{
    if !dir_exists {
        DuplicateAction::Skip
    } else if link_exists {
        DuplicateAction::Register
    } else {
        DuplicateAction::Create
    }
}

/// The links to make for one day.
#[derive(Clone, Debug)]
pub struct LinkPlan {
    /// The flattened file name of the links.
    pub link_name: String,
    /// The primary link, in the root directory.
    pub link_path: String,
    /// The day directory the links point to.
    pub target_path: String,
    /// The day, in ISO form.
    pub created_date: String,
    /// One link per extra directory, in the configured order.
    pub duplicate_paths: Vec<String>,
    /// The platform's path separator, used to join the paths above.
    pub separator: char,
}

impl LinkPlan {
    /// The plan holds links named `name` to `day_dir`, in `root` and in each
    /// of `duplicate_roots`, for `date`, with paths joined by the platform
    /// separator it records.
    pub open spec fn describes(
        self,
        name: Seq<char>,
        root: Seq<char>,
        day_dir: Seq<char>,
        date: Date,
        duplicate_roots: Seq<Seq<char>>,
    ) -> bool {
        &&& is_main_separator(self.separator)
        &&& self.link_name@ == name
        &&& self.link_path@ == joined(root, name, self.separator)
        &&& self.target_path@ == day_dir
        &&& chrono_format(date.y() as i32, date.m() as u32, date.d() as u32, iso_format()) == Some(
            self.created_date@,
        )
        &&& self.duplicate_paths.len() == duplicate_roots.len()
        &&& forall|k: int|
            0 <= k < duplicate_roots.len() ==> (#[trigger] self.duplicate_paths[k])@ == joined(
                duplicate_roots[k],
                name,
                self.separator,
            )
    }

    /// The plan for links named `link_name` to `day_dir`, made in `root`
    /// and in each of `duplicate_roots`, for `date`.
    pub fn new(
        link_name: String,
        root: &str,
        day_dir: &str,
        date: Date,
        duplicate_roots: &Vec<String>,
    ) -> (r: LinkPlan)
        ensures
            r.describes(link_name@, root@, day_dir@, date, duplicate_roots@.map_values(|s: String| s@)),
    {
        let separator = main_separator();
        let link_path = join_with(root, link_name.as_str(), separator);
        let created_date = date.to_iso_string();
        proof {
            reveal_strlit("%Y-%m-%d");
            assert("%Y-%m-%d"@ =~= iso_format());
        }
        let mut duplicate_paths: Vec<String> = Vec::new();
        let mut k: usize = 0;
        while k < duplicate_roots.len()
            invariant
                k <= duplicate_roots.len(),
                is_main_separator(separator),
                duplicate_paths.len() == k,
                forall|j: int|
                    0 <= j < k ==> (#[trigger] duplicate_paths[j])@ == joined(
                        duplicate_roots[j]@,
                        link_name@,
                        separator,
                    ),
            decreases duplicate_roots.len() - k,
        {
            duplicate_paths.push(join_with(duplicate_roots[k].as_str(), link_name.as_str(), separator));
            k += 1;
        }
        let r = LinkPlan {
            link_name,
            link_path,
            target_path: day_dir.to_owned(),
            created_date,
            duplicate_paths,
            separator,
        };
        assert(r.describes(r.link_name@, root@, day_dir@, date, duplicate_roots@.map_values(|s: String| s@)));
        r
    }
}

/// The entry recording the link at `path`.
pub open spec fn entry_for(path: Seq<char>, target: Seq<char>, date: Seq<char>) -> LinkRecord {
    LinkRecord { link_path: path, target_path: target, created_date: date }
}

/// `s` with an entry for `path` added unless it already has one.
pub open spec fn with_link(s: Seq<LinkRecord>, path: Seq<char>, target: Seq<char>, date: Seq<char>) -> Seq<LinkRecord> {
    if has_link(s, path) {
        s
    } else {
        s.push(entry_for(path, target, date))
    }
}

/// The record after the duplicate links `paths` had the outcomes `outs`: a
/// made link is recorded, a link already in place is recorded unless it
/// already is, the others leave the record unchanged.
pub open spec fn after_duplicates(
    s: Seq<LinkRecord>,
    paths: Seq<Seq<char>>,
    outs: Seq<LinkOutcome>,
    target: Seq<char>,
    date: Seq<char>,
) -> Seq<LinkRecord>
    decreases paths.len(),
{
    if paths.len() == 0 {
        s
    } else {
        let prev = after_duplicates(s, paths.drop_last(), outs.drop_last(), target, date);
        let p = paths.last();
        match outs[paths.len() - 1] {
            LinkOutcome::Created => prev.push(entry_for(p, target, date)),
            LinkOutcome::AlreadyPresent => with_link(prev, p, target, date),
            _ => prev,
        }
    }
}

/// The record after the links of `plan` had their outcomes: the primary
/// link is recorded unless it already is, then the duplicates follow.
pub open spec fn after_plan(
    s: Seq<LinkRecord>,
    plan: LinkPlan,
    outs: Seq<LinkOutcome>,
) -> Seq<LinkRecord> {
    after_duplicates(
        with_link(s, plan.link_path@, plan.target_path@, plan.created_date@),
        plan.duplicate_paths@.map_values(|p: String| p@),
        outs,
        plan.target_path@,
        plan.created_date@,
    )
}

/// Some link was made.
pub open spec fn any_created(primary: LinkOutcome, outs: Seq<LinkOutcome>) -> bool {
    primary == LinkOutcome::Created || exists|k: int| 0 <= k < outs.len() && outs[k] == LinkOutcome::Created
}

impl LinksDatabase {
    /// Records the links of `plan` after they were attempted: `primary` is
    /// what became of the primary link and `duplicates[k]` of the `k`-th
    /// duplicate. Returns whether any link was made (and the record is to
    /// be saved).
    pub fn record_link_outcomes(
        &mut self,
        plan: &LinkPlan,
        primary: LinkOutcome,
        duplicates: &Vec<LinkOutcome>,
    ) -> (r: bool)
        requires
            duplicates.len() == plan.duplicate_paths.len(),
        ensures
            final(self)@ == after_plan(old(self)@, *plan, duplicates@),
            r == any_created(primary, duplicates@),
    {
        let ghost paths = plan.duplicate_paths@.map_values(|p: String| p@);
        let mut created = primary == LinkOutcome::Created;
        if !self.contains_link(&plan.link_path) {
            self.insert(LinkEntry {
                link_path: plan.link_path.clone(),
                target_path: plan.target_path.clone(),
                created_date: plan.created_date.clone(),
            });
        }
        let ghost start = self@;
        let mut k: usize = 0;
        while k < duplicates.len()
            invariant
                k <= duplicates.len(),
                duplicates.len() == plan.duplicate_paths.len(),
                paths == plan.duplicate_paths@.map_values(|p: String| p@),
                self@ == after_duplicates(
                    start,
                    paths.take(k as int),
                    duplicates@.take(k as int),
                    plan.target_path@,
                    plan.created_date@,
                ),
                created == (primary == LinkOutcome::Created || exists|j: int|
                    0 <= j < k && duplicates@[j] == LinkOutcome::Created),
            decreases duplicates.len() - k,
        {
            let ghost before = self@;
            proof {
                assert(paths.take(k + 1).drop_last() =~= paths.take(k as int));
                assert(duplicates@.take(k + 1).drop_last() =~= duplicates@.take(k as int));
                assert(paths.take(k + 1).last() == plan.duplicate_paths[k as int]@);
            }
            let path = &plan.duplicate_paths[k];
            match duplicates[k] {
                LinkOutcome::Created => {
                    self.insert(LinkEntry {
                        link_path: path.clone(),
                        target_path: plan.target_path.clone(),
                        created_date: plan.created_date.clone(),
                    });
                    created = true;
                },
                LinkOutcome::AlreadyPresent => {
                    if !self.contains_link(path) {
                        self.insert(LinkEntry {
                            link_path: path.clone(),
                            target_path: plan.target_path.clone(),
                            created_date: plan.created_date.clone(),
                        });
                    }
                },
                _ => {},
            }
            k += 1;
        }
        assert(paths.take(k as int) =~= paths);
        assert(duplicates@.take(k as int) =~= duplicates@);
        created
    }
}


/// `n` flags that all say "the target exists".
pub open spec fn all_present(n: nat) -> Seq<bool> {
    Seq::new(n, |i: int| true)
}

/// The date an entry was created on, when it can be read.
pub open spec fn entry_date(e: LinkRecord) -> Option<(int, int, int)> {
    match chrono_parse(e.created_date, iso_format()) {
        Some(t) => Some((t.0 as int, t.1 as int, t.2 as int)),
        None => None,
    }
}

/// A day comes before the day after it.
proof fn lemma_next_is_later(a: (int, int, int))
    ensures
        next_ymd(a.0, a.1, a.2) matches Some(n) ==> ymd_lt(a, n),
{
}

/// The entry of the day before `today` is stale, whatever month or year
/// the two days fall in.
pub proof fn law_yesterdays_entry_is_stale(e: LinkRecord, target_exists: bool, today: Date)
    requires
        entry_date(e) matches Some(t) && next_ymd(t.0, t.1, t.2) == Some(today.ymd()),
    ensures
        is_stale(e, target_exists, today),
{
    let t = entry_date(e)->Some_0;
    lemma_next_is_later(t);
}

/// An entry dated in an earlier year is stale, whatever its month and day.
pub proof fn law_earlier_year_is_stale(e: LinkRecord, target_exists: bool, today: Date)
    requires
        entry_date(e) matches Some(t) && t.0 < today.y(),
    ensures
        is_stale(e, target_exists, today),
{
}

/// An entry dated today, or tomorrow, with its target in place, is kept.
pub proof fn law_current_entry_is_kept(e: LinkRecord, today: Date)
    requires
        entry_date(e) matches Some(t) && (t == today.ymd() || next_ymd(today.y(), today.m(), today.d())
            == Some(t)),
    ensures
        !is_stale(e, true, today),
{
    lemma_next_is_later(today.ymd());
}

/// What is stale one day is still stale the next day.
pub proof fn law_stale_stays_stale(e: LinkRecord, target_exists: bool, today: Date, tomorrow: Date)
    requires
        is_stale(e, target_exists, today),
        next_ymd(today.y(), today.m(), today.d()) == Some(tomorrow.ymd()),
    ensures
        is_stale(e, target_exists, tomorrow),
{
    lemma_next_is_later(today.ymd());
}

/// Every entry is either kept or dropped by the cleanup.
pub proof fn law_cleanup_partitions(s: Seq<LinkRecord>, exists: Seq<bool>, today: Date)
    requires
        s.len() == exists.len(),
    ensures
        surviving(s, exists, today).len() + stale(s, exists, today).len() == s.len(),
    decreases s.len(),
{
    if s.len() > 0 {
        law_cleanup_partitions(s.drop_last(), exists.drop_last(), today);
    }
}

/// Entries that are all current, with their targets present, all survive.
proof fn lemma_current_entries_survive(k: Seq<LinkRecord>, today: Date)
    requires
        forall|i: int| 0 <= i < k.len() ==> !is_stale(#[trigger] k[i], true, today),
    ensures
        surviving(k, all_present(k.len()), today) == k,
        stale(k, all_present(k.len()), today).len() == 0,
    decreases k.len(),
{
    if k.len() > 0 {
        let flags = all_present(k.len());
        assert(flags.drop_last() =~= all_present((k.len() - 1) as nat));
        assert(k.last() == k[k.len() - 1]);
        lemma_current_entries_survive(k.drop_last(), today);
        assert(k.drop_last().push(k.last()) =~= k);
    }
}

/// Every entry kept by the cleanup is current and has its target.
proof fn lemma_survivors_current(s: Seq<LinkRecord>, exists: Seq<bool>, today: Date)
    requires
        s.len() == exists.len(),
    ensures
        forall|i: int|
            0 <= i < surviving(s, exists, today).len() ==> !is_stale(
                #[trigger] surviving(s, exists, today)[i],
                true,
                today,
            ),
    decreases s.len(),
{
    if s.len() > 0 {
        lemma_survivors_current(s.drop_last(), exists.drop_last(), today);
        let prev = surviving(s.drop_last(), exists.drop_last(), today);
        let cur = surviving(s, exists, today);
        assert forall|i: int| 0 <= i < cur.len() implies !is_stale(#[trigger] cur[i], true, today) by {
            if i < prev.len() {
                assert(cur[i] == prev[i]);
            } else {
                assert(cur[i] == s.last());
                assert(!is_stale(s.last(), exists[s.len() - 1], today));
            }
        }
    }
}

/// Cleaning up again on the same day, while the kept entries' targets still
/// exist, drops nothing.
pub proof fn law_cleanup_again_drops_nothing(s: Seq<LinkRecord>, exists: Seq<bool>, today: Date)
    requires
        s.len() == exists.len(),
    ensures
        ({
            let kept = surviving(s, exists, today);
            &&& surviving(kept, all_present(kept.len()), today) == kept
            &&& stale(kept, all_present(kept.len()), today).len() == 0
        }),
{
    lemma_survivors_current(s, exists, today);
    lemma_current_entries_survive(surviving(s, exists, today), today);
}

/// The record after the duplicates starts with the record before them.
proof fn lemma_after_duplicates_extends(
    s: Seq<LinkRecord>,
    paths: Seq<Seq<char>>,
    outs: Seq<LinkOutcome>,
    target: Seq<char>,
    date: Seq<char>,
)
    requires
        paths.len() == outs.len(),
    ensures
        after_duplicates(s, paths, outs, target, date).len() >= s.len(),
        forall|i: int|
            0 <= i < s.len() ==> #[trigger] after_duplicates(s, paths, outs, target, date)[i] == s[i],
    decreases paths.len(),
{
    if paths.len() > 0 {
        lemma_after_duplicates_extends(s, paths.drop_last(), outs.drop_last(), target, date);
    }
}

/// A duplicate that was made, or found in place, is on record afterwards.
proof fn lemma_duplicate_on_record(
    s: Seq<LinkRecord>,
    paths: Seq<Seq<char>>,
    outs: Seq<LinkOutcome>,
    target: Seq<char>,
    date: Seq<char>,
    k: int,
)
    requires
        paths.len() == outs.len(),
        0 <= k < paths.len(),
        outs[k] == LinkOutcome::Created || outs[k] == LinkOutcome::AlreadyPresent,
    ensures
        has_link(after_duplicates(s, paths, outs, target, date), paths[k]),
    decreases paths.len(),
{
    let prev = after_duplicates(s, paths.drop_last(), outs.drop_last(), target, date);
    let r = after_duplicates(s, paths, outs, target, date);
    let p = paths.last();
    if k == paths.len() - 1 {
        if outs[k] == LinkOutcome::Created || !has_link(prev, p) {
            assert(r[prev.len() as int].link_path == p);
        }
    } else {
        lemma_duplicate_on_record(s, paths.drop_last(), outs.drop_last(), target, date, k);
        assert(paths.drop_last()[k] == paths[k]);
        let i = choose|i: int| 0 <= i < prev.len() && (#[trigger] prev[i]).link_path == paths[k];
        assert(r.len() >= prev.len() && r[i] == prev[i]);
    }
}

/// A call reports that the record is to be saved exactly when some link
/// was made now: the primary one, or any one of the duplicates.
pub proof fn law_saved_when_a_link_was_made(primary: LinkOutcome, outs: Seq<LinkOutcome>)
    ensures
        primary == LinkOutcome::Created ==> any_created(primary, outs),
        forall|k: int| 0 <= k < outs.len() && outs[k] == LinkOutcome::Created ==> any_created(primary, outs),
        primary != LinkOutcome::Created && (forall|k: int| 0 <= k < outs.len() ==> outs[k] != LinkOutcome::Created)
            ==> !any_created(primary, outs),
{
}

/// A duplicate link made now is on record afterwards, and the call asks for
/// the record to be saved.
pub proof fn law_made_duplicate_recorded_and_saved(
    s: Seq<LinkRecord>,
    plan: LinkPlan,
    primary: LinkOutcome,
    outs: Seq<LinkOutcome>,
    k: int,
)
    requires
        outs.len() == plan.duplicate_paths.len(),
        0 <= k < outs.len(),
        outs[k] == LinkOutcome::Created,
    ensures
        has_link(after_plan(s, plan, outs), plan.duplicate_paths[k]@),
        any_created(primary, outs),
{
    let s1 = with_link(s, plan.link_path@, plan.target_path@, plan.created_date@);
    let paths = plan.duplicate_paths@.map_values(|p: String| p@);
    lemma_duplicate_on_record(s1, paths, outs, plan.target_path@, plan.created_date@, k);
    assert(paths[k] == plan.duplicate_paths[k]@);
}

/// After the links of a plan are recorded, the primary link is on record,
/// whatever became of the links.
pub proof fn law_primary_link_recorded(s: Seq<LinkRecord>, plan: LinkPlan, outs: Seq<LinkOutcome>)
    requires
        outs.len() == plan.duplicate_paths.len(),
    ensures
        has_link(after_plan(s, plan, outs), plan.link_path@),
{
    let s1 = with_link(s, plan.link_path@, plan.target_path@, plan.created_date@);
    if !has_link(s, plan.link_path@) {
        assert(s1[s.len() as int].link_path == plan.link_path@);
    }
    assert(has_link(s1, plan.link_path@));
    let i = choose|i: int| 0 <= i < s1.len() && (#[trigger] s1[i]).link_path == plan.link_path@;
    lemma_after_duplicates_extends(
        s1,
        plan.duplicate_paths@.map_values(|p: String| p@),
        outs,
        plan.target_path@,
        plan.created_date@,
    );
    let r = after_plan(s, plan, outs);
    assert(r[i] == s1[i]);
}

/// The record is unchanged by duplicates that were all left alone or
/// found in place while already on record.
proof fn lemma_duplicates_unchanged(
    s: Seq<LinkRecord>,
    paths: Seq<Seq<char>>,
    outs: Seq<LinkOutcome>,
    target: Seq<char>,
    date: Seq<char>,
)
    requires
        paths.len() == outs.len(),
        forall|k: int| 0 <= k < outs.len() ==> #[trigger] outs[k] != LinkOutcome::Created,
        forall|k: int|
            0 <= k < outs.len() && #[trigger] outs[k] == LinkOutcome::AlreadyPresent ==> has_link(
                s,
                paths[k],
            ),
    ensures
        after_duplicates(s, paths, outs, target, date) == s,
    decreases paths.len(),
{
    if paths.len() > 0 {
        let n = paths.len() - 1;
        assert(outs[n] != LinkOutcome::Created);
        assert forall|k: int| 0 <= k < outs.drop_last().len() implies #[trigger] outs.drop_last()[k]
            != LinkOutcome::Created by {
            assert(outs.drop_last()[k] == outs[k]);
        }
        assert forall|k: int|
            0 <= k < outs.drop_last().len() && #[trigger] outs.drop_last()[k]
                == LinkOutcome::AlreadyPresent implies has_link(s, paths.drop_last()[k]) by {
            assert(outs.drop_last()[k] == outs[k] && paths.drop_last()[k] == paths[k]);
        }
        lemma_duplicates_unchanged(s, paths.drop_last(), outs.drop_last(), target, date);
        if outs[n] == LinkOutcome::AlreadyPresent {
            assert(has_link(s, paths[n]));
            assert(paths.last() == paths[n]);
        }
    }
}

/// Running the same plan again, when every link is found in place (or its
/// directory is missing) and already on record, leaves the record as it is
/// and makes no link.
pub proof fn law_rerun_changes_nothing(
    s: Seq<LinkRecord>,
    plan: LinkPlan,
    duplicates: Seq<LinkOutcome>,
)
    requires
        duplicates.len() == plan.duplicate_paths.len(),
        has_link(s, plan.link_path@),
        forall|k: int|
            0 <= k < duplicates.len() ==> (#[trigger] duplicates[k] == LinkOutcome::AlreadyPresent
                && has_link(s, plan.duplicate_paths[k]@)) || duplicates[k] == LinkOutcome::Skipped,
    ensures
        after_plan(s, plan, duplicates) == s,
        !any_created(LinkOutcome::AlreadyPresent, duplicates),
{
    let paths = plan.duplicate_paths@.map_values(|p: String| p@);
    assert forall|k: int| 0 <= k < duplicates.len() implies #[trigger] duplicates[k]
        != LinkOutcome::Created by {
        if duplicates[k] == LinkOutcome::AlreadyPresent {
        }
    }
    assert forall|k: int|
        0 <= k < duplicates.len() && #[trigger] duplicates[k] == LinkOutcome::AlreadyPresent implies has_link(
            s,
            paths[k],
        ) by {
        assert(paths[k] == plan.duplicate_paths[k]@);
    }
    lemma_duplicates_unchanged(s, paths, duplicates, plan.target_path@, plan.created_date@);
}


impl LinkPlan {
    /// What linking the day reports: the primary link's path when that
    /// link was made now, `None` when it already existed or could not be
    /// made.
    pub fn primary_result(&self, primary: LinkOutcome) -> (r: Option<String>)
        ensures
            match r {
                Some(p) => primary == LinkOutcome::Created && p@ == self.link_path@,
                None => primary != LinkOutcome::Created,
            },
    {
        if primary == LinkOutcome::Created {
            Some(self.link_path.clone())
        } else {
            None
        }
    }
}


/// After `insert(entry)`, the record has a link at the entry's path, and
/// every link it had before.
pub proof fn law_insert_then_contains(s: Seq<LinkRecord>, entry: LinkRecord, path: Seq<char>)
    ensures
        has_link(s.push(entry), entry.link_path),
        has_link(s, path) ==> has_link(s.push(entry), path),
{
    assert(s.push(entry)[s.len() as int] == entry);
    if has_link(s, path) {
        let i = choose|i: int| 0 <= i < s.len() && (#[trigger] s[i]).link_path == path;
        assert(s.push(entry)[i] == s[i]);
    }
}

} // verus!
