use vstd::prelude::*;

use crate::effects::Effect;
use crate::event::MessageEvent;
use crate::text::{
    chars_of, contains_chars, has_prefix, is_substring, lower_of, same_text, starts_with, to_lower,
};
use crate::trigger_index::{
    build_index, copy_group, flatten, group_pairs, group_view, groups_matching, index_of,
    lemma_flatten_has_pair, lemma_index_has_pair, lemma_matching_keeps_group, TriggerGroup,
};

verus! {

/// Shortest trigger accepted, in bytes.
pub const MIN_TRIGGER_LEN: usize = 3;

/// How many triggers an ordinary member may watch.
pub const MEMBER_QUOTA: usize = 4;

/// How many triggers a privileged member may watch.
pub const PRIVILEGED_QUOTA: usize = 20;

/// A user watching a (lower-cased) trigger word.
#[derive(Debug)]
pub struct HighlightEntry {
    pub owner_id: u64,
    pub trigger: String,
}

/// Why a trigger could not be registered.
#[derive(Clone, Copy, Debug, PartialEq, Eq, Structural)]
pub enum HighlightError {
    /// Fewer than three bytes.
    TooShort,
    /// The owner already watches as many triggers as the quota allows.
    QuotaExceeded,
    /// The owner already watches this trigger.
    AlreadyPresent,
}

pub open spec fn entry_view(e: HighlightEntry) -> (u64, Seq<char>) {
    (e.owner_id, e.trigger@)
}

/// Number of triggers `owner` watches.
pub open spec fn owner_count(es: Seq<(u64, Seq<char>)>, owner: u64) -> nat
    decreases es.len(),
{
    if es.len() == 0 {
        0
    } else {
        owner_count(es.drop_last(), owner) + if es.last().0 == owner {
            1nat
        } else {
            0nat
        }
    }
}

/// The entries that do not belong to `owner`.
pub open spec fn others_spec(es: Seq<(u64, Seq<char>)>, owner: u64) -> Seq<(u64, Seq<char>)>
    decreases es.len(),
{
    if es.len() == 0 {
        es
    } else {
        let p = others_spec(es.drop_last(), owner);
        if es.last().0 == owner {
            p
        } else {
            p.push(es.last())
        }
    }
}

/// Whether some element of `ps` is owned by `o`.
pub open spec fn has_owner(ps: Seq<(u64, Seq<char>)>, o: u64) -> bool {
    exists|i: int| 0 <= i < ps.len() && #[trigger] ps[i].0 == o
}

/// Who is told about which word: walking the matches in order, each owner
/// once, for the first trigger of theirs that matched, leaving out the author
/// and anyone not among `readers`.
pub open spec fn notify_plan(ms: Seq<(u64, Seq<char>)>, author: u64, readers: Seq<u64>) -> Seq<
    (u64, Seq<char>),
>
    decreases ms.len(),
{
    if ms.len() == 0 {
        ms
    } else {
        let p = notify_plan(ms.drop_last(), author, readers);
        let (o, w) = ms.last();
        if o == author || !readers.contains(o) || has_owner(p, o) {
            p
        } else {
            p.push((o, w))
        }
    }
}

/// `e` holds one highlight notice for each element of `plan`, in order,
/// pointing at `message` in `channel`.
pub open spec fn notices_for(e: Seq<Effect>, plan: Seq<(u64, Seq<char>)>, channel: u64, message: u64) -> bool {
    &&& e.len() == plan.len()
    &&& forall|i: int|
        0 <= i < e.len() ==> (#[trigger] e[i] matches Effect::NoticeHighlight {
            user,
            word,
            channel: c,
            message: m,
        } && user == plan[i].0 && word@ == plan[i].1 && c == channel && m == message)
}

/// The triggers `owner` watches, in registration order.
pub open spec fn owner_triggers(es: Seq<(u64, Seq<char>)>, owner: u64) -> Seq<Seq<char>>
    decreases es.len(),
{
    if es.len() == 0 {
        Seq::empty()
    } else {
        let p = owner_triggers(es.drop_last(), owner);
        if es.last().0 == owner {
            p.push(es.last().1)
        } else {
            p
        }
    }
}

/// The entries without the pair (`owner`, `trigger`).
pub open spec fn without_pair(es: Seq<(u64, Seq<char>)>, owner: u64, trigger: Seq<char>) -> Seq<
    (u64, Seq<char>),
>
    decreases es.len(),
{
    if es.len() == 0 {
        es
    } else {
        let p = without_pair(es.drop_last(), owner, trigger);
        if es.last() == (owner, trigger) {
            p
        } else {
            p.push(es.last())
        }
    }
}

/// Per-user watch lists of trigger words, and the trigger index derived from
/// them. Each (owner, trigger) pair occurs at most once; `add` stores the
/// lower-cased form of what was registered. The index is built on first use
/// and dropped whenever the watch lists change.
pub struct Highlights {
    entries: Vec<HighlightEntry>,
    index: Option<Vec<TriggerGroup>>,
}

impl Highlights {
    /// No (owner, trigger) pair is registered twice, and the cached index, if
    /// any, is the one derived from the current entries.
    pub closed spec fn wf(&self) -> bool {
        &&& self.entries().no_duplicates()
        &&& self.index matches Some(ix) ==> ix@.map_values(|g: TriggerGroup| group_view(g))
            == index_of(self.entries())
    }

    /// Whether the trigger index is cached.
    pub closed spec fn is_indexed(&self) -> bool {
        self.index.is_some()
    }

    /// Every (owner, trigger) pair, in registration order.
    pub closed spec fn entries(&self) -> Seq<(u64, Seq<char>)> {
        self.entries@.map_values(|e: HighlightEntry| entry_view(e))
    }

    /// No watch lists.
    pub fn new() -> (r: Highlights)
        ensures
            r.entries().len() == 0,
            !r.is_indexed(),
            r.wf(),
    {
        Highlights { entries: Vec::new(), index: None }
    }

    /// Number of (owner, trigger) pairs.
    pub fn len(&self) -> (r: usize)
        ensures
            r == self.entries().len(),
    {
        self.entries.len()
    }

    /// Number of triggers `owner` watches.
    pub fn count_for(&self, owner: u64) -> (r: usize)
        ensures
            r == owner_count(self.entries(), owner),
    {
        let mut n: usize = 0;
        let mut i: usize = 0;
        while i < self.entries.len()
            invariant
                i <= self.entries@.len(),
                n <= i,
                n == owner_count(self.entries().subrange(0, i as int), owner),
            decreases self.entries@.len() - i,
        {
            assert(self.entries().subrange(0, i + 1).drop_last() =~= self.entries().subrange(
                0,
                i as int,
            ));
            if self.entries[i].owner_id == owner {
                n = n + 1;
            }
            i = i + 1;
        }
        assert(self.entries().subrange(0, i as int) =~= self.entries());
        n
    }

    /// Whether `owner` watches the (already lower-cased) `trigger`.
    pub fn watches(&self, owner: u64, trigger: &str) -> (r: bool)
        ensures
            r == self.entries().contains((owner, trigger@)),
    {
        let mut i: usize = 0;
        while i < self.entries.len()
            invariant
                i <= self.entries@.len(),
                forall|k: int| 0 <= k < i ==> self.entries()[k] != (owner, trigger@),
            decreases self.entries@.len() - i,
        {
            if self.entries[i].owner_id == owner && same_text(self.entries[i].trigger.as_str(), trigger) {
                assert(self.entries()[i as int] == (owner, trigger@));
                return true;
            }
            assert(self.entries()[i as int] == entry_view(self.entries@[i as int]));
            i = i + 1;
        }
        false
    }

    /// Registers `trigger`, lower-cased, for `owner`, who may watch at most
    /// `quota` triggers. Refused, in this order: a trigger shorter than three
    /// bytes, an owner at the quota, a trigger the owner already watches.
    pub fn add(&mut self, owner: u64, trigger: &str, quota: usize) -> (r: Result<(), HighlightError>)
        requires
            old(self).wf(),
        ensures
            final(self).wf(),
            trigger.len() < MIN_TRIGGER_LEN ==> r == Err::<(), HighlightError>(
                HighlightError::TooShort,
            ),
            trigger.len() >= MIN_TRIGGER_LEN && owner_count(old(self).entries(), owner)
                >= quota ==> r == Err::<(), HighlightError>(HighlightError::QuotaExceeded),
            trigger.len() >= MIN_TRIGGER_LEN && owner_count(old(self).entries(), owner)
                < quota && old(self).entries().contains((owner, lower_of(trigger@))) ==> r == Err::<
                (),
                HighlightError,
            >(HighlightError::AlreadyPresent),
            trigger.len() >= MIN_TRIGGER_LEN && owner_count(old(self).entries(), owner)
                < quota
                && !old(self).entries().contains((owner, lower_of(trigger@))) ==> r is Ok,
            r is Ok ==> final(self).entries() == old(self).entries().push((owner, lower_of(trigger@))),
            r is Err ==> final(self).entries() == old(self).entries() && final(self).is_indexed()
                == old(self).is_indexed(),
            r is Ok ==> !final(self).is_indexed(),
    {
        if trigger.len() < MIN_TRIGGER_LEN {
            return Err(HighlightError::TooShort);
        }
        if self.count_for(owner) >= quota {
            return Err(HighlightError::QuotaExceeded);
        }
        let lower = to_lower(trigger);
        if self.watches(owner, lower.as_str()) {
            return Err(HighlightError::AlreadyPresent);
        }
        let ghost low = lower@;
        self.index = None;
        self.entries.push(HighlightEntry { owner_id: owner, trigger: lower });
        assert(self.entries() =~= old(self).entries().push((owner, low)));
        proof {
            lemma_push_keeps_unique(old(self).entries(), (owner, low));
        }
        Ok(())
    }

    /// Drops every trigger of `owner`.
    pub fn clear_for(&mut self, owner: u64)
        requires
            old(self).wf(),
        ensures
            final(self).wf(),
            final(self).entries() == others_spec(old(self).entries(), owner),
            !final(self).is_indexed(),
    {
        let mut kept: Vec<HighlightEntry> = Vec::new();
        let mut i: usize = 0;
        while i < self.entries.len()
            invariant
                i <= self.entries@.len(),
                kept@.map_values(|e: HighlightEntry| entry_view(e)) == others_spec(
                    self.entries().subrange(0, i as int),
                    owner,
                ),
            decreases self.entries@.len() - i,
        {
            let ghost pre = self.entries().subrange(0, i as int);
            assert(self.entries().subrange(0, i + 1).drop_last() =~= pre);
            if self.entries[i].owner_id != owner {
                kept.push(
                    HighlightEntry {
                        owner_id: self.entries[i].owner_id,
                        trigger: self.entries[i].trigger.clone(),
                    },
                );
                assert(kept@.map_values(|e: HighlightEntry| entry_view(e)) =~= others_spec(
                    pre,
                    owner,
                ).push(self.entries()[i as int]));
            }
            i = i + 1;
        }
        assert(self.entries().subrange(0, i as int) =~= self.entries());
        proof {
            lemma_others_sub(self.entries(), owner);
        }
        self.index = None;
        self.entries = kept;
    }

    /// Stops `owner` watching `trigger` (compared lower-cased); says whether
    /// they watched it.
    pub fn remove(&mut self, owner: u64, trigger: &str) -> (r: bool)
        requires
            old(self).wf(),
        ensures
            final(self).wf(),
            r == old(self).entries().contains((owner, lower_of(trigger@))),
            final(self).entries() == without_pair(old(self).entries(), owner, lower_of(trigger@)),
            r ==> !final(self).is_indexed(),
            !r ==> final(self).is_indexed() == old(self).is_indexed(),
    {
        let lower = to_lower(trigger);
        let ghost t = lower@;
        let mut kept: Vec<HighlightEntry> = Vec::new();
        let mut found = false;
        let mut i: usize = 0;
        while i < self.entries.len()
            invariant
                i <= self.entries@.len(),
                t == lower_of(trigger@),
                lower@ == t,
                kept@.map_values(|e: HighlightEntry| entry_view(e)) == without_pair(
                    self.entries().subrange(0, i as int),
                    owner,
                    t,
                ),
                found == self.entries().subrange(0, i as int).contains((owner, t)),
            decreases self.entries@.len() - i,
        {
            let ghost pre = self.entries().subrange(0, i as int);
            let ghost x = self.entries()[i as int];
            assert(self.entries().subrange(0, i + 1).drop_last() =~= pre);
            assert(self.entries().subrange(0, i + 1) =~= pre.push(x));
            proof {
                lemma_push_contains_pair(pre, x, (owner, t));
            }
            if self.entries[i].owner_id == owner && same_text(self.entries[i].trigger.as_str(), lower.as_str()) {
                found = true;
            } else {
                kept.push(
                    HighlightEntry {
                        owner_id: self.entries[i].owner_id,
                        trigger: self.entries[i].trigger.clone(),
                    },
                );
                assert(kept@.map_values(|e: HighlightEntry| entry_view(e)) =~= without_pair(
                    pre,
                    owner,
                    t,
                ).push(x));
            }
            i = i + 1;
        }
        assert(self.entries().subrange(0, i as int) =~= self.entries());
        if found {
            proof {
                lemma_without_pair_sub(self.entries(), owner, t);
            }
            self.index = None;
            self.entries = kept;
        } else {
            proof {
                lemma_without_pair_absent(self.entries(), owner, t);
            }
        }
        found
    }

    /// The triggers `owner` watches, in registration order.
    pub fn triggers_for(&self, owner: u64) -> (r: Vec<String>)
        ensures
            r@.map_values(|t: String| t@) == owner_triggers(self.entries(), owner),
    {
        let mut out: Vec<String> = Vec::new();
        let mut i: usize = 0;
        while i < self.entries.len()
            invariant
                i <= self.entries@.len(),
                out@.map_values(|t: String| t@) == owner_triggers(
                    self.entries().subrange(0, i as int),
                    owner,
                ),
            decreases self.entries@.len() - i,
        {
            let ghost pre = self.entries().subrange(0, i as int);
            assert(self.entries().subrange(0, i + 1).drop_last() =~= pre);
            assert(self.entries().subrange(0, i + 1).last() == self.entries()[i as int]);
            if self.entries[i].owner_id == owner {
                out.push(self.entries[i].trigger.clone());
                assert(out@.map_values(|t: String| t@) =~= owner_triggers(pre, owner).push(
                    self.entries()[i as int].1,
                ));
            }
            i = i + 1;
        }
        assert(self.entries().subrange(0, i as int) =~= self.entries());
        out
    }

    /// The index groups whose trigger occurs in `text`, compared
    /// case-insensitively. Builds the index first when none is cached.
    pub fn matching(&mut self, text: &str) -> (r: Vec<TriggerGroup>)
        requires
            old(self).wf(),
        ensures
            final(self).wf(),
            final(self).entries() == old(self).entries(),
            final(self).is_indexed(),
            r@.map_values(|g: TriggerGroup| group_view(g)) == groups_matching(
                index_of(old(self).entries()),
                lower_of(text@),
            ),
    {
        if self.index.is_none() {
            let built = build_index(&self.entries);
            self.index = Some(built);
        }
        let lower = to_lower(text);
        let hay = chars_of(lower.as_str());
        let mut out: Vec<TriggerGroup> = Vec::new();
        match &self.index {
            Some(ix) => {
                let ghost v = ix@.map_values(|g: TriggerGroup| group_view(g));
                let mut i: usize = 0;
                while i < ix.len()
                    invariant
                        i <= ix@.len(),
                        v == ix@.map_values(|g: TriggerGroup| group_view(g)),
                        hay@ == lower_of(text@),
                        out@.map_values(|g: TriggerGroup| group_view(g)) == groups_matching(
                            v.subrange(0, i as int),
                            lower_of(text@),
                        ),
                    decreases ix@.len() - i,
                {
                    let ghost pre = v.subrange(0, i as int);
                    assert(v.subrange(0, i + 1).drop_last() =~= pre);
                    assert(v.subrange(0, i + 1).last() == v[i as int]);
                    let needle = chars_of(ix[i].trigger.as_str());
                    if contains_chars(&hay, &needle) {
                        out.push(copy_group(&ix[i]));
                        assert(out@.map_values(|g: TriggerGroup| group_view(g)) =~= groups_matching(
                            pre,
                            lower_of(text@),
                        ).push(v[i as int]));
                    }
                    i = i + 1;
                }
                assert(v.subrange(0, i as int) =~= v);
            },
            None => {},
        }
        out
    }
}

proof fn lemma_push_keeps_unique(es: Seq<(u64, Seq<char>)>, x: (u64, Seq<char>))
    requires
        es.no_duplicates(),
        !es.contains(x),
    ensures
        es.push(x).no_duplicates(),
{
    let s1 = es.push(x);
    assert forall|i: int, j: int| 0 <= i < s1.len() && 0 <= j < s1.len() && i != j implies s1[i]
        != s1[j] by {
        if i < es.len() && j < es.len() {
            assert(s1[i] == es[i] && s1[j] == es[j]);
        } else if i < es.len() {
            assert(s1[i] == es[i]);
        } else if j < es.len() {
            assert(s1[j] == es[j]);
        }
    }
}

proof fn lemma_others_sub(es: Seq<(u64, Seq<char>)>, owner: u64)
    ensures
        forall|y: (u64, Seq<char>)| others_spec(es, owner).contains(y) ==> es.contains(y),
        es.no_duplicates() ==> others_spec(es, owner).no_duplicates(),
    decreases es.len(),
{
    if es.len() > 0 {
        let d = es.drop_last();
        lemma_others_sub(d, owner);
        let p = others_spec(d, owner);
        assert forall|y: (u64, Seq<char>)| others_spec(es, owner).contains(y) implies es.contains(y) by {
            let k = choose|k: int| 0 <= k < others_spec(es, owner).len() && others_spec(es, owner)[k] == y;
            if k < p.len() {
                assert(p[k] == y);
                assert(p.contains(y));
                assert(d.contains(y));
                let m = choose|m: int| 0 <= m < d.len() && d[m] == y;
                assert(es[m] == y);
            } else {
                assert(es[es.len() - 1] == y);
            }
        }
        if es.no_duplicates() {
            assert(d.no_duplicates()) by {
                assert forall|i: int, j: int| 0 <= i < d.len() && 0 <= j < d.len() && i != j implies d[i] != d[j] by {
                    assert(d[i] == es[i] && d[j] == es[j]);
                }
            }
            if es.last().0 != owner {
                assert(!p.contains(es.last())) by {
                    if p.contains(es.last()) {
                        assert(d.contains(es.last()));
                        let m = choose|m: int| 0 <= m < d.len() && d[m] == es.last();
                        assert(es[m] == d[m]);
                        assert(es[m] == es[es.len() - 1]);
                    }
                }
                lemma_push_keeps_unique(p, es.last());
            }
        }
    }
}

proof fn lemma_without_pair_sub(es: Seq<(u64, Seq<char>)>, owner: u64, t: Seq<char>)
    ensures
        forall|y: (u64, Seq<char>)| without_pair(es, owner, t).contains(y) ==> es.contains(y),
        es.no_duplicates() ==> without_pair(es, owner, t).no_duplicates(),
    decreases es.len(),
{
    if es.len() > 0 {
        let d = es.drop_last();
        lemma_without_pair_sub(d, owner, t);
        let p = without_pair(d, owner, t);
        assert forall|y: (u64, Seq<char>)| without_pair(es, owner, t).contains(y) implies es.contains(y) by {
            let k = choose|k: int| 0 <= k < without_pair(es, owner, t).len() && without_pair(es, owner, t)[k] == y;
            if k < p.len() {
                assert(p[k] == y);
                assert(p.contains(y));
                assert(d.contains(y));
                let m = choose|m: int| 0 <= m < d.len() && d[m] == y;
                assert(es[m] == y);
            } else {
                assert(es[es.len() - 1] == y);
            }
        }
        if es.no_duplicates() {
            assert(d.no_duplicates()) by {
                assert forall|i: int, j: int| 0 <= i < d.len() && 0 <= j < d.len() && i != j implies d[i] != d[j] by {
                    assert(d[i] == es[i] && d[j] == es[j]);
                }
            }
            if es.last() != (owner, t) {
                assert(!p.contains(es.last())) by {
                    if p.contains(es.last()) {
                        assert(d.contains(es.last()));
                        let m = choose|m: int| 0 <= m < d.len() && d[m] == es.last();
                        assert(es[m] == d[m]);
                        assert(es[m] == es[es.len() - 1]);
                    }
                }
                lemma_push_keeps_unique(p, es.last());
            }
        }
    }
}

proof fn lemma_push_contains_pair(ps: Seq<(u64, Seq<char>)>, x: (u64, Seq<char>), p: (u64, Seq<char>))
    ensures
        ps.push(x).contains(p) == (ps.contains(p) || x == p),
{
    let s1 = ps.push(x);
    if s1.contains(p) {
        let k = choose|k: int| 0 <= k < s1.len() && s1[k] == p;
        if k < ps.len() {
            assert(ps[k] == p);
        }
    }
    if ps.contains(p) {
        let k = choose|k: int| 0 <= k < ps.len() && ps[k] == p;
        assert(s1[k] == p);
    }
    if x == p {
        assert(s1[ps.len() as int] == p);
    }
}

proof fn lemma_without_pair_absent(es: Seq<(u64, Seq<char>)>, owner: u64, t: Seq<char>)
    requires
        !es.contains((owner, t)),
    ensures
        without_pair(es, owner, t) == es,
    decreases es.len(),
{
    if es.len() > 0 {
        assert(!es.drop_last().contains((owner, t))) by {
            if es.drop_last().contains((owner, t)) {
                let k = choose|k: int| 0 <= k < es.drop_last().len() && es.drop_last()[k] == (owner, t);
                assert(es[k] == (owner, t));
            }
        }
        lemma_without_pair_absent(es.drop_last(), owner, t);
        assert(es.last() != (owner, t)) by {
            assert(es[es.len() - 1] == es.last());
        }
        assert(es.drop_last().push(es.last()) =~= es);
    }
}

proof fn lemma_plan_owners_unique(ms: Seq<(u64, Seq<char>)>, author: u64, readers: Seq<u64>)
    ensures
        forall|i: int, j: int|
            0 <= i < j < notify_plan(ms, author, readers).len() ==> #[trigger] notify_plan(
                ms,
                author,
                readers,
            )[i].0 != #[trigger] notify_plan(ms, author, readers)[j].0,
    decreases ms.len(),
{
    if ms.len() > 0 {
        lemma_plan_owners_unique(ms.drop_last(), author, readers);
        let p = notify_plan(ms.drop_last(), author, readers);
        let q = notify_plan(ms, author, readers);
        assert forall|i: int, j: int| 0 <= i < j < q.len() implies #[trigger] q[i].0 != #[trigger] q[j].0 by {
            if j == p.len() {
                assert(q[i] == p[i]);
                assert(!has_owner(p, q[j].0));
            } else {
                assert(q[i] == p[i] && q[j] == p[j]);
            }
        }
    }
}

proof fn lemma_plan_covers(ms: Seq<(u64, Seq<char>)>, author: u64, readers: Seq<u64>, x: (u64, Seq<char>))
    requires
        ms.contains(x),
        x.0 != author,
        readers.contains(x.0),
    ensures
        has_owner(notify_plan(ms, author, readers), x.0),
    decreases ms.len(),
{
    let p = notify_plan(ms.drop_last(), author, readers);
    let q = notify_plan(ms, author, readers);
    if ms.last() == x {
        if !has_owner(p, x.0) {
            assert(q[p.len() as int].0 == x.0);
        }
    } else {
        let k = choose|k: int| 0 <= k < ms.len() && ms[k] == x;
        assert(ms.drop_last()[k] == x);
        lemma_plan_covers(ms.drop_last(), author, readers, x);
        let j = choose|j: int| 0 <= j < p.len() && #[trigger] p[j].0 == x.0;
        assert(q[j] == p[j]);
    }
}

/// A watcher whose trigger occurs in a message by someone else, in a channel
/// they can read, is told about it exactly once.
pub proof fn lemma_watcher_told_once(
    entries: Seq<(u64, Seq<char>)>,
    text: Seq<char>,
    author: u64,
    readers: Seq<u64>,
    owner: u64,
    trigger: Seq<char>,
)
    requires
        entries.contains((owner, trigger)),
        is_substring(trigger, lower_of(text)),
        owner != author,
        readers.contains(owner),
    ensures
        ({
            let plan = notify_plan(
                flatten(groups_matching(index_of(entries), lower_of(text))),
                author,
                readers,
            );
            &&& exists|i: int| 0 <= i < plan.len() && #[trigger] plan[i].0 == owner
            &&& forall|i: int, j: int|
                0 <= i < plan.len() && 0 <= j < plan.len() && #[trigger] plan[i].0 == owner
                    && #[trigger] plan[j].0 == owner ==> i == j
        }),
{
    let ix = index_of(entries);
    let gs = groups_matching(ix, lower_of(text));
    lemma_index_has_pair(entries, owner, trigger);
    let k = choose|k: int| 0 <= k < ix.len() && #[trigger] ix[k].0 == trigger && ix[k].1.contains(owner);
    lemma_matching_keeps_group(ix, lower_of(text), k);
    lemma_flatten_has_pair(gs, ix[k], owner);
    let ms = flatten(gs);
    lemma_plan_covers(ms, author, readers, (owner, trigger));
    lemma_plan_owners_unique(ms, author, readers);
    let plan = notify_plan(ms, author, readers);
    assert forall|i: int, j: int|
        0 <= i < plan.len() && 0 <= j < plan.len() && #[trigger] plan[i].0 == owner
            && #[trigger] plan[j].0 == owner implies i == j by {
        if i < j {
            assert(plan[i].0 != plan[j].0);
        } else if j < i {
            assert(plan[j].0 != plan[i].0);
        }
    }
}

fn contains_id(v: &Vec<u64>, x: u64) -> (r: bool)
    ensures
        r == v@.contains(x),
{
    let mut i: usize = 0;
    while i < v.len()
        invariant
            i <= v@.len(),
            forall|k: int| 0 <= k < i ==> v@[k] != x,
        decreases v@.len() - i,
    {
        if v[i] == x {
            return true;
        }
        i = i + 1;
    }
    false
}

/// Whether the highlight engine looks at `ev` at all: not in a thread or a
/// staff-only category (`channel_excluded`), and not a command invocation.
pub fn highlight_applicable(ev: &MessageEvent, channel_excluded: bool) -> (r: bool)
    ensures
        r == (!channel_excluded && !has_prefix(ev.text@, "!"@)),
{
    !channel_excluded && !starts_with(ev.text.as_str(), "!")
}

/// The notices to send for `groups` (what `Highlights::matching` found in a
/// message by `author` with id `message` in `channel`). `readers` are the
/// watchers allowed to read the channel. Each watcher is told once.
pub fn plan_notifications(
    groups: &Vec<TriggerGroup>,
    author: u64,
    readers: &Vec<u64>,
    channel: u64,
    message: u64,
) -> (r: Vec<Effect>)
    ensures
        notices_for(
            r@,
            notify_plan(flatten(groups@.map_values(|g: TriggerGroup| group_view(g))), author, readers@),
            channel,
            message,
        ),
{
    let ghost gs = groups@.map_values(|g: TriggerGroup| group_view(g));
    let mut out: Vec<Effect> = Vec::new();
    let mut told: Vec<u64> = Vec::new();
    let mut i: usize = 0;
    while i < groups.len()
        invariant
            i <= groups@.len(),
            gs == groups@.map_values(|g: TriggerGroup| group_view(g)),
            told@.len() == notify_plan(flatten(gs.subrange(0, i as int)), author, readers@).len(),
            forall|k: int|
                0 <= k < told@.len() ==> #[trigger] told@[k] == notify_plan(
                    flatten(gs.subrange(0, i as int)),
                    author,
                    readers@,
                )[k].0,
            notices_for(out@, notify_plan(flatten(gs.subrange(0, i as int)), author, readers@), channel, message),
        decreases groups@.len() - i,
    {
        let ghost base = flatten(gs.subrange(0, i as int));
        let ghost g = gs[i as int];
        let ghost pairs = group_pairs(g);
        assert(gs.subrange(0, i + 1).drop_last() =~= gs.subrange(0, i as int));
        assert(gs.subrange(0, i + 1).last() == g);
        assert(flatten(gs.subrange(0, i + 1)) == base + pairs);
        assert(base + pairs.subrange(0, 0) =~= base);
        let mut j: usize = 0;
        while j < groups[i].owners.len()
            invariant
                i < groups@.len(),
                j <= groups@[i as int].owners@.len(),
                g == group_view(groups@[i as int]),
                pairs == group_pairs(g),
                told@.len() == notify_plan(base + pairs.subrange(0, j as int), author, readers@).len(),
                forall|k: int|
                    0 <= k < told@.len() ==> #[trigger] told@[k] == notify_plan(
                        base + pairs.subrange(0, j as int),
                        author,
                        readers@,
                    )[k].0,
                notices_for(out@, notify_plan(base + pairs.subrange(0, j as int), author, readers@), channel, message),
            decreases groups@[i as int].owners@.len() - j,
        {
            let ghost ms = base + pairs.subrange(0, j as int);
            let ghost plan = notify_plan(ms, author, readers@);
            let ghost next_ms = base + pairs.subrange(0, j + 1);
            assert(next_ms.drop_last() =~= ms);
            assert(next_ms.last() == pairs[j as int]);
            let o = groups[i].owners[j];
            assert(pairs[j as int] == (o, g.0));
            let seen = contains_id(&told, o);
            assert(seen == has_owner(plan, o)) by {
                if seen {
                    let k = choose|k: int| 0 <= k < told@.len() && told@[k] == o;
                    assert(plan[k].0 == o);
                }
                if has_owner(plan, o) {
                    let k = choose|k: int| 0 <= k < plan.len() && #[trigger] plan[k].0 == o;
                    assert(told@[k] == o);
                }
            }
            let can_read = contains_id(readers, o);
            if o != author && can_read && !seen {
                let ghost before = out@;
                out.push(
                    Effect::NoticeHighlight {
                        user: o,
                        word: groups[i].trigger.clone(),
                        channel,
                        message,
                    },
                );
                told.push(o);
                let ghost next = notify_plan(next_ms, author, readers@);
                assert(next == plan.push((o, g.0)));
                assert forall|k: int| 0 <= k < out@.len() implies (#[trigger] out@[k] matches Effect::NoticeHighlight {
                    user,
                    word,
                    channel: c,
                    message: m,
                } && user == next[k].0 && word@ == next[k].1 && c == channel && m == message) by {
                    if k < plan.len() {
                        assert(out@[k] == before[k]);
                    }
                }
            }
            j = j + 1;
        }
        assert(pairs.subrange(0, j as int) =~= pairs);
        i = i + 1;
    }
    assert(gs.subrange(0, i as int) =~= gs);
    out
}

} // verus!
