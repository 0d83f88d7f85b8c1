use vstd::prelude::*;

use crate::highlights::{entry_view, HighlightEntry};
use crate::text::{is_substring, same_text};

verus! {

/// One trigger word and everyone watching it, in registration order.
#[derive(Debug)]
pub struct TriggerGroup {
    pub trigger: String,
    pub owners: Vec<u64>,
}

pub open spec fn group_view(g: TriggerGroup) -> (Seq<char>, Seq<u64>) {
    (g.trigger@, g.owners@)
}

/// Position of the last group for trigger `t`, or -1 when there is none.
pub open spec fn group_pos(ix: Seq<(Seq<char>, Seq<u64>)>, t: Seq<char>) -> int
    decreases ix.len(),
{
    if ix.len() == 0 {
        -1
    } else if ix.last().0 == t {
        ix.len() - 1
    } else {
        group_pos(ix.drop_last(), t)
    }
}

/// The trigger index derived from the (owner, trigger) entries: one group per
/// distinct trigger, in order of first registration, each listing its
/// owners in registration order.
pub open spec fn index_of(es: Seq<(u64, Seq<char>)>) -> Seq<(Seq<char>, Seq<u64>)>
    decreases es.len(),
{
    if es.len() == 0 {
        Seq::empty()
    } else {
        let p = index_of(es.drop_last());
        let e = es.last();
        let k = group_pos(p, e.1);
        if k >= 0 {
            p.update(k, (e.1, p[k].1.push(e.0)))
        } else {
            p.push((e.1, seq![e.0]))
        }
    }
}

/// The groups whose trigger occurs in `low`, in order.
pub open spec fn groups_matching(ix: Seq<(Seq<char>, Seq<u64>)>, low: Seq<char>) -> Seq<
    (Seq<char>, Seq<u64>),
>
    decreases ix.len(),
{
    if ix.len() == 0 {
        ix
    } else {
        let p = groups_matching(ix.drop_last(), low);
        if is_substring(ix.last().0, low) {
            p.push(ix.last())
        } else {
            p
        }
    }
}

/// Each owner of a group paired with its trigger.
pub open spec fn group_pairs(g: (Seq<char>, Seq<u64>)) -> Seq<(u64, Seq<char>)> {
    Seq::new(g.1.len(), |i: int| (g.1[i], g.0))
}

/// The (owner, trigger) pairs of the groups, group by group.
pub open spec fn flatten(gs: Seq<(Seq<char>, Seq<u64>)>) -> Seq<(u64, Seq<char>)>
    decreases gs.len(),
{
    if gs.len() == 0 {
        Seq::empty()
    } else {
        flatten(gs.drop_last()) + group_pairs(gs.last())
    }
}

pub proof fn lemma_group_pos(ix: Seq<(Seq<char>, Seq<u64>)>, t: Seq<char>)
    ensures
        -1 <= group_pos(ix, t) < ix.len(),
        group_pos(ix, t) >= 0 ==> ix[group_pos(ix, t)].0 == t,
        group_pos(ix, t) == -1 ==> forall|k: int| 0 <= k < ix.len() ==> #[trigger] ix[k].0 != t,
    decreases ix.len(),
{
    if ix.len() > 0 {
        lemma_group_pos(ix.drop_last(), t);
        if ix.last().0 != t {
            assert forall|k: int| 0 <= k < ix.len() && group_pos(ix, t) == -1 implies #[trigger] ix[k].0
                != t by {
                if k < ix.len() - 1 {
                    assert(ix[k] == ix.drop_last()[k]);
                }
            }
        }
    }
}

/// Every registered pair shows up in the index: its trigger has a group
/// that lists its owner.
pub proof fn lemma_index_has_pair(es: Seq<(u64, Seq<char>)>, o: u64, t: Seq<char>)
    requires
        es.contains((o, t)),
    ensures
        exists|k: int|
            0 <= k < index_of(es).len() && #[trigger] index_of(es)[k].0 == t && index_of(
                es,
            )[k].1.contains(o),
    decreases es.len(),
{
    let p = index_of(es.drop_last());
    let e = es.last();
    let ix = index_of(es);
    lemma_group_pos(p, e.1);
    let pos = group_pos(p, e.1);
    if e == (o, t) {
        if pos >= 0 {
            assert(ix[pos].1 == p[pos].1.push(o));
            assert(ix[pos].1[p[pos].1.len() as int] == o);
            assert(ix[pos].0 == t);
            assert(ix[pos].1.contains(o));
        } else {
            assert(ix[p.len() as int] == (t, seq![o]));
            assert(ix[p.len() as int].1[0] == o);
            assert(ix[p.len() as int].1.contains(o));
            assert(ix[p.len() as int].0 == t);
        }
    } else {
        let i = choose|i: int| 0 <= i < es.len() && es[i] == (o, t);
        assert(i < es.len() - 1);
        assert(es.drop_last()[i] == (o, t));
        lemma_index_has_pair(es.drop_last(), o, t);
        let k = choose|k: int| 0 <= k < p.len() && #[trigger] p[k].0 == t && p[k].1.contains(o);
        let j = choose|j: int| 0 <= j < p[k].1.len() && p[k].1[j] == o;
        if pos == k {
            assert(ix[k].1 == p[k].1.push(e.0));
            assert(ix[k].1[j] == o);
            assert(ix[k].0 == t);
            assert(ix[k].1.contains(o));
        } else {
            assert(ix[k] == p[k]);
            assert(ix[k].1.contains(o));
        }
    }
}

/// Filtering keeps every group whose trigger matches.
pub proof fn lemma_matching_keeps_group(ix: Seq<(Seq<char>, Seq<u64>)>, low: Seq<char>, k: int)
    requires
        0 <= k < ix.len(),
        is_substring(ix[k].0, low),
    ensures
        groups_matching(ix, low).contains(ix[k]),
    decreases ix.len(),
{
    let p = groups_matching(ix.drop_last(), low);
    if k == ix.len() - 1 {
        assert(groups_matching(ix, low)[p.len() as int] == ix[k]);
    } else {
        assert(ix.drop_last()[k] == ix[k]);
        lemma_matching_keeps_group(ix.drop_last(), low, k);
        let j = choose|j: int| 0 <= j < p.len() && p[j] == ix[k];
        if is_substring(ix.last().0, low) {
            assert(groups_matching(ix, low)[j] == ix[k]);
        }
    }
}

/// Flattening keeps every (owner, trigger) pair of every group.
pub proof fn lemma_flatten_has_pair(gs: Seq<(Seq<char>, Seq<u64>)>, g: (Seq<char>, Seq<u64>), o: u64)
    requires
        gs.contains(g),
        g.1.contains(o),
    ensures
        flatten(gs).contains((o, g.0)),
    decreases gs.len(),
{
    let f = flatten(gs.drop_last());
    if gs.last() == g {
        let j = choose|j: int| 0 <= j < g.1.len() && g.1[j] == o;
        assert(flatten(gs)[f.len() + j] == group_pairs(g)[j]);
    } else {
        let i = choose|i: int| 0 <= i < gs.len() && gs[i] == g;
        assert(gs.drop_last()[i] == g);
        lemma_flatten_has_pair(gs.drop_last(), g, o);
        let j = choose|j: int| 0 <= j < f.len() && f[j] == (o, g.0);
        assert(flatten(gs)[j] == f[j]);
    }
}

/// The position of the group for `t`, if any.
pub fn find_group(ix: &Vec<TriggerGroup>, t: &str) -> (r: Option<usize>)
    ensures
        match r {
            Some(k) => k as int == group_pos(ix@.map_values(|g: TriggerGroup| group_view(g)), t@),
            None => group_pos(ix@.map_values(|g: TriggerGroup| group_view(g)), t@) == -1,
        },
{
    let ghost v = ix@.map_values(|g: TriggerGroup| group_view(g));
    let mut j: usize = ix.len();
    assert(v.subrange(0, j as int) =~= v);
    while j > 0
        invariant
            j <= ix@.len(),
            v == ix@.map_values(|g: TriggerGroup| group_view(g)),
            group_pos(v, t@) == group_pos(v.subrange(0, j as int), t@),
        decreases j,
    {
        assert(v.subrange(0, j as int).drop_last() =~= v.subrange(0, j - 1));
        assert(v.subrange(0, j as int).last() == v[j - 1]);
        if same_text(ix[j - 1].trigger.as_str(), t) {
            return Some(j - 1);
        }
        j = j - 1;
    }
    None
}

fn copy_ids(v: &Vec<u64>) -> (r: Vec<u64>)
    ensures
        r@ == v@,
{
    let mut out: Vec<u64> = Vec::new();
    let mut i: usize = 0;
    while i < v.len()
        invariant
            i <= v@.len(),
            out@ == v@.subrange(0, i as int),
        decreases v@.len() - i,
    {
        out.push(v[i]);
        i = i + 1;
        assert(out@ =~= v@.subrange(0, i as int));
    }
    assert(out@ =~= v@);
    out
}

/// A copy of a group.
pub fn copy_group(g: &TriggerGroup) -> (r: TriggerGroup)
    ensures
        group_view(r) == group_view(*g),
{
    TriggerGroup { trigger: g.trigger.clone(), owners: copy_ids(&g.owners) }
}

/// Builds the trigger index of `entries`.
pub fn build_index(entries: &Vec<HighlightEntry>) -> (r: Vec<TriggerGroup>)
    ensures
        r@.map_values(|g: TriggerGroup| group_view(g)) == index_of(
            entries@.map_values(|e: HighlightEntry| entry_view(e)),
        ),
{
    let ghost es = entries@.map_values(|e: HighlightEntry| entry_view(e));
    let mut ix: Vec<TriggerGroup> = Vec::new();
    let mut i: usize = 0;
    while i < entries.len()
        invariant
            i <= entries@.len(),
            es == entries@.map_values(|e: HighlightEntry| entry_view(e)),
            ix@.map_values(|g: TriggerGroup| group_view(g)) == index_of(es.subrange(0, i as int)),
        decreases entries@.len() - i,
    {
        let ghost pre = es.subrange(0, i as int);
        let ghost p = index_of(pre);
        assert(es.subrange(0, i + 1).drop_last() =~= pre);
        assert(es.subrange(0, i + 1).last() == es[i as int]);
        let o = entries[i].owner_id;
        match find_group(&ix, entries[i].trigger.as_str()) {
            Some(k) => {
                proof {
                    lemma_group_pos(p, es[i as int].1);
                }
                let mut g = ix.remove(k);
                g.owners.push(o);
                ix.insert(k, g);
                assert(ix@.map_values(|g: TriggerGroup| group_view(g)) =~= p.update(
                    k as int,
                    (es[i as int].1, p[k as int].1.push(o)),
                ));
            },
            None => {
                let mut owners: Vec<u64> = Vec::new();
                owners.push(o);
                ix.push(TriggerGroup { trigger: entries[i].trigger.clone(), owners });
                assert(ix@.map_values(|g: TriggerGroup| group_view(g)) =~= p.push(
                    (es[i as int].1, seq![o]),
                ));
            },
        }
        i = i + 1;
    }
    assert(es.subrange(0, i as int) =~= es);
    ix
}

} // verus!
