use vstd::prelude::*;
use indexmap::IndexMap;
use std::collections::hash_map::RandomState;

verus! {

#[verifier::external_type_specification]
#[verifier::external_body]
#[verifier::reject_recursive_types(K)]
#[verifier::reject_recursive_types(V)]
#[verifier::reject_recursive_types(S)]
pub struct ExIndexMap<K, V, S>(IndexMap<K, V, S>);

/// Category label of a descriptor, as a key of the grouping.
pub type CategoryKey = Option<Seq<char>>;

/// One group: a category and the registry positions that carry it.
pub type Group = (CategoryKey, Seq<usize>);

/// The entries of a category map, in the map's order.
pub uninterp spec fn groups_of(m: IndexMap<Option<String>, Vec<usize>, RandomState>) -> Seq<Group>;

/// Position of the group keyed `k`, or -1.
pub open spec fn key_index(gs: Seq<Group>, k: CategoryKey) -> int
    decreases gs.len(),
{
    if gs.len() == 0 {
        -1
    } else if gs.last().0 == k {
        gs.len() - 1
    } else {
        key_index(gs.drop_last(), k)
    }
}

/// Adds position `i` under key `k`: at the end of its group, or in a new group at the end.
pub open spec fn add_to_group(gs: Seq<Group>, k: CategoryKey, i: usize) -> Seq<Group> {
    let j = key_index(gs, k);
    if j >= 0 {
        gs.update(j, (k, gs[j].1.push(i)))
    } else {
        gs.push((k, seq![i]))
    }
}

/// Positions of `keys` grouped by key, groups in order of first appearance.
pub open spec fn grouped(keys: Seq<CategoryKey>) -> Seq<Group>
    decreases keys.len(),
{
    if keys.len() == 0 {
        Seq::empty()
    } else {
        add_to_group(grouped(keys.drop_last()), keys.last(), (keys.len() - 1) as usize)
    }
}

/// What `key_index` finds: the group keyed `k`, or, at -1, that no group has that key.
pub proof fn lemma_key_index(gs: Seq<Group>, k: CategoryKey)
    ensures
        -1 <= key_index(gs, k) < gs.len(),
        key_index(gs, k) >= 0 ==> gs[key_index(gs, k)].0 == k,
        key_index(gs, k) == -1 ==> forall|j: int| 0 <= j < gs.len() ==> gs[j].0 != k,
    decreases gs.len(),
{
    if gs.len() > 0 && gs.last().0 != k {
        lemma_key_index(gs.drop_last(), k);
        assert forall|j: int| 0 <= j < gs.len() - 1 implies gs[j] == gs.drop_last()[j] by {}
    }
}

/// Grouping by category: every group is non-empty and holds, in increasing order,
/// positions whose key is the group's; no two groups share a key; groups stand in
/// the order in which their keys first appear; every position lies in its key's group.
pub proof fn lemma_grouping(keys: Seq<CategoryKey>)
    requires
        keys.len() <= usize::MAX,
    ensures
        ({
            let gs = grouped(keys);
            &&& forall|k: int| 0 <= k < gs.len() ==> #[trigger] gs[k].1.len() > 0
            &&& forall|k: int, t: int|
                0 <= k < gs.len() && 0 <= t < gs[k].1.len() ==> (#[trigger] gs[k].1[t]) < keys.len()
                    && keys[gs[k].1[t] as int] == gs[k].0
            &&& forall|k: int, t1: int, t2: int|
                0 <= k < gs.len() && 0 <= t1 < t2 < gs[k].1.len() ==> (#[trigger] gs[k].1[t1])
                    < #[trigger] gs[k].1[t2]
            &&& forall|a: int, b: int| 0 <= a < b < gs.len() ==> (#[trigger] gs[a]).0 != (#[trigger] gs[b]).0
            &&& forall|a: int, b: int|
                0 <= a < b < gs.len() ==> (#[trigger] gs[a]).1[0] < (#[trigger] gs[b]).1[0]
            &&& forall|i: int|
                0 <= i < keys.len() ==> {
                    let k = #[trigger] key_index(gs, keys[i]);
                    0 <= k < gs.len() && gs[k].1.contains(i as usize)
                }
        }),
    decreases keys.len(),
{
    if keys.len() > 0 {
        let pk = keys.drop_last();
        lemma_grouping(pk);
        let prev = grouped(pk);
        let n = keys.len() - 1;
        let key = keys.last();
        let gs = grouped(keys);
        lemma_key_index(prev, key);
        let j = key_index(prev, key);
        assert forall|k: int, t: int| 0 <= k < prev.len() && 0 <= t < prev[k].1.len() implies
            (#[trigger] prev[k].1[t]) < n && keys[prev[k].1[t] as int] == prev[k].0 by {
            assert(pk[prev[k].1[t] as int] == prev[k].0);
        }
        assert(gs == add_to_group(prev, key, n as usize));
        if j >= 0 {
            assert(gs.len() == prev.len());
            assert forall|k: int| 0 <= k < gs.len() && k != j implies #[trigger] gs[k] == prev[k] by {}
            assert(gs[j].1 == prev[j].1.push(n as usize));
            assert forall|k: int, t: int|
                0 <= k < gs.len() && 0 <= t < gs[k].1.len() implies (#[trigger] gs[k].1[t]) < keys.len()
                    && keys[gs[k].1[t] as int] == gs[k].0 by {
                if k != j || t < prev[j].1.len() {
                    assert(gs[k].1[t] == prev[k].1[t]);
                    assert(gs[k].0 == prev[k].0);
                } else {
                    assert(gs[k].1[t] == n);
                }
            }
            assert forall|i: int| 0 <= i < keys.len() implies {
                let k = #[trigger] key_index(gs, keys[i]);
                0 <= k < gs.len() && gs[k].1.contains(i as usize)
            } by {
                lemma_key_index(gs, keys[i]);
                lemma_key_index_unique(gs, keys, i);
                if i < n {
                    assert(pk[i] == keys[i]);
                    let kp = key_index(prev, pk[i]);
                    lemma_key_index(prev, pk[i]);
                    let tp = choose|tp: int| 0 <= tp < prev[kp].1.len() && prev[kp].1[tp] == i as usize;
                    assert(gs[kp].1[tp] == i as usize);
                    assert(gs[kp].0 == keys[i]);
                } else {
                    assert(gs[j].1[prev[j].1.len() as int] == i as usize);
                }
            }
        } else {
            assert(gs == prev.push((key, seq![n as usize])));
            assert forall|i: int| 0 <= i < keys.len() implies {
                let k = #[trigger] key_index(gs, keys[i]);
                0 <= k < gs.len() && gs[k].1.contains(i as usize)
            } by {
                lemma_key_index(gs, keys[i]);
                lemma_key_index_unique(gs, keys, i);
                if i < n {
                    assert(pk[i] == keys[i]);
                    let kp = key_index(prev, pk[i]);
                    lemma_key_index(prev, pk[i]);
                    let tp = choose|tp: int| 0 <= tp < prev[kp].1.len() && prev[kp].1[tp] == i as usize;
                    assert(gs[kp].1[tp] == i as usize);
                    assert(gs[kp].0 == keys[i]);
                } else {
                    assert(gs[prev.len() as int].1[0] == i as usize);
                }
            }
        }
    }
}

/// Where keys are distinct, the group keyed `keys[i]` is the one `key_index` finds.
proof fn lemma_key_index_unique(gs: Seq<Group>, keys: Seq<CategoryKey>, i: int)
    requires
        0 <= i < keys.len(),
        forall|a: int, b: int| 0 <= a < b < gs.len() ==> (#[trigger] gs[a]).0 != (#[trigger] gs[b]).0,
    ensures
        forall|k: int| 0 <= k < gs.len() && gs[k].0 == keys[i] ==> k == key_index(gs, keys[i]),
{
    lemma_key_index(gs, keys[i]);
}

/// Relies on indexmap::IndexMap::new: a new map holds no entry.
#[verifier::external_body]
pub(crate) fn new_groups() -> (m: IndexMap<Option<String>, Vec<usize>, RandomState>)
    ensures
        groups_of(m) == Seq::<Group>::empty(),
{
    IndexMap::new()
}

/// Relies on indexmap::IndexMap::entry and Entry::or_insert: an existing key (by `==` on
/// `Option<String>`) keeps its place; a new key is inserted last, with an empty list. The
/// list found or made is then extended by `i` (Vec::push).
#[verifier::external_body]
pub(crate) fn push_to_group(
    m: &mut IndexMap<Option<String>, Vec<usize>, RandomState>,
    key: Option<String>,
    i: usize,
)
    ensures
        groups_of(*final(m)) == add_to_group(groups_of(*old(m)), key.deep_view(), i),
{
    m.entry(key).or_insert(Vec::new()).push(i);
}

/// Relies on IndexMap's IntoIterator: the entries come out in the map's order.
#[verifier::external_body]
pub(crate) fn into_groups(m: IndexMap<Option<String>, Vec<usize>, RandomState>) -> (r: Vec<(Option<String>, Vec<usize>)>)
    ensures
        r@.len() == groups_of(m).len(),
        forall|k: int|
            0 <= k < r@.len() ==> (#[trigger] r@[k]).0.deep_view() == groups_of(m)[k].0 && r@[k].1@
                == groups_of(m)[k].1,
{
    m.into_iter().collect()
}

} // verus!
