//! The insertion-ordered maps that hold a graph snapshot, with what their
//! operations do to the entries.

use indexmap::IndexMap;
use vstd::prelude::*;

use crate::domain::model::{BridgeId, EventBridge, EventId, Placement, ResearchEvent};

verus! {

#[verifier::external_type_specification]
#[verifier::external_body]
#[verifier::reject_recursive_types(K)]
#[verifier::reject_recursive_types(V)]
#[verifier::reject_recursive_types(S)]
pub struct ExIndexMap<K, V, S>(IndexMap<K, V, S>);

/// `IndexMap::clone`, used by callers that keep a copy of a snapshot; nothing
/// is claimed of the copy.
pub assume_specification<K, V, S>[ <IndexMap<K, V, S> as Clone>::clone ](
    m: &IndexMap<K, V, S>,
) -> IndexMap<K, V, S>
    where
        K: Clone,
        V: Clone,
        S: Clone,
;

/// Some entry has a key whose view is `k`.
pub open spec fn has_key<K: View, V>(e: Seq<(K, V)>, k: K::V) -> bool {
    exists|i: int| 0 <= i < e.len() && (#[trigger] e[i]).0@ == k
}

/// The position of the entry whose key has view `k`.
pub open spec fn key_index<K: View, V>(e: Seq<(K, V)>, k: K::V) -> int {
    choose|i: int| 0 <= i < e.len() && (#[trigger] e[i]).0@ == k
}

/// No two entries have keys with the same view.
pub open spec fn keys_distinct<K: View, V>(e: Seq<(K, V)>) -> bool {
    forall|i: int, j: int| 0 <= i < j < e.len() ==> (#[trigger] e[i]).0@ != (#[trigger] e[j]).0@
}

/// Entries after inserting `v` under `k`: an existing key keeps its place and
/// its stored key, and takes the new value; a new key is appended.
pub open spec fn inserted<K: View, V>(e: Seq<(K, V)>, k: K, v: V) -> Seq<(K, V)> {
    if has_key(e, k@) {
        let i = key_index(e, k@);
        e.update(i, (e[i].0, v))
    } else {
        e.push((k, v))
    }
}

/// The entries as a map from key views to values.
pub open spec fn as_map<K: View, V>(e: Seq<(K, V)>) -> Map<K::V, V> {
    Map::new(|k: K::V| has_key(e, k), |k: K::V| e[key_index(e, k)].1)
}

pub proof fn lemma_key_index<K: View, V>(e: Seq<(K, V)>, k: K::V)
    requires
        has_key(e, k),
    ensures
        0 <= key_index(e, k) < e.len(),
        e[key_index(e, k)].0@ == k,
{
}

pub proof fn lemma_key_index_unique<K: View, V>(e: Seq<(K, V)>, i: int)
    requires
        keys_distinct(e),
        0 <= i < e.len(),
    ensures
        has_key(e, e[i].0@),
        key_index(e, e[i].0@) == i,
{
    assert(has_key(e, e[i].0@));
    let j = key_index(e, e[i].0@);
    if j != i {
        if j < i {
            assert(e[j].0@ != e[i].0@);
        } else {
            assert(e[i].0@ != e[j].0@);
        }
    }
}

pub proof fn lemma_inserted<K: View, V>(e: Seq<(K, V)>, k: K, v: V)
    requires
        keys_distinct(e),
    ensures
        keys_distinct(inserted(e, k, v)),
        has_key(inserted(e, k, v), k@),
        inserted(e, k, v)[key_index(inserted(e, k, v), k@)].1 == v,
        as_map(inserted(e, k, v)) == as_map(e).insert(k@, v),
{
    let f = inserted(e, k, v);
    if has_key(e, k@) {
        let i = key_index(e, k@);
        assert(f.len() == e.len());
        assert forall|a: int, b: int| 0 <= a < b < f.len() implies (#[trigger] f[a]).0@ != (
        #[trigger] f[b]).0@ by {
            assert(f[a].0 == e[a].0);
            assert(f[b].0 == e[b].0);
        }
        assert(f[i].0@ == k@);
        lemma_key_index_unique(f, i);
    } else {
        assert forall|a: int, b: int| 0 <= a < b < f.len() implies (#[trigger] f[a]).0@ != (
        #[trigger] f[b]).0@ by {
            if b == e.len() {
                assert(e[a].0@ != k@);
            } else {
                assert(e[a].0@ != e[b].0@);
            }
        }
        lemma_key_index_unique(f, e.len() as int);
    }
    assert forall|q: K::V| #![auto] as_map(f).dom().contains(q) == as_map(e).insert(k@, v).dom().contains(q) by {
        if q != k@ {
            if has_key(e, q) {
                let j = key_index(e, q);
                assert(f[j].0 == e[j].0);
            }
            if has_key(f, q) {
                let j = key_index(f, q);
                assert(j < e.len());
                assert(f[j].0 == e[j].0);
            }
        }
    }
    assert forall|q: K::V| #![auto] as_map(f).dom().contains(q) implies as_map(f)[q] == as_map(e).insert(k@, v)[q] by {
        if q != k@ {
            let j = key_index(f, q);
            assert(j < e.len());
            assert(f[j].0 == e[j].0);
            lemma_key_index_unique(e, j);
            lemma_key_index_unique(f, j);
        }
    }
    assert(as_map(f) =~= as_map(e).insert(k@, v));
}

pub proof fn lemma_removed<K: View, V>(e: Seq<(K, V)>, k: K::V)
    requires
        keys_distinct(e),
        has_key(e, k),
    ensures
        keys_distinct(e.remove(key_index(e, k))),
        !has_key(e.remove(key_index(e, k)), k),
        as_map(e.remove(key_index(e, k))) == as_map(e).remove(k),
{
    let i = key_index(e, k);
    let f = e.remove(i);
    assert forall|a: int, b: int| 0 <= a < b < f.len() implies (#[trigger] f[a]).0@ != (
    #[trigger] f[b]).0@ by {
        let a2 = if a < i { a } else { a + 1 };
        let b2 = if b < i { b } else { b + 1 };
        assert(f[a] == e[a2]);
        assert(f[b] == e[b2]);
    }
    if has_key(f, k) {
        let j = key_index(f, k);
        let j2 = if j < i { j } else { j + 1 };
        assert(f[j] == e[j2]);
        assert(e[i].0@ == k);
        if j2 < i {
            assert(e[j2].0@ != e[i].0@);
        } else {
            assert(e[i].0@ != e[j2].0@);
        }
    }
    assert forall|q: K::V| #![auto] as_map(f).dom().contains(q) == as_map(e).remove(k).dom().contains(q) by {
        if q != k && has_key(e, q) {
            let j = key_index(e, q);
            assert(j != i);
            let j1 = if j < i { j } else { j - 1 };
            assert(f[j1] == e[j]);
        }
        if has_key(f, q) {
            let j = key_index(f, q);
            let j2 = if j < i { j } else { j + 1 };
            assert(f[j] == e[j2]);
        }
    }
    assert forall|q: K::V| #![auto] as_map(f).dom().contains(q) implies as_map(f)[q] == as_map(e).remove(k)[q] by {
        let j = key_index(f, q);
        let j2 = if j < i { j } else { j + 1 };
        assert(f[j] == e[j2]);
        lemma_key_index_unique(e, j2);
    }
    assert(as_map(f) =~= as_map(e).remove(k));
}

/// The entries of an `IndexMap` of events by ID, in insertion order.
pub uninterp spec fn event_entries(m: IndexMap<EventId, ResearchEvent>) -> Seq<(EventId, ResearchEvent)>;

/// `IndexMap::new`: an empty map.
#[verifier::external_body]
pub fn events_new() -> (m: IndexMap<EventId, ResearchEvent>)
    ensures
        event_entries(m) == Seq::<(EventId, ResearchEvent)>::empty(),
{
    IndexMap::new()
}

/// `IndexMap::len`: the number of entries.
#[verifier::external_body]
pub fn events_len(m: &IndexMap<EventId, ResearchEvent>) -> (n: usize)
    ensures
        n == event_entries(*m).len(),
{
    m.len()
}

/// `IndexMap::get_index`: the entry at position `i` of the insertion order.
#[verifier::external_body]
pub fn events_get_index(m: &IndexMap<EventId, ResearchEvent>, i: usize) -> (r: Option<(&EventId, &ResearchEvent)>)
    ensures
        i < event_entries(*m).len() ==> r == Some((&event_entries(*m)[i as int].0, &event_entries(*m)[i as int].1)),
        i >= event_entries(*m).len() ==> r is None,
{
    m.get_index(i)
}

/// `IndexMap::get`: the value stored under a key equal to `k`.
#[verifier::external_body]
pub fn events_get<'a>(m: &'a IndexMap<EventId, ResearchEvent>, k: &EventId) -> (r: Option<&'a ResearchEvent>)
    ensures
        match r {
            Some(v) => has_key(event_entries(*m), k@) && *v == event_entries(*m)[key_index(event_entries(*m), k@)].1,
            None => !has_key(event_entries(*m), k@),
        },
{
    m.get(k)
}

/// `IndexMap::insert`: a key already present keeps its place and takes the
/// new value; otherwise the pair is appended last.
#[verifier::external_body]
pub fn events_insert(m: &mut IndexMap<EventId, ResearchEvent>, k: EventId, v: ResearchEvent)
    ensures
        event_entries(*final(m)) == inserted(event_entries(*old(m)), k, v),
{
    m.insert(k, v);
}

/// The entries of an `IndexMap` of bridges by ID, in insertion order.
pub uninterp spec fn bridge_entries(m: IndexMap<BridgeId, EventBridge>) -> Seq<(BridgeId, EventBridge)>;

/// `IndexMap::new`: an empty map.
#[verifier::external_body]
pub fn bridges_new() -> (m: IndexMap<BridgeId, EventBridge>)
    ensures
        bridge_entries(m) == Seq::<(BridgeId, EventBridge)>::empty(),
{
    IndexMap::new()
}

/// `IndexMap::len`: the number of entries.
#[verifier::external_body]
pub fn bridges_len(m: &IndexMap<BridgeId, EventBridge>) -> (n: usize)
    ensures
        n == bridge_entries(*m).len(),
{
    m.len()
}

/// `IndexMap::get_index`: the entry at position `i` of the insertion order.
#[verifier::external_body]
pub fn bridges_get_index(m: &IndexMap<BridgeId, EventBridge>, i: usize) -> (r: Option<(&BridgeId, &EventBridge)>)
    ensures
        i < bridge_entries(*m).len() ==> r == Some((&bridge_entries(*m)[i as int].0, &bridge_entries(*m)[i as int].1)),
        i >= bridge_entries(*m).len() ==> r is None,
{
    m.get_index(i)
}

/// `IndexMap::get`: the value stored under a key equal to `k`.
#[verifier::external_body]
pub fn bridges_get<'a>(m: &'a IndexMap<BridgeId, EventBridge>, k: &BridgeId) -> (r: Option<&'a EventBridge>)
    ensures
        match r {
            Some(v) => has_key(bridge_entries(*m), k@) && *v == bridge_entries(*m)[key_index(bridge_entries(*m), k@)].1,
            None => !has_key(bridge_entries(*m), k@),
        },
{
    m.get(k)
}

/// `IndexMap::insert`: a key already present keeps its place and takes the
/// new value; otherwise the pair is appended last.
#[verifier::external_body]
pub fn bridges_insert(m: &mut IndexMap<BridgeId, EventBridge>, k: BridgeId, v: EventBridge)
    ensures
        bridge_entries(*final(m)) == inserted(bridge_entries(*old(m)), k, v),
{
    m.insert(k, v);
}

/// The entries of an `IndexMap` of placements by event, in insertion order.
pub uninterp spec fn placement_entries(m: IndexMap<EventId, Placement>) -> Seq<(EventId, Placement)>;

/// `IndexMap::new`: an empty map.
#[verifier::external_body]
pub fn placements_new() -> (m: IndexMap<EventId, Placement>)
    ensures
        placement_entries(m) == Seq::<(EventId, Placement)>::empty(),
{
    IndexMap::new()
}

/// `IndexMap::len`: the number of entries.
#[verifier::external_body]
pub fn placements_len(m: &IndexMap<EventId, Placement>) -> (n: usize)
    ensures
        n == placement_entries(*m).len(),
{
    m.len()
}

/// `IndexMap::get_index`: the entry at position `i` of the insertion order.
#[verifier::external_body]
pub fn placements_get_index(m: &IndexMap<EventId, Placement>, i: usize) -> (r: Option<(&EventId, &Placement)>)
    ensures
        i < placement_entries(*m).len() ==> r == Some((&placement_entries(*m)[i as int].0, &placement_entries(*m)[i as int].1)),
        i >= placement_entries(*m).len() ==> r is None,
{
    m.get_index(i)
}

/// `IndexMap::get`: the value stored under a key equal to `k`.
#[verifier::external_body]
pub fn placements_get<'a>(m: &'a IndexMap<EventId, Placement>, k: &EventId) -> (r: Option<&'a Placement>)
    ensures
        match r {
            Some(v) => has_key(placement_entries(*m), k@) && *v == placement_entries(*m)[key_index(placement_entries(*m), k@)].1,
            None => !has_key(placement_entries(*m), k@),
        },
{
    m.get(k)
}

/// `IndexMap::insert`: a key already present keeps its place and takes the
/// new value; otherwise the pair is appended last.
#[verifier::external_body]
pub fn placements_insert(m: &mut IndexMap<EventId, Placement>, k: EventId, v: Placement)
    ensures
        placement_entries(*final(m)) == inserted(placement_entries(*old(m)), k, v),
{
    m.insert(k, v);
}

/// `IndexMap::shift_remove`: removes the entry under a key equal to `k`,
/// keeping the order of the rest, and returns its value.
#[verifier::external_body]
pub fn placements_shift_remove(m: &mut IndexMap<EventId, Placement>, k: &EventId) -> (r: Option<Placement>)
    ensures
        has_key(placement_entries(*old(m)), k@) ==> r == Some(placement_entries(*old(m))[key_index(placement_entries(*old(m)), k@)].1)
            && placement_entries(*final(m)) == placement_entries(*old(m)).remove(key_index(placement_entries(*old(m)), k@)),
        !has_key(placement_entries(*old(m)), k@) ==> r is None && placement_entries(*final(m)) == placement_entries(*old(m)),
{
    m.shift_remove(k)
}

/// The entries of an `IndexMap` of placement generations by event, in insertion order.
pub uninterp spec fn version_entries(m: IndexMap<EventId, u64>) -> Seq<(EventId, u64)>;

/// `IndexMap::new`: an empty map.
#[verifier::external_body]
pub fn versions_new() -> (m: IndexMap<EventId, u64>)
    ensures
        version_entries(m) == Seq::<(EventId, u64)>::empty(),
{
    IndexMap::new()
}

/// `IndexMap::len`: the number of entries.
#[verifier::external_body]
pub fn versions_len(m: &IndexMap<EventId, u64>) -> (n: usize)
    ensures
        n == version_entries(*m).len(),
{
    m.len()
}

/// `IndexMap::get_index`: the entry at position `i` of the insertion order.
#[verifier::external_body]
pub fn versions_get_index(m: &IndexMap<EventId, u64>, i: usize) -> (r: Option<(&EventId, &u64)>)
    ensures
        i < version_entries(*m).len() ==> r == Some((&version_entries(*m)[i as int].0, &version_entries(*m)[i as int].1)),
        i >= version_entries(*m).len() ==> r is None,
{
    m.get_index(i)
}

/// `IndexMap::get`: the value stored under a key equal to `k`.
#[verifier::external_body]
pub fn versions_get<'a>(m: &'a IndexMap<EventId, u64>, k: &EventId) -> (r: Option<&'a u64>)
    ensures
        match r {
            Some(v) => has_key(version_entries(*m), k@) && *v == version_entries(*m)[key_index(version_entries(*m), k@)].1,
            None => !has_key(version_entries(*m), k@),
        },
{
    m.get(k)
}

/// `IndexMap::insert`: a key already present keeps its place and takes the
/// new value; otherwise the pair is appended last.
#[verifier::external_body]
pub fn versions_insert(m: &mut IndexMap<EventId, u64>, k: EventId, v: u64)
    ensures
        version_entries(*final(m)) == inserted(version_entries(*old(m)), k, v),
{
    m.insert(k, v);
}

/// The entries of an `IndexMap` of canonical events by alias, in insertion order.
pub uninterp spec fn alias_entries(m: IndexMap<EventId, EventId>) -> Seq<(EventId, EventId)>;

/// `IndexMap::new`: an empty map.
#[verifier::external_body]
pub fn aliases_new() -> (m: IndexMap<EventId, EventId>)
    ensures
        alias_entries(m) == Seq::<(EventId, EventId)>::empty(),
{
    IndexMap::new()
}

/// `IndexMap::len`: the number of entries.
#[verifier::external_body]
pub fn aliases_len(m: &IndexMap<EventId, EventId>) -> (n: usize)
    ensures
        n == alias_entries(*m).len(),
{
    m.len()
}

/// `IndexMap::get_index`: the entry at position `i` of the insertion order.
#[verifier::external_body]
pub fn aliases_get_index(m: &IndexMap<EventId, EventId>, i: usize) -> (r: Option<(&EventId, &EventId)>)
    ensures
        i < alias_entries(*m).len() ==> r == Some((&alias_entries(*m)[i as int].0, &alias_entries(*m)[i as int].1)),
        i >= alias_entries(*m).len() ==> r is None,
{
    m.get_index(i)
}

/// `IndexMap::get`: the value stored under a key equal to `k`.
#[verifier::external_body]
pub fn aliases_get<'a>(m: &'a IndexMap<EventId, EventId>, k: &EventId) -> (r: Option<&'a EventId>)
    ensures
        match r {
            Some(v) => has_key(alias_entries(*m), k@) && *v == alias_entries(*m)[key_index(alias_entries(*m), k@)].1,
            None => !has_key(alias_entries(*m), k@),
        },
{
    m.get(k)
}

/// `IndexMap::insert`: a key already present keeps its place and takes the
/// new value; otherwise the pair is appended last.
#[verifier::external_body]
pub fn aliases_insert(m: &mut IndexMap<EventId, EventId>, k: EventId, v: EventId)
    ensures
        alias_entries(*final(m)) == inserted(alias_entries(*old(m)), k, v),
{
    m.insert(k, v);
}
} // verus!
