use vstd::prelude::*;
use ordermap::OrderMap;
use crate::errors::OccuError;
use crate::events::Event;

verus! {

#[verifier::external_type_specification]
#[verifier::external_body]
#[verifier::reject_recursive_types(K)]
#[verifier::reject_recursive_types(V)]
#[verifier::reject_recursive_types(S)]
pub struct ExOrderMap<K, V, S>(OrderMap<K, V, S>);

/// The key-value pairs held by the map, in insertion order.
pub uninterp spec fn map_entries(m: OrderMap<u128, Event>) -> Seq<(u128, Event)>;

/// Some entry carries this key.
pub open spec fn entries_have_key(s: Seq<(u128, Event)>, k: u128) -> bool {
    exists|i: int| 0 <= i < s.len() && s[i].0 == k
}

/// Relies on `OrderMap::new`: the new map holds nothing.
#[verifier::external_body]
fn order_map_new() -> (m: OrderMap<u128, Event>)
    ensures
        map_entries(m) == Seq::<(u128, Event)>::empty(),
{
    OrderMap::new()
}

/// Relies on `OrderMap::len`: the number of pairs held.
#[verifier::external_body]
fn order_map_len(m: &OrderMap<u128, Event>) -> (n: usize)
    ensures
        n == map_entries(*m).len(),
{
    m.len()
}

/// Relies on `OrderMap::contains_key`.
#[verifier::external_body]
fn order_map_contains_key(m: &OrderMap<u128, Event>, k: u128) -> (r: bool)
    ensures
        r == entries_have_key(map_entries(*m), k),
{
    m.contains_key(&k)
}

/// Relies on `OrderMap::insert`: a new key lands at the end of the order
/// and nothing is returned; an existing key keeps its place, its value is
/// replaced, and the older value is returned.
#[verifier::external_body]
fn order_map_insert(m: &mut OrderMap<u128, Event>, k: u128, v: Event) -> (r: Option<Event>)
    ensures
        !entries_have_key(map_entries(*old(m)), k) ==> r is None && map_entries(*final(m))
            == map_entries(*old(m)).push((k, v)),
        entries_have_key(map_entries(*old(m)), k) ==> exists|i: int|
            0 <= i < map_entries(*old(m)).len() && map_entries(*old(m))[i].0 == k && r == Some(
                map_entries(*old(m))[i].1,
            ) && map_entries(*final(m)) == map_entries(*old(m)).update(i, (k, v)),
{
    m.insert(k, v)
}

/// Relies on `OrderMap::get_index`: the pair at that position in order, or
/// nothing when the position is out of bounds.
#[verifier::external_body]
fn order_map_get_index<'a>(m: &'a OrderMap<u128, Event>, i: usize) -> (r: Option<
    (&'a u128, &'a Event),
>)
    ensures
        i < map_entries(*m).len() ==> r is Some,
        r matches Some(p) ==> i < map_entries(*m).len() && *p.0 == map_entries(*m)[i as int].0
            && *p.1 == map_entries(*m)[i as int].1,
        i >= map_entries(*m).len() ==> r is None,
{
    m.get_index(i)
}

/// Relies on `OrderMap::remove_index`: removes the pair at that position,
/// shifting every later pair down by one and keeping their relative order;
/// out of bounds, nothing changes and nothing is returned.
#[verifier::external_body]
fn order_map_remove_index(m: &mut OrderMap<u128, Event>, i: usize) -> (r: Option<(u128, Event)>)
    ensures
        i < map_entries(*old(m)).len() ==> r == Some(map_entries(*old(m))[i as int]) && map_entries(
            *final(m),
        ) == map_entries(*old(m)).remove(i as int),
        i >= map_entries(*old(m)).len() ==> r is None && map_entries(*final(m)) == map_entries(
            *old(m),
        ),
{
    m.remove_index(i)
}

/// The ordered Event store: a mapping from identifier to Event that
/// preserves insertion order as the canonical iteration and display order,
/// with positional access. Positions are not stable across removals.
pub struct EventStore {
    map: OrderMap<u128, Event>,
}

impl EventStore {
    /// The stored (identifier, Event) pairs, in insertion order.
    pub closed spec fn entries(&self) -> Seq<(u128, Event)> {
        map_entries(self.map)
    }

    /// The store is an injective mapping: no identifier occurs twice.
    pub open spec fn wf(&self) -> bool {
        forall|i: int, j: int|
            0 <= i < j < self.entries().len() ==> self.entries()[i].0 != self.entries()[j].0
    }

    /// An empty store.
    pub fn new() -> (r: EventStore)
        ensures
            r.entries().len() == 0,
            r.wf(),
    {
        EventStore { map: order_map_new() }
    }

    pub fn len(&self) -> (n: usize)
        ensures
            n == self.entries().len(),
    {
        order_map_len(&self.map)
    }

    pub fn is_empty(&self) -> (r: bool)
        ensures
            r == (self.entries().len() == 0),
    {
        self.len() == 0
    }

    /// Inserts an Event under its identifier at the end of the order; an
    /// identifier collision is reported and leaves the store unchanged.
    pub fn insert(&mut self, id: u128, event: Event) -> (r: Result<(), OccuError>)
        requires
            old(self).wf(),
        ensures
            final(self).wf(),
            entries_have_key(old(self).entries(), id) ==> r == Err::<(), OccuError>(
                OccuError::EventExists,
            ) && final(self).entries() == old(self).entries(),
            !entries_have_key(old(self).entries(), id) ==> r == Ok::<(), OccuError>(())
                && final(self).entries() == old(self).entries().push((id, event)),
    {
        if order_map_contains_key(&self.map, id) {
            Err(OccuError::EventExists)
        } else {
            let ghost pre = self.entries();
            let _ = order_map_insert(&mut self.map, id, event);
            proof {
                assert forall|i: int, j: int|
                    0 <= i < j < self.entries().len() implies self.entries()[i].0
                    != self.entries()[j].0 by {
                    if j < pre.len() {
                    } else {
                        assert(self.entries()[i] == pre[i]);
                        assert(self.entries()[j].0 == id);
                    }
                }
            }
            Ok(())
        }
    }

    /// The pair at a position in insertion order; nothing when the position
    /// is out of bounds. Never panics.
    pub fn get_by_index(&self, i: usize) -> (r: Option<(u128, &Event)>)
        ensures
            i < self.entries().len() ==> r is Some,
            r matches Some(p) ==> i < self.entries().len() && p.0 == self.entries()[i as int].0
                && *p.1 == self.entries()[i as int].1,
            i >= self.entries().len() ==> r is None,
    {
        match order_map_get_index(&self.map, i) {
            Some((k, v)) => Some((*k, v)),
            None => None,
        }
    }

    /// Removes the entry at a position if there is one; out of bounds is a
    /// silent no-op, not an error. Later positions shift down by one.
    pub fn remove_by_index(&mut self, i: usize)
        requires
            old(self).wf(),
        ensures
            final(self).wf(),
            i < old(self).entries().len() ==> final(self).entries() == old(self).entries().remove(
                i as int,
            ),
            i >= old(self).entries().len() ==> final(self).entries() == old(self).entries(),
    {
        let ghost pre = self.entries();
        let _ = order_map_remove_index(&mut self.map, i);
        proof {
            if (i as int) < pre.len() {
                assert forall|a: int, b: int|
                    0 <= a < b < self.entries().len() implies self.entries()[a].0
                    != self.entries()[b].0 by {
                    let a0: int = if a < i { a } else { a + 1 };
                    let b0: int = if b < i { b } else { b + 1 };
                    assert(self.entries()[a] == pre[a0]);
                    assert(self.entries()[b] == pre[b0]);
                }
            }
        }
    }
}

/// Removing position `i` deletes exactly that element: every earlier entry
/// keeps its position, and every later one moves down by exactly one.
pub proof fn lemma_remove_shifts(s: Seq<(u128, Event)>, i: int)
    requires
        0 <= i < s.len(),
    ensures
        s.remove(i).len() == s.len() - 1,
        forall|j: int| 0 <= j < i ==> s.remove(i)[j] == s[j],
        forall|j: int| i <= j < s.len() - 1 ==> s.remove(i)[j] == s[j + 1],
{
}

} // verus!
