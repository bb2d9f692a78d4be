use vstd::prelude::*;
use crate::model::{StateKind, Store};
use crate::serialization::protobuf::Value;

verus! {

impl Store {
    /// The store after the pairs were inserted into the map in a slot one at
    /// a time, first to last.
    pub open spec fn inserted_in_turn(
        self,
        slot: (Seq<char>, Seq<u8>),
        pairs: Seq<(Seq<u8>, Seq<u8>)>,
    ) -> Store
        decreases pairs.len(),
    {
        if pairs.len() == 0 {
            self
        } else {
            self.with_entries(
                slot,
                self.entries(slot).insert(pairs.first().0, pairs.first().1),
            ).inserted_in_turn(slot, pairs.drop_first())
        }
    }

    /// What was written to a slot is what the slot holds.
    pub proof fn lemma_written_is_held(self, slot: (Seq<char>, Seq<u8>))
        ensures
            forall|value: Option<Seq<u8>>| #[trigger]
                self.with_single(slot, value).single(slot) == value,
            forall|entries: Map<Seq<u8>, Seq<u8>>|
                entries.dom().finite() ==> (#[trigger] self.with_entries(slot, entries)).entries(
                    slot,
                ) == entries,
            forall|items: Seq<Seq<u8>>| (#[trigger] self.with_items(slot, items)).items(slot)
                == items,
    {
        assert forall|entries: Map<Seq<u8>, Seq<u8>>| entries.dom().finite() implies (
        #[trigger] self.with_entries(slot, entries)).entries(slot) == entries by {
            if entries.dom().len() == 0 {
                assert(entries.dom() =~= Set::empty());
                assert(entries =~= Map::empty());
            }
        }
        assert forall|items: Seq<Seq<u8>>| (#[trigger] self.with_items(slot, items)).items(slot)
            == items by {
            if items.len() == 0 {
                assert(items =~= Seq::empty());
            }
        }
    }

    /// In a consistent store the map in a slot is finite, and writing back
    /// what a slot of a map state holds changes nothing.
    pub proof fn lemma_entries_are_canonical(self, slot: (Seq<char>, Seq<u8>))
        requires
            self.wf(),
            self.holds(slot.0, StateKind::Mapping),
        ensures
            self.entries(slot).dom().finite(),
            self.with_entries(slot, self.entries(slot)) == self,
    {
        if self.cells.contains_key(slot) {
            assert(self.cells[slot].fits(StateKind::Mapping));
            assert(self.with_entries(slot, self.entries(slot)).cells =~= self.cells);
        } else {
            assert(self.entries(slot).dom() =~= Set::empty());
            assert(self.with_entries(slot, self.entries(slot)).cells =~= self.cells);
        }
    }
}

/// A value that was set is the value that is read; once the value was
/// cleared, nothing is read.
pub proof fn law_set_then_get<T: Value>(
    store: Store,
    slot: (Seq<char>, Seq<u8>),
    value: T,
    found: Option<T>,
    found_after_clear: Option<T>,
)
    requires
        T::decoding(T::encoding(value@)) == Some(value@),
        store.with_single(slot, Some(T::encoding(value@))).reads_single(slot, found),
        store.with_single(slot, Some(T::encoding(value@))).with_single(slot, None).reads_single(
            slot,
            found_after_clear,
        ),
    ensures
        found matches Some(v) && v@ == value@,
        found_after_clear is None,
{
    store.lemma_written_is_held(slot);
    store.with_single(slot, Some(T::encoding(value@))).lemma_written_is_held(slot);
}

/// A value that was put under a key is the value that getting the key reads;
/// once the key was removed, getting it reads nothing.
pub proof fn law_put_then_get<V: Value>(
    store: Store,
    slot: (Seq<char>, Seq<u8>),
    key: Seq<u8>,
    value: V,
    found: Option<V>,
    found_after_remove: Option<V>,
)
    requires
        store.wf(),
        store.holds(slot.0, StateKind::Mapping),
        V::decoding(V::encoding(value@)) == Some(value@),
        store.with_entries(
            slot,
            store.entries(slot).insert(key, V::encoding(value@)),
        ).reads_entry(slot, key, found),
        store.with_entries(
            slot,
            store.entries(slot).insert(key, V::encoding(value@)).remove(key),
        ).reads_entry(slot, key, found_after_remove),
    ensures
        found matches Some(v) && v@ == value@,
        found_after_remove is None,
{
    store.lemma_entries_are_canonical(slot);
    store.lemma_written_is_held(slot);
}

/// Inserting pairs in bulk leaves the map that inserting them one at a time,
/// in their order, leaves.
pub proof fn law_bulk_insert_is_sequential(
    store: Store,
    slot: (Seq<char>, Seq<u8>),
    pairs: Seq<(Seq<u8>, Seq<u8>)>,
)
    requires
        store.wf(),
        store.holds(slot.0, StateKind::Mapping),
    ensures
        store.with_entries(slot, Store::insert_all(store.entries(slot), pairs))
            == store.inserted_in_turn(slot, pairs),
    decreases pairs.len(),
{
    store.lemma_entries_are_canonical(slot);
    if pairs.len() == 0 {
    } else {
        let first = pairs.first();
        let rest = pairs.drop_first();
        let start = store.entries(slot);
        let next = store.with_entries(slot, start.insert(first.0, first.1));
        store.lemma_written_is_held(slot);
        store.lemma_overwrite(slot);
        assert(next.entries(slot) == start.insert(first.0, first.1));
        assert(next.wf()) by {
            assert(start.insert(first.0, first.1).dom().len() > 0);
            assert forall|s: (Seq<char>, Seq<u8>)| #[trigger]
                next.cells.contains_key(s) implies next.kinds.contains_key(s.0)
                && next.cells[s].fits(next.kinds[s.0]) by {
                if s != slot {
                    assert(store.cells.contains_key(s));
                }
            }
        }
        law_bulk_insert_is_sequential(next, slot, rest);
        lemma_insert_all_from_front(start, pairs);
    }
}

/// Inserting in bulk is inserting the first pair and then the others in bulk.
pub proof fn lemma_insert_all_from_front(
    entries: Map<Seq<u8>, Seq<u8>>,
    pairs: Seq<(Seq<u8>, Seq<u8>)>,
)
    requires
        pairs.len() > 0,
    ensures
        Store::insert_all(entries, pairs) == Store::insert_all(
            entries.insert(pairs.first().0, pairs.first().1),
            pairs.drop_first(),
        ),
    decreases pairs.len(),
{
    let next = entries.insert(pairs.first().0, pairs.first().1);
    if pairs.len() == 1 {
        assert(pairs.drop_last().len() == 0);
        assert(pairs.drop_first().len() == 0);
        assert(Store::insert_all(entries, pairs.drop_last()) == entries);
        assert(Store::insert_all(next, pairs.drop_first()) == next);
        assert(pairs.last() == pairs.first());
    } else {
        let head = pairs.drop_last();
        let tail = pairs.drop_first();
        lemma_insert_all_from_front(entries, head);
        assert(head.drop_first() =~= tail.drop_last());
        assert(head.first() == pairs.first());
        assert(tail.last() == pairs.last());
        assert(tail.len() > 0);
        assert(Store::insert_all(next, tail) == Store::insert_all(next, tail.drop_last()).insert(
            tail.last().0,
            tail.last().1,
        ));
    }
}

/// Inserting two lists of pairs in bulk, one after the other, is inserting
/// their concatenation in bulk.
pub proof fn lemma_insert_all_concat(
    entries: Map<Seq<u8>, Seq<u8>>,
    fst: Seq<(Seq<u8>, Seq<u8>)>,
    snd: Seq<(Seq<u8>, Seq<u8>)>,
)
    ensures
        Store::insert_all(Store::insert_all(entries, fst), snd) == Store::insert_all(
            entries,
            fst + snd,
        ),
    decreases snd.len(),
{
    if snd.len() == 0 {
        assert(fst + snd =~= fst);
    } else {
        lemma_insert_all_concat(entries, fst, snd.drop_last());
        assert((fst + snd).drop_last() =~= fst + snd.drop_last());
        assert((fst + snd).last() == snd.last());
    }
}

/// Inserting pairs into a finite map leaves a finite map.
pub proof fn lemma_insert_all_finite(
    entries: Map<Seq<u8>, Seq<u8>>,
    pairs: Seq<(Seq<u8>, Seq<u8>)>,
)
    requires
        entries.dom().finite(),
    ensures
        Store::insert_all(entries, pairs).dom().finite(),
    decreases pairs.len(),
{
    if pairs.len() > 0 {
        lemma_insert_all_finite(entries, pairs.drop_last());
    }
}

/// Of the pairs with one key that are inserted in bulk, the last one stays.
pub proof fn law_last_write_wins(
    entries: Map<Seq<u8>, Seq<u8>>,
    pairs: Seq<(Seq<u8>, Seq<u8>)>,
    i: int,
)
    requires
        0 <= i < pairs.len(),
        forall|j: int| i < j < pairs.len() ==> (#[trigger] pairs[j]).0 != pairs[i].0,
    ensures
        Store::insert_all(entries, pairs).contains_key(pairs[i].0),
        Store::insert_all(entries, pairs)[pairs[i].0] == pairs[i].1,
    decreases pairs.len(),
{
    if i == pairs.len() - 1 {
    } else {
        let head = pairs.drop_last();
        assert(head[i] == pairs[i]);
        assert forall|j: int| i < j < head.len() implies (#[trigger] head[j]).0 != head[i].0 by {
            assert(head[j] == pairs[j]);
        }
        law_last_write_wins(entries, head, i);
        assert(pairs.last() == pairs[pairs.len() - 1]);
    }
}

/// A key that none of the pairs holds keeps what it was bound to.
pub proof fn law_bulk_insert_keeps_others(
    entries: Map<Seq<u8>, Seq<u8>>,
    pairs: Seq<(Seq<u8>, Seq<u8>)>,
    key: Seq<u8>,
)
    requires
        forall|j: int| 0 <= j < pairs.len() ==> (#[trigger] pairs[j]).0 != key,
    ensures
        Store::insert_all(entries, pairs).contains_key(key) == entries.contains_key(key),
        entries.contains_key(key) ==> Store::insert_all(entries, pairs)[key] == entries[key],
    decreases pairs.len(),
{
    if pairs.len() > 0 {
        let head = pairs.drop_last();
        assert forall|j: int| 0 <= j < head.len() implies (#[trigger] head[j]).0 != key by {
            assert(head[j] == pairs[j]);
        }
        law_bulk_insert_keeps_others(entries, head, key);
        assert(pairs.last() == pairs[pairs.len() - 1]);
    }
}

/// The keys of the pairs are new to the map and differ from one another.
pub open spec fn fresh_keys(entries: Map<Seq<u8>, Seq<u8>>, pairs: Seq<(Seq<u8>, Seq<u8>)>) -> bool {
    &&& forall|i: int| 0 <= i < pairs.len() ==> !entries.contains_key((#[trigger] pairs[i]).0)
    &&& forall|i: int, j: int|
        0 <= i < j < pairs.len() ==> (#[trigger] pairs[i]).0 != (#[trigger] pairs[j]).0
}

/// After a bulk insert the map has the keys that it had and those of the pairs.
pub proof fn lemma_bulk_insert_keys(
    entries: Map<Seq<u8>, Seq<u8>>,
    pairs: Seq<(Seq<u8>, Seq<u8>)>,
    key: Seq<u8>,
)
    ensures
        Store::insert_all(entries, pairs).contains_key(key) <==> (entries.contains_key(key)
            || exists|i: int| 0 <= i < pairs.len() && (#[trigger] pairs[i]).0 == key),
    decreases pairs.len(),
{
    if pairs.len() > 0 {
        let head = pairs.drop_last();
        lemma_bulk_insert_keys(entries, head, key);
        if exists|i: int| 0 <= i < head.len() && (#[trigger] head[i]).0 == key {
            let i = choose|i: int| 0 <= i < head.len() && (#[trigger] head[i]).0 == key;
            assert(pairs[i].0 == key);
        }
        if exists|i: int| 0 <= i < pairs.len() && (#[trigger] pairs[i]).0 == key {
            let i = choose|i: int| 0 <= i < pairs.len() && (#[trigger] pairs[i]).0 == key;
            if i < head.len() {
                assert(head[i].0 == key);
            } else {
                assert(pairs.last() == pairs[i]);
            }
        }
        assert(pairs.last() == pairs[pairs.len() - 1]);
    }
}

/// A bulk insert adds at most as many entries as there are pairs, and just
/// as many where the keys of the pairs are new to the map and differ from one
/// another.
pub proof fn law_bulk_insert_grows(entries: Map<Seq<u8>, Seq<u8>>, pairs: Seq<(Seq<u8>, Seq<u8>)>)
    requires
        entries.dom().finite(),
    ensures
        Store::insert_all(entries, pairs).dom().finite(),
        entries.dom().len() <= Store::insert_all(entries, pairs).dom().len() <= entries.dom().len()
            + pairs.len(),
        Store::insert_all(entries, pairs).dom().len() == entries.dom().len() + pairs.len()
            <==> fresh_keys(entries, pairs),
    decreases pairs.len(),
{
    if pairs.len() > 0 {
        let head = pairs.drop_last();
        let last = pairs.last();
        let before = Store::insert_all(entries, head);
        law_bulk_insert_grows(entries, head);
        lemma_bulk_insert_keys(entries, head, last.0);
        assert(pairs.last() == pairs[pairs.len() - 1]);
        assert(Store::insert_all(entries, pairs).dom() =~= before.dom().insert(last.0));
        if fresh_keys(entries, pairs) {
            assert forall|i: int| 0 <= i < head.len() implies !entries.contains_key(
                (#[trigger] head[i]).0,
            ) by {
                assert(head[i] == pairs[i]);
            }
            assert forall|i: int, j: int| 0 <= i < j < head.len() implies (#[trigger] head[i]).0
                != (#[trigger] head[j]).0 by {
                assert(head[i] == pairs[i]);
                assert(head[j] == pairs[j]);
            }
            assert(fresh_keys(entries, head));
            if exists|i: int| 0 <= i < head.len() && (#[trigger] head[i]).0 == last.0 {
                let i = choose|i: int| 0 <= i < head.len() && (#[trigger] head[i]).0 == last.0;
                assert(head[i] == pairs[i]);
                assert(pairs[i].0 != pairs[pairs.len() - 1].0);
            }
            assert(!before.contains_key(last.0));
        }
        if Store::insert_all(entries, pairs).dom().len() == entries.dom().len() + pairs.len() {
            assert(before.dom().len() == entries.dom().len() + head.len());
            assert(!before.contains_key(last.0));
            assert(fresh_keys(entries, head));
            assert forall|i: int| 0 <= i < pairs.len() implies !entries.contains_key(
                (#[trigger] pairs[i]).0,
            ) by {
                if i < head.len() {
                    assert(head[i] == pairs[i]);
                }
            }
            assert forall|i: int, j: int| 0 <= i < j < pairs.len() implies (#[trigger] pairs[i]).0
                != (#[trigger] pairs[j]).0 by {
                assert(head[i] == pairs[i]);
                if j < head.len() {
                    assert(head[j] == pairs[j]);
                } else {
                    assert(head[i].0 == pairs[i].0);
                }
            }
        }
    } else {
        assert(fresh_keys(entries, pairs));
    }
}

/// A listing of a map's entries leaves no entry out: every key of the map
/// stands at some position, with its value.
pub proof fn law_listing_is_complete(
    raw: Seq<(Seq<u8>, Seq<u8>)>,
    entries: Map<Seq<u8>, Seq<u8>>,
    key: Seq<u8>,
)
    requires
        Store::enumerates(raw, entries),
        entries.contains_key(key),
    ensures
        exists|i: int| 0 <= i < raw.len() && (#[trigger] raw[i]).0 == key && raw[i].1 == entries[key],
{
    let keys = raw.map_values(|entry: (Seq<u8>, Seq<u8>)| entry.0);
    assert forall|i: int, j: int| 0 <= i < keys.len() && 0 <= j < keys.len() && i != j implies keys[i]
        != keys[j] by {
        if i < j {
            assert(raw[i].0 != raw[j].0);
        } else {
            assert(raw[j].0 != raw[i].0);
        }
    }
    keys.unique_seq_to_set();
    assert forall|k: Seq<u8>| keys.to_set().contains(k) implies entries.dom().contains(k) by {
        let i = choose|i: int| 0 <= i < keys.len() && keys[i] == k;
        assert(entries.contains_key(raw[i].0));
    }
    assert(keys.to_set().finite()) by {
        vstd::seq_lib::seq_to_set_is_finite(keys);
    }
    vstd::set_lib::lemma_subset_equality(keys.to_set(), entries.dom());
    assert(keys.to_set().contains(key));
    let i = choose|i: int| 0 <= i < keys.len() && keys[i] == key;
    assert(raw[i].0 == key);
}

/// No operation on a state registers a state: a name that no registration
/// has made known stays unknown, and operations on it fail.
pub proof fn law_operations_register_nothing(
    store: Store,
    slot: (Seq<char>, Seq<u8>),
    name: Seq<char>,
    kind: StateKind,
)
    ensures
        !Store::empty().holds(name, kind),
        forall|value: Option<Seq<u8>>| #[trigger]
            store.with_single(slot, value).holds(name, kind) == store.holds(name, kind),
        forall|entries: Map<Seq<u8>, Seq<u8>>| #[trigger]
            store.with_entries(slot, entries).holds(name, kind) == store.holds(name, kind),
        forall|items: Seq<Seq<u8>>| #[trigger]
            store.with_items(slot, items).holds(name, kind) == store.holds(name, kind),
{
}

/// The value that folding the values from first to last with `f` leaves,
/// as a reducer state does; `None` for no values.
pub open spec fn reduced<V>(f: spec_fn(V, V) -> V, values: Seq<V>) -> Option<V>
    decreases values.len(),
{
    if values.len() == 0 {
        None
    } else {
        match reduced(f, values.drop_last()) {
            None => Some(values.last()),
            Some(folded) => Some(f(folded, values.last())),
        }
    }
}

/// With an associative function, values that are folded in two groups and
/// combined give what folding them in one go gives.
pub proof fn law_reduction_regroups<V>(f: spec_fn(V, V) -> V, fst: Seq<V>, snd: Seq<V>)
    requires
        forall|a: V, b: V, c: V| #[trigger] f(f(a, b), c) == f(a, f(b, c)),
        fst.len() > 0,
        snd.len() > 0,
    ensures
        reduced(f, fst) is Some,
        reduced(f, snd) is Some,
        reduced(f, fst + snd) == Some(f(reduced(f, fst).unwrap(), reduced(f, snd).unwrap())),
    decreases snd.len(),
{
    lemma_reduced_is_some(f, fst);
    lemma_reduced_is_some(f, snd);
    assert((fst + snd).drop_last() =~= fst + snd.drop_last());
    assert((fst + snd).last() == snd.last());
    if snd.len() == 1 {
        assert(snd.drop_last().len() == 0);
        assert(fst + snd.drop_last() =~= fst);
        assert(reduced(f, snd.drop_last()) is None);
    } else {
        law_reduction_regroups(f, fst, snd.drop_last());
        lemma_reduced_is_some(f, snd.drop_last());
    }
}

/// Folding at least one value leaves a value.
pub proof fn lemma_reduced_is_some<V>(f: spec_fn(V, V) -> V, values: Seq<V>)
    requires
        values.len() > 0,
    ensures
        reduced(f, values) is Some,
{
}

} // verus!
