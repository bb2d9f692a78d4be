use vstd::prelude::*;
use crate::assoc::{copy_bytes, same_bytes, AssocList, SameAs};
use crate::error::ArconStateError;
use crate::handles::{Handle, Metakey, StateType};
use crate::model::{Content, StateKind, Store};
use crate::ops::StateStore;

pub mod aggregator_ops;
pub mod codec;
pub mod map_ops;
pub mod reducer_ops;
pub mod snapshot;
pub mod value_ops;
pub mod vec_ops;

verus! {

/// The views of the byte strings of a sequence.
pub open spec fn item_bytes(items: Seq<Vec<u8>>) -> Seq<Seq<u8>> {
    items.map_values(|b: Vec<u8>| b@)
}

/// The map with the views of the values of `entries`.
pub open spec fn entry_bytes(entries: Map<Seq<u8>, Vec<u8>>) -> Map<Seq<u8>, Seq<u8>> {
    entries.map_values(|b: Vec<u8>| b@)
}

/// The views of the keys and values of a list of entries, in its order.
pub open spec fn raw_pairs(entries: Seq<(Vec<u8>, Vec<u8>)>) -> Seq<(Seq<u8>, Seq<u8>)> {
    entries.map_values(|p: (Vec<u8>, Vec<u8>)| (p.0@, p.1@))
}

/// A list of entries lists each entry of its map once.
pub proof fn lemma_enumerates(list: AssocList<Vec<u8>, Vec<u8>>)
    requires
        list.wf(),
    ensures
        Store::enumerates(raw_pairs(list.entries@), entry_bytes(list.map())),
{
    let raw = raw_pairs(list.entries@);
    let entries = entry_bytes(list.map());
    crate::assoc::lemma_len(list.entries@);
    assert(entries.dom() =~= list.map().dom());
    assert forall|i: int| 0 <= i < raw.len() implies entries.contains_key((#[trigger] raw[i]).0)
        && entries[raw[i].0] == raw[i].1 by {
        crate::assoc::lemma_index_of(list.entries@, i);
    }
    assert forall|i: int, j: int| 0 <= i < j < raw.len() implies (#[trigger] raw[i]).0 != (
    #[trigger] raw[j]).0 by {
        assert(crate::assoc::key_at(list.entries@, i) != crate::assoc::key_at(list.entries@, j));
    }
}

/// Where a cell lies: the name of its state and its scope.
pub struct CellKey {
    pub name: String,
    pub scope: Vec<u8>,
}

impl View for CellKey {
    type V = (Seq<char>, Seq<u8>);

    open spec fn view(&self) -> (Seq<char>, Seq<u8>) {
        (self.name@, self.scope@)
    }
}

impl SameAs for CellKey {
    fn same_as(&self, other: &Self) -> (same: bool) {
        self.name == other.name && same_bytes(self.scope.as_slice(), other.scope.as_slice())
    }
}

/// What the table holds for one state in one scope.
pub enum Cell {
    Single(Vec<u8>),
    Entries(AssocList<Vec<u8>, Vec<u8>>),
    Items(Vec<Vec<u8>>),
}

impl Cell {
    pub open spec fn wf(self) -> bool {
        match self {
            Cell::Single(_) => true,
            Cell::Entries(list) => list.wf() && list.entries@.len() > 0,
            Cell::Items(items) => items@.len() > 0,
        }
    }

    pub open spec fn content(self) -> Content {
        match self {
            Cell::Single(bytes) => Content::Single(bytes@),
            Cell::Entries(list) => Content::Entries(entry_bytes(list.map())),
            Cell::Items(items) => Content::Items(item_bytes(items@)),
        }
    }
}

/// A backend that keeps every state in memory, as encoded bytes.
pub struct InMemory {
    registry: AssocList<String, StateKind>,
    cells: AssocList<CellKey, Cell>,
}

impl StateStore for InMemory {
    closed spec fn store(&self) -> Store {
        Store {
            kinds: self.registry.map(),
            cells: self.cells.map().map_values(|c: Cell| c.content()),
        }
    }

    closed spec fn inv(&self) -> bool {
        &&& self.registry.wf()
        &&& self.cells.wf()
        &&& forall|slot: (Seq<char>, Seq<u8>)| #[trigger]
            self.cells.map().contains_key(slot) ==> {
                &&& self.cells.map()[slot].wf()
                &&& self.registry.map().contains_key(slot.0)
                &&& self.cells.map()[slot].content().fits(self.registry.map()[slot.0])
            }
    }

    /// A state that is not served is refused as one of the wrong type.
    open spec fn refusal(e: ArconStateError, name: Seq<char>) -> bool {
        e is InMemoryWrongType
    }

    /// Memory has no faults to report.
    open spec fn fault(e: ArconStateError) -> bool {
        false
    }

    proof fn inv_gives_wf(&self) {
        crate::assoc::lemma_len(self.registry.entries@);
        crate::assoc::lemma_len(self.cells.entries@);
        assert(self.store().cells.dom() =~= self.cells.map().dom());
        assert forall|slot: (Seq<char>, Seq<u8>)| #[trigger]
            self.store().cells.contains_key(slot) implies self.store().kinds.contains_key(slot.0)
            && self.store().cells[slot].fits(self.store().kinds[slot.0]) by {
            assert(self.cells.map().contains_key(slot));
        }
    }
}

/// The key of the cell that a handle points at.
pub(crate) fn cell_key<S: StateType, IK: Metakey, N: Metakey>(handle: &Handle<S, IK, N>) -> (key:
    CellKey)
    ensures
        key@ == handle.slot(),
{
    CellKey { name: handle.id().clone(), scope: handle.serialize_metakeys() }
}

/// A list with the same entries, held apart from the first.
pub fn copy_entries(list: &AssocList<Vec<u8>, Vec<u8>>) -> (copy: AssocList<Vec<u8>, Vec<u8>>)
    requires
        list.wf(),
    ensures
        copy.wf(),
        copy.entries@.len() == list.entries@.len(),
        entry_bytes(copy.map()) == entry_bytes(list.map()),
{
    let mut entries: Vec<(Vec<u8>, Vec<u8>)> = Vec::new();
    let mut i: usize = 0;
    while i < list.entries.len()
        invariant
            i <= list.entries@.len(),
            entries@.len() == i,
            forall|j: int| 0 <= j < i ==> (#[trigger] entries@[j]).0@ == list.entries@[j].0@,
            forall|j: int| 0 <= j < i ==> (#[trigger] entries@[j]).1@ == list.entries@[j].1@,
        decreases list.entries@.len() - i,
    {
        let key = copy_bytes(list.entries[i].0.as_slice());
        let value = copy_bytes(list.entries[i].1.as_slice());
        entries.push((key, value));
        i = i + 1;
    }
    proof {
        assert forall|j: int| 0 <= j < list.entries@.len() implies #[trigger] crate::assoc::key_at(
            list.entries@,
            j,
        ) == crate::assoc::key_at(entries@, j) by {
            assert(entries@[j].0@ == list.entries@[j].0@);
        }
        assert forall|j: int| 0 <= j < list.entries@.len() implies (#[trigger] list.entries@[j]).1@
            == entries@[j].1@ by {
            assert(entries@[j].1@ == list.entries@[j].1@);
        }
        crate::assoc::lemma_same_views(list.entries@, entries@, |b: Vec<u8>| b@);
    }
    AssocList { entries }
}

/// A sequence with the same elements, held apart from the first.
pub fn copy_items(items: &Vec<Vec<u8>>) -> (copy: Vec<Vec<u8>>)
    ensures
        item_bytes(copy@) == item_bytes(items@),
{
    let mut copy: Vec<Vec<u8>> = Vec::new();
    let mut i: usize = 0;
    while i < items.len()
        invariant
            i <= items@.len(),
            copy@.len() == i,
            forall|j: int| 0 <= j < i ==> (#[trigger] copy@[j])@ == items@[j]@,
        decreases items@.len() - i,
    {
        copy.push(copy_bytes(items[i].as_slice()));
        i = i + 1;
    }
    assert(item_bytes(copy@) =~= item_bytes(items@));
    copy
}

/// A cell with the same content, held apart from the first.
pub fn copy_cell(cell: &Cell) -> (copy: Cell)
    requires
        cell.wf(),
    ensures
        copy.wf(),
        copy.content() == cell.content(),
{
    match cell {
        Cell::Single(bytes) => Cell::Single(copy_bytes(bytes.as_slice())),
        Cell::Entries(list) => Cell::Entries(copy_entries(list)),
        Cell::Items(items) => {
            let copy = copy_items(items);
            assert(item_bytes(copy@).len() == copy@.len());
            assert(item_bytes(items@).len() == items@.len());
            Cell::Items(copy)
        },
    }
}

impl InMemory {
    /// A backend that holds the same as this one, apart from it.
    pub fn duplicate(&self) -> (copy: Self)
        requires
            self.inv(),
        ensures
            copy.inv(),
            copy.store() == self.store(),
    {
        let mut names: Vec<(String, StateKind)> = Vec::new();
        let mut i: usize = 0;
        while i < self.registry.entries.len()
            invariant
                i <= self.registry.entries@.len(),
                names@ == self.registry.entries@.take(i as int),
            decreases self.registry.entries@.len() - i,
        {
            let name = self.registry.entries[i].0.clone();
            let kind = self.registry.entries[i].1;
            names.push((name, kind));
            assert(self.registry.entries@.take(i + 1) == self.registry.entries@.take(
                i as int,
            ).push(self.registry.entries@[i as int]));
            i = i + 1;
        }
        assert(names@ == self.registry.entries@) by {
            assert(self.registry.entries@.take(self.registry.entries@.len() as int)
                == self.registry.entries@);
        }
        let mut cells: Vec<(CellKey, Cell)> = Vec::new();
        let mut j: usize = 0;
        while j < self.cells.entries.len()
            invariant
                self.inv(),
                j <= self.cells.entries@.len(),
                cells@.len() == j,
                forall|k: int| 0 <= k < j ==> (#[trigger] cells@[k]).0@ == self.cells.entries@[k].0@,
                forall|k: int|
                    0 <= k < j ==> (#[trigger] cells@[k]).1.content()
                        == self.cells.entries@[k].1.content(),
                forall|k: int| 0 <= k < j ==> (#[trigger] cells@[k]).1.wf(),
            decreases self.cells.entries@.len() - j,
        {
            proof {
                crate::assoc::lemma_index_of(self.cells.entries@, j as int);
                assert(self.cells.map().contains_key(
                    crate::assoc::key_at(self.cells.entries@, j as int),
                ));
            }
            let key = CellKey {
                name: self.cells.entries[j].0.name.clone(),
                scope: copy_bytes(self.cells.entries[j].0.scope.as_slice()),
            };
            let cell = copy_cell(&self.cells.entries[j].1);
            cells.push((key, cell));
            j = j + 1;
        }
        let copy = InMemory {
            registry: AssocList { entries: names },
            cells: AssocList { entries: cells },
        };
        proof {
            assert forall|k: int| 0 <= k < self.cells.entries@.len() implies
                #[trigger] crate::assoc::key_at(self.cells.entries@, k) == crate::assoc::key_at(
                copy.cells.entries@,
                k,
            ) by {
                assert(copy.cells.entries@[k].0@ == self.cells.entries@[k].0@);
            }
            assert forall|k: int| 0 <= k < self.cells.entries@.len() implies (
            #[trigger] self.cells.entries@[k]).1.content() == copy.cells.entries@[k].1.content() by {
                assert(copy.cells.entries@[k].1.content() == self.cells.entries@[k].1.content());
            }
            crate::assoc::lemma_same_views(
                self.cells.entries@,
                copy.cells.entries@,
                |c: Cell| c.content(),
            );
            assert forall|slot: (Seq<char>, Seq<u8>)| #[trigger]
                copy.cells.map().contains_key(slot) implies {
                &&& copy.cells.map()[slot].wf()
                &&& copy.registry.map().contains_key(slot.0)
                &&& copy.cells.map()[slot].content().fits(copy.registry.map()[slot.0])
            } by {
                let k = crate::assoc::index_of(copy.cells.entries@, slot);
                crate::assoc::lemma_index_of(copy.cells.entries@, k);
                assert(copy.cells.entries@[k].1.wf());
                assert(copy.store().cells.contains_key(slot));
                assert(self.store().cells.contains_key(slot));
                assert(self.cells.map().contains_key(slot));
                assert(copy.store().cells[slot] == self.store().cells[slot]);
            }
        }
        copy
    }

    /// A registered name that is not among `known_names`, if there is one.
    pub fn unknown_name(&self, known_names: &Vec<String>) -> (found: Option<String>)
        requires
            self.inv(),
        ensures
            match found {
                Some(name) => {
                    &&& self.store().kinds.contains_key(name@)
                    &&& !crate::backend::names_of(known_names@).contains(name@)
                },
                None => forall|name: Seq<char>| #[trigger]
                    self.store().kinds.contains_key(name) ==> crate::backend::names_of(
                        known_names@,
                    ).contains(name),
            },
    {
        let mut i: usize = 0;
        while i < self.registry.entries.len()
            invariant
                self.inv(),
                i <= self.registry.entries@.len(),
                forall|j: int|
                    0 <= j < i ==> crate::backend::names_of(known_names@).contains(
                        #[trigger] crate::assoc::key_at(self.registry.entries@, j),
                    ),
            decreases self.registry.entries@.len() - i,
        {
            if !snapshot::is_known(known_names, &self.registry.entries[i].0) {
                proof {
                    crate::assoc::lemma_index_of(self.registry.entries@, i as int);
                }
                return Some(self.registry.entries[i].0.clone());
            }
            i = i + 1;
        }
        proof {
            assert forall|name: Seq<char>| #[trigger]
                self.store().kinds.contains_key(name) implies crate::backend::names_of(
                known_names@,
            ).contains(name) by {
                let j = crate::assoc::index_of(self.registry.entries@, name);
                assert(crate::assoc::key_at(self.registry.entries@, j) == name);
            }
        }
        None
    }

    /// A backend that holds nothing.
    pub fn new() -> (backend: Self)
        ensures
            backend.inv(),
            backend.store() == Store::empty(),
    {
        let backend = InMemory { registry: AssocList::new(), cells: AssocList::new() };
        assert(backend.store().cells =~= Map::empty());
        backend
    }

    /// Whether `name` is registered as a state of the given kind.
    pub fn knows(&self, name: &String, kind: StateKind) -> (known: bool)
        requires
            self.inv(),
        ensures
            known == self.store().holds(name@, kind),
    {
        match self.registry.get(name) {
            Some(k) => *k == kind,
            None => false,
        }
    }

    /// Whether operations through the handle are served.
    pub fn serves<S: StateType, IK: Metakey, N: Metakey>(&self, handle: &Handle<S, IK, N>) -> (served:
        bool)
        requires
            self.inv(),
        ensures
            served == self.store().serves(handle),
    {
        handle.is_registered() && self.knows(handle.id(), handle.kind())
    }

    /// The kind under which `name` is registered.
    pub fn kind_of(&self, name: &String) -> (kind: Option<StateKind>)
        requires
            self.inv(),
        ensures
            match kind {
                Some(k) => self.store().kinds.contains_key(name@) && self.store().kinds[name@] == k,
                None => !self.store().kinds.contains_key(name@),
            },
    {
        match self.registry.get(name) {
            Some(k) => Some(*k),
            None => None,
        }
    }

    /// Registers `name` with the given kind, where it is not registered yet.
    pub(crate) fn enter(&mut self, name: String, kind: StateKind)
        requires
            old(self).inv(),
            !old(self).store().kinds.contains_key(name@),
        ensures
            final(self).inv(),
            final(self).store() == old(self).store().with_kind(name@, kind),
    {
        self.registry.insert(name, kind);
        assert forall|slot: (Seq<char>, Seq<u8>)| #[trigger]
            self.cells.map().contains_key(slot) implies self.registry.map().contains_key(slot.0)
            && self.cells.map()[slot].content().fits(self.registry.map()[slot.0]) by {
            assert(old(self).cells.map().contains_key(slot));
        }
    }

    /// The encoded value in a slot.
    pub(crate) fn single(&self, key: &CellKey) -> (value: Option<&Vec<u8>>)
        requires
            self.inv(),
        ensures
            match value {
                Some(bytes) => self.store().single(key@) == Some(bytes@),
                None => self.store().single(key@) is None,
            },
    {
        match self.cells.get(key) {
            Some(Cell::Single(bytes)) => Some(bytes),
            _ => None,
        }
    }

    /// Puts an encoded value into a slot of a state that holds single values.
    pub(crate) fn set_single(&mut self, key: CellKey, value: Vec<u8>)
        requires
            old(self).inv(),
            old(self).store().kinds.contains_key(key.name@),
            (Content::Single(value@)).fits(old(self).store().kinds[key.name@]),
        ensures
            final(self).inv(),
            final(self).store() == old(self).store().with_single(key@, Some(value@)),
    {
        let ghost slot = key@;
        let ghost cell = Cell::Single(value);
        self.cells.insert(key, Cell::Single(value));
        proof {
            assert forall|s: (Seq<char>, Seq<u8>)| #[trigger]
                self.cells.map().contains_key(s) implies {
                &&& self.cells.map()[s].wf()
                &&& self.registry.map().contains_key(s.0)
                &&& self.cells.map()[s].content().fits(self.registry.map()[s.0])
            } by {
                if s != slot {
                    assert(old(self).cells.map().contains_key(s));
                }
            }
            assert(self.store().cells =~= old(self).store().cells.insert(
                slot,
                cell.content(),
            ));
        }
    }

    /// Empties a slot, whatever it holds.
    pub(crate) fn clear_cell(&mut self, key: &CellKey)
        requires
            old(self).inv(),
        ensures
            final(self).inv(),
            final(self).store() == (Store {
                kinds: old(self).store().kinds,
                cells: old(self).store().cells.remove(key@),
            }),
    {
        self.cells.remove(key);
        proof {
            assert forall|s: (Seq<char>, Seq<u8>)| #[trigger]
                self.cells.map().contains_key(s) implies {
                &&& self.cells.map()[s].wf()
                &&& self.registry.map().contains_key(s.0)
                &&& self.cells.map()[s].content().fits(self.registry.map()[s.0])
            } by {
                assert(old(self).cells.map().contains_key(s));
            }
            assert(self.store().cells =~= old(self).store().cells.remove(key@));
        }
    }

    /// The entries of the map in a slot, if it has any.
    pub(crate) fn entries(&self, key: &CellKey) -> (found: Option<&AssocList<Vec<u8>, Vec<u8>>>)
        requires
            self.inv(),
        ensures
            match found {
                Some(list) => list.wf() && entry_bytes(list.map()) == self.store().entries(key@),
                None => self.store().entries(key@) == Map::<Seq<u8>, Seq<u8>>::empty(),
            },
    {
        match self.cells.get(key) {
            Some(Cell::Entries(list)) => {
                assert(self.cells.map().contains_key(key@));
                Some(list)
            },
            _ => None,
        }
    }

    /// Takes the entries of the map in a slot out of the table.
    pub(crate) fn take_entries(&mut self, key: &CellKey) -> (list: AssocList<Vec<u8>, Vec<u8>>)
        requires
            old(self).inv(),
            old(self).store().holds(key.name@, StateKind::Mapping),
        ensures
            final(self).inv(),
            final(self).store() == old(self).store().with_entries(key@, Map::empty()),
            list.wf(),
            entry_bytes(list.map()) == old(self).store().entries(key@),
    {
        assert(Map::<Seq<u8>, Seq<u8>>::empty().dom().len() == 0);
        let ghost before = self.cells.map();
        let taken = self.cells.remove(key);
        proof {
            assert forall|s: (Seq<char>, Seq<u8>)| #[trigger]
                self.cells.map().contains_key(s) implies {
                &&& self.cells.map()[s].wf()
                &&& self.registry.map().contains_key(s.0)
                &&& self.cells.map()[s].content().fits(self.registry.map()[s.0])
            } by {
                assert(before.contains_key(s));
            }
            assert(self.store().cells =~= old(self).store().cells.remove(key@));
            if before.contains_key(key@) {
                assert(before[key@].wf());
                assert(before[key@].content().fits(StateKind::Mapping));
            }
        }
        match taken {
            Some(Cell::Entries(list)) => list,
            _ => {
                let list = AssocList::new();
                assert(entry_bytes(list.map()) =~= Map::<Seq<u8>, Seq<u8>>::empty());
                list
            },
        }
    }

    /// Makes `list` the map in a slot of a map state.
    pub(crate) fn put_entries(&mut self, key: CellKey, list: AssocList<Vec<u8>, Vec<u8>>)
        requires
            old(self).inv(),
            old(self).store().holds(key.name@, StateKind::Mapping),
            list.wf(),
        ensures
            final(self).inv(),
            final(self).store() == old(self).store().with_entries(key@, entry_bytes(list.map())),
    {
        let ghost slot = key@;
        let n = list.len();
        proof {
            assert(entry_bytes(list.map()).dom() =~= list.map().dom());
        }
        if n == 0 {
            self.clear_cell(&key);
        } else {
            let ghost cell = Cell::Entries(list);
            self.cells.insert(key, Cell::Entries(list));
            proof {
                assert forall|s: (Seq<char>, Seq<u8>)| #[trigger]
                    self.cells.map().contains_key(s) implies {
                    &&& self.cells.map()[s].wf()
                    &&& self.registry.map().contains_key(s.0)
                    &&& self.cells.map()[s].content().fits(self.registry.map()[s.0])
                } by {
                    if s != slot {
                        assert(old(self).cells.map().contains_key(s));
                    }
                }
                assert(self.store().cells =~= old(self).store().cells.insert(
                    slot,
                    cell.content(),
                ));
            }
        }
    }

    /// The elements of the sequence in a slot, if it has any.
    pub(crate) fn items(&self, key: &CellKey) -> (found: Option<&Vec<Vec<u8>>>)
        requires
            self.inv(),
        ensures
            match found {
                Some(items) => item_bytes(items@) == self.store().items(key@),
                None => self.store().items(key@) == Seq::<Seq<u8>>::empty(),
            },
    {
        match self.cells.get(key) {
            Some(Cell::Items(items)) => {
                assert(self.cells.map().contains_key(key@));
                Some(items)
            },
            _ => None,
        }
    }

    /// Takes the elements of the sequence in a slot out of the table.
    pub(crate) fn take_items(&mut self, key: &CellKey) -> (items: Vec<Vec<u8>>)
        requires
            old(self).inv(),
            old(self).store().holds(key.name@, StateKind::Sequence),
        ensures
            final(self).inv(),
            final(self).store() == old(self).store().with_items(key@, Seq::empty()),
            item_bytes(items@) == old(self).store().items(key@),
    {
        let ghost before = self.cells.map();
        let taken = self.cells.remove(key);
        proof {
            assert forall|s: (Seq<char>, Seq<u8>)| #[trigger]
                self.cells.map().contains_key(s) implies {
                &&& self.cells.map()[s].wf()
                &&& self.registry.map().contains_key(s.0)
                &&& self.cells.map()[s].content().fits(self.registry.map()[s.0])
            } by {
                assert(before.contains_key(s));
            }
            assert(self.store().cells =~= old(self).store().cells.remove(key@));
            if before.contains_key(key@) {
                assert(before[key@].content().fits(StateKind::Sequence));
            }
        }
        match taken {
            Some(Cell::Items(items)) => items,
            _ => {
                let items: Vec<Vec<u8>> = Vec::new();
                assert(item_bytes(items@) =~= Seq::<Seq<u8>>::empty());
                items
            },
        }
    }

    /// Makes `items` the sequence in a slot of a sequence state.
    pub(crate) fn put_items(&mut self, key: CellKey, items: Vec<Vec<u8>>)
        requires
            old(self).inv(),
            old(self).store().holds(key.name@, StateKind::Sequence),
        ensures
            final(self).inv(),
            final(self).store() == old(self).store().with_items(key@, item_bytes(items@)),
    {
        let ghost slot = key@;
        if items.len() == 0 {
            self.clear_cell(&key);
        } else {
            let ghost cell = Cell::Items(items);
            self.cells.insert(key, Cell::Items(items));
            proof {
                assert forall|s: (Seq<char>, Seq<u8>)| #[trigger]
                    self.cells.map().contains_key(s) implies {
                    &&& self.cells.map()[s].wf()
                    &&& self.registry.map().contains_key(s.0)
                    &&& self.cells.map()[s].content().fits(self.registry.map()[s.0])
                } by {
                    if s != slot {
                        assert(old(self).cells.map().contains_key(s));
                    }
                }
                assert(self.store().cells =~= old(self).store().cells.insert(
                    slot,
                    cell.content(),
                ));
            }
        }
    }
}

} // verus!
