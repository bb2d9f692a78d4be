use vstd::prelude::*;

verus! {

/// The kinds of state that a handle can refer to.
#[derive(Clone, Copy, Debug, PartialEq, Eq, Structural)]
pub enum StateKind {
    Value,
    Mapping,
    Sequence,
    Reducer,
    Aggregator,
}

/// What a backend holds for one state in one scope, as encoded bytes.
pub enum Content {
    /// The one encoded value of a value, reducer or aggregator state.
    Single(Seq<u8>),
    /// The encoded keys and values of a map state; never empty.
    Entries(Map<Seq<u8>, Seq<u8>>),
    /// The encoded elements of a sequence state, oldest first; never empty.
    Items(Seq<Seq<u8>>),
}

impl Content {
    /// Whether a state of the given kind holds content of this shape.
    pub open spec fn fits(self, kind: StateKind) -> bool {
        match self {
            Content::Single(_) => kind == StateKind::Value || kind == StateKind::Reducer || kind
                == StateKind::Aggregator,
            Content::Entries(m) => kind == StateKind::Mapping && m.dom().finite() && m.dom().len() > 0,
            Content::Items(s) => kind == StateKind::Sequence && s.len() > 0,
        }
    }
}

/// What a backend holds, seen from outside: the states that were registered,
/// each with its kind, and the content of each state in each scope. A scope is
/// the encoding of a handle's item key followed by that of its namespace. A
/// state in a scope in which nothing was written has no content.
pub struct Store {
    pub kinds: Map<Seq<char>, StateKind>,
    pub cells: Map<(Seq<char>, Seq<u8>), Content>,
}

impl Store {
    pub open spec fn empty() -> Store {
        Store { kinds: Map::empty(), cells: Map::empty() }
    }

    /// Every content belongs to a registered state and has the shape of its kind.
    pub open spec fn wf(self) -> bool {
        &&& self.kinds.dom().finite()
        &&& self.cells.dom().finite()
        &&& forall|slot: (Seq<char>, Seq<u8>)| #[trigger]
            self.cells.contains_key(slot) ==> self.kinds.contains_key(slot.0) && self.cells[slot].fits(
                self.kinds[slot.0],
            )
    }

    /// Whether `name` is registered as a state of the given kind.
    pub open spec fn holds(self, name: Seq<char>, kind: StateKind) -> bool {
        self.kinds.contains_key(name) && self.kinds[name] == kind
    }

    /// Whether `name` can be registered with the given kind: it is free, or
    /// it is taken by a state of that kind.
    pub open spec fn accepts(self, name: Seq<char>, kind: StateKind) -> bool {
        !self.kinds.contains_key(name) || self.kinds[name] == kind
    }

    /// The store in which the declared states are registered, first to last.
    pub open spec fn with_kinds(self, declared: Seq<(Seq<char>, StateKind)>) -> Store
        decreases declared.len(),
    {
        if declared.len() == 0 {
            self
        } else {
            self.with_kind(declared.first().0, declared.first().1).with_kinds(
                declared.drop_first(),
            )
        }
    }

    /// Whether every declared state can be registered, first to last.
    pub open spec fn accepts_all(self, declared: Seq<(Seq<char>, StateKind)>) -> bool
        decreases declared.len(),
    {
        declared.len() == 0 || (self.accepts(declared.first().0, declared.first().1)
            && self.with_kind(declared.first().0, declared.first().1).accepts_all(
            declared.drop_first(),
        ))
    }

    /// How many of the declared states can be registered, first to last,
    /// before one is refused.
    pub open spec fn first_refused(self, declared: Seq<(Seq<char>, StateKind)>) -> int
        decreases declared.len(),
    {
        if declared.len() == 0 || !self.accepts(declared.first().0, declared.first().1) {
            0
        } else {
            1 + self.with_kind(declared.first().0, declared.first().1).first_refused(
                declared.drop_first(),
            )
        }
    }

    /// Registering two lists of declarations one after the other is
    /// registering their concatenation.
    pub proof fn lemma_declared_in_turn(
        self,
        fst: Seq<(Seq<char>, StateKind)>,
        snd: Seq<(Seq<char>, StateKind)>,
    )
        ensures
            self.with_kinds(fst + snd) == self.with_kinds(fst).with_kinds(snd),
            self.accepts_all(fst + snd) == (self.accepts_all(fst) && self.with_kinds(
                fst,
            ).accepts_all(snd)),
            0 <= self.first_refused(fst) <= fst.len(),
            self.accepts_all(fst) ==> self.first_refused(fst) == fst.len(),
            self.first_refused(fst + snd) == if self.accepts_all(fst) {
                fst.len() + self.with_kinds(fst).first_refused(snd)
            } else {
                self.first_refused(fst)
            },
        decreases fst.len(),
    {
        if fst.len() == 0 {
            assert(fst + snd =~= snd);
            self.lemma_refused_in_range(snd);
        } else {
            let next = self.with_kind(fst.first().0, fst.first().1);
            assert((fst + snd).drop_first() =~= fst.drop_first() + snd);
            assert((fst + snd).first() == fst.first());
            next.lemma_declared_in_turn(fst.drop_first(), snd);
        }
    }

    pub proof fn lemma_refused_in_range(self, declared: Seq<(Seq<char>, StateKind)>)
        ensures
            0 <= self.first_refused(declared) <= declared.len(),
        decreases declared.len(),
    {
        if declared.len() > 0 {
            self.with_kind(declared.first().0, declared.first().1).lemma_refused_in_range(
                declared.drop_first(),
            );
        }
    }

    /// The encoded value in a slot, if there is one.
    pub open spec fn single(self, slot: (Seq<char>, Seq<u8>)) -> Option<Seq<u8>> {
        if self.cells.contains_key(slot) {
            match self.cells[slot] {
                Content::Single(bytes) => Some(bytes),
                _ => None,
            }
        } else {
            None
        }
    }

    /// The encoded entries of the map in a slot.
    pub open spec fn entries(self, slot: (Seq<char>, Seq<u8>)) -> Map<Seq<u8>, Seq<u8>> {
        if self.cells.contains_key(slot) {
            match self.cells[slot] {
                Content::Entries(m) => m,
                _ => Map::empty(),
            }
        } else {
            Map::empty()
        }
    }

    /// The encoded elements of the sequence in a slot.
    pub open spec fn items(self, slot: (Seq<char>, Seq<u8>)) -> Seq<Seq<u8>> {
        if self.cells.contains_key(slot) {
            match self.cells[slot] {
                Content::Items(s) => s,
                _ => Seq::empty(),
            }
        } else {
            Seq::empty()
        }
    }

    /// The store in which `name` is registered with the given kind.
    pub open spec fn with_kind(self, name: Seq<char>, kind: StateKind) -> Store {
        Store { kinds: self.kinds.insert(name, kind), cells: self.cells }
    }

    /// The store with the given value in the slot, or with none.
    pub open spec fn with_single(self, slot: (Seq<char>, Seq<u8>), value: Option<Seq<u8>>) -> Store {
        match value {
            Some(bytes) => Store {
                kinds: self.kinds,
                cells: self.cells.insert(slot, Content::Single(bytes)),
            },
            None => Store { kinds: self.kinds, cells: self.cells.remove(slot) },
        }
    }

    /// The store with the given entries as the map in the slot.
    pub open spec fn with_entries(
        self,
        slot: (Seq<char>, Seq<u8>),
        entries: Map<Seq<u8>, Seq<u8>>,
    ) -> Store {
        if entries.dom().len() == 0 {
            Store { kinds: self.kinds, cells: self.cells.remove(slot) }
        } else {
            Store { kinds: self.kinds, cells: self.cells.insert(slot, Content::Entries(entries)) }
        }
    }

    /// The store with the given elements as the sequence in the slot.
    pub open spec fn with_items(self, slot: (Seq<char>, Seq<u8>), items: Seq<Seq<u8>>) -> Store {
        if items.len() == 0 {
            Store { kinds: self.kinds, cells: self.cells.remove(slot) }
        } else {
            Store { kinds: self.kinds, cells: self.cells.insert(slot, Content::Items(items)) }
        }
    }

    /// Writing a slot twice leaves what was written last.
    pub proof fn lemma_overwrite(self, slot: (Seq<char>, Seq<u8>))
        ensures
            forall|a: Option<Seq<u8>>, b: Option<Seq<u8>>|
                (#[trigger] self.with_single(slot, a).with_single(slot, b)) == self.with_single(
                    slot,
                    b,
                ),
            forall|a: Map<Seq<u8>, Seq<u8>>, b: Map<Seq<u8>, Seq<u8>>|
                (#[trigger] self.with_entries(slot, a).with_entries(slot, b)) == self.with_entries(
                    slot,
                    b,
                ),
            forall|a: Seq<Seq<u8>>, b: Seq<Seq<u8>>|
                (#[trigger] self.with_items(slot, a).with_items(slot, b)) == self.with_items(
                    slot,
                    b,
                ),
    {
        assert forall|a: Option<Seq<u8>>, b: Option<Seq<u8>>|
            (#[trigger] self.with_single(slot, a).with_single(slot, b)) == self.with_single(
                slot,
                b,
            ) by {
            assert(self.with_single(slot, a).with_single(slot, b).cells =~= self.with_single(
                slot,
                b,
            ).cells);
        }
        assert forall|a: Map<Seq<u8>, Seq<u8>>, b: Map<Seq<u8>, Seq<u8>>|
            (#[trigger] self.with_entries(slot, a).with_entries(slot, b)) == self.with_entries(
                slot,
                b,
            ) by {
            assert(self.with_entries(slot, a).with_entries(slot, b).cells =~= self.with_entries(
                slot,
                b,
            ).cells);
        }
        assert forall|a: Seq<Seq<u8>>, b: Seq<Seq<u8>>|
            (#[trigger] self.with_items(slot, a).with_items(slot, b)) == self.with_items(
                slot,
                b,
            ) by {
            assert(self.with_items(slot, a).with_items(slot, b).cells =~= self.with_items(
                slot,
                b,
            ).cells);
        }
    }
}

} // verus!
