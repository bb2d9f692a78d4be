use vstd::prelude::*;

verus! {

/// Equality of keys, decided on their views.
pub trait SameAs: View + Sized {
    fn same_as(&self, other: &Self) -> (same: bool)
        ensures
            same == (self@ == other@),
    ;
}

/// Whether two byte strings hold the same bytes.
pub fn same_bytes(a: &[u8], b: &[u8]) -> (same: bool)
    ensures
        same == (a@ == b@),
{
    if a.len() != b.len() {
        return false;
    }
    let mut i: usize = 0;
    while i < a.len()
        invariant
            i <= a.len(),
            a.len() == b.len(),
            forall|j: int| 0 <= j < i ==> a@[j] == b@[j],
        decreases a.len() - i,
    {
        if a[i] != b[i] {
            return false;
        }
        i = i + 1;
    }
    assert(a@ =~= b@);
    true
}

/// An owned copy of a byte string.
pub fn copy_bytes(source: &[u8]) -> (copy: Vec<u8>)
    ensures
        copy@ == source@,
{
    let mut copy: Vec<u8> = Vec::new();
    let mut i: usize = 0;
    while i < source.len()
        invariant
            i <= source.len(),
            copy@ == source@.take(i as int),
        decreases source.len() - i,
    {
        copy.push(source[i]);
        assert(source@.take(i + 1) == source@.take(i as int).push(source@[i as int]));
        i = i + 1;
    }
    assert(source@.take(source.len() as int) == source@);
    copy
}

impl SameAs for Vec<u8> {
    fn same_as(&self, other: &Self) -> (same: bool) {
        same_bytes(self.as_slice(), other.as_slice())
    }
}

impl SameAs for String {
    fn same_as(&self, other: &Self) -> (same: bool) {
        *self == *other
    }
}

/// The key of the entry at position `i`, as the list's map sees it.
pub open spec fn key_at<K: View, V>(s: Seq<(K, V)>, i: int) -> K::V {
    s[i].0@
}

pub open spec fn has_key<K: View, V>(s: Seq<(K, V)>, k: K::V) -> bool {
    exists|i: int| 0 <= i < s.len() && #[trigger] key_at(s, i) == k
}

/// No key stands at two positions.
pub open spec fn distinct_keys<K: View, V>(s: Seq<(K, V)>) -> bool {
    forall|i: int, j: int|
        0 <= i < s.len() && 0 <= j < s.len() && i != j ==> #[trigger] key_at(s, i)
            != #[trigger] key_at(s, j)
}

pub open spec fn index_of<K: View, V>(s: Seq<(K, V)>, k: K::V) -> int {
    choose|i: int| 0 <= i < s.len() && #[trigger] key_at(s, i) == k
}

/// The map that a list of entries stands for.
pub open spec fn as_map<K: View, V>(s: Seq<(K, V)>) -> Map<K::V, V> {
    Map::new(|k: K::V| has_key(s, k), |k: K::V| s[index_of(s, k)].1)
}

pub proof fn lemma_index_of<K: View, V>(s: Seq<(K, V)>, i: int)
    requires
        distinct_keys(s),
        0 <= i < s.len(),
    ensures
        has_key(s, key_at(s, i)),
        index_of(s, key_at(s, i)) == i,
        as_map(s).contains_key(key_at(s, i)),
        as_map(s)[key_at(s, i)] == s[i].1,
{
    let k = key_at(s, i);
    assert(has_key(s, k));
    let j = index_of(s, k);
    assert(0 <= j < s.len() && key_at(s, j) == k);
}

pub proof fn lemma_empty<K: View, V>()
    ensures
        distinct_keys(Seq::<(K, V)>::empty()),
        as_map(Seq::<(K, V)>::empty()) == Map::<K::V, V>::empty(),
{
    assert(as_map(Seq::<(K, V)>::empty()) =~= Map::<K::V, V>::empty());
}

pub proof fn lemma_push<K: View, V>(s: Seq<(K, V)>, k: K, v: V)
    requires
        distinct_keys(s),
        !has_key(s, k@),
    ensures
        distinct_keys(s.push((k, v))),
        as_map(s.push((k, v))) == as_map(s).insert(k@, v),
{
    let t = s.push((k, v));
    assert forall|i: int, j: int| 0 <= i < t.len() && 0 <= j < t.len() && i != j implies key_at(
        t,
        i,
    ) != key_at(t, j) by {
        if i < s.len() {
            assert(key_at(t, i) == key_at(s, i));
        }
        if j < s.len() {
            assert(key_at(t, j) == key_at(s, j));
        }
    }
    assert forall|q: K::V| has_key(t, q) == (has_key(s, q) || q == k@) by {
        if has_key(s, q) {
            let i = index_of(s, q);
            assert(key_at(t, i) == q);
        }
        if q == k@ {
            assert(key_at(t, s.len() as int) == q);
        }
        if has_key(t, q) {
            let i = index_of(t, q);
            if i < s.len() {
                assert(key_at(s, i) == q);
            }
        }
    }
    assert forall|q: K::V| has_key(t, q) implies #[trigger] as_map(t)[q] == as_map(s).insert(
        k@,
        v,
    )[q] by {
        let i = index_of(t, q);
        lemma_index_of(t, i);
        if i < s.len() {
            assert(key_at(s, i) == q);
            lemma_index_of(s, i);
        }
    }
    assert(as_map(t) =~= as_map(s).insert(k@, v));
}

pub proof fn lemma_remove<K: View, V>(s: Seq<(K, V)>, i: int)
    requires
        distinct_keys(s),
        0 <= i < s.len(),
    ensures
        distinct_keys(s.remove(i)),
        as_map(s.remove(i)) == as_map(s).remove(key_at(s, i)),
{
    let t = s.remove(i);
    let k = key_at(s, i);
    assert forall|a: int| 0 <= a < t.len() implies key_at(t, a) == key_at(
        s,
        if a < i {
            a
        } else {
            a + 1
        },
    ) by {}
    assert forall|a: int, b: int| 0 <= a < t.len() && 0 <= b < t.len() && a != b implies key_at(
        t,
        a,
    ) != key_at(t, b) by {
        let a2 = if a < i {
            a
        } else {
            a + 1
        };
        let b2 = if b < i {
            b
        } else {
            b + 1
        };
        assert(key_at(t, a) == key_at(s, a2));
        assert(key_at(t, b) == key_at(s, b2));
    }
    assert forall|q: K::V| has_key(t, q) == (has_key(s, q) && q != k) by {
        if has_key(s, q) && q != k {
            let a = index_of(s, q);
            let a2 = if a < i {
                a
            } else {
                a - 1
            };
            assert(key_at(t, a2) == q);
        }
        if has_key(t, q) {
            let a = index_of(t, q);
            let a2 = if a < i {
                a
            } else {
                a + 1
            };
            assert(key_at(s, a2) == q);
            assert(key_at(s, i) == k);
        }
    }
    assert forall|q: K::V| has_key(t, q) implies #[trigger] as_map(t)[q] == as_map(s).remove(k)[q] by {
        let a = index_of(t, q);
        lemma_index_of(t, a);
        let a2 = if a < i {
            a
        } else {
            a + 1
        };
        assert(key_at(s, a2) == q);
        lemma_index_of(s, a2);
    }
    assert(as_map(t) =~= as_map(s).remove(k));
}

/// A list with distinct keys has as many entries as its map has keys.
pub proof fn lemma_len<K: View, V>(s: Seq<(K, V)>)
    requires
        distinct_keys(s),
    ensures
        as_map(s).dom().finite(),
        as_map(s).dom().len() == s.len(),
    decreases s.len(),
{
    if s.len() == 0 {
        assert(as_map(s).dom() =~= Set::<K::V>::empty());
    } else {
        let head = s.drop_last();
        let last = s.last();
        assert forall|i: int, j: int|
            0 <= i < head.len() && 0 <= j < head.len() && i != j implies key_at(head, i) != key_at(
            head,
            j,
        ) by {
            assert(key_at(head, i) == key_at(s, i));
            assert(key_at(head, j) == key_at(s, j));
        }
        if has_key(head, last.0@) {
            let i = index_of(head, last.0@);
            assert(key_at(s, i) == last.0@);
            assert(key_at(s, s.len() - 1) == last.0@);
        }
        lemma_len(head);
        lemma_push(head, last.0, last.1);
        assert(head.push((last.0, last.1)) =~= s);
        assert(as_map(s).dom() =~= as_map(head).dom().insert(last.0@));
    }
}

/// Two lists that agree, position by position, on the keys and on what `f`
/// makes of the values stand for maps that `f` makes equal.
pub proof fn lemma_same_views<K: View, V, W>(a: Seq<(K, V)>, b: Seq<(K, V)>, f: spec_fn(V) -> W)
    requires
        distinct_keys(a),
        a.len() == b.len(),
        forall|i: int| 0 <= i < a.len() ==> #[trigger] key_at(a, i) == key_at(b, i),
        forall|i: int| 0 <= i < a.len() ==> f((#[trigger] a[i]).1) == f(b[i].1),
    ensures
        distinct_keys(b),
        as_map(a).map_values(f) == as_map(b).map_values(f),
{
    assert forall|i: int, j: int| 0 <= i < b.len() && 0 <= j < b.len() && i != j implies key_at(
        b,
        i,
    ) != key_at(b, j) by {
        assert(key_at(a, i) == key_at(b, i));
        assert(key_at(a, j) == key_at(b, j));
    }
    assert forall|q: K::V| has_key(a, q) == has_key(b, q) by {
        if has_key(a, q) {
            let i = index_of(a, q);
            assert(key_at(a, i) == key_at(b, i));
        }
        if has_key(b, q) {
            let i = index_of(b, q);
            assert(key_at(a, i) == key_at(b, i));
        }
    }
    assert forall|q: K::V| has_key(a, q) implies #[trigger] as_map(a).map_values(f)[q] == as_map(
        b,
    ).map_values(f)[q] by {
        let i = index_of(a, q);
        lemma_index_of(a, i);
        assert(key_at(a, i) == key_at(b, i));
        lemma_index_of(b, i);
        assert(f(a[i].1) == f(b[i].1));
    }
    assert(as_map(a).map_values(f) =~= as_map(b).map_values(f));
}

/// A map kept as a list of entries with distinct keys.
pub struct AssocList<K, V> {
    pub entries: Vec<(K, V)>,
}

impl<K: SameAs, V> AssocList<K, V> {
    pub open spec fn wf(&self) -> bool {
        distinct_keys(self.entries@)
    }

    /// The map that the list stands for.
    pub open spec fn map(&self) -> Map<K::V, V> {
        as_map(self.entries@)
    }

    pub fn new() -> (list: Self)
        ensures
            list.wf(),
            list.map() == Map::<K::V, V>::empty(),
            list.entries@.len() == 0,
    {
        proof {
            lemma_empty::<K, V>();
        }
        AssocList { entries: Vec::new() }
    }

    pub fn len(&self) -> (n: usize)
        requires
            self.wf(),
        ensures
            n == self.map().dom().len(),
            n == self.entries@.len(),
            self.map().dom().finite(),
    {
        proof {
            lemma_len(self.entries@);
        }
        self.entries.len()
    }

    /// The position of the entry with the given key.
    pub fn find(&self, key: &K) -> (found: Option<usize>)
        requires
            self.wf(),
        ensures
            match found {
                Some(i) => {
                    &&& i < self.entries@.len()
                    &&& key_at(self.entries@, i as int) == key@
                    &&& self.map().contains_key(key@)
                    &&& self.map()[key@] == self.entries@[i as int].1
                },
                None => !self.map().contains_key(key@),
            },
    {
        let mut i: usize = 0;
        while i < self.entries.len()
            invariant
                self.wf(),
                i <= self.entries@.len(),
                forall|j: int| 0 <= j < i ==> key_at(self.entries@, j) != key@,
            decreases self.entries@.len() - i,
        {
            if self.entries[i].0.same_as(key) {
                proof {
                    lemma_index_of(self.entries@, i as int);
                }
                return Some(i);
            }
            i = i + 1;
        }
        proof {
            if has_key(self.entries@, key@) {
                let j = index_of(self.entries@, key@);
                assert(key_at(self.entries@, j) == key@);
            }
        }
        None
    }

    pub fn get(&self, key: &K) -> (value: Option<&V>)
        requires
            self.wf(),
        ensures
            match value {
                Some(v) => self.map().contains_key(key@) && *v == self.map()[key@],
                None => !self.map().contains_key(key@),
            },
    {
        match self.find(key) {
            Some(i) => Some(&self.entries[i].1),
            None => None,
        }
    }

    pub fn contains_key(&self, key: &K) -> (held: bool)
        requires
            self.wf(),
        ensures
            held == self.map().contains_key(key@),
    {
        self.find(key).is_some()
    }

    /// Binds `key` to `value` and hands out what it was bound to before.
    pub fn insert(&mut self, key: K, value: V) -> (prior: Option<V>)
        requires
            old(self).wf(),
        ensures
            final(self).wf(),
            final(self).map() == old(self).map().insert(key@, value),
            match prior {
                Some(v) => old(self).map().contains_key(key@) && v == old(self).map()[key@],
                None => !old(self).map().contains_key(key@),
            },
    {
        match self.find(&key) {
            Some(i) => {
                proof {
                    lemma_remove(self.entries@, i as int);
                    assert(!as_map(self.entries@.remove(i as int)).contains_key(key@));
                    lemma_push(self.entries@.remove(i as int), key, value);
                    assert(old(self).map().remove(key@).insert(key@, value) =~= old(
                        self,
                    ).map().insert(key@, value));
                }
                let (_, prior) = self.entries.remove(i);
                self.entries.push((key, value));
                Some(prior)
            },
            None => {
                proof {
                    lemma_push(self.entries@, key, value);
                }
                self.entries.push((key, value));
                None
            },
        }
    }

    /// Takes the entry with the given key out of the list.
    pub fn remove(&mut self, key: &K) -> (prior: Option<V>)
        requires
            old(self).wf(),
        ensures
            final(self).wf(),
            final(self).map() == old(self).map().remove(key@),
            match prior {
                Some(v) => old(self).map().contains_key(key@) && v == old(self).map()[key@],
                None => !old(self).map().contains_key(key@),
            },
    {
        match self.find(key) {
            Some(i) => {
                proof {
                    lemma_remove(self.entries@, i as int);
                }
                let (_, prior) = self.entries.remove(i);
                Some(prior)
            },
            None => {
                assert(old(self).map().remove(key@) =~= old(self).map());
                None
            },
        }
    }
}

} // verus!
