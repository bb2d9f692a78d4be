use vstd::prelude::*;
use vstd::string::*;
use vstd::utf8::*;
use crate::assoc::{copy_bytes, same_bytes, AssocList};
use crate::error::ArconStateError;
use crate::image::{append_field, decode_entries, encode_entries, read_field};
use crate::model::Store;

verus! {

/// What an image holds: the identifier that it was taken under and a table;
/// `None` where the image is cut short.
pub open spec fn image_contents(image: Seq<u8>) -> Option<(Seq<u8>, Map<Seq<u8>, Seq<u8>>)> {
    match crate::image::first_field(image) {
        None => None,
        Some((id, rest)) => match crate::image::parsed_entries(rest) {
            None => None,
            Some(entries) => Some((id, Store::insert_all(Map::empty(), entries))),
        },
    }
}

/// A table of byte strings under byte strings that can be saved as an image.
pub trait StateBackend: Send + Sync + Sized {
    /// What the table holds.
    spec fn contents(&self) -> Map<Seq<u8>, Seq<u8>>;

    /// The backend's own consistency.
    spec fn inv(&self) -> bool;

    /// An empty table.
    fn create(name: &str) -> (backend: Self)
        ensures
            backend.inv(),
            backend.contents() == Map::<Seq<u8>, Seq<u8>>::empty(),
    ;

    /// Binds `key` to `value`. A failed call changes nothing.
    fn put(&mut self, key: &[u8], value: &[u8]) -> (r: Result<(), ArconStateError>)
        requires
            old(self).inv(),
        ensures
            final(self).inv(),
            match r {
                Ok(()) => final(self).contents() == old(self).contents().insert(key@, value@),
                Err(_) => final(self).contents() == old(self).contents(),
            },
    ;

    /// The value under `key`; no bytes where there is none.
    fn get(&self, key: &[u8]) -> (r: Result<Vec<u8>, ArconStateError>)
        requires
            self.inv(),
        ensures
            r matches Ok(value) ==> value@ == if self.contents().contains_key(key@) {
                self.contents()[key@]
            } else {
                Seq::empty()
            },
    ;

    /// An image of the table, to be kept under the given identifier. The
    /// table can be brought back from the image.
    fn checkpoint(&self, id: String) -> (r: Result<Vec<u8>, ArconStateError>)
        requires
            self.inv(),
        ensures
            r matches Ok(image) ==> image_contents(image@) == Some(
                (encode_utf8(id@), self.contents()),
            ),
    ;
}

/// The entries of a list, inserted one after the other into an empty map,
/// give the list's map.
pub proof fn lemma_list_inserts_its_map(entries: Seq<(Vec<u8>, Vec<u8>)>)
    requires
        crate::assoc::distinct_keys(entries),
    ensures
        Store::insert_all(Map::empty(), crate::in_memory::raw_pairs(entries))
            == crate::in_memory::entry_bytes(crate::assoc::as_map(entries)),
    decreases entries.len(),
{
    let raw = crate::in_memory::raw_pairs(entries);
    if entries.len() == 0 {
        crate::assoc::lemma_empty::<Vec<u8>, Vec<u8>>();
        assert(entries =~= Seq::empty());
        assert(crate::in_memory::entry_bytes(crate::assoc::as_map(entries)) =~= Map::empty());
    } else {
        let head = entries.drop_last();
        let last = entries.last();
        assert forall|i: int, j: int|
            0 <= i < head.len() && 0 <= j < head.len() && i != j implies crate::assoc::key_at(
            head,
            i,
        ) != crate::assoc::key_at(head, j) by {
            assert(crate::assoc::key_at(head, i) == crate::assoc::key_at(entries, i));
            assert(crate::assoc::key_at(head, j) == crate::assoc::key_at(entries, j));
        }
        if crate::assoc::has_key(head, last.0@) {
            let i = crate::assoc::index_of(head, last.0@);
            assert(crate::assoc::key_at(entries, i) == last.0@);
            assert(crate::assoc::key_at(entries, entries.len() - 1) == last.0@);
        }
        lemma_list_inserts_its_map(head);
        crate::assoc::lemma_push(head, last.0, last.1);
        assert(head.push((last.0, last.1)) =~= entries);
        assert(raw.drop_last() =~= crate::in_memory::raw_pairs(head));
        assert(raw.last() == (last.0@, last.1@));
        assert(crate::in_memory::entry_bytes(crate::assoc::as_map(head).insert(last.0@, last.1))
            =~= crate::in_memory::entry_bytes(crate::assoc::as_map(head)).insert(
            last.0@,
            last.1@,
        ));
    }
}

/// A table that is kept in memory.
pub struct MemoryTable {
    name: String,
    table: AssocList<Vec<u8>, Vec<u8>>,
}

impl MemoryTable {
    pub closed spec fn name(&self) -> Seq<char> {
        self.name@
    }

    /// The table that an image holds, where the image was taken under the
    /// given identifier. An image that is cut short is refused as such; one
    /// that was taken under another identifier is refused as a wrong path.
    pub fn restore(name: &str, image: &[u8], checkpoint_id: &str) -> (r: Result<
        Self,
        ArconStateError,
    >)
        ensures
            match image_contents(image@) {
                Some((id, contents)) => if id == encode_utf8(checkpoint_id@) {
                    &&& r matches Ok(backend)
                    &&& backend.inv()
                    &&& backend.contents() == contents
                    &&& backend.name() == name@
                } else {
                    r matches Err(ArconStateError::InvalidPath { path }) && path@ == checkpoint_id@
                },
                None => r matches Err(e) && e is FixedBytesDeserializationError,
            },
    {
        let (id, at) = match read_field(image, 0) {
            Ok(found) => found,
            Err(e) => {
                assert(image@.skip(0) =~= image@);
                return Err(e);
            },
        };
        assert(image@.skip(0) =~= image@);
        let entries = match decode_entries(image, at) {
            Ok(entries) => entries,
            Err(e) => { return Err(e); },
        };
        if !same_bytes(id.as_slice(), checkpoint_id.as_bytes()) {
            return Err(ArconStateError::InvalidPath { path: checkpoint_id.to_owned() });
        }
        let mut table: AssocList<Vec<u8>, Vec<u8>> = AssocList::new();
        let ghost raw = crate::in_memory::raw_pairs(entries@);
        let mut i: usize = 0;
        assert(raw.take(0) =~= Seq::empty());
        assert(crate::in_memory::entry_bytes(table.map()) =~= Map::empty());
        while i < entries.len()
            invariant
                i <= entries@.len(),
                table.wf(),
                raw == crate::in_memory::raw_pairs(entries@),
                crate::in_memory::entry_bytes(table.map()) == Store::insert_all(
                    Map::empty(),
                    raw.take(i as int),
                ),
            decreases entries@.len() - i,
        {
            let ghost before = table.map();
            let key = copy_bytes(entries[i].0.as_slice());
            let value = copy_bytes(entries[i].1.as_slice());
            table.insert(key, value);
            proof {
                assert(raw.take(i + 1).drop_last() =~= raw.take(i as int));
                assert(raw.take(i + 1).last() == raw[i as int]);
                assert(crate::in_memory::entry_bytes(table.map())
                    =~= crate::in_memory::entry_bytes(before).insert(key@, value@));
            }
            i = i + 1;
        }
        assert(raw.take(entries@.len() as int) =~= raw);
        Ok(MemoryTable { name: name.to_owned(), table })
    }
}

impl StateBackend for MemoryTable {
    closed spec fn contents(&self) -> Map<Seq<u8>, Seq<u8>> {
        crate::in_memory::entry_bytes(self.table.map())
    }

    closed spec fn inv(&self) -> bool {
        self.table.wf()
    }

    fn create(name: &str) -> (backend: Self)
        ensures
            backend.name() == name@,
    {
        let backend = MemoryTable { name: name.to_owned(), table: AssocList::new() };
        assert(backend.contents() =~= Map::empty());
        backend
    }

    fn put(&mut self, key: &[u8], value: &[u8]) -> (r: Result<(), ArconStateError>)
        ensures
            r is Ok,
    {
        let ghost before = self.table.map();
        self.table.insert(copy_bytes(key), copy_bytes(value));
        assert(crate::in_memory::entry_bytes(self.table.map()) =~= crate::in_memory::entry_bytes(
            before,
        ).insert(key@, value@));
        Ok(())
    }

    fn get(&self, key: &[u8]) -> (r: Result<Vec<u8>, ArconStateError>)
        ensures
            r is Ok,
    {
        let probe = copy_bytes(key);
        match self.table.get(&probe) {
            Some(value) => Ok(copy_bytes(value.as_slice())),
            None => Ok(Vec::new()),
        }
    }

    fn checkpoint(&self, id: String) -> (r: Result<Vec<u8>, ArconStateError>)
        ensures
            r is Ok,
    {
        let mut image: Vec<u8> = Vec::new();
        let id_field = id.as_str().as_bytes();
        let id_len = id_field.len();
        append_field(&mut image, id_field);
        encode_entries(&mut image, &self.table.entries);
        proof {
            let raw = crate::in_memory::raw_pairs(self.table.entries@);
            let id_bytes = encode_utf8(id@);
            assert(id_bytes.len() == id_len);
            assert forall|i: int| 0 <= i < raw.len() implies (#[trigger] raw[i]).0.len()
                <= u64::MAX && raw[i].1.len() <= u64::MAX by {
                let entry = self.table.entries@[i];
                assert(entry.0.len() == entry.0@.len());
                assert(entry.1.len() == entry.1@.len());
            }
            assert(image@ =~= crate::image::field_image(id_bytes) + crate::image::entries_image(
                raw,
            ));
            crate::image::lemma_field_is_read_back(id_bytes, crate::image::entries_image(raw));
            crate::image::lemma_entries_are_read_back(raw);
            lemma_list_inserts_its_map(self.table.entries@);
        }
        Ok(image)
    }
}

} // verus!
