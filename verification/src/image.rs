use vstd::prelude::*;
use vstd::bytes::*;
use vstd::slice::slice_subrange;
use crate::assoc::copy_bytes;
use crate::error::ArconStateError;

verus! {

/// The eight bytes that tell the length of a field.
pub open spec fn length_prefix(len: nat) -> Seq<u8> {
    spec_u64_to_le_bytes(len as u64)
}

/// A field as it stands in an image: its length, then its bytes.
pub open spec fn field_image(field: Seq<u8>) -> Seq<u8> {
    length_prefix(field.len()) + field
}

/// The image of a list of entries: for each entry its key and its value as
/// fields, one entry after the other.
pub open spec fn entries_image(entries: Seq<(Seq<u8>, Seq<u8>)>) -> Seq<u8>
    decreases entries.len(),
{
    if entries.len() == 0 {
        Seq::empty()
    } else {
        field_image(entries.first().0) + field_image(entries.first().1) + entries_image(
            entries.drop_first(),
        )
    }
}

/// The field at the start of an image and what follows it; `None` where
/// the image is cut short.
pub open spec fn first_field(image: Seq<u8>) -> Option<(Seq<u8>, Seq<u8>)> {
    if image.len() < 8 {
        None
    } else {
        let len = spec_u64_from_le_bytes(image.take(8)) as int;
        if image.len() - 8 < len {
            None
        } else {
            Some((image.subrange(8, 8 + len), image.skip(8 + len)))
        }
    }
}

/// The entries that an image lists; `None` where the image is cut short.
pub open spec fn parsed_entries(image: Seq<u8>) -> Option<Seq<(Seq<u8>, Seq<u8>)>>
    decreases image.len(),
{
    if image.len() == 0 {
        Some(Seq::empty())
    } else {
        match first_field(image) {
            None => None,
            Some((key, rest)) => match first_field(rest) {
                None => None,
                Some((value, tail)) => if tail.len() < image.len() {
                    match parsed_entries(tail) {
                        Some(more) => Some(seq![(key, value)] + more),
                        None => None,
                    }
                } else {
                    None
                },
            },
        }
    }
}

/// A field is read back from its image, whatever follows.
pub proof fn lemma_field_is_read_back(field: Seq<u8>, rest: Seq<u8>)
    requires
        field.len() <= u64::MAX,
    ensures
        first_field(field_image(field) + rest) == Some((field, rest)),
        (field_image(field) + rest).len() == 8 + field.len() + rest.len(),
{
    lemma_auto_spec_u64_to_from_le_bytes();
    let prefix = length_prefix(field.len());
    let image = field_image(field) + rest;
    assert(prefix.len() == 8);
    assert(image.take(8) =~= prefix);
    assert(spec_u64_from_le_bytes(prefix) == field.len() as u64);
    assert(image.subrange(8, 8 + field.len() as int) =~= field);
    assert(image.skip(8 + field.len() as int) =~= rest);
}

/// The image of a list with one more entry at its end.
pub proof fn lemma_image_of_push(entries: Seq<(Seq<u8>, Seq<u8>)>, entry: (Seq<u8>, Seq<u8>))
    ensures
        entries_image(entries.push(entry)) == entries_image(entries) + field_image(entry.0)
            + field_image(entry.1),
    decreases entries.len(),
{
    let longer = entries.push(entry);
    if entries.len() == 0 {
        assert(longer.drop_first() =~= Seq::empty());
        assert(longer.first() == entry);
        assert(entries_image(longer.drop_first()) =~= Seq::empty());
        assert(entries_image(longer) =~= field_image(entry.0) + field_image(entry.1));
        assert(entries_image(entries) + field_image(entry.0) + field_image(entry.1)
            =~= field_image(entry.0) + field_image(entry.1));
    } else {
        assert(longer.first() == entries.first());
        assert(longer.drop_first() =~= entries.drop_first().push(entry));
        lemma_image_of_push(entries.drop_first(), entry);
        assert(entries_image(longer) =~= entries_image(entries) + field_image(entry.0)
            + field_image(entry.1));
    }
}

/// Entries are read back from their image.
pub proof fn lemma_entries_are_read_back(entries: Seq<(Seq<u8>, Seq<u8>)>)
    requires
        forall|i: int|
            0 <= i < entries.len() ==> (#[trigger] entries[i]).0.len() <= u64::MAX
                && entries[i].1.len() <= u64::MAX,
    ensures
        parsed_entries(entries_image(entries)) == Some(entries),
    decreases entries.len(),
{
    if entries.len() > 0 {
        let key = entries.first().0;
        let value = entries.first().1;
        let rest = entries.drop_first();
        let image = entries_image(entries);
        assert(entries[0] == entries.first());
        assert forall|i: int| 0 <= i < rest.len() implies (#[trigger] rest[i]).0.len() <= u64::MAX
            && rest[i].1.len() <= u64::MAX by {
            assert(rest[i] == entries[i + 1]);
        }
        lemma_entries_are_read_back(rest);
        let after_key = field_image(value) + entries_image(rest);
        assert(image =~= field_image(key) + after_key);
        lemma_field_is_read_back(key, after_key);
        lemma_field_is_read_back(value, entries_image(rest));
        assert(seq![(key, value)] + rest =~= entries);
    }
}

/// Appends a field to an image.
pub fn append_field(image: &mut Vec<u8>, field: &[u8])
    ensures
        final(image)@ == old(image)@ + field_image(field@),
{
    let mut prefix = u64_to_le_bytes(field.len() as u64);
    image.append(&mut prefix);
    let mut i: usize = 0;
    while i < field.len()
        invariant
            i <= field@.len(),
            image@ == old(image)@ + length_prefix(field@.len()) + field@.take(i as int),
        decreases field@.len() - i,
    {
        image.push(field[i]);
        assert(field@.take(i + 1) == field@.take(i as int).push(field@[i as int]));
        i = i + 1;
    }
    assert(field@.take(field@.len() as int) == field@);
    assert(image@ =~= old(image)@ + field_image(field@));
}

/// How many bytes the field at the start of an image takes, with its length;
/// no more than a length can tell.
pub open spec fn bytes_needed(image: Seq<u8>) -> int {
    if image.len() < 8 {
        8
    } else {
        let needed = 8 + spec_u64_from_le_bytes(image.take(8));
        if needed > usize::MAX {
            usize::MAX as int
        } else {
            needed
        }
    }
}

/// Reads the field that starts at `at`; hands out the field and where the
/// next one starts. Where the image is cut short, the error tells how many
/// bytes were left and how many the field needs.
pub fn read_field(image: &[u8], at: usize) -> (r: Result<(Vec<u8>, usize), ArconStateError>)
    requires
        at <= image@.len(),
    ensures
        match first_field(image@.skip(at as int)) {
            Some((field, rest)) => {
                &&& r matches Ok((bytes, next))
                &&& bytes@ == field
                &&& at + 8 <= next <= image@.len()
                &&& image@.skip(next as int) == rest
            },
            None => r matches Err(e) && e == (ArconStateError::FixedBytesDeserializationError {
                source_len: (image@.len() - at) as usize,
                needed: bytes_needed(image@.skip(at as int)) as usize,
            }),
        },
{
    let left = image.len() - at;
    if left < 8 {
        return Err(ArconStateError::FixedBytesDeserializationError { source_len: left, needed: 8 });
    }
    let ghost tail = image@.skip(at as int);
    let prefix = slice_subrange(image, at, at + 8);
    assert(prefix@ =~= tail.take(8));
    let len = u64_from_le_bytes(prefix);
    if ((left - 8) as u64) < len {
        let needed: usize = if len > (usize::MAX - 8) as u64 {
            usize::MAX
        } else {
            len as usize + 8
        };
        return Err(ArconStateError::FixedBytesDeserializationError { source_len: left, needed });
    }
    let len = len as usize;
    let field = slice_subrange(image, at + 8, at + 8 + len);
    assert(field@ =~= tail.subrange(8, 8 + len));
    assert(image@.skip(at + 8 + len) =~= tail.skip(8 + len));
    Ok((copy_bytes(field), at + 8 + len))
}

/// The image of a list of entries.
pub fn encode_entries(image: &mut Vec<u8>, entries: &Vec<(Vec<u8>, Vec<u8>)>)
    ensures
        final(image)@ == old(image)@ + entries_image(crate::in_memory::raw_pairs(entries@)),
{
    let ghost raw = crate::in_memory::raw_pairs(entries@);
    let mut i: usize = 0;
    assert(raw.take(0) =~= Seq::empty());
    while i < entries.len()
        invariant
            i <= entries@.len(),
            raw == crate::in_memory::raw_pairs(entries@),
            image@ == old(image)@ + entries_image(raw.take(i as int)),
        decreases entries@.len() - i,
    {
        append_field(image, entries[i].0.as_slice());
        append_field(image, entries[i].1.as_slice());
        proof {
            lemma_image_of_push(raw.take(i as int), raw[i as int]);
            assert(raw.take(i + 1) =~= raw.take(i as int).push(raw[i as int]));
            assert(image@ =~= old(image)@ + entries_image(raw.take(i + 1)));
        }
        i = i + 1;
    }
    assert(raw.take(entries@.len() as int) =~= raw);
}

/// The entries that an image lists from `at` on.
pub fn decode_entries(image: &[u8], at: usize) -> (r: Result<
    Vec<(Vec<u8>, Vec<u8>)>,
    ArconStateError,
>)
    requires
        at <= image@.len(),
    ensures
        match parsed_entries(image@.skip(at as int)) {
            Some(entries) => r matches Ok(list) && crate::in_memory::raw_pairs(list@) == entries,
            None => r matches Err(e) && e is FixedBytesDeserializationError,
        },
{
    let ghost whole = parsed_entries(image@.skip(at as int));
    let mut list: Vec<(Vec<u8>, Vec<u8>)> = Vec::new();
    let mut pos: usize = at;
    assert(crate::in_memory::raw_pairs(list@) + Seq::empty() =~= Seq::empty());
    while pos < image.len()
        invariant
            at <= pos <= image@.len(),
            whole == parsed_entries(image@.skip(at as int)),
            whole == match parsed_entries(image@.skip(pos as int)) {
                Some(more) => Some(crate::in_memory::raw_pairs(list@) + more),
                None => None,
            },
        decreases image@.len() - pos,
    {
        let ghost here = image@.skip(pos as int);
        let ghost before = crate::in_memory::raw_pairs(list@);
        let (key, after_key) = match read_field(image, pos) {
            Ok(found) => found,
            Err(e) => { return Err(e); },
        };
        let (value, after_value) = match read_field(image, after_key) {
            Ok(found) => found,
            Err(e) => { return Err(e); },
        };
        proof {
            let tail = image@.skip(after_value as int);
            assert(tail.len() < here.len());
            match parsed_entries(tail) {
                Some(more) => {
                    assert(parsed_entries(here) == Some(seq![(key@, value@)] + more));
                    assert(before + (seq![(key@, value@)] + more) =~= before.push(
                        (key@, value@),
                    ) + more);
                },
                None => {},
            }
        }
        list.push((key, value));
        assert(crate::in_memory::raw_pairs(list@) =~= before.push((key@, value@)));
        pos = after_value;
    }
    proof {
        assert(image@.skip(pos as int).len() == 0);
        assert(crate::in_memory::raw_pairs(list@) + Seq::empty() =~= crate::in_memory::raw_pairs(
            list@,
        ));
    }
    Ok(list)
}

} // verus!
