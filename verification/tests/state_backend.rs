use arcon_state::assoc::{copy_bytes, same_bytes, AssocList};
use arcon_state::error::ArconStateError;
use arcon_state::image::{append_field, decode_entries, encode_entries, read_field};
use arcon_state::state_backend::{MemoryTable, StateBackend};

#[test]
fn put_then_get() {
    let mut table = MemoryTable::create("table");
    assert_eq!(table.get(b"k").unwrap(), Vec::<u8>::new());
    table.put(b"k", b"v1").unwrap();
    assert_eq!(table.get(b"k").unwrap(), b"v1".to_vec());
    table.put(b"k", b"v2").unwrap();
    table.put(b"", b"empty key").unwrap();
    assert_eq!(table.get(b"k").unwrap(), b"v2".to_vec());
    assert_eq!(table.get(b"").unwrap(), b"empty key".to_vec());
    assert_eq!(table.get(b"other").unwrap(), Vec::<u8>::new());
}

#[test]
fn image_of_a_table() {
    let mut table = MemoryTable::create("table");
    assert_eq!(
        table.checkpoint("id".to_string()).unwrap(),
        vec![2, 0, 0, 0, 0, 0, 0, 0, b'i', b'd']
    );
    table.put(b"k", b"vv").unwrap();
    assert_eq!(
        table.checkpoint("".to_string()).unwrap(),
        vec![
            0, 0, 0, 0, 0, 0, 0, 0, 1, 0, 0, 0, 0, 0, 0, 0, b'k', 2, 0, 0, 0, 0, 0, 0, 0, b'v',
            b'v'
        ]
    );
}

#[test]
fn a_table_comes_back_from_its_image() {
    let mut table = MemoryTable::create("table");
    for i in 0..50u8 {
        table.put(&[i, i], &vec![i; i as usize]).unwrap();
    }
    table.put(&[3, 3], b"changed").unwrap();
    let image = table.checkpoint("snap-1".to_string()).unwrap();
    let restored = MemoryTable::restore("copy", &image, "snap-1").unwrap();
    for i in 0..50u8 {
        assert_eq!(restored.get(&[i, i]).unwrap(), table.get(&[i, i]).unwrap());
    }
    assert_eq!(restored.get(&[3, 3]).unwrap(), b"changed".to_vec());
    assert_eq!(restored.get(&[50, 50]).unwrap(), Vec::<u8>::new());
    assert_eq!(restored.checkpoint("snap-1".to_string()).unwrap().len(), image.len());
}

#[test]
fn an_image_under_another_identifier_is_a_wrong_path() {
    let table = MemoryTable::create("table");
    let image = table.checkpoint("one".to_string()).unwrap();
    match MemoryTable::restore("copy", &image, "two") {
        Err(ArconStateError::InvalidPath { path }) => assert_eq!(path, "two"),
        other => panic!("unexpected: {:?}", other.is_ok()),
    }
}

#[test]
fn an_image_that_is_cut_short_is_refused() {
    let mut table = MemoryTable::create("table");
    table.put(b"key", b"value").unwrap();
    let image = table.checkpoint("id".to_string()).unwrap();
    for len in 0..image.len() {
        if len == 10 {
            assert!(MemoryTable::restore("copy", &image[..len], "id").is_ok());
        } else {
            assert!(matches!(
                MemoryTable::restore("copy", &image[..len], "id"),
                Err(ArconStateError::FixedBytesDeserializationError { .. })
            ));
        }
    }
}

#[test]
fn fields_carry_their_length() {
    let mut image = vec![9u8];
    append_field(&mut image, b"ab");
    assert_eq!(image, vec![9, 2, 0, 0, 0, 0, 0, 0, 0, b'a', b'b']);
    append_field(&mut image, b"");
    assert_eq!(image.len(), 19);
    let (field, next) = read_field(&image, 1).unwrap();
    assert_eq!(field, b"ab".to_vec());
    assert_eq!(next, 11);
    let (field, next) = read_field(&image, 11).unwrap();
    assert_eq!(field, Vec::<u8>::new());
    assert_eq!(next, 19);
    assert!(read_field(&image, 19).is_err());
    assert!(read_field(&image, 5).is_err());
}

#[test]
fn entries_are_read_back() {
    let entries = vec![(b"a".to_vec(), b"1".to_vec()), (Vec::new(), vec![0u8; 300])];
    let mut image = Vec::new();
    encode_entries(&mut image, &entries);
    assert_eq!(image.len(), 8 + 1 + 8 + 1 + 8 + 8 + 300);
    assert_eq!(decode_entries(&image, 0).unwrap(), entries);
    assert_eq!(decode_entries(&image, 18).unwrap(), entries[1..].to_vec());
    assert_eq!(decode_entries(&image, image.len()).unwrap(), Vec::new());
    assert!(decode_entries(&image, 1).is_err());
}

#[test]
fn association_list() {
    let mut list: AssocList<Vec<u8>, u32> = AssocList::new();
    assert_eq!(list.len(), 0);
    assert_eq!(list.insert(vec![1], 10), None);
    assert_eq!(list.insert(vec![2], 20), None);
    assert_eq!(list.insert(vec![1], 11), Some(10));
    assert_eq!(list.len(), 2);
    assert_eq!(list.get(&vec![1]), Some(&11));
    assert_eq!(list.get(&vec![3]), None);
    assert!(list.contains_key(&vec![2]));
    assert!(list.find(&vec![2]).is_some());
    assert_eq!(list.find(&vec![3]), None);
    assert_eq!(list.remove(&vec![3]), None);
    assert_eq!(list.remove(&vec![2]), Some(20));
    assert!(!list.contains_key(&vec![2]));
    assert_eq!(list.len(), 1);
    let mut names: AssocList<String, u8> = AssocList::new();
    names.insert("a".to_string(), 1);
    assert_eq!(names.get(&"a".to_string()), Some(&1));
    assert_eq!(names.get(&"b".to_string()), None);
}

#[test]
fn byte_helpers() {
    assert!(same_bytes(b"abc", b"abc"));
    assert!(!same_bytes(b"abc", b"abd"));
    assert!(!same_bytes(b"abc", b"ab"));
    assert!(same_bytes(b"", b""));
    assert_eq!(copy_bytes(b"xyz"), b"xyz".to_vec());
    assert_eq!(copy_bytes(b""), Vec::<u8>::new());
}
