use s3hfs::errno::Errno;
use s3hfs::handles::HandleTable;

#[test]
fn first_handle_is_above_reserved() {
    let mut t: HandleTable<&str> = HandleTable::new();
    assert_eq!(t.allocate("a"), Ok(11));
    assert_eq!(t.allocate("b"), Ok(12));
}

#[test]
fn release_of_allocated_handle_round_trip() {
    let mut t: HandleTable<String> = HandleTable::new();
    let other = t.allocate("other".to_string()).unwrap();
    let h = t.allocate("file".to_string()).unwrap();
    assert_eq!(t.release(h), Ok("file".to_string()));
    assert_eq!(t.release(h), Err(Errno::NotFound));
    assert_eq!(t.get(other), Ok(&"other".to_string()));
    assert_eq!(t.get(h), Err(Errno::NotFound));
}

#[test]
fn ids_are_not_reused_after_release() {
    let mut t: HandleTable<u8> = HandleTable::new();
    let a = t.allocate(1).unwrap();
    assert_eq!(t.release(a), Ok(1));
    let b = t.allocate(2).unwrap();
    assert_ne!(a, b);
    assert!(!t.is_full());
}

#[test]
fn many_opens_get_distinct_ids() {
    let mut t: HandleTable<usize> = HandleTable::new();
    let mut ids = Vec::new();
    for i in 0..500 {
        ids.push(t.allocate(i).unwrap());
    }
    let mut sorted = ids.clone();
    sorted.sort();
    sorted.dedup();
    assert_eq!(sorted.len(), 500);
    for (i, h) in ids.iter().enumerate() {
        assert_eq!(t.get(*h), Ok(&i));
    }
}
