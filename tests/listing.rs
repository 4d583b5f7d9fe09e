use std::cell::RefCell;

use s3hfs::attr::{BackingType, FileKind};
use s3hfs::dirent::{dir_from, RawDirEntry};
use s3hfs::errno::Errno;
use s3hfs::fs::S3HierarchicalFilesystem;

fn entry(ino: u64, name: &str, is_dir: bool) -> Option<RawDirEntry> {
    Some(RawDirEntry {
        ino,
        kind: Some(BackingType { is_file: !is_dir, is_dir, is_symlink: false }),
        name: Some(name.to_string()),
    })
}

fn device(ino: u64, name: &str) -> Option<RawDirEntry> {
    Some(RawDirEntry {
        ino,
        kind: Some(BackingType { is_file: false, is_dir: false, is_symlink: false }),
        name: Some(name.to_string()),
    })
}

fn backing() -> Vec<Option<RawDirEntry>> {
    vec![entry(20, "a", false), entry(21, "b", true), entry(22, "c", false), entry(23, "d", false)]
}

type Fs = S3HierarchicalFilesystem<RefCell<Vec<u8>>>;

/// One readdir call against a reply that holds at most `capacity` entries:
/// the (inode, offset, name) triples that went into the reply.
fn read_once(
    fs: &mut Fs,
    ino: u64,
    cursor: u64,
    entries: Vec<Option<RawDirEntry>>,
    capacity: usize,
) -> Result<Vec<(u64, u64, String)>, Errno> {
    let mut walk = fs.readdir_begin(ino, cursor, Some(entries))?;
    let mut reply = Vec::new();
    loop {
        match walk.next_entry()? {
            None => break,
            Some(slot) => {
                if reply.len() == capacity {
                    break;
                }
                reply.push((slot.ino, slot.offset, slot.name));
                fs.readdir_accept(&mut walk);
            }
        }
    }
    Ok(reply)
}

fn read_all(fs: &mut Fs, capacity: usize) -> Vec<(u64, u64, String)> {
    let mut all = Vec::new();
    let mut cursor = 0;
    loop {
        let reply = read_once(fs, 1, cursor, backing(), capacity).unwrap();
        match reply.last() {
            None => break,
            Some(last) => cursor = last.1,
        }
        all.extend(reply);
    }
    all
}

fn expected() -> Vec<(u64, u64, String)> {
    vec![
        (1, 0, ".".to_string()),
        (1, 1, "..".to_string()),
        (20, 2, "a".to_string()),
        (21, 3, "b".to_string()),
        (22, 4, "c".to_string()),
        (23, 5, "d".to_string()),
    ]
}

#[test]
fn dir_from_maps_readable_entries() {
    let (ino, kind, name) = dir_from(&entry(5, "x", true)).unwrap();
    assert_eq!((ino, kind, name.as_str()), (5, FileKind::Directory, "x"));
    assert!(dir_from(&None).is_none());
    assert!(dir_from(&device(6, "tty")).is_none());
    let no_name = Some(RawDirEntry { ino: 7, kind: Some(BackingType { is_file: true, is_dir: false, is_symlink: false }), name: None });
    assert!(dir_from(&no_name).is_none());
    let no_kind = Some(RawDirEntry { ino: 8, kind: None, name: Some("y".to_string()) });
    assert!(dir_from(&no_kind).is_none());
}

#[test]
fn readdir_in_one_call() {
    let mut fs: Fs = S3HierarchicalFilesystem::new("/tmp/fs", "/tmp/back");
    assert_eq!(read_once(&mut fs, 1, 0, backing(), 100).unwrap(), expected());
}

#[test]
fn readdir_continuation_with_small_replies() {
    for capacity in 2..8 {
        let mut fs: Fs = S3HierarchicalFilesystem::new("/tmp/fs", "/tmp/back");
        assert_eq!(read_all(&mut fs, capacity), expected(), "capacity {}", capacity);
    }
}

#[test]
fn readdir_resumes_after_cursor() {
    let mut fs: Fs = S3HierarchicalFilesystem::new("/tmp/fs", "/tmp/back");
    let rest = read_once(&mut fs, 1, 3, backing(), 100).unwrap();
    assert_eq!(rest, expected()[4..].to_vec());
    let rest = read_once(&mut fs, 1, 1, backing(), 100).unwrap();
    assert_eq!(rest, expected()[2..].to_vec());
    assert!(read_once(&mut fs, 1, 5, backing(), 100).unwrap().is_empty());
    assert!(read_once(&mut fs, 1, u64::MAX, backing(), 100).unwrap().is_empty());
}

#[test]
fn readdir_remembers_listed_inodes() {
    let mut fs: Fs = S3HierarchicalFilesystem::new("/tmp/fs", "/tmp/back");
    read_once(&mut fs, 1, 0, backing(), 4).unwrap();
    assert_eq!(fs.resolve(20), Ok("/tmp/back/a".to_string()));
    assert_eq!(fs.resolve(21), Ok("/tmp/back/b".to_string()));
    assert_eq!(fs.resolve(22), Err(Errno::NotFound));
    assert_eq!(fs.resolve(1), Ok("/tmp/back".to_string()));
}

#[test]
fn readdir_fails_on_device_entry() {
    let mut fs: Fs = S3HierarchicalFilesystem::new("/tmp/fs", "/tmp/back");
    let entries = vec![entry(20, "a", false), device(30, "tty"), entry(22, "c", false)];
    assert_eq!(read_once(&mut fs, 1, 0, entries, 100), Err(Errno::NotFound));
}

#[test]
fn readdir_fails_on_unreadable_entry() {
    let mut fs: Fs = S3HierarchicalFilesystem::new("/tmp/fs", "/tmp/back");
    let entries = vec![entry(20, "a", false), None];
    assert_eq!(read_once(&mut fs, 1, 0, entries, 100), Err(Errno::NotFound));
}

#[test]
fn readdir_of_unknown_or_unlistable_directory() {
    let mut fs: Fs = S3HierarchicalFilesystem::new("/tmp/fs", "/tmp/back");
    assert_eq!(read_once(&mut fs, 9, 0, backing(), 100), Err(Errno::NotSupported));
    assert_eq!(fs.readdir_begin(1, 0, None).err(), Some(Errno::NotFound));
}

#[test]
fn readdir_of_empty_directory() {
    let mut fs: Fs = S3HierarchicalFilesystem::new("/tmp/fs", "/tmp/back");
    let got = read_once(&mut fs, 1, 0, Vec::new(), 100).unwrap();
    assert_eq!(got, expected()[..2].to_vec());
}

#[test]
fn readdir_entry_with_root_inode_keeps_root() {
    let mut fs: Fs = S3HierarchicalFilesystem::new("/tmp/fs", "/tmp/back");
    let entries = vec![entry(1, "proc", true), entry(20, "a", false)];
    let got = read_once(&mut fs, 1, 0, entries, 100).unwrap();
    assert_eq!(got.len(), 4);
    assert_eq!(got[2], (1, 2, "proc".to_string()));
    assert_eq!(fs.resolve(1), Ok("/tmp/back".to_string()));
    assert_eq!(fs.resolve(20), Ok("/tmp/back/a".to_string()));
}
