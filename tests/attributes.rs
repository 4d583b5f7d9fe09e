use s3hfs::attr::{
    attr_ttl, fileattr_from, filetype_tryfrom, timespec_from, BackingType, EpochTime, FileKind,
    StatRecord,
};
use s3hfs::errno::{os_error, Errno};

fn file_type() -> BackingType {
    BackingType { is_file: true, is_dir: false, is_symlink: false }
}

fn device_type() -> BackingType {
    BackingType { is_file: false, is_dir: false, is_symlink: false }
}

fn stat(kind: BackingType) -> StatRecord {
    StatRecord {
        ino: 4242,
        size: 1234,
        blocks: 8,
        accessed: Some(EpochTime { secs: 1_500_000_000, nanos: 250 }),
        modified: Some(EpochTime { secs: 1_500_000_100, nanos: 999_999_999 }),
        created: None,
        ctime: 1_500_000_200,
        ctime_nsec: 42,
        kind,
        mode: 0o100644,
        nlink: 3,
        uid: 1000,
        gid: 100,
        rdev: 0x1_0000_0005,
    }
}

#[test]
fn filetype_regular_directory_symlink() {
    assert_eq!(filetype_tryfrom(&file_type()), Ok(FileKind::RegularFile));
    let dir = BackingType { is_file: false, is_dir: true, is_symlink: false };
    assert_eq!(filetype_tryfrom(&dir), Ok(FileKind::Directory));
    let link = BackingType { is_file: false, is_dir: false, is_symlink: true };
    assert_eq!(filetype_tryfrom(&link), Ok(FileKind::Symlink));
}

#[test]
fn filetype_device_is_refused() {
    assert_eq!(filetype_tryfrom(&device_type()), Err(Errno::NotFound));
}

#[test]
fn timespec_before_epoch_is_zero() {
    let t = timespec_from(None);
    assert_eq!((t.sec, t.nsec), (0, 0));
}

#[test]
fn timespec_keeps_seconds_and_nanos() {
    let t = timespec_from(Some(EpochTime { secs: 77, nanos: 123_456_789 }));
    assert_eq!(t, time::Timespec::new(77, 123_456_789));
    assert_eq!((t.sec, t.nsec), (77, 123_456_789));
}

#[test]
fn ttl_is_one_second() {
    let t = attr_ttl();
    assert_eq!((t.sec, t.nsec), (1, 0));
}

#[test]
fn fileattr_translates_every_field() {
    let a = fileattr_from(&stat(file_type())).unwrap();
    assert_eq!(a.ino, 4242);
    assert_eq!(a.size, 1234);
    assert_eq!(a.blocks, 8);
    assert_eq!(a.atime, time::Timespec::new(1_500_000_000, 250));
    assert_eq!(a.mtime, time::Timespec::new(1_500_000_100, 999_999_999));
    assert_eq!(a.ctime, time::Timespec::new(1_500_000_200, 42));
    assert_eq!(a.crtime, time::Timespec::new(0, 0));
    assert_eq!(a.kind, FileKind::RegularFile);
    assert_eq!(a.perm, 0o100644u32 as u16);
    assert_eq!(a.nlink, 3);
    assert_eq!(a.uid, 1000);
    assert_eq!(a.gid, 100);
    assert_eq!(a.rdev, 5);
    assert_eq!(a.flags, 0);
}

#[test]
fn fileattr_of_device_fails() {
    assert_eq!(fileattr_from(&stat(device_type())).err(), Some(Errno::NotFound));
}

#[test]
fn stat_well_formedness() {
    assert!(stat(file_type()).is_well_formed());
    let mut bad = stat(file_type());
    bad.ctime_nsec = 1_000_000_000;
    assert!(!bad.is_well_formed());
    let mut bad = stat(file_type());
    bad.created = Some(EpochTime { secs: 1, nanos: 1_000_000_000 });
    assert!(!bad.is_well_formed());
}

#[test]
fn os_error_falls_back_to_not_found() {
    assert_eq!(os_error(Some(13)), Errno::Os(13));
    assert_eq!(os_error(None), Errno::NotFound);
}
