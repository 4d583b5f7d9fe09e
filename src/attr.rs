use vstd::prelude::*;

use crate::errno::Errno;

verus! {

/// Kinds of entries that the driver can present to the kernel.
#[derive(Debug, Clone, Copy, PartialEq, Eq, Structural)]
pub enum FileKind {
    RegularFile,
    Directory,
    Symlink,
}

/// What the backing filesystem says about an entry's type.
#[derive(Debug, Clone, Copy, PartialEq, Eq, Structural)]
pub struct BackingType {
    pub is_file: bool,
    pub is_dir: bool,
    pub is_symlink: bool,
}

/// A point in time given as a duration since the Unix epoch.
#[derive(Debug, Clone, Copy, PartialEq, Eq, Structural)]
pub struct EpochTime {
    pub secs: u64,
    pub nanos: u32,
}

/// Metadata of a backing entry, as plain values.
///
/// A timestamp that lies before the epoch is `None`.
#[derive(Debug, Clone, Copy)]
pub struct StatRecord {
    pub ino: u64,
    pub size: u64,
    pub blocks: u64,
    pub accessed: Option<EpochTime>,
    pub modified: Option<EpochTime>,
    pub created: Option<EpochTime>,
    pub ctime: i64,
    pub ctime_nsec: i64,
    pub kind: BackingType,
    pub mode: u32,
    pub nlink: u64,
    pub uid: u32,
    pub gid: u32,
    pub rdev: u64,
}

/// The attribute record sent to the kernel.
#[derive(Debug, Clone, Copy)]
pub struct AttrRecord {
    pub ino: u64,
    pub size: u64,
    pub blocks: u64,
    pub atime: time::Timespec,
    pub mtime: time::Timespec,
    pub ctime: time::Timespec,
    pub crtime: time::Timespec,
    pub kind: FileKind,
    pub perm: u16,
    pub nlink: u32,
    pub uid: u32,
    pub gid: u32,
    pub rdev: u32,
    pub flags: u32,
}

#[verifier::external_type_specification]
pub struct ExTimespec(time::Timespec);

/// Relies on time::Timespec::new: it keeps both parts as given, and asserts
/// that the nanoseconds lie within one second.
pub assume_specification[ time::Timespec::new ](sec: i64, nsec: i32) -> (r: time::Timespec)
    requires
        0 <= nsec < 1_000_000_000,
    ensures
        r.sec == sec,
        r.nsec == nsec,
;

/// Nanoseconds in one second.
pub const NANOS_PER_SEC: i64 = 1_000_000_000;

/// How long the kernel may keep an attribute reply, in seconds.
pub const ATTR_TTL_SECS: i64 = 1;

impl EpochTime {
    /// The sub-second part is below one second.
    pub open spec fn wf(&self) -> bool {
        self.nanos < NANOS_PER_SEC
    }
}

impl StatRecord {
    /// Every timestamp's nanoseconds lie within one second.
    pub open spec fn wf(&self) -> bool {
        &&& (self.accessed matches Some(t) ==> t.wf())
        &&& (self.modified matches Some(t) ==> t.wf())
        &&& (self.created matches Some(t) ==> t.wf())
        &&& 0 <= self.ctime_nsec < NANOS_PER_SEC
    }

    /// Tests `wf`, for callers that build records from outside data.
    pub fn is_well_formed(&self) -> (r: bool)
        ensures
            r == self.wf(),
    {
        let a = match self.accessed {
            Some(t) => t.nanos < 1_000_000_000,
            None => true,
        };
        let m = match self.modified {
            Some(t) => t.nanos < 1_000_000_000,
            None => true,
        };
        let c = match self.created {
            Some(t) => t.nanos < 1_000_000_000,
            None => true,
        };
        a && m && c && 0 <= self.ctime_nsec && self.ctime_nsec < NANOS_PER_SEC
    }
}

/// The kind an entry is presented as, or `None` for kinds the driver does not serve.
pub open spec fn kind_of(ft: BackingType) -> Option<FileKind> {
    if ft.is_file {
        Some(FileKind::RegularFile)
    } else if ft.is_dir {
        Some(FileKind::Directory)
    } else if ft.is_symlink {
        Some(FileKind::Symlink)
    } else {
        None
    }
}

/// Translates a backing entry type; devices, sockets and pipes are refused.
pub fn filetype_tryfrom(ft: &BackingType) -> (r: Result<FileKind, Errno>)
    ensures
        r == (match kind_of(*ft) {
            Some(k) => Ok(k),
            None => Err(Errno::NotFound),
        }),
{
    if ft.is_file {
        return Ok(FileKind::RegularFile);
    }
    if ft.is_dir {
        return Ok(FileKind::Directory);
    }
    if ft.is_symlink {
        return Ok(FileKind::Symlink);
    }
    Err(Errno::NotFound)
}

/// Seconds and nanoseconds of a timestamp; the epoch itself for a time before it.
pub open spec fn timespec_parts(since_epoch: Option<EpochTime>) -> (i64, i32) {
    match since_epoch {
        Some(d) => (d.secs as i64, d.nanos as i32),
        None => (0, 0),
    }
}

/// Converts a time since the epoch into the kernel's timestamp form.
pub fn timespec_from(since_epoch: Option<EpochTime>) -> (r: time::Timespec)
    requires
        since_epoch matches Some(d) ==> d.wf(),
    ensures
        (r.sec, r.nsec) == timespec_parts(since_epoch),
{
    match since_epoch {
        Some(d) => time::Timespec::new(d.secs as i64, d.nanos as i32),
        None => time::Timespec::new(0, 0),
    }
}

/// The attribute record for metadata `m` of kind `kind`.
pub open spec fn attr_matches(r: AttrRecord, m: StatRecord, kind: FileKind) -> bool {
    &&& r.ino == m.ino
    &&& r.size == m.size
    &&& r.blocks == m.blocks
    &&& (r.atime.sec, r.atime.nsec) == timespec_parts(m.accessed)
    &&& (r.mtime.sec, r.mtime.nsec) == timespec_parts(m.modified)
    &&& r.ctime.sec == m.ctime
    &&& r.ctime.nsec == m.ctime_nsec as i32
    &&& (r.crtime.sec, r.crtime.nsec) == timespec_parts(m.created)
    &&& r.kind == kind
    &&& r.perm == m.mode as u16
    &&& r.nlink == m.nlink as u32
    &&& r.uid == m.uid
    &&& r.gid == m.gid
    &&& r.rdev == m.rdev as u32
    &&& r.flags == 0
}

/// Translates backing metadata into an attribute record; an entry of a kind
/// the driver does not serve is an error.
pub fn fileattr_from(m: &StatRecord) -> (r: Result<AttrRecord, Errno>)
    requires
        m.wf(),
    ensures
        match kind_of(m.kind) {
            Some(k) => r matches Ok(a) && attr_matches(a, *m, k),
            None => r == Err::<AttrRecord, Errno>(Errno::NotFound),
        },
{
    let kind = match filetype_tryfrom(&m.kind) {
        Ok(k) => k,
        Err(e) => return Err(e),
    };
    Ok(AttrRecord {
        ino: m.ino,
        size: m.size,
        blocks: m.blocks,
        atime: timespec_from(m.accessed),
        mtime: timespec_from(m.modified),
        ctime: time::Timespec::new(m.ctime, m.ctime_nsec as i32),
        crtime: timespec_from(m.created),
        kind: kind,
        perm: m.mode as u16,
        nlink: m.nlink as u32,
        uid: m.uid,
        gid: m.gid,
        rdev: m.rdev as u32,
        flags: 0,
    })
}

/// The validity period given with attribute and entry replies.
pub fn attr_ttl() -> (r: time::Timespec)
    ensures
        r.sec == ATTR_TTL_SECS,
        r.nsec == 0,
{
    time::Timespec::new(ATTR_TTL_SECS, 0)
}

} // verus!
