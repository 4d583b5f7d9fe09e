use vstd::prelude::*;

use crate::attr::{
    attr_matches, attr_ttl, fileattr_from, kind_of, AttrRecord, FileKind, StatRecord, ATTR_TTL_SECS,
};
use crate::dirent::{dir_from, first_pending, listing, pending, DirSlot, EntryView, RawDirEntry};
use crate::errno::{error_for, os_error, Errno};
use crate::handles::{HandleTable, RESERVED_HANDLES};
use crate::inodes::{join, join_path, InodeCache, ROOT_INO};

verus! {

/// Reply to a getattr request.
#[derive(Debug, Clone, Copy)]
pub struct AttrReply {
    pub ttl: time::Timespec,
    pub attr: AttrRecord,
}

/// Reply to a lookup or mkdir request.
#[derive(Debug, Clone, Copy)]
pub struct EntryReply {
    pub ttl: time::Timespec,
    pub attr: AttrRecord,
    pub generation: u64,
}

/// Reply to a create request.
#[derive(Debug, Clone, Copy)]
pub struct CreateReply {
    pub ttl: time::Timespec,
    pub attr: AttrRecord,
    pub generation: u64,
    pub fh: u64,
    pub flags: u32,
}

/// The inode map once an entry at `path` has reported inode `ino`: the root
/// inode keeps the backing root, whatever a backing entry reports (a
/// filesystem mounted inside the backing tree may report inode 1 for its own
/// root); any other inode is recorded at `path`.
pub open spec fn after_learning(inodes: Map<u64, Seq<char>>, ino: u64, path: Seq<char>) -> Map<
    u64,
    Seq<char>,
> {
    if ino == ROOT_INO {
        inodes
    } else {
        inodes.insert(ino, path)
    }
}

/// The attribute validity period that replies carry.
pub open spec fn is_attr_ttl(t: time::Timespec) -> bool {
    t.sec == ATTR_TTL_SECS && t.nsec == 0
}

/// A filesystem that mirrors a backing directory tree.
///
/// It keeps which backing path each inode the kernel knows stands for, and
/// the files opened through it. `R` is the type of an open file.
pub struct S3HierarchicalFilesystem<R> {
    mount_path: String,
    backing_path: String,
    inodes: InodeCache,
    files: HandleTable<R>,
}

impl<R> S3HierarchicalFilesystem<R> {
    /// Backing path of each inode the kernel has been told of.
    pub closed spec fn inodes(&self) -> Map<u64, Seq<char>> {
        self.inodes@
    }

    /// The open files.
    pub closed spec fn handles(&self) -> HandleTable<R> {
        self.files
    }

    /// Where the filesystem is mounted.
    pub closed spec fn mount_path(&self) -> Seq<char> {
        self.mount_path@
    }

    /// The root of the backing tree.
    pub closed spec fn backing_path(&self) -> Seq<char> {
        self.backing_path@
    }

    /// The root inode stands for the backing root and the handle table is
    /// well formed.
    pub open spec fn wf(&self) -> bool {
        &&& self.inodes().contains_key(ROOT_INO)
        &&& self.inodes()[ROOT_INO] == self.backing_path()
        &&& self.handles().wf()
    }

    /// Every inode known to `earlier` is still known to `self`.
    pub open spec fn keeps_inodes_of(&self, earlier: Self) -> bool {
        forall|i: u64| #[trigger] earlier.inodes().contains_key(i) ==> self.inodes().contains_key(i)
    }

    /// `self` is `earlier` with `ino` now known at `path`; the root inode
    /// is never moved off the backing root.
    pub open spec fn learned(&self, earlier: Self, ino: u64, path: Seq<char>) -> bool {
        &&& self.inodes() == after_learning(earlier.inodes(), ino, path)
        &&& self.handles() == earlier.handles()
        &&& self.mount_path() == earlier.mount_path()
        &&& self.backing_path() == earlier.backing_path()
    }

    /// A filesystem for `mount_path` whose root inode stands for `backing_path`.
    pub fn new(mount_path: &str, backing_path: &str) -> (r: Self)
        ensures
            r.wf(),
            r.inodes() == map![ROOT_INO => backing_path@],
            r.handles().open_files().is_empty(),
            r.handles().next_id() == RESERVED_HANDLES + 1,
            r.mount_path() == mount_path@,
            r.backing_path() == backing_path@,
    {
        S3HierarchicalFilesystem {
            mount_path: mount_path.to_owned(),
            backing_path: backing_path.to_owned(),
            inodes: InodeCache::new(backing_path),
            files: HandleTable::new(),
        }
    }

    /// The backing path of `ino`; `NotFound` for an inode never disclosed.
    pub fn resolve(&self, ino: u64) -> (r: Result<String, Errno>)
        ensures
            match r {
                Ok(p) => self.inodes().contains_key(ino) && p@ == self.inodes()[ino],
                Err(e) => !self.inodes().contains_key(ino) && e == Errno::NotFound,
            },
    {
        self.inodes.resolve(ino)
    }

    /// The backing path of an inode that a request operates on;
    /// `NotSupported` for one the driver has not learned of.
    pub fn node_path(&self, ino: u64) -> (r: Result<String, Errno>)
        ensures
            match r {
                Ok(p) => self.inodes().contains_key(ino) && p@ == self.inodes()[ino],
                Err(e) => !self.inodes().contains_key(ino) && e == Errno::NotSupported,
            },
    {
        match self.inodes.resolve(ino) {
            Ok(p) => Ok(p),
            Err(_) => Err(Errno::NotSupported),
        }
    }

    /// The backing path of entry `name` in directory `parent`;
    /// `NotSupported` when the parent is unknown or the name is not text
    /// (`None`).
    pub fn child_path(&self, parent: u64, name: Option<&str>) -> (r: Result<String, Errno>)
        ensures
            match r {
                Ok(p) => {
                    &&& self.inodes().contains_key(parent)
                    &&& name matches Some(n) && p@ == join_path(self.inodes()[parent], n@)
                },
                Err(e) => e == Errno::NotSupported && (!self.inodes().contains_key(parent)
                    || name is None),
            },
    {
        let dir = match self.inodes.resolve(parent) {
            Ok(p) => p,
            Err(_) => return Err(Errno::NotSupported),
        };
        match name {
            Some(n) => Ok(join(dir.as_str(), n)),
            None => Err(Errno::NotSupported),
        }
    }

    /// Records that the entry at `path` reported inode `ino`, unless that is
    /// the root inode.
    fn learn(&mut self, ino: u64, path: String)
        ensures
            final(self).learned(*old(self), ino, path@),
    {
        if ino != ROOT_INO {
            self.inodes.remember(ino, path);
        }
    }

    /// Translates the metadata of the entry at `path` and remembers its inode.
    fn record_node(&mut self, path: String, m: &StatRecord) -> (r: Result<AttrRecord, Errno>)
        requires
            m.wf(),
        ensures
            match kind_of(m.kind) {
                Some(k) => r matches Ok(a) && attr_matches(a, *m, k) && final(self).learned(
                    *old(self),
                    m.ino,
                    path@,
                ),
                None => r == Err::<AttrRecord, Errno>(Errno::NotFound) && *final(self)
                    == *old(self),
            },
    {
        let attr = match fileattr_from(m) {
            Ok(a) => a,
            Err(e) => return Err(e),
        };
        self.learn(attr.ino, path);
        Ok(attr)
    }

    /// Finishes getattr on the entry at `path`, given its metadata (`None`
    /// when it could not be read): the attributes, and the inode they carry
    /// remembered at `path`.
    pub fn getattr_reply(&mut self, path: String, stat: Option<StatRecord>) -> (r: Result<
        AttrReply,
        Errno,
    >)
        requires
            old(self).wf(),
            stat matches Some(m) ==> m.wf(),
        ensures
            final(self).wf(),
            final(self).inodes()[ROOT_INO] == old(self).inodes()[ROOT_INO],
            final(self).keeps_inodes_of(*old(self)),
            match stat {
                Some(m) => match kind_of(m.kind) {
                    Some(k) => r matches Ok(rep) && attr_matches(rep.attr, m, k) && is_attr_ttl(
                        rep.ttl,
                    ) && final(self).learned(*old(self), m.ino, path@),
                    None => r == Err::<AttrReply, Errno>(Errno::NotFound) && *final(self)
                        == *old(self),
                },
                None => r == Err::<AttrReply, Errno>(Errno::NotFound) && *final(self)
                    == *old(self),
            },
    {
        let m = match stat {
            Some(m) => m,
            None => return Err(Errno::NotFound),
        };
        match self.record_node(path, &m) {
            Ok(attr) => Ok(AttrReply { ttl: attr_ttl(), attr }),
            Err(e) => Err(e),
        }
    }

    /// Finishes lookup of the entry at `path`, given its metadata (`None`
    /// when it could not be read): the entry, and its inode remembered at
    /// `path`.
    pub fn lookup_reply(&mut self, path: String, stat: Option<StatRecord>) -> (r: Result<
        EntryReply,
        Errno,
    >)
        requires
            old(self).wf(),
            stat matches Some(m) ==> m.wf(),
        ensures
            final(self).wf(),
            final(self).inodes()[ROOT_INO] == old(self).inodes()[ROOT_INO],
            final(self).keeps_inodes_of(*old(self)),
            match stat {
                Some(m) => match kind_of(m.kind) {
                    Some(k) => r matches Ok(rep) && attr_matches(rep.attr, m, k) && is_attr_ttl(
                        rep.ttl,
                    ) && rep.generation == 0 && final(self).learned(*old(self), m.ino, path@),
                    None => r == Err::<EntryReply, Errno>(Errno::NotFound) && *final(self)
                        == *old(self),
                },
                None => r == Err::<EntryReply, Errno>(Errno::NotFound) && *final(self)
                    == *old(self),
            },
    {
        let m = match stat {
            Some(m) => m,
            None => return Err(Errno::NotFound),
        };
        match self.record_node(path, &m) {
            Ok(attr) => Ok(EntryReply { ttl: attr_ttl(), attr, generation: 0 }),
            Err(e) => Err(e),
        }
    }

    /// Finishes mkdir of the directory created at `path`, given its
    /// metadata or the OS error code of reading it: the new entry, and its
    /// inode remembered at `path`.
    pub fn mkdir_reply(&mut self, path: String, stat: Result<StatRecord, Option<i32>>) -> (r:
        Result<EntryReply, Errno>)
        requires
            old(self).wf(),
            stat matches Ok(m) ==> m.wf(),
        ensures
            final(self).wf(),
            final(self).inodes()[ROOT_INO] == old(self).inodes()[ROOT_INO],
            final(self).keeps_inodes_of(*old(self)),
            match stat {
                Ok(m) => match kind_of(m.kind) {
                    Some(k) => r matches Ok(rep) && attr_matches(rep.attr, m, k) && is_attr_ttl(
                        rep.ttl,
                    ) && rep.generation == 0 && final(self).learned(*old(self), m.ino, path@),
                    None => r == Err::<EntryReply, Errno>(Errno::NotFound) && *final(self)
                        == *old(self),
                },
                Err(raw) => r == Err::<EntryReply, Errno>(error_for(raw)) && *final(self)
                    == *old(self),
            },
    {
        let m = match stat {
            Ok(m) => m,
            Err(raw) => return Err(os_error(raw)),
        };
        match self.record_node(path, &m) {
            Ok(attr) => Ok(EntryReply { ttl: attr_ttl(), attr, generation: 0 }),
            Err(e) => Err(e),
        }
    }

    /// Stores a newly opened file under a fresh handle id.
    fn store_file(&mut self, file: R) -> (r: Result<u64, Errno>)
        requires
            old(self).wf(),
        ensures
            final(self).wf(),
            final(self).inodes() == old(self).inodes(),
            final(self).mount_path() == old(self).mount_path(),
            final(self).backing_path() == old(self).backing_path(),
            match r {
                Ok(h) => HandleTable::allocate_post(
                    old(self).handles(),
                    file,
                    Ok(h),
                    final(self).handles(),
                ),
                Err(e) => e == Errno::TooManyOpen && HandleTable::allocate_post(
                    old(self).handles(),
                    file,
                    Err(file),
                    final(self).handles(),
                ),
            },
    {
        match self.files.allocate(file) {
            Ok(h) => Ok(h),
            Err(_) => Err(Errno::TooManyOpen),
        }
    }

    /// What create does to `old`, given the file made at `path`, its
    /// metadata or the OS error code of reading it: outcome `r` and state
    /// `new`.
    pub open spec fn create_outcome(
        old: Self,
        path: Seq<char>,
        file: R,
        stat: Result<StatRecord, Option<i32>>,
        r: Result<CreateReply, Errno>,
        new: Self,
    ) -> bool {
        match stat {
            Ok(m) => match kind_of(m.kind) {
                Some(k) => if old.handles().next_id() == u64::MAX {
                    r == Err::<CreateReply, Errno>(Errno::TooManyOpen) && new == old
                } else {
                    &&& r matches Ok(rep) && attr_matches(rep.attr, m, k) && is_attr_ttl(
                        rep.ttl,
                    ) && rep.generation == 0 && rep.flags == 0 && rep.fh == old.handles().next_id()
                    &&& HandleTable::allocate_post(
                        old.handles(),
                        file,
                        Ok(old.handles().next_id()),
                        new.handles(),
                    )
                    &&& new.inodes() == after_learning(old.inodes(), m.ino, path)
                    &&& new.mount_path() == old.mount_path()
                    &&& new.backing_path() == old.backing_path()
                },
                None => r == Err::<CreateReply, Errno>(Errno::NotFound) && new == old,
            },
            Err(raw) => r == Err::<CreateReply, Errno>(error_for(raw)) && new == old,
        }
    }

    /// Finishes create of the file made at `path`, given the opened file and
    /// its metadata or the OS error code of reading it: the new entry with a
    /// handle for the file, and its inode remembered at `path`.
    pub fn create_reply(
        &mut self,
        path: String,
        file: R,
        stat: Result<StatRecord, Option<i32>>,
    ) -> (r: Result<CreateReply, Errno>)
        requires
            old(self).wf(),
            stat matches Ok(m) ==> m.wf(),
        ensures
            final(self).wf(),
            final(self).inodes()[ROOT_INO] == old(self).inodes()[ROOT_INO],
            final(self).keeps_inodes_of(*old(self)),
            Self::create_outcome(*old(self), path@, file, stat, r, *final(self)),
    {
        let m = match stat {
            Ok(m) => m,
            Err(raw) => return Err(os_error(raw)),
        };
        let attr = match fileattr_from(&m) {
            Ok(a) => a,
            Err(e) => return Err(e),
        };
        if self.files.is_full() {
            return Err(Errno::TooManyOpen);
        }
        let fh = match self.store_file(file) {
            Ok(h) => h,
            Err(e) => return Err(e),
        };
        self.learn(attr.ino, path);
        Ok(CreateReply { ttl: attr_ttl(), attr, generation: 0, fh, flags: 0 })
    }

    /// Finishes open, given the opened file or the OS error code of opening
    /// it: the handle id under which the file is now kept.
    pub fn opened(&mut self, file: Result<R, Option<i32>>) -> (r: Result<u64, Errno>)
        requires
            old(self).wf(),
        ensures
            final(self).wf(),
            final(self).inodes() == old(self).inodes(),
            final(self).mount_path() == old(self).mount_path(),
            final(self).backing_path() == old(self).backing_path(),
            match file {
                Ok(f) => match r {
                    Ok(h) => HandleTable::allocate_post(
                        old(self).handles(),
                        f,
                        Ok(h),
                        final(self).handles(),
                    ),
                    Err(e) => e == Errno::TooManyOpen && HandleTable::allocate_post(
                        old(self).handles(),
                        f,
                        Err(f),
                        final(self).handles(),
                    ),
                },
                Err(raw) => r == Err::<u64, Errno>(error_for(raw)) && *final(self) == *old(self),
            },
    {
        match file {
            Ok(f) => self.store_file(f),
            Err(raw) => Err(os_error(raw)),
        }
    }

    /// The file open under handle `fh`; `NotFound` for an unknown handle.
    pub fn handle(&self, fh: u64) -> (r: Result<&R, Errno>)
        ensures
            match r {
                Ok(f) => self.handles().open_files().contains_key(fh) && *f
                    == self.handles().open_files()[fh],
                Err(e) => !self.handles().open_files().contains_key(fh) && e == Errno::NotFound,
            },
    {
        self.files.get(fh)
    }

    /// Closes handle `fh`, handing back its file; `NotFound` for an unknown
    /// handle.
    pub fn release(&mut self, fh: u64) -> (r: Result<R, Errno>)
        requires
            old(self).wf(),
        ensures
            final(self).wf(),
            final(self).inodes() == old(self).inodes(),
            final(self).mount_path() == old(self).mount_path(),
            final(self).backing_path() == old(self).backing_path(),
            HandleTable::release_post(old(self).handles(), fh, r, final(self).handles()),
    {
        self.files.release(fh)
    }
}

/// A buffer of `size` zero bytes for a read.
pub fn read_buffer(size: u32) -> (r: Vec<u8>)
    ensures
        r@ == Seq::new(size as nat, |i: int| 0u8),
{
    let mut buf: Vec<u8> = Vec::new();
    let mut i: u32 = 0;
    while i < size
        invariant
            i <= size,
            buf@ == Seq::new(i as nat, |k: int| 0u8),
        decreases size - i,
    {
        buf.push(0u8);
        i = i + 1;
        assert(buf@ =~= Seq::new(i as nat, |k: int| 0u8));
    }
    buf
}

/// Finishes read: the filled buffer when the whole of it was read, and the
/// error otherwise; a short read is a failure.
pub fn read_reply(buf: Vec<u8>, outcome: Result<(), Option<i32>>) -> (r: Result<Vec<u8>, Errno>)
    ensures
        r == (match outcome {
            Ok(()) => Ok::<Vec<u8>, Errno>(buf),
            Err(raw) => Err(error_for(raw)),
        }),
{
    match outcome {
        Ok(()) => Ok(buf),
        Err(raw) => Err(os_error(raw)),
    }
}

/// Finishes write: the number of bytes written, as the kernel takes it, or
/// the error.
pub fn write_reply(outcome: Result<usize, Option<i32>>) -> (r: Result<u32, Errno>)
    ensures
        r == (match outcome {
            Ok(n) => Ok::<u32, Errno>(n as u32),
            Err(raw) => Err(error_for(raw)),
        }),
{
    match outcome {
        Ok(n) => Ok(n as u32),
        Err(raw) => Err(os_error(raw)),
    }
}

/// A directory read in progress: the listing of one directory and how far
/// the entries handed to the kernel in this read reach.
pub struct DirWalk {
    dir_ino: u64,
    dir_path: String,
    entries: Vec<Option<RawDirEntry>>,
    start: usize,
    next: usize,
}

impl DirWalk {
    /// The directory being read.
    pub closed spec fn dir_ino(&self) -> u64 {
        self.dir_ino
    }

    /// Its backing path.
    pub closed spec fn dir_path(&self) -> Seq<char> {
        self.dir_path@
    }

    /// Its backing entries, in the order the backing store gave them.
    pub closed spec fn raw(&self) -> Seq<Option<RawDirEntry>> {
        self.entries@
    }

    /// Position in the listing where this read began.
    pub closed spec fn start(&self) -> int {
        self.start as int
    }

    /// Position in the listing of the next entry to hand out.
    pub closed spec fn position(&self) -> int {
        self.next as int
    }

    /// The whole listing, "." and ".." included.
    pub open spec fn slots(&self) -> Seq<Option<EntryView>> {
        listing(self.dir_ino(), self.raw())
    }

    /// The entries taken into the reply so far.
    pub open spec fn delivered(&self) -> Seq<Option<EntryView>> {
        self.slots().subrange(self.start(), self.position())
    }

    pub open spec fn wf(&self) -> bool {
        &&& 0 <= self.start() <= self.position() <= self.slots().len()
        &&& self.raw().len() + 2 <= usize::MAX
    }

    /// What a read that began at `cursor` has taken into its reply is the
    /// front of what was pending at that cursor.
    pub proof fn lemma_delivered_is_pending_prefix(&self, cursor: u64)
        requires
            self.wf(),
            self.start() == first_pending(cursor, self.raw().len() + 2int),
        ensures
            self.delivered().len() <= pending(self.dir_ino(), self.raw(), cursor).len(),
            self.delivered() == pending(self.dir_ino(), self.raw(), cursor).subrange(
                0,
                self.delivered().len() as int,
            ),
    {
        assert(self.delivered() =~= pending(self.dir_ino(), self.raw(), cursor).subrange(
            0,
            self.delivered().len() as int,
        ));
    }

    /// The entry at the current position, without moving on: `None` at the
    /// end of the listing, and `NotFound` for an entry that cannot be
    /// presented (unreadable, of an unserved kind, or with a name that is
    /// not text), which fails the whole read.
    pub fn next_entry(&self) -> (r: Result<Option<DirSlot>, Errno>)
        requires
            self.wf(),
        ensures
            self.position() == self.slots().len() ==> r matches Ok(None),
            self.position() < self.slots().len() ==> match self.slots()[self.position()] {
                Some(e) => r matches Ok(Some(s)) && s@ == e,
                None => r == Err::<Option<DirSlot>, Errno>(Errno::NotFound),
            },
    {
        let n = self.entries.len() + 2;
        let j = self.next;
        if j == n {
            return Ok(None);
        }
        if j == 0 {
            return Ok(Some(DirSlot { ino: self.dir_ino, offset: 0, kind: FileKind::Directory, name: String::from_str(".") }));
        }
        if j == 1 {
            return Ok(Some(DirSlot { ino: self.dir_ino, offset: 1, kind: FileKind::Directory, name: String::from_str("..") }));
        }
        match dir_from(&self.entries[j - 2]) {
            Some((ino, kind, name)) => Ok(Some(DirSlot { ino, offset: j as u64, kind, name })),
            None => Err(Errno::NotFound),
        }
    }
}

impl<R> S3HierarchicalFilesystem<R> {
    /// Begins a read of directory `ino` from `cursor`, the position of the
    /// last entry a previous read handed out (0 to start afresh), given the
    /// backing entries or `None` when the directory could not be listed.
    pub fn readdir_begin(
        &self,
        ino: u64,
        cursor: u64,
        entries: Option<Vec<Option<RawDirEntry>>>,
    ) -> (r: Result<DirWalk, Errno>)
        requires
            entries matches Some(v) ==> v.len() + 2 <= usize::MAX,
        ensures
            if !self.inodes().contains_key(ino) {
                r == Err::<DirWalk, Errno>(Errno::NotSupported)
            } else {
                match entries {
                    None => r == Err::<DirWalk, Errno>(Errno::NotFound),
                    Some(v) => r matches Ok(w) && {
                        &&& w.wf()
                        &&& w.dir_ino() == ino
                        &&& w.dir_path() == self.inodes()[ino]
                        &&& w.raw() == v@
                        &&& w.start() == first_pending(cursor, v.len() + 2)
                        &&& w.position() == w.start()
                    },
                }
            },
    {
        let dir_path = match self.node_path(ino) {
            Ok(p) => p,
            Err(e) => return Err(e),
        };
        let entries = match entries {
            Some(v) => v,
            None => return Err(Errno::NotFound),
        };
        let n = entries.len() + 2;
        let first: usize = if cursor == 0 {
            0
        } else if cursor < n as u64 {
            (cursor + 1) as usize
        } else {
            n
        };
        Ok(DirWalk { dir_ino: ino, dir_path, entries, start: first, next: first })
    }

    /// Records that the entry at the walk's position went into the reply:
    /// the walk moves past it, and a backing entry's inode is remembered at
    /// its path. Does nothing at the end of the listing or on an entry that
    /// cannot be presented.
    pub fn readdir_accept(&mut self, walk: &mut DirWalk)
        requires
            old(self).wf(),
            old(walk).wf(),
        ensures
            final(self).wf(),
            final(self).inodes()[ROOT_INO] == old(self).inodes()[ROOT_INO],
            final(walk).wf(),
            final(self).keeps_inodes_of(*old(self)),
            final(walk).dir_ino() == old(walk).dir_ino(),
            final(walk).dir_path() == old(walk).dir_path(),
            final(walk).raw() == old(walk).raw(),
            final(walk).start() == old(walk).start(),
            ({
                let pos = old(walk).position();
                let moved = pos < old(walk).slots().len() && old(walk).slots()[pos] is Some;
                if moved {
                    let e = old(walk).slots()[pos]->Some_0;
                    &&& final(walk).position() == pos + 1
                    &&& if e.offset >= 2 {
                        final(self).learned(
                            *old(self),
                            e.ino,
                            join_path(old(walk).dir_path(), e.name),
                        )
                    } else {
                        *final(self) == *old(self)
                    }
                } else {
                    final(walk).position() == pos && *final(self) == *old(self)
                }
            }),
    {
        let slot = match walk.next_entry() {
            Ok(Some(s)) => s,
            _ => return,
        };
        if slot.offset >= 2 {
            let path = join(walk.dir_path.as_str(), slot.name.as_str());
            self.learn(slot.ino, path);
        }
        walk.next = walk.next + 1;
    }

    /// Creating a file whose fresh metadata shows an empty regular file
    /// reports a regular file of size 0, and its inode then resolves to the
    /// new path, so a getattr on that inode reads that file.
    pub proof fn lemma_create_then_getattr(
        old: Self,
        path: Seq<char>,
        file: R,
        m: StatRecord,
        r: Result<CreateReply, Errno>,
        new: Self,
    )
        requires
            old.wf(),
            m.kind.is_file,
            m.size == 0,
            m.ino != ROOT_INO,
            old.handles().next_id() != u64::MAX,
            Self::create_outcome(old, path, file, Ok(m), r, new),
        ensures
            r matches Ok(rep) && {
                &&& rep.attr.kind == FileKind::RegularFile
                &&& rep.attr.size == 0
                &&& rep.attr.ino == m.ino
                &&& new.inodes().contains_key(rep.attr.ino)
                &&& new.inodes()[rep.attr.ino] == path
            },
    {
    }

    /// Successful opens, one after another, give pairwise distinct handle
    /// ids, none of them held by a file that was open before the first.
    pub proof fn lemma_opens_distinct(states: Seq<Self>, files: Seq<R>, ids: Seq<u64>)
        requires
            states.len() == ids.len() + 1,
            files.len() == ids.len(),
            states[0].wf(),
            forall|i: int|
                0 <= i < ids.len() ==> HandleTable::allocate_post(
                    #[trigger] states[i].handles(),
                    files[i],
                    Ok(ids[i]),
                    states[i + 1].handles(),
                ),
        ensures
            forall|i: int, j: int| 0 <= i < j < ids.len() ==> ids[i] != ids[j],
            forall|i: int|
                0 <= i < ids.len() ==> !states[0].handles().open_files().contains_key(
                    #[trigger] ids[i],
                ),
    {
        let tables = Seq::new(states.len(), |i: int| states[i].handles());
        assert forall|i: int| 0 <= i < ids.len() implies HandleTable::allocate_post(
            #[trigger] tables[i],
            files[i],
            Ok(ids[i]),
            tables[i + 1],
        ) by {
            assert(HandleTable::allocate_post(states[i].handles(), files[i], Ok(ids[i]), states[i + 1].handles()));
        }
        crate::handles::lemma_allocations_distinct(tables, files, ids);
    }

    /// An inode known now stays known: its path can be resolved at every
    /// later request, as long as each step keeps the inodes it knew.
    pub proof fn lemma_disclosed_stay_resolvable(states: Seq<Self>, ino: u64)
        requires
            states.len() >= 1,
            states[0].inodes().contains_key(ino),
            forall|k: int| 0 <= k < states.len() - 1 ==> #[trigger] states[k + 1].keeps_inodes_of(states[k]),
        ensures
            forall|k: int| 0 <= k < states.len() ==> #[trigger] states[k].inodes().contains_key(ino),
    {
        assert forall|k: int| 0 <= k < states.len() implies #[trigger] states[k].inodes().contains_key(ino) by {
            Self::lemma_known_at(states, ino, k);
        }
    }

    proof fn lemma_known_at(states: Seq<Self>, ino: u64, k: int)
        requires
            states.len() >= 1,
            states[0].inodes().contains_key(ino),
            forall|k: int| 0 <= k < states.len() - 1 ==> #[trigger] states[k + 1].keeps_inodes_of(states[k]),
            0 <= k < states.len(),
        ensures
            states[k].inodes().contains_key(ino),
        decreases k,
    {
        if k > 0 {
            Self::lemma_known_at(states, ino, k - 1);
            let j = k - 1;
            assert(states[j + 1].keeps_inodes_of(states[j]));
        }
    }
}

} // verus!
