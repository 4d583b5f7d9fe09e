use vstd::prelude::*;

use crate::errno::Errno;

verus! {

broadcast use vstd::std_specs::hash::group_hash_axioms;

/// Handle ids up to this value are never given out.
pub const RESERVED_HANDLES: u64 = 10;

/// Open resources by handle id.
///
/// Ids come from a counter that only grows, so an id is never given to two
/// resources, whatever was released in between.
pub struct HandleTable<R> {
    files: std::collections::HashMap<u64, R>,
    next: u64,
}

impl<R> HandleTable<R> {
    /// The open resources by handle id.
    pub closed spec fn open_files(&self) -> Map<u64, R> {
        self.files@
    }

    /// The id the next allocation gives out.
    pub closed spec fn next_id(&self) -> u64 {
        self.next
    }

    /// Every id in use lies above the reserved ones and below the counter.
    pub open spec fn wf(&self) -> bool {
        &&& RESERVED_HANDLES < self.next_id()
        &&& forall|h: u64| #[trigger]
            self.open_files().contains_key(h) ==> RESERVED_HANDLES < h < self.next_id()
    }

    /// `new` results from allocating `res` in `old`, with outcome `r`.
    pub open spec fn allocate_post(old: Self, res: R, r: Result<u64, R>, new: Self) -> bool {
        if old.next_id() == u64::MAX {
            &&& r == Err::<u64, R>(res)
            &&& new.open_files() == old.open_files()
            &&& new.next_id() == old.next_id()
        } else {
            &&& r == Ok::<u64, R>(old.next_id())
            &&& new.open_files() == old.open_files().insert(old.next_id(), res)
            &&& new.next_id() == old.next_id() + 1
        }
    }

    /// `new` results from releasing handle `h` in `old`, with outcome `r`.
    pub open spec fn release_post(old: Self, h: u64, r: Result<R, Errno>, new: Self) -> bool {
        &&& new.open_files() == old.open_files().remove(h)
        &&& new.next_id() == old.next_id()
        &&& r == (if old.open_files().contains_key(h) {
            Ok::<R, Errno>(old.open_files()[h])
        } else {
            Err::<R, Errno>(Errno::NotFound)
        })
    }

    /// An empty table.
    pub fn new() -> (r: Self)
        ensures
            r.wf(),
            r.open_files().is_empty(),
            r.next_id() == RESERVED_HANDLES + 1,
    {
        let r = HandleTable { files: std::collections::HashMap::new(), next: RESERVED_HANDLES + 1 };
        assert(r.open_files() =~= Map::empty());
        r
    }

    /// Stores `res` under a fresh id and returns the id; when the ids are
    /// used up, hands `res` back.
    pub fn allocate(&mut self, res: R) -> (r: Result<u64, R>)
        requires
            old(self).wf(),
        ensures
            final(self).wf(),
            Self::allocate_post(*old(self), res, r, *final(self)),
            r matches Ok(h) ==> !old(self).open_files().contains_key(h),
    {
        if self.next == u64::MAX {
            return Err(res);
        }
        let h = self.next;
        self.files.insert(h, res);
        self.next = h + 1;
        assert forall|k: u64| #[trigger] self.open_files().contains_key(k) implies RESERVED_HANDLES
            < k < self.next_id() by {
            if k != h {
                assert(old(self).open_files().contains_key(k));
            }
        }
        Ok(h)
    }

    /// Whether the ids are used up, so that `allocate` would fail.
    pub fn is_full(&self) -> (r: bool)
        ensures
            r == (self.next_id() == u64::MAX),
    {
        self.next == u64::MAX
    }

    /// The resource open under `h`.
    pub fn get(&self, h: u64) -> (r: Result<&R, Errno>)
        ensures
            match r {
                Ok(f) => self.open_files().contains_key(h) && *f == self.open_files()[h],
                Err(e) => !self.open_files().contains_key(h) && e == Errno::NotFound,
            },
    {
        match self.files.get(&h) {
            Some(f) => Ok(f),
            None => Err(Errno::NotFound),
        }
    }

    /// Removes and returns the resource open under `h`.
    pub fn release(&mut self, h: u64) -> (r: Result<R, Errno>)
        requires
            old(self).wf(),
        ensures
            final(self).wf(),
            Self::release_post(*old(self), h, r, *final(self)),
    {
        let r = match self.files.remove(&h) {
            Some(f) => Ok(f),
            None => Err(Errno::NotFound),
        };
        assert forall|k: u64| #[trigger] self.open_files().contains_key(k) implies RESERVED_HANDLES
            < k < self.next_id() by {
            assert(old(self).open_files().contains_key(k));
        }
        r
    }
}

/// Releasing the id that an allocation gave out hands back exactly the
/// resource that was stored and leaves the table as it was before the
/// allocation; releasing the same id again fails with `NotFound`.
pub proof fn lemma_release_undoes_allocate<R>(
    t0: HandleTable<R>,
    res: R,
    h: u64,
    t1: HandleTable<R>,
    r2: Result<R, Errno>,
    t2: HandleTable<R>,
    r3: Result<R, Errno>,
    t3: HandleTable<R>,
)
    requires
        t0.wf(),
        HandleTable::allocate_post(t0, res, Ok(h), t1),
        HandleTable::release_post(t1, h, r2, t2),
        HandleTable::release_post(t2, h, r3, t3),
    ensures
        r2 == Ok::<R, Errno>(res),
        t2.open_files() == t0.open_files(),
        r3 == Err::<R, Errno>(Errno::NotFound),
        t3.open_files() == t0.open_files(),
{
    assert(!t0.open_files().contains_key(h));
    assert(t2.open_files() =~= t0.open_files());
    assert(t3.open_files() =~= t0.open_files());
}

proof fn lemma_allocation_ids<R>(tables: Seq<HandleTable<R>>, resources: Seq<R>, ids: Seq<u64>, k: int)
    requires
        tables.len() == ids.len() + 1,
        resources.len() == ids.len(),
        forall|i: int|
            0 <= i < ids.len() ==> HandleTable::allocate_post(
                #[trigger] tables[i],
                resources[i],
                Ok(ids[i]),
                tables[i + 1],
            ),
        0 <= k <= ids.len(),
    ensures
        tables[k].next_id() == tables[0].next_id() + k,
        k < ids.len() ==> ids[k] == tables[0].next_id() + k,
    decreases k,
{
    if k > 0 {
        lemma_allocation_ids(tables, resources, ids, k - 1);
        assert(HandleTable::allocate_post(tables[k - 1], resources[k - 1], Ok(ids[k - 1]), tables[k]));
    }
    if k < ids.len() {
        assert(HandleTable::allocate_post(tables[k], resources[k], Ok(ids[k]), tables[k + 1]));
    }
}

/// Successive successful allocations give out pairwise distinct ids, none
/// of them in use before the first: two opens never share a handle.
pub proof fn lemma_allocations_distinct<R>(
    tables: Seq<HandleTable<R>>,
    resources: Seq<R>,
    ids: Seq<u64>,
)
    requires
        tables.len() == ids.len() + 1,
        resources.len() == ids.len(),
        forall|i: int|
            0 <= i < ids.len() ==> HandleTable::allocate_post(
                #[trigger] tables[i],
                resources[i],
                Ok(ids[i]),
                tables[i + 1],
            ),
    ensures
        forall|i: int, j: int| 0 <= i < j < ids.len() ==> ids[i] != ids[j],
        tables[0].wf() ==> forall|i: int|
            0 <= i < ids.len() ==> !tables[0].open_files().contains_key(#[trigger] ids[i]),
{
    assert forall|i: int, j: int| 0 <= i < j < ids.len() implies ids[i] != ids[j] by {
        lemma_allocation_ids(tables, resources, ids, i);
        lemma_allocation_ids(tables, resources, ids, j);
    }
    assert forall|i: int| 0 <= i < ids.len() && tables[0].wf() implies !tables[0].open_files().contains_key(
        #[trigger] ids[i],
    ) by {
        lemma_allocation_ids(tables, resources, ids, i);
    }
}

} // verus!
