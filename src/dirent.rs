use vstd::prelude::*;

use crate::attr::{filetype_tryfrom, kind_of, BackingType, FileKind};

verus! {

/// One entry of a backing directory listing, as plain values.
///
/// `kind` is `None` when the entry's type could not be read, and `name` is
/// `None` when the name is not valid text.
#[derive(Debug)]
pub struct RawDirEntry {
    pub ino: u64,
    pub kind: Option<BackingType>,
    pub name: Option<String>,
}

/// An entry as it is handed to the kernel: inode, position in the listing,
/// kind and name.
#[derive(Debug)]
pub struct DirSlot {
    pub ino: u64,
    pub offset: u64,
    pub kind: FileKind,
    pub name: String,
}

/// The view of a `DirSlot`.
pub struct EntryView {
    pub ino: u64,
    pub offset: u64,
    pub kind: FileKind,
    pub name: Seq<char>,
}

impl View for DirSlot {
    type V = EntryView;

    open spec fn view(&self) -> EntryView {
        EntryView { ino: self.ino, offset: self.offset, kind: self.kind, name: self.name@ }
    }
}

/// Inode, kind and name of a readable entry of a supported kind.
pub open spec fn dir_item(entry: Option<RawDirEntry>) -> Option<(u64, FileKind, Seq<char>)> {
    match entry {
        Some(e) => match (e.kind, e.name) {
            (Some(t), Some(n)) => match kind_of(t) {
                Some(k) => Some((e.ino, k, n@)),
                None => None,
            },
            _ => None,
        },
        None => None,
    }
}

/// Maps a listing entry to inode, kind and name; `None` when the entry,
/// its type or its name cannot be read, or its kind is not served.
pub fn dir_from(entry: &Option<RawDirEntry>) -> (r: Option<(u64, FileKind, String)>)
    ensures
        match r {
            Some((ino, k, n)) => dir_item(*entry) == Some((ino, k, n@)),
            None => dir_item(*entry) is None,
        },
{
    match entry {
        Some(e) => match (&e.kind, &e.name) {
            (Some(t), Some(n)) => match filetype_tryfrom(t) {
                Ok(k) => Some((e.ino, k, n.clone())),
                Err(_) => None,
            },
            _ => None,
        },
        None => None,
    }
}

/// The "." entry of directory `dir_ino`, at position 0.
pub open spec fn dot_entry(dir_ino: u64) -> EntryView {
    EntryView { ino: dir_ino, offset: 0, kind: FileKind::Directory, name: "."@ }
}

/// The ".." entry of directory `dir_ino`, at position 1.
pub open spec fn dotdot_entry(dir_ino: u64) -> EntryView {
    EntryView { ino: dir_ino, offset: 1, kind: FileKind::Directory, name: ".."@ }
}

/// The whole listing of directory `dir_ino` whose backing entries are
/// `raw`: "." and "..", then each backing entry at its position plus two.
/// An entry that cannot be presented is `None`.
pub open spec fn listing(dir_ino: u64, raw: Seq<Option<RawDirEntry>>) -> Seq<Option<EntryView>> {
    Seq::new(
        (raw.len() + 2) as nat,
        |j: int|
            if j == 0 {
                Some(dot_entry(dir_ino))
            } else if j == 1 {
                Some(dotdot_entry(dir_ino))
            } else {
                match dir_item(raw[j - 2]) {
                    Some((ino, k, n)) => Some(
                        EntryView { ino: ino, offset: j as u64, kind: k, name: n },
                    ),
                    None => None,
                }
            },
    )
}

/// Position in a listing of `len` entries of the first entry that a read
/// from `cursor` returns: from the start for cursor 0, else just past the
/// entry at the cursor.
pub open spec fn first_pending(cursor: u64, len: int) -> int {
    if cursor == 0 {
        0
    } else if cursor + 1 <= len {
        cursor + 1
    } else {
        len
    }
}

/// What remains of the listing for a read that starts at `cursor`.
pub open spec fn pending(dir_ino: u64, raw: Seq<Option<RawDirEntry>>, cursor: u64) -> Seq<
    Option<EntryView>,
> {
    let all = listing(dir_ino, raw);
    all.subrange(first_pending(cursor, all.len() as int), all.len() as int)
}

/// `reply` is not empty and its last entry stands at position `cursor`.
pub open spec fn ends_at(reply: Seq<Option<EntryView>>, cursor: u64) -> bool {
    &&& reply.len() >= 1
    &&& match reply.last() {
        Some(e) => e.offset == cursor,
        None => false,
    }
}

proof fn lemma_continuation_prefix(
    dir_ino: u64,
    raw: Seq<Option<RawDirEntry>>,
    replies: Seq<Seq<Option<EntryView>>>,
    cursors: Seq<u64>,
    k: int,
)
    requires
        raw.len() + 2 <= u64::MAX,
        cursors.len() == replies.len(),
        cursors[0] == 0,
        forall|i: int|
            0 <= i < replies.len() ==> #[trigger] replies[i].len() <= pending(
                dir_ino,
                raw,
                cursors[i],
            ).len() && replies[i] == pending(dir_ino, raw, cursors[i]).subrange(
                0,
                replies[i].len() as int,
            ),
        forall|i: int|
            0 <= i < replies.len() - 1 ==> ends_at(#[trigger] replies[i], cursors[i + 1]),
        replies.len() > 1 ==> replies[0].len() >= 2,
        0 <= k < replies.len(),
    ensures
        replies.take(k).flatten() == listing(dir_ino, raw).subrange(
            0,
            first_pending(cursors[k], raw.len() + 2int),
        ),
        k > 0 ==> first_pending(cursors[k], raw.len() + 2int) >= 2,
    decreases k,
{
    let all = listing(dir_ino, raw);
    let n = raw.len() + 2int;
    if k == 0 {
        assert(replies.take(0) =~= Seq::<Seq<Option<EntryView>>>::empty());
        assert(all.subrange(0, 0) =~= Seq::<Option<EntryView>>::empty());
    } else {
        lemma_continuation_prefix(dir_ino, raw, replies, cursors, k - 1);
        let s = first_pending(cursors[k - 1], n);
        let r = replies[k - 1];
        assert(r.len() <= pending(dir_ino, raw, cursors[k - 1]).len());
        assert(r == pending(dir_ino, raw, cursors[k - 1]).subrange(0, r.len() as int));
        assert(replies.take(k) =~= replies.take(k - 1).push(r));
        replies.take(k - 1).lemma_flatten_push(r);
        assert(r =~= all.subrange(s, s + r.len()));
        assert(all.subrange(0, s) + all.subrange(s, s + r.len()) =~= all.subrange(0, s + r.len()));
        assert(ends_at(r, cursors[k]));
        let last = s + r.len() - 1;
        assert(r.last() == all[last]);
        assert(cursors[k] == last);
        assert(s + r.len() >= 2);
        assert(first_pending(cursors[k], n) == s + r.len());
    }
}

/// Reading a directory again and again, each time from the position of the
/// last entry the previous read returned, starting at 0 and stopping at the
/// first empty read, returns every entry of the listing, "." and ".."
/// included, exactly once and in order. Each read may return any prefix of
/// what is pending, and is empty only when nothing is; the first read holds
/// at least "." and "..".
pub proof fn lemma_readdir_continuation(
    dir_ino: u64,
    raw: Seq<Option<RawDirEntry>>,
    replies: Seq<Seq<Option<EntryView>>>,
    cursors: Seq<u64>,
)
    requires
        raw.len() + 2 <= u64::MAX,
        replies.len() >= 1,
        cursors.len() == replies.len(),
        cursors[0] == 0,
        forall|i: int|
            0 <= i < replies.len() ==> #[trigger] replies[i].len() <= pending(
                dir_ino,
                raw,
                cursors[i],
            ).len() && replies[i] == pending(dir_ino, raw, cursors[i]).subrange(
                0,
                replies[i].len() as int,
            ),
        forall|i: int|
            0 <= i < replies.len() - 1 ==> ends_at(#[trigger] replies[i], cursors[i + 1]),
        replies.last().len() == 0,
        pending(dir_ino, raw, cursors.last()).len() == 0,
        replies.len() > 1 ==> replies[0].len() >= 2,
    ensures
        replies.flatten() == listing(dir_ino, raw),
{
    let k = replies.len() - 1;
    let n = raw.len() + 2int;
    lemma_continuation_prefix(dir_ino, raw, replies, cursors, k);
    assert(replies =~= replies.take(k).push(replies[k]));
    replies.take(k).lemma_flatten_push(replies[k]);
    assert(first_pending(cursors[k], n) == n);
    assert(listing(dir_ino, raw).subrange(0, n) =~= listing(dir_ino, raw));
    assert(replies[k] =~= Seq::<Option<EntryView>>::empty());
    assert(replies.take(k).flatten() + replies[k] =~= replies.take(k).flatten());
}

} // verus!
