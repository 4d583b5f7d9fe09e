use vstd::prelude::*;
use vstd::string::*;

use crate::errno::Errno;

verus! {

broadcast use vstd::std_specs::hash::group_hash_axioms;

/// The inode number the kernel uses for the root of the mount.
pub const ROOT_INO: u64 = 1;

/// `name` appended to directory path `dir`, as a path join does it: a
/// separator goes between them unless `dir` is empty or already ends in one,
/// and an absolute `name` stands alone.
pub open spec fn join_path(dir: Seq<char>, name: Seq<char>) -> Seq<char> {
    if name.len() > 0 && name[0] == '/' {
        name
    } else if dir.len() == 0 || dir.last() == '/' {
        dir + name
    } else {
        dir + seq!['/'] + name
    }
}

/// Joins a directory path and an entry name.
pub fn join(dir: &str, name: &str) -> (r: String)
    ensures
        r@ == join_path(dir@, name@),
{
    let name_len = name.unicode_len();
    if name_len > 0 && name.get_char(0) == '/' {
        return name.to_owned();
    }
    let dir_len = dir.unicode_len();
    let mut path = dir.to_owned();
    if dir_len == 0 || dir.get_char(dir_len - 1) == '/' {
        path.append(name);
    } else {
        proof {
            reveal_strlit("/");
        }
        assert("/"@ =~= seq!['/']);
        path.append("/");
        path.append(name);
    }
    path
}

/// The mapping from kernel inode numbers to backing paths.
///
/// Entries are added as the kernel learns of nodes and are never removed.
pub struct InodeCache {
    paths: std::collections::HashMap<u64, String>,
}

impl View for InodeCache {
    type V = Map<u64, Seq<char>>;

    closed spec fn view(&self) -> Map<u64, Seq<char>> {
        self.paths@.map_values(|p: String| p@)
    }
}

impl InodeCache {
    /// A cache that knows only the root, at `root_path`.
    pub fn new(root_path: &str) -> (r: InodeCache)
        ensures
            r@ == map![ROOT_INO => root_path@],
    {
        let mut paths = std::collections::HashMap::new();
        paths.insert(ROOT_INO, root_path.to_owned());
        let r = InodeCache { paths };
        assert(r@ =~= map![ROOT_INO => root_path@]);
        r
    }

    /// The path of `ino`, or `NotFound` if the kernel was never told of it.
    pub fn resolve(&self, ino: u64) -> (r: Result<String, Errno>)
        ensures
            match r {
                Ok(p) => self@.contains_key(ino) && p@ == self@[ino],
                Err(e) => !self@.contains_key(ino) && e == Errno::NotFound,
            },
    {
        match self.paths.get(&ino) {
            Some(p) => Ok(p.clone()),
            None => Err(Errno::NotFound),
        }
    }

    /// Records that `ino` is found at `path`, replacing what was known of it.
    pub fn remember(&mut self, ino: u64, path: String)
        ensures
            final(self)@ == old(self)@.insert(ino, path@),
    {
        self.paths.insert(ino, path);
        assert(self@ =~= old(self)@.insert(ino, path@));
    }
}

} // verus!
