use vstd::prelude::*;

verus! {

/// The failure that an operation reports back to the kernel.
#[derive(Debug, Clone, Copy, PartialEq, Eq, Structural)]
pub enum Errno {
    /// The entry, inode or handle is not known ("entry not found").
    NotFound,
    /// The request names something the driver cannot serve ("operation not supported").
    NotSupported,
    /// No handle id is left to give to a newly opened file.
    TooManyOpen,
    /// A raw error number reported by the backing filesystem.
    Os(i32),
}

/// The error for a failed backing call: its OS error number when there is
/// one, and "not found" otherwise.
pub open spec fn error_for(raw: Option<i32>) -> Errno {
    match raw {
        Some(c) => Errno::Os(c),
        None => Errno::NotFound,
    }
}

/// Translates the raw OS error code of a failed backing call.
pub fn os_error(raw: Option<i32>) -> (r: Errno)
    ensures
        r == error_for(raw),
{
    match raw {
        Some(c) => Errno::Os(c),
        None => Errno::NotFound,
    }
}

} // verus!
