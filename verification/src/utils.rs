//! What makes a file runnable.

use vstd::prelude::*;

verus! {

/// What the file system says of a path that exists.
#[derive(Debug, Clone, Copy, PartialEq, Eq)]
pub struct FileMeta {
    /// Whether the path names a regular file.
    pub is_file: bool,
    /// The permission bits, on a platform that has them.
    pub mode: Option<u32>,
}

/// The execute bits of owner, group and others.
pub const EXEC_BITS: u32 = 0o111;

/// Whether a path with this metadata can be run: it is a regular file and,
/// where the platform has permission bits, one of its execute bits is set.
/// A path without metadata does not exist and cannot be run.
pub open spec fn is_executable_spec(meta: Option<FileMeta>) -> bool {
    match meta {
        Some(m) => m.is_file && match m.mode {
            Some(bits) => bits & EXEC_BITS != 0,
            None => true,
        },
        None => false,
    }
}

/// Decides from a path's metadata whether it can be run.
pub fn is_executable(meta: Option<FileMeta>) -> (r: bool)
    ensures
        r == is_executable_spec(meta),
{
    match meta {
        Some(m) => {
            if !m.is_file {
                return false;
            }
            match m.mode {
                Some(bits) => bits & EXEC_BITS != 0,
                None => true,
            }
        },
        None => false,
    }
}

} // verus!
