//! File facts that the cache records.
use vstd::prelude::*;

use crate::hash::Blake3;

verus! {

/// The file metadata that is restored with a file: its modification time, in
/// nanoseconds since the Unix epoch, and whether it is executable.
#[derive(Clone, Copy, Eq, PartialEq, Ord, PartialOrd, Hash, Debug)]
pub struct Metadata {
    pub mtime_nanos: u128,
    pub executable: bool,
}

/// An entry for a file that was indexed.
#[derive(Clone, Copy, Eq, PartialEq, Hash, Debug)]
pub struct IndexEntry {
    /// The hash of the file's contents.
    pub hash: Blake3,
    /// Whether the file is executable.
    pub executable: bool,
}

impl IndexEntry {
    /// The entry of a file with the given content and executable bit.
    pub fn from_content(content: &[u8], executable: bool) -> (r: IndexEntry)
        ensures
            r.hash@ == crate::hash::blake3_digest(content@),
            r.executable == executable,
    {
        IndexEntry { hash: Blake3::from_buffer(content), executable }
    }
}

} // verus!
