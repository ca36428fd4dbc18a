//! Records of cached artifacts.
use vstd::prelude::*;

use crate::fs::Metadata;
use crate::hash::Blake3;
use crate::path::RelFilePath;

verus! {

/// The kind of project represented by a cache [`Record`].
#[derive(Copy, Clone, Eq, PartialEq, Ord, PartialOrd, Hash, Debug)]
pub enum RecordKind {
    /// A Rust project managed by Cargo.
    Cargo,
}

impl RecordKind {
    /// The name of the kind.
    pub fn as_str(&self) -> (r: &'static str)
        ensures
            r@ == "cargo"@,
    {
        match self {
            RecordKind::Cargo => "cargo",
        }
    }
}

/// A record of artifacts in the cache for a given key.
#[derive(Clone, Debug)]
pub struct Record {
    /// The kind of project being cached.
    pub kind: RecordKind,
    /// The cache key for this record.
    pub key: Blake3,
    /// The artifacts in this record.
    pub artifacts: Vec<RecordArtifact>,
}

/// A recorded artifact in a cache [`Record`].
#[derive(Clone, Debug)]
pub struct RecordArtifact {
    /// The path, relative to the cache root of the project, from which the
    /// artifact was backed up and to which it is restored.
    pub target: RelFilePath,
    /// The CAS key for the content of the artifact.
    pub cas_key: Blake3,
    /// The file metadata of the artifact.
    pub metadata: Metadata,
}

impl Record {
    /// A record of the given kind and key, with no artifacts.
    pub fn new(kind: RecordKind, key: Blake3) -> (r: Record)
        ensures
            r.kind == kind,
            r.key == key,
            r.artifacts@.len() == 0,
    {
        Record { kind, key, artifacts: Vec::new() }
    }
}

} // verus!
