//! The request and response bodies of the cache server's Cargo API.
use vstd::prelude::*;

verus! {

/// A file of a saved artifact: its content key, its path, its modification
/// time in nanoseconds since the Unix epoch, and whether it is executable.
#[derive(Debug, PartialEq, Eq, Clone)]
pub struct ArtifactFile {
    pub object_key: String,
    pub path: String,
    pub mtime_nanos: u128,
    pub executable: bool,
}

/// A request to save the artifacts of a library unit.
#[derive(Debug, PartialEq, Eq, Clone)]
pub struct CargoSaveRequest {
    pub package_name: String,
    pub package_version: String,
    pub target: String,
    pub library_crate_compilation_unit_hash: String,
    pub build_script_compilation_unit_hash: Option<String>,
    pub build_script_execution_unit_hash: Option<String>,
    pub content_hash: String,
    pub artifacts: Vec<ArtifactFile>,
}

/// A request to restore the artifacts of a library unit.
#[derive(Debug, PartialEq, Eq, Clone)]
pub struct CargoRestoreRequest {
    pub package_name: String,
    pub package_version: String,
    pub target: String,
    pub library_crate_compilation_unit_hash: String,
    pub build_script_compilation_unit_hash: Option<String>,
    pub build_script_execution_unit_hash: Option<String>,
}

/// The artifacts found for a restore request.
#[derive(Debug, PartialEq, Eq, Clone)]
pub struct CargoRestoreResponse {
    pub artifacts: Vec<ArtifactFile>,
}

} // verus!
