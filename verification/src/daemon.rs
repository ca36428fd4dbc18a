//! The daemon's upload API and the classification of the files it uploads.
use vstd::prelude::*;

use crate::cargo::cache::SaveProgress;
use crate::path::{path_components, AbsFilePath};
use crate::text::chars_eq_str;
use crate::text::chars_of;

verus! {

broadcast use vstd::string::group_string_axioms;

/// The answer to an upload request.
#[derive(Debug, Clone, Eq, PartialEq, Hash)]
pub struct CargoUploadResponse {
    pub ok: bool,
}

/// The state of an upload.
#[derive(Debug, Clone, Eq, PartialEq, Hash)]
pub enum CargoUploadStatus {
    InProgress(SaveProgress),
    Complete,
}

/// The answer to an upload status request: `None` for an unknown upload.
#[derive(Debug, Clone, Eq, PartialEq, Hash)]
pub struct CargoUploadStatusResponse {
    pub status: Option<CargoUploadStatus>,
}

/// The kinds of file whose content is rewritten before it is cached.
#[derive(Copy, Clone, Eq, PartialEq, Debug)]
pub enum CachedFileKind {
    /// `build/<dir>/output`: the output of a build script.
    BuildScriptOutput,
    /// `build/<dir>/root-output`: the output directory of a build script.
    RootOutput,
    /// A file whose extension is `d`: a dependency-info file.
    DepInfo,
}

/// Whether the extension of `name` (the text after its last `.`) is `d`;
/// that is the same as `name` ending with `.d`.
pub open spec fn has_d_extension(name: Seq<char>) -> bool {
    name.len() >= 2 && name[name.len() - 1] == 'd' && name[name.len() - 2] == '.'
}

/// The kind that a file `name` in `parent` in `grandparent` has, if any.
pub open spec fn window_kind(name: Seq<char>, grandparent: Seq<char>) -> Option<CachedFileKind> {
    if grandparent == "build"@ && name == "output"@ {
        Some(CachedFileKind::BuildScriptOutput)
    } else if grandparent == "build"@ && name == "root-output"@ {
        Some(CachedFileKind::RootOutput)
    } else if has_d_extension(name) {
        Some(CachedFileKind::DepInfo)
    } else {
        None
    }
}

/// The kind of a file with path components `cs`: windows of three
/// components are examined from the end of the path towards its start, and
/// the first that names a kind decides.
pub open spec fn file_kind(cs: Seq<Seq<char>>) -> Option<CachedFileKind>
    decreases cs.len(),
{
    if cs.len() < 3 {
        None
    } else {
        match window_kind(cs[cs.len() - 1], cs[cs.len() - 3]) {
            Some(k) => Some(k),
            None => file_kind(cs.drop_last()),
        }
    }
}

fn window_kind_exec(name: &str, grandparent: &str) -> (r: Option<CachedFileKind>)
    ensures
        r == window_kind(name@, grandparent@),
{
    let n = chars_of(name);
    let g = chars_of(grandparent);
    let in_build = chars_eq_str(g.as_slice(), "build");
    if in_build && chars_eq_str(n.as_slice(), "output") {
        Some(CachedFileKind::BuildScriptOutput)
    } else if in_build && chars_eq_str(n.as_slice(), "root-output") {
        Some(CachedFileKind::RootOutput)
    } else if n.len() >= 2 && n[n.len() - 1] == 'd' && n[n.len() - 2] == '.' {
        Some(CachedFileKind::DepInfo)
    } else {
        None
    }
}

/// The kind of a file with path components `components`.
pub fn classify_components(components: &[String]) -> (r: Option<CachedFileKind>)
    ensures
        r == file_kind(components@.map_values(|s: String| s@)),
{
    let ghost cs = components@.map_values(|s: String| s@);
    let mut end: usize = components.len();
    assert(cs.take(end as int) =~= cs);
    while end >= 3
        invariant
            cs == components@.map_values(|s: String| s@),
            end <= components@.len(),
            file_kind(cs) == file_kind(cs.take(end as int)),
        decreases end,
    {
        let ghost w = cs.take(end as int);
        assert(w[end - 1] == components@[end - 1]@);
        assert(w[end - 3] == components@[end - 3]@);
        match window_kind_exec(components[end - 1].as_str(), components[end - 3].as_str()) {
            Some(k) => {
                return Some(k);
            },
            None => {},
        }
        assert(w.drop_last() =~= cs.take(end - 1));
        end = end - 1;
    }
    None
}

/// The kind of the file at `path`, from its components as `std::path` splits
/// them.
pub fn classify_cache_file(path: &AbsFilePath) -> (r: Option<CachedFileKind>)
    ensures
        r == file_kind(path_components(path@)),
{
    let components = path.components();
    classify_components(components.as_slice())
}

} // verus!
