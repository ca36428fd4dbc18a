//! Paths qualified by the root they live under.
//!
//! Build outputs record absolute paths, which are not portable between
//! projects or machines. A [`QualifiedPath`] records such a path relative to
//! the directory it was found under (the profile directory of the target
//! directory, or `$CARGO_HOME`), so that it can be rebuilt under the
//! corresponding directory of another build.
use vstd::prelude::*;

use crate::text::{has_prefix, push_str, slice_range, starts_with_chars, chars_of, string_from_chars};

verus! {

/// The directories that paths of a build are qualified against.
#[derive(Clone, PartialEq, Eq, Debug)]
pub struct ProfileDir {
    /// The profile directory of the target directory (e.g. `target/debug`).
    pub root: String,
    /// The `$CARGO_HOME` directory.
    pub cargo_home: String,
}

/// The model of a [`ProfileDir`].
pub struct ProfileDirView {
    pub root: Seq<char>,
    pub cargo_home: Seq<char>,
}

impl View for ProfileDir {
    type V = ProfileDirView;

    open spec fn view(&self) -> ProfileDirView {
        ProfileDirView { root: self.root@, cargo_home: self.cargo_home@ }
    }
}

/// A path, qualified by the root it lives under.
#[derive(Clone, PartialEq, Eq, Debug)]
pub enum QualifiedPath {
    /// A path that is not absolute, kept as written.
    Rootless(String),
    /// A path under the profile directory, relative to it.
    RelativeTargetProfile(String),
    /// A path under `$CARGO_HOME`, relative to it.
    RelativeCargoHome(String),
    /// An absolute path under neither root, kept as written.
    Absolute(String),
}

/// The model of a [`QualifiedPath`].
pub enum QualifiedPathView {
    Rootless(Seq<char>),
    RelativeTargetProfile(Seq<char>),
    RelativeCargoHome(Seq<char>),
    Absolute(Seq<char>),
}

impl View for QualifiedPath {
    type V = QualifiedPathView;

    open spec fn view(&self) -> QualifiedPathView {
        match self {
            QualifiedPath::Rootless(s) => QualifiedPathView::Rootless(s@),
            QualifiedPath::RelativeTargetProfile(s) => QualifiedPathView::RelativeTargetProfile(s@),
            QualifiedPath::RelativeCargoHome(s) => QualifiedPathView::RelativeCargoHome(s@),
            QualifiedPath::Absolute(s) => QualifiedPathView::Absolute(s@),
        }
    }
}

/// `dir` followed by a path separator.
pub open spec fn dir_prefix(dir: Seq<char>) -> Seq<char> {
    dir.push('/')
}

/// The qualification of the path `s` against the directories of `profile`:
/// under the profile directory, else under `$CARGO_HOME`, else absolute or
/// rootless as written.
pub open spec fn qualify(profile: ProfileDirView, s: Seq<char>) -> QualifiedPathView {
    let rp = dir_prefix(profile.root);
    let cp = dir_prefix(profile.cargo_home);
    if has_prefix(s, rp) {
        QualifiedPathView::RelativeTargetProfile(s.subrange(rp.len() as int, s.len() as int))
    } else if has_prefix(s, cp) {
        QualifiedPathView::RelativeCargoHome(s.subrange(cp.len() as int, s.len() as int))
    } else if s.len() > 0 && s[0] == '/' {
        QualifiedPathView::Absolute(s)
    } else {
        QualifiedPathView::Rootless(s)
    }
}

/// The path that `q` names under the directories of `profile`.
pub open spec fn unqualify(profile: ProfileDirView, q: QualifiedPathView) -> Seq<char> {
    match q {
        QualifiedPathView::Rootless(s) => s,
        QualifiedPathView::RelativeTargetProfile(r) => dir_prefix(profile.root) + r,
        QualifiedPathView::RelativeCargoHome(r) => dir_prefix(profile.cargo_home) + r,
        QualifiedPathView::Absolute(s) => s,
    }
}

/// The length of `dir` followed by `/`, when `cs` begins with them.
fn strip_dir(cs: &[char], dir: &str) -> (r: Option<usize>)
    ensures
        match r {
            Some(n) => has_prefix(cs@, dir_prefix(dir@)) && n == dir_prefix(dir@).len(),
            None => !has_prefix(cs@, dir_prefix(dir@)),
        },
{
    let mut d = chars_of(dir);
    d.push('/');
    if starts_with_chars(cs, d.as_slice()) {
        Some(d.len())
    } else {
        None
    }
}

impl QualifiedPath {
    /// Qualify the path `s` against the directories of `profile`.
    pub fn parse(profile: &ProfileDir, s: &str) -> (r: QualifiedPath)
        ensures
            r@ == qualify(profile@, s@),
    {
        let cs = chars_of(s);
        QualifiedPath::parse_chars(profile, cs.as_slice())
    }

    /// Qualify the path spelled by `cs` against the directories of `profile`.
    pub fn parse_chars(profile: &ProfileDir, cs: &[char]) -> (r: QualifiedPath)
        ensures
            r@ == qualify(profile@, cs@),
    {
        if let Some(n) = strip_dir(cs, profile.root.as_str()) {
            QualifiedPath::RelativeTargetProfile(string_from_chars(slice_range(cs, n, cs.len()).as_slice()))
        } else if let Some(n) = strip_dir(cs, profile.cargo_home.as_str()) {
            QualifiedPath::RelativeCargoHome(string_from_chars(slice_range(cs, n, cs.len()).as_slice()))
        } else if cs.len() > 0 && cs[0] == '/' {
            QualifiedPath::Absolute(string_from_chars(cs))
        } else {
            QualifiedPath::Rootless(string_from_chars(cs))
        }
    }

    /// The path that this names under the directories of `profile`.
    pub fn reconstruct(&self, profile: &ProfileDir) -> (r: String)
        ensures
            r@ == unqualify(profile@, self@),
    {
        match self {
            QualifiedPath::Rootless(s) => s.clone(),
            QualifiedPath::Absolute(s) => s.clone(),
            QualifiedPath::RelativeTargetProfile(rel) => {
                let mut out = profile.root.clone();
                crate::text::push_char(&mut out, '/');
                push_str(&mut out, rel.as_str());
                out
            },
            QualifiedPath::RelativeCargoHome(rel) => {
                let mut out = profile.cargo_home.clone();
                crate::text::push_char(&mut out, '/');
                push_str(&mut out, rel.as_str());
                out
            },
        }
    }
}

/// Qualifying a path and rebuilding it under the same directories gives the
/// path back.
pub proof fn lemma_qualify_roundtrip(profile: ProfileDirView, s: Seq<char>)
    ensures
        unqualify(profile, qualify(profile, s)) == s,
{
    let rp = dir_prefix(profile.root);
    let cp = dir_prefix(profile.cargo_home);
    if has_prefix(s, rp) {
        assert(rp + s.subrange(rp.len() as int, s.len() as int) =~= s);
    } else if has_prefix(s, cp) {
        assert(cp + s.subrange(cp.len() as int, s.len() as int) =~= s);
    }
}

/// A path under the profile directory of one build is rebuilt under the
/// profile directory of another: the part below the directory is kept.
pub proof fn lemma_qualify_relocates(from: ProfileDirView, to: ProfileDirView, rel: Seq<char>)
    ensures
        unqualify(to, qualify(from, dir_prefix(from.root) + rel)) == dir_prefix(to.root) + rel,
{
    let s = dir_prefix(from.root) + rel;
    let rp = dir_prefix(from.root);
    assert(s.subrange(0, rp.len() as int) =~= rp);
    assert(s.subrange(rp.len() as int, s.len() as int) =~= rel);
}

} // verus!
