//! Path types tailored to `hurry`.
//!
//! A [`TypedPath`] carries, in its type, whether the path is absolute or
//! relative and whether it names a directory or a file. The text of a path
//! is UTF-8; the rules for absolute paths and for joining are those of Unix
//! paths, as the `std::path` documentation states them.
use vstd::prelude::*;

use std::marker::PhantomData;

use crate::text::has_prefix;

verus! {

broadcast use vstd::string::group_string_axioms;

/// Indicates an unknown value for this path base.
#[derive(Copy, Clone, Eq, PartialEq, Ord, PartialOrd, Hash, Debug)]
pub struct SomeBase;

/// Indicates an unknown value for this type of path.
#[derive(Copy, Clone, Eq, PartialEq, Ord, PartialOrd, Hash, Debug)]
pub struct SomeType;

/// An absolute path always begins from the absolute start of the filesystem
/// and describes every step through the filesystem to end up at the target.
#[derive(Copy, Clone, Eq, PartialEq, Ord, PartialOrd, Hash, Debug)]
pub struct Abs;

/// A relative path is a "partial" path; it describes a path starting from
/// an undefined point.
#[derive(Copy, Clone, Eq, PartialEq, Ord, PartialOrd, Hash, Debug)]
pub struct Rel;

/// A directory contains other file system entities.
#[derive(Copy, Clone, Eq, PartialEq, Ord, PartialOrd, Hash, Debug)]
pub struct Dir;

/// A file contains data.
#[derive(Copy, Clone, Eq, PartialEq, Ord, PartialOrd, Hash, Debug)]
pub struct File;

/// Errors for path conversions.
#[derive(Clone, PartialEq, Eq, Debug)]
pub enum Error {
    /// The path was not absolute.
    NotAbsolute(String),
    /// The path was not relative.
    NotRelative(String),
    /// The path was not a directory.
    NotDirectory(String),
    /// The path was not a file.
    NotFile(String),
    /// The path is not able to be made relative to another path.
    NotChild { parent: String, child: String },
}

/// A location on the file system according to the type modifiers.
#[derive(Eq, PartialEq, Ord, PartialOrd, Hash, Debug)]
pub struct TypedPath<Base, Type> {
    base: PhantomData<Base>,
    ty: PhantomData<Type>,
    inner: String,
}

impl<Base, Type> Clone for TypedPath<Base, Type> {
    fn clone(&self) -> (r: Self)
        ensures
            r@ == self@,
    {
        TypedPath::new(self.inner.clone())
    }
}

/// A relative file path.
pub type RelFilePath = TypedPath<Rel, File>;

/// A relative directory path.
pub type RelDirPath = TypedPath<Rel, Dir>;

/// An absolute file path.
pub type AbsFilePath = TypedPath<Abs, File>;

/// An absolute directory path.
pub type AbsDirPath = TypedPath<Abs, Dir>;

/// A path of unknown base and type.
pub type GenericPath = TypedPath<SomeBase, SomeType>;

impl<Base, Type> View for TypedPath<Base, Type> {
    type V = Seq<char>;

    closed spec fn view(&self) -> Seq<char> {
        self.inner@
    }
}

/// On Unix, a path is absolute when it begins with the root `/`.
pub open spec fn is_absolute_path(p: Seq<char>) -> bool {
    p.len() > 0 && p[0] == '/'
}

/// `base` extended by `p` (`PathBuf::push` on Unix): an absolute `p`
/// replaces `base`; otherwise `p` is appended, with a `/` between them when
/// `base` is not empty and does not already end with one.
pub open spec fn path_join(base: Seq<char>, p: Seq<char>) -> Seq<char> {
    if is_absolute_path(p) {
        p
    } else if base.len() == 0 || base.last() == '/' {
        base + p
    } else {
        base + seq!['/'] + p
    }
}

/// The parent of a path (`Path::parent`): the path without its final
/// component.
pub uninterp spec fn path_parent(p: Seq<char>) -> Option<Seq<char>>;

/// The components of a path (`Path::components`), each as text.
pub uninterp spec fn path_components(p: Seq<char>) -> Seq<Seq<char>>;

/// The parent of `p` by `std::path::Path::parent`.
///
/// The contract names the result `path_parent(p)`; the documentation of
/// `Path::parent` says that it returns `None` for the empty path and for a
/// path that is only the root, which the contract states too. What the parent
/// is otherwise follows the component rules of `std::path` and is not stated.
#[verifier::external_body]
fn std_path_parent(p: &str) -> (r: Option<String>)
    ensures
        r matches Some(q) ==> path_parent(p@) == Some(q@),
        r is None ==> path_parent(p@) is None,
        p@.len() == 0 ==> r is None,
        p@ == seq!['/'] ==> r is None,
{
    std::path::Path::new(p).parent().map(|q| q.to_string_lossy().into_owned())
}

/// The standard library's owned path type, carried through unchanged.
#[verifier::external_type_specification]
#[verifier::external_body]
pub struct ExStdPathBuf(std::path::PathBuf);

/// The text of `p` as a `std::path::PathBuf` (`PathBuf::from`); Verus sees
/// nothing of the result.
#[verifier::external_body]
fn std_path_of(p: &str) -> std::path::PathBuf {
    std::path::PathBuf::from(p)
}

/// What `Path::strip_prefix` gives for the path `p` and the base `base`.
pub uninterp spec fn path_strip_prefix(p: Seq<char>, base: Seq<char>) -> Option<Seq<char>>;

/// Whether the components `a` are the first components of `b`
/// (`Path::starts_with`, which considers whole components only).
pub open spec fn components_prefix(a: Seq<Seq<char>>, b: Seq<Seq<char>>) -> bool {
    a.len() <= b.len() && b.subrange(0, a.len() as int) == a
}

/// `p` without its leading components `base`, by
/// `std::path::Path::strip_prefix`, converted to text.
///
/// The contract names the result `path_strip_prefix(p, base)` and states
/// what the documentation of `Path::strip_prefix` says: it fails exactly when
/// `base` is not a prefix of `p` by whole components (`Path::starts_with`),
/// and the path it returns, joined onto `base`, yields `p` (paths are equal
/// when their components are). The component rules themselves are not
/// stated.
#[verifier::external_body]
fn std_path_strip_prefix(p: &str, base: &str) -> (r: Option<String>)
    ensures
        r matches Some(q) ==> path_strip_prefix(p@, base@) == Some(q@),
        r is None ==> path_strip_prefix(p@, base@) is None,
        r is Some <==> components_prefix(path_components(base@), path_components(p@)),
        r matches Some(q) ==> path_components(path_join(base@, q@)) == path_components(p@),
{
    std::path::Path::new(p).strip_prefix(base).ok().map(|q| q.to_string_lossy().into_owned())
}

/// The components of `p` by `std::path::Path::components`, each converted to
/// text.
///
/// The contract names the result `path_components(p)`; the rules by which
/// `std::path` splits a path into components are not stated.
#[verifier::external_body]
fn std_path_components(p: &str) -> (r: Vec<String>)
    ensures
        r@.map_values(|s: String| s@) == path_components(p@),
{
    std::path::Path::new(p).components().map(|c| c.as_os_str().to_string_lossy().into_owned()).collect()
}

impl<Base, Type> TypedPath<Base, Type> {
    /// Make a typed path from its text, without checking the file system.
    pub fn new(inner: String) -> (r: Self)
        ensures
            r@ == inner@,
    {
        TypedPath { base: PhantomData, ty: PhantomData, inner }
    }

    /// The path as a standard path, with the same text.
    pub fn as_std_path(&self) -> std::path::PathBuf {
        std_path_of(self.inner.as_str())
    }

    /// The text of the path.
    pub fn as_str(&self) -> (r: &str)
        ensures
            r@ == self@,
    {
        self.inner.as_str()
    }

    /// Get the parent of the provided path, if one exists.
    pub fn parent(&self) -> (r: Option<TypedPath<Base, Dir>>)
        ensures
            match r {
                Some(q) => path_parent(self@) == Some(q@),
                None => path_parent(self@) is None,
            },
            self@.len() == 0 ==> r is None,
            self@ == seq!['/'] ==> r is None,
    {
        match std_path_parent(self.inner.as_str()) {
            Some(q) => Some(TypedPath::new(q)),
            None => None,
        }
    }

    /// The components of the path, each as text.
    pub fn components(&self) -> (r: Vec<String>)
        ensures
            r@.map_values(|s: String| s@) == path_components(self@),
    {
        std_path_components(self.inner.as_str())
    }
}

impl TypedPath<SomeBase, SomeType> {
    /// Whether the path is absolute (begins with `/`).
    pub fn is_absolute(&self) -> (r: bool)
        ensures
            r == is_absolute_path(self@),
    {
        let mut it = self.inner.as_str().chars();
        match it.next() {
            Some(c) => {
                proof {
                    assert(self@.len() > 0);
                }
                c == '/'
            },
            None => false,
        }
    }

    /// Whether the path is relative (does not begin with `/`).
    pub fn is_relative(&self) -> (r: bool)
        ensures
            r == !is_absolute_path(self@),
    {
        !self.is_absolute()
    }
}

fn join_text(base: &str, p: &str) -> (r: String)
    ensures
        r@ == path_join(base@, p@),
{
    let bs = crate::text::chars_of(base);
    let ps = crate::text::chars_of(p);
    if ps.len() > 0 && ps[0] == '/' {
        return p.to_owned();
    }
    let mut r = base.to_owned();
    if bs.len() > 0 && bs[bs.len() - 1] != '/' {
        crate::text::push_char(&mut r, '/');
    }
    crate::text::push_str(&mut r, p);
    r
}

/// Joins paths together, creating a different type.
pub trait JoinWith<Other> {
    type Output;

    /// Join `other` to `self`.
    fn join(&self, other: Other) -> Self::Output;
}

impl<'a, Type> JoinWith<&'a TypedPath<Rel, Type>> for TypedPath<Abs, Dir> {
    type Output = TypedPath<Abs, Type>;

    fn join(&self, other: &'a TypedPath<Rel, Type>) -> (r: TypedPath<Abs, Type>)
        ensures
            r@ == path_join(self@, other@),
    {
        TypedPath::new(join_text(self.inner.as_str(), other.inner.as_str()))
    }
}

impl<Type> TypedPath<Abs, Type> {
    /// The path relative to the directory `anchor`: the part of the path
    /// below it. Fails with [`Error::NotChild`] when the path is not under
    /// `anchor`.
    pub fn rel_to(&self, anchor: &TypedPath<Abs, Dir>) -> (r: Result<TypedPath<Rel, Type>, Error>)
        ensures
            r is Ok <==> components_prefix(path_components(anchor@), path_components(self@)),
            r matches Ok(q) ==> path_components(path_join(anchor@, q@)) == path_components(self@),
            match r {
                Ok(q) => path_strip_prefix(self@, anchor@) == Some(q@),
                Err(e) => path_strip_prefix(self@, anchor@) is None && (e matches Error::NotChild {
                    parent,
                    child,
                } && parent@ == anchor@ && child@ == self@),
            },
    {
        match std_path_strip_prefix(self.inner.as_str(), anchor.inner.as_str()) {
            Some(q) => Ok(TypedPath::new(q)),
            None => Err(Error::NotChild { parent: anchor.inner.clone(), child: self.inner.clone() }),
        }
    }
}

impl TypedPath<Rel, File> {
    /// Make the path absolute by joining it with the provided absolute base.
    pub fn abs(&self, anchor: &TypedPath<Abs, Dir>) -> (r: TypedPath<Abs, File>)
        ensures
            r@ == path_join(anchor@, self@),
    {
        TypedPath::new(join_text(anchor.inner.as_str(), self.inner.as_str()))
    }
}

impl TypedPath<Rel, Dir> {
    /// Make the path absolute by joining it with the provided absolute base.
    pub fn abs(&self, anchor: &TypedPath<Abs, Dir>) -> (r: TypedPath<Abs, Dir>)
        ensures
            r@ == path_join(anchor@, self@),
    {
        TypedPath::new(join_text(anchor.inner.as_str(), self.inner.as_str()))
    }
}

/// Shared functionality for known typed paths: their text.
pub trait TypedPathLike {
    /// The text of the path.
    fn as_path(&self) -> &str;
}

/// Functionality for known absolute paths: their text.
pub trait AbsPathLike {
    /// The text of the absolute path.
    spec fn abs_path_text(&self) -> Seq<char>;

    /// The text of the path.
    fn as_path(&self) -> (r: &str)
        ensures
            r@ == self.abs_path_text(),
    ;
}

/// Functionality for known relative paths: their text.
pub trait RelPathLike {
    /// The text of the relative path.
    spec fn rel_path_text(&self) -> Seq<char>;

    /// The text of the path.
    fn as_path(&self) -> (r: &str)
        ensures
            r@ == self.rel_path_text(),
    ;
}

impl<Base, Type> TypedPathLike for TypedPath<Base, Type> {
    fn as_path(&self) -> (r: &str)
        ensures
            r@ == self@,
    {
        self.inner.as_str()
    }
}

impl<Type> AbsPathLike for TypedPath<Abs, Type> {
    open spec fn abs_path_text(&self) -> Seq<char> {
        self@
    }

    fn as_path(&self) -> &str {
        self.inner.as_str()
    }
}

impl<Type> RelPathLike for TypedPath<Rel, Type> {
    open spec fn rel_path_text(&self) -> Seq<char> {
        self@
    }

    fn as_path(&self) -> &str {
        self.inner.as_str()
    }
}

/// Joining a relative path that does not begin with `/` to a directory puts
/// it after the directory, and joining to the empty path gives the path
/// itself.
pub proof fn lemma_join_relative(base: Seq<char>, p: Seq<char>)
    requires
        !is_absolute_path(p),
    ensures
        has_prefix(path_join(base, p), base),
        path_join(seq![], p) == p,
{
    let j = path_join(base, p);
    assert(j.subrange(0, base.len() as int) =~= base);
    assert(seq![] + p =~= p);
}

} // verus!
