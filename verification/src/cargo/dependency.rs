//! Cargo dependencies and their cache keys.
use vstd::prelude::*;

use crate::hash::{blake3_digest, encode_fields, fields_fit, fields_view, lemma_encode_fields_injective, Blake3};
use vstd::utf8::encode_utf8;

verus! {

broadcast use vstd::string::group_string_axioms;

/// A Cargo dependency.
///
/// This isn't the full set of information about a dependency, but it's enough
/// to identify it uniquely within a workspace for the purposes of caching.
/// Each field is part of the dependency's cache key.
#[derive(Clone, Eq, PartialEq, Ord, PartialOrd, Hash, Debug)]
pub struct Dependency {
    /// The name of the dependency.
    pub name: String,
    /// The version of the dependency.
    pub version: String,
    /// The checksum of the dependency.
    pub checksum: String,
    /// The target triple for which the dependency is being or has been
    /// built, such as `x86_64-unknown-linux-gnu`.
    pub target: String,
}

/// The cache key of a dependency: the hash of its name, version, checksum
/// and target, in that order, each preceded by its length (see
/// [`encode_fields`]).
pub open spec fn dependency_key(
    name: Seq<u8>,
    version: Seq<u8>,
    checksum: Seq<u8>,
    target: Seq<u8>,
) -> Seq<u8> {
    blake3_digest(encode_fields(seq![name, version, checksum, target]))
}

/// Different dependencies are hashed from different inputs: two tuples of
/// name, version, checksum and target give the same input to the hash only
/// when they are the same tuple (so their keys differ unless BLAKE3
/// collides).
pub proof fn lemma_dependency_key_inputs_distinct(
    a: (Seq<u8>, Seq<u8>, Seq<u8>, Seq<u8>),
    b: (Seq<u8>, Seq<u8>, Seq<u8>, Seq<u8>),
)
    requires
        a.0.len() <= u64::MAX && a.1.len() <= u64::MAX && a.2.len() <= u64::MAX && a.3.len() <= u64::MAX,
        b.0.len() <= u64::MAX && b.1.len() <= u64::MAX && b.2.len() <= u64::MAX && b.3.len() <= u64::MAX,
        a != b,
    ensures
        encode_fields(seq![a.0, a.1, a.2, a.3]) != encode_fields(seq![b.0, b.1, b.2, b.3]),
{
    let fa = seq![a.0, a.1, a.2, a.3];
    let fb = seq![b.0, b.1, b.2, b.3];
    if encode_fields(fa) == encode_fields(fb) {
        assert(fields_fit(fa)) by {
            assert forall|i: int| 0 <= i < fa.len() implies #[trigger] fa[i].len() <= u64::MAX by {}
        }
        assert(fields_fit(fb)) by {
            assert forall|i: int| 0 <= i < fb.len() implies #[trigger] fb[i].len() <= u64::MAX by {}
        }
        lemma_encode_fields_injective(fa, fb);
        assert(fa[0] == fb[0] && fa[1] == fb[1] && fa[2] == fb[2] && fa[3] == fb[3]);
    }
}

impl Dependency {
    /// Make a dependency from its parts.
    pub fn new(name: &str, version: &str, checksum: &str, target: &str) -> (r: Dependency)
        ensures
            r.name@ == name@,
            r.version@ == version@,
            r.checksum@ == checksum@,
            r.target@ == target@,
    {
        Dependency {
            name: name.to_owned(),
            version: version.to_owned(),
            checksum: checksum.to_owned(),
            target: target.to_owned(),
        }
    }

    /// Hash key for the dependency.
    pub fn key(&self) -> (r: Blake3)
        ensures
            r@ == dependency_key(
                encode_utf8(self.name@),
                encode_utf8(self.version@),
                encode_utf8(self.checksum@),
                encode_utf8(self.target@),
            ),
    {
        Dependency::key_for(
            self.name.as_str().as_bytes(),
            self.version.as_str().as_bytes(),
            self.checksum.as_str().as_bytes(),
            self.target.as_str().as_bytes(),
        )
    }

    /// A hash key for all the fields of a dependency without having to make a
    /// dependency.
    pub fn key_for(name: &[u8], version: &[u8], checksum: &[u8], target: &[u8]) -> (r: Blake3)
        ensures
            r@ == dependency_key(name@, version@, checksum@, target@),
    {
        let fields: [&[u8]; 4] = [name, version, checksum, target];
        let r = Blake3::from_fields(&fields);
        proof {
            assert(fields_view(fields@) =~= seq![name@, version@, checksum@, target@]);
        }
        r
    }
}

} // verus!
