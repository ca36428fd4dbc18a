//! Rust compiler metadata for cache key generation.
use vstd::prelude::*;

use crate::text::{chars_of, contains_chars, has_infix};

verus! {

broadcast use vstd::string::group_string_axioms;

/// The target a unit is compiled for.
#[derive(Clone, Eq, PartialEq, Hash, Debug)]
pub enum RustcTarget {
    /// A target triple given with `--target`.
    Specified(String),
    /// No target was given: the unit is compiled for the host.
    ImplicitHost,
}

/// The target triple that a unit with target `target` is compiled for, on a
/// host whose triple is `host`.
pub open spec fn unit_arch(target: RustcTarget, host: Seq<char>) -> Seq<char> {
    match target {
        RustcTarget::Specified(t) => t@,
        RustcTarget::ImplicitHost => host,
    }
}

/// Whether code built for the target triple `triple` links against glibc:
/// a Linux target whose environment is GNU (`x86_64-unknown-linux-gnu`,
/// `arm-unknown-linux-gnueabihf`, ...).
pub open spec fn uses_glibc(triple: Seq<char>) -> bool {
    has_infix(triple, "-linux-gnu"@)
}

/// Whether a unit with target `target` is cross-compiled against glibc on a
/// host whose triple is `host`: its triple uses glibc and is not the host's.
/// Such units are not saved to the cache, which records the glibc version of
/// the host only.
pub open spec fn cross_glibc(target: RustcTarget, host: Seq<char>) -> bool {
    uses_glibc(unit_arch(target, host)) && unit_arch(target, host) != host
}

/// Whether code built for the target triple `triple` links against glibc.
pub fn triple_uses_glibc(triple: &str) -> (r: bool)
    ensures
        r == uses_glibc(triple@),
{
    let cs = chars_of(triple);
    let gnu = chars_of("-linux-gnu");
    contains_chars(cs.as_slice(), gnu.as_slice())
}

/// Whether a unit with target `target` is cross-compiled against glibc on a
/// host whose triple is `host` (see [`cross_glibc`]).
pub fn is_cross_glibc(target: &RustcTarget, host: &str) -> (r: bool)
    ensures
        r == cross_glibc(*target, host@),
{
    let arch: &str = match target {
        RustcTarget::Specified(t) => t.as_str(),
        RustcTarget::ImplicitHost => host,
    };
    if !triple_uses_glibc(arch) {
        return false;
    }
    let a = chars_of(arch);
    !crate::text::chars_eq_str(a.as_slice(), host)
}

/// Rust compiler metadata for cache key generation.
///
/// Contains platform-specific compiler information needed to generate cache
/// keys that are valid only for the current compilation target, so that
/// cached artifacts are not shared between different platforms.
#[derive(Clone, Eq, PartialEq, Ord, PartialOrd, Hash, Debug)]
pub struct RustcMetadata {
    /// The host target triple (`llvm-target` in rustc's target spec).
    pub host_target: String,
}

} // verus!
