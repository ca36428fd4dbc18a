//! The decisions of the Cloud Storage backed cache that do not need the
//! network: where objects are stored, glibc versions, and which stored units
//! a host can use.
use vstd::prelude::*;

use crate::hash::{hex_of, Blake3};
use crate::text::{
    chars_of, decimal, decimal_string, lemma_decimal, lemma_join_split_all, parse_u32,
    parse_u32_chars, push_char, push_str, split_all, split_all_chars, join,
};

verus! {

broadcast use vstd::string::group_string_axioms;

// ---------------------------------------------------------------------------
// Object paths
// ---------------------------------------------------------------------------

/// The object path of the content with hexadecimal key `hex`: a two-level
/// directory structure, `cas/<first two digits>/<next two digits>/<key>`.
pub open spec fn cas_path(hex: Seq<char>) -> Seq<char> {
    "cas/"@ + hex.subrange(0, 2) + "/"@ + hex.subrange(2, 4) + "/"@ + hex
}

/// The object path of a unit's metadata: `units/<unit hash>.json`.
pub open spec fn unit_path(unit_hash: Seq<char>) -> Seq<char> {
    "units/"@ + unit_hash + ".json"@
}

/// The object path of the content stored under `key`.
pub fn cas_object_path(key: &Blake3) -> (r: String)
    ensures
        r@ == cas_path(hex_of(key@)),
{
    let hex = key.to_hex();
    let cs = chars_of(hex.as_str());
    let mut r = "cas/".to_owned();
    push_char(&mut r, cs[0]);
    push_char(&mut r, cs[1]);
    push_str(&mut r, "/");
    push_char(&mut r, cs[2]);
    push_char(&mut r, cs[3]);
    push_str(&mut r, "/");
    push_str(&mut r, hex.as_str());
    proof {
        assert(hex@.subrange(0, 2) =~= seq![cs@[0], cs@[1]]);
        assert(hex@.subrange(2, 4) =~= seq![cs@[2], cs@[3]]);
        assert(r@ =~= cas_path(hex_of(key@)));
    }
    r
}

/// The object path of the metadata of the unit with hash `unit_hash`.
pub fn unit_object_path(unit_hash: &str) -> (r: String)
    ensures
        r@ == unit_path(unit_hash@),
{
    let mut r = "units/".to_owned();
    push_str(&mut r, unit_hash);
    push_str(&mut r, ".json");
    r
}

// ---------------------------------------------------------------------------
// glibc versions
// ---------------------------------------------------------------------------

/// Simple glibc version for filtering.
#[derive(Clone, Copy, PartialEq, Eq, PartialOrd, Ord, Debug)]
pub struct GlibcVersion {
    pub major: u32,
    pub minor: u32,
    pub patch: u32,
}

/// Why a text is not a glibc version.
#[derive(Clone, Copy, PartialEq, Eq, Debug)]
pub enum GlibcVersionError {
    /// The text has no minor version (no `.`).
    MissingMinor,
    /// A part of the text is not a `u32`.
    InvalidNumber,
}

/// The text of a version: `<major>.<minor>.<patch>`.
pub open spec fn glibc_text(v: GlibcVersion) -> Seq<char> {
    decimal(v.major as nat) + "."@ + decimal(v.minor as nat) + "."@ + decimal(v.patch as nat)
}

/// The version that `s` spells: its parts between dots are the major, the
/// minor and, if there is a third part, the patch version (else 0); further
/// parts are ignored.
pub open spec fn glibc_of(s: Seq<char>) -> Result<GlibcVersion, GlibcVersionError> {
    let parts = split_all(s, '.');
    match parse_u32(parts[0]) {
        None => Err(GlibcVersionError::InvalidNumber),
        Some(major) => if parts.len() < 2 {
            Err(GlibcVersionError::MissingMinor)
        } else {
            match parse_u32(parts[1]) {
                None => Err(GlibcVersionError::InvalidNumber),
                Some(minor) => if parts.len() < 3 {
                    Ok(GlibcVersion { major, minor, patch: 0 })
                } else {
                    match parse_u32(parts[2]) {
                        None => Err(GlibcVersionError::InvalidNumber),
                        Some(patch) => Ok(GlibcVersion { major, minor, patch }),
                    }
                },
            }
        },
    }
}

/// `a` is an older version than `b` (the order of the derived `Ord`: by
/// major, then minor, then patch version).
pub open spec fn glibc_older(a: GlibcVersion, b: GlibcVersion) -> bool {
    ||| a.major < b.major
    ||| (a.major == b.major && a.minor < b.minor)
    ||| (a.major == b.major && a.minor == b.minor && a.patch < b.patch)
}

/// A unit built against glibc `unit` can be restored on a host with glibc
/// `host`: unless both are known and the unit needs a newer glibc.
pub open spec fn glibc_admits(host: Option<GlibcVersion>, unit: Option<GlibcVersion>) -> bool {
    match (host, unit) {
        (Some(h), Some(u)) => !glibc_older(h, u),
        _ => true,
    }
}

impl GlibcVersion {
    /// The version that `s` spells (see [`glibc_of`]).
    pub fn parse(s: &str) -> (r: Result<GlibcVersion, GlibcVersionError>)
        ensures
            r == glibc_of(s@),
    {
        let cs = chars_of(s);
        let parts = split_all_chars(cs.as_slice(), '.');
        let ghost pv = parts@.map_values(|v: Vec<char>| v@);
        proof {
            crate::text::lemma_split_all_join(s@, '.');
            assert(pv.len() == parts@.len());
        }
        let major = match parse_u32_chars(parts[0].as_slice()) {
            Some(n) => n,
            None => {
                return Err(GlibcVersionError::InvalidNumber);
            },
        };
        if parts.len() < 2 {
            return Err(GlibcVersionError::MissingMinor);
        }
        assert(pv[1] == parts@[1]@);
        let minor = match parse_u32_chars(parts[1].as_slice()) {
            Some(n) => n,
            None => {
                return Err(GlibcVersionError::InvalidNumber);
            },
        };
        if parts.len() < 3 {
            return Ok(GlibcVersion { major, minor, patch: 0 });
        }
        assert(pv[2] == parts@[2]@);
        let patch = match parse_u32_chars(parts[2].as_slice()) {
            Some(n) => n,
            None => {
                return Err(GlibcVersionError::InvalidNumber);
            },
        };
        Ok(GlibcVersion { major, minor, patch })
    }

    /// The text of the version (its `Display` form).
    pub fn to_string(&self) -> (r: String)
        ensures
            r@ == glibc_text(*self),
    {
        let mut r = decimal_string(self.major as u64);
        push_str(&mut r, ".");
        let m = decimal_string(self.minor as u64);
        push_str(&mut r, m.as_str());
        push_str(&mut r, ".");
        let p = decimal_string(self.patch as u64);
        push_str(&mut r, p.as_str());
        r
    }

    /// Whether this version is newer than `other`.
    pub fn is_newer_than(&self, other: &GlibcVersion) -> (r: bool)
        ensures
            r == glibc_older(*other, *self),
    {
        other.major < self.major || (other.major == self.major && other.minor < self.minor) || (
        other.major == self.major && other.minor == self.minor && other.patch < self.patch)
    }

    /// Whether a unit built against glibc `unit` can be restored on a host
    /// with glibc `host`.
    pub fn admits(host: &Option<GlibcVersion>, unit: &Option<GlibcVersion>) -> (r: bool)
        ensures
            r == glibc_admits(*host, *unit),
    {
        match (host, unit) {
            (Some(h), Some(u)) => !u.is_newer_than(h),
            _ => true,
        }
    }
}

impl std::str::FromStr for GlibcVersion {
    type Err = GlibcVersionError;

    fn from_str(s: &str) -> (r: Result<GlibcVersion, GlibcVersionError>)
        ensures
            r == glibc_of(s@),
    {
        GlibcVersion::parse(s)
    }
}

/// The text of a version reads back as the version.
pub proof fn lemma_glibc_roundtrip(v: GlibcVersion)
    ensures
        glibc_of(glibc_text(v)) == Ok::<GlibcVersion, GlibcVersionError>(v),
{
    reveal_strlit(".");
    let a = decimal(v.major as nat);
    let b = decimal(v.minor as nat);
    let c = decimal(v.patch as nat);
    lemma_decimal(v.major as nat);
    lemma_decimal(v.minor as nat);
    lemma_decimal(v.patch as nat);
    let parts = seq![a, b, c];
    assert forall|k: int, j: int| 0 <= k < parts.len() && 0 <= j < parts[k].len() implies #[trigger] parts[k][j] != '.' by {
        assert(crate::text::is_digit(parts[k][j]));
    }
    assert("."@ =~= seq!['.']);
    assert(join(parts, seq!['.']) =~= glibc_text(v)) by {
        assert(parts.drop_last() =~= seq![a, b]);
        assert(seq![a, b].drop_last() =~= seq![a]);
        assert(join(seq![a], seq!['.']) == a);
        assert(join(seq![a, b], seq!['.']) == a + seq!['.'] + b);
        assert(join(parts, seq!['.']) == a + seq!['.'] + b + seq!['.'] + c);
    }
    lemma_join_split_all(parts, '.');
}

/// Versions are ordered totally: of two different versions exactly one is
/// older, no version is older than itself, and the order is transitive.
pub proof fn lemma_glibc_order(a: GlibcVersion, b: GlibcVersion, c: GlibcVersion)
    ensures
        !glibc_older(a, a),
        a != b ==> (glibc_older(a, b) <==> !glibc_older(b, a)),
        a == b ==> !glibc_older(a, b),
        glibc_older(a, b) && glibc_older(b, c) ==> glibc_older(a, c),
{
}

/// A host admits exactly the units that need no newer glibc than its own,
/// and a unit or host without a known glibc is always admitted.
pub proof fn lemma_glibc_admits(h: GlibcVersion, u: GlibcVersion)
    ensures
        glibc_admits(Some(h), Some(u)) <==> (u == h || glibc_older(u, h)),
        glibc_admits(None, Some(u)),
        glibc_admits(Some(h), None),
{
}

} // verus!
