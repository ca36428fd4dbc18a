//! Cargo build profiles.
//!
//! Four profiles are built into Cargo (`debug`, `bench`, `test`, `release`);
//! any other name is a custom profile. Cache keys and target directories are
//! organised by profile name.
use vstd::prelude::*;

use crate::text::{chars_eq_str, chars_of, string_from_chars};

verus! {

broadcast use vstd::string::group_string_axioms;

/// Cargo build profile specification.
///
/// Represents the different compilation profiles available in Cargo,
/// including the four built-in profiles (`debug`, `release`, `test`, `bench`)
/// and support for custom user-defined profiles.
#[derive(Clone, Eq, PartialEq, Hash, Debug)]
pub enum Profile {
    /// The `debug` profile.
    Debug,
    /// The `bench` profile.
    Bench,
    /// The `test` profile.
    Test,
    /// The `release` profile.
    Release,
    /// A custom user-specified profile.
    Custom(String),
}

/// The model of a [`Profile`].
pub enum ProfileView {
    Debug,
    Bench,
    Test,
    Release,
    Custom(Seq<char>),
}

impl View for Profile {
    type V = ProfileView;

    open spec fn view(&self) -> ProfileView {
        match self {
            Profile::Debug => ProfileView::Debug,
            Profile::Bench => ProfileView::Bench,
            Profile::Test => ProfileView::Test,
            Profile::Release => ProfileView::Release,
            Profile::Custom(s) => ProfileView::Custom(s@),
        }
    }
}

/// The name of a profile.
pub open spec fn profile_name(p: ProfileView) -> Seq<char> {
    match p {
        ProfileView::Debug => "debug"@,
        ProfileView::Bench => "bench"@,
        ProfileView::Test => "test"@,
        ProfileView::Release => "release"@,
        ProfileView::Custom(s) => s,
    }
}

/// The profile named `s`: a built-in profile when `s` is its name, else a
/// custom profile.
pub open spec fn profile_of(s: Seq<char>) -> ProfileView {
    if s == "debug"@ {
        ProfileView::Debug
    } else if s == "bench"@ {
        ProfileView::Bench
    } else if s == "test"@ {
        ProfileView::Test
    } else if s == "release"@ {
        ProfileView::Release
    } else {
        ProfileView::Custom(s)
    }
}

/// A profile that its own name reads back as: every profile but a custom one
/// that carries a built-in name.
pub open spec fn profile_canonical(p: ProfileView) -> bool {
    match p {
        ProfileView::Custom(s) => profile_of(s) == p,
        _ => true,
    }
}

impl Profile {
    /// The name of the profile.
    pub fn as_str(&self) -> (r: &str)
        ensures
            r@ == profile_name(self@),
    {
        match self {
            Profile::Debug => "debug",
            Profile::Bench => "bench",
            Profile::Test => "test",
            Profile::Release => "release",
            Profile::Custom(s) => s.as_str(),
        }
    }

    /// The name of the profile (its `Display` form).
    pub fn to_string(&self) -> (r: String)
        ensures
            r@ == profile_name(self@),
    {
        self.as_str().to_owned()
    }

    /// The profile named by the characters `s`.
    pub fn parse_chars(s: &[char]) -> (r: Profile)
        ensures
            r@ == profile_of(s@),
    {
        if chars_eq_str(s, "debug") {
            Profile::Debug
        } else if chars_eq_str(s, "bench") {
            Profile::Bench
        } else if chars_eq_str(s, "test") {
            Profile::Test
        } else if chars_eq_str(s, "release") {
            Profile::Release
        } else {
            Profile::Custom(string_from_chars(s))
        }
    }

    /// The profile named `s` (the conversion from `&str`).
    pub fn parse(s: &str) -> (r: Profile)
        ensures
            r@ == profile_of(s@),
    {
        let cs = chars_of(s);
        Profile::parse_chars(cs.as_slice())
    }
}

impl Default for Profile {
    fn default() -> (r: Profile)
        ensures
            r@ == ProfileView::Debug,
    {
        Profile::Debug
    }
}

impl From<String> for Profile {
    fn from(value: String) -> (r: Profile) {
        let cs = chars_of(value.as_str());
        if chars_eq_str(cs.as_slice(), "debug") {
            Profile::Debug
        } else if chars_eq_str(cs.as_slice(), "bench") {
            Profile::Bench
        } else if chars_eq_str(cs.as_slice(), "test") {
            Profile::Test
        } else if chars_eq_str(cs.as_slice(), "release") {
            Profile::Release
        } else {
            Profile::Custom(value)
        }
    }
}

impl vstd::std_specs::convert::FromSpecImpl<String> for Profile {
    open spec fn obeys_from_spec() -> bool {
        true
    }

    open spec fn from_spec(v: String) -> Profile {
        if v@ == "debug"@ {
            Profile::Debug
        } else if v@ == "bench"@ {
            Profile::Bench
        } else if v@ == "test"@ {
            Profile::Test
        } else if v@ == "release"@ {
            Profile::Release
        } else {
            Profile::Custom(v)
        }
    }
}

proof fn lemma_profile_literals()
    ensures
        "debug"@ == seq!['d', 'e', 'b', 'u', 'g'],
        "bench"@ == seq!['b', 'e', 'n', 'c', 'h'],
        "test"@ == seq!['t', 'e', 's', 't'],
        "release"@ == seq!['r', 'e', 'l', 'e', 'a', 's', 'e'],
{
    reveal_strlit("debug");
    reveal_strlit("bench");
    reveal_strlit("test");
    reveal_strlit("release");
}

/// A profile's name reads back as the profile (unless it is a custom profile
/// with a built-in name), and the name of the profile read from a text is
/// that text.
pub proof fn lemma_profile_roundtrip(s: Seq<char>, p: ProfileView)
    ensures
        profile_name(profile_of(s)) == s,
        profile_canonical(p) ==> profile_of(profile_name(p)) == p,
{
    lemma_profile_literals();
}

} // verus!
