//! The Cargo workspace of a build.
use vstd::prelude::*;

use crate::cargo::build_args::CargoBuildArguments;
use crate::cargo::profile::{profile_name, Profile, ProfileView};
use crate::path::{path_join, AbsDirPath, JoinWith, RelDirPath, TypedPath};

verus! {

broadcast use vstd::string::group_string_axioms;

/// The Cargo workspace of a build.
///
/// Workspaces contain all the paths needed to unambiguously specify the files
/// in a build. Workspaces are made for a specific profile, which is parsed
/// from the build command's arguments.
#[derive(Clone, Eq, PartialEq, Hash, Debug)]
pub struct Workspace {
    /// The root directory of the workspace.
    pub root: AbsDirPath,
    /// The target directory in the workspace.
    pub target: AbsDirPath,
    /// The $CARGO_HOME value.
    pub cargo_home: AbsDirPath,
    /// The build profile of this workspace invocation.
    pub profile: Profile,
    /// The build profile target directory.
    pub profile_dir: AbsDirPath,
}

/// The profile that build arguments select: the one they name, else `debug`.
pub open spec fn selected_profile(args: CargoBuildArguments) -> ProfileView {
    match crate::cargo::build_args::profile_of(args@) {
        Some(p) => crate::cargo::profile::profile_of(p),
        None => ProfileView::Debug,
    }
}

impl Workspace {
    /// The workspace with the given root, target directory and `$CARGO_HOME`
    /// (as `cargo metadata` and the environment report them) for a build with
    /// the arguments `args`: the profile is the one the arguments name, else
    /// `debug`, and the profile directory is the target directory joined with
    /// the profile's name.
    pub fn from_parts(
        root: AbsDirPath,
        target: AbsDirPath,
        cargo_home: AbsDirPath,
        args: &CargoBuildArguments,
    ) -> (r: Workspace)
        ensures
            r.root@ == root@,
            r.target@ == target@,
            r.cargo_home@ == cargo_home@,
            r.profile@ == selected_profile(*args),
            r.profile_dir@ == path_join(target@, profile_name(selected_profile(*args))),
    {
        let profile = match args.profile() {
            Some(p) => Profile::parse(p),
            None => Profile::Debug,
        };
        let name: RelDirPath = TypedPath::new(profile.as_str().to_owned());
        let profile_dir = target.join(&name);
        Workspace { root, target, cargo_home, profile, profile_dir }
    }
}

/// The profile directory is named after the profile the arguments select:
/// the name they give (`--profile NAME`, or `release` for `--release`,
/// whichever comes first), else `debug`.
pub proof fn lemma_profile_dir_named_by_arguments(args: CargoBuildArguments)
    ensures
        crate::cargo::build_args::profile_of(args@) matches Some(p) ==> profile_name(selected_profile(args)) == p,
        crate::cargo::build_args::profile_of(args@) is None ==> profile_name(selected_profile(args)) == "debug"@,
{
}

/// `--release` given first selects the release profile, whatever follows;
/// a build with no profile arguments uses the debug profile.
pub proof fn lemma_release_selects_release(args: CargoBuildArguments)
    ensures
        args@.len() > 0 && args@[0] == crate::cargo::build_args::ArgView::Switch(
            crate::cargo::build_args::Flag::Release,
        ) ==> selected_profile(args) == ProfileView::Release,
        args@.len() == 0 ==> selected_profile(args) == ProfileView::Debug,
{
    reveal_strlit("debug");
    reveal_strlit("bench");
    reveal_strlit("test");
    reveal_strlit("release");
    if args@.len() > 0 && args@[0] == crate::cargo::build_args::ArgView::Switch(
        crate::cargo::build_args::Flag::Release,
    ) {
        assert(crate::cargo::build_args::profile_of(args@) == Some("release"@));
        assert("release"@.len() == 7 && "debug"@.len() == 5 && "bench"@.len() == 5 && "test"@.len() == 4);
        assert("release"@ != "debug"@ && "release"@ != "bench"@ && "release"@ != "test"@);
        assert(crate::cargo::profile::profile_of("release"@) == ProfileView::Release);
    }
}

} // verus!
