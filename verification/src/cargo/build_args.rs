//! Parsed arguments of a `cargo build` invocation.
//!
//! A list of command-line arguments is parsed into [`CargoBuildArguments`],
//! one [`CargoBuildArgument`] per flag, flag with value, or positional
//! argument. Both space-separated (`--flag value`) and equals-separated
//! (`--flag=value`) forms are accepted; short flags are normalised to their
//! long form, and unknown flags are kept as generic flags so that rendering
//! them back with [`CargoBuildArguments::to_argv`] loses nothing that the
//! parser kept.
use vstd::prelude::*;

use crate::text::{
    chars_eq_str, chars_of, decimal, decimal_string, is_whitespace, is_whitespace_char, join,
    lemma_decimal, lemma_first_index_none, lemma_split_once_parts, first_index, is_first_index,
    parse_u32, parse_u32_chars, push_char, split_once, split_once_chars, string_from_chars,
    strings_view,
};

verus! {

broadcast use vstd::string::group_string_axioms;

/// The flags of `cargo build` that this parser knows by name.
#[derive(Copy, Clone, PartialEq, Eq, Debug)]
pub enum Flag {
    /// `--verbose`
    Verbose,
    /// `--quiet`
    Quiet,
    /// `--color`
    Color,
    /// `--config`
    Config,
    /// `-Z`
    Unstable,
    /// `--frozen`
    Frozen,
    /// `--locked`
    Locked,
    /// `--offline`
    Offline,
    /// `--package`
    Package,
    /// `--workspace`
    Workspace,
    /// `--exclude`
    Exclude,
    /// `--all`
    All,
    /// `--lib`
    Lib,
    /// `--bins`
    Bins,
    /// `--bin`
    Bin,
    /// `--examples`
    Examples,
    /// `--example`
    Example,
    /// `--tests`
    Tests,
    /// `--test`
    Test,
    /// `--benches`
    Benches,
    /// `--bench`
    Bench,
    /// `--all-targets`
    AllTargets,
    /// `--features`
    Features,
    /// `--all-features`
    AllFeatures,
    /// `--no-default-features`
    NoDefaultFeatures,
    /// `--release`
    Release,
    /// `--profile`
    Profile,
    /// `--jobs`
    Jobs,
    /// `--keep-going`
    KeepGoing,
    /// `--target`
    Target,
    /// `--target-dir`
    TargetDir,
    /// `--artifact-dir`
    ArtifactDir,
    /// `--build-plan`
    BuildPlan,
    /// `--unit-graph`
    UnitGraph,
    /// `--timings`
    Timings,
    /// `--manifest-path`
    ManifestPath,
    /// `--lockfile-path`
    LockfilePath,
    /// `--ignore-rust-version`
    IgnoreRustVersion,
    /// `--future-incompat-report`
    FutureIncompatReport,
    /// `--message-format`
    MessageFormat,
}

/// The long (canonical) spelling of a flag.
pub open spec fn flag_text(f: Flag) -> Seq<char> {
    match f {
        Flag::Verbose => "--verbose"@,
        Flag::Quiet => "--quiet"@,
        Flag::Color => "--color"@,
        Flag::Config => "--config"@,
        Flag::Unstable => "-Z"@,
        Flag::Frozen => "--frozen"@,
        Flag::Locked => "--locked"@,
        Flag::Offline => "--offline"@,
        Flag::Package => "--package"@,
        Flag::Workspace => "--workspace"@,
        Flag::Exclude => "--exclude"@,
        Flag::All => "--all"@,
        Flag::Lib => "--lib"@,
        Flag::Bins => "--bins"@,
        Flag::Bin => "--bin"@,
        Flag::Examples => "--examples"@,
        Flag::Example => "--example"@,
        Flag::Tests => "--tests"@,
        Flag::Test => "--test"@,
        Flag::Benches => "--benches"@,
        Flag::Bench => "--bench"@,
        Flag::AllTargets => "--all-targets"@,
        Flag::Features => "--features"@,
        Flag::AllFeatures => "--all-features"@,
        Flag::NoDefaultFeatures => "--no-default-features"@,
        Flag::Release => "--release"@,
        Flag::Profile => "--profile"@,
        Flag::Jobs => "--jobs"@,
        Flag::KeepGoing => "--keep-going"@,
        Flag::Target => "--target"@,
        Flag::TargetDir => "--target-dir"@,
        Flag::ArtifactDir => "--artifact-dir"@,
        Flag::BuildPlan => "--build-plan"@,
        Flag::UnitGraph => "--unit-graph"@,
        Flag::Timings => "--timings"@,
        Flag::ManifestPath => "--manifest-path"@,
        Flag::LockfilePath => "--lockfile-path"@,
        Flag::IgnoreRustVersion => "--ignore-rust-version"@,
        Flag::FutureIncompatReport => "--future-incompat-report"@,
        Flag::MessageFormat => "--message-format"@,
    }
}

/// The long (canonical) spelling of a flag.
pub fn flag_str(f: Flag) -> (r: &'static str)
    ensures
        r@ == flag_text(f),
{
    match f {
        Flag::Verbose => "--verbose",
        Flag::Quiet => "--quiet",
        Flag::Color => "--color",
        Flag::Config => "--config",
        Flag::Unstable => "-Z",
        Flag::Frozen => "--frozen",
        Flag::Locked => "--locked",
        Flag::Offline => "--offline",
        Flag::Package => "--package",
        Flag::Workspace => "--workspace",
        Flag::Exclude => "--exclude",
        Flag::All => "--all",
        Flag::Lib => "--lib",
        Flag::Bins => "--bins",
        Flag::Bin => "--bin",
        Flag::Examples => "--examples",
        Flag::Example => "--example",
        Flag::Tests => "--tests",
        Flag::Test => "--test",
        Flag::Benches => "--benches",
        Flag::Bench => "--bench",
        Flag::AllTargets => "--all-targets",
        Flag::Features => "--features",
        Flag::AllFeatures => "--all-features",
        Flag::NoDefaultFeatures => "--no-default-features",
        Flag::Release => "--release",
        Flag::Profile => "--profile",
        Flag::Jobs => "--jobs",
        Flag::KeepGoing => "--keep-going",
        Flag::Target => "--target",
        Flag::TargetDir => "--target-dir",
        Flag::ArtifactDir => "--artifact-dir",
        Flag::BuildPlan => "--build-plan",
        Flag::UnitGraph => "--unit-graph",
        Flag::Timings => "--timings",
        Flag::ManifestPath => "--manifest-path",
        Flag::LockfilePath => "--lockfile-path",
        Flag::IgnoreRustVersion => "--ignore-rust-version",
        Flag::FutureIncompatReport => "--future-incompat-report",
        Flag::MessageFormat => "--message-format",
    }
}

/// The flag spelled by `s`, if `s` is the long spelling of a known flag.
pub open spec fn flag_of(s: Seq<char>) -> Option<Flag> {
    if s == "--verbose"@ {
        Some(Flag::Verbose)
    } else if s == "--quiet"@ {
        Some(Flag::Quiet)
    } else if s == "--color"@ {
        Some(Flag::Color)
    } else if s == "--config"@ {
        Some(Flag::Config)
    } else if s == "-Z"@ {
        Some(Flag::Unstable)
    } else if s == "--frozen"@ {
        Some(Flag::Frozen)
    } else if s == "--locked"@ {
        Some(Flag::Locked)
    } else if s == "--offline"@ {
        Some(Flag::Offline)
    } else if s == "--package"@ {
        Some(Flag::Package)
    } else if s == "--workspace"@ {
        Some(Flag::Workspace)
    } else if s == "--exclude"@ {
        Some(Flag::Exclude)
    } else if s == "--all"@ {
        Some(Flag::All)
    } else if s == "--lib"@ {
        Some(Flag::Lib)
    } else if s == "--bins"@ {
        Some(Flag::Bins)
    } else if s == "--bin"@ {
        Some(Flag::Bin)
    } else if s == "--examples"@ {
        Some(Flag::Examples)
    } else if s == "--example"@ {
        Some(Flag::Example)
    } else if s == "--tests"@ {
        Some(Flag::Tests)
    } else if s == "--test"@ {
        Some(Flag::Test)
    } else if s == "--benches"@ {
        Some(Flag::Benches)
    } else if s == "--bench"@ {
        Some(Flag::Bench)
    } else if s == "--all-targets"@ {
        Some(Flag::AllTargets)
    } else if s == "--features"@ {
        Some(Flag::Features)
    } else if s == "--all-features"@ {
        Some(Flag::AllFeatures)
    } else if s == "--no-default-features"@ {
        Some(Flag::NoDefaultFeatures)
    } else if s == "--release"@ {
        Some(Flag::Release)
    } else if s == "--profile"@ {
        Some(Flag::Profile)
    } else if s == "--jobs"@ {
        Some(Flag::Jobs)
    } else if s == "--keep-going"@ {
        Some(Flag::KeepGoing)
    } else if s == "--target"@ {
        Some(Flag::Target)
    } else if s == "--target-dir"@ {
        Some(Flag::TargetDir)
    } else if s == "--artifact-dir"@ {
        Some(Flag::ArtifactDir)
    } else if s == "--build-plan"@ {
        Some(Flag::BuildPlan)
    } else if s == "--unit-graph"@ {
        Some(Flag::UnitGraph)
    } else if s == "--timings"@ {
        Some(Flag::Timings)
    } else if s == "--manifest-path"@ {
        Some(Flag::ManifestPath)
    } else if s == "--lockfile-path"@ {
        Some(Flag::LockfilePath)
    } else if s == "--ignore-rust-version"@ {
        Some(Flag::IgnoreRustVersion)
    } else if s == "--future-incompat-report"@ {
        Some(Flag::FutureIncompatReport)
    } else if s == "--message-format"@ {
        Some(Flag::MessageFormat)
    } else {
        None
    }
}

/// The flag spelled by `s`, if any.
pub fn flag_lookup(s: &[char]) -> (r: Option<Flag>)
    ensures
        r == flag_of(s@),
{
    if chars_eq_str(s, "--verbose") {
        return Some(Flag::Verbose);
    }
    if chars_eq_str(s, "--quiet") {
        return Some(Flag::Quiet);
    }
    if chars_eq_str(s, "--color") {
        return Some(Flag::Color);
    }
    if chars_eq_str(s, "--config") {
        return Some(Flag::Config);
    }
    if chars_eq_str(s, "-Z") {
        return Some(Flag::Unstable);
    }
    if chars_eq_str(s, "--frozen") {
        return Some(Flag::Frozen);
    }
    if chars_eq_str(s, "--locked") {
        return Some(Flag::Locked);
    }
    if chars_eq_str(s, "--offline") {
        return Some(Flag::Offline);
    }
    if chars_eq_str(s, "--package") {
        return Some(Flag::Package);
    }
    if chars_eq_str(s, "--workspace") {
        return Some(Flag::Workspace);
    }
    if chars_eq_str(s, "--exclude") {
        return Some(Flag::Exclude);
    }
    if chars_eq_str(s, "--all") {
        return Some(Flag::All);
    }
    if chars_eq_str(s, "--lib") {
        return Some(Flag::Lib);
    }
    if chars_eq_str(s, "--bins") {
        return Some(Flag::Bins);
    }
    if chars_eq_str(s, "--bin") {
        return Some(Flag::Bin);
    }
    if chars_eq_str(s, "--examples") {
        return Some(Flag::Examples);
    }
    if chars_eq_str(s, "--example") {
        return Some(Flag::Example);
    }
    if chars_eq_str(s, "--tests") {
        return Some(Flag::Tests);
    }
    if chars_eq_str(s, "--test") {
        return Some(Flag::Test);
    }
    if chars_eq_str(s, "--benches") {
        return Some(Flag::Benches);
    }
    if chars_eq_str(s, "--bench") {
        return Some(Flag::Bench);
    }
    if chars_eq_str(s, "--all-targets") {
        return Some(Flag::AllTargets);
    }
    if chars_eq_str(s, "--features") {
        return Some(Flag::Features);
    }
    if chars_eq_str(s, "--all-features") {
        return Some(Flag::AllFeatures);
    }
    if chars_eq_str(s, "--no-default-features") {
        return Some(Flag::NoDefaultFeatures);
    }
    if chars_eq_str(s, "--release") {
        return Some(Flag::Release);
    }
    if chars_eq_str(s, "--profile") {
        return Some(Flag::Profile);
    }
    if chars_eq_str(s, "--jobs") {
        return Some(Flag::Jobs);
    }
    if chars_eq_str(s, "--keep-going") {
        return Some(Flag::KeepGoing);
    }
    if chars_eq_str(s, "--target") {
        return Some(Flag::Target);
    }
    if chars_eq_str(s, "--target-dir") {
        return Some(Flag::TargetDir);
    }
    if chars_eq_str(s, "--artifact-dir") {
        return Some(Flag::ArtifactDir);
    }
    if chars_eq_str(s, "--build-plan") {
        return Some(Flag::BuildPlan);
    }
    if chars_eq_str(s, "--unit-graph") {
        return Some(Flag::UnitGraph);
    }
    if chars_eq_str(s, "--timings") {
        return Some(Flag::Timings);
    }
    if chars_eq_str(s, "--manifest-path") {
        return Some(Flag::ManifestPath);
    }
    if chars_eq_str(s, "--lockfile-path") {
        return Some(Flag::LockfilePath);
    }
    if chars_eq_str(s, "--ignore-rust-version") {
        return Some(Flag::IgnoreRustVersion);
    }
    if chars_eq_str(s, "--future-incompat-report") {
        return Some(Flag::FutureIncompatReport);
    }
    if chars_eq_str(s, "--message-format") {
        return Some(Flag::MessageFormat);
    }
    None
}

/// The characters of every literal that the parser compares against.
proof fn lemma_literals()
    ensures
        "--verbose"@.len() == 9,
        "--verbose"@[0] == '-',
        "--verbose"@[1] == '-',
        "--verbose"@[2] == 'v',
        "--verbose"@[3] == 'e',
        "--verbose"@[4] == 'r',
        "--verbose"@[5] == 'b',
        "--verbose"@[6] == 'o',
        "--verbose"@[7] == 's',
        "--verbose"@[8] == 'e',
        "--quiet"@.len() == 7,
        "--quiet"@[0] == '-',
        "--quiet"@[1] == '-',
        "--quiet"@[2] == 'q',
        "--quiet"@[3] == 'u',
        "--quiet"@[4] == 'i',
        "--quiet"@[5] == 'e',
        "--quiet"@[6] == 't',
        "--color"@.len() == 7,
        "--color"@[0] == '-',
        "--color"@[1] == '-',
        "--color"@[2] == 'c',
        "--color"@[3] == 'o',
        "--color"@[4] == 'l',
        "--color"@[5] == 'o',
        "--color"@[6] == 'r',
        "--config"@.len() == 8,
        "--config"@[0] == '-',
        "--config"@[1] == '-',
        "--config"@[2] == 'c',
        "--config"@[3] == 'o',
        "--config"@[4] == 'n',
        "--config"@[5] == 'f',
        "--config"@[6] == 'i',
        "--config"@[7] == 'g',
        "-Z"@.len() == 2,
        "-Z"@[0] == '-',
        "-Z"@[1] == 'Z',
        "--frozen"@.len() == 8,
        "--frozen"@[0] == '-',
        "--frozen"@[1] == '-',
        "--frozen"@[2] == 'f',
        "--frozen"@[3] == 'r',
        "--frozen"@[4] == 'o',
        "--frozen"@[5] == 'z',
        "--frozen"@[6] == 'e',
        "--frozen"@[7] == 'n',
        "--locked"@.len() == 8,
        "--locked"@[0] == '-',
        "--locked"@[1] == '-',
        "--locked"@[2] == 'l',
        "--locked"@[3] == 'o',
        "--locked"@[4] == 'c',
        "--locked"@[5] == 'k',
        "--locked"@[6] == 'e',
        "--locked"@[7] == 'd',
        "--offline"@.len() == 9,
        "--offline"@[0] == '-',
        "--offline"@[1] == '-',
        "--offline"@[2] == 'o',
        "--offline"@[3] == 'f',
        "--offline"@[4] == 'f',
        "--offline"@[5] == 'l',
        "--offline"@[6] == 'i',
        "--offline"@[7] == 'n',
        "--offline"@[8] == 'e',
        "--package"@.len() == 9,
        "--package"@[0] == '-',
        "--package"@[1] == '-',
        "--package"@[2] == 'p',
        "--package"@[3] == 'a',
        "--package"@[4] == 'c',
        "--package"@[5] == 'k',
        "--package"@[6] == 'a',
        "--package"@[7] == 'g',
        "--package"@[8] == 'e',
        "--workspace"@.len() == 11,
        "--workspace"@[0] == '-',
        "--workspace"@[1] == '-',
        "--workspace"@[2] == 'w',
        "--workspace"@[3] == 'o',
        "--workspace"@[4] == 'r',
        "--workspace"@[5] == 'k',
        "--workspace"@[6] == 's',
        "--workspace"@[7] == 'p',
        "--workspace"@[8] == 'a',
        "--workspace"@[9] == 'c',
        "--workspace"@[10] == 'e',
        "--exclude"@.len() == 9,
        "--exclude"@[0] == '-',
        "--exclude"@[1] == '-',
        "--exclude"@[2] == 'e',
        "--exclude"@[3] == 'x',
        "--exclude"@[4] == 'c',
        "--exclude"@[5] == 'l',
        "--exclude"@[6] == 'u',
        "--exclude"@[7] == 'd',
        "--exclude"@[8] == 'e',
        "--all"@.len() == 5,
        "--all"@[0] == '-',
        "--all"@[1] == '-',
        "--all"@[2] == 'a',
        "--all"@[3] == 'l',
        "--all"@[4] == 'l',
        "--lib"@.len() == 5,
        "--lib"@[0] == '-',
        "--lib"@[1] == '-',
        "--lib"@[2] == 'l',
        "--lib"@[3] == 'i',
        "--lib"@[4] == 'b',
        "--bins"@.len() == 6,
        "--bins"@[0] == '-',
        "--bins"@[1] == '-',
        "--bins"@[2] == 'b',
        "--bins"@[3] == 'i',
        "--bins"@[4] == 'n',
        "--bins"@[5] == 's',
        "--bin"@.len() == 5,
        "--bin"@[0] == '-',
        "--bin"@[1] == '-',
        "--bin"@[2] == 'b',
        "--bin"@[3] == 'i',
        "--bin"@[4] == 'n',
        "--examples"@.len() == 10,
        "--examples"@[0] == '-',
        "--examples"@[1] == '-',
        "--examples"@[2] == 'e',
        "--examples"@[3] == 'x',
        "--examples"@[4] == 'a',
        "--examples"@[5] == 'm',
        "--examples"@[6] == 'p',
        "--examples"@[7] == 'l',
        "--examples"@[8] == 'e',
        "--examples"@[9] == 's',
        "--example"@.len() == 9,
        "--example"@[0] == '-',
        "--example"@[1] == '-',
        "--example"@[2] == 'e',
        "--example"@[3] == 'x',
        "--example"@[4] == 'a',
        "--example"@[5] == 'm',
        "--example"@[6] == 'p',
        "--example"@[7] == 'l',
        "--example"@[8] == 'e',
        "--tests"@.len() == 7,
        "--tests"@[0] == '-',
        "--tests"@[1] == '-',
        "--tests"@[2] == 't',
        "--tests"@[3] == 'e',
        "--tests"@[4] == 's',
        "--tests"@[5] == 't',
        "--tests"@[6] == 's',
        "--test"@.len() == 6,
        "--test"@[0] == '-',
        "--test"@[1] == '-',
        "--test"@[2] == 't',
        "--test"@[3] == 'e',
        "--test"@[4] == 's',
        "--test"@[5] == 't',
        "--benches"@.len() == 9,
        "--benches"@[0] == '-',
        "--benches"@[1] == '-',
        "--benches"@[2] == 'b',
        "--benches"@[3] == 'e',
        "--benches"@[4] == 'n',
        "--benches"@[5] == 'c',
        "--benches"@[6] == 'h',
        "--benches"@[7] == 'e',
        "--benches"@[8] == 's',
        "--bench"@.len() == 7,
        "--bench"@[0] == '-',
        "--bench"@[1] == '-',
        "--bench"@[2] == 'b',
        "--bench"@[3] == 'e',
        "--bench"@[4] == 'n',
        "--bench"@[5] == 'c',
        "--bench"@[6] == 'h',
        "--all-targets"@.len() == 13,
        "--all-targets"@[0] == '-',
        "--all-targets"@[1] == '-',
        "--all-targets"@[2] == 'a',
        "--all-targets"@[3] == 'l',
        "--all-targets"@[4] == 'l',
        "--all-targets"@[5] == '-',
        "--all-targets"@[6] == 't',
        "--all-targets"@[7] == 'a',
        "--all-targets"@[8] == 'r',
        "--all-targets"@[9] == 'g',
        "--all-targets"@[10] == 'e',
        "--all-targets"@[11] == 't',
        "--all-targets"@[12] == 's',
        "--features"@.len() == 10,
        "--features"@[0] == '-',
        "--features"@[1] == '-',
        "--features"@[2] == 'f',
        "--features"@[3] == 'e',
        "--features"@[4] == 'a',
        "--features"@[5] == 't',
        "--features"@[6] == 'u',
        "--features"@[7] == 'r',
        "--features"@[8] == 'e',
        "--features"@[9] == 's',
        "--all-features"@.len() == 14,
        "--all-features"@[0] == '-',
        "--all-features"@[1] == '-',
        "--all-features"@[2] == 'a',
        "--all-features"@[3] == 'l',
        "--all-features"@[4] == 'l',
        "--all-features"@[5] == '-',
        "--all-features"@[6] == 'f',
        "--all-features"@[7] == 'e',
        "--all-features"@[8] == 'a',
        "--all-features"@[9] == 't',
        "--all-features"@[10] == 'u',
        "--all-features"@[11] == 'r',
        "--all-features"@[12] == 'e',
        "--all-features"@[13] == 's',
        "--no-default-features"@.len() == 21,
        "--no-default-features"@[0] == '-',
        "--no-default-features"@[1] == '-',
        "--no-default-features"@[2] == 'n',
        "--no-default-features"@[3] == 'o',
        "--no-default-features"@[4] == '-',
        "--no-default-features"@[5] == 'd',
        "--no-default-features"@[6] == 'e',
        "--no-default-features"@[7] == 'f',
        "--no-default-features"@[8] == 'a',
        "--no-default-features"@[9] == 'u',
        "--no-default-features"@[10] == 'l',
        "--no-default-features"@[11] == 't',
        "--no-default-features"@[12] == '-',
        "--no-default-features"@[13] == 'f',
        "--no-default-features"@[14] == 'e',
        "--no-default-features"@[15] == 'a',
        "--no-default-features"@[16] == 't',
        "--no-default-features"@[17] == 'u',
        "--no-default-features"@[18] == 'r',
        "--no-default-features"@[19] == 'e',
        "--no-default-features"@[20] == 's',
        "--release"@.len() == 9,
        "--release"@[0] == '-',
        "--release"@[1] == '-',
        "--release"@[2] == 'r',
        "--release"@[3] == 'e',
        "--release"@[4] == 'l',
        "--release"@[5] == 'e',
        "--release"@[6] == 'a',
        "--release"@[7] == 's',
        "--release"@[8] == 'e',
        "--profile"@.len() == 9,
        "--profile"@[0] == '-',
        "--profile"@[1] == '-',
        "--profile"@[2] == 'p',
        "--profile"@[3] == 'r',
        "--profile"@[4] == 'o',
        "--profile"@[5] == 'f',
        "--profile"@[6] == 'i',
        "--profile"@[7] == 'l',
        "--profile"@[8] == 'e',
        "--jobs"@.len() == 6,
        "--jobs"@[0] == '-',
        "--jobs"@[1] == '-',
        "--jobs"@[2] == 'j',
        "--jobs"@[3] == 'o',
        "--jobs"@[4] == 'b',
        "--jobs"@[5] == 's',
        "--keep-going"@.len() == 12,
        "--keep-going"@[0] == '-',
        "--keep-going"@[1] == '-',
        "--keep-going"@[2] == 'k',
        "--keep-going"@[3] == 'e',
        "--keep-going"@[4] == 'e',
        "--keep-going"@[5] == 'p',
        "--keep-going"@[6] == '-',
        "--keep-going"@[7] == 'g',
        "--keep-going"@[8] == 'o',
        "--keep-going"@[9] == 'i',
        "--keep-going"@[10] == 'n',
        "--keep-going"@[11] == 'g',
        "--target"@.len() == 8,
        "--target"@[0] == '-',
        "--target"@[1] == '-',
        "--target"@[2] == 't',
        "--target"@[3] == 'a',
        "--target"@[4] == 'r',
        "--target"@[5] == 'g',
        "--target"@[6] == 'e',
        "--target"@[7] == 't',
        "--target-dir"@.len() == 12,
        "--target-dir"@[0] == '-',
        "--target-dir"@[1] == '-',
        "--target-dir"@[2] == 't',
        "--target-dir"@[3] == 'a',
        "--target-dir"@[4] == 'r',
        "--target-dir"@[5] == 'g',
        "--target-dir"@[6] == 'e',
        "--target-dir"@[7] == 't',
        "--target-dir"@[8] == '-',
        "--target-dir"@[9] == 'd',
        "--target-dir"@[10] == 'i',
        "--target-dir"@[11] == 'r',
        "--artifact-dir"@.len() == 14,
        "--artifact-dir"@[0] == '-',
        "--artifact-dir"@[1] == '-',
        "--artifact-dir"@[2] == 'a',
        "--artifact-dir"@[3] == 'r',
        "--artifact-dir"@[4] == 't',
        "--artifact-dir"@[5] == 'i',
        "--artifact-dir"@[6] == 'f',
        "--artifact-dir"@[7] == 'a',
        "--artifact-dir"@[8] == 'c',
        "--artifact-dir"@[9] == 't',
        "--artifact-dir"@[10] == '-',
        "--artifact-dir"@[11] == 'd',
        "--artifact-dir"@[12] == 'i',
        "--artifact-dir"@[13] == 'r',
        "--build-plan"@.len() == 12,
        "--build-plan"@[0] == '-',
        "--build-plan"@[1] == '-',
        "--build-plan"@[2] == 'b',
        "--build-plan"@[3] == 'u',
        "--build-plan"@[4] == 'i',
        "--build-plan"@[5] == 'l',
        "--build-plan"@[6] == 'd',
        "--build-plan"@[7] == '-',
        "--build-plan"@[8] == 'p',
        "--build-plan"@[9] == 'l',
        "--build-plan"@[10] == 'a',
        "--build-plan"@[11] == 'n',
        "--unit-graph"@.len() == 12,
        "--unit-graph"@[0] == '-',
        "--unit-graph"@[1] == '-',
        "--unit-graph"@[2] == 'u',
        "--unit-graph"@[3] == 'n',
        "--unit-graph"@[4] == 'i',
        "--unit-graph"@[5] == 't',
        "--unit-graph"@[6] == '-',
        "--unit-graph"@[7] == 'g',
        "--unit-graph"@[8] == 'r',
        "--unit-graph"@[9] == 'a',
        "--unit-graph"@[10] == 'p',
        "--unit-graph"@[11] == 'h',
        "--timings"@.len() == 9,
        "--timings"@[0] == '-',
        "--timings"@[1] == '-',
        "--timings"@[2] == 't',
        "--timings"@[3] == 'i',
        "--timings"@[4] == 'm',
        "--timings"@[5] == 'i',
        "--timings"@[6] == 'n',
        "--timings"@[7] == 'g',
        "--timings"@[8] == 's',
        "--manifest-path"@.len() == 15,
        "--manifest-path"@[0] == '-',
        "--manifest-path"@[1] == '-',
        "--manifest-path"@[2] == 'm',
        "--manifest-path"@[3] == 'a',
        "--manifest-path"@[4] == 'n',
        "--manifest-path"@[5] == 'i',
        "--manifest-path"@[6] == 'f',
        "--manifest-path"@[7] == 'e',
        "--manifest-path"@[8] == 's',
        "--manifest-path"@[9] == 't',
        "--manifest-path"@[10] == '-',
        "--manifest-path"@[11] == 'p',
        "--manifest-path"@[12] == 'a',
        "--manifest-path"@[13] == 't',
        "--manifest-path"@[14] == 'h',
        "--lockfile-path"@.len() == 15,
        "--lockfile-path"@[0] == '-',
        "--lockfile-path"@[1] == '-',
        "--lockfile-path"@[2] == 'l',
        "--lockfile-path"@[3] == 'o',
        "--lockfile-path"@[4] == 'c',
        "--lockfile-path"@[5] == 'k',
        "--lockfile-path"@[6] == 'f',
        "--lockfile-path"@[7] == 'i',
        "--lockfile-path"@[8] == 'l',
        "--lockfile-path"@[9] == 'e',
        "--lockfile-path"@[10] == '-',
        "--lockfile-path"@[11] == 'p',
        "--lockfile-path"@[12] == 'a',
        "--lockfile-path"@[13] == 't',
        "--lockfile-path"@[14] == 'h',
        "--ignore-rust-version"@.len() == 21,
        "--ignore-rust-version"@[0] == '-',
        "--ignore-rust-version"@[1] == '-',
        "--ignore-rust-version"@[2] == 'i',
        "--ignore-rust-version"@[3] == 'g',
        "--ignore-rust-version"@[4] == 'n',
        "--ignore-rust-version"@[5] == 'o',
        "--ignore-rust-version"@[6] == 'r',
        "--ignore-rust-version"@[7] == 'e',
        "--ignore-rust-version"@[8] == '-',
        "--ignore-rust-version"@[9] == 'r',
        "--ignore-rust-version"@[10] == 'u',
        "--ignore-rust-version"@[11] == 's',
        "--ignore-rust-version"@[12] == 't',
        "--ignore-rust-version"@[13] == '-',
        "--ignore-rust-version"@[14] == 'v',
        "--ignore-rust-version"@[15] == 'e',
        "--ignore-rust-version"@[16] == 'r',
        "--ignore-rust-version"@[17] == 's',
        "--ignore-rust-version"@[18] == 'i',
        "--ignore-rust-version"@[19] == 'o',
        "--ignore-rust-version"@[20] == 'n',
        "--future-incompat-report"@.len() == 24,
        "--future-incompat-report"@[0] == '-',
        "--future-incompat-report"@[1] == '-',
        "--future-incompat-report"@[2] == 'f',
        "--future-incompat-report"@[3] == 'u',
        "--future-incompat-report"@[4] == 't',
        "--future-incompat-report"@[5] == 'u',
        "--future-incompat-report"@[6] == 'r',
        "--future-incompat-report"@[7] == 'e',
        "--future-incompat-report"@[8] == '-',
        "--future-incompat-report"@[9] == 'i',
        "--future-incompat-report"@[10] == 'n',
        "--future-incompat-report"@[11] == 'c',
        "--future-incompat-report"@[12] == 'o',
        "--future-incompat-report"@[13] == 'm',
        "--future-incompat-report"@[14] == 'p',
        "--future-incompat-report"@[15] == 'a',
        "--future-incompat-report"@[16] == 't',
        "--future-incompat-report"@[17] == '-',
        "--future-incompat-report"@[18] == 'r',
        "--future-incompat-report"@[19] == 'e',
        "--future-incompat-report"@[20] == 'p',
        "--future-incompat-report"@[21] == 'o',
        "--future-incompat-report"@[22] == 'r',
        "--future-incompat-report"@[23] == 't',
        "--message-format"@.len() == 16,
        "--message-format"@[0] == '-',
        "--message-format"@[1] == '-',
        "--message-format"@[2] == 'm',
        "--message-format"@[3] == 'e',
        "--message-format"@[4] == 's',
        "--message-format"@[5] == 's',
        "--message-format"@[6] == 'a',
        "--message-format"@[7] == 'g',
        "--message-format"@[8] == 'e',
        "--message-format"@[9] == '-',
        "--message-format"@[10] == 'f',
        "--message-format"@[11] == 'o',
        "--message-format"@[12] == 'r',
        "--message-format"@[13] == 'm',
        "--message-format"@[14] == 'a',
        "--message-format"@[15] == 't',
        "-v"@.len() == 2,
        "-v"@[0] == '-',
        "-v"@[1] == 'v',
        "-q"@.len() == 2,
        "-q"@[0] == '-',
        "-q"@[1] == 'q',
        "-p"@.len() == 2,
        "-p"@[0] == '-',
        "-p"@[1] == 'p',
        "-F"@.len() == 2,
        "-F"@[0] == '-',
        "-F"@[1] == 'F',
        "-r"@.len() == 2,
        "-r"@[0] == '-',
        "-r"@[1] == 'r',
        "-j"@.len() == 2,
        "-j"@[0] == '-',
        "-j"@[1] == 'j',
        "auto"@.len() == 4,
        "auto"@[0] == 'a',
        "auto"@[1] == 'u',
        "auto"@[2] == 't',
        "auto"@[3] == 'o',
        "always"@.len() == 6,
        "always"@[0] == 'a',
        "always"@[1] == 'l',
        "always"@[2] == 'w',
        "always"@[3] == 'a',
        "always"@[4] == 'y',
        "always"@[5] == 's',
        "never"@.len() == 5,
        "never"@[0] == 'n',
        "never"@[1] == 'e',
        "never"@[2] == 'v',
        "never"@[3] == 'e',
        "never"@[4] == 'r',
        "human"@.len() == 5,
        "human"@[0] == 'h',
        "human"@[1] == 'u',
        "human"@[2] == 'm',
        "human"@[3] == 'a',
        "human"@[4] == 'n',
        "short"@.len() == 5,
        "short"@[0] == 's',
        "short"@[1] == 'h',
        "short"@[2] == 'o',
        "short"@[3] == 'r',
        "short"@[4] == 't',
        "json"@.len() == 4,
        "json"@[0] == 'j',
        "json"@[1] == 's',
        "json"@[2] == 'o',
        "json"@[3] == 'n',
        "json-diagnostic-short"@.len() == 21,
        "json-diagnostic-short"@[0] == 'j',
        "json-diagnostic-short"@[1] == 's',
        "json-diagnostic-short"@[2] == 'o',
        "json-diagnostic-short"@[3] == 'n',
        "json-diagnostic-short"@[4] == '-',
        "json-diagnostic-short"@[5] == 'd',
        "json-diagnostic-short"@[6] == 'i',
        "json-diagnostic-short"@[7] == 'a',
        "json-diagnostic-short"@[8] == 'g',
        "json-diagnostic-short"@[9] == 'n',
        "json-diagnostic-short"@[10] == 'o',
        "json-diagnostic-short"@[11] == 's',
        "json-diagnostic-short"@[12] == 't',
        "json-diagnostic-short"@[13] == 'i',
        "json-diagnostic-short"@[14] == 'c',
        "json-diagnostic-short"@[15] == '-',
        "json-diagnostic-short"@[16] == 's',
        "json-diagnostic-short"@[17] == 'h',
        "json-diagnostic-short"@[18] == 'o',
        "json-diagnostic-short"@[19] == 'r',
        "json-diagnostic-short"@[20] == 't',
        "json-diagnostic-rendered-ansi"@.len() == 29,
        "json-diagnostic-rendered-ansi"@[0] == 'j',
        "json-diagnostic-rendered-ansi"@[1] == 's',
        "json-diagnostic-rendered-ansi"@[2] == 'o',
        "json-diagnostic-rendered-ansi"@[3] == 'n',
        "json-diagnostic-rendered-ansi"@[4] == '-',
        "json-diagnostic-rendered-ansi"@[5] == 'd',
        "json-diagnostic-rendered-ansi"@[6] == 'i',
        "json-diagnostic-rendered-ansi"@[7] == 'a',
        "json-diagnostic-rendered-ansi"@[8] == 'g',
        "json-diagnostic-rendered-ansi"@[9] == 'n',
        "json-diagnostic-rendered-ansi"@[10] == 'o',
        "json-diagnostic-rendered-ansi"@[11] == 's',
        "json-diagnostic-rendered-ansi"@[12] == 't',
        "json-diagnostic-rendered-ansi"@[13] == 'i',
        "json-diagnostic-rendered-ansi"@[14] == 'c',
        "json-diagnostic-rendered-ansi"@[15] == '-',
        "json-diagnostic-rendered-ansi"@[16] == 'r',
        "json-diagnostic-rendered-ansi"@[17] == 'e',
        "json-diagnostic-rendered-ansi"@[18] == 'n',
        "json-diagnostic-rendered-ansi"@[19] == 'd',
        "json-diagnostic-rendered-ansi"@[20] == 'e',
        "json-diagnostic-rendered-ansi"@[21] == 'r',
        "json-diagnostic-rendered-ansi"@[22] == 'e',
        "json-diagnostic-rendered-ansi"@[23] == 'd',
        "json-diagnostic-rendered-ansi"@[24] == '-',
        "json-diagnostic-rendered-ansi"@[25] == 'a',
        "json-diagnostic-rendered-ansi"@[26] == 'n',
        "json-diagnostic-rendered-ansi"@[27] == 's',
        "json-diagnostic-rendered-ansi"@[28] == 'i',
        "json-render-diagnostics"@.len() == 23,
        "json-render-diagnostics"@[0] == 'j',
        "json-render-diagnostics"@[1] == 's',
        "json-render-diagnostics"@[2] == 'o',
        "json-render-diagnostics"@[3] == 'n',
        "json-render-diagnostics"@[4] == '-',
        "json-render-diagnostics"@[5] == 'r',
        "json-render-diagnostics"@[6] == 'e',
        "json-render-diagnostics"@[7] == 'n',
        "json-render-diagnostics"@[8] == 'd',
        "json-render-diagnostics"@[9] == 'e',
        "json-render-diagnostics"@[10] == 'r',
        "json-render-diagnostics"@[11] == '-',
        "json-render-diagnostics"@[12] == 'd',
        "json-render-diagnostics"@[13] == 'i',
        "json-render-diagnostics"@[14] == 'a',
        "json-render-diagnostics"@[15] == 'g',
        "json-render-diagnostics"@[16] == 'n',
        "json-render-diagnostics"@[17] == 'o',
        "json-render-diagnostics"@[18] == 's',
        "json-render-diagnostics"@[19] == 't',
        "json-render-diagnostics"@[20] == 'i',
        "json-render-diagnostics"@[21] == 'c',
        "json-render-diagnostics"@[22] == 's',
        "release"@.len() == 7,
        "release"@[0] == 'r',
        "release"@[1] == 'e',
        "release"@[2] == 'l',
        "release"@[3] == 'e',
        "release"@[4] == 'a',
        "release"@[5] == 's',
        "release"@[6] == 'e',
        ","@.len() == 1,
        ","@[0] == ',',
{
    reveal_strlit("--verbose");
    reveal_strlit("--quiet");
    reveal_strlit("--color");
    reveal_strlit("--config");
    reveal_strlit("-Z");
    reveal_strlit("--frozen");
    reveal_strlit("--locked");
    reveal_strlit("--offline");
    reveal_strlit("--package");
    reveal_strlit("--workspace");
    reveal_strlit("--exclude");
    reveal_strlit("--all");
    reveal_strlit("--lib");
    reveal_strlit("--bins");
    reveal_strlit("--bin");
    reveal_strlit("--examples");
    reveal_strlit("--example");
    reveal_strlit("--tests");
    reveal_strlit("--test");
    reveal_strlit("--benches");
    reveal_strlit("--bench");
    reveal_strlit("--all-targets");
    reveal_strlit("--features");
    reveal_strlit("--all-features");
    reveal_strlit("--no-default-features");
    reveal_strlit("--release");
    reveal_strlit("--profile");
    reveal_strlit("--jobs");
    reveal_strlit("--keep-going");
    reveal_strlit("--target");
    reveal_strlit("--target-dir");
    reveal_strlit("--artifact-dir");
    reveal_strlit("--build-plan");
    reveal_strlit("--unit-graph");
    reveal_strlit("--timings");
    reveal_strlit("--manifest-path");
    reveal_strlit("--lockfile-path");
    reveal_strlit("--ignore-rust-version");
    reveal_strlit("--future-incompat-report");
    reveal_strlit("--message-format");
    reveal_strlit("-v");
    reveal_strlit("-q");
    reveal_strlit("-p");
    reveal_strlit("-F");
    reveal_strlit("-r");
    reveal_strlit("-j");
    reveal_strlit("auto");
    reveal_strlit("always");
    reveal_strlit("never");
    reveal_strlit("human");
    reveal_strlit("short");
    reveal_strlit("json");
    reveal_strlit("json-diagnostic-short");
    reveal_strlit("json-diagnostic-rendered-ansi");
    reveal_strlit("json-render-diagnostics");
    reveal_strlit("release");
    reveal_strlit(",");
}

/// Flags that never take a value and have a variant of their own (all but `--verbose`).
pub open spec fn is_switch(f: Flag) -> bool {
    f == Flag::Quiet || f == Flag::Frozen || f == Flag::Locked || f == Flag::Offline || f == Flag::Workspace || f == Flag::All || f == Flag::Lib || f == Flag::Bins || f == Flag::Examples || f == Flag::Tests || f == Flag::Benches || f == Flag::AllTargets || f == Flag::AllFeatures || f == Flag::NoDefaultFeatures || f == Flag::Release || f == Flag::KeepGoing || f == Flag::BuildPlan || f == Flag::UnitGraph || f == Flag::IgnoreRustVersion || f == Flag::FutureIncompatReport
}

/// Flags that never take a value.
pub open spec fn no_value(f: Flag) -> bool {
    f == Flag::Verbose || is_switch(f)
}

/// Flags whose value is kept as text.
pub open spec fn is_text(f: Flag) -> bool {
    f == Flag::Config || f == Flag::Unstable || f == Flag::Package || f == Flag::Exclude || f == Flag::Profile || f == Flag::TargetDir || f == Flag::ArtifactDir || f == Flag::ManifestPath || f == Flag::LockfilePath
}

/// Flags whose value is optional and kept as text.
pub open spec fn is_maybe(f: Flag) -> bool {
    f == Flag::Bin || f == Flag::Example || f == Flag::Test || f == Flag::Bench || f == Flag::Target || f == Flag::Timings
}

/// Color output setting for `--color`.
#[derive(Copy, Clone, PartialEq, Eq, Hash, Debug)]
pub enum ColorWhen {
    Auto,
    Always,
    Never,
}

/// The spelling of a color mode.
pub open spec fn color_text(c: ColorWhen) -> Seq<char> {
    match c {
        ColorWhen::Auto => "auto"@,
        ColorWhen::Always => "always"@,
        ColorWhen::Never => "never"@,
    }
}

/// The color mode spelled by `s`.
pub open spec fn color_of(s: Seq<char>) -> Option<ColorWhen> {
    if s == "auto"@ {
        Some(ColorWhen::Auto)
    } else if s == "always"@ {
        Some(ColorWhen::Always)
    } else if s == "never"@ {
        Some(ColorWhen::Never)
    } else {
        None
    }
}

/// A value of `--color` that is not a known color mode.
#[derive(Clone, PartialEq, Eq, Debug)]
pub struct UnknownColorMode(pub String);

impl ColorWhen {
    /// The color mode spelled by `s`.
    pub fn parse_chars(s: &[char]) -> (r: Option<ColorWhen>)
        ensures
            r == color_of(s@),
    {
        if chars_eq_str(s, "auto") {
            Some(ColorWhen::Auto)
        } else if chars_eq_str(s, "always") {
            Some(ColorWhen::Always)
        } else if chars_eq_str(s, "never") {
            Some(ColorWhen::Never)
        } else {
            None
        }
    }

    /// Parse a color mode: `auto`, `always` or `never`; any other text is an
    /// error that carries the text.
    pub fn parse(s: &str) -> (r: Result<ColorWhen, UnknownColorMode>)
        ensures
            match r {
                Ok(c) => color_of(s@) == Some(c),
                Err(e) => color_of(s@) is None && e.0@ == s@,
            },
    {
        let cs = chars_of(s);
        match ColorWhen::parse_chars(cs.as_slice()) {
            Some(c) => Ok(c),
            None => Err(UnknownColorMode(s.to_owned())),
        }
    }

    /// The spelling of the color mode (its `Display` form).
    pub fn to_string(&self) -> (r: String)
        ensures
            r@ == color_text(*self),
    {
        match self {
            ColorWhen::Auto => "auto".to_owned(),
            ColorWhen::Always => "always".to_owned(),
            ColorWhen::Never => "never".to_owned(),
        }
    }
}

impl std::str::FromStr for ColorWhen {
    type Err = UnknownColorMode;

    fn from_str(s: &str) -> (r: Result<ColorWhen, UnknownColorMode>)
        ensures
            match r {
                Ok(c) => color_of(s@) == Some(c),
                Err(e) => color_of(s@) is None && e.0@ == s@,
            },
    {
        ColorWhen::parse(s)
    }
}

/// Message format for `--message-format`.
#[derive(Clone, PartialEq, Eq, Hash, Debug)]
pub enum MessageFormat {
    Human,
    Short,
    Json,
    JsonDiagnosticShort,
    JsonDiagnosticRenderedAnsi,
    JsonRenderDiagnostics,
    Other(String),
}

/// The model of a [`MessageFormat`].
pub enum MessageFormatView {
    Human,
    Short,
    Json,
    JsonDiagnosticShort,
    JsonDiagnosticRenderedAnsi,
    JsonRenderDiagnostics,
    Other(Seq<char>),
}

impl View for MessageFormat {
    type V = MessageFormatView;

    open spec fn view(&self) -> MessageFormatView {
        match self {
            MessageFormat::Human => MessageFormatView::Human,
            MessageFormat::Short => MessageFormatView::Short,
            MessageFormat::Json => MessageFormatView::Json,
            MessageFormat::JsonDiagnosticShort => MessageFormatView::JsonDiagnosticShort,
            MessageFormat::JsonDiagnosticRenderedAnsi => MessageFormatView::JsonDiagnosticRenderedAnsi,
            MessageFormat::JsonRenderDiagnostics => MessageFormatView::JsonRenderDiagnostics,
            MessageFormat::Other(s) => MessageFormatView::Other(s@),
        }
    }
}

/// The spelling of a message format.
pub open spec fn message_format_text(m: MessageFormatView) -> Seq<char> {
    match m {
        MessageFormatView::Human => "human"@,
        MessageFormatView::Short => "short"@,
        MessageFormatView::Json => "json"@,
        MessageFormatView::JsonDiagnosticShort => "json-diagnostic-short"@,
        MessageFormatView::JsonDiagnosticRenderedAnsi => "json-diagnostic-rendered-ansi"@,
        MessageFormatView::JsonRenderDiagnostics => "json-render-diagnostics"@,
        MessageFormatView::Other(s) => s,
    }
}

/// The message format spelled by `s`; unknown spellings are kept as `Other`.
pub open spec fn message_format_of(s: Seq<char>) -> MessageFormatView {
    if s == "human"@ {
        MessageFormatView::Human
    } else if s == "short"@ {
        MessageFormatView::Short
    } else if s == "json"@ {
        MessageFormatView::Json
    } else if s == "json-diagnostic-short"@ {
        MessageFormatView::JsonDiagnosticShort
    } else if s == "json-diagnostic-rendered-ansi"@ {
        MessageFormatView::JsonDiagnosticRenderedAnsi
    } else if s == "json-render-diagnostics"@ {
        MessageFormatView::JsonRenderDiagnostics
    } else {
        MessageFormatView::Other(s)
    }
}

impl MessageFormat {
    /// The message format spelled by `s`.
    pub fn parse_chars(s: &[char]) -> (r: MessageFormat)
        ensures
            r@ == message_format_of(s@),
    {
        if chars_eq_str(s, "human") {
            MessageFormat::Human
        } else if chars_eq_str(s, "short") {
            MessageFormat::Short
        } else if chars_eq_str(s, "json") {
            MessageFormat::Json
        } else if chars_eq_str(s, "json-diagnostic-short") {
            MessageFormat::JsonDiagnosticShort
        } else if chars_eq_str(s, "json-diagnostic-rendered-ansi") {
            MessageFormat::JsonDiagnosticRenderedAnsi
        } else if chars_eq_str(s, "json-render-diagnostics") {
            MessageFormat::JsonRenderDiagnostics
        } else {
            MessageFormat::Other(string_from_chars(s))
        }
    }

    /// The message format spelled by `s`; every text is accepted.
    pub fn parse(s: &str) -> (r: MessageFormat)
        ensures
            r@ == message_format_of(s@),
    {
        let cs = chars_of(s);
        MessageFormat::parse_chars(cs.as_slice())
    }

    /// The spelling of the message format (its `Display` form).
    pub fn to_string(&self) -> (r: String)
        ensures
            r@ == message_format_text(self@),
    {
        match self {
            MessageFormat::Human => "human".to_owned(),
            MessageFormat::Short => "short".to_owned(),
            MessageFormat::Json => "json".to_owned(),
            MessageFormat::JsonDiagnosticShort => "json-diagnostic-short".to_owned(),
            MessageFormat::JsonDiagnosticRenderedAnsi => "json-diagnostic-rendered-ansi".to_owned(),
            MessageFormat::JsonRenderDiagnostics => "json-render-diagnostics".to_owned(),
            MessageFormat::Other(s) => s.clone(),
        }
    }
}

impl std::str::FromStr for MessageFormat {
    type Err = std::convert::Infallible;

    fn from_str(s: &str) -> (r: Result<MessageFormat, std::convert::Infallible>)
        ensures
            r matches Ok(m) && m@ == message_format_of(s@),
    {
        Ok(MessageFormat::parse(s))
    }
}

// ---------------------------------------------------------------------------
// The model of a parsed argument
// ---------------------------------------------------------------------------

/// The model of a [`CargoBuildArgument`]: flags are named by [`Flag`], text by
/// its characters.
pub enum ArgView {
    /// `-v...` or `--verbose` with its count.
    Verbose(u8),
    /// A flag without a value (see [`is_switch`]).
    Switch(Flag),
    /// A flag whose value is text (see [`is_text`]).
    Text(Flag, Seq<char>),
    /// A flag whose value is optional text (see [`is_maybe`]).
    MaybeText(Flag, Option<Seq<char>>),
    /// `--jobs` with its optional count.
    Jobs(Option<u32>),
    /// `--color` with its mode.
    Color(ColorWhen),
    /// `--features` with the listed features.
    Features(Seq<Seq<char>>),
    /// `--message-format` with its format.
    MessageFormat(MessageFormatView),
    /// A positional argument.
    Positional(Seq<char>),
    /// An unrecognised flag without a value.
    GenericFlag(Seq<char>),
    /// An unrecognised flag with a value.
    GenericValueFlag(Seq<char>, Seq<char>),
}

/// The view of an optional string.
pub open spec fn opt_view(o: Option<String>) -> Option<Seq<char>> {
    match o {
        Some(s) => Some(s@),
        None => None,
    }
}

/// Whether `s` is a flag: it begins with `-`.
pub open spec fn is_flag(s: Seq<char>) -> bool {
    s.len() > 0 && s[0] == '-'
}

/// Whether `s` begins with `-v`; such an argument counts verbosity.
pub open spec fn starts_with_v(s: Seq<char>) -> bool {
    s.len() >= 2 && s[0] == '-' && s[1] == 'v'
}

/// The number of `v` characters in `s`.
pub open spec fn count_v(s: Seq<char>) -> nat
    decreases s.len(),
{
    if s.len() == 0 {
        0
    } else {
        count_v(s.drop_last()) + if s.last() == 'v' {
            1nat
        } else {
            0nat
        }
    }
}

/// The verbosity token for a count: `-` followed by `n` times `v`.
pub open spec fn verbose_token(n: nat) -> Seq<char> {
    seq!['-'] + Seq::new(n, |i: int| 'v')
}

/// The long form of a short alias; any other text unchanged.
pub open spec fn alias(s: Seq<char>) -> Seq<char> {
    if s == "-v"@ {
        flag_text(Flag::Verbose)
    } else if s == "-q"@ {
        flag_text(Flag::Quiet)
    } else if s == "-p"@ {
        flag_text(Flag::Package)
    } else if s == "-F"@ {
        flag_text(Flag::Features)
    } else if s == "-r"@ {
        flag_text(Flag::Release)
    } else if s == "-j"@ {
        flag_text(Flag::Jobs)
    } else {
        s
    }
}

/// Whether the flag `s` may take a value: it is a flag and not one of the
/// flags that never take one.
pub open spec fn accepts_value(s: Seq<char>) -> bool {
    is_flag(s) && !(flag_of(s) matches Some(f) && no_value(f))
}

/// Whether `c` separates features in a `--features` value.
pub open spec fn is_feature_sep(c: char) -> bool {
    is_whitespace(c) || c == ','
}

/// Scanning `s` from the left: the features completed so far and the feature
/// being read.
pub open spec fn feature_scan(s: Seq<char>) -> (Seq<Seq<char>>, Seq<char>)
    decreases s.len(),
{
    if s.len() == 0 {
        (seq![], seq![])
    } else {
        let (done, cur) = feature_scan(s.drop_last());
        if is_feature_sep(s.last()) {
            if cur.len() > 0 {
                (done.push(cur), seq![])
            } else {
                (done, seq![])
            }
        } else {
            (done, cur.push(s.last()))
        }
    }
}

/// The non-empty runs between separators of a `--features` value.
pub open spec fn split_features(s: Seq<char>) -> Seq<Seq<char>> {
    let (done, cur) = feature_scan(s);
    if cur.len() > 0 {
        done.push(cur)
    } else {
        done
    }
}

/// The argument given as `flag` alone.
pub open spec fn parse_bare(flag: Seq<char>) -> ArgView {
    match flag_of(flag) {
        Some(f) => if f == Flag::Verbose {
            ArgView::Verbose(1)
        } else if is_switch(f) {
            ArgView::Switch(f)
        } else if is_maybe(f) {
            ArgView::MaybeText(f, None)
        } else if f == Flag::Jobs {
            ArgView::Jobs(None)
        } else {
            ArgView::GenericFlag(flag)
        },
        None => if is_flag(flag) {
            ArgView::GenericFlag(flag)
        } else {
            ArgView::Positional(flag)
        },
    }
}

/// The argument given as `flag` with `value`; a value that the flag cannot
/// take keeps both as a generic flag.
pub open spec fn parse_valued(flag: Seq<char>, value: Seq<char>) -> ArgView {
    match flag_of(flag) {
        Some(f) => if f == Flag::Color {
            match color_of(value) {
                Some(c) => ArgView::Color(c),
                None => ArgView::GenericValueFlag(flag, value),
            }
        } else if f == Flag::Jobs {
            match parse_u32(value) {
                Some(n) => ArgView::Jobs(Some(n)),
                None => ArgView::GenericValueFlag(flag, value),
            }
        } else if f == Flag::Features {
            ArgView::Features(split_features(value))
        } else if f == Flag::MessageFormat {
            ArgView::MessageFormat(message_format_of(value))
        } else if is_text(f) {
            ArgView::Text(f, value)
        } else if is_maybe(f) {
            ArgView::MaybeText(f, Some(value))
        } else {
            ArgView::GenericValueFlag(flag, value)
        },
        None => ArgView::GenericValueFlag(flag, value),
    }
}

/// The first argument of the token list `toks` and how many tokens it uses.
pub open spec fn parse_one(toks: Seq<Seq<char>>) -> (ArgView, nat)
    recommends
        toks.len() > 0,
{
    let t = toks[0];
    if starts_with_v(t) {
        (ArgView::Verbose((count_v(t) % 256) as u8), 1)
    } else {
        let a = alias(t);
        if !is_flag(a) {
            (ArgView::Positional(a), 1)
        } else if !accepts_value(a) {
            (parse_bare(a), 1)
        } else {
            match split_once(a, '=') {
                Some((f, v)) => (parse_valued(alias(f), v), 1),
                None => if toks.len() > 1 && !is_flag(toks[1]) {
                    (parse_valued(a, toks[1]), 2)
                } else {
                    (parse_bare(a), 1)
                },
            }
        }
    }
}

/// The arguments of the token list `toks`, in order.
pub open spec fn parse_args(toks: Seq<Seq<char>>) -> Seq<ArgView>
    decreases toks.len(),
{
    if toks.len() == 0 {
        seq![]
    } else {
        let (a, k) = parse_one(toks);
        if 1 <= k <= toks.len() {
            seq![a] + parse_args(toks.skip(k as int))
        } else {
            seq![a]
        }
    }
}

/// The tokens that render one argument.
pub open spec fn render_one(a: ArgView) -> Seq<Seq<char>> {
    match a {
        ArgView::Verbose(n) => if n == 0 {
            seq![]
        } else {
            seq![verbose_token(n as nat)]
        },
        ArgView::Switch(f) => seq![flag_text(f)],
        ArgView::Text(f, v) => seq![flag_text(f), v],
        ArgView::MaybeText(f, None) => seq![flag_text(f)],
        ArgView::MaybeText(f, Some(v)) => seq![flag_text(f), v],
        ArgView::Jobs(None) => seq![flag_text(Flag::Jobs)],
        ArgView::Jobs(Some(n)) => seq![flag_text(Flag::Jobs), decimal(n as nat)],
        ArgView::Color(c) => seq![flag_text(Flag::Color), color_text(c)],
        ArgView::Features(fs) => seq![flag_text(Flag::Features), join(fs, ","@)],
        ArgView::MessageFormat(m) => seq![flag_text(Flag::MessageFormat), message_format_text(m)],
        ArgView::Positional(s) => seq![s],
        ArgView::GenericFlag(f) => seq![f],
        ArgView::GenericValueFlag(f, v) => seq![f, v],
    }
}

/// The tokens that render a list of arguments.
pub open spec fn render(args: Seq<ArgView>) -> Seq<Seq<char>>
    decreases args.len(),
{
    if args.len() == 0 {
        seq![]
    } else {
        render_one(args[0]) + render(args.drop_first())
    }
}

/// The characters of each token.
pub open spec fn tokens_view(v: Seq<&str>) -> Seq<Seq<char>> {
    v.map_values(|t: &str| t@)
}

/// The characters of each token.
pub open spec fn char_tokens_view(v: Seq<Vec<char>>) -> Seq<Seq<char>> {
    v.map_values(|t: Vec<char>| t@)
}

/// The model of each argument.
pub open spec fn args_view(v: Seq<CargoBuildArgument>) -> Seq<ArgView> {
    v.map_values(|a: CargoBuildArgument| a@)
}

/// The view of each borrowed text.
pub open spec fn strs_view(v: Seq<&str>) -> Seq<Seq<char>> {
    v.map_values(|t: &str| t@)
}

// ---------------------------------------------------------------------------
// Queries over a list of arguments
// ---------------------------------------------------------------------------

/// The profile selected by the first `--profile` or `--release` argument.
pub open spec fn profile_of(args: Seq<ArgView>) -> Option<Seq<char>>
    decreases args.len(),
{
    if args.len() == 0 {
        None
    } else {
        match args[0] {
            ArgView::Text(f, p) if f == Flag::Profile => Some(p),
            ArgView::Switch(f) if f == Flag::Release => Some("release"@),
            _ => profile_of(args.drop_first()),
        }
    }
}

/// The value of the first `Text(f, _)` argument.
pub open spec fn first_text(args: Seq<ArgView>, f: Flag) -> Option<Seq<char>>
    decreases args.len(),
{
    if args.len() == 0 {
        None
    } else {
        match args[0] {
            ArgView::Text(g, v) if g == f => Some(v),
            _ => first_text(args.drop_first(), f),
        }
    }
}

/// The value of the first `--target <triple>` argument.
pub open spec fn first_target(args: Seq<ArgView>) -> Option<Seq<char>>
    decreases args.len(),
{
    if args.len() == 0 {
        None
    } else {
        match args[0] {
            ArgView::MaybeText(g, Some(v)) if g == Flag::Target => Some(v),
            _ => first_target(args.drop_first()),
        }
    }
}

/// The values of all `Text(f, _)` arguments, in order.
pub open spec fn all_texts(args: Seq<ArgView>, f: Flag) -> Seq<Seq<char>>
    decreases args.len(),
{
    if args.len() == 0 {
        seq![]
    } else {
        all_texts(args.drop_last(), f) + match args.last() {
            ArgView::Text(g, v) if g == f => seq![v],
            _ => seq![],
        }
    }
}

/// All features listed by `--features` arguments, in order.
pub open spec fn all_features_listed(args: Seq<ArgView>) -> Seq<Seq<char>>
    decreases args.len(),
{
    if args.len() == 0 {
        seq![]
    } else {
        all_features_listed(args.drop_last()) + match args.last() {
            ArgView::Features(fs) => fs,
            _ => seq![],
        }
    }
}

/// Whether the switch `f` occurs among the arguments.
pub open spec fn has_switch(args: Seq<ArgView>, f: Flag) -> bool {
    exists|i: int| 0 <= i < args.len() && args[i] == ArgView::Switch(f)
}

/// Whether the argument enables release mode: the `--release` switch, or
/// `--profile release`.
pub open spec fn is_release_arg(a: ArgView) -> bool {
    a == ArgView::Switch(Flag::Release) || a == ArgView::Text(Flag::Profile, "release"@)
}

/// Whether some argument enables release mode.
pub open spec fn enables_release(args: Seq<ArgView>) -> bool {
    exists|i: int| 0 <= i < args.len() && #[trigger] is_release_arg(args[i])
}

/// A parsed argument for a `cargo build` invocation.
///
/// Flags that have short aliases (`-v`, `-q`, `-p`, `-F`, `-r`, `-j`) parse to
/// the same variant as their long form and render in the long form. Flags that
/// are not recognised become [`CargoBuildArgument::GenericFlag`] or
/// [`CargoBuildArgument::GenericValueFlag`].
#[derive(Clone, PartialEq, Eq, Debug)]
pub enum CargoBuildArgument {
    /// `-v` or `--verbose` with count (e.g., -vv = 2)
    Verbose(u8),
    /// `-q` or `--quiet`
    Quiet,
    /// `--color <when>`
    Color(ColorWhen),
    /// `--config <key=value>`
    Config(String),
    /// `-Z <flag>`
    UnstableFlag(String),
    /// `--frozen`
    Frozen,
    /// `--locked`
    Locked,
    /// `--offline`
    Offline,
    /// `-p` or `--package <spec>`
    Package(String),
    /// `--workspace`
    Workspace,
    /// `--exclude <spec>`
    Exclude(String),
    /// `--all` (deprecated alias for --workspace)
    All,
    /// `--lib`
    Lib,
    /// `--bins`
    Bins,
    /// `--bin [<name>]`
    Bin(Option<String>),
    /// `--examples`
    Examples,
    /// `--example [<name>]`
    Example(Option<String>),
    /// `--tests`
    Tests,
    /// `--test [<name>]`
    Test(Option<String>),
    /// `--benches`
    Benches,
    /// `--bench [<name>]`
    Bench(Option<String>),
    /// `--all-targets`
    AllTargets,
    /// `-F` or `--features <features>` (space or comma separated)
    Features(Vec<String>),
    /// `--all-features`
    AllFeatures,
    /// `--no-default-features`
    NoDefaultFeatures,
    /// `-r` or `--release`
    Release,
    /// `--profile <name>`
    Profile(String),
    /// `-j` or `--jobs [<n>]`
    Jobs(Option<u32>),
    /// `--keep-going`
    KeepGoing,
    /// `--target [<triple>]`
    Target(Option<String>),
    /// `--target-dir <directory>`
    TargetDir(String),
    /// `--artifact-dir <path>` (unstable)
    ArtifactDir(String),
    /// `--build-plan` (unstable)
    BuildPlan,
    /// `--unit-graph` (unstable)
    UnitGraph,
    /// `--timings[=<fmts>]` (unstable)
    Timings(Option<String>),
    /// `--manifest-path <path>`
    ManifestPath(String),
    /// `--lockfile-path <path>` (unstable)
    LockfilePath(String),
    /// `--ignore-rust-version`
    IgnoreRustVersion,
    /// `--future-incompat-report`
    FutureIncompatReport,
    /// `--message-format <fmt>`
    MessageFormat(MessageFormat),
    /// Positional argument without a flag
    Positional(String),
    /// Any other flag without a value that isn't explicitly handled.
    GenericFlag(String),
    /// Any other flag with a value that isn't explicitly handled.
    GenericValueFlag(String, String),
}

impl View for CargoBuildArgument {
    type V = ArgView;

    open spec fn view(&self) -> ArgView {
        match self {
            CargoBuildArgument::Verbose(n) => ArgView::Verbose(*n),
            CargoBuildArgument::Quiet => ArgView::Switch(Flag::Quiet),
            CargoBuildArgument::Color(c) => ArgView::Color(*c),
            CargoBuildArgument::Config(s) => ArgView::Text(Flag::Config, s@),
            CargoBuildArgument::UnstableFlag(s) => ArgView::Text(Flag::Unstable, s@),
            CargoBuildArgument::Frozen => ArgView::Switch(Flag::Frozen),
            CargoBuildArgument::Locked => ArgView::Switch(Flag::Locked),
            CargoBuildArgument::Offline => ArgView::Switch(Flag::Offline),
            CargoBuildArgument::Package(s) => ArgView::Text(Flag::Package, s@),
            CargoBuildArgument::Workspace => ArgView::Switch(Flag::Workspace),
            CargoBuildArgument::Exclude(s) => ArgView::Text(Flag::Exclude, s@),
            CargoBuildArgument::All => ArgView::Switch(Flag::All),
            CargoBuildArgument::Lib => ArgView::Switch(Flag::Lib),
            CargoBuildArgument::Bins => ArgView::Switch(Flag::Bins),
            CargoBuildArgument::Bin(o) => ArgView::MaybeText(Flag::Bin, opt_view(*o)),
            CargoBuildArgument::Examples => ArgView::Switch(Flag::Examples),
            CargoBuildArgument::Example(o) => ArgView::MaybeText(Flag::Example, opt_view(*o)),
            CargoBuildArgument::Tests => ArgView::Switch(Flag::Tests),
            CargoBuildArgument::Test(o) => ArgView::MaybeText(Flag::Test, opt_view(*o)),
            CargoBuildArgument::Benches => ArgView::Switch(Flag::Benches),
            CargoBuildArgument::Bench(o) => ArgView::MaybeText(Flag::Bench, opt_view(*o)),
            CargoBuildArgument::AllTargets => ArgView::Switch(Flag::AllTargets),
            CargoBuildArgument::Features(fs) => ArgView::Features(strings_view(fs@)),
            CargoBuildArgument::AllFeatures => ArgView::Switch(Flag::AllFeatures),
            CargoBuildArgument::NoDefaultFeatures => ArgView::Switch(Flag::NoDefaultFeatures),
            CargoBuildArgument::Release => ArgView::Switch(Flag::Release),
            CargoBuildArgument::Profile(s) => ArgView::Text(Flag::Profile, s@),
            CargoBuildArgument::Jobs(o) => ArgView::Jobs(*o),
            CargoBuildArgument::KeepGoing => ArgView::Switch(Flag::KeepGoing),
            CargoBuildArgument::Target(o) => ArgView::MaybeText(Flag::Target, opt_view(*o)),
            CargoBuildArgument::TargetDir(s) => ArgView::Text(Flag::TargetDir, s@),
            CargoBuildArgument::ArtifactDir(s) => ArgView::Text(Flag::ArtifactDir, s@),
            CargoBuildArgument::BuildPlan => ArgView::Switch(Flag::BuildPlan),
            CargoBuildArgument::UnitGraph => ArgView::Switch(Flag::UnitGraph),
            CargoBuildArgument::Timings(o) => ArgView::MaybeText(Flag::Timings, opt_view(*o)),
            CargoBuildArgument::ManifestPath(s) => ArgView::Text(Flag::ManifestPath, s@),
            CargoBuildArgument::LockfilePath(s) => ArgView::Text(Flag::LockfilePath, s@),
            CargoBuildArgument::IgnoreRustVersion => ArgView::Switch(Flag::IgnoreRustVersion),
            CargoBuildArgument::FutureIncompatReport => ArgView::Switch(Flag::FutureIncompatReport),
            CargoBuildArgument::MessageFormat(m) => ArgView::MessageFormat(m@),
            CargoBuildArgument::Positional(s) => ArgView::Positional(s@),
            CargoBuildArgument::GenericFlag(s) => ArgView::GenericFlag(s@),
            CargoBuildArgument::GenericValueFlag(f, v) => ArgView::GenericValueFlag(f@, v@),
        }
    }
}

/// An argument given as `flag` alone (no value).
fn parse_bare_exec(flag: &[char]) -> (r: CargoBuildArgument)
    ensures
        r@ == parse_bare(flag@),
{
    proof {
        lemma_literals();
    }
    match flag_lookup(flag) {
        Some(Flag::Verbose) => CargoBuildArgument::Verbose(1),
        Some(Flag::Quiet) => CargoBuildArgument::Quiet,
        Some(Flag::Frozen) => CargoBuildArgument::Frozen,
        Some(Flag::Locked) => CargoBuildArgument::Locked,
        Some(Flag::Offline) => CargoBuildArgument::Offline,
        Some(Flag::Workspace) => CargoBuildArgument::Workspace,
        Some(Flag::All) => CargoBuildArgument::All,
        Some(Flag::Lib) => CargoBuildArgument::Lib,
        Some(Flag::Bins) => CargoBuildArgument::Bins,
        Some(Flag::Examples) => CargoBuildArgument::Examples,
        Some(Flag::Tests) => CargoBuildArgument::Tests,
        Some(Flag::Benches) => CargoBuildArgument::Benches,
        Some(Flag::AllTargets) => CargoBuildArgument::AllTargets,
        Some(Flag::AllFeatures) => CargoBuildArgument::AllFeatures,
        Some(Flag::NoDefaultFeatures) => CargoBuildArgument::NoDefaultFeatures,
        Some(Flag::Release) => CargoBuildArgument::Release,
        Some(Flag::KeepGoing) => CargoBuildArgument::KeepGoing,
        Some(Flag::BuildPlan) => CargoBuildArgument::BuildPlan,
        Some(Flag::UnitGraph) => CargoBuildArgument::UnitGraph,
        Some(Flag::IgnoreRustVersion) => CargoBuildArgument::IgnoreRustVersion,
        Some(Flag::FutureIncompatReport) => CargoBuildArgument::FutureIncompatReport,
        Some(Flag::Bin) => CargoBuildArgument::Bin(None),
        Some(Flag::Example) => CargoBuildArgument::Example(None),
        Some(Flag::Test) => CargoBuildArgument::Test(None),
        Some(Flag::Bench) => CargoBuildArgument::Bench(None),
        Some(Flag::Target) => CargoBuildArgument::Target(None),
        Some(Flag::Timings) => CargoBuildArgument::Timings(None),
        Some(Flag::Jobs) => CargoBuildArgument::Jobs(None),
        _ => if flag.len() > 0 && flag[0] == '-' {
            CargoBuildArgument::GenericFlag(string_from_chars(flag))
        } else {
            CargoBuildArgument::Positional(string_from_chars(flag))
        },
    }
}

/// An argument given as `flag` with `value`.
fn parse_valued_exec(flag: &[char], value: &[char]) -> (r: CargoBuildArgument)
    ensures
        r@ == parse_valued(flag@, value@),
{
    match flag_lookup(flag) {
        Some(Flag::Color) => match ColorWhen::parse_chars(value) {
            Some(c) => CargoBuildArgument::Color(c),
            None => CargoBuildArgument::GenericValueFlag(string_from_chars(flag), string_from_chars(value)),
        },
        Some(Flag::Jobs) => match parse_u32_chars(value) {
            Some(n) => CargoBuildArgument::Jobs(Some(n)),
            None => CargoBuildArgument::GenericValueFlag(string_from_chars(flag), string_from_chars(value)),
        },
        Some(Flag::Features) => CargoBuildArgument::Features(split_features_exec(value)),
        Some(Flag::MessageFormat) => CargoBuildArgument::MessageFormat(MessageFormat::parse_chars(value)),
        Some(Flag::Config) => CargoBuildArgument::Config(string_from_chars(value)),
        Some(Flag::Unstable) => CargoBuildArgument::UnstableFlag(string_from_chars(value)),
        Some(Flag::Package) => CargoBuildArgument::Package(string_from_chars(value)),
        Some(Flag::Exclude) => CargoBuildArgument::Exclude(string_from_chars(value)),
        Some(Flag::Profile) => CargoBuildArgument::Profile(string_from_chars(value)),
        Some(Flag::TargetDir) => CargoBuildArgument::TargetDir(string_from_chars(value)),
        Some(Flag::ArtifactDir) => CargoBuildArgument::ArtifactDir(string_from_chars(value)),
        Some(Flag::ManifestPath) => CargoBuildArgument::ManifestPath(string_from_chars(value)),
        Some(Flag::LockfilePath) => CargoBuildArgument::LockfilePath(string_from_chars(value)),
        Some(Flag::Bin) => CargoBuildArgument::Bin(Some(string_from_chars(value))),
        Some(Flag::Example) => CargoBuildArgument::Example(Some(string_from_chars(value))),
        Some(Flag::Test) => CargoBuildArgument::Test(Some(string_from_chars(value))),
        Some(Flag::Bench) => CargoBuildArgument::Bench(Some(string_from_chars(value))),
        Some(Flag::Target) => CargoBuildArgument::Target(Some(string_from_chars(value))),
        Some(Flag::Timings) => CargoBuildArgument::Timings(Some(string_from_chars(value))),
        _ => CargoBuildArgument::GenericValueFlag(string_from_chars(flag), string_from_chars(value)),
    }
}

impl CargoBuildArgument {
    /// Render the argument in argv form (long flags, space-separated values).
    pub fn to_argv(&self) -> (r: Vec<String>)
        ensures
            strings_view(r@) == render_one(self@),
    {
        let mut r: Vec<String> = Vec::new();
        match self {
            CargoBuildArgument::Verbose(count) => {
                if *count != 0 {
                    r.push(verbose_token_exec(*count));
                }
            },
            CargoBuildArgument::Quiet => {
                r.push(flag_string(Flag::Quiet));
            },
            CargoBuildArgument::Frozen => {
                r.push(flag_string(Flag::Frozen));
            },
            CargoBuildArgument::Locked => {
                r.push(flag_string(Flag::Locked));
            },
            CargoBuildArgument::Offline => {
                r.push(flag_string(Flag::Offline));
            },
            CargoBuildArgument::Workspace => {
                r.push(flag_string(Flag::Workspace));
            },
            CargoBuildArgument::All => {
                r.push(flag_string(Flag::All));
            },
            CargoBuildArgument::Lib => {
                r.push(flag_string(Flag::Lib));
            },
            CargoBuildArgument::Bins => {
                r.push(flag_string(Flag::Bins));
            },
            CargoBuildArgument::Examples => {
                r.push(flag_string(Flag::Examples));
            },
            CargoBuildArgument::Tests => {
                r.push(flag_string(Flag::Tests));
            },
            CargoBuildArgument::Benches => {
                r.push(flag_string(Flag::Benches));
            },
            CargoBuildArgument::AllTargets => {
                r.push(flag_string(Flag::AllTargets));
            },
            CargoBuildArgument::AllFeatures => {
                r.push(flag_string(Flag::AllFeatures));
            },
            CargoBuildArgument::NoDefaultFeatures => {
                r.push(flag_string(Flag::NoDefaultFeatures));
            },
            CargoBuildArgument::Release => {
                r.push(flag_string(Flag::Release));
            },
            CargoBuildArgument::KeepGoing => {
                r.push(flag_string(Flag::KeepGoing));
            },
            CargoBuildArgument::BuildPlan => {
                r.push(flag_string(Flag::BuildPlan));
            },
            CargoBuildArgument::UnitGraph => {
                r.push(flag_string(Flag::UnitGraph));
            },
            CargoBuildArgument::IgnoreRustVersion => {
                r.push(flag_string(Flag::IgnoreRustVersion));
            },
            CargoBuildArgument::FutureIncompatReport => {
                r.push(flag_string(Flag::FutureIncompatReport));
            },
            CargoBuildArgument::Config(v) => {
                r.push(flag_string(Flag::Config));
                r.push(v.clone());
            },
            CargoBuildArgument::UnstableFlag(v) => {
                r.push(flag_string(Flag::Unstable));
                r.push(v.clone());
            },
            CargoBuildArgument::Package(v) => {
                r.push(flag_string(Flag::Package));
                r.push(v.clone());
            },
            CargoBuildArgument::Exclude(v) => {
                r.push(flag_string(Flag::Exclude));
                r.push(v.clone());
            },
            CargoBuildArgument::Profile(v) => {
                r.push(flag_string(Flag::Profile));
                r.push(v.clone());
            },
            CargoBuildArgument::TargetDir(v) => {
                r.push(flag_string(Flag::TargetDir));
                r.push(v.clone());
            },
            CargoBuildArgument::ArtifactDir(v) => {
                r.push(flag_string(Flag::ArtifactDir));
                r.push(v.clone());
            },
            CargoBuildArgument::ManifestPath(v) => {
                r.push(flag_string(Flag::ManifestPath));
                r.push(v.clone());
            },
            CargoBuildArgument::LockfilePath(v) => {
                r.push(flag_string(Flag::LockfilePath));
                r.push(v.clone());
            },
            CargoBuildArgument::Bin(o) => {
                r.push(flag_string(Flag::Bin));
                match o {
                    Some(v) => r.push(v.clone()),
                    None => {},
                }
            },
            CargoBuildArgument::Example(o) => {
                r.push(flag_string(Flag::Example));
                match o {
                    Some(v) => r.push(v.clone()),
                    None => {},
                }
            },
            CargoBuildArgument::Test(o) => {
                r.push(flag_string(Flag::Test));
                match o {
                    Some(v) => r.push(v.clone()),
                    None => {},
                }
            },
            CargoBuildArgument::Bench(o) => {
                r.push(flag_string(Flag::Bench));
                match o {
                    Some(v) => r.push(v.clone()),
                    None => {},
                }
            },
            CargoBuildArgument::Target(o) => {
                r.push(flag_string(Flag::Target));
                match o {
                    Some(v) => r.push(v.clone()),
                    None => {},
                }
            },
            CargoBuildArgument::Timings(o) => {
                r.push(flag_string(Flag::Timings));
                match o {
                    Some(v) => r.push(v.clone()),
                    None => {},
                }
            },
            CargoBuildArgument::Jobs(o) => {
                r.push(flag_string(Flag::Jobs));
                match o {
                    Some(n) => r.push(decimal_string(*n as u64)),
                    None => {},
                }
            },
            CargoBuildArgument::Color(c) => {
                r.push(flag_string(Flag::Color));
                r.push(c.to_string());
            },
            CargoBuildArgument::Features(fs) => {
                r.push(flag_string(Flag::Features));
                r.push(crate::text::join_strings(fs.as_slice(), ","));
            },
            CargoBuildArgument::MessageFormat(m) => {
                r.push(flag_string(Flag::MessageFormat));
                r.push(m.to_string());
            },
            CargoBuildArgument::Positional(s) => {
                r.push(s.clone());
            },
            CargoBuildArgument::GenericFlag(f) => {
                r.push(f.clone());
            },
            CargoBuildArgument::GenericValueFlag(f, v) => {
                r.push(f.clone());
                r.push(v.clone());
            },
        }
        proof {
            assert(strings_view(r@) =~= render_one(self@));
        }
        r
    }
}

// ---------------------------------------------------------------------------
// Executable pieces of the parser
// ---------------------------------------------------------------------------

/// The long spelling of a flag, as an owned string.
fn flag_string(f: Flag) -> (r: String)
    ensures
        r@ == flag_text(f),
{
    flag_str(f).to_owned()
}

/// Whether the flag never takes a value.
fn no_value_exec(f: Flag) -> (r: bool)
    ensures
        r == no_value(f),
{
    match f {
        Flag::Verbose | Flag::Quiet | Flag::Frozen | Flag::Locked | Flag::Offline | Flag::Workspace
        | Flag::All | Flag::Lib | Flag::Bins | Flag::Examples | Flag::Tests | Flag::Benches
        | Flag::AllTargets | Flag::AllFeatures | Flag::NoDefaultFeatures | Flag::Release
        | Flag::KeepGoing | Flag::BuildPlan | Flag::UnitGraph | Flag::IgnoreRustVersion
        | Flag::FutureIncompatReport => true,
        _ => false,
    }
}

/// Whether `s` begins with `-`.
fn is_flag_exec(s: &[char]) -> (r: bool)
    ensures
        r == is_flag(s@),
{
    s.len() > 0 && s[0] == '-'
}

/// Whether the flag `s` may take a value.
fn accepts_value_exec(s: &[char]) -> (r: bool)
    ensures
        r == accepts_value(s@),
{
    if !is_flag_exec(s) {
        return false;
    }
    match flag_lookup(s) {
        Some(f) => !no_value_exec(f),
        None => true,
    }
}

/// The long form of a short alias; any other text unchanged.
fn alias_exec(s: &[char]) -> (r: Vec<char>)
    ensures
        r@ == alias(s@),
{
    if chars_eq_str(s, "-v") {
        chars_of(flag_str(Flag::Verbose))
    } else if chars_eq_str(s, "-q") {
        chars_of(flag_str(Flag::Quiet))
    } else if chars_eq_str(s, "-p") {
        chars_of(flag_str(Flag::Package))
    } else if chars_eq_str(s, "-F") {
        chars_of(flag_str(Flag::Features))
    } else if chars_eq_str(s, "-r") {
        chars_of(flag_str(Flag::Release))
    } else if chars_eq_str(s, "-j") {
        chars_of(flag_str(Flag::Jobs))
    } else {
        crate::text::slice_range(s, 0, s.len())
    }
}

/// The number of `v` characters in `s`, as the `u8` that records it.
fn count_v_exec(s: &[char]) -> (r: u8)
    ensures
        r == (count_v(s@) % 256) as u8,
{
    let mut count: u8 = 0;
    let mut i: usize = 0;
    while i < s.len()
        invariant
            i <= s@.len(),
            count == (count_v(s@.take(i as int)) % 256) as u8,
        decreases s.len() - i,
    {
        proof {
            assert(s@.take(i + 1).drop_last() =~= s@.take(i as int));
        }
        if s[i] == 'v' {
            count = if count == 255 {
                0
            } else {
                count + 1
            };
        }
        i = i + 1;
    }
    assert(s@.take(s@.len() as int) =~= s@);
    count
}

/// The verbosity token for a count.
fn verbose_token_exec(n: u8) -> (r: String)
    ensures
        r@ == verbose_token(n as nat),
{
    let mut r = String::new();
    push_char(&mut r, '-');
    let mut i: u8 = 0;
    while i < n
        invariant
            i <= n,
            r@ == verbose_token(i as nat),
        decreases n - i,
    {
        push_char(&mut r, 'v');
        i = i + 1;
        assert(r@ =~= verbose_token(i as nat));
    }
    r
}

/// The features listed in a `--features` value.
fn split_features_exec(s: &[char]) -> (r: Vec<String>)
    ensures
        strings_view(r@) == split_features(s@),
{
    let mut done: Vec<String> = Vec::new();
    let mut cur: Vec<char> = Vec::new();
    let mut i: usize = 0;
    while i < s.len()
        invariant
            i <= s@.len(),
            (strings_view(done@), cur@) == feature_scan(s@.take(i as int)),
        decreases s.len() - i,
    {
        proof {
            assert(s@.take(i + 1).drop_last() =~= s@.take(i as int));
        }
        let c = s[i];
        if is_whitespace_char(c) || c == ',' {
            if cur.len() > 0 {
                let word = string_from_chars(cur.as_slice());
                done.push(word);
                cur = Vec::new();
                assert(strings_view(done@) =~= feature_scan(s@.take(i + 1)).0);
            }
        } else {
            cur.push(c);
        }
        i = i + 1;
    }
    assert(s@.take(s@.len() as int) =~= s@);
    if cur.len() > 0 {
        let word = string_from_chars(cur.as_slice());
        done.push(word);
        assert(strings_view(done@) =~= split_features(s@));
    }
    done
}

/// The first argument at position `i` of the token list and the number of
/// tokens it uses.
fn parse_one_exec(toks: &Vec<Vec<char>>, i: usize) -> (r: (CargoBuildArgument, usize))
    requires
        i < toks@.len(),
    ensures
        (r.0@, r.1 as nat) == parse_one(char_tokens_view(toks@).skip(i as int)),
{
    let ghost tv = char_tokens_view(toks@).skip(i as int);
    assert(tv[0] == toks@[i as int]@);
    let t = toks[i].as_slice();
    if t.len() >= 2 && t[0] == '-' && t[1] == 'v' {
        let n = count_v_exec(t);
        return (CargoBuildArgument::Verbose(n), 1);
    }
    let a = alias_exec(t);
    if !is_flag_exec(a.as_slice()) {
        return (CargoBuildArgument::Positional(string_from_chars(a.as_slice())), 1);
    }
    if !accepts_value_exec(a.as_slice()) {
        return (parse_bare_exec(a.as_slice()), 1);
    }
    match split_once_chars(a.as_slice(), '=') {
        Some((f, v)) => {
            let f2 = alias_exec(f.as_slice());
            (parse_valued_exec(f2.as_slice(), v.as_slice()), 1)
        },
        None => {
            if i < toks.len() - 1 {
                assert(tv[1] == toks@[i + 1]@);
                let next = toks[i + 1].as_slice();
                if !is_flag_exec(next) {
                    return (parse_valued_exec(a.as_slice(), next), 2);
                }
            }
            (parse_bare_exec(a.as_slice()), 1)
        },
    }
}

/// The unfolding of `parse_args` at a position of the token list.
proof fn lemma_parse_args_step(toks: Seq<Seq<char>>, i: int)
    requires
        0 <= i < toks.len(),
        1 <= parse_one(toks.skip(i)).1 <= toks.len() - i,
    ensures
        parse_args(toks.skip(i)) == seq![parse_one(toks.skip(i)).0] + parse_args(
            toks.skip(i + parse_one(toks.skip(i)).1),
        ),
{
    let k = parse_one(toks.skip(i)).1;
    assert(toks.skip(i).skip(k as int) =~= toks.skip(i + k));
}

/// Parsed arguments for a `cargo build` invocation.
///
/// Each string of the input is one argument of the invocation. Flags are
/// accepted as `--flag value` and `--flag=value`; short aliases are normalised
/// to their long form.
#[derive(Clone, PartialEq, Eq, Debug)]
pub struct CargoBuildArguments(pub Vec<CargoBuildArgument>);

impl View for CargoBuildArguments {
    type V = Seq<ArgView>;

    open spec fn view(&self) -> Seq<ArgView> {
        args_view(self.0@)
    }
}

impl CargoBuildArguments {
    /// Parse the arguments of a `cargo build` invocation, one string per
    /// argument.
    pub fn from_iter(args: &[&str]) -> (r: CargoBuildArguments)
        ensures
            r@ == parse_args(tokens_view(args@)),
    {
        let mut toks: Vec<Vec<char>> = Vec::new();
        let mut j: usize = 0;
        while j < args.len()
            invariant
                j <= args@.len(),
                toks@.len() == j,
                forall|k: int| 0 <= k < j ==> #[trigger] toks@[k]@ == args@[k]@,
            decreases args.len() - j,
        {
            toks.push(chars_of(args[j]));
            j = j + 1;
        }
        let ghost all = tokens_view(args@);
        assert(char_tokens_view(toks@) =~= all);
        let mut parsed: Vec<CargoBuildArgument> = Vec::new();
        let mut i: usize = 0;
        assert(all.skip(0) =~= all);
        while i < toks.len()
            invariant
                i <= toks@.len(),
                char_tokens_view(toks@) == all,
                parse_args(all) == args_view(parsed@) + parse_args(all.skip(i as int)),
            decreases toks.len() - i,
        {
            let (arg, k) = parse_one_exec(&toks, i);
            proof {
                lemma_parse_one_uses(all.skip(i as int));
                lemma_parse_args_step(all, i as int);
            }
            parsed.push(arg);
            i = i + k;
            assert(args_view(parsed@) + parse_args(all.skip(i as int)) =~= parse_args(all));
        }
        assert(all.skip(i as int) =~= Seq::<Seq<char>>::empty());
        assert(args_view(parsed@) =~= parse_args(all));
        CargoBuildArguments(parsed)
    }

    /// Render the arguments in argv form, for passing to `cargo build`.
    pub fn to_argv(&self) -> (r: Vec<String>)
        ensures
            strings_view(r@) == render(self@),
    {
        let mut out: Vec<String> = Vec::new();
        let mut i: usize = 0;
        assert(self@.skip(0) =~= self@);
        while i < self.0.len()
            invariant
                i <= self.0@.len(),
                strings_view(out@) + render(self@.skip(i as int)) == render(self@),
            decreases self.0.len() - i,
        {
            let mut part = self.0[i].to_argv();
            proof {
                assert(self@.skip(i as int).drop_first() =~= self@.skip(i + 1));
                assert(self@.skip(i as int)[0] == self.0@[i as int]@);
            }
            let ghost before = strings_view(out@);
            out.append(&mut part);
            i = i + 1;
            assert(strings_view(out@) =~= before + render_one(self.0@[i - 1]@));
        }
        proof {
            assert(self@.skip(i as int) =~= Seq::<ArgView>::empty());
        }
        out
    }

    /// The profile specified by the user: the first `--profile <name>` or
    /// `--release` (which selects `release`).
    pub fn profile(&self) -> (r: Option<&str>)
        ensures
            profile_of(self@) == match r {
                Some(s) => Some(s@),
                None => None,
            },
    {
        let mut i: usize = 0;
        assert(self@.skip(0) =~= self@);
        while i < self.0.len()
            invariant
                i <= self.0@.len(),
                profile_of(self@) == profile_of(self@.skip(i as int)),
            decreases self.0.len() - i,
        {
            proof {
                assert(self@.skip(i as int).drop_first() =~= self@.skip(i + 1));
                assert(self@.skip(i as int)[0] == self.0@[i as int]@);
            }
            match &self.0[i] {
                CargoBuildArgument::Profile(p) => {
                    return Some(p.as_str());
                },
                CargoBuildArgument::Release => {
                    return Some("release");
                },
                _ => {},
            }
            i = i + 1;
        }
        None
    }

    /// Whether release mode is enabled: by the `--release` switch or by the
    /// `release` profile.
    pub fn is_release(&self) -> (r: bool)
        ensures
            r == enables_release(self@),
    {
        let mut i: usize = 0;
        while i < self.0.len()
            invariant
                i <= self.0@.len(),
                forall|j: int| 0 <= j < i ==> !#[trigger] is_release_arg(self@[j]),
            decreases self.0.len() - i,
        {
            match &self.0[i] {
                CargoBuildArgument::Release => {
                    assert(is_release_arg(self@[i as int]));
                    return true;
                },
                CargoBuildArgument::Profile(p) => {
                    let pc = crate::text::chars_of(p.as_str());
                    if crate::text::chars_eq_str(pc.as_slice(), "release") {
                        assert(is_release_arg(self@[i as int]));
                        return true;
                    }
                },
                _ => {},
            }
            i = i + 1;
        }
        false
    }

    /// Whether "all features" are enabled.
    pub fn all_features(&self) -> (r: bool)
        ensures
            r == has_switch(self@, Flag::AllFeatures),
    {
        let mut i: usize = 0;
        while i < self.0.len()
            invariant
                i <= self.0@.len(),
                forall|j: int| 0 <= j < i ==> self@[j] != ArgView::Switch(Flag::AllFeatures),
            decreases self.0.len() - i,
        {
            if let CargoBuildArgument::AllFeatures = &self.0[i] {
                assert(self@[i as int] == ArgView::Switch(Flag::AllFeatures));
                return true;
            }
            i = i + 1;
        }
        false
    }

    /// Whether default features are disabled.
    pub fn no_default_features(&self) -> (r: bool)
        ensures
            r == has_switch(self@, Flag::NoDefaultFeatures),
    {
        let mut i: usize = 0;
        while i < self.0.len()
            invariant
                i <= self.0@.len(),
                forall|j: int| 0 <= j < i ==> self@[j] != ArgView::Switch(Flag::NoDefaultFeatures),
            decreases self.0.len() - i,
        {
            if let CargoBuildArgument::NoDefaultFeatures = &self.0[i] {
                assert(self@[i as int] == ArgView::Switch(Flag::NoDefaultFeatures));
                return true;
            }
            i = i + 1;
        }
        false
    }

    /// All package names specified, in order.
    pub fn packages(&self) -> (r: Vec<&str>)
        ensures
            strs_view(r@) == all_texts(self@, Flag::Package),
    {
        let mut out: Vec<&str> = Vec::new();
        let mut i: usize = 0;
        while i < self.0.len()
            invariant
                i <= self.0@.len(),
                strs_view(out@) == all_texts(self@.take(i as int), Flag::Package),
            decreases self.0.len() - i,
        {
            proof {
                assert(self@.take(i + 1).drop_last() =~= self@.take(i as int));
                assert(self@.take(i + 1).last() == self.0@[i as int]@);
            }
            match &self.0[i] {
                CargoBuildArgument::Package(p) => {
                    out.push(p.as_str());
                },
                _ => {},
            }
            i = i + 1;
            assert(strs_view(out@) =~= all_texts(self@.take(i as int), Flag::Package));
        }
        assert(self@.take(i as int) =~= self@);
        out
    }

    /// All features explicitly specified, in order. This does not change in
    /// the presence of `--all-features` and does not include default features.
    pub fn features(&self) -> (r: Vec<&str>)
        ensures
            strs_view(r@) == all_features_listed(self@),
    {
        let mut out: Vec<&str> = Vec::new();
        let mut i: usize = 0;
        while i < self.0.len()
            invariant
                i <= self.0@.len(),
                strs_view(out@) == all_features_listed(self@.take(i as int)),
            decreases self.0.len() - i,
        {
            proof {
                assert(self@.take(i + 1).drop_last() =~= self@.take(i as int));
                assert(self@.take(i + 1).last() == self.0@[i as int]@);
            }
            match &self.0[i] {
                CargoBuildArgument::Features(fs) => {
                    let mut j: usize = 0;
                    let ghost before = out@;
                    while j < fs.len()
                        invariant
                            j <= fs@.len(),
                            out@.len() == before.len() + j,
                            forall|k: int| 0 <= k < before.len() ==> #[trigger] out@[k] == before[k],
                            forall|k: int| 0 <= k < j ==> out@[before.len() + k]@ == #[trigger] fs@[k]@,
                        decreases fs.len() - j,
                    {
                        out.push(fs[j].as_str());
                        j = j + 1;
                    }
                    assert(strs_view(out@) =~= strs_view(before) + strings_view(fs@));

                },
                _ => {},
            }
            i = i + 1;
            assert(strs_view(out@) =~= all_features_listed(self@.take(i as int)));
        }
        assert(self@.take(i as int) =~= self@);
        out
    }

    /// The first value of the text flag `f`.
    fn first_text_exec(&self, f: Flag) -> (r: Option<&str>)
        requires
            is_text(f),
        ensures
            first_text(self@, f) == match r {
                Some(s) => Some(s@),
                None => None,
            },
    {
        let mut i: usize = 0;
        assert(self@.skip(0) =~= self@);
        while i < self.0.len()
            invariant
                is_text(f),
                i <= self.0@.len(),
                first_text(self@, f) == first_text(self@.skip(i as int), f),
            decreases self.0.len() - i,
        {
            proof {
                assert(self@.skip(i as int).drop_first() =~= self@.skip(i + 1));
                assert(self@.skip(i as int)[0] == self.0@[i as int]@);
            }
            let hit: Option<&str> = match (&self.0[i], f) {
                (CargoBuildArgument::Config(v), Flag::Config) => Some(v.as_str()),
                (CargoBuildArgument::UnstableFlag(v), Flag::Unstable) => Some(v.as_str()),
                (CargoBuildArgument::Package(v), Flag::Package) => Some(v.as_str()),
                (CargoBuildArgument::Exclude(v), Flag::Exclude) => Some(v.as_str()),
                (CargoBuildArgument::Profile(v), Flag::Profile) => Some(v.as_str()),
                (CargoBuildArgument::TargetDir(v), Flag::TargetDir) => Some(v.as_str()),
                (CargoBuildArgument::ArtifactDir(v), Flag::ArtifactDir) => Some(v.as_str()),
                (CargoBuildArgument::ManifestPath(v), Flag::ManifestPath) => Some(v.as_str()),
                (CargoBuildArgument::LockfilePath(v), Flag::LockfilePath) => Some(v.as_str()),
                _ => None,
            };
            if hit.is_some() {
                return hit;
            }
            i = i + 1;
        }
        None
    }

    /// The target triple if specified.
    pub fn target(&self) -> (r: Option<&str>)
        ensures
            first_target(self@) == match r {
                Some(s) => Some(s@),
                None => None,
            },
    {
        let mut i: usize = 0;
        assert(self@.skip(0) =~= self@);
        while i < self.0.len()
            invariant
                i <= self.0@.len(),
                first_target(self@) == first_target(self@.skip(i as int)),
            decreases self.0.len() - i,
        {
            proof {
                assert(self@.skip(i as int).drop_first() =~= self@.skip(i + 1));
                assert(self@.skip(i as int)[0] == self.0@[i as int]@);
            }
            if let CargoBuildArgument::Target(Some(t)) = &self.0[i] {
                return Some(t.as_str());
            }
            i = i + 1;
        }
        None
    }

    /// The target directory if specified.
    pub fn target_dir(&self) -> (r: Option<&str>)
        ensures
            first_text(self@, Flag::TargetDir) == match r {
                Some(s) => Some(s@),
                None => None,
            },
    {
        self.first_text_exec(Flag::TargetDir)
    }

    /// The manifest path if specified.
    pub fn manifest_path(&self) -> (r: Option<&str>)
        ensures
            first_text(self@, Flag::ManifestPath) == match r {
                Some(s) => Some(s@),
                None => None,
            },
    {
        self.first_text_exec(Flag::ManifestPath)
    }
}

/// Every step of the parser uses one or two tokens, and no more than there are.
pub proof fn lemma_parse_one_uses(toks: Seq<Seq<char>>)
    requires
        toks.len() > 0,
    ensures
        1 <= parse_one(toks).1 <= 2,
        parse_one(toks).1 <= toks.len(),
{
}

// ---------------------------------------------------------------------------
// Facts about the literal spellings
// ---------------------------------------------------------------------------

/// Whether `s` holds no `=`.
pub open spec fn no_eq_sign(s: Seq<char>) -> bool {
    forall|j: int| 0 <= j < s.len() ==> s[j] != '='
}

/// Every flag spelling is found again by [`flag_of`], is a flag, does not
/// count verbosity, is not a short alias and holds no `=`.
pub proof fn lemma_flag_text(f: Flag)
    ensures
        flag_of(flag_text(f)) == Some(f),
        is_flag(flag_text(f)),
        !starts_with_v(flag_text(f)),
        alias(flag_text(f)) == flag_text(f),
        no_eq_sign(flag_text(f)),
{
    lemma_literals();
}

/// The color spellings are found again and are not flags.
proof fn lemma_color_text(c: ColorWhen)
    ensures
        color_of(color_text(c)) == Some(c),
        !is_flag(color_text(c)),
{
    lemma_literals();
}

/// A known message format spelling is found again and is not a flag.
proof fn lemma_message_format_text(m: MessageFormatView)
    requires
        !(m is Other),
    ensures
        message_format_of(message_format_text(m)) == m,
        !is_flag(message_format_text(m)),
{
    lemma_literals();
}

/// The parsed message format is spelled back to itself.
proof fn lemma_message_format_of(s: Seq<char>)
    ensures
        message_format_of(message_format_text(message_format_of(s))) == message_format_of(s),
{
    lemma_literals();
    let m = message_format_of(s);
    if !(m is Other) {
        lemma_message_format_text(m);
    }
}

/// Facts about short aliases.
proof fn lemma_alias(s: Seq<char>)
    ensures
        alias(alias(s)) == alias(s),
        is_flag(alias(s)) == is_flag(s),
        !starts_with_v(s) && s != "-v"@ ==> !starts_with_v(alias(s)),
        alias(s) == s || flag_of(alias(s)) is Some,
        alias(s) == s || no_eq_sign(alias(s)),
        !is_flag(s) ==> alias(s) == s,
        s == "-v"@ || alias(s) == s || !starts_with_v(s),
{
    lemma_literals();
    lemma_flag_text(Flag::Verbose);
    lemma_flag_text(Flag::Quiet);
    lemma_flag_text(Flag::Package);
    lemma_flag_text(Flag::Features);
    lemma_flag_text(Flag::Release);
    lemma_flag_text(Flag::Jobs);
}

/// If `c` occurs in `s`, then it has a first position.
proof fn lemma_first_index_exists(s: Seq<char>, c: char, j: int)
    requires
        0 <= j < s.len(),
        s[j] == c,
    ensures
        first_index(s, c) is Some,
    decreases j,
{
    if forall|k: int| 0 <= k < j ==> s[k] != c {
        assert(is_first_index(s, c, j));
    } else {
        let k = choose|k: int| 0 <= k < j && s[k] == c;
        lemma_first_index_exists(s, c, k);
    }
}

/// Without a split, the text holds no separator.
proof fn lemma_split_none(s: Seq<char>, c: char)
    requires
        split_once(s, c) is None,
    ensures
        forall|j: int| 0 <= j < s.len() ==> s[j] != c,
{
    assert forall|j: int| 0 <= j < s.len() implies s[j] != c by {
        if s[j] == c {
            lemma_first_index_exists(s, c, j);
        }
    }
}

/// Counting verbosity of the rendered token gives back the count.
proof fn lemma_count_verbose_token(n: nat)
    ensures
        count_v(verbose_token(n)) == n,
    decreases n,
{
    let t = verbose_token(n);
    if n == 0 {
        assert(t.drop_last() =~= Seq::<char>::empty());
        assert(t.last() == '-');
        assert(count_v(t.drop_last()) == 0);
    } else {
        lemma_count_verbose_token((n - 1) as nat);
        assert(t.drop_last() =~= verbose_token((n - 1) as nat));
        assert(t.last() == 'v');
    }
}

// ---------------------------------------------------------------------------
// Features: splitting what was joined
// ---------------------------------------------------------------------------

/// Every feature is non-empty and holds no separator.
pub open spec fn features_canonical(fs: Seq<Seq<char>>) -> bool {
    forall|i: int|
        0 <= i < fs.len() ==> (#[trigger] fs[i]).len() > 0 && forall|j: int|
            0 <= j < fs[i].len() ==> !is_feature_sep(fs[i][j])
}

/// Scanning never yields an empty feature nor one that holds a separator.
proof fn lemma_feature_scan_canonical(s: Seq<char>)
    ensures
        features_canonical(feature_scan(s).0),
        forall|j: int| 0 <= j < feature_scan(s).1.len() ==> !is_feature_sep(feature_scan(s).1[j]),
    decreases s.len(),
{
    if s.len() > 0 {
        lemma_feature_scan_canonical(s.drop_last());
        let (done, cur) = feature_scan(s.drop_last());
        if !is_feature_sep(s.last()) {
            let c2 = cur.push(s.last());
            assert forall|j: int| 0 <= j < c2.len() implies !is_feature_sep(c2[j]) by {
                if j < cur.len() {
                    assert(c2[j] == cur[j]);
                }
            }
        } else if cur.len() > 0 {
            let d2 = done.push(cur);
            assert forall|i: int| 0 <= i < d2.len() implies (#[trigger] d2[i]).len() > 0 && forall|
                j: int,
            | 0 <= j < d2[i].len() ==> !is_feature_sep(d2[i][j]) by {
                if i < done.len() {
                    assert(d2[i] == done[i]);
                }
            }
        }
    }
}

/// The features split from any text are canonical.
pub proof fn lemma_split_features_canonical(s: Seq<char>)
    ensures
        features_canonical(split_features(s)),
{
    lemma_feature_scan_canonical(s);
    let (done, cur) = feature_scan(s);
    if cur.len() > 0 {
        let d2 = done.push(cur);
        assert forall|i: int| 0 <= i < d2.len() implies (#[trigger] d2[i]).len() > 0 && forall|j: int|
            0 <= j < d2[i].len() ==> !is_feature_sep(d2[i][j]) by {
            if i < done.len() {
                assert(d2[i] == done[i]);
            }
        }
    }
}

/// Scanning a word without separators extends the current feature.
proof fn lemma_feature_scan_word(x: Seq<char>, w: Seq<char>)
    requires
        forall|j: int| 0 <= j < w.len() ==> !is_feature_sep(w[j]),
    ensures
        feature_scan(x + w) == (feature_scan(x).0, feature_scan(x).1 + w),
    decreases w.len(),
{
    if w.len() == 0 {
        assert(x + w =~= x);
        assert(feature_scan(x).1 + w =~= feature_scan(x).1);
    } else {
        lemma_feature_scan_word(x, w.drop_last());
        assert((x + w).drop_last() =~= x + w.drop_last());
        assert((x + w).last() == w.last());
        assert(feature_scan(x).1 + w.drop_last() + seq![w.last()] =~= feature_scan(x).1 + w);
        assert((feature_scan(x).1 + w.drop_last()).push(w.last()) =~= feature_scan(x).1 + w);
    }
}

/// Scanning the join of canonical features ends with the last feature.
proof fn lemma_feature_scan_join(fs: Seq<Seq<char>>)
    requires
        features_canonical(fs),
        fs.len() > 0,
    ensures
        feature_scan(join(fs, ","@)) == (fs.drop_last(), fs.last()),
    decreases fs.len(),
{
    lemma_literals();
    assert(fs[fs.len() - 1].len() > 0);
    if fs.len() == 1 {
        lemma_feature_scan_word(seq![], fs[0]);
        assert(Seq::<char>::empty() + fs[0] =~= fs[0]);
        assert(feature_scan(Seq::<char>::empty()).1 + fs[0] =~= fs[0]);
        assert(fs.drop_last() =~= Seq::<Seq<char>>::empty());
    } else {
        let init = fs.drop_last();
        assert forall|i: int| 0 <= i < init.len() implies (#[trigger] init[i]).len() > 0 && forall|
            j: int,
        | 0 <= j < init[i].len() ==> !is_feature_sep(init[i][j]) by {
            assert(init[i] == fs[i]);
        }
        lemma_feature_scan_join(init);
        let j0 = join(init, ","@);
        assert(init[init.len() - 1].len() > 0);
        let withsep = j0 + ","@;
        assert(withsep.drop_last() =~= j0);
        assert(withsep.last() == ',');
        assert(feature_scan(withsep) == (init.drop_last().push(init.last()), Seq::<char>::empty()));
        assert(init.drop_last().push(init.last()) =~= init);
        assert forall|j: int| 0 <= j < fs.last().len() implies !is_feature_sep(fs.last()[j]) by {
            assert(fs[fs.len() - 1] == fs.last());
        }
        lemma_feature_scan_word(withsep, fs.last());
        assert(Seq::<char>::empty() + fs.last() =~= fs.last());
    }
}

/// Splitting the join of canonical features gives them back.
pub proof fn lemma_split_join_features(fs: Seq<Seq<char>>)
    requires
        features_canonical(fs),
    ensures
        split_features(join(fs, ","@)) == fs,
{
    if fs.len() == 0 {
    } else {
        lemma_feature_scan_join(fs);
        assert(fs[fs.len() - 1].len() > 0);
        assert(fs.drop_last().push(fs.last()) =~= fs);
    }
}

// ---------------------------------------------------------------------------
// The arguments that the parser produces
// ---------------------------------------------------------------------------

/// A flag as the parser keeps it for a generic argument: it begins with `-`,
/// does not count verbosity, is not a short alias and holds no `=`.
pub open spec fn plain_flag(f: Seq<char>) -> bool {
    is_flag(f) && !starts_with_v(f) && alias(f) == f && no_eq_sign(f)
}

/// The shape of an argument that the parser can produce.
pub open spec fn canonical_arg(a: ArgView) -> bool {
    match a {
        ArgView::Verbose(_) => true,
        ArgView::Switch(f) => is_switch(f),
        ArgView::Text(f, _) => is_text(f),
        ArgView::MaybeText(f, _) => is_maybe(f),
        ArgView::Jobs(_) => true,
        ArgView::Color(_) => true,
        ArgView::Features(fs) => features_canonical(fs),
        ArgView::MessageFormat(m) => message_format_of(message_format_text(m)) == m,
        ArgView::Positional(s) => !is_flag(s),
        ArgView::GenericFlag(f) => plain_flag(f) && parse_bare(f) == ArgView::GenericFlag(f),
        ArgView::GenericValueFlag(f, v) => plain_flag(f) && parse_valued(f, v)
            == ArgView::GenericValueFlag(f, v),
    }
}

/// An argument that would take the next token as its value if that token
/// were not a flag.
pub open spec fn is_open(a: ArgView) -> bool {
    a is GenericFlag || a matches ArgView::MaybeText(_, None) || a matches ArgView::Jobs(None)
}

/// The shape of a list of arguments that the parser can produce: every
/// argument is canonical, and no positional argument follows an open one.
pub open spec fn canonical(args: Seq<ArgView>) -> bool {
    &&& forall|i: int| 0 <= i < args.len() ==> canonical_arg(#[trigger] args[i])
    &&& forall|i: int|
        0 <= i < args.len() - 1 && is_open(#[trigger] args[i]) ==> !(args[i + 1] is Positional)
}

/// An argument whose rendering parses back to it: a verbosity count is not
/// zero (zero renders to nothing), no value begins with `-` (it would read as
/// a flag), and a generic flag with a value is not a flag that never takes one.
pub open spec fn renders_well(a: ArgView) -> bool {
    match a {
        ArgView::Verbose(n) => n != 0,
        ArgView::Text(_, v) => !is_flag(v),
        ArgView::MaybeText(_, Some(v)) => !is_flag(v),
        ArgView::Features(fs) => !is_flag(join(fs, ","@)),
        ArgView::MessageFormat(m) => !is_flag(message_format_text(m)),
        ArgView::GenericValueFlag(f, v) => accepts_value(f) && !is_flag(v),
        _ => true,
    }
}

/// Every argument of the list renders well.
pub open spec fn all_render_well(args: Seq<ArgView>) -> bool {
    forall|i: int| 0 <= i < args.len() ==> renders_well(#[trigger] args[i])
}

/// What one step of the parser produces is canonical, and an open argument
/// takes one token and is followed by a flag or by nothing.
proof fn lemma_parse_one_canonical(toks: Seq<Seq<char>>)
    requires
        toks.len() > 0,
    ensures
        canonical_arg(parse_one(toks).0),
        is_open(parse_one(toks).0) ==> parse_one(toks).1 == 1 && (toks.len() > 1 ==> is_flag(
            toks[1],
        )),
{
    lemma_literals();
    let t = toks[0];
    if starts_with_v(t) {
        return;
    }
    lemma_alias(t);
    let a = alias(t);
    if !is_flag(a) {
        return;
    }
    if !accepts_value(a) {
        return;
    }
    match split_once(a, '=') {
        Some((f, v)) => {
            lemma_split_once_parts(a, '=');
            // `a` holds a `=`, so it is not the spelling of a known flag:
            // the short alias did not apply.
            if alias(t) != t {
                let ff = flag_of(a)->0;
                lemma_flag_text(ff);
                assert(a[f.len() as int] == '=');
            }
            assert(a == t);
            assert(a[0] == '-');
            assert(f.len() > 0) by {
                if f.len() == 0 {
                    assert(a[0] == '=');
                }
            }
            assert(f[0] == a[0]);
            if f.len() >= 2 {
                assert(f[1] == a[1]);
            }
            lemma_alias(f);
            let g = alias(f);
            assert(no_eq_sign(f));
            assert(plain_flag(g));
            let out = parse_valued(g, v);
            if let ArgView::Features(fs) = out {
                lemma_split_features_canonical(v);
            }
            if let ArgView::MessageFormat(m) = out {
                lemma_message_format_of(v);
            }
        },
        None => {
            lemma_split_none(a, '=');
            assert(plain_flag(a));
            if toks.len() > 1 && !is_flag(toks[1]) {
                let out = parse_valued(a, toks[1]);
                if let ArgView::Features(fs) = out {
                    lemma_split_features_canonical(toks[1]);
                }
                if let ArgView::MessageFormat(m) = out {
                    lemma_message_format_of(toks[1]);
                }
            }
        },
    }
}

/// A flag token never yields a positional argument.
proof fn lemma_flag_token_not_positional(toks: Seq<Seq<char>>)
    requires
        toks.len() > 0,
        is_flag(toks[0]),
    ensures
        !(parse_one(toks).0 is Positional),
{
    lemma_alias(toks[0]);
}

/// The parser produces canonical argument lists.
pub proof fn lemma_parse_args_canonical(toks: Seq<Seq<char>>)
    ensures
        canonical(parse_args(toks)),
    decreases toks.len(),
{
    if toks.len() > 0 {
        lemma_parse_one_uses(toks);
        lemma_parse_one_canonical(toks);
        let (a, k) = parse_one(toks);
        let rest = toks.skip(k as int);
        lemma_parse_args_canonical(rest);
        let out = parse_args(toks);
        let tail = parse_args(rest);
        assert(out == seq![a] + tail);
        assert forall|i: int| 0 <= i < out.len() implies canonical_arg(#[trigger] out[i]) by {
            if i > 0 {
                assert(out[i] == tail[i - 1]);
            }
        }
        assert forall|i: int| 0 <= i < out.len() - 1 && is_open(#[trigger] out[i]) implies !(out[i
            + 1] is Positional) by {
            if i == 0 {
                assert(k == 1);
                assert(toks.len() > 1);
                assert(is_flag(toks[1]));
                assert(rest[0] == toks[1]);
                lemma_flag_token_not_positional(rest);
                assert(out[1] == tail[0]);
            } else {
                assert(out[i] == tail[i - 1]);
                assert(out[i + 1] == tail[i]);
            }
        }
    }
}

// ---------------------------------------------------------------------------
// Parsing what was rendered
// ---------------------------------------------------------------------------

/// A rendered argument that is not positional begins with a flag.
proof fn lemma_render_begins_with_flag(a: ArgView)
    requires
        canonical_arg(a),
        renders_well(a),
    ensures
        render_one(a).len() > 0,
        !(a is Positional) ==> is_flag(render_one(a)[0]),
{
    lemma_literals();
    match a {
        ArgView::Switch(f) => lemma_flag_text(f),
        ArgView::Text(f, _) => lemma_flag_text(f),
        ArgView::MaybeText(f, _) => lemma_flag_text(f),
        _ => {},
    }
}

/// One rendered argument, followed by anything that begins with a flag when
/// the argument is open, parses back to the argument.
proof fn lemma_parse_rendered_one(a: ArgView, rest: Seq<Seq<char>>)
    requires
        canonical_arg(a),
        renders_well(a),
        is_open(a) && rest.len() > 0 ==> is_flag(rest[0]),
    ensures
        render_one(a).len() > 0,
        parse_one(render_one(a) + rest) == (a, render_one(a).len()),
{
    lemma_literals();
    lemma_render_begins_with_flag(a);
    let r = render_one(a);
    let toks = r + rest;
    assert(toks[0] == r[0]);
    if r.len() > 1 {
        assert(toks[1] == r[1]);
    } else if rest.len() > 0 {
        assert(toks[1] == rest[0]);
    }
    match a {
        ArgView::Verbose(n) => {
            lemma_count_verbose_token(n as nat);
            assert(r[0] == verbose_token(n as nat));
            assert(verbose_token(n as nat)[1] == 'v');
        },
        ArgView::Switch(f) => {
            lemma_flag_text(f);
        },
        ArgView::Text(f, v) => {
            lemma_flag_text(f);
            lemma_split_none_of_no_eq(flag_text(f));
        },
        ArgView::MaybeText(f, v) => {
            lemma_flag_text(f);
            lemma_split_none_of_no_eq(flag_text(f));
        },
        ArgView::Jobs(o) => {
            lemma_flag_text(Flag::Jobs);
            lemma_split_none_of_no_eq(flag_text(Flag::Jobs));
            if let Some(n) = o {
                lemma_decimal(n as nat);
            }
        },
        ArgView::Color(c) => {
            lemma_flag_text(Flag::Color);
            lemma_split_none_of_no_eq(flag_text(Flag::Color));
            lemma_color_text(c);
        },
        ArgView::Features(fs) => {
            lemma_flag_text(Flag::Features);
            lemma_split_none_of_no_eq(flag_text(Flag::Features));
            lemma_split_join_features(fs);
        },
        ArgView::MessageFormat(m) => {
            lemma_flag_text(Flag::MessageFormat);
            lemma_split_none_of_no_eq(flag_text(Flag::MessageFormat));
        },
        ArgView::Positional(s) => {
            lemma_alias(s);
        },
        ArgView::GenericFlag(f) => {
            lemma_split_none_of_no_eq(f);
        },
        ArgView::GenericValueFlag(f, v) => {
            lemma_split_none_of_no_eq(f);
        },
    }
}

/// A text without `=` does not split at `=`.
proof fn lemma_split_none_of_no_eq(s: Seq<char>)
    requires
        no_eq_sign(s),
    ensures
        split_once(s, '=') is None,
{
    lemma_first_index_none(s, '=');
}

/// A canonical list of arguments that all render well parses back from its
/// rendering.
pub proof fn lemma_parse_render(args: Seq<ArgView>)
    requires
        canonical(args),
        all_render_well(args),
    ensures
        parse_args(render(args)) == args,
    decreases args.len(),
{
    if args.len() > 0 {
        let a = args[0];
        let tail = args.drop_first();
        assert(canonical_arg(args[0]));
        assert(renders_well(args[0]));
        assert forall|i: int| 0 <= i < tail.len() implies canonical_arg(#[trigger] tail[i]) by {
            assert(tail[i] == args[i + 1]);
            assert(canonical_arg(args[i + 1]));
        }
        assert forall|i: int| 0 <= i < tail.len() - 1 && is_open(#[trigger] tail[i]) implies !(tail[i
            + 1] is Positional) by {
            assert(tail[i] == args[i + 1]);
            assert(tail[i + 1] == args[i + 2]);
        }
        assert forall|i: int| 0 <= i < tail.len() implies renders_well(#[trigger] tail[i]) by {
            assert(tail[i] == args[i + 1]);
            assert(renders_well(args[i + 1]));
        }
        lemma_parse_render(tail);
        let rest = render(tail);
        if is_open(a) && rest.len() > 0 {
            assert(tail.len() > 0);
            assert(tail[0] == args[1]);
            assert(!(args[1] is Positional));
            assert(canonical_arg(args[1]));
            assert(renders_well(args[1]));
            lemma_render_begins_with_flag(tail[0]);
            assert(rest == render_one(tail[0]) + render(tail.drop_first()));
            assert(rest[0] == render_one(tail[0])[0]);
        }
        lemma_parse_rendered_one(a, rest);
        let toks = render(args);
        assert(toks == render_one(a) + rest);
        let k = render_one(a).len();
        assert(toks.skip(k as int) =~= rest);
        assert(parse_args(toks) == seq![a] + parse_args(rest));
        assert(seq![a] + tail =~= args);
    }
}

/// Rendering parsed arguments and parsing the rendering gives the same
/// arguments back, whenever every parsed argument renders well (see
/// [`renders_well`]: a value that begins with `-`, a flag that never takes a
/// value given one with `=`, or a verbosity count that wrapped to zero do
/// not come back).
pub proof fn lemma_argv_roundtrip(toks: Seq<Seq<char>>)
    requires
        all_render_well(parse_args(toks)),
    ensures
        parse_args(render(parse_args(toks))) == parse_args(toks),
{
    lemma_parse_args_canonical(toks);
    lemma_parse_render(parse_args(toks));
}

/// Short flags are aliases: replacing every short alias (`-v`, `-q`, `-p`,
/// `-F`, `-r`, `-j`) by its long form does not change the parsed arguments.
pub proof fn lemma_short_flags_are_aliases(toks: Seq<Seq<char>>)
    ensures
        parse_args(toks.map_values(|t: Seq<char>| alias(t))) == parse_args(toks),
    decreases toks.len(),
{
    let long = toks.map_values(|t: Seq<char>| alias(t));
    if toks.len() > 0 {
        lemma_literals();
        let t = toks[0];
        assert(long[0] == alias(t));
        lemma_alias(t);
        lemma_alias(alias(t));
        if toks.len() > 1 {
            assert(long[1] == alias(toks[1]));
            lemma_alias(toks[1]);
        }
        if t == "-v"@ {
            lemma_flag_text(Flag::Verbose);
            assert(t.drop_last().drop_last() =~= Seq::<char>::empty());
            assert(t.drop_last().last() == '-');
            assert(count_v(t.drop_last().drop_last()) == 0);
            assert(count_v(t.drop_last()) == 0);
            assert(t.last() == 'v');
            assert(count_v(t) == 1);
        }
        assert(parse_one(long) == parse_one(toks));
        lemma_parse_one_uses(toks);
        let k = parse_one(toks).1;
        lemma_short_flags_are_aliases(toks.skip(k as int));
        assert(long.skip(k as int) =~= toks.skip(k as int).map_values(|t: Seq<char>| alias(t)));
    } else {
        assert(long =~= Seq::<Seq<char>>::empty());
    }
}

/// A switch given after the other tokens parses on its own and leaves the
/// arguments before it unchanged: no flag is taken as the value of the token
/// before it.
proof fn lemma_parse_args_push_switch(toks: Seq<Seq<char>>, f: Flag)
    requires
        is_switch(f),
    ensures
        parse_args(toks.push(flag_text(f))) == parse_args(toks).push(ArgView::Switch(f)),
    decreases toks.len(),
{
    lemma_flag_text(f);
    let x = flag_text(f);
    let all = toks.push(x);
    if toks.len() == 0 {
        assert(all =~= seq![x]);
        assert(parse_one(all) == (ArgView::Switch(f), 1nat));
        assert(all.skip(1) =~= Seq::<Seq<char>>::empty());
        assert(parse_args(all.skip(1)) =~= Seq::<ArgView>::empty());
        assert(parse_args(all) == seq![ArgView::Switch(f)] + parse_args(all.skip(1)));
        assert(parse_args(all) =~= seq![ArgView::Switch(f)]);
        assert(parse_args(toks) =~= Seq::<ArgView>::empty());
    } else {
        assert(all[0] == toks[0]);
        if toks.len() > 1 {
            assert(all[1] == toks[1]);
        } else {
            assert(all[1] == x);
        }
        assert(parse_one(all) == parse_one(toks));
        lemma_parse_one_uses(toks);
        let k = parse_one(toks).1;
        assert(all.skip(k as int) =~= toks.skip(k as int).push(x));
        lemma_parse_args_push_switch(toks.skip(k as int), f);
        assert(parse_args(all) =~= parse_args(toks).push(ArgView::Switch(f)));
    }
}

/// The features listed by a sequence of arguments followed by one more.
proof fn lemma_features_listed_push(args: Seq<ArgView>, a: ArgView)
    ensures
        all_features_listed(args.push(a)) == all_features_listed(args) + match a {
            ArgView::Features(fs) => fs,
            _ => seq![],
        },
{
    assert(args.push(a).drop_last() =~= args);
}

/// Appending `--all-features` or `--no-default-features` to the arguments
/// of a build does not change the features that were explicitly listed; the
/// appended switch is then present.
pub proof fn lemma_feature_switches_keep_features(toks: Seq<Seq<char>>, f: Flag)
    requires
        f == Flag::AllFeatures || f == Flag::NoDefaultFeatures,
    ensures
        all_features_listed(parse_args(toks.push(flag_text(f)))) == all_features_listed(parse_args(toks)),
        has_switch(parse_args(toks.push(flag_text(f))), f),
{
    lemma_parse_args_push_switch(toks, f);
    let args = parse_args(toks);
    lemma_features_listed_push(args, ArgView::Switch(f));
    assert(all_features_listed(args) + Seq::<Seq<char>>::empty() =~= all_features_listed(args));
    assert(args.push(ArgView::Switch(f))[args.len() as int] == ArgView::Switch(f));
}

/// Whether the argument `a` is the `--release` switch or `--profile release`.
pub open spec fn selects_release(a: ArgView) -> bool {
    a == ArgView::Switch(Flag::Release) || a == ArgView::Text(Flag::Profile, "release"@)
}

/// Release mode is enabled by the `--release` switch, or by `--profile
/// release`, wherever among the arguments it stands.
pub proof fn lemma_release_anywhere(args: Seq<ArgView>, i: int)
    requires
        0 <= i < args.len(),
        selects_release(args[i]),
    ensures
        enables_release(args),
{
    assert(is_release_arg(args[i]));
}

/// Release mode is enabled only by such an argument: without one, it is off.
pub proof fn lemma_release_needs_switch(args: Seq<ArgView>)
    ensures
        enables_release(args) ==> exists|i: int| 0 <= i < args.len() && #[trigger] selects_release(args[i]),
{
    if enables_release(args) {
        let i = choose|i: int| 0 <= i < args.len() && #[trigger] is_release_arg(args[i]);
        assert(selects_release(args[i]));
    }
}

/// Release mode of two lists of arguments given one after the other: it is
/// enabled when either list enables it, so adding arguments that do not
/// enable it, before or after, changes nothing.
pub proof fn lemma_release_concat(a: Seq<ArgView>, b: Seq<ArgView>)
    ensures
        enables_release(a + b) == (enables_release(a) || enables_release(b)),
{
    let ab = a + b;
    if enables_release(ab) {
        let i = choose|i: int| 0 <= i < ab.len() && #[trigger] is_release_arg(ab[i]);
        if i < a.len() {
            assert(ab[i] == a[i]);
            assert(is_release_arg(a[i]));
        } else {
            assert(ab[i] == b[i - a.len()]);
            assert(is_release_arg(b[i - a.len()]));
        }
    }
    if enables_release(a) {
        let i = choose|i: int| 0 <= i < a.len() && #[trigger] is_release_arg(a[i]);
        assert(ab[i] == a[i]);
        assert(is_release_arg(ab[i]));
    }
    if enables_release(b) {
        let i = choose|i: int| 0 <= i < b.len() && #[trigger] is_release_arg(b[i]);
        assert(ab[a.len() + i] == b[i]);
        assert(is_release_arg(ab[a.len() + i]));
    }
}

/// Giving `--release` after any other arguments enables release mode.
pub proof fn lemma_release_flag_given_last(toks: Seq<Seq<char>>)
    ensures
        enables_release(parse_args(toks.push(flag_text(Flag::Release)))),
{
    lemma_parse_args_push_switch(toks, Flag::Release);
    let args = parse_args(toks);
    assert(args.push(ArgView::Switch(Flag::Release))[args.len() as int] == ArgView::Switch(Flag::Release));
    lemma_release_anywhere(args.push(ArgView::Switch(Flag::Release)), args.len() as int);
}

} // verus!
