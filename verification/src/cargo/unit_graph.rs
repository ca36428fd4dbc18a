//! The parts of `cargo build --unit-graph` output that the cache reads.
use vstd::prelude::*;

verus! {

/// The profile of a unit in a unit graph.
#[derive(Clone, PartialEq, Eq, Debug)]
pub struct UnitGraphProfile {
    pub name: String,
    pub opt_level: String,
    pub lto: String,
    pub codegen_units: Option<u64>,
    pub debuginfo: Option<u64>,
    pub debug_assertions: bool,
    pub overflow_checks: bool,
    pub rpath: bool,
    pub incremental: bool,
    pub panic: UnitGraphProfilePanicStrategy,
}

/// The panic strategy of a unit's profile (`unwind` or `abort`).
#[derive(Copy, Clone, PartialEq, Eq, Debug)]
pub enum UnitGraphProfilePanicStrategy {
    Unwind,
    Abort,
}

/// A dependency edge of a unit in a unit graph.
#[derive(Clone, PartialEq, Eq, Debug)]
pub struct UnitGraphDependency {
    /// The index of the unit depended on.
    pub index: usize,
    pub extern_crate_name: String,
    pub public: bool,
    pub noprelude: bool,
}

/// What Cargo does with a unit (`test`, `build`, `check`, `doc`, `doctest`,
/// `docscrape` or `run-custom-build`).
#[derive(Copy, Clone, PartialEq, Eq, Debug)]
pub enum CargoCompileMode {
    Test,
    Build,
    Check,
    Doc,
    Doctest,
    Docscrape,
    RunCustomBuild,
}

/// The name of a compile mode as Cargo writes it.
pub open spec fn compile_mode_text(m: CargoCompileMode) -> Seq<char> {
    match m {
        CargoCompileMode::Test => "test"@,
        CargoCompileMode::Build => "build"@,
        CargoCompileMode::Check => "check"@,
        CargoCompileMode::Doc => "doc"@,
        CargoCompileMode::Doctest => "doctest"@,
        CargoCompileMode::Docscrape => "docscrape"@,
        CargoCompileMode::RunCustomBuild => "run-custom-build"@,
    }
}

impl CargoCompileMode {
    /// The name of the compile mode as Cargo writes it.
    pub fn as_str(&self) -> (r: &'static str)
        ensures
            r@ == compile_mode_text(*self),
    {
        match self {
            CargoCompileMode::Test => "test",
            CargoCompileMode::Build => "build",
            CargoCompileMode::Check => "check",
            CargoCompileMode::Doc => "doc",
            CargoCompileMode::Doctest => "doctest",
            CargoCompileMode::Docscrape => "docscrape",
            CargoCompileMode::RunCustomBuild => "run-custom-build",
        }
    }
}

} // verus!
