//! The arguments of a `rustc` invocation as they appear in a build plan.
//!
//! Each argument kind has a parser from its text and a rendering back to text.
//! Kinds with a fixed set of spellings keep any other spelling as `Other`, so
//! that parsing never loses text; rendering a parsed value gives the text back,
//! and parsing the rendering of a value gives the value back (see the
//! `lemma_*_roundtrip` proofs for the exact conditions).
use vstd::prelude::*;

use crate::cargo::build_args::opt_view;
use crate::cargo::unit_graph::CargoCompileMode;
use crate::text::{
    chars_eq_str, chars_of, decimal, decimal_string, ends_with_chars, has_suffix, join, join_strings,
    lemma_decimal, lemma_first_index_none, lemma_join_split_all,
    lemma_split_all_join, lemma_split_once_join, lemma_split_once_none,
    lemma_split_once_parts, parse_u8, parse_u8_chars, push_char, push_str, split_all,
    slice_range, split_all_chars, split_once, split_once_chars, string_from_chars, string_from_range,
    strings_view,
};

verus! {

broadcast use vstd::string::group_string_axioms;

/// Type of crate for the compiler to emit.
#[derive(Clone, Eq, PartialEq, Ord, PartialOrd, Hash, Debug)]
pub enum RustcCrateType {
    /// `bin`
    Bin,
    /// `lib`
    Lib,
    /// `rlib`
    Rlib,
    /// `dylib`
    Dylib,
    /// `cdylib`
    Cdylib,
    /// `staticlib`
    Staticlib,
    /// `proc-macro`
    ProcMacro,
    /// Any other spelling, kept as written.
    Other(String),
}

/// The model of a [`RustcCrateType`]: its variant, with the text of `Other`.
pub enum RustcCrateTypeView {
    Bin,
    Lib,
    Rlib,
    Dylib,
    Cdylib,
    Staticlib,
    ProcMacro,
    Other(Seq<char>),
}

impl View for RustcCrateType {
    type V = RustcCrateTypeView;

    open spec fn view(&self) -> RustcCrateTypeView {
        match self {
            RustcCrateType::Bin => RustcCrateTypeView::Bin,
            RustcCrateType::Lib => RustcCrateTypeView::Lib,
            RustcCrateType::Rlib => RustcCrateTypeView::Rlib,
            RustcCrateType::Dylib => RustcCrateTypeView::Dylib,
            RustcCrateType::Cdylib => RustcCrateTypeView::Cdylib,
            RustcCrateType::Staticlib => RustcCrateTypeView::Staticlib,
            RustcCrateType::ProcMacro => RustcCrateTypeView::ProcMacro,
            RustcCrateType::Other(s) => RustcCrateTypeView::Other(s@),
        }
    }
}

/// The spelling of a [`RustcCrateType`] (its `Display` form).
pub open spec fn crate_type_text(v: RustcCrateTypeView) -> Seq<char> {
    match v {
        RustcCrateTypeView::Bin => "bin"@,
        RustcCrateTypeView::Lib => "lib"@,
        RustcCrateTypeView::Rlib => "rlib"@,
        RustcCrateTypeView::Dylib => "dylib"@,
        RustcCrateTypeView::Cdylib => "cdylib"@,
        RustcCrateTypeView::Staticlib => "staticlib"@,
        RustcCrateTypeView::ProcMacro => "proc-macro"@,
        RustcCrateTypeView::Other(s) => s,
    }
}

/// The [`RustcCrateType`] that `s` spells; any other text is kept as `Other`.
pub open spec fn crate_type_of(s: Seq<char>) -> RustcCrateTypeView {
    if s == "bin"@ {
        RustcCrateTypeView::Bin
    } else if s == "lib"@ {
        RustcCrateTypeView::Lib
    } else if s == "rlib"@ {
        RustcCrateTypeView::Rlib
    } else if s == "dylib"@ {
        RustcCrateTypeView::Dylib
    } else if s == "cdylib"@ {
        RustcCrateTypeView::Cdylib
    } else if s == "staticlib"@ {
        RustcCrateTypeView::Staticlib
    } else if s == "proc-macro"@ {
        RustcCrateTypeView::ProcMacro
    } else {
        RustcCrateTypeView::Other(s)
    }
}

/// A [`RustcCrateType`] that parsing its own spelling gives back: every value but an
/// `Other` whose text is one of the known spellings.
pub open spec fn crate_type_canonical(v: RustcCrateTypeView) -> bool {
    match v {
        RustcCrateTypeView::Other(s) => crate_type_of(s) == v,
        _ => true,
    }
}

impl RustcCrateType {
    /// The value that the characters `s` spell (every text is accepted).
    pub fn parse_chars(s: &[char]) -> (r: RustcCrateType)
        ensures
            r@ == crate_type_of(s@),
    {
        if chars_eq_str(s, "bin") {
            RustcCrateType::Bin
        } else if chars_eq_str(s, "lib") {
            RustcCrateType::Lib
        } else if chars_eq_str(s, "rlib") {
            RustcCrateType::Rlib
        } else if chars_eq_str(s, "dylib") {
            RustcCrateType::Dylib
        } else if chars_eq_str(s, "cdylib") {
            RustcCrateType::Cdylib
        } else if chars_eq_str(s, "staticlib") {
            RustcCrateType::Staticlib
        } else if chars_eq_str(s, "proc-macro") {
            RustcCrateType::ProcMacro
        } else {
            RustcCrateType::Other(string_from_chars(s))
        }
    }

    /// The value that `s` spells (every text is accepted).
    pub fn parse(s: &str) -> (r: RustcCrateType)
        ensures
            r@ == crate_type_of(s@),
    {
        let cs = chars_of(s);
        RustcCrateType::parse_chars(cs.as_slice())
    }

    /// The spelling of the value (its `Display` form).
    pub fn to_string(&self) -> (r: String)
        ensures
            r@ == crate_type_text(self@),
    {
        match self {
            RustcCrateType::Bin => "bin".to_owned(),
            RustcCrateType::Lib => "lib".to_owned(),
            RustcCrateType::Rlib => "rlib".to_owned(),
            RustcCrateType::Dylib => "dylib".to_owned(),
            RustcCrateType::Cdylib => "cdylib".to_owned(),
            RustcCrateType::Staticlib => "staticlib".to_owned(),
            RustcCrateType::ProcMacro => "proc-macro".to_owned(),
            RustcCrateType::Other(s) => s.clone(),
        }
    }
}

impl std::str::FromStr for RustcCrateType {
    type Err = std::convert::Infallible;

    fn from_str(s: &str) -> (r: Result<RustcCrateType, std::convert::Infallible>)
        ensures
            r matches Ok(v) && v@ == crate_type_of(s@),
    {
        Ok(RustcCrateType::parse(s))
    }
}

proof fn lemma_crate_type_literals()
    ensures
        "bin"@ == seq!['b', 'i', 'n'],
        "lib"@ == seq!['l', 'i', 'b'],
        "rlib"@ == seq!['r', 'l', 'i', 'b'],
        "dylib"@ == seq!['d', 'y', 'l', 'i', 'b'],
        "cdylib"@ == seq!['c', 'd', 'y', 'l', 'i', 'b'],
        "staticlib"@ == seq!['s', 't', 'a', 't', 'i', 'c', 'l', 'i', 'b'],
        "proc-macro"@ == seq!['p', 'r', 'o', 'c', '-', 'm', 'a', 'c', 'r', 'o'],
{
    reveal_strlit("bin");
    reveal_strlit("lib");
    reveal_strlit("rlib");
    reveal_strlit("dylib");
    reveal_strlit("cdylib");
    reveal_strlit("staticlib");
    reveal_strlit("proc-macro");
}

/// Spelling a parsed [`RustcCrateType`] gives the text back, and parsing the spelling
/// of a canonical value gives the value back.
pub proof fn lemma_crate_type_roundtrip(s: Seq<char>, v: RustcCrateTypeView)
    ensures
        crate_type_text(crate_type_of(s)) == s,
        crate_type_canonical(v) ==> crate_type_of(crate_type_text(v)) == v,
{
    lemma_crate_type_literals();
}

/// Specify which edition of the compiler to use when
/// compiling code. The default is 2015 and the latest
/// stable edition is 2024.
#[derive(Clone, Eq, PartialEq, Ord, PartialOrd, Hash, Debug)]
pub enum RustcEdition {
    /// `2015`
    Edition2015,
    /// `2018`
    Edition2018,
    /// `2021`
    Edition2021,
    /// `2024`
    Edition2024,
    /// `future`
    EditionFuture,
    /// Any other spelling, kept as written.
    Other(String),
}

/// The model of a [`RustcEdition`]: its variant, with the text of `Other`.
pub enum RustcEditionView {
    Edition2015,
    Edition2018,
    Edition2021,
    Edition2024,
    EditionFuture,
    Other(Seq<char>),
}

impl View for RustcEdition {
    type V = RustcEditionView;

    open spec fn view(&self) -> RustcEditionView {
        match self {
            RustcEdition::Edition2015 => RustcEditionView::Edition2015,
            RustcEdition::Edition2018 => RustcEditionView::Edition2018,
            RustcEdition::Edition2021 => RustcEditionView::Edition2021,
            RustcEdition::Edition2024 => RustcEditionView::Edition2024,
            RustcEdition::EditionFuture => RustcEditionView::EditionFuture,
            RustcEdition::Other(s) => RustcEditionView::Other(s@),
        }
    }
}

/// The spelling of a [`RustcEdition`] (its `Display` form).
pub open spec fn edition_text(v: RustcEditionView) -> Seq<char> {
    match v {
        RustcEditionView::Edition2015 => "2015"@,
        RustcEditionView::Edition2018 => "2018"@,
        RustcEditionView::Edition2021 => "2021"@,
        RustcEditionView::Edition2024 => "2024"@,
        RustcEditionView::EditionFuture => "future"@,
        RustcEditionView::Other(s) => s,
    }
}

/// The [`RustcEdition`] that `s` spells; any other text is kept as `Other`.
pub open spec fn edition_of(s: Seq<char>) -> RustcEditionView {
    if s == "2015"@ {
        RustcEditionView::Edition2015
    } else if s == "2018"@ {
        RustcEditionView::Edition2018
    } else if s == "2021"@ {
        RustcEditionView::Edition2021
    } else if s == "2024"@ {
        RustcEditionView::Edition2024
    } else if s == "future"@ {
        RustcEditionView::EditionFuture
    } else {
        RustcEditionView::Other(s)
    }
}

/// A [`RustcEdition`] that parsing its own spelling gives back: every value but an
/// `Other` whose text is one of the known spellings.
pub open spec fn edition_canonical(v: RustcEditionView) -> bool {
    match v {
        RustcEditionView::Other(s) => edition_of(s) == v,
        _ => true,
    }
}

impl RustcEdition {
    /// The value that the characters `s` spell (every text is accepted).
    pub fn parse_chars(s: &[char]) -> (r: RustcEdition)
        ensures
            r@ == edition_of(s@),
    {
        if chars_eq_str(s, "2015") {
            RustcEdition::Edition2015
        } else if chars_eq_str(s, "2018") {
            RustcEdition::Edition2018
        } else if chars_eq_str(s, "2021") {
            RustcEdition::Edition2021
        } else if chars_eq_str(s, "2024") {
            RustcEdition::Edition2024
        } else if chars_eq_str(s, "future") {
            RustcEdition::EditionFuture
        } else {
            RustcEdition::Other(string_from_chars(s))
        }
    }

    /// The value that `s` spells (every text is accepted).
    pub fn parse(s: &str) -> (r: RustcEdition)
        ensures
            r@ == edition_of(s@),
    {
        let cs = chars_of(s);
        RustcEdition::parse_chars(cs.as_slice())
    }

    /// The spelling of the value (its `Display` form).
    pub fn to_string(&self) -> (r: String)
        ensures
            r@ == edition_text(self@),
    {
        match self {
            RustcEdition::Edition2015 => "2015".to_owned(),
            RustcEdition::Edition2018 => "2018".to_owned(),
            RustcEdition::Edition2021 => "2021".to_owned(),
            RustcEdition::Edition2024 => "2024".to_owned(),
            RustcEdition::EditionFuture => "future".to_owned(),
            RustcEdition::Other(s) => s.clone(),
        }
    }
}

impl std::str::FromStr for RustcEdition {
    type Err = std::convert::Infallible;

    fn from_str(s: &str) -> (r: Result<RustcEdition, std::convert::Infallible>)
        ensures
            r matches Ok(v) && v@ == edition_of(s@),
    {
        Ok(RustcEdition::parse(s))
    }
}

impl Default for RustcEdition {
    fn default() -> (r: RustcEdition)
        ensures
            r@ == RustcEditionView::Edition2015,
    {
        RustcEdition::Edition2015
    }
}

proof fn lemma_edition_literals()
    ensures
        "2015"@ == seq!['2', '0', '1', '5'],
        "2018"@ == seq!['2', '0', '1', '8'],
        "2021"@ == seq!['2', '0', '2', '1'],
        "2024"@ == seq!['2', '0', '2', '4'],
        "future"@ == seq!['f', 'u', 't', 'u', 'r', 'e'],
{
    reveal_strlit("2015");
    reveal_strlit("2018");
    reveal_strlit("2021");
    reveal_strlit("2024");
    reveal_strlit("future");
}

/// Spelling a parsed [`RustcEdition`] gives the text back, and parsing the spelling
/// of a canonical value gives the value back.
pub proof fn lemma_edition_roundtrip(s: Seq<char>, v: RustcEditionView)
    ensures
        edition_text(edition_of(s)) == s,
        edition_canonical(v) ==> edition_of(edition_text(v)) == v,
{
    lemma_edition_literals();
}

/// A type of output for the compiler to emit (one item of the comma
/// separated list of `--emit`).
#[derive(Clone, Eq, PartialEq, Ord, PartialOrd, Hash, Debug)]
pub enum RustcEmitFormat {
    /// `asm`
    Asm,
    /// `dep-info`
    DepInfo,
    /// `link`
    Link,
    /// `llvm-bc`
    LlvmBc,
    /// `llvm-ir`
    LlvmIr,
    /// `metadata`
    Metadata,
    /// `mir`
    Mir,
    /// `obj`
    Obj,
    /// `thin-link-bitcode`
    ThinLinkBitcode,
    /// Any other spelling, kept as written.
    Other(String),
}

/// The model of a [`RustcEmitFormat`]: its variant, with the text of `Other`.
pub enum RustcEmitFormatView {
    Asm,
    DepInfo,
    Link,
    LlvmBc,
    LlvmIr,
    Metadata,
    Mir,
    Obj,
    ThinLinkBitcode,
    Other(Seq<char>),
}

impl View for RustcEmitFormat {
    type V = RustcEmitFormatView;

    open spec fn view(&self) -> RustcEmitFormatView {
        match self {
            RustcEmitFormat::Asm => RustcEmitFormatView::Asm,
            RustcEmitFormat::DepInfo => RustcEmitFormatView::DepInfo,
            RustcEmitFormat::Link => RustcEmitFormatView::Link,
            RustcEmitFormat::LlvmBc => RustcEmitFormatView::LlvmBc,
            RustcEmitFormat::LlvmIr => RustcEmitFormatView::LlvmIr,
            RustcEmitFormat::Metadata => RustcEmitFormatView::Metadata,
            RustcEmitFormat::Mir => RustcEmitFormatView::Mir,
            RustcEmitFormat::Obj => RustcEmitFormatView::Obj,
            RustcEmitFormat::ThinLinkBitcode => RustcEmitFormatView::ThinLinkBitcode,
            RustcEmitFormat::Other(s) => RustcEmitFormatView::Other(s@),
        }
    }
}

/// The spelling of a [`RustcEmitFormat`] (its `Display` form).
pub open spec fn emit_format_text(v: RustcEmitFormatView) -> Seq<char> {
    match v {
        RustcEmitFormatView::Asm => "asm"@,
        RustcEmitFormatView::DepInfo => "dep-info"@,
        RustcEmitFormatView::Link => "link"@,
        RustcEmitFormatView::LlvmBc => "llvm-bc"@,
        RustcEmitFormatView::LlvmIr => "llvm-ir"@,
        RustcEmitFormatView::Metadata => "metadata"@,
        RustcEmitFormatView::Mir => "mir"@,
        RustcEmitFormatView::Obj => "obj"@,
        RustcEmitFormatView::ThinLinkBitcode => "thin-link-bitcode"@,
        RustcEmitFormatView::Other(s) => s,
    }
}

/// The [`RustcEmitFormat`] that `s` spells; any other text is kept as `Other`.
pub open spec fn emit_format_of(s: Seq<char>) -> RustcEmitFormatView {
    if s == "asm"@ {
        RustcEmitFormatView::Asm
    } else if s == "dep-info"@ {
        RustcEmitFormatView::DepInfo
    } else if s == "link"@ {
        RustcEmitFormatView::Link
    } else if s == "llvm-bc"@ {
        RustcEmitFormatView::LlvmBc
    } else if s == "llvm-ir"@ {
        RustcEmitFormatView::LlvmIr
    } else if s == "metadata"@ {
        RustcEmitFormatView::Metadata
    } else if s == "mir"@ {
        RustcEmitFormatView::Mir
    } else if s == "obj"@ {
        RustcEmitFormatView::Obj
    } else if s == "thin-link-bitcode"@ {
        RustcEmitFormatView::ThinLinkBitcode
    } else {
        RustcEmitFormatView::Other(s)
    }
}

/// A [`RustcEmitFormat`] that parsing its own spelling gives back: every value but an
/// `Other` whose text is one of the known spellings.
pub open spec fn emit_format_canonical(v: RustcEmitFormatView) -> bool {
    match v {
        RustcEmitFormatView::Other(s) => emit_format_of(s) == v,
        _ => true,
    }
}

impl RustcEmitFormat {
    /// The value that the characters `s` spell (every text is accepted).
    pub fn parse_chars(s: &[char]) -> (r: RustcEmitFormat)
        ensures
            r@ == emit_format_of(s@),
    {
        if chars_eq_str(s, "asm") {
            RustcEmitFormat::Asm
        } else if chars_eq_str(s, "dep-info") {
            RustcEmitFormat::DepInfo
        } else if chars_eq_str(s, "link") {
            RustcEmitFormat::Link
        } else if chars_eq_str(s, "llvm-bc") {
            RustcEmitFormat::LlvmBc
        } else if chars_eq_str(s, "llvm-ir") {
            RustcEmitFormat::LlvmIr
        } else if chars_eq_str(s, "metadata") {
            RustcEmitFormat::Metadata
        } else if chars_eq_str(s, "mir") {
            RustcEmitFormat::Mir
        } else if chars_eq_str(s, "obj") {
            RustcEmitFormat::Obj
        } else if chars_eq_str(s, "thin-link-bitcode") {
            RustcEmitFormat::ThinLinkBitcode
        } else {
            RustcEmitFormat::Other(string_from_chars(s))
        }
    }

    /// The value that `s` spells (every text is accepted).
    pub fn parse(s: &str) -> (r: RustcEmitFormat)
        ensures
            r@ == emit_format_of(s@),
    {
        let cs = chars_of(s);
        RustcEmitFormat::parse_chars(cs.as_slice())
    }

    /// The spelling of the value (its `Display` form).
    pub fn to_string(&self) -> (r: String)
        ensures
            r@ == emit_format_text(self@),
    {
        match self {
            RustcEmitFormat::Asm => "asm".to_owned(),
            RustcEmitFormat::DepInfo => "dep-info".to_owned(),
            RustcEmitFormat::Link => "link".to_owned(),
            RustcEmitFormat::LlvmBc => "llvm-bc".to_owned(),
            RustcEmitFormat::LlvmIr => "llvm-ir".to_owned(),
            RustcEmitFormat::Metadata => "metadata".to_owned(),
            RustcEmitFormat::Mir => "mir".to_owned(),
            RustcEmitFormat::Obj => "obj".to_owned(),
            RustcEmitFormat::ThinLinkBitcode => "thin-link-bitcode".to_owned(),
            RustcEmitFormat::Other(s) => s.clone(),
        }
    }
}

impl std::str::FromStr for RustcEmitFormat {
    type Err = std::convert::Infallible;

    fn from_str(s: &str) -> (r: Result<RustcEmitFormat, std::convert::Infallible>)
        ensures
            r matches Ok(v) && v@ == emit_format_of(s@),
    {
        Ok(RustcEmitFormat::parse(s))
    }
}

proof fn lemma_emit_format_literals()
    ensures
        "asm"@ == seq!['a', 's', 'm'],
        "dep-info"@ == seq!['d', 'e', 'p', '-', 'i', 'n', 'f', 'o'],
        "link"@ == seq!['l', 'i', 'n', 'k'],
        "llvm-bc"@ == seq!['l', 'l', 'v', 'm', '-', 'b', 'c'],
        "llvm-ir"@ == seq!['l', 'l', 'v', 'm', '-', 'i', 'r'],
        "metadata"@ == seq!['m', 'e', 't', 'a', 'd', 'a', 't', 'a'],
        "mir"@ == seq!['m', 'i', 'r'],
        "obj"@ == seq!['o', 'b', 'j'],
        "thin-link-bitcode"@ == seq!['t', 'h', 'i', 'n', '-', 'l', 'i', 'n', 'k', '-', 'b', 'i', 't', 'c', 'o', 'd', 'e'],
{
    reveal_strlit("asm");
    reveal_strlit("dep-info");
    reveal_strlit("link");
    reveal_strlit("llvm-bc");
    reveal_strlit("llvm-ir");
    reveal_strlit("metadata");
    reveal_strlit("mir");
    reveal_strlit("obj");
    reveal_strlit("thin-link-bitcode");
}

/// Spelling a parsed [`RustcEmitFormat`] gives the text back, and parsing the spelling
/// of a canonical value gives the value back.
pub proof fn lemma_emit_format_roundtrip(s: Seq<char>, v: RustcEmitFormatView)
    ensures
        emit_format_text(emit_format_of(s)) == s,
        emit_format_canonical(v) ==> emit_format_of(emit_format_text(v)) == v,
{
    lemma_emit_format_literals();
}

/// The key used to configure the compilation environment.
#[derive(Clone, Eq, PartialEq, Ord, PartialOrd, Hash, Debug)]
pub enum RustcCfgSpecKey {
    /// `feature`
    Feature,
    /// Any other spelling, kept as written.
    Other(String),
}

/// The model of a [`RustcCfgSpecKey`]: its variant, with the text of `Other`.
pub enum RustcCfgSpecKeyView {
    Feature,
    Other(Seq<char>),
}

impl View for RustcCfgSpecKey {
    type V = RustcCfgSpecKeyView;

    open spec fn view(&self) -> RustcCfgSpecKeyView {
        match self {
            RustcCfgSpecKey::Feature => RustcCfgSpecKeyView::Feature,
            RustcCfgSpecKey::Other(s) => RustcCfgSpecKeyView::Other(s@),
        }
    }
}

/// The spelling of a [`RustcCfgSpecKey`] (its `Display` form).
pub open spec fn cfg_key_text(v: RustcCfgSpecKeyView) -> Seq<char> {
    match v {
        RustcCfgSpecKeyView::Feature => "feature"@,
        RustcCfgSpecKeyView::Other(s) => s,
    }
}

/// The [`RustcCfgSpecKey`] that `s` spells; any other text is kept as `Other`.
pub open spec fn cfg_key_of(s: Seq<char>) -> RustcCfgSpecKeyView {
    if s == "feature"@ {
        RustcCfgSpecKeyView::Feature
    } else {
        RustcCfgSpecKeyView::Other(s)
    }
}

/// A [`RustcCfgSpecKey`] that parsing its own spelling gives back: every value but an
/// `Other` whose text is one of the known spellings.
pub open spec fn cfg_key_canonical(v: RustcCfgSpecKeyView) -> bool {
    match v {
        RustcCfgSpecKeyView::Other(s) => cfg_key_of(s) == v,
        _ => true,
    }
}

impl RustcCfgSpecKey {
    /// The value that the characters `s` spell (every text is accepted).
    pub fn parse_chars(s: &[char]) -> (r: RustcCfgSpecKey)
        ensures
            r@ == cfg_key_of(s@),
    {
        if chars_eq_str(s, "feature") {
            RustcCfgSpecKey::Feature
        } else {
            RustcCfgSpecKey::Other(string_from_chars(s))
        }
    }

    /// The value that `s` spells (every text is accepted).
    pub fn parse(s: &str) -> (r: RustcCfgSpecKey)
        ensures
            r@ == cfg_key_of(s@),
    {
        let cs = chars_of(s);
        RustcCfgSpecKey::parse_chars(cs.as_slice())
    }

    /// The spelling of the value (its `Display` form).
    pub fn to_string(&self) -> (r: String)
        ensures
            r@ == cfg_key_text(self@),
    {
        match self {
            RustcCfgSpecKey::Feature => "feature".to_owned(),
            RustcCfgSpecKey::Other(s) => s.clone(),
        }
    }
}

impl std::str::FromStr for RustcCfgSpecKey {
    type Err = std::convert::Infallible;

    fn from_str(s: &str) -> (r: Result<RustcCfgSpecKey, std::convert::Infallible>)
        ensures
            r matches Ok(v) && v@ == cfg_key_of(s@),
    {
        Ok(RustcCfgSpecKey::parse(s))
    }
}

proof fn lemma_cfg_key_literals()
    ensures
        "feature"@ == seq!['f', 'e', 'a', 't', 'u', 'r', 'e'],
{
    reveal_strlit("feature");
}

/// Spelling a parsed [`RustcCfgSpecKey`] gives the text back, and parsing the spelling
/// of a canonical value gives the value back.
pub proof fn lemma_cfg_key_roundtrip(s: Seq<char>, v: RustcCfgSpecKeyView)
    ensures
        cfg_key_text(cfg_key_of(s)) == s,
        cfg_key_canonical(v) ==> cfg_key_of(cfg_key_text(v)) == v,
{
    lemma_cfg_key_literals();
}

/// Kind of library search path.
#[derive(Clone, Eq, PartialEq, Ord, PartialOrd, Hash, Debug)]
pub enum RustcLibrarySearchPathKind {
    /// `all`
    All,
    /// `crate`
    Crate,
    /// `dependency`
    Dependency,
    /// `framework`
    Framework,
    /// `native`
    Native,
    /// Any other spelling, kept as written.
    Other(String),
}

/// The model of a [`RustcLibrarySearchPathKind`]: its variant, with the text of `Other`.
pub enum RustcLibrarySearchPathKindView {
    All,
    Crate,
    Dependency,
    Framework,
    Native,
    Other(Seq<char>),
}

impl View for RustcLibrarySearchPathKind {
    type V = RustcLibrarySearchPathKindView;

    open spec fn view(&self) -> RustcLibrarySearchPathKindView {
        match self {
            RustcLibrarySearchPathKind::All => RustcLibrarySearchPathKindView::All,
            RustcLibrarySearchPathKind::Crate => RustcLibrarySearchPathKindView::Crate,
            RustcLibrarySearchPathKind::Dependency => RustcLibrarySearchPathKindView::Dependency,
            RustcLibrarySearchPathKind::Framework => RustcLibrarySearchPathKindView::Framework,
            RustcLibrarySearchPathKind::Native => RustcLibrarySearchPathKindView::Native,
            RustcLibrarySearchPathKind::Other(s) => RustcLibrarySearchPathKindView::Other(s@),
        }
    }
}

/// The spelling of a [`RustcLibrarySearchPathKind`] (its `Display` form).
pub open spec fn search_kind_text(v: RustcLibrarySearchPathKindView) -> Seq<char> {
    match v {
        RustcLibrarySearchPathKindView::All => "all"@,
        RustcLibrarySearchPathKindView::Crate => "crate"@,
        RustcLibrarySearchPathKindView::Dependency => "dependency"@,
        RustcLibrarySearchPathKindView::Framework => "framework"@,
        RustcLibrarySearchPathKindView::Native => "native"@,
        RustcLibrarySearchPathKindView::Other(s) => s,
    }
}

/// The [`RustcLibrarySearchPathKind`] that `s` spells; any other text is kept as `Other`.
pub open spec fn search_kind_of(s: Seq<char>) -> RustcLibrarySearchPathKindView {
    if s == "all"@ {
        RustcLibrarySearchPathKindView::All
    } else if s == "crate"@ {
        RustcLibrarySearchPathKindView::Crate
    } else if s == "dependency"@ {
        RustcLibrarySearchPathKindView::Dependency
    } else if s == "framework"@ {
        RustcLibrarySearchPathKindView::Framework
    } else if s == "native"@ {
        RustcLibrarySearchPathKindView::Native
    } else {
        RustcLibrarySearchPathKindView::Other(s)
    }
}

/// A [`RustcLibrarySearchPathKind`] that parsing its own spelling gives back: every value but an
/// `Other` whose text is one of the known spellings.
pub open spec fn search_kind_canonical(v: RustcLibrarySearchPathKindView) -> bool {
    match v {
        RustcLibrarySearchPathKindView::Other(s) => search_kind_of(s) == v,
        _ => true,
    }
}

impl RustcLibrarySearchPathKind {
    /// The value that the characters `s` spell (every text is accepted).
    pub fn parse_chars(s: &[char]) -> (r: RustcLibrarySearchPathKind)
        ensures
            r@ == search_kind_of(s@),
    {
        if chars_eq_str(s, "all") {
            RustcLibrarySearchPathKind::All
        } else if chars_eq_str(s, "crate") {
            RustcLibrarySearchPathKind::Crate
        } else if chars_eq_str(s, "dependency") {
            RustcLibrarySearchPathKind::Dependency
        } else if chars_eq_str(s, "framework") {
            RustcLibrarySearchPathKind::Framework
        } else if chars_eq_str(s, "native") {
            RustcLibrarySearchPathKind::Native
        } else {
            RustcLibrarySearchPathKind::Other(string_from_chars(s))
        }
    }

    /// The value that `s` spells (every text is accepted).
    pub fn parse(s: &str) -> (r: RustcLibrarySearchPathKind)
        ensures
            r@ == search_kind_of(s@),
    {
        let cs = chars_of(s);
        RustcLibrarySearchPathKind::parse_chars(cs.as_slice())
    }

    /// The spelling of the value (its `Display` form).
    pub fn to_string(&self) -> (r: String)
        ensures
            r@ == search_kind_text(self@),
    {
        match self {
            RustcLibrarySearchPathKind::All => "all".to_owned(),
            RustcLibrarySearchPathKind::Crate => "crate".to_owned(),
            RustcLibrarySearchPathKind::Dependency => "dependency".to_owned(),
            RustcLibrarySearchPathKind::Framework => "framework".to_owned(),
            RustcLibrarySearchPathKind::Native => "native".to_owned(),
            RustcLibrarySearchPathKind::Other(s) => s.clone(),
        }
    }
}

impl std::str::FromStr for RustcLibrarySearchPathKind {
    type Err = std::convert::Infallible;

    fn from_str(s: &str) -> (r: Result<RustcLibrarySearchPathKind, std::convert::Infallible>)
        ensures
            r matches Ok(v) && v@ == search_kind_of(s@),
    {
        Ok(RustcLibrarySearchPathKind::parse(s))
    }
}

impl Default for RustcLibrarySearchPathKind {
    fn default() -> (r: RustcLibrarySearchPathKind)
        ensures
            r@ == RustcLibrarySearchPathKindView::All,
    {
        RustcLibrarySearchPathKind::All
    }
}

proof fn lemma_search_kind_literals()
    ensures
        "all"@ == seq!['a', 'l', 'l'],
        "crate"@ == seq!['c', 'r', 'a', 't', 'e'],
        "dependency"@ == seq!['d', 'e', 'p', 'e', 'n', 'd', 'e', 'n', 'c', 'y'],
        "framework"@ == seq!['f', 'r', 'a', 'm', 'e', 'w', 'o', 'r', 'k'],
        "native"@ == seq!['n', 'a', 't', 'i', 'v', 'e'],
{
    reveal_strlit("all");
    reveal_strlit("crate");
    reveal_strlit("dependency");
    reveal_strlit("framework");
    reveal_strlit("native");
}

/// Spelling a parsed [`RustcLibrarySearchPathKind`] gives the text back, and parsing the spelling
/// of a canonical value gives the value back.
pub proof fn lemma_search_kind_roundtrip(s: Seq<char>, v: RustcLibrarySearchPathKindView)
    ensures
        search_kind_text(search_kind_of(s)) == s,
        search_kind_canonical(v) ==> search_kind_of(search_kind_text(v)) == v,
{
    lemma_search_kind_literals();
}

/// Kind of linking to perform for a native library.
#[derive(Clone, Eq, PartialEq, Ord, PartialOrd, Hash, Debug)]
pub enum RustcLinkKind {
    /// `dylib`
    Dylib,
    /// `framework`
    Framework,
    /// `static`
    Static,
    /// Any other spelling, kept as written.
    Other(String),
}

/// The model of a [`RustcLinkKind`]: its variant, with the text of `Other`.
pub enum RustcLinkKindView {
    Dylib,
    Framework,
    Static,
    Other(Seq<char>),
}

impl View for RustcLinkKind {
    type V = RustcLinkKindView;

    open spec fn view(&self) -> RustcLinkKindView {
        match self {
            RustcLinkKind::Dylib => RustcLinkKindView::Dylib,
            RustcLinkKind::Framework => RustcLinkKindView::Framework,
            RustcLinkKind::Static => RustcLinkKindView::Static,
            RustcLinkKind::Other(s) => RustcLinkKindView::Other(s@),
        }
    }
}

/// The spelling of a [`RustcLinkKind`] (its `Display` form).
pub open spec fn link_kind_text(v: RustcLinkKindView) -> Seq<char> {
    match v {
        RustcLinkKindView::Dylib => "dylib"@,
        RustcLinkKindView::Framework => "framework"@,
        RustcLinkKindView::Static => "static"@,
        RustcLinkKindView::Other(s) => s,
    }
}

/// The [`RustcLinkKind`] that `s` spells; any other text is kept as `Other`.
pub open spec fn link_kind_of(s: Seq<char>) -> RustcLinkKindView {
    if s == "dylib"@ {
        RustcLinkKindView::Dylib
    } else if s == "framework"@ {
        RustcLinkKindView::Framework
    } else if s == "static"@ {
        RustcLinkKindView::Static
    } else {
        RustcLinkKindView::Other(s)
    }
}

/// A [`RustcLinkKind`] that parsing its own spelling gives back: every value but an
/// `Other` whose text is one of the known spellings.
pub open spec fn link_kind_canonical(v: RustcLinkKindView) -> bool {
    match v {
        RustcLinkKindView::Other(s) => link_kind_of(s) == v,
        _ => true,
    }
}

impl RustcLinkKind {
    /// The value that the characters `s` spell (every text is accepted).
    pub fn parse_chars(s: &[char]) -> (r: RustcLinkKind)
        ensures
            r@ == link_kind_of(s@),
    {
        if chars_eq_str(s, "dylib") {
            RustcLinkKind::Dylib
        } else if chars_eq_str(s, "framework") {
            RustcLinkKind::Framework
        } else if chars_eq_str(s, "static") {
            RustcLinkKind::Static
        } else {
            RustcLinkKind::Other(string_from_chars(s))
        }
    }

    /// The value that `s` spells (every text is accepted).
    pub fn parse(s: &str) -> (r: RustcLinkKind)
        ensures
            r@ == link_kind_of(s@),
    {
        let cs = chars_of(s);
        RustcLinkKind::parse_chars(cs.as_slice())
    }

    /// The spelling of the value (its `Display` form).
    pub fn to_string(&self) -> (r: String)
        ensures
            r@ == link_kind_text(self@),
    {
        match self {
            RustcLinkKind::Dylib => "dylib".to_owned(),
            RustcLinkKind::Framework => "framework".to_owned(),
            RustcLinkKind::Static => "static".to_owned(),
            RustcLinkKind::Other(s) => s.clone(),
        }
    }
}

impl std::str::FromStr for RustcLinkKind {
    type Err = std::convert::Infallible;

    fn from_str(s: &str) -> (r: Result<RustcLinkKind, std::convert::Infallible>)
        ensures
            r matches Ok(v) && v@ == link_kind_of(s@),
    {
        Ok(RustcLinkKind::parse(s))
    }
}

proof fn lemma_link_kind_literals()
    ensures
        "dylib"@ == seq!['d', 'y', 'l', 'i', 'b'],
        "framework"@ == seq!['f', 'r', 'a', 'm', 'e', 'w', 'o', 'r', 'k'],
        "static"@ == seq!['s', 't', 'a', 't', 'i', 'c'],
{
    reveal_strlit("dylib");
    reveal_strlit("framework");
    reveal_strlit("static");
}

/// Spelling a parsed [`RustcLinkKind`] gives the text back, and parsing the spelling
/// of a canonical value gives the value back.
pub proof fn lemma_link_kind_roundtrip(s: Seq<char>, v: RustcLinkKindView)
    ensures
        link_kind_text(link_kind_of(s)) == s,
        link_kind_canonical(v) ==> link_kind_of(link_kind_text(v)) == v,
{
    lemma_link_kind_literals();
}

/// Compiler information to print on stdout (or to a file).
#[derive(Clone, Eq, PartialEq, Ord, PartialOrd, Hash, Debug)]
pub enum RustcPrintInfo {
    /// `all-target-specs-json`
    AllTargetSpecsJson,
    /// `calling-conventions`
    CallingConventions,
    /// `cfg`
    Cfg,
    /// `check-cfg`
    CheckCfg,
    /// `code-models`
    CodeModels,
    /// `crate-name`
    CrateName,
    /// `crate-root-lint-levels`
    CrateRootLintLevels,
    /// `deployment-target`
    DeploymentTarget,
    /// `file-names`
    FileNames,
    /// `host-tuple`
    HostTuple,
    /// `link-args`
    LinkArgs,
    /// `native-static-libs`
    NativeStaticLibs,
    /// `relocation-models`
    RelocationModels,
    /// `split-debuginfo`
    SplitDebuginfo,
    /// `stack-protector-strategies`
    StackProtectorStrategies,
    /// `supported-crate-types`
    SupportedCrateTypes,
    /// `sysroot`
    Sysroot,
    /// `target-cpus`
    TargetCpus,
    /// `target-features`
    TargetFeatures,
    /// `target-libdir`
    TargetLibdir,
    /// `target-list`
    TargetList,
    /// `target-spec-json`
    TargetSpecJson,
    /// `tls-models`
    TlsModels,
    /// Any other spelling, kept as written.
    Other(String),
}

/// The model of a [`RustcPrintInfo`]: its variant, with the text of `Other`.
pub enum RustcPrintInfoView {
    AllTargetSpecsJson,
    CallingConventions,
    Cfg,
    CheckCfg,
    CodeModels,
    CrateName,
    CrateRootLintLevels,
    DeploymentTarget,
    FileNames,
    HostTuple,
    LinkArgs,
    NativeStaticLibs,
    RelocationModels,
    SplitDebuginfo,
    StackProtectorStrategies,
    SupportedCrateTypes,
    Sysroot,
    TargetCpus,
    TargetFeatures,
    TargetLibdir,
    TargetList,
    TargetSpecJson,
    TlsModels,
    Other(Seq<char>),
}

impl View for RustcPrintInfo {
    type V = RustcPrintInfoView;

    open spec fn view(&self) -> RustcPrintInfoView {
        match self {
            RustcPrintInfo::AllTargetSpecsJson => RustcPrintInfoView::AllTargetSpecsJson,
            RustcPrintInfo::CallingConventions => RustcPrintInfoView::CallingConventions,
            RustcPrintInfo::Cfg => RustcPrintInfoView::Cfg,
            RustcPrintInfo::CheckCfg => RustcPrintInfoView::CheckCfg,
            RustcPrintInfo::CodeModels => RustcPrintInfoView::CodeModels,
            RustcPrintInfo::CrateName => RustcPrintInfoView::CrateName,
            RustcPrintInfo::CrateRootLintLevels => RustcPrintInfoView::CrateRootLintLevels,
            RustcPrintInfo::DeploymentTarget => RustcPrintInfoView::DeploymentTarget,
            RustcPrintInfo::FileNames => RustcPrintInfoView::FileNames,
            RustcPrintInfo::HostTuple => RustcPrintInfoView::HostTuple,
            RustcPrintInfo::LinkArgs => RustcPrintInfoView::LinkArgs,
            RustcPrintInfo::NativeStaticLibs => RustcPrintInfoView::NativeStaticLibs,
            RustcPrintInfo::RelocationModels => RustcPrintInfoView::RelocationModels,
            RustcPrintInfo::SplitDebuginfo => RustcPrintInfoView::SplitDebuginfo,
            RustcPrintInfo::StackProtectorStrategies => RustcPrintInfoView::StackProtectorStrategies,
            RustcPrintInfo::SupportedCrateTypes => RustcPrintInfoView::SupportedCrateTypes,
            RustcPrintInfo::Sysroot => RustcPrintInfoView::Sysroot,
            RustcPrintInfo::TargetCpus => RustcPrintInfoView::TargetCpus,
            RustcPrintInfo::TargetFeatures => RustcPrintInfoView::TargetFeatures,
            RustcPrintInfo::TargetLibdir => RustcPrintInfoView::TargetLibdir,
            RustcPrintInfo::TargetList => RustcPrintInfoView::TargetList,
            RustcPrintInfo::TargetSpecJson => RustcPrintInfoView::TargetSpecJson,
            RustcPrintInfo::TlsModels => RustcPrintInfoView::TlsModels,
            RustcPrintInfo::Other(s) => RustcPrintInfoView::Other(s@),
        }
    }
}

/// The spelling of a [`RustcPrintInfo`] (its `Display` form).
pub open spec fn print_info_text(v: RustcPrintInfoView) -> Seq<char> {
    match v {
        RustcPrintInfoView::AllTargetSpecsJson => "all-target-specs-json"@,
        RustcPrintInfoView::CallingConventions => "calling-conventions"@,
        RustcPrintInfoView::Cfg => "cfg"@,
        RustcPrintInfoView::CheckCfg => "check-cfg"@,
        RustcPrintInfoView::CodeModels => "code-models"@,
        RustcPrintInfoView::CrateName => "crate-name"@,
        RustcPrintInfoView::CrateRootLintLevels => "crate-root-lint-levels"@,
        RustcPrintInfoView::DeploymentTarget => "deployment-target"@,
        RustcPrintInfoView::FileNames => "file-names"@,
        RustcPrintInfoView::HostTuple => "host-tuple"@,
        RustcPrintInfoView::LinkArgs => "link-args"@,
        RustcPrintInfoView::NativeStaticLibs => "native-static-libs"@,
        RustcPrintInfoView::RelocationModels => "relocation-models"@,
        RustcPrintInfoView::SplitDebuginfo => "split-debuginfo"@,
        RustcPrintInfoView::StackProtectorStrategies => "stack-protector-strategies"@,
        RustcPrintInfoView::SupportedCrateTypes => "supported-crate-types"@,
        RustcPrintInfoView::Sysroot => "sysroot"@,
        RustcPrintInfoView::TargetCpus => "target-cpus"@,
        RustcPrintInfoView::TargetFeatures => "target-features"@,
        RustcPrintInfoView::TargetLibdir => "target-libdir"@,
        RustcPrintInfoView::TargetList => "target-list"@,
        RustcPrintInfoView::TargetSpecJson => "target-spec-json"@,
        RustcPrintInfoView::TlsModels => "tls-models"@,
        RustcPrintInfoView::Other(s) => s,
    }
}

/// The [`RustcPrintInfo`] that `s` spells; any other text is kept as `Other`.
pub open spec fn print_info_of(s: Seq<char>) -> RustcPrintInfoView {
    if s == "all-target-specs-json"@ {
        RustcPrintInfoView::AllTargetSpecsJson
    } else if s == "calling-conventions"@ {
        RustcPrintInfoView::CallingConventions
    } else if s == "cfg"@ {
        RustcPrintInfoView::Cfg
    } else if s == "check-cfg"@ {
        RustcPrintInfoView::CheckCfg
    } else if s == "code-models"@ {
        RustcPrintInfoView::CodeModels
    } else if s == "crate-name"@ {
        RustcPrintInfoView::CrateName
    } else if s == "crate-root-lint-levels"@ {
        RustcPrintInfoView::CrateRootLintLevels
    } else if s == "deployment-target"@ {
        RustcPrintInfoView::DeploymentTarget
    } else if s == "file-names"@ {
        RustcPrintInfoView::FileNames
    } else if s == "host-tuple"@ {
        RustcPrintInfoView::HostTuple
    } else if s == "link-args"@ {
        RustcPrintInfoView::LinkArgs
    } else if s == "native-static-libs"@ {
        RustcPrintInfoView::NativeStaticLibs
    } else if s == "relocation-models"@ {
        RustcPrintInfoView::RelocationModels
    } else if s == "split-debuginfo"@ {
        RustcPrintInfoView::SplitDebuginfo
    } else if s == "stack-protector-strategies"@ {
        RustcPrintInfoView::StackProtectorStrategies
    } else if s == "supported-crate-types"@ {
        RustcPrintInfoView::SupportedCrateTypes
    } else if s == "sysroot"@ {
        RustcPrintInfoView::Sysroot
    } else if s == "target-cpus"@ {
        RustcPrintInfoView::TargetCpus
    } else if s == "target-features"@ {
        RustcPrintInfoView::TargetFeatures
    } else if s == "target-libdir"@ {
        RustcPrintInfoView::TargetLibdir
    } else if s == "target-list"@ {
        RustcPrintInfoView::TargetList
    } else if s == "target-spec-json"@ {
        RustcPrintInfoView::TargetSpecJson
    } else if s == "tls-models"@ {
        RustcPrintInfoView::TlsModels
    } else {
        RustcPrintInfoView::Other(s)
    }
}

/// A [`RustcPrintInfo`] that parsing its own spelling gives back: every value but an
/// `Other` whose text is one of the known spellings.
pub open spec fn print_info_canonical(v: RustcPrintInfoView) -> bool {
    match v {
        RustcPrintInfoView::Other(s) => print_info_of(s) == v,
        _ => true,
    }
}

impl RustcPrintInfo {
    /// The value that the characters `s` spell (every text is accepted).
    pub fn parse_chars(s: &[char]) -> (r: RustcPrintInfo)
        ensures
            r@ == print_info_of(s@),
    {
        if chars_eq_str(s, "all-target-specs-json") {
            RustcPrintInfo::AllTargetSpecsJson
        } else if chars_eq_str(s, "calling-conventions") {
            RustcPrintInfo::CallingConventions
        } else if chars_eq_str(s, "cfg") {
            RustcPrintInfo::Cfg
        } else if chars_eq_str(s, "check-cfg") {
            RustcPrintInfo::CheckCfg
        } else if chars_eq_str(s, "code-models") {
            RustcPrintInfo::CodeModels
        } else if chars_eq_str(s, "crate-name") {
            RustcPrintInfo::CrateName
        } else if chars_eq_str(s, "crate-root-lint-levels") {
            RustcPrintInfo::CrateRootLintLevels
        } else if chars_eq_str(s, "deployment-target") {
            RustcPrintInfo::DeploymentTarget
        } else if chars_eq_str(s, "file-names") {
            RustcPrintInfo::FileNames
        } else if chars_eq_str(s, "host-tuple") {
            RustcPrintInfo::HostTuple
        } else if chars_eq_str(s, "link-args") {
            RustcPrintInfo::LinkArgs
        } else if chars_eq_str(s, "native-static-libs") {
            RustcPrintInfo::NativeStaticLibs
        } else if chars_eq_str(s, "relocation-models") {
            RustcPrintInfo::RelocationModels
        } else if chars_eq_str(s, "split-debuginfo") {
            RustcPrintInfo::SplitDebuginfo
        } else if chars_eq_str(s, "stack-protector-strategies") {
            RustcPrintInfo::StackProtectorStrategies
        } else if chars_eq_str(s, "supported-crate-types") {
            RustcPrintInfo::SupportedCrateTypes
        } else if chars_eq_str(s, "sysroot") {
            RustcPrintInfo::Sysroot
        } else if chars_eq_str(s, "target-cpus") {
            RustcPrintInfo::TargetCpus
        } else if chars_eq_str(s, "target-features") {
            RustcPrintInfo::TargetFeatures
        } else if chars_eq_str(s, "target-libdir") {
            RustcPrintInfo::TargetLibdir
        } else if chars_eq_str(s, "target-list") {
            RustcPrintInfo::TargetList
        } else if chars_eq_str(s, "target-spec-json") {
            RustcPrintInfo::TargetSpecJson
        } else if chars_eq_str(s, "tls-models") {
            RustcPrintInfo::TlsModels
        } else {
            RustcPrintInfo::Other(string_from_chars(s))
        }
    }

    /// The value that `s` spells (every text is accepted).
    pub fn parse(s: &str) -> (r: RustcPrintInfo)
        ensures
            r@ == print_info_of(s@),
    {
        let cs = chars_of(s);
        RustcPrintInfo::parse_chars(cs.as_slice())
    }

    /// The spelling of the value (its `Display` form).
    pub fn to_string(&self) -> (r: String)
        ensures
            r@ == print_info_text(self@),
    {
        match self {
            RustcPrintInfo::AllTargetSpecsJson => "all-target-specs-json".to_owned(),
            RustcPrintInfo::CallingConventions => "calling-conventions".to_owned(),
            RustcPrintInfo::Cfg => "cfg".to_owned(),
            RustcPrintInfo::CheckCfg => "check-cfg".to_owned(),
            RustcPrintInfo::CodeModels => "code-models".to_owned(),
            RustcPrintInfo::CrateName => "crate-name".to_owned(),
            RustcPrintInfo::CrateRootLintLevels => "crate-root-lint-levels".to_owned(),
            RustcPrintInfo::DeploymentTarget => "deployment-target".to_owned(),
            RustcPrintInfo::FileNames => "file-names".to_owned(),
            RustcPrintInfo::HostTuple => "host-tuple".to_owned(),
            RustcPrintInfo::LinkArgs => "link-args".to_owned(),
            RustcPrintInfo::NativeStaticLibs => "native-static-libs".to_owned(),
            RustcPrintInfo::RelocationModels => "relocation-models".to_owned(),
            RustcPrintInfo::SplitDebuginfo => "split-debuginfo".to_owned(),
            RustcPrintInfo::StackProtectorStrategies => "stack-protector-strategies".to_owned(),
            RustcPrintInfo::SupportedCrateTypes => "supported-crate-types".to_owned(),
            RustcPrintInfo::Sysroot => "sysroot".to_owned(),
            RustcPrintInfo::TargetCpus => "target-cpus".to_owned(),
            RustcPrintInfo::TargetFeatures => "target-features".to_owned(),
            RustcPrintInfo::TargetLibdir => "target-libdir".to_owned(),
            RustcPrintInfo::TargetList => "target-list".to_owned(),
            RustcPrintInfo::TargetSpecJson => "target-spec-json".to_owned(),
            RustcPrintInfo::TlsModels => "tls-models".to_owned(),
            RustcPrintInfo::Other(s) => s.clone(),
        }
    }
}

impl std::str::FromStr for RustcPrintInfo {
    type Err = std::convert::Infallible;

    fn from_str(s: &str) -> (r: Result<RustcPrintInfo, std::convert::Infallible>)
        ensures
            r matches Ok(v) && v@ == print_info_of(s@),
    {
        Ok(RustcPrintInfo::parse(s))
    }
}

proof fn lemma_print_info_literals()
    ensures
        "all-target-specs-json"@ == seq!['a', 'l', 'l', '-', 't', 'a', 'r', 'g', 'e', 't', '-', 's', 'p', 'e', 'c', 's', '-', 'j', 's', 'o', 'n'],
        "calling-conventions"@ == seq!['c', 'a', 'l', 'l', 'i', 'n', 'g', '-', 'c', 'o', 'n', 'v', 'e', 'n', 't', 'i', 'o', 'n', 's'],
        "cfg"@ == seq!['c', 'f', 'g'],
        "check-cfg"@ == seq!['c', 'h', 'e', 'c', 'k', '-', 'c', 'f', 'g'],
        "code-models"@ == seq!['c', 'o', 'd', 'e', '-', 'm', 'o', 'd', 'e', 'l', 's'],
        "crate-name"@ == seq!['c', 'r', 'a', 't', 'e', '-', 'n', 'a', 'm', 'e'],
        "crate-root-lint-levels"@ == seq!['c', 'r', 'a', 't', 'e', '-', 'r', 'o', 'o', 't', '-', 'l', 'i', 'n', 't', '-', 'l', 'e', 'v', 'e', 'l', 's'],
        "deployment-target"@ == seq!['d', 'e', 'p', 'l', 'o', 'y', 'm', 'e', 'n', 't', '-', 't', 'a', 'r', 'g', 'e', 't'],
        "file-names"@ == seq!['f', 'i', 'l', 'e', '-', 'n', 'a', 'm', 'e', 's'],
        "host-tuple"@ == seq!['h', 'o', 's', 't', '-', 't', 'u', 'p', 'l', 'e'],
        "link-args"@ == seq!['l', 'i', 'n', 'k', '-', 'a', 'r', 'g', 's'],
        "native-static-libs"@ == seq!['n', 'a', 't', 'i', 'v', 'e', '-', 's', 't', 'a', 't', 'i', 'c', '-', 'l', 'i', 'b', 's'],
        "relocation-models"@ == seq!['r', 'e', 'l', 'o', 'c', 'a', 't', 'i', 'o', 'n', '-', 'm', 'o', 'd', 'e', 'l', 's'],
        "split-debuginfo"@ == seq!['s', 'p', 'l', 'i', 't', '-', 'd', 'e', 'b', 'u', 'g', 'i', 'n', 'f', 'o'],
        "stack-protector-strategies"@ == seq!['s', 't', 'a', 'c', 'k', '-', 'p', 'r', 'o', 't', 'e', 'c', 't', 'o', 'r', '-', 's', 't', 'r', 'a', 't', 'e', 'g', 'i', 'e', 's'],
        "supported-crate-types"@ == seq!['s', 'u', 'p', 'p', 'o', 'r', 't', 'e', 'd', '-', 'c', 'r', 'a', 't', 'e', '-', 't', 'y', 'p', 'e', 's'],
        "sysroot"@ == seq!['s', 'y', 's', 'r', 'o', 'o', 't'],
        "target-cpus"@ == seq!['t', 'a', 'r', 'g', 'e', 't', '-', 'c', 'p', 'u', 's'],
        "target-features"@ == seq!['t', 'a', 'r', 'g', 'e', 't', '-', 'f', 'e', 'a', 't', 'u', 'r', 'e', 's'],
        "target-libdir"@ == seq!['t', 'a', 'r', 'g', 'e', 't', '-', 'l', 'i', 'b', 'd', 'i', 'r'],
        "target-list"@ == seq!['t', 'a', 'r', 'g', 'e', 't', '-', 'l', 'i', 's', 't'],
        "target-spec-json"@ == seq!['t', 'a', 'r', 'g', 'e', 't', '-', 's', 'p', 'e', 'c', '-', 'j', 's', 'o', 'n'],
        "tls-models"@ == seq!['t', 'l', 's', '-', 'm', 'o', 'd', 'e', 'l', 's'],
{
    reveal_strlit("all-target-specs-json");
    reveal_strlit("calling-conventions");
    reveal_strlit("cfg");
    reveal_strlit("check-cfg");
    reveal_strlit("code-models");
    reveal_strlit("crate-name");
    reveal_strlit("crate-root-lint-levels");
    reveal_strlit("deployment-target");
    reveal_strlit("file-names");
    reveal_strlit("host-tuple");
    reveal_strlit("link-args");
    reveal_strlit("native-static-libs");
    reveal_strlit("relocation-models");
    reveal_strlit("split-debuginfo");
    reveal_strlit("stack-protector-strategies");
    reveal_strlit("supported-crate-types");
    reveal_strlit("sysroot");
    reveal_strlit("target-cpus");
    reveal_strlit("target-features");
    reveal_strlit("target-libdir");
    reveal_strlit("target-list");
    reveal_strlit("target-spec-json");
    reveal_strlit("tls-models");
}

/// Spelling a parsed [`RustcPrintInfo`] gives the text back, and parsing the spelling
/// of a canonical value gives the value back.
pub proof fn lemma_print_info_roundtrip(s: Seq<char>, v: RustcPrintInfoView)
    ensures
        print_info_text(print_info_of(s)) == s,
        print_info_canonical(v) ==> print_info_of(print_info_text(v)) == v,
{
    lemma_print_info_literals();
}

/// Lint level for cap-lints.
#[derive(Clone, Eq, PartialEq, Ord, PartialOrd, Hash, Debug)]
pub enum RustcLintLevel {
    /// `allow`
    Allow,
    /// `warn`
    Warn,
    /// `deny`
    Deny,
    /// `forbid`
    Forbid,
    /// Any other spelling, kept as written.
    Other(String),
}

/// The model of a [`RustcLintLevel`]: its variant, with the text of `Other`.
pub enum RustcLintLevelView {
    Allow,
    Warn,
    Deny,
    Forbid,
    Other(Seq<char>),
}

impl View for RustcLintLevel {
    type V = RustcLintLevelView;

    open spec fn view(&self) -> RustcLintLevelView {
        match self {
            RustcLintLevel::Allow => RustcLintLevelView::Allow,
            RustcLintLevel::Warn => RustcLintLevelView::Warn,
            RustcLintLevel::Deny => RustcLintLevelView::Deny,
            RustcLintLevel::Forbid => RustcLintLevelView::Forbid,
            RustcLintLevel::Other(s) => RustcLintLevelView::Other(s@),
        }
    }
}

/// The spelling of a [`RustcLintLevel`] (its `Display` form).
pub open spec fn lint_level_text(v: RustcLintLevelView) -> Seq<char> {
    match v {
        RustcLintLevelView::Allow => "allow"@,
        RustcLintLevelView::Warn => "warn"@,
        RustcLintLevelView::Deny => "deny"@,
        RustcLintLevelView::Forbid => "forbid"@,
        RustcLintLevelView::Other(s) => s,
    }
}

/// The [`RustcLintLevel`] that `s` spells; any other text is kept as `Other`.
pub open spec fn lint_level_of(s: Seq<char>) -> RustcLintLevelView {
    if s == "allow"@ {
        RustcLintLevelView::Allow
    } else if s == "warn"@ {
        RustcLintLevelView::Warn
    } else if s == "deny"@ {
        RustcLintLevelView::Deny
    } else if s == "forbid"@ {
        RustcLintLevelView::Forbid
    } else {
        RustcLintLevelView::Other(s)
    }
}

/// A [`RustcLintLevel`] that parsing its own spelling gives back: every value but an
/// `Other` whose text is one of the known spellings.
pub open spec fn lint_level_canonical(v: RustcLintLevelView) -> bool {
    match v {
        RustcLintLevelView::Other(s) => lint_level_of(s) == v,
        _ => true,
    }
}

impl RustcLintLevel {
    /// The value that the characters `s` spell (every text is accepted).
    pub fn parse_chars(s: &[char]) -> (r: RustcLintLevel)
        ensures
            r@ == lint_level_of(s@),
    {
        if chars_eq_str(s, "allow") {
            RustcLintLevel::Allow
        } else if chars_eq_str(s, "warn") {
            RustcLintLevel::Warn
        } else if chars_eq_str(s, "deny") {
            RustcLintLevel::Deny
        } else if chars_eq_str(s, "forbid") {
            RustcLintLevel::Forbid
        } else {
            RustcLintLevel::Other(string_from_chars(s))
        }
    }

    /// The value that `s` spells (every text is accepted).
    pub fn parse(s: &str) -> (r: RustcLintLevel)
        ensures
            r@ == lint_level_of(s@),
    {
        let cs = chars_of(s);
        RustcLintLevel::parse_chars(cs.as_slice())
    }

    /// The spelling of the value (its `Display` form).
    pub fn to_string(&self) -> (r: String)
        ensures
            r@ == lint_level_text(self@),
    {
        match self {
            RustcLintLevel::Allow => "allow".to_owned(),
            RustcLintLevel::Warn => "warn".to_owned(),
            RustcLintLevel::Deny => "deny".to_owned(),
            RustcLintLevel::Forbid => "forbid".to_owned(),
            RustcLintLevel::Other(s) => s.clone(),
        }
    }
}

impl std::str::FromStr for RustcLintLevel {
    type Err = std::convert::Infallible;

    fn from_str(s: &str) -> (r: Result<RustcLintLevel, std::convert::Infallible>)
        ensures
            r matches Ok(v) && v@ == lint_level_of(s@),
    {
        Ok(RustcLintLevel::parse(s))
    }
}

proof fn lemma_lint_level_literals()
    ensures
        "allow"@ == seq!['a', 'l', 'l', 'o', 'w'],
        "warn"@ == seq!['w', 'a', 'r', 'n'],
        "deny"@ == seq!['d', 'e', 'n', 'y'],
        "forbid"@ == seq!['f', 'o', 'r', 'b', 'i', 'd'],
{
    reveal_strlit("allow");
    reveal_strlit("warn");
    reveal_strlit("deny");
    reveal_strlit("forbid");
}

/// Spelling a parsed [`RustcLintLevel`] gives the text back, and parsing the spelling
/// of a canonical value gives the value back.
pub proof fn lemma_lint_level_roundtrip(s: Seq<char>, v: RustcLintLevelView)
    ensures
        lint_level_text(lint_level_of(s)) == s,
        lint_level_canonical(v) ==> lint_level_of(lint_level_text(v)) == v,
{
    lemma_lint_level_literals();
}

// ---------------------------------------------------------------------------
// Errors and constants
// ---------------------------------------------------------------------------

/// The error for text that a `rustc` argument parser does not accept; it
/// carries the text.
#[derive(Clone, PartialEq, Eq, Debug)]
pub struct ParseError(pub String);

impl RustcEdition {
    /// The latest stable edition.
    pub const LATEST_STABLE: Self = Self::Edition2024;
}

// ---------------------------------------------------------------------------
// Default output file names
// ---------------------------------------------------------------------------

/// The default file name of each output type, for a crate named `name`.
pub open spec fn emit_default_file_name(v: RustcEmitFormatView, name: Seq<char>) -> Option<
    Seq<char>,
> {
    match v {
        RustcEmitFormatView::Asm => Some(name + ".s"@),
        RustcEmitFormatView::DepInfo => Some(name + ".d"@),
        RustcEmitFormatView::Link => Some(name + ".link"@),
        RustcEmitFormatView::LlvmBc => Some(name + ".bc"@),
        RustcEmitFormatView::LlvmIr => Some(name + ".ll"@),
        RustcEmitFormatView::Metadata => Some("lib"@ + name + ".rmeta"@),
        RustcEmitFormatView::Mir => Some(name + ".mir"@),
        RustcEmitFormatView::Obj => Some(name + ".o"@),
        RustcEmitFormatView::ThinLinkBitcode => Some(name + ".indexing.o"@),
        RustcEmitFormatView::Other(_) => None,
    }
}

/// Different known output types get different default file names for the
/// same crate, so their outputs never overwrite each other.
pub proof fn lemma_emit_file_names_distinct(a: RustcEmitFormatView, b: RustcEmitFormatView, name: Seq<char>)
    requires
        !(a is Other),
        !(b is Other),
        a != b,
    ensures
        emit_default_file_name(a, name) is Some,
        emit_default_file_name(b, name) is Some,
        emit_default_file_name(a, name) != emit_default_file_name(b, name),
{
    reveal_strlit(".s");
    reveal_strlit(".d");
    reveal_strlit(".link");
    reveal_strlit(".bc");
    reveal_strlit(".ll");
    reveal_strlit("lib");
    reveal_strlit(".rmeta");
    reveal_strlit(".mir");
    reveal_strlit(".o");
    reveal_strlit(".indexing.o");
    let fa = emit_default_file_name(a, name)->0;
    let fb = emit_default_file_name(b, name)->0;
    if fa == fb {
        assert(fa.len() == fb.len());
        assert(fa[fa.len() - 1] == fb[fb.len() - 1]);
        assert(fa[fa.len() - 2] == fb[fb.len() - 2]);
    }
}

/// The default file name of a known output type is the crate name followed
/// by the type's extension (`.s`, `.d`, `.link`, `.bc`, `.ll`, `.mir`, `.o`,
/// `.indexing.o`), or, for metadata, `lib`, the crate name and `.rmeta`; an
/// unknown output type has none.
pub proof fn lemma_emit_file_name_extension(name: Seq<char>)
    ensures
        emit_default_file_name(RustcEmitFormatView::LlvmIr, name) == Some(name + seq!['.', 'l', 'l']),
        emit_default_file_name(RustcEmitFormatView::LlvmBc, name) == Some(name + seq!['.', 'b', 'c']),
        emit_default_file_name(RustcEmitFormatView::Asm, name) == Some(name + seq!['.', 's']),
        emit_default_file_name(RustcEmitFormatView::Obj, name) == Some(name + seq!['.', 'o']),
        emit_default_file_name(RustcEmitFormatView::DepInfo, name) == Some(name + seq!['.', 'd']),
        emit_default_file_name(RustcEmitFormatView::Mir, name) == Some(name + seq!['.', 'm', 'i', 'r']),
        emit_default_file_name(RustcEmitFormatView::Link, name) == Some(name + seq!['.', 'l', 'i', 'n', 'k']),
        emit_default_file_name(RustcEmitFormatView::Metadata, name) == Some(
            seq!['l', 'i', 'b'] + name + seq!['.', 'r', 'm', 'e', 't', 'a'],
        ),
        emit_default_file_name(RustcEmitFormatView::ThinLinkBitcode, name) == Some(
            name + seq!['.', 'i', 'n', 'd', 'e', 'x', 'i', 'n', 'g', '.', 'o'],
        ),
        forall|other: Seq<char>| #[trigger] emit_default_file_name(RustcEmitFormatView::Other(other), name) is None,
{
    reveal_strlit(".s");
    reveal_strlit(".d");
    reveal_strlit(".link");
    reveal_strlit(".bc");
    reveal_strlit(".ll");
    reveal_strlit("lib");
    reveal_strlit(".rmeta");
    reveal_strlit(".mir");
    reveal_strlit(".o");
    assert(".ll"@ =~= seq!['.', 'l', 'l']);
    assert(".bc"@ =~= seq!['.', 'b', 'c']);
    assert(".s"@ =~= seq!['.', 's']);
    assert(".o"@ =~= seq!['.', 'o']);
    assert(".d"@ =~= seq!['.', 'd']);
    assert(".mir"@ =~= seq!['.', 'm', 'i', 'r']);
    assert(".link"@ =~= seq!['.', 'l', 'i', 'n', 'k']);
    assert("lib"@ =~= seq!['l', 'i', 'b']);
    assert(".rmeta"@ =~= seq!['.', 'r', 'm', 'e', 't', 'a']);
    reveal_strlit(".indexing.o");
    assert(".indexing.o"@ =~= seq!['.', 'i', 'n', 'd', 'e', 'x', 'i', 'n', 'g', '.', 'o']);
}

impl RustcEmitFormat {
    /// The file name that `rustc` gives this output type by default, for a
    /// crate named `crate_name`; `None` for an unknown output type.
    pub fn default_file_name(&self, crate_name: &str) -> (r: Option<String>)
        ensures
            opt_view(r) == emit_default_file_name(self@, crate_name@),
    {
        let suffix: &str = match self {
            RustcEmitFormat::Asm => ".s",
            RustcEmitFormat::DepInfo => ".d",
            RustcEmitFormat::Link => ".link",
            RustcEmitFormat::LlvmBc => ".bc",
            RustcEmitFormat::LlvmIr => ".ll",
            RustcEmitFormat::Metadata => ".rmeta",
            RustcEmitFormat::Mir => ".mir",
            RustcEmitFormat::Obj => ".o",
            RustcEmitFormat::ThinLinkBitcode => ".indexing.o",
            RustcEmitFormat::Other(_) => {
                return None;
            },
        };
        let mut r = String::new();
        if let RustcEmitFormat::Metadata = self {
            push_str(&mut r, "lib");
        }
        push_str(&mut r, crate_name);
        push_str(&mut r, suffix);
        Some(r)
    }
}

// ---------------------------------------------------------------------------
// cfg specs
// ---------------------------------------------------------------------------

/// Expected config for checking the compilation environment; any text is
/// kept as written.
#[derive(Clone, Eq, PartialEq, Ord, PartialOrd, Hash, Debug)]
pub struct RustcCheckCfgSpec(pub String);

impl RustcCheckCfgSpec {
    /// Every text is a check-cfg spec.
    pub fn parse(s: &str) -> (r: RustcCheckCfgSpec)
        ensures
            r.0@ == s@,
    {
        RustcCheckCfgSpec(s.to_owned())
    }

    /// The text of the spec (its `Display` form).
    pub fn to_string(&self) -> (r: String)
        ensures
            r@ == self.0@,
    {
        self.0.clone()
    }
}

impl std::str::FromStr for RustcCheckCfgSpec {
    type Err = std::convert::Infallible;

    fn from_str(s: &str) -> (r: Result<RustcCheckCfgSpec, std::convert::Infallible>)
        ensures
            r matches Ok(c) && c.0@ == s@,
    {
        Ok(RustcCheckCfgSpec::parse(s))
    }
}

/// The value used to configure the compilation environment; it is written
/// between double quotes.
#[derive(Clone, Eq, PartialEq, Ord, PartialOrd, Hash, Debug)]
pub struct RustcCfgSpecValue(pub String);

/// The text of a cfg value `v`: `v` between double quotes.
pub open spec fn cfg_value_text(v: Seq<char>) -> Seq<char> {
    seq!['"'] + v + seq!['"']
}

/// The value that `s` quotes, if `s` is a text between double quotes.
pub open spec fn cfg_value_of(s: Seq<char>) -> Option<Seq<char>> {
    if s.len() >= 2 && s[0] == '"' && s[s.len() - 1] == '"' {
        Some(s.subrange(1, s.len() - 1))
    } else {
        None
    }
}

impl RustcCfgSpecValue {
    /// The value that the characters `s` quote.
    pub fn parse_chars(s: &[char]) -> (r: Option<RustcCfgSpecValue>)
        ensures
            match r {
                Some(v) => cfg_value_of(s@) == Some(v.0@),
                None => cfg_value_of(s@) is None,
            },
    {
        if s.len() >= 2 && s[0] == '"' && s[s.len() - 1] == '"' {
            Some(RustcCfgSpecValue(string_from_range(s, 1, s.len() - 1)))
        } else {
            None
        }
    }

    /// The value that `s` quotes; text that is not between double quotes is
    /// an error.
    pub fn parse(s: &str) -> (r: Result<RustcCfgSpecValue, ParseError>)
        ensures
            match r {
                Ok(v) => cfg_value_of(s@) == Some(v.0@),
                Err(e) => cfg_value_of(s@) is None && e.0@ == s@,
            },
    {
        let cs = chars_of(s);
        match RustcCfgSpecValue::parse_chars(cs.as_slice()) {
            Some(v) => Ok(v),
            None => Err(ParseError(s.to_owned())),
        }
    }

    /// The quoted value (its `Display` form).
    pub fn to_string(&self) -> (r: String)
        ensures
            r@ == cfg_value_text(self.0@),
    {
        let mut r = String::new();
        push_char(&mut r, '"');
        push_str(&mut r, self.0.as_str());
        push_char(&mut r, '"');
        r
    }
}

impl std::str::FromStr for RustcCfgSpecValue {
    type Err = ParseError;

    fn from_str(s: &str) -> (r: Result<RustcCfgSpecValue, ParseError>)
        ensures
            match r {
                Ok(v) => cfg_value_of(s@) == Some(v.0@),
                Err(e) => cfg_value_of(s@) is None && e.0@ == s@,
            },
    {
        RustcCfgSpecValue::parse(s)
    }
}

/// Quoting a value and reading it back gives the value; a text that reads
/// as a value is that value quoted.
pub proof fn lemma_cfg_value_roundtrip(s: Seq<char>, v: Seq<char>)
    ensures
        cfg_value_of(cfg_value_text(v)) == Some(v),
        cfg_value_of(s) matches Some(x) ==> cfg_value_text(x) == s,
{
    let t = cfg_value_text(v);
    assert(t.subrange(1, t.len() - 1) =~= v);
    if cfg_value_of(s) is Some {
        assert(cfg_value_text(s.subrange(1, s.len() - 1)) =~= s);
    }
}

/// Configure the compilation environment: `<key>="<value>"`.
#[derive(Clone, Eq, PartialEq, Ord, PartialOrd, Hash, Debug)]
pub struct RustcCfgSpec(pub RustcCfgSpecKey, pub RustcCfgSpecValue);

/// The text of the cfg spec with key `k` and value `v`.
pub open spec fn cfg_spec_text(k: RustcCfgSpecKeyView, v: Seq<char>) -> Seq<char> {
    cfg_key_text(k) + seq!['='] + cfg_value_text(v)
}

/// The key and value that `s` spells: the text before the first `=` is the
/// key, the rest must be a quoted value.
pub open spec fn cfg_spec_of(s: Seq<char>) -> Option<(RustcCfgSpecKeyView, Seq<char>)> {
    match split_once(s, '=') {
        Some((k, v)) => match cfg_value_of(v) {
            Some(x) => Some((cfg_key_of(k), x)),
            None => None,
        },
        None => None,
    }
}

impl RustcCfgSpec {
    /// The cfg spec that `s` spells; text without `=`, or whose value is not
    /// quoted, is an error.
    pub fn parse(s: &str) -> (r: Result<RustcCfgSpec, ParseError>)
        ensures
            match r {
                Ok(c) => cfg_spec_of(s@) == Some((c.0@, c.1.0@)),
                Err(e) => cfg_spec_of(s@) is None && e.0@ == s@,
            },
    {
        let cs = chars_of(s);
        match split_once_chars(cs.as_slice(), '=') {
            Some((k, v)) => {
                let key = RustcCfgSpecKey::parse_chars(k.as_slice());
                match RustcCfgSpecValue::parse_chars(v.as_slice()) {
                    Some(value) => Ok(RustcCfgSpec(key, value)),
                    None => Err(ParseError(s.to_owned())),
                }
            },
            None => Err(ParseError(s.to_owned())),
        }
    }

    /// The text of the spec (its `Display` form).
    pub fn to_string(&self) -> (r: String)
        ensures
            r@ == cfg_spec_text(self.0@, self.1.0@),
    {
        let mut r = self.0.to_string();
        push_char(&mut r, '=');
        let v = self.1.to_string();
        push_str(&mut r, v.as_str());
        r
    }
}

impl std::str::FromStr for RustcCfgSpec {
    type Err = ParseError;

    fn from_str(s: &str) -> (r: Result<RustcCfgSpec, ParseError>)
        ensures
            match r {
                Ok(c) => cfg_spec_of(s@) == Some((c.0@, c.1.0@)),
                Err(e) => cfg_spec_of(s@) is None && e.0@ == s@,
            },
    {
        RustcCfgSpec::parse(s)
    }
}

/// A text that parses as a cfg spec is the spec's text; the text of a spec
/// whose key is canonical and has no `=` parses back to the spec.
pub proof fn lemma_cfg_spec_roundtrip(s: Seq<char>, k: RustcCfgSpecKeyView, v: Seq<char>)
    ensures
        cfg_spec_of(s) matches Some((k2, v2)) ==> cfg_spec_text(k2, v2) == s,
        cfg_key_canonical(k) && !cfg_key_text(k).contains('=') ==> cfg_spec_of(cfg_spec_text(k, v))
            == Some((k, v)),
{
    if let Some((k2, v2)) = cfg_spec_of(s) {
        lemma_split_once_parts(s, '=');
        let (a, b) = split_once(s, '=')->0;
        lemma_cfg_key_roundtrip(a, k);
        lemma_cfg_value_roundtrip(b, v2);
        assert(cfg_spec_text(k2, v2) =~= s);
    }
    if cfg_key_canonical(k) && !cfg_key_text(k).contains('=') {
        let kt = cfg_key_text(k);
        assert(forall|j: int| 0 <= j < kt.len() ==> kt[j] != '=') by {
            assert forall|j: int| 0 <= j < kt.len() implies kt[j] != '=' by {
                if kt[j] == '=' {
                    assert(kt.contains('='));
                }
            }
        }
        lemma_split_once_join(kt, '=', cfg_value_text(v));
        lemma_cfg_key_roundtrip(kt, k);
        lemma_cfg_value_roundtrip(cfg_value_text(v), v);
    }
}

// ---------------------------------------------------------------------------
// Library search paths
// ---------------------------------------------------------------------------

/// A directory added to the library search path: `-L [<kind>=]<path>`.
#[derive(Clone, Eq, PartialEq, Ord, PartialOrd, Hash, Debug)]
pub struct RustcLibrarySearchPath(pub RustcLibrarySearchPathKind, pub String);

/// The kind and path that `s` spells: the text before the first `=` names
/// the kind; without `=` the kind is `all` and the whole text is the path.
pub open spec fn search_path_of(s: Seq<char>) -> (RustcLibrarySearchPathKindView, Seq<char>) {
    match split_once(s, '=') {
        Some((k, p)) => (search_kind_of(k), p),
        None => (RustcLibrarySearchPathKindView::All, s),
    }
}

/// The text of a search path: `<kind>=<path>`.
pub open spec fn search_path_text(k: RustcLibrarySearchPathKindView, p: Seq<char>) -> Seq<char> {
    search_kind_text(k) + seq!['='] + p
}

impl RustcLibrarySearchPath {
    /// The search path that `s` spells (every text is accepted).
    pub fn parse(s: &str) -> (r: RustcLibrarySearchPath)
        ensures
            (r.0@, r.1@) == search_path_of(s@),
    {
        let cs = chars_of(s);
        match split_once_chars(cs.as_slice(), '=') {
            Some((k, p)) => RustcLibrarySearchPath(
                RustcLibrarySearchPathKind::parse_chars(k.as_slice()),
                string_from_chars(p.as_slice()),
            ),
            None => RustcLibrarySearchPath(RustcLibrarySearchPathKind::All, s.to_owned()),
        }
    }

    /// The text of the search path (its `Display` form).
    pub fn to_string(&self) -> (r: String)
        ensures
            r@ == search_path_text(self.0@, self.1@),
    {
        let mut r = self.0.to_string();
        push_char(&mut r, '=');
        push_str(&mut r, self.1.as_str());
        r
    }
}

impl std::str::FromStr for RustcLibrarySearchPath {
    type Err = std::convert::Infallible;

    fn from_str(s: &str) -> (r: Result<RustcLibrarySearchPath, std::convert::Infallible>)
        ensures
            r matches Ok(p) && (p.0@, p.1@) == search_path_of(s@),
    {
        Ok(RustcLibrarySearchPath::parse(s))
    }
}

/// A text with a `=` is the text of what it parses to; the text of a search
/// path whose kind is canonical and has no `=` parses back to it.
pub proof fn lemma_search_path_roundtrip(
    s: Seq<char>,
    k: RustcLibrarySearchPathKindView,
    p: Seq<char>,
)
    ensures
        split_once(s, '=') is Some ==> search_path_text(search_path_of(s).0, search_path_of(s).1)
            == s,
        search_kind_canonical(k) && !search_kind_text(k).contains('=') ==> search_path_of(
            search_path_text(k, p),
        ) == (k, p),
{
    if split_once(s, '=') is Some {
        lemma_split_once_parts(s, '=');
        let (a, b) = split_once(s, '=')->0;
        lemma_search_kind_roundtrip(a, k);
        assert(search_path_text(search_path_of(s).0, search_path_of(s).1) =~= s);
    }
    if search_kind_canonical(k) && !search_kind_text(k).contains('=') {
        let kt = search_kind_text(k);
        assert forall|j: int| 0 <= j < kt.len() implies kt[j] != '=' by {
            if kt[j] == '=' {
                assert(kt.contains('='));
            }
        }
        lemma_split_once_join(kt, '=', p);
        lemma_search_kind_roundtrip(kt, k);
    }
}

// ---------------------------------------------------------------------------
// Link modifiers
// ---------------------------------------------------------------------------

/// Whether the link modifier is enabled, disabled, or unspecified.
#[derive(Copy, Clone, Eq, PartialEq, Ord, PartialOrd, Hash, Debug)]
pub enum RustcLinkModifierState {
    /// The link modifier is enabled: `+`.
    Enabled,
    /// The link modifier is disabled: `-`.
    Disabled,
    /// The link modifier is unspecified: no sign.
    Unspecified,
}

impl Default for RustcLinkModifierState {
    fn default() -> (r: RustcLinkModifierState)
        ensures
            r == RustcLinkModifierState::Unspecified,
    {
        RustcLinkModifierState::Unspecified
    }
}

/// The sign of a modifier state.
pub open spec fn modifier_state_text(st: RustcLinkModifierState) -> Seq<char> {
    match st {
        RustcLinkModifierState::Enabled => seq!['+'],
        RustcLinkModifierState::Disabled => seq!['-'],
        RustcLinkModifierState::Unspecified => seq![],
    }
}

/// The modifier state that the sign `s` spells.
pub open spec fn modifier_state_of(s: Seq<char>) -> Option<RustcLinkModifierState> {
    if s == seq!['+'] {
        Some(RustcLinkModifierState::Enabled)
    } else if s == seq!['-'] {
        Some(RustcLinkModifierState::Disabled)
    } else if s.len() == 0 {
        Some(RustcLinkModifierState::Unspecified)
    } else {
        None
    }
}

impl RustcLinkModifierState {
    /// The state that the characters `s` spell: `+`, `-` or nothing.
    pub fn parse_chars(s: &[char]) -> (r: Option<RustcLinkModifierState>)
        ensures
            r == modifier_state_of(s@),
    {
        if s.len() == 0 {
            Some(RustcLinkModifierState::Unspecified)
        } else if s.len() == 1 && s[0] == '+' {
            assert(s@ =~= seq!['+']);
            Some(RustcLinkModifierState::Enabled)
        } else if s.len() == 1 && s[0] == '-' {
            assert(s@ =~= seq!['-']);
            Some(RustcLinkModifierState::Disabled)
        } else {
            assert(s@ != seq!['+'] && s@ != seq!['-']) by {
                if s@.len() == 1 {
                    assert(s@[0] == s[0]);
                }
            }
            None
        }
    }

    /// The state that `s` spells; any other text is an error.
    pub fn parse(s: &str) -> (r: Result<RustcLinkModifierState, ParseError>)
        ensures
            match r {
                Ok(st) => modifier_state_of(s@) == Some(st),
                Err(e) => modifier_state_of(s@) is None && e.0@ == s@,
            },
    {
        let cs = chars_of(s);
        match RustcLinkModifierState::parse_chars(cs.as_slice()) {
            Some(st) => Ok(st),
            None => Err(ParseError(s.to_owned())),
        }
    }

    /// The sign of the state (its `Display` form).
    pub fn to_string(&self) -> (r: String)
        ensures
            r@ == modifier_state_text(*self),
    {
        let mut r = String::new();
        match self {
            RustcLinkModifierState::Enabled => push_char(&mut r, '+'),
            RustcLinkModifierState::Disabled => push_char(&mut r, '-'),
            RustcLinkModifierState::Unspecified => {},
        }
        proof {
            assert(seq![].push('+') =~= seq!['+']);
            assert(seq![].push('-') =~= seq!['-']);
        }
        r
    }
}

impl std::str::FromStr for RustcLinkModifierState {
    type Err = ParseError;

    fn from_str(s: &str) -> (r: Result<RustcLinkModifierState, ParseError>)
        ensures
            match r {
                Ok(st) => modifier_state_of(s@) == Some(st),
                Err(e) => modifier_state_of(s@) is None && e.0@ == s@,
            },
    {
        RustcLinkModifierState::parse(s)
    }
}

/// The sign of a state reads back as the state, and a sign that reads as a
/// state is that state's sign.
pub proof fn lemma_modifier_state_roundtrip(s: Seq<char>, st: RustcLinkModifierState)
    ensures
        modifier_state_of(modifier_state_text(st)) == Some(st),
        modifier_state_of(s) matches Some(x) ==> modifier_state_text(x) == s,
{
    assert(seq!['+'] != seq!['-']) by {
        assert(seq!['+'][0] != seq!['-'][0]);
    }
    if s.len() == 0 {
        assert(s =~= seq![]);
    }
}

/// Modifier when linking a native library: a sign and a name.
#[derive(Clone, Eq, PartialEq, Ord, PartialOrd, Hash, Debug)]
pub enum RustcLinkModifier {
    /// `[+-]bundle`
    Bundle(RustcLinkModifierState),
    /// `[+-]verbatim`
    Verbatim(RustcLinkModifierState),
    /// `[+-]whole-archive`
    WholeArchive(RustcLinkModifierState),
    /// `[+-]as-needed`
    AsNeeded(RustcLinkModifierState),
    /// Any other modifier, kept as written.
    Other(RustcLinkModifierState, String),
}

/// The model of a [`RustcLinkModifier`].
pub enum RustcLinkModifierView {
    Bundle(RustcLinkModifierState),
    Verbatim(RustcLinkModifierState),
    WholeArchive(RustcLinkModifierState),
    AsNeeded(RustcLinkModifierState),
    Other(RustcLinkModifierState, Seq<char>),
}

impl View for RustcLinkModifier {
    type V = RustcLinkModifierView;

    open spec fn view(&self) -> RustcLinkModifierView {
        match self {
            RustcLinkModifier::Bundle(st) => RustcLinkModifierView::Bundle(*st),
            RustcLinkModifier::Verbatim(st) => RustcLinkModifierView::Verbatim(*st),
            RustcLinkModifier::WholeArchive(st) => RustcLinkModifierView::WholeArchive(*st),
            RustcLinkModifier::AsNeeded(st) => RustcLinkModifierView::AsNeeded(*st),
            RustcLinkModifier::Other(st, s) => RustcLinkModifierView::Other(*st, s@),
        }
    }
}

/// The text of a link modifier: its sign and its name.
pub open spec fn link_modifier_text(m: RustcLinkModifierView) -> Seq<char> {
    match m {
        RustcLinkModifierView::Bundle(st) => modifier_state_text(st) + "bundle"@,
        RustcLinkModifierView::Verbatim(st) => modifier_state_text(st) + "verbatim"@,
        RustcLinkModifierView::WholeArchive(st) => modifier_state_text(st) + "whole-archive"@,
        RustcLinkModifierView::AsNeeded(st) => modifier_state_text(st) + "as-needed"@,
        RustcLinkModifierView::Other(st, x) => modifier_state_text(st) + x,
    }
}

/// The state whose sign is written before `word` at the end of `s`, if `s`
/// is a sign followed by `word`.
pub open spec fn state_before(s: Seq<char>, word: Seq<char>) -> Option<RustcLinkModifierState> {
    if has_suffix(s, word) {
        modifier_state_of(s.subrange(0, s.len() - word.len()))
    } else {
        None
    }
}

/// The link modifier that `s` spells: the known names are tried in order,
/// each after an optional sign; any other text is an unsigned `Other`.
pub open spec fn link_modifier_of(s: Seq<char>) -> RustcLinkModifierView {
    match state_before(s, "bundle"@) {
        Some(st) => RustcLinkModifierView::Bundle(st),
        None => match state_before(s, "verbatim"@) {
            Some(st) => RustcLinkModifierView::Verbatim(st),
            None => match state_before(s, "whole-archive"@) {
                Some(st) => RustcLinkModifierView::WholeArchive(st),
                None => match state_before(s, "as-needed"@) {
                    Some(st) => RustcLinkModifierView::AsNeeded(st),
                    None => RustcLinkModifierView::Other(RustcLinkModifierState::Unspecified, s),
                },
            },
        },
    }
}

/// A link modifier that parsing its own text gives back: every known
/// modifier, and an `Other` whose text is not read as something else.
pub open spec fn link_modifier_canonical(m: RustcLinkModifierView) -> bool {
    match m {
        RustcLinkModifierView::Other(_, _) => link_modifier_of(link_modifier_text(m)) == m,
        _ => true,
    }
}

fn state_before_exec(s: &[char], word: &str) -> (r: Option<RustcLinkModifierState>)
    ensures
        r == state_before(s@, word@),
{
    let w = chars_of(word);
    if ends_with_chars(s, w.as_slice()) {
        let head = slice_range(s, 0, s.len() - w.len());
        RustcLinkModifierState::parse_chars(head.as_slice())
    } else {
        None
    }
}

impl RustcLinkModifier {
    /// The link modifier that the characters `s` spell (every text is
    /// accepted).
    pub fn parse_chars(s: &[char]) -> (r: RustcLinkModifier)
        ensures
            r@ == link_modifier_of(s@),
    {
        if let Some(st) = state_before_exec(s, "bundle") {
            RustcLinkModifier::Bundle(st)
        } else if let Some(st) = state_before_exec(s, "verbatim") {
            RustcLinkModifier::Verbatim(st)
        } else if let Some(st) = state_before_exec(s, "whole-archive") {
            RustcLinkModifier::WholeArchive(st)
        } else if let Some(st) = state_before_exec(s, "as-needed") {
            RustcLinkModifier::AsNeeded(st)
        } else {
            RustcLinkModifier::Other(RustcLinkModifierState::Unspecified, string_from_chars(s))
        }
    }

    /// The link modifier that `s` spells (every text is accepted).
    pub fn parse(s: &str) -> (r: RustcLinkModifier)
        ensures
            r@ == link_modifier_of(s@),
    {
        let cs = chars_of(s);
        RustcLinkModifier::parse_chars(cs.as_slice())
    }

    /// The text of the modifier (its `Display` form).
    pub fn to_string(&self) -> (r: String)
        ensures
            r@ == link_modifier_text(self@),
    {
        let (st, name): (&RustcLinkModifierState, &str) = match self {
            RustcLinkModifier::Bundle(st) => (st, "bundle"),
            RustcLinkModifier::Verbatim(st) => (st, "verbatim"),
            RustcLinkModifier::WholeArchive(st) => (st, "whole-archive"),
            RustcLinkModifier::AsNeeded(st) => (st, "as-needed"),
            RustcLinkModifier::Other(st, x) => (st, x.as_str()),
        };
        let mut r = st.to_string();
        push_str(&mut r, name);
        r
    }
}

impl std::str::FromStr for RustcLinkModifier {
    type Err = std::convert::Infallible;

    fn from_str(s: &str) -> (r: Result<RustcLinkModifier, std::convert::Infallible>)
        ensures
            r matches Ok(m) && m@ == link_modifier_of(s@),
    {
        Ok(RustcLinkModifier::parse(s))
    }
}

proof fn lemma_modifier_literals()
    ensures
        "bundle"@ == seq!['b', 'u', 'n', 'd', 'l', 'e'],
        "verbatim"@ == seq!['v', 'e', 'r', 'b', 'a', 't', 'i', 'm'],
        "whole-archive"@ == seq!['w', 'h', 'o', 'l', 'e', '-', 'a', 'r', 'c', 'h', 'i', 'v', 'e'],
        "as-needed"@ == seq!['a', 's', '-', 'n', 'e', 'e', 'd', 'e', 'd'],
{
    reveal_strlit("bundle");
    reveal_strlit("verbatim");
    reveal_strlit("whole-archive");
    reveal_strlit("as-needed");
}

/// `state_before` finds the sign written before `word`.
proof fn lemma_state_before_text(st: RustcLinkModifierState, word: Seq<char>)
    ensures
        state_before(modifier_state_text(st) + word, word) == Some(st),
{
    let t = modifier_state_text(st) + word;
    assert(t.subrange(t.len() - word.len(), t.len() as int) =~= word);
    assert(t.subrange(0, t.len() - word.len()) =~= modifier_state_text(st));
    lemma_modifier_state_roundtrip(seq![], st);
}

/// Parsing the text of a link modifier gives it back when it is canonical,
/// and the text of a parsed modifier is the parsed text.
pub proof fn lemma_link_modifier_roundtrip(s: Seq<char>, m: RustcLinkModifierView)
    ensures
        link_modifier_text(link_modifier_of(s)) == s,
        link_modifier_canonical(m) ==> link_modifier_of(link_modifier_text(m)) == m,
{
    lemma_modifier_literals();
    let words = seq!["bundle"@, "verbatim"@, "whole-archive"@, "as-needed"@];
    assert forall|w: Seq<char>| #[trigger] state_before(s, w) is Some implies modifier_state_text(
        state_before(s, w)->0,
    ) + w == s by {
        let head = s.subrange(0, s.len() - w.len());
        lemma_modifier_state_roundtrip(head, RustcLinkModifierState::Unspecified);
        assert(s =~= head + s.subrange(s.len() - w.len(), s.len() as int));
    }
    match m {
        RustcLinkModifierView::Bundle(st) => {
            lemma_state_before_text(st, "bundle"@);
        },
        RustcLinkModifierView::Verbatim(st) => {
            lemma_state_before_text(st, "verbatim"@);
            let t = link_modifier_text(m);
            assert(t.subrange(t.len() - 6, t.len() as int)[0] == 'r');
        },
        RustcLinkModifierView::WholeArchive(st) => {
            lemma_state_before_text(st, "whole-archive"@);
            let t = link_modifier_text(m);
            assert(t.subrange(t.len() - 6, t.len() as int)[0] == 'r');
            assert(t.subrange(t.len() - 8, t.len() as int)[0] == '-');
        },
        RustcLinkModifierView::AsNeeded(st) => {
            lemma_state_before_text(st, "as-needed"@);
            let t = link_modifier_text(m);
            assert(t.subrange(t.len() - 6, t.len() as int)[0] == 'n');
            assert(t.subrange(t.len() - 8, t.len() as int)[0] == 's');
        },
        RustcLinkModifierView::Other(_, _) => {},
    }
}

// ---------------------------------------------------------------------------
// Print targets
// ---------------------------------------------------------------------------

/// The target for printing compiler information.
#[derive(Clone, Eq, PartialEq, Ord, PartialOrd, Hash, Debug)]
pub enum RustcPrintTarget {
    /// Print to a file.
    File(String),
    /// Print to stdout.
    Stdout,
}

/// The model of a [`RustcPrintTarget`].
pub enum RustcPrintTargetView {
    File(Seq<char>),
    Stdout,
}

impl View for RustcPrintTarget {
    type V = RustcPrintTargetView;

    open spec fn view(&self) -> RustcPrintTargetView {
        match self {
            RustcPrintTarget::File(f) => RustcPrintTargetView::File(f@),
            RustcPrintTarget::Stdout => RustcPrintTargetView::Stdout,
        }
    }
}

/// The text of a print target: the file name, or nothing for stdout.
pub open spec fn print_target_text(t: RustcPrintTargetView) -> Seq<char> {
    match t {
        RustcPrintTargetView::File(f) => f,
        RustcPrintTargetView::Stdout => seq![],
    }
}

/// The print target that `s` spells: the empty text is stdout.
pub open spec fn print_target_of(s: Seq<char>) -> RustcPrintTargetView {
    if s.len() == 0 {
        RustcPrintTargetView::Stdout
    } else {
        RustcPrintTargetView::File(s)
    }
}

impl RustcPrintTarget {
    /// The print target that `s` spells (every text is accepted).
    pub fn parse(s: &str) -> (r: RustcPrintTarget)
        ensures
            r@ == print_target_of(s@),
    {
        let cs = chars_of(s);
        if cs.len() == 0 {
            RustcPrintTarget::Stdout
        } else {
            RustcPrintTarget::File(s.to_owned())
        }
    }

    /// The text of the target (its `Display` form).
    pub fn to_string(&self) -> (r: String)
        ensures
            r@ == print_target_text(self@),
    {
        match self {
            RustcPrintTarget::File(f) => f.clone(),
            RustcPrintTarget::Stdout => String::new(),
        }
    }
}

impl std::str::FromStr for RustcPrintTarget {
    type Err = std::convert::Infallible;

    fn from_str(s: &str) -> (r: Result<RustcPrintTarget, std::convert::Infallible>)
        ensures
            r matches Ok(t) && t@ == print_target_of(s@),
    {
        Ok(RustcPrintTarget::parse(s))
    }
}

/// The text of a parsed target is the parsed text; every target but a file
/// with an empty name reads back from its text.
pub proof fn lemma_print_target_roundtrip(s: Seq<char>, t: RustcPrintTargetView)
    ensures
        print_target_text(print_target_of(s)) == s,
        t != RustcPrintTargetView::File(seq![]) ==> print_target_of(print_target_text(t)) == t,
{
    if s.len() == 0 {
        assert(s =~= seq![]);
    }
    if let RustcPrintTargetView::File(f) = t {
        if f.len() == 0 {
            assert(f =~= seq![]);
        }
    }
}

// ---------------------------------------------------------------------------
// Emit and print specs
// ---------------------------------------------------------------------------

/// Emit spec: `--emit <type>[=<file>]`.
#[derive(Clone, Eq, PartialEq, Ord, PartialOrd, Hash, Debug)]
pub struct RustcEmitSpec {
    pub format: RustcEmitFormat,
    pub file: Option<String>,
}

/// The model of a [`RustcEmitSpec`].
pub struct RustcEmitSpecView {
    pub format: RustcEmitFormatView,
    pub file: Option<Seq<char>>,
}

impl View for RustcEmitSpec {
    type V = RustcEmitSpecView;

    open spec fn view(&self) -> RustcEmitSpecView {
        RustcEmitSpecView { format: self.format@, file: opt_view(self.file) }
    }
}

/// The emit spec that `s` spells: the text before the first `=` is the
/// output type and the rest the file.
pub open spec fn emit_spec_of(s: Seq<char>) -> RustcEmitSpecView {
    match split_once(s, '=') {
        Some((f, x)) => RustcEmitSpecView { format: emit_format_of(f), file: Some(x) },
        None => RustcEmitSpecView { format: emit_format_of(s), file: None },
    }
}

/// The text of an emit spec.
pub open spec fn emit_spec_text(v: RustcEmitSpecView) -> Seq<char> {
    emit_format_text(v.format) + match v.file {
        Some(x) => seq!['='] + x,
        None => seq![],
    }
}

impl RustcEmitSpec {
    /// The emit spec that `s` spells (every text is accepted).
    pub fn parse(s: &str) -> (r: RustcEmitSpec)
        ensures
            r@ == emit_spec_of(s@),
    {
        let cs = chars_of(s);
        match split_once_chars(cs.as_slice(), '=') {
            Some((f, x)) => RustcEmitSpec {
                format: RustcEmitFormat::parse_chars(f.as_slice()),
                file: Some(string_from_chars(x.as_slice())),
            },
            None => RustcEmitSpec { format: RustcEmitFormat::parse_chars(cs.as_slice()), file: None },
        }
    }

    /// The text of the spec (its `Display` form).
    pub fn to_string(&self) -> (r: String)
        ensures
            r@ == emit_spec_text(self@),
    {
        let mut r = self.format.to_string();
        if let Some(file) = &self.file {
            push_char(&mut r, '=');
            push_str(&mut r, file.as_str());
        }
        proof {
            if let Some(file) = &self.file {
                assert(r@ =~= emit_format_text(self.format@) + (seq!['='] + file@));
            }
        }
        r
    }
}

impl std::str::FromStr for RustcEmitSpec {
    type Err = std::convert::Infallible;

    fn from_str(s: &str) -> (r: Result<RustcEmitSpec, std::convert::Infallible>)
        ensures
            r matches Ok(e) && e@ == emit_spec_of(s@),
    {
        Ok(RustcEmitSpec::parse(s))
    }
}

/// The text of a parsed emit spec is the parsed text; the text of a spec
/// whose output type is canonical and has no `=` parses back to the spec.
pub proof fn lemma_emit_spec_roundtrip(s: Seq<char>, v: RustcEmitSpecView)
    ensures
        emit_spec_text(emit_spec_of(s)) == s,
        emit_format_canonical(v.format) && !emit_format_text(v.format).contains('=')
            ==> emit_spec_of(emit_spec_text(v)) == v,
{
    match split_once(s, '=') {
        Some((f, x)) => {
            lemma_split_once_parts(s, '=');
            lemma_emit_format_roundtrip(f, v.format);
            assert(emit_spec_text(emit_spec_of(s)) =~= s);
        },
        None => {
            lemma_emit_format_roundtrip(s, v.format);
            assert(emit_spec_text(emit_spec_of(s)) =~= s);
        },
    }
    if emit_format_canonical(v.format) && !emit_format_text(v.format).contains('=') {
        let ft = emit_format_text(v.format);
        assert forall|j: int| 0 <= j < ft.len() implies ft[j] != '=' by {
            if ft[j] == '=' {
                assert(ft.contains('='));
            }
        }
        lemma_emit_format_roundtrip(ft, v.format);
        match v.file {
            Some(x) => {
                lemma_split_once_join(ft, '=', x);
                assert(emit_spec_text(v) =~= ft + seq!['='] + x);
            },
            None => {
                lemma_split_once_none(ft, '=');
                lemma_first_index_none(ft, '=');
                assert(emit_spec_text(v) =~= ft);
            },
        }
    }
}

/// Print spec: `--print <info>[=<file>]`.
#[derive(Clone, Eq, PartialEq, Ord, PartialOrd, Hash, Debug)]
pub struct RustcPrintSpec {
    pub info: RustcPrintInfo,
    pub target: RustcPrintTarget,
}

/// The model of a [`RustcPrintSpec`].
pub struct RustcPrintSpecView {
    pub info: RustcPrintInfoView,
    pub target: RustcPrintTargetView,
}

impl View for RustcPrintSpec {
    type V = RustcPrintSpecView;

    open spec fn view(&self) -> RustcPrintSpecView {
        RustcPrintSpecView { info: self.info@, target: self.target@ }
    }
}

/// The print spec that `s` spells: the text before the first `=` is the
/// information and the rest the file; without `=` it prints to stdout.
pub open spec fn print_spec_of(s: Seq<char>) -> RustcPrintSpecView {
    match split_once(s, '=') {
        Some((i, f)) => RustcPrintSpecView {
            info: print_info_of(i),
            target: RustcPrintTargetView::File(f),
        },
        None => RustcPrintSpecView { info: print_info_of(s), target: RustcPrintTargetView::Stdout },
    }
}

/// The text of a print spec.
pub open spec fn print_spec_text(v: RustcPrintSpecView) -> Seq<char> {
    print_info_text(v.info) + match v.target {
        RustcPrintTargetView::File(f) => seq!['='] + f,
        RustcPrintTargetView::Stdout => seq![],
    }
}

impl RustcPrintSpec {
    /// The print spec that `s` spells (every text is accepted).
    pub fn parse(s: &str) -> (r: RustcPrintSpec)
        ensures
            r@ == print_spec_of(s@),
    {
        let cs = chars_of(s);
        match split_once_chars(cs.as_slice(), '=') {
            Some((i, f)) => RustcPrintSpec {
                info: RustcPrintInfo::parse_chars(i.as_slice()),
                target: RustcPrintTarget::File(string_from_chars(f.as_slice())),
            },
            None => RustcPrintSpec {
                info: RustcPrintInfo::parse_chars(cs.as_slice()),
                target: RustcPrintTarget::Stdout,
            },
        }
    }

    /// The text of the spec (its `Display` form).
    pub fn to_string(&self) -> (r: String)
        ensures
            r@ == print_spec_text(self@),
    {
        let mut r = self.info.to_string();
        if let RustcPrintTarget::File(file) = &self.target {
            push_char(&mut r, '=');
            push_str(&mut r, file.as_str());
        }
        proof {
            if let RustcPrintTarget::File(file) = &self.target {
                assert(r@ =~= print_info_text(self.info@) + (seq!['='] + file@));
            }
        }
        r
    }
}

impl std::str::FromStr for RustcPrintSpec {
    type Err = std::convert::Infallible;

    fn from_str(s: &str) -> (r: Result<RustcPrintSpec, std::convert::Infallible>)
        ensures
            r matches Ok(p) && p@ == print_spec_of(s@),
    {
        Ok(RustcPrintSpec::parse(s))
    }
}

/// The text of a parsed print spec is the parsed text; the text of a spec
/// whose information is canonical and has no `=` parses back to the spec.
pub proof fn lemma_print_spec_roundtrip(s: Seq<char>, v: RustcPrintSpecView)
    ensures
        print_spec_text(print_spec_of(s)) == s,
        print_info_canonical(v.info) && !print_info_text(v.info).contains('=') ==> print_spec_of(
            print_spec_text(v),
        ) == v,
{
    match split_once(s, '=') {
        Some((i, f)) => {
            lemma_split_once_parts(s, '=');
            lemma_print_info_roundtrip(i, v.info);
            assert(print_spec_text(print_spec_of(s)) =~= s);
        },
        None => {
            lemma_print_info_roundtrip(s, v.info);
            assert(print_spec_text(print_spec_of(s)) =~= s);
        },
    }
    if print_info_canonical(v.info) && !print_info_text(v.info).contains('=') {
        let it = print_info_text(v.info);
        assert forall|j: int| 0 <= j < it.len() implies it[j] != '=' by {
            if it[j] == '=' {
                assert(it.contains('='));
            }
        }
        lemma_print_info_roundtrip(it, v.info);
        match v.target {
            RustcPrintTargetView::File(f) => {
                lemma_split_once_join(it, '=', f);
                assert(print_spec_text(v) =~= it + seq!['='] + f);
            },
            RustcPrintTargetView::Stdout => {
                lemma_first_index_none(it, '=');
                assert(print_spec_text(v) =~= it);
            },
        }
    }
}

// ---------------------------------------------------------------------------
// Codegen options
// ---------------------------------------------------------------------------

/// Codegen option: `-C <opt>[=<value>]`.
#[derive(Clone, Eq, PartialEq, Ord, PartialOrd, Hash, Debug)]
pub enum RustcCodegenOption {
    /// `debuginfo=<level>`
    Debuginfo(u8),
    /// `opt-level=<level>`
    OptLevel(String),
    /// Any other codegen option, with its value if it has one.
    Other(String, Option<String>),
}

/// The model of a [`RustcCodegenOption`].
pub enum RustcCodegenOptionView {
    Debuginfo(u8),
    OptLevel(Seq<char>),
    Other(Seq<char>, Option<Seq<char>>),
}

impl View for RustcCodegenOption {
    type V = RustcCodegenOptionView;

    open spec fn view(&self) -> RustcCodegenOptionView {
        match self {
            RustcCodegenOption::Debuginfo(n) => RustcCodegenOptionView::Debuginfo(*n),
            RustcCodegenOption::OptLevel(l) => RustcCodegenOptionView::OptLevel(l@),
            RustcCodegenOption::Other(k, v) => RustcCodegenOptionView::Other(k@, opt_view(*v)),
        }
    }
}

/// The codegen option that `s` spells, or `None` when it names `debuginfo`
/// with a value that is not a `u8`.
pub open spec fn codegen_option_of(s: Seq<char>) -> Option<RustcCodegenOptionView> {
    match split_once(s, '=') {
        Some((k, v)) => if k == "debuginfo"@ {
            match parse_u8(v) {
                Some(n) => Some(RustcCodegenOptionView::Debuginfo(n)),
                None => None,
            }
        } else if k == "opt-level"@ {
            Some(RustcCodegenOptionView::OptLevel(v))
        } else {
            Some(RustcCodegenOptionView::Other(k, Some(v)))
        },
        None => Some(RustcCodegenOptionView::Other(s, None)),
    }
}

/// The text of a codegen option.
pub open spec fn codegen_option_text(o: RustcCodegenOptionView) -> Seq<char> {
    match o {
        RustcCodegenOptionView::Debuginfo(n) => "debuginfo"@ + seq!['='] + decimal(n as nat),
        RustcCodegenOptionView::OptLevel(l) => "opt-level"@ + seq!['='] + l,
        RustcCodegenOptionView::Other(k, Some(v)) => k + seq!['='] + v,
        RustcCodegenOptionView::Other(k, None) => k,
    }
}

/// A codegen option that parsing its own text gives back: an `Other` key has
/// no `=` and, when the option has a value, is not a key of its own variant.
pub open spec fn codegen_option_canonical(o: RustcCodegenOptionView) -> bool {
    match o {
        RustcCodegenOptionView::Other(k, v) => !k.contains('=') && (v is Some ==> k
            != "debuginfo"@ && k != "opt-level"@),
        _ => true,
    }
}

impl RustcCodegenOption {
    /// The codegen option that `s` spells; a `debuginfo` value that is not a
    /// `u8` is an error.
    pub fn parse(s: &str) -> (r: Result<RustcCodegenOption, ParseError>)
        ensures
            match r {
                Ok(o) => codegen_option_of(s@) == Some(o@),
                Err(e) => codegen_option_of(s@) is None && e.0@ == s@,
            },
    {
        let cs = chars_of(s);
        match split_once_chars(cs.as_slice(), '=') {
            Some((k, v)) => {
                if chars_eq_str(k.as_slice(), "debuginfo") {
                    match parse_u8_chars(v.as_slice()) {
                        Some(n) => Ok(RustcCodegenOption::Debuginfo(n)),
                        None => Err(ParseError(s.to_owned())),
                    }
                } else if chars_eq_str(k.as_slice(), "opt-level") {
                    Ok(RustcCodegenOption::OptLevel(string_from_chars(v.as_slice())))
                } else {
                    Ok(
                        RustcCodegenOption::Other(
                            string_from_chars(k.as_slice()),
                            Some(string_from_chars(v.as_slice())),
                        ),
                    )
                }
            },
            None => Ok(RustcCodegenOption::Other(s.to_owned(), None)),
        }
    }

    /// The text of the option (its `Display` form).
    pub fn to_string(&self) -> (r: String)
        ensures
            r@ == codegen_option_text(self@),
    {
        match self {
            RustcCodegenOption::Debuginfo(n) => {
                let mut r = "debuginfo".to_owned();
                push_char(&mut r, '=');
                let d = decimal_string(*n as u64);
                push_str(&mut r, d.as_str());
                r
            },
            RustcCodegenOption::OptLevel(l) => {
                let mut r = "opt-level".to_owned();
                push_char(&mut r, '=');
                push_str(&mut r, l.as_str());
                r
            },
            RustcCodegenOption::Other(k, Some(v)) => {
                let mut r = k.clone();
                push_char(&mut r, '=');
                push_str(&mut r, v.as_str());
                r
            },
            RustcCodegenOption::Other(k, None) => k.clone(),
        }
    }
}

impl std::str::FromStr for RustcCodegenOption {
    type Err = ParseError;

    fn from_str(s: &str) -> (r: Result<RustcCodegenOption, ParseError>)
        ensures
            match r {
                Ok(o) => codegen_option_of(s@) == Some(o@),
                Err(e) => codegen_option_of(s@) is None && e.0@ == s@,
            },
    {
        RustcCodegenOption::parse(s)
    }
}

/// Parsing the text of a canonical codegen option gives it back; the text
/// of a parsed option other than `debuginfo` (whose number is rendered
/// without sign or leading zeros) is the parsed text.
pub proof fn lemma_codegen_option_roundtrip(s: Seq<char>, o: RustcCodegenOptionView)
    ensures
        codegen_option_of(s) matches Some(p) ==> (!(p is Debuginfo) ==> codegen_option_text(p) == s),
        codegen_option_canonical(o) ==> codegen_option_of(codegen_option_text(o)) == Some(o),
{
    reveal_strlit("debuginfo");
    reveal_strlit("opt-level");
    if let Some((k, v)) = split_once(s, '=') {
        lemma_split_once_parts(s, '=');
    }
    let t = codegen_option_text(o);
    match o {
        RustcCodegenOptionView::Debuginfo(n) => {
            lemma_decimal(n as nat);
            lemma_split_once_join("debuginfo"@, '=', decimal(n as nat));
            assert(split_once(t, '=') == Some(("debuginfo"@, decimal(n as nat))));
            assert(parse_u8(decimal(n as nat)) == Some(n));

        },
        RustcCodegenOptionView::OptLevel(l) => {
            lemma_split_once_join("opt-level"@, '=', l);
            assert("opt-level"@[0] != "debuginfo"@[0]);
        },
        RustcCodegenOptionView::Other(k, v) => {
            if codegen_option_canonical(o) {
                assert forall|j: int| 0 <= j < k.len() implies k[j] != '=' by {
                    if k[j] == '=' {
                        assert(k.contains('='));
                    }
                }
                match v {
                    Some(x) => {
                        lemma_split_once_join(k, '=', x);
                    },
                    None => {
                        lemma_first_index_none(k, '=');
                    },
                }
            }
        },
    }
}

// ---------------------------------------------------------------------------
// Link specs
// ---------------------------------------------------------------------------

/// Link spec: `-l [<KIND>[:<MODIFIERS>]=]<NAME>[:<RENAME>]`.
#[derive(Clone, Eq, PartialEq, Ord, PartialOrd, Hash, Debug)]
pub struct RustcLinkSpec {
    pub kind: Option<RustcLinkKind>,
    pub modifiers: Vec<RustcLinkModifier>,
    pub name: String,
    pub rename: Option<String>,
}

/// The model of a [`RustcLinkSpec`].
pub struct RustcLinkSpecView {
    pub kind: Option<RustcLinkKindView>,
    pub modifiers: Seq<RustcLinkModifierView>,
    pub name: Seq<char>,
    pub rename: Option<Seq<char>>,
}

/// The models of a list of link modifiers.
pub open spec fn modifiers_view(v: Seq<RustcLinkModifier>) -> Seq<RustcLinkModifierView> {
    v.map_values(|m: RustcLinkModifier| m@)
}

impl View for RustcLinkSpec {
    type V = RustcLinkSpecView;

    open spec fn view(&self) -> RustcLinkSpecView {
        RustcLinkSpecView {
            kind: match self.kind {
                Some(k) => Some(k@),
                None => None,
            },
            modifiers: modifiers_view(self.modifiers@),
            name: self.name@,
            rename: opt_view(self.rename),
        }
    }
}

/// The modifiers that a comma-separated list spells.
pub open spec fn modifiers_of(m: Seq<char>) -> Seq<RustcLinkModifierView> {
    split_all(m, ',').map_values(|p: Seq<char>| link_modifier_of(p))
}

/// The link spec that `s` spells. The text before the first `=`, if any,
/// holds the kind and, after its first `:`, the comma-separated modifiers;
/// the rest holds the name and, after its first `:`, the new name.
pub open spec fn link_spec_of(s: Seq<char>) -> RustcLinkSpecView {
    let (kind_mods, name_rename) = match split_once(s, '=') {
        Some((l, r)) => (Some(l), r),
        None => (None, s),
    };
    let (kind, modifiers) = match kind_mods {
        Some(km) => match split_once(km, ':') {
            Some((k, m)) => (Some(link_kind_of(k)), modifiers_of(m)),
            None => (Some(link_kind_of(km)), Seq::<RustcLinkModifierView>::empty()),
        },
        None => (None, Seq::<RustcLinkModifierView>::empty()),
    };
    let (name, rename) = match split_once(name_rename, ':') {
        Some((n, r)) => (n, Some(r)),
        None => (name_rename, None),
    };
    RustcLinkSpecView { kind, modifiers, name, rename }
}

/// The texts of a list of modifiers.
pub open spec fn modifier_texts(ms: Seq<RustcLinkModifierView>) -> Seq<Seq<char>> {
    ms.map_values(|m: RustcLinkModifierView| link_modifier_text(m))
}

/// The text of a link spec. Modifiers are written only with a kind.
pub open spec fn link_spec_text(v: RustcLinkSpecView) -> Seq<char> {
    let head = match v.kind {
        Some(k) => link_kind_text(k) + (if v.modifiers.len() > 0 {
            seq![':'] + join(modifier_texts(v.modifiers), seq![','])
        } else {
            seq![]
        }) + seq!['='],
        None => seq![],
    };
    let tail = match v.rename {
        Some(r) => seq![':'] + r,
        None => seq![],
    };
    head + v.name + tail
}

fn parse_modifiers(pieces: &Vec<Vec<char>>) -> (r: Vec<RustcLinkModifier>)
    ensures
        modifiers_view(r@) == pieces@.map_values(|v: Vec<char>| v@).map_values(
            |p: Seq<char>| link_modifier_of(p),
        ),
{
    let mut r: Vec<RustcLinkModifier> = Vec::new();
    let mut i: usize = 0;
    while i < pieces.len()
        invariant
            i <= pieces@.len(),
            r@.len() == i,
            forall|j: int| 0 <= j < i ==> #[trigger] r@[j]@ == link_modifier_of(pieces@[j]@),
        decreases pieces.len() - i,
    {
        r.push(RustcLinkModifier::parse_chars(pieces[i].as_slice()));
        i = i + 1;
    }
    assert(modifiers_view(r@) =~= pieces@.map_values(|v: Vec<char>| v@).map_values(
        |p: Seq<char>| link_modifier_of(p),
    ));
    r
}

fn modifier_strings(ms: &Vec<RustcLinkModifier>) -> (r: Vec<String>)
    ensures
        strings_view(r@) == modifier_texts(modifiers_view(ms@)),
{
    let mut r: Vec<String> = Vec::new();
    let mut i: usize = 0;
    while i < ms.len()
        invariant
            i <= ms@.len(),
            r@.len() == i,
            forall|j: int| 0 <= j < i ==> #[trigger] r@[j]@ == link_modifier_text(ms@[j]@),
        decreases ms.len() - i,
    {
        r.push(ms[i].to_string());
        i = i + 1;
    }
    assert(strings_view(r@) =~= modifier_texts(modifiers_view(ms@)));
    r
}

impl RustcLinkSpec {
    /// The link spec that `s` spells (every text is accepted).
    pub fn parse(s: &str) -> (r: RustcLinkSpec)
        ensures
            r@ == link_spec_of(s@),
    {
        let cs = chars_of(s);
        let (kind, modifiers, name_rename) = match split_once_chars(cs.as_slice(), '=') {
            Some((left, right)) => match split_once_chars(left.as_slice(), ':') {
                Some((k, m)) => {
                    let pieces = split_all_chars(m.as_slice(), ',');
                    let mods = parse_modifiers(&pieces);
                    (Some(RustcLinkKind::parse_chars(k.as_slice())), mods, right)
                },
                None => (Some(RustcLinkKind::parse_chars(left.as_slice())), Vec::new(), right),
            },
            None => (None, Vec::new(), cs),
        };
        let (name, rename) = match split_once_chars(name_rename.as_slice(), ':') {
            Some((n, x)) => (string_from_chars(n.as_slice()), Some(string_from_chars(x.as_slice()))),
            None => (string_from_chars(name_rename.as_slice()), None),
        };
        let r = RustcLinkSpec { kind, modifiers, name, rename };
        proof {
            assert(modifiers_view(Seq::<RustcLinkModifier>::empty()) =~= Seq::<
                RustcLinkModifierView,
            >::empty());
        }
        r
    }

    /// The text of the spec (its `Display` form).
    pub fn to_string(&self) -> (r: String)
        ensures
            r@ == link_spec_text(self@),
    {
        let mut r = String::new();
        if let Some(k) = &self.kind {
            let kt = k.to_string();
            push_str(&mut r, kt.as_str());
            if self.modifiers.len() > 0 {
                push_char(&mut r, ':');
                let texts = modifier_strings(&self.modifiers);
                let joined = join_strings(texts.as_slice(), ",");
                proof {
                    reveal_strlit(",");
                    assert(","@ =~= seq![',']);
                }
                push_str(&mut r, joined.as_str());
            }
            push_char(&mut r, '=');
        }
        push_str(&mut r, self.name.as_str());
        if let Some(x) = &self.rename {
            push_char(&mut r, ':');
            push_str(&mut r, x.as_str());
        }
        proof {
            assert(r@ =~= link_spec_text(self@));
        }
        r
    }
}

impl std::str::FromStr for RustcLinkSpec {
    type Err = std::convert::Infallible;

    fn from_str(s: &str) -> (r: Result<RustcLinkSpec, std::convert::Infallible>)
        ensures
            r matches Ok(l) && l@ == link_spec_of(s@),
    {
        Ok(RustcLinkSpec::parse(s))
    }
}

/// Rendering the modifiers that a list spells gives back the list.
proof fn lemma_modifiers_text(m: Seq<char>)
    ensures
        modifiers_of(m).len() > 0,
        join(modifier_texts(modifiers_of(m)), seq![',']) == m,
{
    lemma_split_all_join(m, ',');
    let parts = split_all(m, ',');
    assert forall|i: int| 0 <= i < parts.len() implies #[trigger] modifier_texts(modifiers_of(m))[i]
        == parts[i] by {
        lemma_link_modifier_roundtrip(parts[i], RustcLinkModifierView::Bundle(
            RustcLinkModifierState::Unspecified,
        ));
    }
    assert(modifier_texts(modifiers_of(m)) =~= parts);
}

/// Rendering a parsed link spec gives back the text it was parsed from.
pub proof fn lemma_link_spec_text_of(s: Seq<char>)
    ensures
        link_spec_text(link_spec_of(s)) == s,
{
    let v = link_spec_of(s);
    let (kind_mods, name_rename) = match split_once(s, '=') {
        Some((l, r)) => (Some(l), r),
        None => (None, s),
    };
    let tail = match v.rename {
        Some(r) => seq![':'] + r,
        None => seq![],
    };
    match split_once(name_rename, ':') {
        Some((n, x)) => {
            lemma_split_once_parts(name_rename, ':');
        },
        None => {},
    }
    assert(v.name + tail =~= name_rename);
    match kind_mods {
        Some(km) => {
            lemma_split_once_parts(s, '=');
            match split_once(km, ':') {
                Some((k, m)) => {
                    lemma_split_once_parts(km, ':');
                    lemma_link_kind_roundtrip(k, RustcLinkKindView::Dylib);
                    lemma_modifiers_text(m);
                    assert(link_spec_text(v) =~= k + seq![':'] + m + seq!['='] + (v.name + tail));
                },
                None => {
                    lemma_link_kind_roundtrip(km, RustcLinkKindView::Dylib);
                    assert(link_spec_text(v) =~= km + seq!['='] + (v.name + tail));
                },
            }
            assert(link_spec_text(v) =~= s);
        },
        None => {
            assert(link_spec_text(v) =~= s);
        },
    }
}

/// `c` is nowhere in `s`, stated position by position.
proof fn lemma_not_contains(s: Seq<char>, c: char)
    requires
        !s.contains(c),
    ensures
        forall|j: int| 0 <= j < s.len() ==> s[j] != c,
{
    assert forall|j: int| 0 <= j < s.len() implies s[j] != c by {
        if s[j] == c {
            assert(s.contains(c));
        }
    }
}

/// Pieces and a separator that lack `c` join into a text that lacks `c`.
proof fn lemma_join_lacks(parts: Seq<Seq<char>>, sep: Seq<char>, c: char)
    requires
        forall|k: int| 0 <= k < parts.len() ==> !(#[trigger] parts[k]).contains(c),
        !sep.contains(c),
    ensures
        !join(parts, sep).contains(c),
    decreases parts.len(),
{
    if parts.len() > 1 {
        lemma_join_lacks(parts.drop_last(), sep, c);
        let a = join(parts.drop_last(), sep);
        let b = parts.last();
        assert(!b.contains(c));
        if (a + sep + b).contains(c) {
            let j = choose|j: int| 0 <= j < (a + sep + b).len() && (a + sep + b)[j] == c;
            if j < a.len() {
                assert(a[j] == c);
            } else if j < a.len() + sep.len() {
                assert(sep[j - a.len()] == c);
            } else {
                assert(b[j - a.len() - sep.len()] == c);
            }
        }
    } else if parts.len() == 1 {
        assert(!parts[0].contains(c));
    }
}

/// A link spec whose parts can be told apart in its text: the kind and the
/// modifiers are canonical, the kind has neither `=` nor `:`, no modifier
/// has `=` or `,`, the name has neither `=` nor `:`, the new name has no
/// `=`, and there are modifiers only with a kind.
pub open spec fn link_spec_plain(v: RustcLinkSpecView) -> bool {
    &&& match v.kind {
        Some(k) => link_kind_canonical(k) && !link_kind_text(k).contains('=') && !link_kind_text(
            k,
        ).contains(':'),
        None => v.modifiers.len() == 0,
    }
    &&& forall|i: int|
        0 <= i < v.modifiers.len() ==> link_modifier_canonical(#[trigger] v.modifiers[i])
            && !link_modifier_text(v.modifiers[i]).contains('=') && !link_modifier_text(
            v.modifiers[i],
        ).contains(',')
    &&& !v.name.contains('=')
    &&& !v.name.contains(':')
    &&& v.rename matches Some(r) ==> !r.contains('=')
}

/// The name part of a link spec text reads back as the name and new name.
proof fn lemma_link_name_rename(v: RustcLinkSpecView)
    requires
        !v.name.contains(':'),
    ensures
        ({
            let tail = match v.rename {
                Some(r) => seq![':'] + r,
                None => seq![],
            };
            let nr = v.name + tail;
            match split_once(nr, ':') {
                Some((n, r)) => n == v.name && Some(r) == v.rename,
                None => v.rename is None && nr == v.name,
            }
        }),
{
    lemma_not_contains(v.name, ':');
    match v.rename {
        Some(r) => {
            lemma_split_once_join(v.name, ':', r);
            assert(v.name + (seq![':'] + r) =~= v.name + seq![':'] + r);
        },
        None => {
            lemma_first_index_none(v.name, ':');
            assert(v.name + seq![] =~= v.name);
        },
    }
}

/// Parsing the text of a plain link spec gives the spec back.
pub proof fn lemma_link_spec_of_text(v: RustcLinkSpecView)
    requires
        link_spec_plain(v),
    ensures
        link_spec_of(link_spec_text(v)) == v,
{
    let s = link_spec_text(v);
    let tail = match v.rename {
        Some(r) => seq![':'] + r,
        None => seq![],
    };
    let nr = v.name + tail;
    lemma_link_name_rename(v);
    lemma_not_contains(v.name, '=');
    assert(!tail.contains('=')) by {
        if let Some(r) = v.rename {
            lemma_not_contains(r, '=');
            if tail.contains('=') {
                let j = choose|j: int| 0 <= j < tail.len() && tail[j] == '=';
                assert(j > 0 ==> r[j - 1] == '=');
            }
        }
    }
    lemma_not_contains(tail, '=');
    match v.kind {
        Some(k) => {
            let kt = link_kind_text(k);
            lemma_not_contains(kt, '=');
            lemma_not_contains(kt, ':');
            lemma_link_kind_roundtrip(kt, k);
            if v.modifiers.len() > 0 {
                let texts = modifier_texts(v.modifiers);
                let j = join(texts, seq![',']);
                assert forall|i: int| 0 <= i < texts.len() implies !(#[trigger] texts[i]).contains(
                    '=',
                ) by {
                    assert(texts[i] == link_modifier_text(v.modifiers[i]));
                }
                assert(!seq![','].contains('=')) by {
                    if seq![','].contains('=') {
                        let x = choose|x: int| 0 <= x < 1 && seq![','][x] == '=';
                    }
                }
                lemma_join_lacks(texts, seq![','], '=');
                lemma_not_contains(j, '=');
                let l = kt + seq![':'] + j;
                assert forall|x: int| 0 <= x < l.len() implies l[x] != '=' by {
                    if x < kt.len() {
                    } else if x == kt.len() {
                    } else {
                        assert(l[x] == j[x - kt.len() - 1]);
                    }
                }
                assert(s =~= l + seq!['='] + nr);
                lemma_split_once_join(l, '=', nr);
                lemma_split_once_join(kt, ':', j);
                assert forall|a: int, b: int|
                    0 <= a < texts.len() && 0 <= b < texts[a].len() implies #[trigger] texts[a][b]
                    != ',' by {
                    assert(texts[a] == link_modifier_text(v.modifiers[a]));
                    lemma_not_contains(texts[a], ',');
                }
                lemma_join_split_all(texts, ',');
                assert forall|i: int| 0 <= i < v.modifiers.len() implies #[trigger] modifiers_of(
                    j,
                )[i] == v.modifiers[i] by {
                    assert(split_all(j, ',')[i] == texts[i]);
                    assert(link_modifier_canonical(v.modifiers[i]));
                    lemma_link_modifier_roundtrip(texts[i], v.modifiers[i]);
                }
                assert(modifiers_of(j) =~= v.modifiers);
            } else {
                assert(s =~= kt + seq!['='] + nr);
                lemma_split_once_join(kt, '=', nr);
                lemma_first_index_none(kt, ':');
                assert(v.modifiers =~= Seq::<RustcLinkModifierView>::empty());
            }
        },
        None => {
            assert(s =~= nr);
            assert forall|x: int| 0 <= x < nr.len() implies nr[x] != '=' by {
                if x >= v.name.len() {
                    assert(nr[x] == tail[x - v.name.len()]);
                }
            }
            lemma_first_index_none(nr, '=');
            assert(v.modifiers =~= Seq::<RustcLinkModifierView>::empty());
        },
    }
}

// ---------------------------------------------------------------------------
// Invocation arguments
// ---------------------------------------------------------------------------

/// A parsed argument for a `rustc` invocation.
///
/// Flags with values are written `--flag=value` when the flag accepts that
/// form and `--flag value` otherwise; aliases are folded into one variant
/// (`-g` is `Codegen(Debuginfo(2))` and `-O` is `Codegen(OptLevel("3"))`).
/// Anything not recognised is kept as `Other(key, value)`.
#[derive(Clone, Eq, PartialEq, Ord, PartialOrd, Hash, Debug)]
pub enum RustcInvocationArgument {
    /// `--cfg <spec>`
    Cfg(RustcCfgSpec),
    /// `--check-cfg <spec>`
    CheckCfg(RustcCheckCfgSpec),
    /// `-L [<kind>=]<path>`
    LibrarySearchPath(RustcLibrarySearchPath),
    /// `-l [<KIND>[:<MODIFIERS>]=]<NAME>[:<RENAME>]`
    Link(RustcLinkSpec),
    /// `--crate-name <name>`
    CrateName(String),
    /// `--crate-type <type>`
    CrateType(RustcCrateType),
    /// `--edition <edition>`
    Edition(RustcEdition),
    /// `--emit <type>[=<file>]`
    Emit(RustcEmitSpec),
    /// `--print <info>[=<file>]`
    Print(RustcPrintSpec),
    /// `-o <filename>`
    Output(String),
    /// `--out-dir <dir>`
    OutDir(String),
    /// `--explain <opt>`
    Explain(String),
    /// `--test`
    Test,
    /// `--target <target>`
    Target(String),
    /// `-A <lint>` or `--allow <lint>`
    Allow(String),
    /// `-W <lint>` or `--warn <lint>`
    Warn(String),
    /// `--force-warn <lint>`
    ForceWarn(String),
    /// `-D <lint>` or `--deny <lint>`
    Deny(String),
    /// `-F <lint>` or `--forbid <lint>`
    Forbid(String),
    /// `--cap-lints <level>`
    CapLints(RustcLintLevel),
    /// `-C <opt>[=<value>]` or `--codegen <opt>[=<value>]`
    Codegen(RustcCodegenOption),
    /// `-v` or `--verbose`
    Verbose,
    /// Any other argument, as key and value.
    Other(String, String),
}

// ---------------------------------------------------------------------------
// Build plans
// ---------------------------------------------------------------------------

/// The output of `cargo build --build-plan`: the compiler invocations and the
/// files that were read to plan them.
#[derive(Clone, Debug)]
pub struct BuildPlan {
    pub invocations: Vec<BuildPlanInvocation>,
    pub inputs: Vec<String>,
}

/// One invocation of a build plan. Maps are kept as lists of key and value
/// pairs in the order given.
#[derive(Clone, Debug)]
pub struct BuildPlanInvocation {
    pub package_name: String,
    pub package_version: String,
    /// The kinds of the target, as Cargo names them (`lib`, `bin`, ...).
    pub target_kind: Vec<String>,
    pub kind: Option<String>,
    pub compile_mode: CargoCompileMode,
    pub deps: Vec<usize>,
    pub outputs: Vec<String>,
    /// Built artifacts and the hard links that alias them, as pairs: the
    /// contracts speak of maps keyed by text, which vstd's `HashMap`
    /// specification does not model for `String` keys.
    pub links: Vec<(String, String)>,
    pub program: String,
    pub args: Vec<String>,
    /// Environment variables, as name and value pairs, each name once (see
    /// `links` for why pairs).
    pub env: Vec<(String, String)>,
    pub cwd: String,
}

} // verus!
