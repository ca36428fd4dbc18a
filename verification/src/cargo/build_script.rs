//! The output files of build scripts and their "root output" files.
//!
//! Build scripts talk to Cargo by printing `cargo::` (or `cargo:`) directives. Paths in those
//! directives point into the target directory or `$CARGO_HOME`; parsing a
//! line qualifies such paths (see [`QualifiedPath`]) so that the line can be
//! rebuilt for another location of the same build with `reconstruct`.
use vstd::prelude::*;

use crate::cargo::qualified_path::{
    dir_prefix, lemma_qualify_relocates, lemma_qualify_roundtrip, qualify, unqualify, ProfileDir,
    ProfileDirView, QualifiedPath, QualifiedPathView,
};
use crate::text::{
    chars_eq_str, chars_of, has_prefix, join, lemma_first_index_none, lemma_split_once_join,
    lemma_split_once_parts, push_char, push_str,
    slice_range, split_once, split_once_chars, starts_with_chars, string_from_chars,
};

verus! {

broadcast use vstd::string::group_string_axioms;

/// How the key of a directive is written: `cargo:KEY` or `cargo::KEY`.
#[derive(Copy, Clone, PartialEq, Eq, Structural, Hash, Debug)]
pub enum DirectiveSpelling {
    /// `cargo:KEY=VALUE`, the older spelling.
    SingleColon,
    /// `cargo::KEY=VALUE`.
    DoubleColon,
}

/// A line of build script output.
///
/// Cargo interprets lines written `cargo::KEY=VALUE` (or, in the older
/// spelling, `cargo:KEY=VALUE`) as directives; all other lines (diagnostics,
/// empty lines, unknown or malformed directives) are kept as
/// [`BuildScriptOutputLine::Other`]. Each directive records its spelling so
/// that it is reconstructed as it was written.
#[derive(Clone, PartialEq, Eq, Debug)]
pub enum BuildScriptOutputLine {
    /// `cargo::rerun-if-changed=PATH`
    RerunIfChanged(QualifiedPath, DirectiveSpelling),
    /// `cargo::rerun-if-env-changed=VAR`
    RerunIfEnvChanged(String, DirectiveSpelling),
    /// `cargo::rustc-link-arg=FLAG`
    RustcLinkArg(String, DirectiveSpelling),
    /// `cargo::rustc-link-lib=LIB`
    RustcLinkLib(String, DirectiveSpelling),
    /// `cargo::rustc-link-search=[KIND=]PATH`
    RustcLinkSearch { kind: Option<String>, path: QualifiedPath, spelling: DirectiveSpelling },
    /// `cargo::rustc-flags=FLAGS`
    RustcFlags(String, DirectiveSpelling),
    /// `cargo::rustc-cfg=KEY[="VALUE"]`
    RustcCfg(String, DirectiveSpelling),
    /// `cargo::rustc-check-cfg=CHECK_CFG`
    RustcCheckCfg(String, DirectiveSpelling),
    /// `cargo::rustc-env=VAR=VALUE`
    RustcEnv { var: String, value: String, spelling: DirectiveSpelling },
    /// `cargo::error=MESSAGE`
    Error(String, DirectiveSpelling),
    /// `cargo::warning=MESSAGE`
    Warning(String, DirectiveSpelling),
    /// `cargo::metadata=KEY=VALUE`
    Metadata { key: String, value: String, spelling: DirectiveSpelling },
    /// Any other line, kept as it is.
    Other(String),
}

/// The model of a [`BuildScriptOutputLine`].
pub enum OutputLineView {
    RerunIfChanged(QualifiedPathView, DirectiveSpelling),
    RerunIfEnvChanged(Seq<char>, DirectiveSpelling),
    RustcLinkArg(Seq<char>, DirectiveSpelling),
    RustcLinkLib(Seq<char>, DirectiveSpelling),
    RustcLinkSearch(Option<Seq<char>>, QualifiedPathView, DirectiveSpelling),
    RustcFlags(Seq<char>, DirectiveSpelling),
    RustcCfg(Seq<char>, DirectiveSpelling),
    RustcCheckCfg(Seq<char>, DirectiveSpelling),
    RustcEnv(Seq<char>, Seq<char>, DirectiveSpelling),
    Error(Seq<char>, DirectiveSpelling),
    Warning(Seq<char>, DirectiveSpelling),
    Metadata(Seq<char>, Seq<char>, DirectiveSpelling),
    Other(Seq<char>),
}

impl View for BuildScriptOutputLine {
    type V = OutputLineView;

    open spec fn view(&self) -> OutputLineView {
        match self {
            BuildScriptOutputLine::RerunIfChanged(p, sp) => OutputLineView::RerunIfChanged(p@, *sp),
            BuildScriptOutputLine::RerunIfEnvChanged(s, sp) => OutputLineView::RerunIfEnvChanged(s@, *sp),
            BuildScriptOutputLine::RustcLinkArg(s, sp) => OutputLineView::RustcLinkArg(s@, *sp),
            BuildScriptOutputLine::RustcLinkLib(s, sp) => OutputLineView::RustcLinkLib(s@, *sp),
            BuildScriptOutputLine::RustcLinkSearch { kind, path, spelling } => OutputLineView::RustcLinkSearch(
                match kind {
                    Some(k) => Some(k@),
                    None => None,
                },
                path@,
                *spelling,
            ),
            BuildScriptOutputLine::RustcFlags(s, sp) => OutputLineView::RustcFlags(s@, *sp),
            BuildScriptOutputLine::RustcCfg(s, sp) => OutputLineView::RustcCfg(s@, *sp),
            BuildScriptOutputLine::RustcCheckCfg(s, sp) => OutputLineView::RustcCheckCfg(s@, *sp),
            BuildScriptOutputLine::RustcEnv { var, value, spelling } => OutputLineView::RustcEnv(
                var@,
                value@,
                *spelling,
            ),
            BuildScriptOutputLine::Error(s, sp) => OutputLineView::Error(s@, *sp),
            BuildScriptOutputLine::Warning(s, sp) => OutputLineView::Warning(s@, *sp),
            BuildScriptOutputLine::Metadata { key, value, spelling } => OutputLineView::Metadata(
                key@,
                value@,
                *spelling,
            ),
            BuildScriptOutputLine::Other(s) => OutputLineView::Other(s@),
        }
    }
}

/// The spelling of the written key `key`.
pub open spec fn spelling_of(key: Seq<char>) -> DirectiveSpelling {
    if has_prefix(key, "cargo::"@) {
        DirectiveSpelling::DoubleColon
    } else {
        DirectiveSpelling::SingleColon
    }
}

/// The key `key`, given in the `cargo:KEY` spelling, written in the spelling
/// `sp`.
pub open spec fn spell_key(sp: DirectiveSpelling, key: Seq<char>) -> Seq<char> {
    match sp {
        DirectiveSpelling::SingleColon => key,
        DirectiveSpelling::DoubleColon => if key.len() >= 6 {
            "cargo::"@ + key.subrange(6, key.len() as int)
        } else {
            key
        },
    }
}

/// The key of a directive in the `cargo:KEY` spelling: a key written
/// `cargo::KEY` is spelled `cargo:KEY`; any other key is kept.
pub open spec fn single_colon_key(key: Seq<char>) -> Seq<char> {
    if has_prefix(key, "cargo::"@) {
        "cargo:"@ + key.subrange(7, key.len() as int)
    } else {
        key
    }
}

/// The line parsed from `line`, with paths qualified against `profile`.
/// Directives are recognised in both spellings, `cargo:KEY=VALUE` and
/// `cargo::KEY=VALUE`.
pub open spec fn parse_line(profile: ProfileDirView, line: Seq<char>) -> OutputLineView {
    match split_once(line, '=') {
        None => OutputLineView::Other(line),
        Some((written, value)) => {
            let key = single_colon_key(written);
            let sp = spelling_of(written);
            if key == "cargo:rerun-if-changed"@ {
                OutputLineView::RerunIfChanged(qualify(profile, value), sp)
            } else if key == "cargo:rerun-if-env-changed"@ {
                OutputLineView::RerunIfEnvChanged(value, sp)
            } else if key == "cargo:rustc-link-arg"@ {
                OutputLineView::RustcLinkArg(value, sp)
            } else if key == "cargo:rustc-link-lib"@ {
                OutputLineView::RustcLinkLib(value, sp)
            } else if key == "cargo:rustc-link-search"@ {
                match split_once(value, '=') {
                    Some((kind, path)) => OutputLineView::RustcLinkSearch(Some(kind), qualify(profile, path), sp),
                    None => OutputLineView::RustcLinkSearch(None, qualify(profile, value), sp),
                }
            } else if key == "cargo:rustc-flags"@ {
                OutputLineView::RustcFlags(value, sp)
            } else if key == "cargo:rustc-cfg"@ {
                OutputLineView::RustcCfg(value, sp)
            } else if key == "cargo:rustc-check-cfg"@ {
                OutputLineView::RustcCheckCfg(value, sp)
            } else if key == "cargo:rustc-env"@ {
                match split_once(value, '=') {
                    Some((a, b)) => OutputLineView::RustcEnv(a, b, sp),
                    None => OutputLineView::Other(line),
                }
            } else if key == "cargo:error"@ {
                OutputLineView::Error(value, sp)
            } else if key == "cargo:warning"@ {
                OutputLineView::Warning(value, sp)
            } else if key == "cargo:metadata"@ {
                match split_once(value, '=') {
                    Some((a, b)) => OutputLineView::Metadata(a, b, sp),
                    None => OutputLineView::Other(line),
                }
            } else {
                OutputLineView::Other(line)
            }
        },
    }
}

/// `key=value`.
pub open spec fn directive(key: Seq<char>, value: Seq<char>) -> Seq<char> {
    key + seq!['='] + value
}

/// The text of a line, with paths rebuilt under `profile`.
pub open spec fn render_line(profile: ProfileDirView, l: OutputLineView) -> Seq<char> {
    match l {
        OutputLineView::RerunIfChanged(p, sp) => directive(spell_key(sp, "cargo:rerun-if-changed"@), unqualify(profile, p)),
        OutputLineView::RerunIfEnvChanged(s, sp) => directive(spell_key(sp, "cargo:rerun-if-env-changed"@), s),
        OutputLineView::RustcLinkArg(s, sp) => directive(spell_key(sp, "cargo:rustc-link-arg"@), s),
        OutputLineView::RustcLinkLib(s, sp) => directive(spell_key(sp, "cargo:rustc-link-lib"@), s),
        OutputLineView::RustcLinkSearch(Some(kind), p, sp) => directive(
            spell_key(sp, "cargo:rustc-link-search"@),
            directive(kind, unqualify(profile, p)),
        ),
        OutputLineView::RustcLinkSearch(None, p, sp) => directive(spell_key(sp, "cargo:rustc-link-search"@), unqualify(profile, p)),
        OutputLineView::RustcFlags(s, sp) => directive(spell_key(sp, "cargo:rustc-flags"@), s),
        OutputLineView::RustcCfg(s, sp) => directive(spell_key(sp, "cargo:rustc-cfg"@), s),
        OutputLineView::RustcCheckCfg(s, sp) => directive(spell_key(sp, "cargo:rustc-check-cfg"@), s),
        OutputLineView::RustcEnv(a, b, sp) => directive(spell_key(sp, "cargo:rustc-env"@), directive(a, b)),
        OutputLineView::Error(s, sp) => directive(spell_key(sp, "cargo:error"@), s),
        OutputLineView::Warning(s, sp) => directive(spell_key(sp, "cargo:warning"@), s),
        OutputLineView::Metadata(a, b, sp) => directive(spell_key(sp, "cargo:metadata"@), directive(a, b)),
        OutputLineView::Other(s) => s,
    }
}

/// The key `key` in the `cargo:KEY` spelling.
fn single_colon_key_chars(key: &[char]) -> (r: Vec<char>)
    ensures
        r@ == single_colon_key(key@),
{
    let double = chars_of("cargo::");
    proof {
        reveal_strlit("cargo::");
        reveal_strlit("cargo:");
    }
    if starts_with_chars(key, double.as_slice()) {
        let mut r = chars_of("cargo:");
        let mut i: usize = 7;
        while i < key.len()
            invariant
                7 <= i <= key@.len(),
                r@ == "cargo:"@ + key@.subrange(7, i as int),
            decreases key.len() - i,
        {
            r.push(key[i]);
            i = i + 1;
            assert(r@ =~= "cargo:"@ + key@.subrange(7, i as int));
        }
        r
    } else {
        slice_range(key, 0, key.len())
    }
}

/// Appends `key=` to `out`.
fn push_key(out: &mut String, key: &str)
    ensures
        final(out)@ == old(out)@ + key@ + seq!['='],
{
    push_str(out, key);
    push_char(out, '=');
    assert(final(out)@ =~= old(out)@ + key@ + seq!['=']);
}

/// Appends `key=` to `out`, with `key` (given as `cargo:NAME`) written in
/// the spelling `sp`.
fn push_spelled_key(out: &mut String, sp: DirectiveSpelling, key: &str)
    ensures
        final(out)@ == old(out)@ + spell_key(sp, key@) + seq!['='],
{
    let cs = chars_of(key);
    match sp {
        DirectiveSpelling::DoubleColon => {
            if cs.len() >= 6 {
                push_str(out, "cargo::");
                let rest = slice_range(cs.as_slice(), 6, cs.len());
                crate::text::push_str_chars(out, rest.as_slice());
                push_char(out, '=');
                assert(final(out)@ =~= old(out)@ + spell_key(sp, key@) + seq!['=']);
            } else {
                push_key(out, key);
            }
        },
        DirectiveSpelling::SingleColon => {
            push_key(out, key);
        },
    }
}

impl BuildScriptOutputLine {
    /// Parse a line of build script output; paths in directives are qualified
    /// against `profile`. Lines that are not known, well-formed directives
    /// are kept as [`BuildScriptOutputLine::Other`].
    pub fn parse(profile: &ProfileDir, line: &str) -> (r: BuildScriptOutputLine)
        ensures
            r@ == parse_line(profile@, line@),
    {
        let cs = chars_of(line);
        BuildScriptOutputLine::parse_chars(profile, cs.as_slice())
    }

    /// Parse the line spelled by `line`.
    pub fn parse_chars(profile: &ProfileDir, line: &[char]) -> (r: BuildScriptOutputLine)
        ensures
            r@ == parse_line(profile@, line@),
    {
        let (written, value) = match split_once_chars(line, '=') {
            None => return BuildScriptOutputLine::Other(string_from_chars(line)),
            Some(kv) => kv,
        };
        let key = single_colon_key_chars(written.as_slice());
        let dc = chars_of("cargo::");
        let sp = if starts_with_chars(written.as_slice(), dc.as_slice()) {
            DirectiveSpelling::DoubleColon
        } else {
            DirectiveSpelling::SingleColon
        };
        if chars_eq_str(key.as_slice(), "cargo:rerun-if-changed") {
            BuildScriptOutputLine::RerunIfChanged(QualifiedPath::parse_chars(profile, value.as_slice()), sp)
        } else if chars_eq_str(key.as_slice(), "cargo:rerun-if-env-changed") {
            BuildScriptOutputLine::RerunIfEnvChanged(string_from_chars(value.as_slice()), sp)
        } else if chars_eq_str(key.as_slice(), "cargo:rustc-link-arg") {
            BuildScriptOutputLine::RustcLinkArg(string_from_chars(value.as_slice()), sp)
        } else if chars_eq_str(key.as_slice(), "cargo:rustc-link-lib") {
            BuildScriptOutputLine::RustcLinkLib(string_from_chars(value.as_slice()), sp)
        } else if chars_eq_str(key.as_slice(), "cargo:rustc-link-search") {
            match split_once_chars(value.as_slice(), '=') {
                Some((kind, path)) => BuildScriptOutputLine::RustcLinkSearch {
                    kind: Some(string_from_chars(kind.as_slice())),
                    path: QualifiedPath::parse_chars(profile, path.as_slice()),
                    spelling: sp,
                },
                None => BuildScriptOutputLine::RustcLinkSearch {
                    kind: None,
                    path: QualifiedPath::parse_chars(profile, value.as_slice()),
                    spelling: sp,
                },
            }
        } else if chars_eq_str(key.as_slice(), "cargo:rustc-flags") {
            BuildScriptOutputLine::RustcFlags(string_from_chars(value.as_slice()), sp)
        } else if chars_eq_str(key.as_slice(), "cargo:rustc-cfg") {
            BuildScriptOutputLine::RustcCfg(string_from_chars(value.as_slice()), sp)
        } else if chars_eq_str(key.as_slice(), "cargo:rustc-check-cfg") {
            BuildScriptOutputLine::RustcCheckCfg(string_from_chars(value.as_slice()), sp)
        } else if chars_eq_str(key.as_slice(), "cargo:rustc-env") {
            match split_once_chars(value.as_slice(), '=') {
                Some((x, y)) => BuildScriptOutputLine::RustcEnv {
                    var: string_from_chars(x.as_slice()),
                    value: string_from_chars(y.as_slice()),
                    spelling: sp,
                },
                None => BuildScriptOutputLine::Other(string_from_chars(line)),
            }
        } else if chars_eq_str(key.as_slice(), "cargo:error") {
            BuildScriptOutputLine::Error(string_from_chars(value.as_slice()), sp)
        } else if chars_eq_str(key.as_slice(), "cargo:warning") {
            BuildScriptOutputLine::Warning(string_from_chars(value.as_slice()), sp)
        } else if chars_eq_str(key.as_slice(), "cargo:metadata") {
            match split_once_chars(value.as_slice(), '=') {
                Some((x, y)) => BuildScriptOutputLine::Metadata {
                    key: string_from_chars(x.as_slice()),
                    value: string_from_chars(y.as_slice()),
                    spelling: sp,
                },
                None => BuildScriptOutputLine::Other(string_from_chars(line)),
            }
        } else {
            BuildScriptOutputLine::Other(string_from_chars(line))
        }
    }

    /// Reconstruct the line, with paths rebuilt under `profile`.
    pub fn reconstruct(&self, profile: &ProfileDir) -> (r: String)
        ensures
            r@ == render_line(profile@, self@),
    {
        let mut out = String::new();
        match self {
            BuildScriptOutputLine::RerunIfChanged(p, sp) => {
                push_spelled_key(&mut out, *sp, "cargo:rerun-if-changed");
                let s = p.reconstruct(profile);
                push_str(&mut out, s.as_str());
            },
            BuildScriptOutputLine::RerunIfEnvChanged(s, sp) => {
                push_spelled_key(&mut out, *sp, "cargo:rerun-if-env-changed");
                push_str(&mut out, s.as_str());
            },
            BuildScriptOutputLine::RustcLinkArg(s, sp) => {
                push_spelled_key(&mut out, *sp, "cargo:rustc-link-arg");
                push_str(&mut out, s.as_str());
            },
            BuildScriptOutputLine::RustcLinkLib(s, sp) => {
                push_spelled_key(&mut out, *sp, "cargo:rustc-link-lib");
                push_str(&mut out, s.as_str());
            },
            BuildScriptOutputLine::RustcLinkSearch { kind, path, spelling } => {
                push_spelled_key(&mut out, *spelling, "cargo:rustc-link-search");
                match kind {
                    Some(kd) => {
                        push_key(&mut out, kd.as_str());
                    },
                    None => {},
                }
                let s = path.reconstruct(profile);
                push_str(&mut out, s.as_str());
            },
            BuildScriptOutputLine::RustcFlags(s, sp) => {
                push_spelled_key(&mut out, *sp, "cargo:rustc-flags");
                push_str(&mut out, s.as_str());
            },
            BuildScriptOutputLine::RustcCfg(s, sp) => {
                push_spelled_key(&mut out, *sp, "cargo:rustc-cfg");
                push_str(&mut out, s.as_str());
            },
            BuildScriptOutputLine::RustcCheckCfg(s, sp) => {
                push_spelled_key(&mut out, *sp, "cargo:rustc-check-cfg");
                push_str(&mut out, s.as_str());
            },
            BuildScriptOutputLine::RustcEnv { var, value, spelling } => {
                push_spelled_key(&mut out, *spelling, "cargo:rustc-env");
                push_key(&mut out, var.as_str());
                push_str(&mut out, value.as_str());
            },
            BuildScriptOutputLine::Error(s, sp) => {
                push_spelled_key(&mut out, *sp, "cargo:error");
                push_str(&mut out, s.as_str());
            },
            BuildScriptOutputLine::Warning(s, sp) => {
                push_spelled_key(&mut out, *sp, "cargo:warning");
                push_str(&mut out, s.as_str());
            },
            BuildScriptOutputLine::Metadata { key, value, spelling } => {
                push_spelled_key(&mut out, *spelling, "cargo:metadata");
                push_key(&mut out, key.as_str());
                push_str(&mut out, value.as_str());
            },
            BuildScriptOutputLine::Other(s) => {
                push_str(&mut out, s.as_str());
            },
        }
        proof {
            assert(out@ =~= render_line(profile@, self@));
        }
        out
    }
}

/// Parsing a line of build script output and reconstructing it under the same
/// directories gives the line back, for every line, in either spelling of
/// its directive.
pub proof fn lemma_output_line_roundtrip(profile: ProfileDirView, line: Seq<char>)
    ensures
        render_line(profile, parse_line(profile, line)) == line,
{
    reveal_strlit("cargo::");
    reveal_strlit("cargo:");
    match split_once(line, '=') {
        None => {},
        Some((written, value)) => {
            lemma_split_once_parts(line, '=');
            assert(line == directive(written, value));
            let key = single_colon_key(written);
            if has_prefix(written, "cargo::"@) {
                assert(key.len() >= 6);
                assert(key.subrange(6, key.len() as int) =~= written.subrange(7, written.len() as int));
                assert(written =~= "cargo::"@ + written.subrange(7, written.len() as int));
                assert(spell_key(spelling_of(written), key) == written);
            } else {
                assert(spell_key(spelling_of(written), key) == written);
            }
            lemma_qualify_roundtrip(profile, value);
            if split_once(value, '=') is Some {
                let (a, b) = split_once(value, '=')->0;
                lemma_split_once_parts(value, '=');
                lemma_qualify_roundtrip(profile, b);
                assert(value == directive(a, b));
            }
        },
    }
}

/// Whether `s` holds no `=`.
pub open spec fn no_equals(s: Seq<char>) -> bool {
    forall|j: int| 0 <= j < s.len() ==> s[j] != '='
}

/// A directive `key=value`, with `key` (in the `cargo:KEY` spelling, holding
/// no `=`) written in the spelling `sp`, splits into that written key and
/// the value; the written key gives back `key` and `sp`.
proof fn lemma_directive_parts(key: Seq<char>, sp: DirectiveSpelling, value: Seq<char>)
    requires
        no_equals(key),
        key.len() >= 7,
        key.subrange(0, 6) == "cargo:"@,
        key[6] != ':',
    ensures
        split_once(directive(spell_key(sp, key), value), '=') == Some((spell_key(sp, key), value)),
        single_colon_key(spell_key(sp, key)) == key,
        spelling_of(spell_key(sp, key)) == sp,
{
    reveal_strlit("cargo::");
    reveal_strlit("cargo:");
    let w = spell_key(sp, key);
    assert(no_equals(w)) by {
        if sp == DirectiveSpelling::DoubleColon {
            assert forall|j: int| 0 <= j < w.len() implies w[j] != '=' by {
                if j >= 7 {
                    assert(w[j] == key[j - 1]);
                }
            }
        }
    }
    lemma_split_once_join(w, '=', value);
    if sp == DirectiveSpelling::DoubleColon {
        assert(w.subrange(0, 7) =~= "cargo::"@);
        assert(w.subrange(7, w.len() as int) =~= key.subrange(6, key.len() as int));
        assert("cargo:"@ + key.subrange(6, key.len() as int) =~= key);
    } else {
        if has_prefix(key, "cargo::"@) {
            assert(key.subrange(0, 7)[6] == ':');
        }
    }
}

/// Paths in the directives that carry one are rebuilt for another location
/// of the build: a `rerun-if-changed` or `rustc-link-search` line (with or
/// without a kind, in either spelling) naming a path under the profile
/// directory of `from`, parsed under `from` and reconstructed under `to`,
/// names the same path under the profile directory of `to`.
pub proof fn lemma_directive_paths_relocate(
    from: ProfileDirView,
    to: ProfileDirView,
    rel: Seq<char>,
    kind: Seq<char>,
    sp: DirectiveSpelling,
)
    requires
        no_equals(from.root),
        no_equals(rel),
        no_equals(kind),
    ensures
        ({
            let rr = spell_key(sp, "cargo:rerun-if-changed"@);
            render_line(to, parse_line(from, directive(rr, dir_prefix(from.root) + rel)))
                == directive(rr, dir_prefix(to.root) + rel)
        }),
        ({
            let ls = spell_key(sp, "cargo:rustc-link-search"@);
            &&& render_line(to, parse_line(from, directive(ls, dir_prefix(from.root) + rel)))
                == directive(ls, dir_prefix(to.root) + rel)
            &&& render_line(to, parse_line(from, directive(ls, directive(kind, dir_prefix(from.root) + rel))))
                == directive(ls, directive(kind, dir_prefix(to.root) + rel))
        }),
{
    reveal_strlit("cargo:");
    reveal_strlit("cargo:rerun-if-changed");
    reveal_strlit("cargo:rerun-if-env-changed");
    reveal_strlit("cargo:rustc-link-arg");
    reveal_strlit("cargo:rustc-link-lib");
    reveal_strlit("cargo:rustc-link-search");
    let v = dir_prefix(from.root) + rel;
    assert(no_equals(v)) by {
        assert forall|j: int| 0 <= j < v.len() implies v[j] != '=' by {
            if j < from.root.len() {
                assert(v[j] == from.root[j]);
            } else if j > from.root.len() {
                assert(v[j] == rel[j - from.root.len() - 1]);
            }
        }
    }
    lemma_first_index_none(v, '=');
    lemma_qualify_relocates(from, to, rel);
    let rr = "cargo:rerun-if-changed"@;
    let ls = "cargo:rustc-link-search"@;
    assert(rr.subrange(0, 6) =~= "cargo:"@);
    assert(ls.subrange(0, 6) =~= "cargo:"@);
    lemma_directive_parts(rr, sp, v);
    lemma_directive_parts(ls, sp, v);
    let kv = directive(kind, v);
    lemma_directive_parts(ls, sp, kv);
    lemma_split_once_join(kind, '=', v);
}

/// One case of [`lemma_directive_meanings`].
proof fn lemma_means_rerun_if_changed(profile: ProfileDirView, value: Seq<char>, sp: DirectiveSpelling)
    ensures
        parse_line(profile, directive(spell_key(sp, "cargo:rerun-if-changed"@), value)) == OutputLineView::RerunIfChanged(qualify(profile, value), sp),
{
    reveal_strlit("cargo:");
    reveal_strlit("cargo:rerun-if-changed");
    assert("cargo:rerun-if-changed"@.subrange(0, 6) =~= "cargo:"@);
    lemma_directive_parts("cargo:rerun-if-changed"@, sp, value);
}

/// One case of [`lemma_directive_meanings`].
proof fn lemma_means_rerun_if_env_changed(profile: ProfileDirView, value: Seq<char>, sp: DirectiveSpelling)
    ensures
        parse_line(profile, directive(spell_key(sp, "cargo:rerun-if-env-changed"@), value)) == OutputLineView::RerunIfEnvChanged(value, sp),
{
    reveal_strlit("cargo:");
    reveal_strlit("cargo:rerun-if-changed");
    reveal_strlit("cargo:rerun-if-env-changed");
    assert("cargo:rerun-if-env-changed"@.subrange(0, 6) =~= "cargo:"@);
    lemma_directive_parts("cargo:rerun-if-env-changed"@, sp, value);
}

/// One case of [`lemma_directive_meanings`].
proof fn lemma_means_rustc_link_arg(profile: ProfileDirView, value: Seq<char>, sp: DirectiveSpelling)
    ensures
        parse_line(profile, directive(spell_key(sp, "cargo:rustc-link-arg"@), value)) == OutputLineView::RustcLinkArg(value, sp),
{
    reveal_strlit("cargo:");
    reveal_strlit("cargo:rerun-if-changed");
    reveal_strlit("cargo:rerun-if-env-changed");
    reveal_strlit("cargo:rustc-link-arg");
    assert("cargo:rustc-link-arg"@.subrange(0, 6) =~= "cargo:"@);
    lemma_directive_parts("cargo:rustc-link-arg"@, sp, value);
}

/// One case of [`lemma_directive_meanings`].
proof fn lemma_means_rustc_link_lib(profile: ProfileDirView, value: Seq<char>, sp: DirectiveSpelling)
    ensures
        parse_line(profile, directive(spell_key(sp, "cargo:rustc-link-lib"@), value)) == OutputLineView::RustcLinkLib(value, sp),
{
    reveal_strlit("cargo:");
    reveal_strlit("cargo:rerun-if-changed");
    reveal_strlit("cargo:rerun-if-env-changed");
    reveal_strlit("cargo:rustc-link-arg");
    reveal_strlit("cargo:rustc-link-lib");
    assert("cargo:rustc-link-lib"@[17] != "cargo:rustc-link-arg"@[17]);
    assert("cargo:rustc-link-lib"@.subrange(0, 6) =~= "cargo:"@);
    lemma_directive_parts("cargo:rustc-link-lib"@, sp, value);
}

/// One case of [`lemma_directive_meanings`].
proof fn lemma_means_rustc_flags(profile: ProfileDirView, value: Seq<char>, sp: DirectiveSpelling)
    ensures
        parse_line(profile, directive(spell_key(sp, "cargo:rustc-flags"@), value)) == OutputLineView::RustcFlags(value, sp),
{
    reveal_strlit("cargo:");
    reveal_strlit("cargo:rerun-if-changed");
    reveal_strlit("cargo:rerun-if-env-changed");
    reveal_strlit("cargo:rustc-link-arg");
    reveal_strlit("cargo:rustc-link-lib");
    reveal_strlit("cargo:rustc-link-search");
    reveal_strlit("cargo:rustc-flags");
    assert("cargo:rustc-flags"@.subrange(0, 6) =~= "cargo:"@);
    lemma_directive_parts("cargo:rustc-flags"@, sp, value);
}

/// One case of [`lemma_directive_meanings`].
proof fn lemma_means_rustc_cfg(profile: ProfileDirView, value: Seq<char>, sp: DirectiveSpelling)
    ensures
        parse_line(profile, directive(spell_key(sp, "cargo:rustc-cfg"@), value)) == OutputLineView::RustcCfg(value, sp),
{
    reveal_strlit("cargo:");
    reveal_strlit("cargo:rerun-if-changed");
    reveal_strlit("cargo:rerun-if-env-changed");
    reveal_strlit("cargo:rustc-link-arg");
    reveal_strlit("cargo:rustc-link-lib");
    reveal_strlit("cargo:rustc-link-search");
    reveal_strlit("cargo:rustc-flags");
    reveal_strlit("cargo:rustc-cfg");
    assert("cargo:rustc-cfg"@.subrange(0, 6) =~= "cargo:"@);
    lemma_directive_parts("cargo:rustc-cfg"@, sp, value);
}

/// One case of [`lemma_directive_meanings`].
proof fn lemma_means_rustc_check_cfg(profile: ProfileDirView, value: Seq<char>, sp: DirectiveSpelling)
    ensures
        parse_line(profile, directive(spell_key(sp, "cargo:rustc-check-cfg"@), value)) == OutputLineView::RustcCheckCfg(value, sp),
{
    reveal_strlit("cargo:");
    reveal_strlit("cargo:rerun-if-changed");
    reveal_strlit("cargo:rerun-if-env-changed");
    reveal_strlit("cargo:rustc-link-arg");
    reveal_strlit("cargo:rustc-link-lib");
    reveal_strlit("cargo:rustc-link-search");
    reveal_strlit("cargo:rustc-flags");
    reveal_strlit("cargo:rustc-cfg");
    reveal_strlit("cargo:rustc-check-cfg");
    assert("cargo:rustc-check-cfg"@.subrange(0, 6) =~= "cargo:"@);
    lemma_directive_parts("cargo:rustc-check-cfg"@, sp, value);
}

/// One case of [`lemma_directive_meanings`].
proof fn lemma_means_error(profile: ProfileDirView, value: Seq<char>, sp: DirectiveSpelling)
    ensures
        parse_line(profile, directive(spell_key(sp, "cargo:error"@), value)) == OutputLineView::Error(value, sp),
{
    reveal_strlit("cargo:");
    reveal_strlit("cargo:rerun-if-changed");
    reveal_strlit("cargo:rerun-if-env-changed");
    reveal_strlit("cargo:rustc-link-arg");
    reveal_strlit("cargo:rustc-link-lib");
    reveal_strlit("cargo:rustc-link-search");
    reveal_strlit("cargo:rustc-flags");
    reveal_strlit("cargo:rustc-cfg");
    reveal_strlit("cargo:rustc-check-cfg");
    reveal_strlit("cargo:rustc-env");
    reveal_strlit("cargo:error");
    assert("cargo:error"@.subrange(0, 6) =~= "cargo:"@);
    lemma_directive_parts("cargo:error"@, sp, value);
}

/// One case of [`lemma_directive_meanings`].
proof fn lemma_means_warning(profile: ProfileDirView, value: Seq<char>, sp: DirectiveSpelling)
    ensures
        parse_line(profile, directive(spell_key(sp, "cargo:warning"@), value)) == OutputLineView::Warning(value, sp),
{
    reveal_strlit("cargo:");
    reveal_strlit("cargo:rerun-if-changed");
    reveal_strlit("cargo:rerun-if-env-changed");
    reveal_strlit("cargo:rustc-link-arg");
    reveal_strlit("cargo:rustc-link-lib");
    reveal_strlit("cargo:rustc-link-search");
    reveal_strlit("cargo:rustc-flags");
    reveal_strlit("cargo:rustc-cfg");
    reveal_strlit("cargo:rustc-check-cfg");
    reveal_strlit("cargo:rustc-env");
    reveal_strlit("cargo:error");
    reveal_strlit("cargo:warning");
    assert("cargo:warning"@.subrange(0, 6) =~= "cargo:"@);
    lemma_directive_parts("cargo:warning"@, sp, value);
}

/// One case of [`lemma_directive_meanings`].
proof fn lemma_means_rustc_link_search_kind(profile: ProfileDirView, a: Seq<char>, b: Seq<char>, sp: DirectiveSpelling)
    requires
        no_equals(a),
    ensures
        parse_line(profile, directive(spell_key(sp, "cargo:rustc-link-search"@), directive(a, b))) == OutputLineView::RustcLinkSearch(Some(a), qualify(profile, b), sp),
{
    reveal_strlit("cargo:");
    reveal_strlit("cargo:rerun-if-changed");
    reveal_strlit("cargo:rerun-if-env-changed");
    reveal_strlit("cargo:rustc-link-arg");
    reveal_strlit("cargo:rustc-link-lib");
    reveal_strlit("cargo:rustc-link-search");
    assert("cargo:rustc-link-search"@.subrange(0, 6) =~= "cargo:"@);
    lemma_directive_parts("cargo:rustc-link-search"@, sp, directive(a, b));
    lemma_split_once_join(a, '=', b);
}

/// One case of [`lemma_directive_meanings`].
proof fn lemma_means_rustc_link_search(profile: ProfileDirView, value: Seq<char>, sp: DirectiveSpelling)
    requires
        no_equals(value),
    ensures
        parse_line(profile, directive(spell_key(sp, "cargo:rustc-link-search"@), value)) == OutputLineView::RustcLinkSearch(None, qualify(profile, value), sp),
{
    reveal_strlit("cargo:");
    reveal_strlit("cargo:rerun-if-changed");
    reveal_strlit("cargo:rerun-if-env-changed");
    reveal_strlit("cargo:rustc-link-arg");
    reveal_strlit("cargo:rustc-link-lib");
    reveal_strlit("cargo:rustc-link-search");
    assert("cargo:rustc-link-search"@.subrange(0, 6) =~= "cargo:"@);
    lemma_directive_parts("cargo:rustc-link-search"@, sp, value);
    lemma_first_index_none(value, '=');
}

/// One case of [`lemma_directive_meanings`].
proof fn lemma_means_rustc_env(profile: ProfileDirView, a: Seq<char>, b: Seq<char>, sp: DirectiveSpelling)
    requires
        no_equals(a),
    ensures
        parse_line(profile, directive(spell_key(sp, "cargo:rustc-env"@), directive(a, b))) == OutputLineView::RustcEnv(a, b, sp),
{
    reveal_strlit("cargo:");
    reveal_strlit("cargo:rerun-if-changed");
    reveal_strlit("cargo:rerun-if-env-changed");
    reveal_strlit("cargo:rustc-link-arg");
    reveal_strlit("cargo:rustc-link-lib");
    reveal_strlit("cargo:rustc-link-search");
    reveal_strlit("cargo:rustc-flags");
    reveal_strlit("cargo:rustc-cfg");
    reveal_strlit("cargo:rustc-check-cfg");
    reveal_strlit("cargo:rustc-env");
    assert("cargo:rustc-env"@[12] != "cargo:rustc-cfg"@[12]);
    assert("cargo:rustc-env"@.subrange(0, 6) =~= "cargo:"@);
    lemma_directive_parts("cargo:rustc-env"@, sp, directive(a, b));
    lemma_split_once_join(a, '=', b);
}

/// One case of [`lemma_directive_meanings`].
proof fn lemma_means_metadata(profile: ProfileDirView, a: Seq<char>, b: Seq<char>, sp: DirectiveSpelling)
    requires
        no_equals(a),
    ensures
        parse_line(profile, directive(spell_key(sp, "cargo:metadata"@), directive(a, b))) == OutputLineView::Metadata(a, b, sp),
{
    reveal_strlit("cargo:");
    reveal_strlit("cargo:rerun-if-changed");
    reveal_strlit("cargo:rerun-if-env-changed");
    reveal_strlit("cargo:rustc-link-arg");
    reveal_strlit("cargo:rustc-link-lib");
    reveal_strlit("cargo:rustc-link-search");
    reveal_strlit("cargo:rustc-flags");
    reveal_strlit("cargo:rustc-cfg");
    reveal_strlit("cargo:rustc-check-cfg");
    reveal_strlit("cargo:rustc-env");
    reveal_strlit("cargo:error");
    reveal_strlit("cargo:warning");
    reveal_strlit("cargo:metadata");
    assert("cargo:metadata"@.subrange(0, 6) =~= "cargo:"@);
    lemma_directive_parts("cargo:metadata"@, sp, directive(a, b));
    lemma_split_once_join(a, '=', b);
}

/// What each directive means: a line `KEY=VALUE` whose key names a directive
/// (in either spelling) parses to that directive with that value, split at
/// its first `=` where the directive takes two parts (the first part holding
/// no `=`), and with paths qualified against the profile.
pub proof fn lemma_directive_meanings(
    profile: ProfileDirView,
    value: Seq<char>,
    a: Seq<char>,
    b: Seq<char>,
    sp: DirectiveSpelling,
)
    requires
        no_equals(a),
    ensures
        parse_line(profile, directive(spell_key(sp, "cargo:rerun-if-changed"@), value)) == OutputLineView::RerunIfChanged(qualify(profile, value), sp),
        parse_line(profile, directive(spell_key(sp, "cargo:rerun-if-env-changed"@), value)) == OutputLineView::RerunIfEnvChanged(value, sp),
        parse_line(profile, directive(spell_key(sp, "cargo:rustc-link-arg"@), value)) == OutputLineView::RustcLinkArg(value, sp),
        parse_line(profile, directive(spell_key(sp, "cargo:rustc-link-lib"@), value)) == OutputLineView::RustcLinkLib(value, sp),
        parse_line(profile, directive(spell_key(sp, "cargo:rustc-flags"@), value)) == OutputLineView::RustcFlags(value, sp),
        parse_line(profile, directive(spell_key(sp, "cargo:rustc-cfg"@), value)) == OutputLineView::RustcCfg(value, sp),
        parse_line(profile, directive(spell_key(sp, "cargo:rustc-check-cfg"@), value)) == OutputLineView::RustcCheckCfg(value, sp),
        parse_line(profile, directive(spell_key(sp, "cargo:error"@), value)) == OutputLineView::Error(value, sp),
        parse_line(profile, directive(spell_key(sp, "cargo:warning"@), value)) == OutputLineView::Warning(value, sp),
        parse_line(profile, directive(spell_key(sp, "cargo:rustc-link-search"@), directive(a, b)))
            == OutputLineView::RustcLinkSearch(Some(a), qualify(profile, b), sp),
        no_equals(value) ==> parse_line(profile, directive(spell_key(sp, "cargo:rustc-link-search"@), value))
            == OutputLineView::RustcLinkSearch(None, qualify(profile, value), sp),
        parse_line(profile, directive(spell_key(sp, "cargo:rustc-env"@), directive(a, b)))
            == OutputLineView::RustcEnv(a, b, sp),
        parse_line(profile, directive(spell_key(sp, "cargo:metadata"@), directive(a, b)))
            == OutputLineView::Metadata(a, b, sp),
{
    lemma_means_rerun_if_changed(profile, value, sp);
    lemma_means_rerun_if_env_changed(profile, value, sp);
    lemma_means_rustc_link_arg(profile, value, sp);
    lemma_means_rustc_link_lib(profile, value, sp);
    lemma_means_rustc_flags(profile, value, sp);
    lemma_means_rustc_cfg(profile, value, sp);
    lemma_means_rustc_check_cfg(profile, value, sp);
    lemma_means_error(profile, value, sp);
    lemma_means_warning(profile, value, sp);
    lemma_means_rustc_link_search_kind(profile, a, b, sp);
    if no_equals(value) {
        lemma_means_rustc_link_search(profile, value, sp);
    }
    lemma_means_rustc_env(profile, a, b, sp);
    lemma_means_metadata(profile, a, b, sp);
}

// ---------------------------------------------------------------------------
// Files of lines
// ---------------------------------------------------------------------------

/// Scanning `s` from the left: the pieces ended by a `\n` so far and the
/// piece being read.
pub open spec fn newline_scan(s: Seq<char>) -> (Seq<Seq<char>>, Seq<char>)
    decreases s.len(),
{
    if s.len() == 0 {
        (seq![], seq![])
    } else {
        let (done, cur) = newline_scan(s.drop_last());
        if s.last() == '\n' {
            (done.push(cur), seq![])
        } else {
            (done, cur.push(s.last()))
        }
    }
}

/// A piece ended by `\n`, without a `\r` just before the `\n`.
pub open spec fn strip_cr(p: Seq<char>) -> Seq<char> {
    if p.len() > 0 && p.last() == '\r' {
        p.drop_last()
    } else {
        p
    }
}

/// The lines of `s` (`str::lines`): split at `\n` or `\r\n`, the line
/// endings removed; a final line ending does not start another line.
pub open spec fn lines(s: Seq<char>) -> Seq<Seq<char>> {
    let (done, cur) = newline_scan(s);
    let ended = done.map_values(|p: Seq<char>| strip_cr(p));
    if cur.len() > 0 {
        ended.push(cur)
    } else {
        ended
    }
}

/// `s` without one final `\n`.
pub open spec fn without_final_newline(s: Seq<char>) -> Seq<char> {
    if s.len() > 0 && s.last() == '\n' {
        s.drop_last()
    } else {
        s
    }
}

/// Whether `s` holds no `\r`.
pub open spec fn no_cr(s: Seq<char>) -> bool {
    forall|j: int| 0 <= j < s.len() ==> s[j] != '\r'
}

/// The lines of `cs`.
pub fn lines_of(cs: &[char]) -> (r: Vec<Vec<char>>)
    ensures
        r@.len() == lines(cs@).len(),
        forall|i: int| 0 <= i < r@.len() ==> #[trigger] r@[i]@ == lines(cs@)[i],
{
    let mut out: Vec<Vec<char>> = Vec::new();
    let mut cur: Vec<char> = Vec::new();
    let mut i: usize = 0;
    while i < cs.len()
        invariant
            i <= cs@.len(),
            out@.len() == newline_scan(cs@.take(i as int)).0.len(),
            forall|k: int|
                0 <= k < out@.len() ==> #[trigger] out@[k]@ == strip_cr(
                    newline_scan(cs@.take(i as int)).0[k],
                ),
            cur@ == newline_scan(cs@.take(i as int)).1,
        decreases cs.len() - i,
    {
        proof {
            assert(cs@.take(i + 1).drop_last() =~= cs@.take(i as int));
        }
        let c = cs[i];
        if c == '\n' {
            let ghost piece = cur@;
            if cur.len() > 0 && cur[cur.len() - 1] == '\r' {
                cur.pop();
            }
            assert(cur@ == strip_cr(piece));
            out.push(cur);
            cur = Vec::new();
        } else {
            cur.push(c);
        }
        i = i + 1;
    }
    assert(cs@.take(i as int) =~= cs@);
    if cur.len() > 0 {
        out.push(cur);
    }
    out
}

/// Joining the pieces ended by `\n` and the last piece rebuilds the text.
proof fn lemma_newline_scan_join(s: Seq<char>)
    ensures
        join(newline_scan(s).0.push(newline_scan(s).1), seq!['\n']) == s,
    decreases s.len(),
{
    if s.len() == 0 {
    } else {
        lemma_newline_scan_join(s.drop_last());
        let (done, cur) = newline_scan(s.drop_last());
        let parts = done.push(cur);
        if s.last() == '\n' {
            let p2 = done.push(cur).push(seq![]);
            assert(p2.drop_last() =~= parts);
            assert(join(p2, seq!['\n']) =~= join(parts, seq!['\n']) + seq!['\n'] + seq![]);
            assert(s =~= s.drop_last() + seq!['\n']);
        } else {
            let p2 = done.push(cur.push(s.last()));
            lemma_join_extend_last(done, cur, s.last());
            assert(s =~= s.drop_last().push(s.last()));
        }
    }
}

/// Extending the last piece extends the join.
proof fn lemma_join_extend_last(done: Seq<Seq<char>>, cur: Seq<char>, c: char)
    ensures
        join(done.push(cur.push(c)), seq!['\n']) == join(done.push(cur), seq!['\n']).push(c),
{
    let a = done.push(cur.push(c));
    let b = done.push(cur);
    if done.len() == 0 {
        assert(a.len() == 1 && b.len() == 1);
    } else {
        assert(a.drop_last() =~= done);
        assert(b.drop_last() =~= done);
        assert(join(a, seq!['\n']) =~= join(done, seq!['\n']) + seq!['\n'] + cur.push(c));
        assert(join(b, seq!['\n']) =~= join(done, seq!['\n']) + seq!['\n'] + cur);
    }
}

/// Without `\r`, the pieces ended by `\n` are the lines.
proof fn lemma_no_cr_scan(s: Seq<char>)
    requires
        no_cr(s),
    ensures
        forall|k: int| 0 <= k < newline_scan(s).0.len() ==> #[trigger] strip_cr(newline_scan(s).0[k]) == newline_scan(s).0[k],
        no_cr(newline_scan(s).1),
    decreases s.len(),
{
    if s.len() > 0 {
        assert forall|j: int| 0 <= j < s.drop_last().len() implies s.drop_last()[j] != '\r' by {
            assert(s.drop_last()[j] == s[j]);
        }
        lemma_no_cr_scan(s.drop_last());
        let (done, cur) = newline_scan(s.drop_last());
        if s.last() == '\n' {
            if cur.len() > 0 {
                assert(cur[cur.len() - 1] != '\r');
            }
            let d2 = done.push(cur);
            assert forall|k: int| 0 <= k < d2.len() implies #[trigger] strip_cr(d2[k]) == d2[k] by {
                if k < done.len() {
                    assert(d2[k] == done[k]);
                }
            }
        } else {
            let c2 = cur.push(s.last());
            assert(s.last() == s[s.len() - 1]);
            assert forall|j: int| 0 <= j < c2.len() implies c2[j] != '\r' by {
                if j < cur.len() {
                    assert(c2[j] == cur[j]);
                }
            }
        }
    }
}

/// Joining the lines of a text without `\r` gives the text back, without a
/// final `\n`.
pub proof fn lemma_lines_join(s: Seq<char>)
    requires
        no_cr(s),
    ensures
        join(lines(s), seq!['\n']) == without_final_newline(s),
{
    lemma_no_cr_scan(s);
    lemma_newline_scan_join(s);
    let (done, cur) = newline_scan(s);
    let ended = done.map_values(|p: Seq<char>| strip_cr(p));
    assert(ended =~= done);
    if cur.len() > 0 {
        assert(lines(s) == done.push(cur));
        if s.len() > 0 && s.last() == '\n' {
            lemma_scan_last_newline(s);
        }
    } else {
        assert(lines(s) == done);
        let parts = done.push(cur);
        if done.len() == 0 {
            assert(s.len() == 0) by {
                lemma_scan_empty(s);
            }
        } else {
            assert(parts.drop_last() =~= done);
            assert(join(parts, seq!['\n']) =~= join(done, seq!['\n']) + seq!['\n']);
            lemma_scan_ends_newline(s);
            assert(s.drop_last() =~= join(done, seq!['\n']));
        }
    }
}

/// If the text ends with `\n`, the piece being read is empty.
proof fn lemma_scan_last_newline(s: Seq<char>)
    requires
        s.len() > 0,
        s.last() == '\n',
    ensures
        newline_scan(s).1.len() == 0,
{
}

/// An empty scan comes from an empty text.
proof fn lemma_scan_empty(s: Seq<char>)
    requires
        newline_scan(s).0.len() == 0,
        newline_scan(s).1.len() == 0,
    ensures
        s.len() == 0,
{
    if s.len() > 0 {
        let (done, cur) = newline_scan(s.drop_last());
        if s.last() != '\n' {
            assert(newline_scan(s).1 == cur.push(s.last()));
        }
    }
}

/// An empty piece being read after pieces ended by `\n` means the text ends
/// with `\n`.
proof fn lemma_scan_ends_newline(s: Seq<char>)
    requires
        newline_scan(s).0.len() > 0,
        newline_scan(s).1.len() == 0,
    ensures
        s.len() > 0 && s.last() == '\n',
{
    if s.len() == 0 {
    } else if s.last() != '\n' {
        let (done, cur) = newline_scan(s.drop_last());
        assert(newline_scan(s).1 == cur.push(s.last()));
    }
}

/// The parsed output of a build script: one parsed line per line.
///
/// Paths in this output point into the target directory or `$CARGO_HOME`, so
/// they are qualified when parsed and rebuilt when reconstructed.
#[derive(Clone, PartialEq, Eq, Debug)]
pub struct BuildScriptOutput(pub Vec<BuildScriptOutputLine>);

impl View for BuildScriptOutput {
    type V = Seq<OutputLineView>;

    open spec fn view(&self) -> Seq<OutputLineView> {
        self.0@.map_values(|l: BuildScriptOutputLine| l@)
    }
}

/// The parsed lines of a build script output.
pub open spec fn parse_output(profile: ProfileDirView, content: Seq<char>) -> Seq<OutputLineView> {
    lines(content).map_values(|l: Seq<char>| parse_line(profile, l))
}

/// The text of parsed lines, one per line.
pub open spec fn render_output(profile: ProfileDirView, ls: Seq<OutputLineView>) -> Seq<char> {
    join(ls.map_values(|l: OutputLineView| render_line(profile, l)), seq!['\n'])
}

impl BuildScriptOutput {
    /// Parse the content of a build script output file, line by line.
    pub fn parse_content(profile: &ProfileDir, content: &str) -> (r: BuildScriptOutput)
        ensures
            r@ == parse_output(profile@, content@),
    {
        let cs = chars_of(content);
        let ls = lines_of(cs.as_slice());
        let mut out: Vec<BuildScriptOutputLine> = Vec::new();
        let mut i: usize = 0;
        while i < ls.len()
            invariant
                i <= ls@.len(),
                ls@.len() == lines(cs@).len(),
                cs@ == content@,
                forall|k: int| 0 <= k < ls@.len() ==> #[trigger] ls@[k]@ == lines(cs@)[k],
                out@.len() == i,
                forall|k: int| 0 <= k < i ==> #[trigger] out@[k]@ == parse_line(profile@, lines(cs@)[k]),
            decreases ls.len() - i,
        {
            out.push(BuildScriptOutputLine::parse_chars(profile, ls[i].as_slice()));
            i = i + 1;
        }
        let r = BuildScriptOutput(out);
        assert(r@ =~= parse_output(profile@, content@));
        r
    }

    /// Reconstruct the file in the context of the profile directory: the
    /// lines joined with `\n`.
    pub fn reconstruct(&self, profile: &ProfileDir) -> (r: String)
        ensures
            r@ == render_output(profile@, self@),
    {
        let mut parts: Vec<String> = Vec::new();
        let mut i: usize = 0;
        while i < self.0.len()
            invariant
                i <= self.0@.len(),
                parts@.len() == i,
                forall|k: int| 0 <= k < i ==> #[trigger] parts@[k]@ == render_line(profile@, self.0@[k]@),
            decreases self.0.len() - i,
        {
            parts.push(self.0[i].reconstruct(profile));
            i = i + 1;
        }
        let r = crate::text::join_strings(parts.as_slice(), "\n");
        proof {
            reveal_strlit("\n");
            assert("\n"@ =~= seq!['\n']);
            assert(crate::text::strings_view(parts@) =~= self@.map_values(
                |l: OutputLineView| render_line(profile@, l),
            ));
        }
        r
    }
}

/// Parsing a build script output and reconstructing it under the same
/// directories gives the content back, without a final line ending, when the
/// content holds no `\r`.
pub proof fn lemma_output_roundtrip(profile: ProfileDirView, content: Seq<char>)
    requires
        no_cr(content),
    ensures
        render_output(profile, parse_output(profile, content)) == without_final_newline(content),
{
    let ls = lines(content);
    let rendered = parse_output(profile, content).map_values(|l: OutputLineView| render_line(profile, l));
    assert forall|i: int| 0 <= i < ls.len() implies #[trigger] rendered[i] == ls[i] by {
        lemma_output_line_roundtrip(profile, ls[i]);
    }
    assert(rendered =~= ls);
    lemma_lines_join(content);
}

/// A "root output" file of a build script: the path of its `OUT_DIR`.
#[derive(Clone, PartialEq, Eq, Debug)]
pub struct RootOutput(pub QualifiedPath);

/// A "root output" file that does not hold exactly one line.
#[derive(Clone, PartialEq, Eq, Debug)]
pub struct RootOutputLineCount(pub String);

impl View for RootOutput {
    type V = QualifiedPathView;

    open spec fn view(&self) -> QualifiedPathView {
        self.0@
    }
}

impl RootOutput {
    /// Parse the content of a "root output" file: exactly one line, the path
    /// of the `OUT_DIR`, qualified against `profile`.
    pub fn parse_content(profile: &ProfileDir, content: &str) -> (r: Result<RootOutput, RootOutputLineCount>)
        ensures
            match r {
                Ok(o) => lines(content@).len() == 1 && o@ == qualify(profile@, lines(content@)[0]),
                Err(e) => lines(content@).len() != 1 && e.0@ == content@,
            },
    {
        let cs = chars_of(content);
        let ls = lines_of(cs.as_slice());
        if ls.len() != 1 {
            return Err(RootOutputLineCount(content.to_owned()));
        }
        Ok(RootOutput(QualifiedPath::parse_chars(profile, ls[0].as_slice())))
    }

    /// Reconstruct the file in the context of the profile directory.
    pub fn reconstruct(&self, profile: &ProfileDir) -> (r: String)
        ensures
            r@ == unqualify(profile@, self@),
    {
        self.0.reconstruct(profile)
    }
}

} // verus!
