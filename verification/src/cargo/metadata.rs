//! Rust compiler metadata as the cache of dependencies records it, and the
//! rustc dep-info (`.d`) files of a build.
//!
//! A `.d` file lists, for each output of a compilation, the files it was
//! built from. Its paths point into the profile directory of the target
//! directory or into `$CARGO_HOME`; parsing records them relative to those
//! directories so that the file can be rebuilt for another location of the
//! same build.
use vstd::prelude::*;

use crate::cargo::build_script::{lemma_lines_join, lines, lines_of, no_cr, without_final_newline};
use crate::cargo::qualified_path::{dir_prefix, ProfileDir, ProfileDirView};
use crate::text::{
    chars_of, has_prefix, has_suffix, join, push_char, push_str, slice_range, split_whitespace,
    split_whitespace_chars, starts_with_chars, string_from_chars, strings_view,
};

verus! {

broadcast use vstd::string::group_string_axioms;

/// Rust compiler metadata for cache key generation: the LLVM target triple
/// of the current compiler.
#[derive(Clone, Eq, PartialEq, Ord, PartialOrd, Hash, Debug)]
pub struct RustcMetadata {
    /// The LLVM target triple.
    pub llvm_target: String,
}

// ---------------------------------------------------------------------------
// Dep-info files
// ---------------------------------------------------------------------------

/// A dependency path of a `.d` file.
///
/// Dependencies can be files inside the current project (under the profile
/// directory) or in the Cargo registry cache on the local machine (under
/// `$CARGO_HOME`).
#[derive(Clone, PartialEq, Eq, Debug)]
pub enum DotdDependencyPath {
    /// The path, relative to the profile directory.
    RelativeTargetProfile(String),
    /// The path, relative to `$CARGO_HOME`.
    RelativeCargoHome(String),
}

/// The model of a [`DotdDependencyPath`].
pub enum DepPathView {
    RelativeTargetProfile(Seq<char>),
    RelativeCargoHome(Seq<char>),
}

impl View for DotdDependencyPath {
    type V = DepPathView;

    open spec fn view(&self) -> DepPathView {
        match self {
            DotdDependencyPath::RelativeTargetProfile(s) => DepPathView::RelativeTargetProfile(s@),
            DotdDependencyPath::RelativeCargoHome(s) => DepPathView::RelativeCargoHome(s@),
        }
    }
}

/// A line of a `.d` file.
#[derive(Clone, PartialEq, Eq, Debug)]
pub enum DotdLine {
    /// An empty line.
    Space,
    /// A commented line, with the text after the `#`.
    Comment(String),
    /// An output, relative to the profile directory, and its inputs.
    Build(String, Vec<DotdDependencyPath>),
}

/// The model of a [`DotdLine`].
pub enum DotdLineView {
    Space,
    Comment(Seq<char>),
    Build(Seq<char>, Seq<DepPathView>),
}

/// The models of a list of dependency paths.
pub open spec fn deps_view(v: Seq<DotdDependencyPath>) -> Seq<DepPathView> {
    v.map_values(|d: DotdDependencyPath| d@)
}

impl View for DotdLine {
    type V = DotdLineView;

    open spec fn view(&self) -> DotdLineView {
        match self {
            DotdLine::Space => DotdLineView::Space,
            DotdLine::Comment(c) => DotdLineView::Comment(c@),
            DotdLine::Build(o, ins) => DotdLineView::Build(o@, deps_view(ins@)),
        }
    }
}

/// A parsed `.d` file: one parsed line per line.
#[derive(Clone, PartialEq, Eq, Debug)]
pub struct Dotd(pub Vec<DotdLine>);

impl View for Dotd {
    type V = Seq<DotdLineView>;

    open spec fn view(&self) -> Seq<DotdLineView> {
        self.0@.map_values(|l: DotdLine| l@)
    }
}

/// Where a relative input path of a `.d` file exists on disk: under the
/// profile directory (looked at first), under `$CARGO_HOME`, or under
/// neither.
#[derive(Copy, Clone, PartialEq, Eq, Structural, Debug)]
pub enum InputRoot {
    TargetProfile,
    CargoHome,
    Neither,
}

/// Why a line of a `.d` file cannot be parsed.
#[derive(Copy, Clone, PartialEq, Eq, Structural, Debug)]
pub enum DotdErrorKind {
    /// The line has no `: ` between its output and its inputs.
    NoSeparator,
    /// The output is not under the profile directory.
    OutputOutsideProfile,
    /// The input at this position is under neither directory.
    UnknownInputRoot(usize),
}

/// A line of a `.d` file that cannot be parsed: its position and why.
#[derive(Copy, Clone, PartialEq, Eq, Structural, Debug)]
pub struct DotdError {
    pub line: usize,
    pub kind: DotdErrorKind,
}

/// `s` relative to the directory `dir`: the part after `dir` and `/`.
pub open spec fn relative_to(s: Seq<char>, dir: Seq<char>) -> Option<Seq<char>> {
    if has_prefix(s, dir_prefix(dir)) {
        Some(s.subrange(dir_prefix(dir).len() as int, s.len() as int))
    } else {
        None
    }
}

/// The answer in `roots` for the input at position `k`; a missing answer is
/// [`InputRoot::Neither`].
pub open spec fn root_at(roots: Seq<InputRoot>, k: int) -> InputRoot {
    if 0 <= k < roots.len() {
        roots[k]
    } else {
        InputRoot::Neither
    }
}

/// The dependency path of the input `t`: an absolute path is taken relative
/// to the profile directory, else to `$CARGO_HOME`; a relative path is kept,
/// under the directory where it exists (`root`).
pub open spec fn parse_dep(profile: ProfileDirView, t: Seq<char>, root: InputRoot) -> Option<DepPathView> {
    if t.len() > 0 && t[0] == '/' {
        match relative_to(t, profile.root) {
            Some(r) => Some(DepPathView::RelativeTargetProfile(r)),
            None => match relative_to(t, profile.cargo_home) {
                Some(r) => Some(DepPathView::RelativeCargoHome(r)),
                None => None,
            },
        }
    } else {
        match root {
            InputRoot::TargetProfile => Some(DepPathView::RelativeTargetProfile(t)),
            InputRoot::CargoHome => Some(DepPathView::RelativeCargoHome(t)),
            InputRoot::Neither => None,
        }
    }
}

/// The dependency paths of the inputs `ts`, or the position of the first
/// input that has none.
pub open spec fn parse_deps(profile: ProfileDirView, ts: Seq<Seq<char>>, roots: Seq<InputRoot>) -> Result<
    Seq<DepPathView>,
    int,
>
    decreases ts.len(),
{
    if ts.len() == 0 {
        Ok(seq![])
    } else {
        match parse_deps(profile, ts.drop_last(), roots) {
            Err(k) => Err(k),
            Ok(ds) => match parse_dep(profile, ts.last(), root_at(roots, ts.len() - 1)) {
                Some(d) => Ok(ds.push(d)),
                None => Err(ts.len() - 1),
            },
        }
    }
}

/// `i` is the position of the first `: ` in `s`.
pub open spec fn is_first_sep(s: Seq<char>, i: int) -> bool {
    &&& 0 <= i && i + 1 < s.len()
    &&& s[i] == ':' && s[i + 1] == ' '
    &&& forall|j: int| 0 <= j < i ==> !(#[trigger] s[j] == ':' && s[j + 1] == ' ')
}

/// `s` split at its first `: `.
pub open spec fn split_sep(s: Seq<char>) -> Option<(Seq<char>, Seq<char>)> {
    if exists|i: int| is_first_sep(s, i) {
        let i = choose|i: int| is_first_sep(s, i);
        Some((s.subrange(0, i), s.subrange(i + 2, s.len() as int)))
    } else {
        None
    }
}

/// The line parsed from `line` of a `.d` file, with paths taken relative to
/// the directories of `profile`; `roots` says where each relative input
/// exists.
pub open spec fn parse_dotd_line(profile: ProfileDirView, line: Seq<char>, roots: Seq<InputRoot>) -> Result<
    DotdLineView,
    DotdErrorKind,
> {
    if line.len() == 0 {
        Ok(DotdLineView::Space)
    } else if line[0] == '#' {
        Ok(DotdLineView::Comment(line.drop_first()))
    } else if line.last() == ':' {
        match relative_to(line.drop_last(), profile.root) {
            Some(o) => Ok(DotdLineView::Build(o, seq![])),
            None => Err(DotdErrorKind::OutputOutsideProfile),
        }
    } else {
        match split_sep(line) {
            None => Err(DotdErrorKind::NoSeparator),
            Some((output, inputs)) => match relative_to(output, profile.root) {
                None => Err(DotdErrorKind::OutputOutsideProfile),
                Some(o) => match parse_deps(profile, split_whitespace(inputs), roots) {
                    Ok(ds) => Ok(DotdLineView::Build(o, ds)),
                    Err(k) => Err(DotdErrorKind::UnknownInputRoot(k as usize)),
                },
            },
        }
    }
}

/// The answers for the inputs of line `i`; a missing list is empty.
pub open spec fn roots_of_line(roots: Seq<Seq<InputRoot>>, i: int) -> Seq<InputRoot> {
    if 0 <= i < roots.len() {
        roots[i]
    } else {
        seq![]
    }
}

/// The models of lists of input roots.
pub open spec fn roots_view(roots: Seq<Vec<InputRoot>>) -> Seq<Seq<InputRoot>> {
    roots.map_values(|v: Vec<InputRoot>| v@)
}

/// Whether every line of `content` parses.
pub open spec fn dotd_parses(profile: ProfileDirView, content: Seq<char>, roots: Seq<Seq<InputRoot>>) -> bool {
    forall|i: int|
        0 <= i < lines(content).len() ==> #[trigger] parse_dotd_line(
            profile,
            lines(content)[i],
            roots_of_line(roots, i),
        ) is Ok
}

/// The parsed lines of `content`.
pub open spec fn dotd_of(profile: ProfileDirView, content: Seq<char>, roots: Seq<Seq<InputRoot>>) -> Seq<
    DotdLineView,
> {
    Seq::new(
        lines(content).len(),
        |i: int| parse_dotd_line(profile, lines(content)[i], roots_of_line(roots, i))->Ok_0,
    )
}

/// The path that a dependency path names under the directories of
/// `profile`.
pub open spec fn render_dep(profile: ProfileDirView, d: DepPathView) -> Seq<char> {
    match d {
        DepPathView::RelativeTargetProfile(r) => dir_prefix(profile.root) + r,
        DepPathView::RelativeCargoHome(r) => dir_prefix(profile.cargo_home) + r,
    }
}

/// The text of a line of a `.d` file, with paths rebuilt under `profile`.
pub open spec fn render_dotd_line(profile: ProfileDirView, l: DotdLineView) -> Seq<char> {
    match l {
        DotdLineView::Space => seq![],
        DotdLineView::Comment(c) => seq!['#'] + c,
        DotdLineView::Build(o, ds) => dir_prefix(profile.root) + o + seq![':', ' '] + join(
            ds.map_values(|d: DepPathView| render_dep(profile, d)),
            seq![' '],
        ),
    }
}

/// The text of a `.d` file: its lines joined with `\n`.
pub open spec fn render_dotd(profile: ProfileDirView, ls: Seq<DotdLineView>) -> Seq<char> {
    join(ls.map_values(|l: DotdLineView| render_dotd_line(profile, l)), seq!['\n'])
}

/// The part of `cs` after `dir` and `/`, when `cs` begins with them.
fn relative_to_chars(cs: &[char], dir: &str) -> (r: Option<Vec<char>>)
    ensures
        match r {
            Some(v) => relative_to(cs@, dir@) == Some(v@),
            None => relative_to(cs@, dir@) is None,
        },
{
    let mut d = chars_of(dir);
    d.push('/');
    if starts_with_chars(cs, d.as_slice()) {
        Some(slice_range(cs, d.len(), cs.len()))
    } else {
        None
    }
}

/// The position of the first `: ` in `cs`.
fn find_sep(cs: &[char]) -> (r: Option<usize>)
    ensures
        match r {
            Some(i) => is_first_sep(cs@, i as int),
            None => forall|i: int| !is_first_sep(cs@, i),
        },
{
    let mut i: usize = 0;
    while i < cs.len()
        invariant
            i <= cs@.len(),
            forall|j: int| 0 <= j < i && j + 1 < cs@.len() ==> !(#[trigger] cs@[j] == ':' && cs@[j + 1] == ' '),
        decreases cs.len() - i,
    {
        if i + 1 < cs.len() && cs[i] == ':' && cs[i + 1] == ' ' {
            return Some(i);
        }
        i = i + 1;
    }
    None
}

proof fn lemma_split_sep(s: Seq<char>, i: int)
    requires
        is_first_sep(s, i),
    ensures
        split_sep(s) == Some((s.subrange(0, i), s.subrange(i + 2, s.len() as int))),
{
    let k = choose|k: int| is_first_sep(s, k);
    if k < i {
        assert(s[k] == ':' && s[k + 1] == ' ');
    } else if k > i {
        assert(s[i] == ':' && s[i + 1] == ' ');
    }
}

impl DotdDependencyPath {
    /// The dependency path of the input spelled by `t`, which exists under
    /// `root` when it is relative.
    pub fn parse_chars(profile: &ProfileDir, t: &[char], root: InputRoot) -> (r: Option<DotdDependencyPath>)
        ensures
            match r {
                Some(d) => parse_dep(profile@, t@, root) == Some(d@),
                None => parse_dep(profile@, t@, root) is None,
            },
    {
        if t.len() > 0 && t[0] == '/' {
            match relative_to_chars(t, profile.root.as_str()) {
                Some(r) => Some(DotdDependencyPath::RelativeTargetProfile(string_from_chars(r.as_slice()))),
                None => match relative_to_chars(t, profile.cargo_home.as_str()) {
                    Some(r) => Some(DotdDependencyPath::RelativeCargoHome(string_from_chars(r.as_slice()))),
                    None => None,
                },
            }
        } else {
            match root {
                InputRoot::TargetProfile => Some(DotdDependencyPath::RelativeTargetProfile(string_from_chars(t))),
                InputRoot::CargoHome => Some(DotdDependencyPath::RelativeCargoHome(string_from_chars(t))),
                InputRoot::Neither => None,
            }
        }
    }

    /// The path that this names under the directories of `profile`.
    pub fn reconstruct(&self, profile: &ProfileDir) -> (r: String)
        ensures
            r@ == render_dep(profile@, self@),
    {
        let (dir, rel) = match self {
            DotdDependencyPath::RelativeTargetProfile(r) => (&profile.root, r),
            DotdDependencyPath::RelativeCargoHome(r) => (&profile.cargo_home, r),
        };
        let mut out = dir.clone();
        push_char(&mut out, '/');
        push_str(&mut out, rel.as_str());
        out
    }
}

impl DotdLine {
    /// Parse the line spelled by `line` of a `.d` file; `roots` says where
    /// each relative input exists.
    pub fn parse_chars(profile: &ProfileDir, line: &[char], roots: &[InputRoot]) -> (r: Result<
        DotdLine,
        DotdErrorKind,
    >)
        ensures
            match r {
                Ok(l) => parse_dotd_line(profile@, line@, roots@) == Ok::<DotdLineView, DotdErrorKind>(l@),
                Err(e) => parse_dotd_line(profile@, line@, roots@) == Err::<DotdLineView, DotdErrorKind>(e),
            },
    {
        if line.len() == 0 {
            return Ok(DotdLine::Space);
        }
        if line[0] == '#' {
            let c = slice_range(line, 1, line.len());
            assert(c@ =~= line@.drop_first());
            return Ok(DotdLine::Comment(string_from_chars(c.as_slice())));
        }
        if line[line.len() - 1] == ':' {
            let out = slice_range(line, 0, line.len() - 1);
            assert(out@ =~= line@.drop_last());
            return match relative_to_chars(out.as_slice(), profile.root.as_str()) {
                Some(o) => {
                    let none: Vec<DotdDependencyPath> = Vec::new();
                    assert(deps_view(none@) =~= Seq::<DepPathView>::empty());
                    Ok(DotdLine::Build(string_from_chars(o.as_slice()), none))
                },
                None => Err(DotdErrorKind::OutputOutsideProfile),
            };
        }
        let i = match find_sep(line) {
            None => {
                return Err(DotdErrorKind::NoSeparator);
            },
            Some(i) => i,
        };
        proof {
            lemma_split_sep(line@, i as int);
        }
        let output = slice_range(line, 0, i);
        let inputs = slice_range(line, i + 2, line.len());
        let o = match relative_to_chars(output.as_slice(), profile.root.as_str()) {
            None => {
                return Err(DotdErrorKind::OutputOutsideProfile);
            },
            Some(o) => o,
        };
        let words = split_whitespace_chars(inputs.as_slice());
        let ghost ws = split_whitespace(inputs@);
        assert(ws.take(0) =~= Seq::<Seq<char>>::empty());
        let mut deps: Vec<DotdDependencyPath> = Vec::new();
        assert(deps_view(deps@) =~= Seq::<DepPathView>::empty());
        assert(parse_deps(profile@, ws.take(0), roots@) == Ok::<Seq<DepPathView>, int>(seq![]));
        let ghost out_rel = o@;
        assert(split_sep(line@) == Some((output@, inputs@)));
        assert(line@.len() > 0 && line@[0] != '#' && line@.last() != ':');
        let mut k: usize = 0;
        while k < words.len()
            invariant
                ws == split_whitespace(inputs@),
                words@.len() == ws.len(),
                forall|m: int| 0 <= m < words@.len() ==> #[trigger] words@[m]@ == ws[m],
                k <= words@.len(),
                parse_deps(profile@, ws.take(k as int), roots@) == Ok::<Seq<DepPathView>, int>(deps_view(deps@)),
                split_sep(line@) == Some((output@, inputs@)),
                relative_to(output@, profile@.root) == Some(out_rel),
                line@.len() > 0 && line@[0] != '#' && line@.last() != ':',
            decreases words.len() - k,
        {
            proof {
                assert(ws.take(k + 1).drop_last() =~= ws.take(k as int));
                assert(ws.take(k + 1).last() == words@[k as int]@);
                assert(ws.take(k + 1).len() - 1 == k);
            }
            let root = if k < roots.len() {
                roots[k]
            } else {
                InputRoot::Neither
            };
            assert(root == root_at(roots@, k as int));
            match DotdDependencyPath::parse_chars(profile, words[k].as_slice(), root) {
                Some(d) => {
                    let ghost before = deps_view(deps@);
                    deps.push(d);
                    assert(deps_view(deps@) =~= before.push(d@));
                },
                None => {
                    proof {
                        lemma_parse_deps_err_stays(profile@, ws, roots@, k as int);
                        assert((k as int) as usize == k);
                    }
                    return Err(DotdErrorKind::UnknownInputRoot(k));
                },
            }
            k = k + 1;
        }
        assert(ws.take(words@.len() as int) =~= ws);
        let r = DotdLine::Build(string_from_chars(o.as_slice()), deps);
        assert(r@ == DotdLineView::Build(out_rel, deps_view(deps@)));
        Ok(r)
    }

    /// Reconstruct the line, with paths rebuilt under `profile`.
    pub fn reconstruct(&self, profile: &ProfileDir) -> (r: String)
        ensures
            r@ == render_dotd_line(profile@, self@),
    {
        match self {
            DotdLine::Space => String::new(),
            DotdLine::Comment(c) => {
                let mut out = String::new();
                push_char(&mut out, '#');
                push_str(&mut out, c.as_str());
                assert(out@ =~= seq!['#'] + c@);
                out
            },
            DotdLine::Build(o, ds) => {
                let mut out = profile.root.clone();
                push_char(&mut out, '/');
                push_str(&mut out, o.as_str());
                push_char(&mut out, ':');
                push_char(&mut out, ' ');
                let mut parts: Vec<String> = Vec::new();
                let mut k: usize = 0;
                while k < ds.len()
                    invariant
                        k <= ds@.len(),
                        parts@.len() == k,
                        forall|m: int| 0 <= m < k ==> #[trigger] parts@[m]@ == render_dep(profile@, ds@[m]@),
                    decreases ds.len() - k,
                {
                    parts.push(ds[k].reconstruct(profile));
                    k = k + 1;
                }
                let joined = crate::text::join_strings(parts.as_slice(), " ");
                push_str(&mut out, joined.as_str());
                proof {
                    reveal_strlit(" ");
                    assert(" "@ =~= seq![' ']);
                    assert(strings_view(parts@) =~= deps_view(ds@).map_values(
                        |d: DepPathView| render_dep(profile@, d),
                    ));
                    assert(out@ =~= render_dotd_line(profile@, self@));
                }
                out
            },
        }
    }
}

/// Once a prefix of the inputs fails to parse, the whole list fails at the
/// same input.
proof fn lemma_parse_deps_err_stays(profile: ProfileDirView, ws: Seq<Seq<char>>, roots: Seq<InputRoot>, k: int)
    requires
        0 <= k < ws.len(),
        parse_deps(profile, ws.take(k), roots) is Ok,
        parse_dep(profile, ws[k], root_at(roots, k)) is None,
    ensures
        parse_deps(profile, ws, roots) == Err::<Seq<DepPathView>, int>(k),
    decreases ws.len() - k,
{
    assert(ws.take(k + 1).drop_last() =~= ws.take(k));
    lemma_parse_deps_err_prefix(profile, ws, roots, k + 1, k);
}

/// A failure of a prefix of the inputs is the failure of every longer
/// prefix.
proof fn lemma_parse_deps_err_prefix(profile: ProfileDirView, ws: Seq<Seq<char>>, roots: Seq<InputRoot>, n: int, k: int)
    requires
        0 < n <= ws.len(),
        parse_deps(profile, ws.take(n), roots) == Err::<Seq<DepPathView>, int>(k),
    ensures
        parse_deps(profile, ws, roots) == Err::<Seq<DepPathView>, int>(k),
    decreases ws.len() - n,
{
    if n < ws.len() {
        assert(ws.take(n + 1).drop_last() =~= ws.take(n));
        lemma_parse_deps_err_prefix(profile, ws, roots, n + 1, k);
    } else {
        assert(ws.take(n) =~= ws);
    }
}

/// The words of each line of `content`, as a `.d` file splits them: for a
/// line with inputs, the inputs after its first `: `; none for other lines.
pub open spec fn line_inputs(line: Seq<char>) -> Seq<Seq<char>> {
    if line.len() == 0 || line[0] == '#' || line.last() == ':' {
        seq![]
    } else {
        match split_sep(line) {
            Some((_, inputs)) => split_whitespace(inputs),
            None => seq![],
        }
    }
}

impl Dotd {
    /// The inputs named on each line of a `.d` file, in order, for finding
    /// where each relative input exists before parsing.
    pub fn inputs(content: &str) -> (r: Vec<Vec<String>>)
        ensures
            r@.len() == lines(content@).len(),
            forall|i: int|
                0 <= i < r@.len() ==> #[trigger] strings_view(r@[i]@) == line_inputs(lines(content@)[i]),
    {
        let cs = chars_of(content);
        let ls = lines_of(cs.as_slice());
        let mut out: Vec<Vec<String>> = Vec::new();
        let mut i: usize = 0;
        while i < ls.len()
            invariant
                cs@ == content@,
                ls@.len() == lines(cs@).len(),
                forall|k: int| 0 <= k < ls@.len() ==> #[trigger] ls@[k]@ == lines(cs@)[k],
                i <= ls@.len(),
                out@.len() == i,
                forall|k: int| 0 <= k < i ==> #[trigger] strings_view(out@[k]@) == line_inputs(lines(cs@)[k]),
            decreases ls.len() - i,
        {
            let line = ls[i].as_slice();
            let mut words: Vec<String> = Vec::new();
            if line.len() > 0 && line[0] != '#' && line[line.len() - 1] != ':' {
                if let Some(k) = find_sep(line) {
                    proof {
                        lemma_split_sep(line@, k as int);
                    }
                    let inputs = slice_range(line, k + 2, line.len());
                    let ws = split_whitespace_chars(inputs.as_slice());
                    let mut m: usize = 0;
                    while m < ws.len()
                        invariant
                            m <= ws@.len(),
                            words@.len() == m,
                            forall|n: int| 0 <= n < m ==> #[trigger] words@[n]@ == ws@[n]@,
                        decreases ws.len() - m,
                    {
                        words.push(string_from_chars(ws[m].as_slice()));
                        m = m + 1;
                    }
                    assert(strings_view(words@) =~= split_whitespace(inputs@));
                }
            }
            assert(strings_view(words@) =~= line_inputs(lines(cs@)[i as int]));
            out.push(words);
            i = i + 1;
        }
        out
    }

    /// Parse a `.d` file, line by line, with paths taken relative to the
    /// directories of `profile`; `roots[i][k]` says where the `k`-th input of
    /// line `i` exists when it is a relative path. Fails at the first line
    /// that cannot be parsed.
    pub fn parse_content(profile: &ProfileDir, content: &str, roots: &[Vec<InputRoot>]) -> (r: Result<
        Dotd,
        DotdError,
    >)
        ensures
            r matches Ok(d) ==> d@ == dotd_of(profile@, content@, roots_view(roots@)),
            r is Err <==> !dotd_parses(profile@, content@, roots_view(roots@)),
            r matches Err(e) ==> {
                &&& e.line < lines(content@).len()
                &&& parse_dotd_line(profile@, lines(content@)[e.line as int], roots_of_line(roots_view(roots@), e.line as int))
                    == Err::<DotdLineView, DotdErrorKind>(e.kind)
                &&& forall|j: int| 0 <= j < e.line ==> #[trigger] parse_dotd_line(
                    profile@,
                    lines(content@)[j],
                    roots_of_line(roots_view(roots@), j),
                ) is Ok
            },
    {
        let ghost rv = roots_view(roots@);
        let cs = chars_of(content);
        let ls = lines_of(cs.as_slice());
        let empty: Vec<InputRoot> = Vec::new();
        let mut out: Vec<DotdLine> = Vec::new();
        let mut i: usize = 0;
        while i < ls.len()
            invariant
                cs@ == content@,
                rv == roots_view(roots@),
                empty@.len() == 0,
                ls@.len() == lines(cs@).len(),
                forall|k: int| 0 <= k < ls@.len() ==> #[trigger] ls@[k]@ == lines(cs@)[k],
                i <= ls@.len(),
                out@.len() == i,
                forall|k: int|
                    0 <= k < i ==> parse_dotd_line(profile@, lines(cs@)[k], roots_of_line(rv, k))
                        == Ok::<DotdLineView, DotdErrorKind>(#[trigger] out@[k]@),
            decreases ls.len() - i,
        {
            let rs: &[InputRoot] = if i < roots.len() {
                roots[i].as_slice()
            } else {
                empty.as_slice()
            };
            assert(rs@ == roots_of_line(rv, i as int));
            match DotdLine::parse_chars(profile, ls[i].as_slice(), rs) {
                Ok(l) => {
                    out.push(l);
                },
                Err(kind) => {
                    proof {
                        assert(ls@[i as int]@ == lines(cs@)[i as int]);
                        assert forall|j: int| 0 <= j < i implies #[trigger] parse_dotd_line(
                            profile@,
                            lines(content@)[j],
                            roots_of_line(rv, j),
                        ) is Ok by {
                            assert(parse_dotd_line(profile@, lines(cs@)[j], roots_of_line(rv, j))
                                == Ok::<DotdLineView, DotdErrorKind>(out@[j]@));
                        }
                        assert(!(parse_dotd_line(profile@, lines(content@)[i as int], roots_of_line(rv, i as int)) is Ok));
                    }
                    return Err(DotdError { line: i, kind });
                },
            }
            i = i + 1;
        }
        proof {
            assert forall|j: int| 0 <= j < lines(content@).len() implies #[trigger] parse_dotd_line(
                profile@,
                lines(content@)[j],
                roots_of_line(rv, j),
            ) is Ok by {
                assert(parse_dotd_line(profile@, lines(cs@)[j], roots_of_line(rv, j))
                    == Ok::<DotdLineView, DotdErrorKind>(out@[j]@));
            }
        }
        let d = Dotd(out);
        assert(d@ =~= dotd_of(profile@, content@, rv));
        Ok(d)
    }

    /// Reconstruct the file under the directories of `profile`: the lines
    /// joined with `\n`.
    pub fn reconstruct(&self, profile: &ProfileDir) -> (r: String)
        ensures
            r@ == render_dotd(profile@, self@),
    {
        let mut parts: Vec<String> = Vec::new();
        let mut i: usize = 0;
        while i < self.0.len()
            invariant
                i <= self.0@.len(),
                parts@.len() == i,
                forall|k: int| 0 <= k < i ==> #[trigger] parts@[k]@ == render_dotd_line(profile@, self.0@[k]@),
            decreases self.0.len() - i,
        {
            parts.push(self.0[i].reconstruct(profile));
            i = i + 1;
        }
        let r = crate::text::join_strings(parts.as_slice(), "\n");
        proof {
            reveal_strlit("\n");
            assert("\n"@ =~= seq!['\n']);
            assert(strings_view(parts@) =~= self@.map_values(|l: DotdLineView| render_dotd_line(profile@, l)));
        }
        r
    }
}

/// Whether `line` of a `.d` file is written the way [`DotdLine::reconstruct`]
/// writes it: empty, a comment, or an output and `: ` followed by absolute
/// input paths separated by single spaces.
pub open spec fn canonical_dotd_line(line: Seq<char>) -> bool {
    ||| line.len() == 0
    ||| line[0] == '#'
    ||| (line.last() != ':' && match split_sep(line) {
        Some((_, inputs)) => {
            &&& inputs == join(split_whitespace(inputs), seq![' '])
            &&& forall|k: int|
                0 <= k < split_whitespace(inputs).len() ==> (#[trigger] split_whitespace(inputs)[k]).len() > 0
                    && split_whitespace(inputs)[k][0] == '/'
        },
        None => true,
    })
}

/// The dependency paths parsed from a list of inputs are one per input, in
/// order.
proof fn lemma_parse_deps_ok(profile: ProfileDirView, ts: Seq<Seq<char>>, roots: Seq<InputRoot>)
    requires
        parse_deps(profile, ts, roots) is Ok,
    ensures
        ({
            let ds = parse_deps(profile, ts, roots)->Ok_0;
            &&& ds.len() == ts.len()
            &&& forall|k: int| 0 <= k < ts.len() ==> parse_dep(profile, ts[k], root_at(roots, k)) == Some(
                #[trigger] ds[k],
            )
        }),
    decreases ts.len(),
{
    if ts.len() > 0 {
        lemma_parse_deps_ok(profile, ts.drop_last(), roots);
        let ds = parse_deps(profile, ts, roots)->Ok_0;
        let init = parse_deps(profile, ts.drop_last(), roots)->Ok_0;
        assert forall|k: int| 0 <= k < ts.len() implies parse_dep(profile, ts[k], root_at(roots, k)) == Some(
            #[trigger] ds[k],
        ) by {
            if k < ts.len() - 1 {
                assert(ds[k] == init[k]);
                assert(ts.drop_last()[k] == ts[k]);
            }
        }
    }
}

/// An absolute input under one of the directories is rebuilt as written.
proof fn lemma_dep_roundtrip(profile: ProfileDirView, t: Seq<char>, root: InputRoot)
    requires
        t.len() > 0,
        t[0] == '/',
        parse_dep(profile, t, root) is Some,
    ensures
        render_dep(profile, parse_dep(profile, t, root)->0) == t,
{
    let rp = dir_prefix(profile.root);
    let cp = dir_prefix(profile.cargo_home);
    if has_prefix(t, rp) {
        assert(rp + t.subrange(rp.len() as int, t.len() as int) =~= t);
    } else if has_prefix(t, cp) {
        assert(cp + t.subrange(cp.len() as int, t.len() as int) =~= t);
    }
}

/// Parsing a line of a `.d` file and reconstructing it under the same
/// directories gives the line back, when the line is written the way
/// reconstructing writes it.
pub proof fn lemma_dotd_line_roundtrip(profile: ProfileDirView, line: Seq<char>, roots: Seq<InputRoot>)
    requires
        parse_dotd_line(profile, line, roots) is Ok,
        canonical_dotd_line(line),
    ensures
        render_dotd_line(profile, parse_dotd_line(profile, line, roots)->Ok_0) == line,
{
    if line.len() == 0 {
        assert(line =~= seq![]);
    } else if line[0] == '#' {
        assert(seq!['#'] + line.drop_first() =~= line);
    } else {
        assert(line.last() != ':');
        assert(split_sep(line) is Some);
        let i = choose|i: int| is_first_sep(line, i);
        lemma_split_sep(line, i);
        let output = line.subrange(0, i);
        let inputs = line.subrange(i + 2, line.len() as int);
        let ws = split_whitespace(inputs);
        let rp = dir_prefix(profile.root);
        let o = relative_to(output, profile.root)->0;
        assert(rp + o =~= output);
        assert(relative_to(output, profile.root) is Some);
        assert(parse_deps(profile, ws, roots) is Ok);
        lemma_parse_deps_ok(profile, ws, roots);
        let ds = parse_deps(profile, ws, roots)->Ok_0;
        let rendered = ds.map_values(|d: DepPathView| render_dep(profile, d));
        assert forall|k: int| 0 <= k < ws.len() implies #[trigger] rendered[k] == ws[k] by {
            assert(parse_dep(profile, ws[k], root_at(roots, k)) == Some(ds[k]));
            lemma_dep_roundtrip(profile, ws[k], root_at(roots, k));
        }
        assert(rendered =~= ws);
        assert(output + seq![':', ' '] + inputs =~= line);
    }
}

/// Parsing a `.d` file and reconstructing it under the same directories
/// gives the content back, without a final line ending, when the content
/// holds no `\r` and every line is written the way reconstructing writes it.
pub proof fn lemma_dotd_roundtrip(profile: ProfileDirView, content: Seq<char>, roots: Seq<Seq<InputRoot>>)
    requires
        no_cr(content),
        dotd_parses(profile, content, roots),
        forall|i: int| 0 <= i < lines(content).len() ==> canonical_dotd_line(#[trigger] lines(content)[i]),
    ensures
        render_dotd(profile, dotd_of(profile, content, roots)) == without_final_newline(content),
{
    let ls = lines(content);
    let rendered = dotd_of(profile, content, roots).map_values(|l: DotdLineView| render_dotd_line(profile, l));
    assert forall|i: int| 0 <= i < ls.len() implies #[trigger] rendered[i] == ls[i] by {
        assert(parse_dotd_line(profile, ls[i], roots_of_line(roots, i)) is Ok);
        lemma_dotd_line_roundtrip(profile, ls[i], roots_of_line(roots, i));
    }
    assert(rendered =~= ls);
    lemma_lines_join(content);
}

} // verus!
