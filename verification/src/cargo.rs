//! Cargo-specific logic: build arguments, build plans, build script outputs,
//! dependencies, profiles and the arguments of a Cargo invocation.
pub mod build_args;
pub mod build_plan;
pub mod build_script;
pub mod cache;
pub mod dependency;
pub mod metadata;
pub mod profile;
pub mod qualified_path;
pub mod rustc;
pub mod unit_graph;
pub mod workspace;

use vstd::prelude::*;
use vstd::string::StrSliceExecFns;

use crate::text::{chars_of, find_char, split_once, trim, trim_bounds};

verus! {

broadcast use vstd::string::group_string_axioms;

/// The value given to `flag` in one argument written `<flag>=<value>`.
pub open spec fn inline_value(arg: Seq<char>, flag: Seq<char>) -> Option<Seq<char>> {
    match split_once(arg, '=') {
        Some((k, v)) => if k == flag {
            Some(v)
        } else {
            None
        },
        None => None,
    }
}

/// The value of `flag` in `argv`, whose arguments are each trimmed of white
/// space: the first argument that is the flag itself and has an argument
/// after it gives that argument; the first argument written
/// `<flag>=<value>` gives its value; whichever of these comes first decides.
pub open spec fn argv_value(argv: Seq<Seq<char>>, flag: Seq<char>) -> Option<Seq<char>>
    decreases argv.len(),
{
    if argv.len() == 0 {
        None
    } else if trim(argv[0]) == flag && argv.len() >= 2 {
        Some(trim(argv[1]))
    } else if inline_value(trim(argv[0]), flag) is Some {
        inline_value(trim(argv[0]), flag)
    } else {
        argv_value(argv.drop_first(), flag)
    }
}

/// The views of the strings of `argv`.
pub open spec fn argv_view(argv: Seq<String>) -> Seq<Seq<char>> {
    argv.map_values(|s: String| s@)
}

/// The trimmed text of `s` and, when it is `<flag>=<value>`, the value, as
/// parts of `s`.
fn inline_value_exec<'a>(s: &'a str, flag: &str) -> (r: (bool, Option<&'a str>))
    ensures
        r.0 == (trim(s@) == flag@),
        match r.1 {
            Some(v) => inline_value(trim(s@), flag@) == Some(v@),
            None => inline_value(trim(s@), flag@) is None,
        },
{
    let cs = chars_of(s);
    let (lo, hi) = trim_bounds(cs.as_slice());
    let ghost t = cs@.subrange(lo as int, hi as int);
    let fs = chars_of(flag);
    let mut same = hi - lo == fs.len();
    let mut i: usize = 0;
    while same && i < fs.len()
        invariant
            lo <= hi <= cs@.len(),
            t == cs@.subrange(lo as int, hi as int),
            same ==> hi - lo == fs@.len(),
            i <= fs@.len(),
            same ==> forall|j: int| 0 <= j < i ==> t[j] == fs@[j],
            !same ==> t != fs@,
        decreases fs.len() - i,
    {
        if cs[lo + i] != fs[i] {
            assert(t[i as int] != fs@[i as int]);
            same = false;
        }
        i = i + 1;
    }
    assert(same ==> t =~= fs@);
    let tv = crate::text::slice_range(cs.as_slice(), lo, hi);
    let value = match find_char(tv.as_slice(), '=') {
        Some(e) => {
            if t_matches(tv.as_slice(), 0, e, fs.as_slice()) {
                proof {
                    assert(t.subrange(e + 1, t.len() as int) =~= cs@.subrange(lo + e + 1, hi as int));
                }
                Some(s.substring_char(lo + e + 1, hi))
            } else {
                None
            }
        },
        None => None,
    };
    (same, value)
}

/// Whether `cs[lo..hi]` spells `fs`.
fn t_matches(cs: &[char], lo: usize, hi: usize, fs: &[char]) -> (r: bool)
    requires
        lo <= hi <= cs@.len(),
    ensures
        r == (cs@.subrange(lo as int, hi as int) == fs@),
{
    if hi - lo != fs.len() {
        return false;
    }
    let mut i: usize = 0;
    while i < fs.len()
        invariant
            lo <= hi <= cs@.len(),
            hi - lo == fs@.len(),
            i <= fs@.len(),
            forall|j: int| 0 <= j < i ==> cs@[lo + j] == fs@[j],
        decreases fs.len() - i,
    {
        if cs[lo + i] != fs[i] {
            assert(cs@.subrange(lo as int, hi as int)[i as int] != fs@[i as int]);
            return false;
        }
        i = i + 1;
    }
    assert(cs@.subrange(lo as int, hi as int) =~= fs@);
    true
}

/// The trimmed text of `s`, as a part of `s`.
fn trimmed<'a>(s: &'a str) -> (r: &'a str)
    ensures
        r@ == trim(s@),
{
    let cs = chars_of(s);
    let (lo, hi) = trim_bounds(cs.as_slice());
    s.substring_char(lo, hi)
}

/// Parse the value of an argument flag from `argv`.
///
/// Handles cases like:
/// - `--flag value`
/// - `--flag=value`
///
/// The arguments are examined in order, each trimmed of white space; the
/// first one that is the flag followed by a value, or that is written
/// `--flag=value`, decides. The flag must be a long flag, beginning with `--`.
pub fn read_argv<'a>(argv: &'a [String], flag: &str) -> (r: Option<&'a str>)
    requires
        flag@.len() >= 2,
        flag@[0] == '-',
        flag@[1] == '-',
    ensures
        argv_value(argv_view(argv@), flag@) == match r {
            Some(v) => Some(v@),
            None => None,
        },
{
    let ghost av = argv_view(argv@);
    assert(av.skip(0) =~= av);
    let mut i: usize = 0;
    while i < argv.len()
        invariant
            av == argv_view(argv@),
            i <= argv@.len(),
            argv_value(av, flag@) == argv_value(av.skip(i as int), flag@),
        decreases argv.len() - i,
    {
        let a: &'a str = argv[i].as_str();
        let ghost w = av.skip(i as int);
        proof {
            assert(w[0] == a@);
            assert(w.drop_first() =~= av.skip(i + 1));
        }
        let (a_is_flag, a_value) = inline_value_exec(a, flag);
        if a_is_flag && i + 1 < argv.len() {
            let b: &'a str = argv[i + 1].as_str();
            proof {
                assert(w[1] == b@);
            }
            return Some(trimmed(b));
        }
        if let Some(v) = a_value {
            return Some(v);
        }
        i = i + 1;
    }
    proof {
        assert(av.skip(i as int).len() == 0);
    }
    None
}

} // verus!
