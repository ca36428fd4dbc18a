//! Workspace extensions for cross-compilation support.
//!
//! `cross` runs the build inside a container where the target directory is
//! mounted at `/target`; the paths that a build plan reports there are
//! translated back to paths on the host.
use vstd::prelude::*;

use crate::cargo::build_plan::{BuildPlan, BuildPlanInvocation};
use crate::cargo::workspace::Workspace;
use crate::text::{chars_eq_str, chars_of, has_prefix, push_str, string_from_range};

verus! {

broadcast use vstd::string::group_string_axioms;

/// Whether the container path `p` lies in the target mount: it is `/target`
/// itself or a path under `/target/`.
pub open spec fn in_target_mount(p: Seq<char>) -> bool {
    &&& has_prefix(p, "/target"@)
    &&& (p.len() == 7 || p[7] == '/')
}

/// The host path of the container path `p`, for a host target directory
/// `target`: `/target` and paths under `/target/` have that mount replaced by
/// the target directory; any other path is kept.
pub open spec fn host_path(p: Seq<char>, target: Seq<char>) -> Seq<char> {
    if in_target_mount(p) {
        target + p.subrange(7, p.len() as int)
    } else {
        p
    }
}

/// Convert a container path to a host filesystem path.
///
/// Cross mounts the target directory at `/target` inside the container; that
/// directory and the paths under it are converted to the workspace's target
/// directory on the host. Other absolute paths (`/target-other/x` among them)
/// and relative paths are kept.
pub fn convert_container_path_to_host(path: &str, workspace: &Workspace) -> (r: String)
    ensures
        r@ == host_path(path@, workspace.target@),
{
    let cs = chars_of(path);
    let prefix = chars_of("/target");
    proof {
        reveal_strlit("/target");
    }
    if crate::text::starts_with_chars(cs.as_slice(), prefix.as_slice()) && (cs.len() == 7
        || cs[7] == '/') {
        let mut r = workspace.target.as_str().to_owned();
        let rest = string_from_range(cs.as_slice(), 7, cs.len());
        push_str(&mut r, rest.as_str());
        r
    } else {
        path.to_owned()
    }
}

/// The views of a list of strings.
pub open spec fn texts(v: Seq<String>) -> Seq<Seq<char>> {
    v.map_values(|s: String| s@)
}

/// The views of a list of pairs of strings.
pub open spec fn pairs(v: Seq<(String, String)>) -> Seq<(Seq<char>, Seq<char>)> {
    v.map_values(|p: (String, String)| (p.0@, p.1@))
}

/// `new` is `old` with its paths converted to host paths: the outputs, the
/// artifacts that links point to, the program, and the value of `OUT_DIR`;
/// everything else is unchanged.
pub open spec fn invocation_converted(
    old: BuildPlanInvocation,
    new: BuildPlanInvocation,
    target: Seq<char>,
) -> bool {
    &&& texts(new.outputs@) == texts(old.outputs@).map_values(|p: Seq<char>| host_path(p, target))
    &&& pairs(new.links@) == pairs(old.links@).map_values(
        |l: (Seq<char>, Seq<char>)| (host_path(l.0, target), l.1),
    )
    &&& new.program@ == host_path(old.program@, target)
    &&& pairs(new.env@) == pairs(old.env@).map_values(
        |e: (Seq<char>, Seq<char>)|
            if e.0 == "OUT_DIR"@ {
                (e.0, host_path(e.1, target))
            } else {
                e
            },
    )
    &&& new.package_name@ == old.package_name@
    &&& new.package_version@ == old.package_version@
    &&& texts(new.target_kind@) == texts(old.target_kind@)
    &&& crate::cargo::build_args::opt_view(new.kind) == crate::cargo::build_args::opt_view(old.kind)
    &&& new.compile_mode == old.compile_mode
    &&& new.deps@ == old.deps@
    &&& texts(new.args@) == texts(old.args@)
    &&& new.cwd@ == old.cwd@
}

fn convert_all(v: &Vec<String>, ws: &Workspace) -> (r: Vec<String>)
    ensures
        texts(r@) == texts(v@).map_values(|p: Seq<char>| host_path(p, ws.target@)),
{
    let mut r: Vec<String> = Vec::new();
    let mut i: usize = 0;
    while i < v.len()
        invariant
            i <= v@.len(),
            r@.len() == i,
            forall|j: int| 0 <= j < i ==> #[trigger] r@[j]@ == host_path(v@[j]@, ws.target@),
        decreases v.len() - i,
    {
        r.push(convert_container_path_to_host(v[i].as_str(), ws));
        i = i + 1;
    }
    assert(texts(r@) =~= texts(v@).map_values(|p: Seq<char>| host_path(p, ws.target@)));
    r
}

fn copy_indices(v: &Vec<usize>) -> (r: Vec<usize>)
    ensures
        r@ == v@,
{
    let mut r: Vec<usize> = Vec::new();
    let mut i: usize = 0;
    while i < v.len()
        invariant
            i <= v@.len(),
            r@ == v@.subrange(0, i as int),
        decreases v.len() - i,
    {
        r.push(v[i]);
        i = i + 1;
        assert(r@ =~= v@.subrange(0, i as int));
    }
    assert(v@.subrange(0, v@.len() as int) =~= v@);
    r
}

fn clone_strings(v: &Vec<String>) -> (r: Vec<String>)
    ensures
        texts(r@) == texts(v@),
{
    let mut r: Vec<String> = Vec::new();
    let mut i: usize = 0;
    while i < v.len()
        invariant
            i <= v@.len(),
            r@.len() == i,
            forall|j: int| 0 <= j < i ==> #[trigger] r@[j]@ == v@[j]@,
        decreases v.len() - i,
    {
        r.push(v[i].as_str().to_owned());
        i = i + 1;
    }
    assert(texts(r@) =~= texts(v@));
    r
}

fn convert_invocation(inv: &BuildPlanInvocation, ws: &Workspace) -> (r: BuildPlanInvocation)
    ensures
        invocation_converted(*inv, r, ws.target@),
{
    let outputs = convert_all(&inv.outputs, ws);
    let mut links: Vec<(String, String)> = Vec::new();
    let mut i: usize = 0;
    while i < inv.links.len()
        invariant
            i <= inv.links@.len(),
            links@.len() == i,
            forall|j: int|
                0 <= j < i ==> (#[trigger] links@[j]).0@ == host_path(inv.links@[j].0@, ws.target@)
                    && links@[j].1@ == inv.links@[j].1@,
        decreases inv.links.len() - i,
    {
        let (target, link) = &inv.links[i];
        links.push((convert_container_path_to_host(target.as_str(), ws), link.as_str().to_owned()));
        i = i + 1;
    }
    let mut env: Vec<(String, String)> = Vec::new();
    let mut k: usize = 0;
    proof {
        reveal_strlit("OUT_DIR");
    }
    while k < inv.env.len()
        invariant
            k <= inv.env@.len(),
            env@.len() == k,
            forall|j: int|
                0 <= j < k ==> (#[trigger] env@[j]).0@ == inv.env@[j].0@ && env@[j].1@ == (if inv.env@[
                    j
                ].0@ == "OUT_DIR"@ {
                    host_path(inv.env@[j].1@, ws.target@)
                } else {
                    inv.env@[j].1@
                }),
        decreases inv.env.len() - k,
    {
        let (key, value) = &inv.env[k];
        let kc = chars_of(key.as_str());
        let v = if chars_eq_str(kc.as_slice(), "OUT_DIR") {
            convert_container_path_to_host(value.as_str(), ws)
        } else {
            value.as_str().to_owned()
        };
        env.push((key.as_str().to_owned(), v));
        k = k + 1;
    }
    let r = BuildPlanInvocation {
        package_name: inv.package_name.as_str().to_owned(),
        package_version: inv.package_version.as_str().to_owned(),
        target_kind: clone_strings(&inv.target_kind),
        kind: match &inv.kind {
            Some(k) => Some(k.as_str().to_owned()),
            None => None,
        },
        compile_mode: inv.compile_mode,
        deps: copy_indices(&inv.deps),
        outputs,
        links,
        program: convert_container_path_to_host(inv.program.as_str(), ws),
        args: clone_strings(&inv.args),
        env,
        cwd: inv.cwd.as_str().to_owned(),
    };
    proof {
        assert(pairs(r.links@) =~= pairs(inv.links@).map_values(
            |l: (Seq<char>, Seq<char>)| (host_path(l.0, ws.target@), l.1),
        ));
        assert(pairs(r.env@) =~= pairs(inv.env@).map_values(
            |e: (Seq<char>, Seq<char>)|
                if e.0 == "OUT_DIR"@ {
                    (e.0, host_path(e.1, ws.target@))
                } else {
                    e
                },
        ));
    }
    r
}

/// Convert all container paths in a build plan to host paths.
///
/// This converts, in each invocation, the output file paths, the link
/// target paths, the program path and the `OUT_DIR` environment value; the
/// plan's inputs and everything else are kept.
pub fn convert_build_plan_paths(build_plan: &mut BuildPlan, workspace: &Workspace)
    ensures
        final(build_plan).invocations@.len() == old(build_plan).invocations@.len(),
        forall|i: int|
            0 <= i < old(build_plan).invocations@.len() ==> invocation_converted(
                #[trigger] old(build_plan).invocations@[i],
                final(build_plan).invocations@[i],
                workspace.target@,
            ),
        texts(final(build_plan).inputs@) == texts(old(build_plan).inputs@),
{
    let mut invocations: Vec<BuildPlanInvocation> = Vec::new();
    let mut i: usize = 0;
    while i < build_plan.invocations.len()
        invariant
            build_plan.invocations@ == old(build_plan).invocations@,
            build_plan.inputs@ == old(build_plan).inputs@,
            i <= build_plan.invocations@.len(),
            invocations@.len() == i,
            forall|j: int|
                0 <= j < i ==> invocation_converted(
                    #[trigger] build_plan.invocations@[j],
                    invocations@[j],
                    workspace.target@,
                ),
        decreases build_plan.invocations.len() - i,
    {
        let c = convert_invocation(&build_plan.invocations[i], workspace);
        invocations.push(c);
        i = i + 1;
    }
    build_plan.invocations = invocations;
}

/// The names of a list of environment variables.
pub open spec fn env_names(env: Seq<(Seq<char>, Seq<char>)>) -> Seq<Seq<char>> {
    env.map_values(|e: (Seq<char>, Seq<char>)| e.0)
}

/// Converting an invocation's paths keeps the names of its environment
/// variables in order, so a name that occurs once still occurs once.
pub proof fn lemma_env_names_kept(old: BuildPlanInvocation, new: BuildPlanInvocation, target: Seq<char>)
    requires
        invocation_converted(old, new, target),
    ensures
        env_names(pairs(new.env@)) == env_names(pairs(old.env@)),
        env_names(pairs(old.env@)).no_duplicates() ==> env_names(pairs(new.env@)).no_duplicates(),
{
    let o = pairs(old.env@);
    let n = pairs(new.env@);
    assert(n.len() == o.len());
    assert forall|i: int| 0 <= i < n.len() implies #[trigger] env_names(n)[i] == env_names(o)[i] by {
        assert(n[i] == (if o[i].0 == "OUT_DIR"@ {
            (o[i].0, host_path(o[i].1, target))
        } else {
            o[i]
        }));
    }
    assert(env_names(n) =~= env_names(o));
}

} // verus!
