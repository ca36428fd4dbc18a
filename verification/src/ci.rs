//! CI environment detection.
//!
//! Detection is based on standard environment variables set by CI
//! providers: `CI=true`, set by GitHub Actions, GitLab CI, CircleCI and many
//! others, and provider-specific variables. The values are read by the
//! caller; this module decides.
use vstd::prelude::*;

use crate::text::chars_eq_str;
use crate::text::chars_of;

verus! {

broadcast use vstd::string::group_string_axioms;

/// The values of the environment variables that reveal a CI environment
/// (`None` for a variable that is not set or not Unicode).
#[derive(Clone, Debug)]
pub struct CiEnv {
    /// `CI`
    pub ci: Option<String>,
    /// `GITHUB_ACTIONS`
    pub github_actions: Option<String>,
    /// `GITLAB_CI`
    pub gitlab_ci: Option<String>,
    /// `CIRCLECI`
    pub circleci: Option<String>,
    /// `JENKINS_URL`
    pub jenkins_url: Option<String>,
    /// `TRAVIS`
    pub travis: Option<String>,
    /// `BUILDKITE`
    pub buildkite: Option<String>,
}

/// Whether a variable is set to `true`.
pub open spec fn is_true(v: Option<String>) -> bool {
    v matches Some(s) && s@ == "true"@
}

/// Whether the environment is a CI environment: one of `CI`,
/// `GITHUB_ACTIONS`, `GITLAB_CI`, `CIRCLECI`, `TRAVIS` or `BUILDKITE` is
/// `true`, or `JENKINS_URL` is set.
pub open spec fn ci_detected(env: CiEnv) -> bool {
    ||| is_true(env.ci)
    ||| is_true(env.github_actions)
    ||| is_true(env.gitlab_ci)
    ||| is_true(env.circleci)
    ||| env.jenkins_url is Some
    ||| is_true(env.travis)
    ||| is_true(env.buildkite)
}

fn is_true_exec(v: &Option<String>) -> (r: bool)
    ensures
        r == is_true(*v),
{
    match v {
        Some(s) => {
            let cs = chars_of(s.as_str());
            chars_eq_str(cs.as_slice(), "true")
        },
        None => false,
    }
}

/// Detects if the environment `env` is a CI environment.
pub fn is_ci(env: &CiEnv) -> (r: bool)
    ensures
        r == ci_detected(*env),
{
    if is_true_exec(&env.ci) {
        return true;
    }
    if is_true_exec(&env.github_actions) {
        return true;
    }
    if is_true_exec(&env.gitlab_ci) {
        return true;
    }
    if is_true_exec(&env.circleci) {
        return true;
    }
    if env.jenkins_url.is_some() {
        return true;
    }
    if is_true_exec(&env.travis) {
        return true;
    }
    if is_true_exec(&env.buildkite) {
        return true;
    }
    false
}

} // verus!
