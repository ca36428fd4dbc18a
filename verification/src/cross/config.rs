//! The `Cross.toml` settings needed to pass `RUSTC_BOOTSTRAP` through to the
//! `cross` container.
//!
//! Three situations are handled: without a `Cross.toml`, a temporary one is
//! created and removed afterwards; with one that lacks the passthrough, it is
//! backed up, modified, and restored afterwards; with one that already has
//! it, nothing is touched. The functions here make those decisions and build
//! the settings; reading and writing the files is left to the caller.
use vstd::prelude::*;

use crate::path::{path_join, AbsDirPath, JoinWith, RelFilePath, TypedPath};
use crate::text::chars_eq_str;
use crate::text::chars_of;

verus! {

broadcast use vstd::string::group_string_axioms;

/// The `[build.env]` table of a `Cross.toml`.
#[derive(Clone, Debug)]
pub struct EnvConfig {
    pub passthrough: Option<Vec<String>>,
}

/// The `[build]` table of a `Cross.toml`.
#[derive(Clone, Debug)]
pub struct BuildConfig {
    pub env: Option<EnvConfig>,
}

/// The part of a `Cross.toml` that is read and written here.
#[derive(Clone, Debug)]
pub struct CrossConfig {
    pub build: Option<BuildConfig>,
}

/// The name of the environment variable that must be passed through.
pub open spec fn bootstrap_var() -> Seq<char> {
    "RUSTC_BOOTSTRAP"@
}

/// The passthrough list of a configuration, if it has one.
pub open spec fn passthrough_of(c: CrossConfig) -> Option<Seq<Seq<char>>> {
    match c.build {
        Some(b) => match b.env {
            Some(e) => match e.passthrough {
                Some(p) => Some(p@.map_values(|s: String| s@)),
                None => None,
            },
            None => None,
        },
        None => None,
    }
}

/// The variables that a configuration passes through (none without a list).
pub open spec fn passed_through(c: CrossConfig) -> Seq<Seq<char>> {
    match passthrough_of(c) {
        Some(p) => p,
        None => seq![],
    }
}

/// What setting up the configuration does.
#[derive(Copy, Clone, PartialEq, Eq, Debug)]
pub enum SetupAction {
    /// No `Cross.toml` exists: write a temporary one.
    CreateTemporary,
    /// The existing `Cross.toml` already passes `RUSTC_BOOTSTRAP` through.
    KeepExisting,
    /// Back the existing `Cross.toml` up and add the passthrough to it.
    BackupAndModify,
}

/// What cleaning up after a build does.
#[derive(Clone, PartialEq, Eq, Debug)]
pub enum CleanupAction {
    /// Nothing was changed.
    Nothing,
    /// Remove the temporary configuration at this path.
    RemoveConfig(String),
    /// Move the backup (first) back over the configuration (second).
    RestoreBackup(String, String),
}

/// The model of a [`CleanupAction`].
pub enum CleanupActionView {
    Nothing,
    RemoveConfig(Seq<char>),
    RestoreBackup(Seq<char>, Seq<char>),
}

impl View for CleanupAction {
    type V = CleanupActionView;

    open spec fn view(&self) -> CleanupActionView {
        match self {
            CleanupAction::Nothing => CleanupActionView::Nothing,
            CleanupAction::RemoveConfig(p) => CleanupActionView::RemoveConfig(p@),
            CleanupAction::RestoreBackup(b, c) => CleanupActionView::RestoreBackup(b@, c@),
        }
    }
}

/// The setup action for a workspace whose `Cross.toml` is `config` (`None`
/// when there is none).
pub open spec fn setup_action_of(config: Option<CrossConfig>) -> SetupAction {
    match config {
        None => SetupAction::CreateTemporary,
        Some(c) => if passed_through(c).contains(bootstrap_var()) {
            SetupAction::KeepExisting
        } else {
            SetupAction::BackupAndModify
        },
    }
}

/// Guard for the `Cross.toml` configuration of a build: it records what
/// setting up changed so that cleaning up can undo it.
#[derive(Clone, Debug)]
pub struct CrossConfigGuard {
    /// Path to the Cross.toml file.
    pub config_path: String,
    /// Backup path if an existing file was modified.
    pub backup_path: Option<String>,
    /// Whether the file was created (vs. modified existing).
    pub created: bool,
}

/// What cleaning up after `guard` does: remove a configuration that was
/// created, restore one that was modified from its backup, else nothing.
pub open spec fn cleanup_of(guard: CrossConfigGuard) -> CleanupActionView {
    if guard.created {
        CleanupActionView::RemoveConfig(guard.config_path@)
    } else {
        match guard.backup_path {
            Some(b) => CleanupActionView::RestoreBackup(b@, guard.config_path@),
            None => CleanupActionView::Nothing,
        }
    }
}

/// The path of `Cross.toml` in the workspace root `root`.
pub open spec fn config_path_of(root: Seq<char>) -> Seq<char> {
    path_join(root, "Cross.toml"@)
}

/// The path of the backup of `Cross.toml` in the workspace root `root`.
pub open spec fn backup_path_of(root: Seq<char>) -> Seq<char> {
    path_join(root, "Cross.toml.hurry-backup"@)
}

fn join_file(root: &AbsDirPath, name: &str) -> (r: String)
    ensures
        r@ == path_join(root@, name@),
{
    let rel: RelFilePath = TypedPath::new(name.to_owned());
    let p = root.join(&rel);
    p.as_str().to_owned()
}

impl CrossConfigGuard {
    /// Whether the configuration already passes `RUSTC_BOOTSTRAP` through.
    pub fn has_rustc_bootstrap_passthrough(config: &CrossConfig) -> (r: bool)
        ensures
            r == passed_through(*config).contains(bootstrap_var()),
    {
        let list = match &config.build {
            Some(b) => match &b.env {
                Some(e) => match &e.passthrough {
                    Some(p) => p,
                    None => {
                        return false;
                    },
                },
                None => {
                    return false;
                },
            },
            None => {
                return false;
            },
        };
        let ghost v = list@.map_values(|s: String| s@);
        let mut i: usize = 0;
        while i < list.len()
            invariant
                v == list@.map_values(|s: String| s@),
                v == passed_through(*config),
                i <= list@.len(),
                forall|j: int| 0 <= j < i ==> v[j] != bootstrap_var(),
            decreases list.len() - i,
        {
            let cs = chars_of(list[i].as_str());
            if chars_eq_str(cs.as_slice(), "RUSTC_BOOTSTRAP") {
                assert(v[i as int] == bootstrap_var());
                return true;
            }
            i = i + 1;
        }
        false
    }

    /// The setup action for a workspace whose `Cross.toml` is `config`
    /// (`None` when there is none).
    pub fn setup_action(config: Option<&CrossConfig>) -> (r: SetupAction)
        ensures
            r == setup_action_of(
                match config {
                    Some(c) => Some(*c),
                    None => None,
                },
            ),
    {
        match config {
            None => SetupAction::CreateTemporary,
            Some(c) => if CrossConfigGuard::has_rustc_bootstrap_passthrough(c) {
                SetupAction::KeepExisting
            } else {
                SetupAction::BackupAndModify
            },
        }
    }

    /// The configuration written when no `Cross.toml` exists: it only passes
    /// `RUSTC_BOOTSTRAP` through.
    pub fn temporary_config() -> (r: CrossConfig)
        ensures
            passthrough_of(r) == Some(seq![bootstrap_var()]),
    {
        let mut list: Vec<String> = Vec::new();
        list.push("RUSTC_BOOTSTRAP".to_owned());
        let r = CrossConfig {
            build: Some(BuildConfig { env: Some(EnvConfig { passthrough: Some(list) }) }),
        };
        proof {
            assert(list@.map_values(|s: String| s@) =~= seq![bootstrap_var()]);
        }
        r
    }

    /// The configuration with `RUSTC_BOOTSTRAP` added to its passthrough
    /// list: the tables and the list are created where missing, the variable
    /// is appended when it is not yet listed, and nothing else changes.
    pub fn add_rustc_bootstrap(config: CrossConfig) -> (r: CrossConfig)
        ensures
            passthrough_of(r) == Some(
                if passed_through(config).contains(bootstrap_var()) {
                    passed_through(config)
                } else {
                    passed_through(config).push(bootstrap_var())
                },
            ),
    {
        let present = CrossConfigGuard::has_rustc_bootstrap_passthrough(&config);
        let mut list: Vec<String> = match config.build {
            Some(b) => match b.env {
                Some(e) => match e.passthrough {
                    Some(p) => p,
                    None => Vec::new(),
                },
                None => Vec::new(),
            },
            None => Vec::new(),
        };
        let ghost before = list@;
        proof {
            assert(before.map_values(|s: String| s@) =~= passed_through(config));
        }
        if !present {
            list.push("RUSTC_BOOTSTRAP".to_owned());
            proof {
                assert(list@.map_values(|s: String| s@) =~= before.map_values(|s: String| s@).push(
                    bootstrap_var(),
                ));
            }
        }
        CrossConfig {
            build: Some(BuildConfig { env: Some(EnvConfig { passthrough: Some(list) }) }),
        }
    }

    /// The guard for a workspace rooted at `root` after the setup `action`.
    pub fn after_setup(root: &AbsDirPath, action: SetupAction) -> (r: CrossConfigGuard)
        ensures
            r.config_path@ == config_path_of(root@),
            r.created == (action == SetupAction::CreateTemporary),
            match r.backup_path {
                Some(b) => action == SetupAction::BackupAndModify && b@ == backup_path_of(root@),
                None => action != SetupAction::BackupAndModify,
            },
    {
        let config_path = join_file(root, "Cross.toml");
        match action {
            SetupAction::CreateTemporary => CrossConfigGuard {
                config_path,
                backup_path: None,
                created: true,
            },
            SetupAction::KeepExisting => CrossConfigGuard {
                config_path,
                backup_path: None,
                created: false,
            },
            SetupAction::BackupAndModify => CrossConfigGuard {
                config_path,
                backup_path: Some(join_file(root, "Cross.toml.hurry-backup")),
                created: false,
            },
        }
    }

    /// What cleaning up does: remove a configuration that was created,
    /// restore one that was modified from its backup, and otherwise nothing.
    pub fn cleanup_action(&self) -> (r: CleanupAction)
        ensures
            r@ == cleanup_of(*self),
    {
        if self.created {
            CleanupAction::RemoveConfig(self.config_path.as_str().to_owned())
        } else {
            match &self.backup_path {
                Some(b) => CleanupAction::RestoreBackup(
                    b.as_str().to_owned(),
                    self.config_path.as_str().to_owned(),
                ),
                None => CleanupAction::Nothing,
            }
        }
    }
}

/// After the modification the configuration passes `RUSTC_BOOTSTRAP`
/// through, and modifying it again changes nothing.
pub proof fn lemma_add_bootstrap(config: CrossConfig, once: CrossConfig, twice: CrossConfig)
    requires
        passthrough_of(once) == Some(
            if passed_through(config).contains(bootstrap_var()) {
                passed_through(config)
            } else {
                passed_through(config).push(bootstrap_var())
            },
        ),
        passthrough_of(twice) == Some(
            if passed_through(once).contains(bootstrap_var()) {
                passed_through(once)
            } else {
                passed_through(once).push(bootstrap_var())
            },
        ),
    ensures
        passed_through(once).contains(bootstrap_var()),
        passed_through(twice) == passed_through(once),
{
    let p = passed_through(config);
    if !p.contains(bootstrap_var()) {
        assert(p.push(bootstrap_var())[p.len() as int] == bootstrap_var());
    }
}

/// Cleaning up undoes the setup: after creating a temporary configuration
/// it is removed, after modifying an existing one its backup is moved back
/// over it, and a configuration that was kept is left alone.
pub proof fn lemma_cleanup_undoes_setup(guard: CrossConfigGuard, root: Seq<char>, action: SetupAction)
    requires
        guard.config_path@ == config_path_of(root),
        guard.created == (action == SetupAction::CreateTemporary),
        match guard.backup_path {
            Some(b) => action == SetupAction::BackupAndModify && b@ == backup_path_of(root),
            None => action != SetupAction::BackupAndModify,
        },
    ensures
        cleanup_of(guard) == match action {
            SetupAction::CreateTemporary => CleanupActionView::RemoveConfig(config_path_of(root)),
            SetupAction::BackupAndModify => CleanupActionView::RestoreBackup(
                backup_path_of(root),
                config_path_of(root),
            ),
            SetupAction::KeepExisting => CleanupActionView::Nothing,
        },
{
}

/// An existing `Cross.toml` is never replaced by a temporary one, whatever
/// it holds (a `[build.env]` passthrough list or not): it is kept exactly
/// when its passthrough list names `RUSTC_BOOTSTRAP`, and otherwise backed up
/// and modified. Only a missing file gets a temporary one.
pub proof fn lemma_existing_config_is_kept_or_modified(c: CrossConfig)
    ensures
        setup_action_of(Some(c)) != SetupAction::CreateTemporary,
        setup_action_of(Some(c)) == SetupAction::KeepExisting <==> (passthrough_of(c) matches Some(p)
            && p.contains(bootstrap_var())),
        setup_action_of(Some(c)) == SetupAction::BackupAndModify <==> !(passthrough_of(c) matches Some(p)
            && p.contains(bootstrap_var())),
        setup_action_of(None) == SetupAction::CreateTemporary,
{
}

/// A configuration modified to pass `RUSTC_BOOTSTRAP` through (its list is
/// the old list with the variable added where missing) is kept as it is by
/// the next setup.
pub proof fn lemma_modified_config_is_kept(c: CrossConfig, r: CrossConfig)
    requires
        passthrough_of(r) == Some(
            if passed_through(c).contains(bootstrap_var()) {
                passed_through(c)
            } else {
                passed_through(c).push(bootstrap_var())
            },
        ),
    ensures
        setup_action_of(Some(r)) == SetupAction::KeepExisting,
{
    let p = passed_through(c);
    if !p.contains(bootstrap_var()) {
        assert(p.push(bootstrap_var())[p.len() as int] == bootstrap_var());
    }
}

} // verus!
