use hurry::cargo::build_args::CargoBuildArguments;
use hurry::cargo::build_plan::{BuildPlan, BuildPlanInvocation};
use hurry::cargo::unit_graph::CargoCompileMode;
use hurry::cargo::workspace::Workspace;
use hurry::cross::config::{
    BuildConfig, CleanupAction, CrossConfig, CrossConfigGuard, EnvConfig, SetupAction,
};
use hurry::cross::workspace::{convert_build_plan_paths, convert_container_path_to_host};
use hurry::path::{AbsDirPath, TypedPath};

fn workspace(root: &str) -> Workspace {
    let root: AbsDirPath = TypedPath::new(String::from(root));
    let target: AbsDirPath = TypedPath::new(format!("{}/target", root.as_str()));
    let cargo_home: AbsDirPath = TypedPath::new(format!("{}/.cargo", root.as_str()));
    Workspace::from_parts(root, target, cargo_home, &CargoBuildArguments::from_iter(&[]))
}

#[test]
fn converts_container_target_path() {
    let ws = workspace("/Users/jess/project");
    assert_eq!(
        convert_container_path_to_host("/target/debug/libfoo.rlib", &ws),
        "/Users/jess/project/target/debug/libfoo.rlib"
    );
}

#[test]
fn converts_container_target_path_with_triple() {
    let ws = workspace("/home/user/myproject");
    assert_eq!(
        convert_container_path_to_host(
            "/target/x86_64-unknown-linux-gnu/debug/deps/libbar-abc123.rmeta",
            &ws
        ),
        "/home/user/myproject/target/x86_64-unknown-linux-gnu/debug/deps/libbar-abc123.rmeta"
    );
}

#[test]
fn preserves_absolute_paths() {
    let ws = workspace("/Users/jess/project");
    assert_eq!(convert_container_path_to_host("/usr/lib/libfoo.so", &ws), "/usr/lib/libfoo.so");
}

#[test]
fn preserves_relative_paths() {
    let ws = workspace("/Users/jess/project");
    assert_eq!(convert_container_path_to_host("src/main.rs", &ws), "src/main.rs");
}

#[test]
fn preserves_empty_strings() {
    let ws = workspace("/Users/jess/project");
    assert_eq!(convert_container_path_to_host("", &ws), "");
}

#[test]
fn handles_target_in_middle_of_path() {
    let ws = workspace("/Users/jess/project");
    assert_eq!(convert_container_path_to_host("/some/target/path", &ws), "/some/target/path");
}

#[test]
fn preserves_paths_beside_the_target_mount() {
    let ws = workspace("/Users/jess/project");
    assert_eq!(convert_container_path_to_host("/target-other/x", &ws), "/target-other/x");
    assert_eq!(convert_container_path_to_host("/targets", &ws), "/targets");
}

#[test]
fn converts_the_target_mount_itself() {
    let ws = workspace("/Users/jess/project");
    assert_eq!(convert_container_path_to_host("/target", &ws), "/Users/jess/project/target");
}

fn invocation() -> BuildPlanInvocation {
    BuildPlanInvocation {
        package_name: String::from("foo"),
        package_version: String::from("0.1.0"),
        target_kind: vec![String::from("lib")],
        kind: None,
        compile_mode: CargoCompileMode::Build,
        deps: vec![0, 2],
        outputs: vec![String::from("/target/debug/deps/libfoo.rlib"), String::from("/usr/lib/x.so")],
        links: vec![(String::from("/target/debug/libfoo.rlib"), String::from("libfoo.rlib"))],
        program: String::from("/target/debug/build/foo/build-script-build"),
        args: vec![String::from("--crate-name"), String::from("foo")],
        env: vec![
            (String::from("OUT_DIR"), String::from("/target/debug/build/foo/out")),
            (String::from("PATH"), String::from("/target/bin")),
        ],
        cwd: String::from("/project"),
    }
}

#[test]
fn converts_build_plan_paths() {
    let ws = workspace("/Users/jess/project");
    let mut plan = BuildPlan { invocations: vec![invocation()], inputs: vec![String::from("/project/Cargo.toml")] };
    convert_build_plan_paths(&mut plan, &ws);
    let inv = &plan.invocations[0];
    assert_eq!(inv.outputs[0], "/Users/jess/project/target/debug/deps/libfoo.rlib");
    assert_eq!(inv.outputs[1], "/usr/lib/x.so");
    assert_eq!(inv.links[0].0, "/Users/jess/project/target/debug/libfoo.rlib");
    assert_eq!(inv.links[0].1, "libfoo.rlib");
    assert_eq!(inv.program, "/Users/jess/project/target/debug/build/foo/build-script-build");
    assert_eq!(inv.env[0].1, "/Users/jess/project/target/debug/build/foo/out");
    assert_eq!(inv.env[1].1, "/target/bin");
    assert_eq!(inv.cwd, "/project");
    assert_eq!(inv.deps, vec![0, 2]);
    assert_eq!(plan.inputs, vec![String::from("/project/Cargo.toml")]);
}

fn config_with(passthrough: Option<Vec<&str>>) -> CrossConfig {
    CrossConfig {
        build: Some(BuildConfig {
            env: Some(EnvConfig {
                passthrough: passthrough.map(|p| p.into_iter().map(String::from).collect()),
            }),
        }),
    }
}

fn passthrough(config: &CrossConfig) -> Vec<String> {
    config.build.as_ref().unwrap().env.as_ref().unwrap().passthrough.clone().unwrap()
}

#[test]
fn creates_config_when_missing() {
    assert_eq!(CrossConfigGuard::setup_action(None), SetupAction::CreateTemporary);
    let config = CrossConfigGuard::temporary_config();
    assert_eq!(passthrough(&config), vec![String::from("RUSTC_BOOTSTRAP")]);
    let root: AbsDirPath = TypedPath::new(String::from("/work/ws"));
    let guard = CrossConfigGuard::after_setup(&root, SetupAction::CreateTemporary);
    assert!(guard.created);
    assert_eq!(guard.config_path, "/work/ws/Cross.toml");
    assert_eq!(guard.backup_path, None);
}

#[test]
fn preserves_existing_config_with_bootstrap() {
    let config = config_with(Some(vec!["RUSTC_BOOTSTRAP"]));
    assert!(CrossConfigGuard::has_rustc_bootstrap_passthrough(&config));
    assert_eq!(CrossConfigGuard::setup_action(Some(&config)), SetupAction::KeepExisting);
    let root: AbsDirPath = TypedPath::new(String::from("/work/ws"));
    let guard = CrossConfigGuard::after_setup(&root, SetupAction::KeepExisting);
    assert!(!guard.created);
    assert_eq!(guard.cleanup_action(), CleanupAction::Nothing);
}

#[test]
fn adds_bootstrap_to_existing_config() {
    let config = config_with(Some(vec!["OTHER_VAR"]));
    assert!(!CrossConfigGuard::has_rustc_bootstrap_passthrough(&config));
    assert_eq!(CrossConfigGuard::setup_action(Some(&config)), SetupAction::BackupAndModify);
    let modified = CrossConfigGuard::add_rustc_bootstrap(config);
    assert_eq!(
        passthrough(&modified),
        vec![String::from("OTHER_VAR"), String::from("RUSTC_BOOTSTRAP")]
    );
    assert!(CrossConfigGuard::has_rustc_bootstrap_passthrough(&modified));
    let again = CrossConfigGuard::add_rustc_bootstrap(modified.clone());
    assert_eq!(passthrough(&again), passthrough(&modified));
}

#[test]
fn adds_bootstrap_to_config_without_tables() {
    let config = CrossConfig { build: None };
    assert!(!CrossConfigGuard::has_rustc_bootstrap_passthrough(&config));
    let modified = CrossConfigGuard::add_rustc_bootstrap(config);
    assert_eq!(passthrough(&modified), vec![String::from("RUSTC_BOOTSTRAP")]);
}

#[test]
fn cleanup_removes_temporary_config() {
    let root: AbsDirPath = TypedPath::new(String::from("/work/ws"));
    let guard = CrossConfigGuard::after_setup(&root, SetupAction::CreateTemporary);
    assert_eq!(guard.cleanup_action(), CleanupAction::RemoveConfig(String::from("/work/ws/Cross.toml")));
}

#[test]
fn cleanup_restores_modified_config() {
    let root: AbsDirPath = TypedPath::new(String::from("/work/ws/"));
    let guard = CrossConfigGuard::after_setup(&root, SetupAction::BackupAndModify);
    assert_eq!(
        guard.cleanup_action(),
        CleanupAction::RestoreBackup(
            String::from("/work/ws/Cross.toml.hurry-backup"),
            String::from("/work/ws/Cross.toml")
        )
    );
}
