use hurry::cargo::build_script::{BuildScriptOutput, BuildScriptOutputLine, DirectiveSpelling, RootOutput};
use hurry::cargo::qualified_path::{ProfileDir, QualifiedPath};

fn test_profile() -> ProfileDir {
    ProfileDir {
        root: String::from("/work/project/target/debug"),
        cargo_home: String::from("/home/user/.cargo"),
    }
}

#[test]
fn parses_rerun_if_changed() {
    let profile = test_profile();
    let line = format!("cargo:rerun-if-changed={}/out/build.rs", profile.root);
    let parsed = BuildScriptOutputLine::parse(&profile, &line);
    match &parsed {
        BuildScriptOutputLine::RerunIfChanged(path, _) => {
            assert_eq!(path, &QualifiedPath::RelativeTargetProfile(String::from("out/build.rs")));
        }
        _ => panic!("Expected RerunIfChanged variant"),
    }
    assert_eq!(parsed.reconstruct(&profile), line);
}

#[test]
fn parses_rerun_if_env_changed() {
    let profile = test_profile();
    let line = "cargo:rerun-if-env-changed=RUST_LOG";
    let parsed = BuildScriptOutputLine::parse(&profile, line);
    match &parsed {
        BuildScriptOutputLine::RerunIfEnvChanged(var, _) => assert_eq!(var, "RUST_LOG"),
        _ => panic!("Expected RerunIfEnvChanged variant"),
    }
    assert_eq!(parsed.reconstruct(&profile), line);
}

#[test]
fn parses_rustc_link_arg() {
    let profile = test_profile();
    let line = "cargo:rustc-link-arg=-Wl,-rpath,/custom/path";
    let parsed = BuildScriptOutputLine::parse(&profile, line);
    match &parsed {
        BuildScriptOutputLine::RustcLinkArg(flag, _) => assert_eq!(flag, "-Wl,-rpath,/custom/path"),
        _ => panic!("Expected RustcLinkArg variant"),
    }
    assert_eq!(parsed.reconstruct(&profile), line);
}

#[test]
fn parses_rustc_link_lib() {
    let profile = test_profile();
    let line = "cargo:rustc-link-lib=ssl";
    let parsed = BuildScriptOutputLine::parse(&profile, line);
    match &parsed {
        BuildScriptOutputLine::RustcLinkLib(lib, _) => assert_eq!(lib, "ssl"),
        _ => panic!("Expected RustcLinkLib variant"),
    }
    assert_eq!(parsed.reconstruct(&profile), line);
}

#[test]
fn parses_rustc_link_search_without_kind() {
    let profile = test_profile();
    let line = format!("cargo:rustc-link-search={}/native", profile.root);
    let parsed = BuildScriptOutputLine::parse(&profile, &line);
    match &parsed {
        BuildScriptOutputLine::RustcLinkSearch { kind, .. } => assert_eq!(kind, &None),
        _ => panic!("Expected RustcLinkSearch variant"),
    }
    assert_eq!(parsed.reconstruct(&profile), line);
}

#[test]
fn parses_rustc_link_search_with_kind() {
    let profile = test_profile();
    let line = format!("cargo:rustc-link-search=native={}/lib", profile.root);
    let parsed = BuildScriptOutputLine::parse(&profile, &line);
    match &parsed {
        BuildScriptOutputLine::RustcLinkSearch { kind, .. } => {
            assert_eq!(kind, &Some(String::from("native")))
        }
        _ => panic!("Expected RustcLinkSearch variant"),
    }
    assert_eq!(parsed.reconstruct(&profile), line);
}

#[test]
fn parses_rustc_flags() {
    let profile = test_profile();
    let line = "cargo:rustc-flags=-l dylib=foo";
    let parsed = BuildScriptOutputLine::parse(&profile, line);
    match &parsed {
        BuildScriptOutputLine::RustcFlags(flags, _) => assert_eq!(flags, "-l dylib=foo"),
        _ => panic!("Expected RustcFlags variant"),
    }
    assert_eq!(parsed.reconstruct(&profile), line);
}

#[test]
fn parses_rustc_cfg() {
    let profile = test_profile();
    let line = "cargo:rustc-cfg=feature=\"custom\"";
    let parsed = BuildScriptOutputLine::parse(&profile, line);
    match &parsed {
        BuildScriptOutputLine::RustcCfg(cfg, _) => assert_eq!(cfg, "feature=\"custom\""),
        _ => panic!("Expected RustcCfg variant"),
    }
    assert_eq!(parsed.reconstruct(&profile), line);
}

#[test]
fn parses_rustc_check_cfg() {
    let profile = test_profile();
    let line = "cargo:rustc-check-cfg=cfg(foo)";
    let parsed = BuildScriptOutputLine::parse(&profile, line);
    match &parsed {
        BuildScriptOutputLine::RustcCheckCfg(check_cfg, _) => assert_eq!(check_cfg, "cfg(foo)"),
        _ => panic!("Expected RustcCheckCfg variant"),
    }
    assert_eq!(parsed.reconstruct(&profile), line);
}

#[test]
fn parses_rustc_env() {
    let profile = test_profile();
    let line = "cargo:rustc-env=FOO=bar";
    let parsed = BuildScriptOutputLine::parse(&profile, line);
    match &parsed {
        BuildScriptOutputLine::RustcEnv { var, value, .. } => {
            assert_eq!(var, "FOO");
            assert_eq!(value, "bar");
        }
        _ => panic!("Expected RustcEnv variant"),
    }
    assert_eq!(parsed.reconstruct(&profile), line);
}

#[test]
fn parses_error() {
    let profile = test_profile();
    let line = "cargo:error=Something went wrong";
    let parsed = BuildScriptOutputLine::parse(&profile, line);
    match &parsed {
        BuildScriptOutputLine::Error(msg, _) => assert_eq!(msg, "Something went wrong"),
        _ => panic!("Expected Error variant"),
    }
    assert_eq!(parsed.reconstruct(&profile), line);
}

#[test]
fn parses_warning() {
    let profile = test_profile();
    let line = "cargo:warning=This is a warning";
    let parsed = BuildScriptOutputLine::parse(&profile, line);
    match &parsed {
        BuildScriptOutputLine::Warning(msg, _) => assert_eq!(msg, "This is a warning"),
        _ => panic!("Expected Warning variant"),
    }
    assert_eq!(parsed.reconstruct(&profile), line);
}

#[test]
fn parses_metadata() {
    let profile = test_profile();
    let line = "cargo:metadata=key=value";
    let parsed = BuildScriptOutputLine::parse(&profile, line);
    match &parsed {
        BuildScriptOutputLine::Metadata { key, value, .. } => {
            assert_eq!(key, "key");
            assert_eq!(value, "value");
        }
        _ => panic!("Expected Metadata variant"),
    }
    assert_eq!(parsed.reconstruct(&profile), line);
}

#[test]
fn parses_other_lines() {
    let profile = test_profile();
    let lines = vec!["OUT_DIR = Some(/path/to/out)", "cargo:unknown=value", "random text", ""];
    for line in lines {
        let parsed = BuildScriptOutputLine::parse(&profile, line);
        match &parsed {
            BuildScriptOutputLine::Other(content) => assert_eq!(content, line),
            _ => panic!("Expected Other variant for line: {}", line),
        }
        assert_eq!(parsed.reconstruct(&profile), line);
    }
}

#[test]
fn parses_rustc_env_without_equals() {
    let profile = test_profile();
    let line = "cargo:rustc-env=INVALID";
    let parsed = BuildScriptOutputLine::parse(&profile, line);
    match parsed {
        BuildScriptOutputLine::Other(content) => assert_eq!(content, line),
        _ => panic!("Expected Other variant for malformed rustc-env"),
    }
}

#[test]
fn parses_metadata_without_equals() {
    let profile = test_profile();
    let line = "cargo:metadata=INVALID";
    let parsed = BuildScriptOutputLine::parse(&profile, line);
    match parsed {
        BuildScriptOutputLine::Other(content) => assert_eq!(content, line),
        _ => panic!("Expected Other variant for malformed metadata"),
    }
}

#[test]
fn reconstructs_whole_output_without_final_newline() {
    let profile = test_profile();
    let content = format!(
        "cargo:rerun-if-changed=build.rs\ncargo:rustc-link-search=native={}/out\nCompiling native code...\ncargo:rustc-cfg=has_feature\n",
        profile.root
    );
    let parsed = BuildScriptOutput::parse_content(&profile, &content);
    assert_eq!(parsed.0.len(), 4);
    assert_eq!(parsed.reconstruct(&profile), content.trim_end());
}

#[test]
fn paths_under_cargo_home_are_qualified() {
    let profile = test_profile();
    let line = "cargo:rerun-if-changed=/home/user/.cargo/registry/src/lib.rs";
    let parsed = BuildScriptOutputLine::parse(&profile, line);
    match &parsed {
        BuildScriptOutputLine::RerunIfChanged(path, _) => assert_eq!(
            path,
            &QualifiedPath::RelativeCargoHome(String::from("registry/src/lib.rs"))
        ),
        _ => panic!("Expected RerunIfChanged variant"),
    }
    assert_eq!(parsed.reconstruct(&profile), line);
}

#[test]
fn root_output_needs_exactly_one_line() {
    let profile = test_profile();
    let one = format!("{}/build/foo-123/out", profile.root);
    let parsed = RootOutput::parse_content(&profile, &one).unwrap();
    assert_eq!(parsed.reconstruct(&profile), one);
    let two = format!("{}\n{}", one, one);
    assert!(RootOutput::parse_content(&profile, &two).is_err());
    assert!(RootOutput::parse_content(&profile, "").is_err());
}

#[test]
fn parses_double_colon_directives() {
    let profile = test_profile();
    let parsed = BuildScriptOutputLine::parse(&profile, "cargo::warning=hi");
    assert_eq!(parsed, BuildScriptOutputLine::Warning(String::from("hi"), DirectiveSpelling::DoubleColon));
    assert_eq!(parsed.reconstruct(&profile), "cargo::warning=hi");
    let single = BuildScriptOutputLine::parse(&profile, "cargo:warning=hi");
    assert_eq!(single, BuildScriptOutputLine::Warning(String::from("hi"), DirectiveSpelling::SingleColon));
    assert_eq!(single.reconstruct(&profile), "cargo:warning=hi");
    let line = format!("cargo::rustc-link-search=native={}/out", profile.root);
    let parsed = BuildScriptOutputLine::parse(&profile, &line);
    match &parsed {
        BuildScriptOutputLine::RustcLinkSearch { kind, path, spelling } => {
            assert_eq!(kind.as_deref(), Some("native"));
            assert_eq!(path, &QualifiedPath::RelativeTargetProfile(String::from("out")));
            assert_eq!(spelling, &DirectiveSpelling::DoubleColon);
        }
        other => panic!("Expected RustcLinkSearch, got {:?}", other),
    }
    assert_eq!(parsed.reconstruct(&profile), line);
    let env = BuildScriptOutputLine::parse(&profile, "cargo::rustc-env=A=B");
    assert_eq!(
        env,
        BuildScriptOutputLine::RustcEnv {
            var: String::from("A"),
            value: String::from("B"),
            spelling: DirectiveSpelling::DoubleColon
        }
    );
    assert_eq!(env.reconstruct(&profile), "cargo::rustc-env=A=B");
}

#[test]
fn whole_outputs_keep_both_spellings() {
    let profile = test_profile();
    let content = "cargo::rerun-if-changed=build.rs\ncargo:rustc-cfg=x\ncargo::metadata=k=v";
    let parsed = BuildScriptOutputLine::parse(&profile, "cargo::metadata=k=v");
    assert_eq!(parsed.reconstruct(&profile), "cargo::metadata=k=v");
    assert_eq!(BuildScriptOutput::parse_content(&profile, content).reconstruct(&profile), content);
}

#[test]
fn unknown_double_colon_directives_are_kept() {
    let profile = test_profile();
    for line in ["cargo::unknown=value", "cargo:::warning=x", "cargo::metadata=INVALID"] {
        let parsed = BuildScriptOutputLine::parse(&profile, line);
        assert_eq!(parsed, BuildScriptOutputLine::Other(String::from(line)));
        assert_eq!(parsed.reconstruct(&profile), line);
    }
}
