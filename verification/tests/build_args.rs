use hurry::cargo::build_args::{CargoBuildArgument, CargoBuildArguments, ColorWhen, MessageFormat};

#[test]
fn parses_release_flag() {
    for flag in ["--release", "-r"] {
        let args = CargoBuildArguments::from_iter(&[flag]);
        assert!(args.is_release());
        assert_eq!(args.profile(), Some("release"));
    }
}

#[test]
fn parses_profile_flag() {
    let cases: [&[&str]; 2] = [&["--profile", "custom"], &["--profile=custom"]];
    for args in cases {
        let parsed = CargoBuildArguments::from_iter(args);
        assert_eq!(parsed.profile(), Some("custom"));
        assert!(!parsed.is_release());
    }
}

#[test]
fn release_profile_enables_release_mode() {
    let cases: [&[&str]; 2] = [&["--profile", "release"], &["--profile=release"]];
    for args in cases {
        let parsed = CargoBuildArguments::from_iter(args);
        assert!(parsed.is_release());
        assert_eq!(parsed.profile(), Some("release"));
    }
    assert!(!CargoBuildArguments::from_iter(&["--profile", "dev"]).is_release());
    assert!(!CargoBuildArguments::from_iter(&["build"]).is_release());
}

#[test]
fn parses_package_flags() {
    let cases: [(&[&str], Vec<&str>); 5] = [
        (&["-p", "foo"], vec!["foo"]),
        (&["--package", "bar"], vec!["bar"]),
        (&["-p=bam"], vec!["bam"]),
        (&["--package=bap"], vec!["bap"]),
        (
            &["-p", "foo", "--package", "bar", "-p=bam", "--package=bap"],
            vec!["foo", "bar", "bam", "bap"],
        ),
    ];
    for (args, expected) in cases {
        let parsed = CargoBuildArguments::from_iter(args);
        assert_eq!(parsed.packages(), expected);
    }
}

#[test]
fn parses_features() {
    let cases: [(&[&str], Vec<&str>); 6] = [
        (&["--features", "foo,bar"], vec!["foo", "bar"]),
        (&["--features=baz,qux"], vec!["baz", "qux"]),
        (&["-F", "alpha,beta"], vec!["alpha", "beta"]),
        (&["-F=gamma,delta"], vec!["gamma", "delta"]),
        (&["--features", "one two"], vec!["one", "two"]),
        (
            &["--features", "a,b", "--features=c,d", "-F", "e,f", "-F=g,h", "--features", "i j"],
            vec!["a", "b", "c", "d", "e", "f", "g", "h", "i", "j"],
        ),
    ];
    for (args, expected) in cases {
        let parsed = CargoBuildArguments::from_iter(args);
        assert_eq!(parsed.features(), expected);
    }
}

#[test]
fn parses_verbose_levels() {
    for (flag, expected_count) in [("-v", 1u8), ("-vv", 2), ("-vvv", 3), ("--verbose", 1)] {
        let args = CargoBuildArguments::from_iter(&[flag]);
        let expected = vec![CargoBuildArgument::Verbose(expected_count)];
        assert_eq!(args.0, expected);
    }
}

#[test]
fn parses_target() {
    let cases: [&[&str]; 2] = [
        &["--target", "x86_64-unknown-linux-gnu"],
        &["--target=x86_64-unknown-linux-gnu"],
    ];
    for args in cases {
        let parsed = CargoBuildArguments::from_iter(args);
        assert_eq!(parsed.target(), Some("x86_64-unknown-linux-gnu"));
    }
}

#[test]
fn parses_target_dir() {
    let cases: [&[&str]; 2] = [&["--target-dir", "/custom/target"], &["--target-dir=/custom/target"]];
    for args in cases {
        let parsed = CargoBuildArguments::from_iter(args);
        assert_eq!(parsed.target_dir(), Some("/custom/target"));
    }
}

#[test]
fn parses_manifest_path() {
    let cases: [&[&str]; 2] = [
        &["--manifest-path", "/path/to/Cargo.toml"],
        &["--manifest-path=/path/to/Cargo.toml"],
    ];
    for args in cases {
        let parsed = CargoBuildArguments::from_iter(args);
        assert_eq!(parsed.manifest_path(), Some("/path/to/Cargo.toml"));
    }
}

#[test]
fn parses_jobs() {
    let cases: [(&[&str], u32); 4] = [
        (&["--jobs", "4"], 4),
        (&["--jobs=8"], 8),
        (&["-j", "2"], 2),
        (&["-j=16"], 16),
    ];
    for (args, expected) in cases {
        let parsed = CargoBuildArguments::from_iter(args);
        let jobs = parsed.0.iter().find_map(|arg| match arg {
            CargoBuildArgument::Jobs(Some(n)) => Some(*n),
            _ => None,
        });
        assert_eq!(jobs, Some(expected));
    }
}

#[test]
fn parses_quiet() {
    for flag in ["--quiet", "-q"] {
        let args = CargoBuildArguments::from_iter(&[flag]);
        let expected = vec![CargoBuildArgument::Quiet];
        assert_eq!(args.0, expected);
    }
}

fn reparse(args: &CargoBuildArguments) -> CargoBuildArguments {
    let reconstructed = args.to_argv();
    let tokens: Vec<&str> = reconstructed.iter().map(String::as_str).collect();
    CargoBuildArguments::from_iter(&tokens)
}

#[test]
fn roundtrip_to_argv() {
    let given = ["--release", "-p", "foo", "--features", "feat1,feat2"];
    let args = CargoBuildArguments::from_iter(&given);
    let reparsed = reparse(&args);
    assert_eq!(args, reparsed);
}

#[test]
fn short_flags_are_aliased() {
    let short = CargoBuildArguments::from_iter(&["-p", "foo", "-r", "-F", "feat1"]);
    let long = CargoBuildArguments::from_iter(&["--package", "foo", "--release", "--features", "feat1"]);
    assert_eq!(short, long);
}

#[test]
fn parses_generic_flags() {
    let args = CargoBuildArguments::from_iter(&[
        "--some-unknown-flag",
        "--another-flag",
        "value",
        "--another-flag=value2",
        "--release",
    ]);
    let expected = vec![
        CargoBuildArgument::GenericFlag(String::from("--some-unknown-flag")),
        CargoBuildArgument::GenericValueFlag(String::from("--another-flag"), String::from("value")),
        CargoBuildArgument::GenericValueFlag(String::from("--another-flag"), String::from("value2")),
        CargoBuildArgument::Release,
    ];
    assert_eq!(args.0, expected);
}

#[test]
fn roundtrip_generic_flags() {
    let given = ["--unknown-flag", "--another-flag", "value", "--another-flag=value2", "--release"];
    let args = CargoBuildArguments::from_iter(&given);
    let reparsed = reparse(&args);
    assert_eq!(args, reparsed);
}

#[test]
fn to_argv_renders_long_forms() {
    let args = CargoBuildArguments::from_iter(&["-p", "foo", "-r", "-F", "a,b", "-j", "3"]);
    assert_eq!(
        args.to_argv(),
        vec!["--package", "foo", "--release", "--features", "a,b", "--jobs", "3"]
    );
}

#[test]
fn parses_positional_and_flags_without_values() {
    let args = CargoBuildArguments::from_iter(&["build", "--workspace", "--all-features"]);
    assert!(args.all_features());
    assert!(!args.no_default_features());
    assert_eq!(args.0[0], CargoBuildArgument::Positional(String::from("build")));
    assert_eq!(args.0[1], CargoBuildArgument::Workspace);
}

#[test]
fn color_modes_parse_and_render() {
    assert_eq!(ColorWhen::parse("always").unwrap(), ColorWhen::Always);
    assert_eq!(ColorWhen::Never.to_string(), "never");
    let err = ColorWhen::parse("sometimes").unwrap_err();
    assert_eq!(err.0, "sometimes");
}

#[test]
fn message_formats_keep_unknown_text() {
    assert_eq!(MessageFormat::parse("json"), MessageFormat::Json);
    assert_eq!(MessageFormat::parse("fancy"), MessageFormat::Other(String::from("fancy")));
    assert_eq!(MessageFormat::parse("fancy").to_string(), "fancy");
}

#[test]
fn feature_switches_keep_listed_features() {
    let base = CargoBuildArguments::from_iter(&["--features", "a b", "-F", "c"]);
    for extra in ["--all-features", "--no-default-features"] {
        let with = CargoBuildArguments::from_iter(&["--features", "a b", "-F", "c", extra]);
        assert_eq!(with.features(), base.features());
        assert_eq!(with.features(), vec!["a", "b", "c"]);
        assert_eq!(with.all_features(), extra == "--all-features");
    }
}
