use hurry::bytes::replace_all;
use hurry::cargo::cache::{
    restore_actions, save_progress, PendingKeys, Restored, SaveFile, SaveProgress, SaveUnit,
    UnitRestoreAction,
};
use hurry::cargo::dependency::Dependency;
use hurry::cargo::profile::Profile;
use hurry::cargo::read_argv;
use hurry::ci::{is_ci, CiEnv};
use hurry::daemon::{classify_components, CachedFileKind};
use hurry::gcp_cas::{cas_object_path, unit_object_path, GlibcVersion, GlibcVersionError};
use hurry::hash::Blake3;
use hurry::path::{AbsDirPath, AbsFilePath, Error as PathError, GenericPath, JoinWith, RelFilePath, TypedPath};
use hurry::progress::{format_size, format_transfer_rate, logger_step, transfer_message, LoggerStep};

const EMPTY_HASH: &str = "af1349b9f5f9a1a6a0404dea36dcc9499bcb25c9adc112b7cc9a93cae41f3262";

#[test]
fn hashes_have_lowercase_hex_text() {
    assert_eq!(Blake3::from_buffer(b"").to_hex(), EMPTY_HASH);
    let h = Blake3::from_buffer(b"hello");
    assert_ne!(h.to_hex(), EMPTY_HASH);
    assert_eq!(h.to_hex().len(), 64);
}

fn length_prefixed(fields: &[&[u8]]) -> Vec<u8> {
    let mut out = Vec::new();
    for f in fields {
        out.extend_from_slice(&(f.len() as u64).to_le_bytes());
        out.extend_from_slice(f);
    }
    out
}

#[test]
fn hash_of_fields_is_hash_of_length_prefixed_fields() {
    let fields: [&[u8]; 3] = [b"ab", b"", b"c"];
    assert_eq!(Blake3::from_fields(&fields), Blake3::from_buffer(&length_prefixed(&fields)));
    assert_ne!(Blake3::from_fields(&fields), Blake3::from_buffer(b"abc"));
    let moved: [&[u8]; 3] = [b"a", b"b", b"c"];
    assert_ne!(Blake3::from_fields(&fields), Blake3::from_fields(&moved));
}

#[test]
fn dependency_keys_cover_every_field() {
    let dep = Dependency::new("serde", "1.0.0", "abc123", "x86_64-unknown-linux-gnu");
    let key = dep.key();
    let fields: [&[u8]; 4] = [b"serde", b"1.0.0", b"abc123", b"x86_64-unknown-linux-gnu"];
    assert_eq!(key, Blake3::from_buffer(&length_prefixed(&fields)));
    assert_eq!(key, Dependency::key_for(b"serde", b"1.0.0", b"abc123", b"x86_64-unknown-linux-gnu"));
    let other = Dependency::new("serde", "1.0.1", "abc123", "x86_64-unknown-linux-gnu");
    assert_ne!(key, other.key());
    assert_ne!(
        Dependency::key_for(b"ab", b"c", b"x", b"t"),
        Dependency::key_for(b"a", b"bc", b"x", b"t")
    );
}

#[test]
fn profiles_round_trip_their_names() {
    assert_eq!(Profile::parse("release"), Profile::Release);
    assert_eq!(Profile::parse("dev"), Profile::Custom(String::from("dev")));
    assert_eq!(Profile::Bench.as_str(), "bench");
    assert_eq!(Profile::from(String::from("test")), Profile::Test);
    assert_eq!(Profile::default(), Profile::Debug);
    assert_eq!(Profile::parse(Profile::Custom(String::from("ci")).as_str()), Profile::Custom(String::from("ci")));
}

#[test]
fn reads_flag_values_from_argv() {
    let argv: Vec<String> = ["cargo", "build", "--target", " x86_64 ", "--profile=dev"]
        .iter()
        .map(|s| s.to_string())
        .collect();
    assert_eq!(read_argv(&argv, "--target"), Some("x86_64"));
    assert_eq!(read_argv(&argv, "--profile"), Some("dev"));
    assert_eq!(read_argv(&argv, "--jobs"), None);
    let single = vec![String::from("--profile=dev")];
    assert_eq!(read_argv(&single, "--profile"), Some("dev"));
    let lone = vec![String::from("--target=x86_64")];
    assert_eq!(read_argv(&lone, "--target"), Some("x86_64"));
    let bare = vec![String::from("--target")];
    assert_eq!(read_argv(&bare, "--target"), None);
    let last = vec![String::from("build"), String::from("--target")];
    assert_eq!(read_argv(&last, "--target"), None);
}

#[test]
fn glibc_versions_parse_and_order() {
    assert_eq!(GlibcVersion::parse("2.35").unwrap(), GlibcVersion { major: 2, minor: 35, patch: 0 });
    assert_eq!(GlibcVersion::parse("2.17.1").unwrap(), GlibcVersion { major: 2, minor: 17, patch: 1 });
    assert_eq!(GlibcVersion::parse("2"), Err(GlibcVersionError::MissingMinor));
    assert_eq!(GlibcVersion::parse("2.x"), Err(GlibcVersionError::InvalidNumber));
    assert_eq!(GlibcVersion::parse("a.1"), Err(GlibcVersionError::InvalidNumber));
    let v = GlibcVersion { major: 2, minor: 31, patch: 4 };
    assert_eq!(v.to_string(), "2.31.4");
    assert_eq!(GlibcVersion::parse(&v.to_string()).unwrap(), v);
    let host = Some(GlibcVersion { major: 2, minor: 31, patch: 0 });
    assert!(GlibcVersion::admits(&host, &Some(GlibcVersion { major: 2, minor: 28, patch: 0 })));
    assert!(GlibcVersion::admits(&host, &host));
    assert!(!GlibcVersion::admits(&host, &Some(GlibcVersion { major: 2, minor: 35, patch: 0 })));
    assert!(GlibcVersion::admits(&None, &Some(GlibcVersion { major: 9, minor: 0, patch: 0 })));
    assert!(GlibcVersion::admits(&host, &None));
}

#[test]
fn object_paths_use_two_levels_of_directories() {
    let key = Blake3::from_buffer(b"");
    assert_eq!(cas_object_path(&key), format!("cas/af/13/{}", EMPTY_HASH));
    assert_eq!(unit_object_path("abc"), "units/abc.json");
}

#[test]
fn transfer_rates_and_messages() {
    assert_eq!(format_size(0), "0 B");
    assert_eq!(format_size(1_500_000), "1.50 MB");
    assert_eq!(format_transfer_rate(None), "0 MB/s");
    assert_eq!(format_transfer_rate(Some(10_000_000)), "10 MB/s");
    assert_eq!(transfer_message("Uploading", 0, 0, None), "Uploading (0 files, 0 B at 0 MB/s)");
    assert_eq!(hurry::format_transfer_rate(Some(2_000)), "2 kB/s");
    assert_eq!(logger_step(false, false), LoggerStep::Log);
    assert_eq!(logger_step(true, false), LoggerStep::Stop);
    assert_eq!(logger_step(false, true), LoggerStep::Stop);
}

#[test]
fn replacements_are_applied_in_order() {
    let greeting = b"Hello world!".to_vec();
    let farewell = replace_all(greeting.clone(), &[(b"Hello".to_vec(), b"Goodbye".to_vec())]);
    assert_eq!(greeting, b"Hello world!");
    assert_eq!(farewell, b"Goodbye world!");
    let foos = b"foobar foobaz foobam".to_vec();
    let excited = replace_all(
        foos,
        &[(b"foobar".to_vec(), b"FOOBAR".to_vec()), (b"foo".to_vec(), b"FOO".to_vec())],
    );
    assert_eq!(excited, b"FOOBAR FOObaz FOObam");
    assert_eq!(replace_all(b"foo".to_vec(), &[(Vec::new(), b"Z".to_vec())]), b"ZfZoZoZ");
}

fn env() -> CiEnv {
    CiEnv {
        ci: None,
        github_actions: None,
        gitlab_ci: None,
        circleci: None,
        jenkins_url: None,
        travis: None,
        buildkite: None,
    }
}

#[test]
fn detects_ci_environments() {
    assert!(!is_ci(&env()));
    assert!(is_ci(&CiEnv { ci: Some(String::from("true")), ..env() }));
    assert!(!is_ci(&CiEnv { ci: Some(String::from("1")), ..env() }));
    assert!(is_ci(&CiEnv { jenkins_url: Some(String::new()), ..env() }));
    assert!(is_ci(&CiEnv { buildkite: Some(String::from("true")), ..env() }));
}

fn components(parts: &[&str]) -> Vec<String> {
    parts.iter().map(|s| s.to_string()).collect()
}

#[test]
fn classifies_cached_files_by_path() {
    assert_eq!(
        classify_components(&components(&["/", "t", "debug", "build", "foo-1", "output"])),
        Some(CachedFileKind::BuildScriptOutput)
    );
    assert_eq!(
        classify_components(&components(&["/", "t", "debug", "build", "foo-1", "root-output"])),
        Some(CachedFileKind::RootOutput)
    );
    assert_eq!(
        classify_components(&components(&["/", "t", "debug", "deps", "foo-1.d"])),
        Some(CachedFileKind::DepInfo)
    );
    assert_eq!(classify_components(&components(&["/", "t", "debug", "deps", "libfoo.rlib"])), None);
    assert_eq!(classify_components(&components(&["output"])), None);
}

#[test]
fn classifies_a_typed_path() {
    let p: TypedPath<hurry::path::Abs, hurry::path::File> =
        TypedPath::new(String::from("/t/debug/build/foo-1/output"));
    assert_eq!(hurry::daemon::classify_cache_file(&p), Some(CachedFileKind::BuildScriptOutput));
}

fn key(b: u8) -> Blake3 {
    Blake3([b; 32])
}

#[test]
fn save_progress_skips_restored_units_and_files() {
    let units = vec![
        SaveUnit {
            unit_hash: String::from("a"),
            files: vec![SaveFile { key: key(1), size: 10 }, SaveFile { key: key(2), size: 20 }],
            unsupported: false,
        },
        SaveUnit { unit_hash: String::from("b"), files: vec![SaveFile { key: key(3), size: 5 }], unsupported: false },
        SaveUnit { unit_hash: String::from("c"), files: vec![SaveFile { key: key(4), size: 7 }], unsupported: true },
    ];
    let skip = Restored { units: vec![String::from("b")], files: vec![key(2)] };
    let (reports, plans) = save_progress(&units, &skip);
    assert_eq!(
        reports,
        vec![
            SaveProgress { uploaded_units: 1, total_units: 3, uploaded_files: 1, uploaded_bytes: 10 },
            SaveProgress { uploaded_units: 1, total_units: 2, uploaded_files: 1, uploaded_bytes: 10 },
            SaveProgress { uploaded_units: 1, total_units: 1, uploaded_files: 1, uploaded_bytes: 10 },
        ]
    );
    assert_eq!(plans, vec![vec![0], vec![], vec![]]);
    let last = reports.last().unwrap();
    assert_eq!(last.uploaded_units, last.total_units);
}

#[test]
fn paths_join_and_report_their_base() {
    let root: AbsDirPath = TypedPath::new(String::from("/work"));
    let file: RelFilePath = TypedPath::new(String::from("src/main.rs"));
    assert_eq!(root.join(&file).as_str(), "/work/src/main.rs");
    assert_eq!(file.abs(&root).as_str(), "/work/src/main.rs");
    let slash: AbsDirPath = TypedPath::new(String::from("/"));
    assert_eq!(file.abs(&slash).as_str(), "/src/main.rs");
    let generic: GenericPath = TypedPath::new(String::from("/x"));
    assert!(generic.is_absolute());
    let rel: GenericPath = TypedPath::new(String::from("x"));
    assert!(rel.is_relative());
    assert_eq!(root.join(&file).parent().unwrap().as_str(), "/work/src");
    assert!(slash.parent().is_none());
    assert_eq!(root.join(&file).components(), vec!["/", "work", "src", "main.rs"]);
}

#[test]
fn restore_actions_follow_cache_and_local_state() {
    let actions = restore_actions(&[(false, false), (false, true), (true, true), (true, false)]);
    assert_eq!(
        actions,
        vec![
            UnitRestoreAction::Missing { touch: false },
            UnitRestoreAction::Missing { touch: true },
            UnitRestoreAction::KeepLocal { mtime_secs: 2 },
            UnitRestoreAction::Restore { mtime_secs: 3 },
        ]
    );
}

#[test]
fn pending_keys_report_when_a_unit_is_restored() {
    let mut pending = PendingKeys { unit_hash: String::from("u"), keys: vec![key(1), key(2), key(1)] };
    assert!(!pending.key_restored(&key(1)));
    assert_eq!(pending.keys, vec![key(2)]);
    assert!(!pending.key_restored(&key(9)));
    assert!(pending.key_restored(&key(2)));
    assert!(pending.keys.is_empty());
    assert_eq!(pending.unit_hash, "u");
}

#[test]
fn absolute_paths_are_made_relative_to_their_directory() {
    let root: AbsDirPath = TypedPath::new(String::from("/work"));
    let file: AbsFilePath = TypedPath::new(String::from("/work/src/main.rs"));
    assert_eq!(file.rel_to(&root).unwrap().as_str(), "src/main.rs");
    let other: AbsFilePath = TypedPath::new(String::from("/workspace/x"));
    assert_eq!(
        other.rel_to(&root).unwrap_err(),
        PathError::NotChild { parent: String::from("/work"), child: String::from("/workspace/x") }
    );
    let same: AbsDirPath = TypedPath::new(String::from("/work"));
    assert_eq!(same.rel_to(&root).unwrap().as_str(), "");
}

#[test]
fn making_relative_then_absolute_gives_the_path_back() {
    let root: AbsDirPath = TypedPath::new(String::from("/work/"));
    for text in ["/work/src/main.rs", "/work/a/b/c.txt", "/work//x"] {
        let file: AbsFilePath = TypedPath::new(String::from(text));
        let rel = file.rel_to(&root).unwrap();
        assert_eq!(rel.abs(&root).as_std_path(), file.as_std_path());
        assert_eq!(rel.abs(&root).components(), file.components());
    }
    let file: AbsFilePath = TypedPath::new(String::from("/work/src/main.rs"));
    assert_eq!(file.as_std_path(), std::path::PathBuf::from("/work/src/main.rs"));
}
