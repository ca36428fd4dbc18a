use hurry::cargo::metadata::{Dotd, DotdDependencyPath, DotdError, DotdErrorKind, DotdLine, InputRoot};
use hurry::cargo::qualified_path::ProfileDir;

fn profile() -> ProfileDir {
    ProfileDir {
        root: String::from("/work/project/target/debug"),
        cargo_home: String::from("/home/user/.cargo"),
    }
}

fn other_profile() -> ProfileDir {
    ProfileDir { root: String::from("/ci/build/target/release"), cargo_home: String::from("/ci/cargo") }
}

#[test]
fn parses_outputs_and_inputs_relative_to_their_roots() {
    let content = "/work/project/target/debug/deps/libfoo.rlib: /home/user/.cargo/registry/src/foo/lib.rs /work/project/target/debug/build/foo/out/gen.rs\n\n# env-dep:FOO=1\n/work/project/target/debug/deps/foo.d:\n";
    let roots = Dotd::inputs(content);
    assert_eq!(roots.len(), 4);
    assert_eq!(roots[0].len(), 2);
    let d = Dotd::parse_content(&profile(), content, &[]).unwrap();
    assert_eq!(
        d.0,
        vec![
            DotdLine::Build(
                String::from("deps/libfoo.rlib"),
                vec![
                    DotdDependencyPath::RelativeCargoHome(String::from("registry/src/foo/lib.rs")),
                    DotdDependencyPath::RelativeTargetProfile(String::from("build/foo/out/gen.rs")),
                ]
            ),
            DotdLine::Space,
            DotdLine::Comment(String::from(" env-dep:FOO=1")),
            DotdLine::Build(String::from("deps/foo.d"), vec![]),
        ]
    );
    assert_eq!(
        d.reconstruct(&other_profile()),
        "/ci/build/target/release/deps/libfoo.rlib: /ci/cargo/registry/src/foo/lib.rs /ci/build/target/release/build/foo/out/gen.rs\n\n# env-dep:FOO=1\n/ci/build/target/release/deps/foo.d: "
    );
}

#[test]
fn reconstructing_a_parsed_file_gives_it_back() {
    let content = "/work/project/target/debug/deps/a.rmeta: /work/project/target/debug/src/a.rs /home/user/.cargo/x.rs\n# comment";
    let d = Dotd::parse_content(&profile(), content, &[]).unwrap();
    assert_eq!(d.reconstruct(&profile()), content);
}

#[test]
fn relative_inputs_take_the_root_where_they_exist() {
    let content = "/work/project/target/debug/deps/a.rmeta: src/a.rs registry/b.rs";
    let roots = vec![vec![InputRoot::TargetProfile, InputRoot::CargoHome]];
    let d = Dotd::parse_content(&profile(), content, &roots).unwrap();
    assert_eq!(
        d.0[0],
        DotdLine::Build(
            String::from("deps/a.rmeta"),
            vec![
                DotdDependencyPath::RelativeTargetProfile(String::from("src/a.rs")),
                DotdDependencyPath::RelativeCargoHome(String::from("registry/b.rs")),
            ]
        )
    );
    let missing = vec![vec![InputRoot::TargetProfile, InputRoot::Neither]];
    assert_eq!(
        Dotd::parse_content(&profile(), content, &missing),
        Err(DotdError { line: 0, kind: DotdErrorKind::UnknownInputRoot(1) })
    );
}

#[test]
fn malformed_lines_are_errors() {
    assert_eq!(
        Dotd::parse_content(&profile(), "\nno separator here", &[]),
        Err(DotdError { line: 1, kind: DotdErrorKind::NoSeparator })
    );
    assert_eq!(
        Dotd::parse_content(&profile(), "/elsewhere/out: /work/project/target/debug/a.rs", &[]),
        Err(DotdError { line: 0, kind: DotdErrorKind::OutputOutsideProfile })
    );
    assert_eq!(
        Dotd::parse_content(&profile(), "/work/project/target/debug/o: /usr/include/x.h", &[]),
        Err(DotdError { line: 0, kind: DotdErrorKind::UnknownInputRoot(0) })
    );
}
