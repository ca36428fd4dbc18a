use hurry::cargo::build_plan::{
    RustcCfgSpec, RustcCfgSpecKey, RustcCfgSpecValue, RustcCheckCfgSpec, RustcCodegenOption,
    RustcCrateType, RustcEdition, RustcEmitFormat, RustcEmitSpec, RustcLibrarySearchPath,
    RustcLibrarySearchPathKind, RustcLinkKind, RustcLinkModifier, RustcLinkModifierState,
    RustcLinkSpec, RustcLintLevel, RustcPrintInfo, RustcPrintSpec, RustcPrintTarget,
};

#[test]
fn keyword_kinds_parse_and_keep_unknown_text() {
    assert_eq!(RustcCrateType::parse("proc-macro"), RustcCrateType::ProcMacro);
    assert_eq!(RustcCrateType::parse("weird"), RustcCrateType::Other(String::from("weird")));
    assert_eq!(RustcCrateType::ProcMacro.to_string(), "proc-macro");
    assert_eq!(RustcEdition::parse("2021"), RustcEdition::Edition2021);
    assert_eq!(RustcEdition::default(), RustcEdition::Edition2015);
    assert_eq!(RustcEdition::LATEST_STABLE, RustcEdition::Edition2024);
    assert_eq!(RustcLintLevel::parse("forbid"), RustcLintLevel::Forbid);
    assert_eq!(RustcLinkKind::parse("static"), RustcLinkKind::Static);
    assert_eq!(RustcLibrarySearchPathKind::default(), RustcLibrarySearchPathKind::All);
    assert_eq!(RustcPrintInfo::parse("target-spec-json"), RustcPrintInfo::TargetSpecJson);
    assert_eq!(RustcPrintInfo::StackProtectorStrategies.to_string(), "stack-protector-strategies");
    assert_eq!(RustcCfgSpecKey::parse("feature"), RustcCfgSpecKey::Feature);
    let parsed: RustcEmitFormat = "dep-info".parse().unwrap();
    assert_eq!(parsed, RustcEmitFormat::DepInfo);
}

#[test]
fn emit_formats_have_default_file_names() {
    assert_eq!(RustcEmitFormat::Metadata.default_file_name("foo"), Some(String::from("libfoo.rmeta")));
    assert_eq!(RustcEmitFormat::DepInfo.default_file_name("foo"), Some(String::from("foo.d")));
    assert_eq!(
        RustcEmitFormat::ThinLinkBitcode.default_file_name("foo"),
        Some(String::from("foo.indexing.o"))
    );
    assert_eq!(RustcEmitFormat::Other(String::from("x")).default_file_name("foo"), None);
}

#[test]
fn cfg_specs_need_a_quoted_value() {
    let spec = RustcCfgSpec::parse("feature=\"serde\"").unwrap();
    assert_eq!(spec.0, RustcCfgSpecKey::Feature);
    assert_eq!(spec.1, RustcCfgSpecValue(String::from("serde")));
    assert_eq!(spec.to_string(), "feature=\"serde\"");
    let other = RustcCfgSpec::parse("target_os=\"a=b\"").unwrap();
    assert_eq!(other.0, RustcCfgSpecKey::Other(String::from("target_os")));
    assert_eq!(other.1, RustcCfgSpecValue(String::from("a=b")));
    assert_eq!(RustcCfgSpec::parse("unix").unwrap_err().0, "unix");
    assert!(RustcCfgSpec::parse("feature=serde").is_err());
    assert!(RustcCfgSpecValue::parse("\"").is_err());
    assert_eq!(RustcCfgSpecValue::parse("\"\"").unwrap(), RustcCfgSpecValue(String::new()));
    assert_eq!(RustcCheckCfgSpec::parse("cfg(foo)").to_string(), "cfg(foo)");
}

#[test]
fn library_search_paths_default_to_all() {
    let p = RustcLibrarySearchPath::parse("/usr/lib");
    assert_eq!(p.0, RustcLibrarySearchPathKind::All);
    assert_eq!(p.1, "/usr/lib");
    assert_eq!(p.to_string(), "all=/usr/lib");
    let q = RustcLibrarySearchPath::parse("native=/opt/lib=x");
    assert_eq!(q.0, RustcLibrarySearchPathKind::Native);
    assert_eq!(q.1, "/opt/lib=x");
    assert_eq!(q.to_string(), "native=/opt/lib=x");
}

#[test]
fn link_modifiers_take_an_optional_sign() {
    assert_eq!(RustcLinkModifier::parse("+bundle"), RustcLinkModifier::Bundle(RustcLinkModifierState::Enabled));
    assert_eq!(
        RustcLinkModifier::parse("-whole-archive"),
        RustcLinkModifier::WholeArchive(RustcLinkModifierState::Disabled)
    );
    assert_eq!(
        RustcLinkModifier::parse("verbatim"),
        RustcLinkModifier::Verbatim(RustcLinkModifierState::Unspecified)
    );
    assert_eq!(
        RustcLinkModifier::parse("+custom"),
        RustcLinkModifier::Other(RustcLinkModifierState::Unspecified, String::from("+custom"))
    );
    assert_eq!(RustcLinkModifier::AsNeeded(RustcLinkModifierState::Enabled).to_string(), "+as-needed");
    assert_eq!(RustcLinkModifierState::parse("+").unwrap(), RustcLinkModifierState::Enabled);
    assert_eq!(RustcLinkModifierState::parse("").unwrap(), RustcLinkModifierState::Unspecified);
    assert!(RustcLinkModifierState::parse("++").is_err());
    assert_eq!(RustcLinkModifierState::default(), RustcLinkModifierState::Unspecified);
}

#[test]
fn link_specs_parse_every_part() {
    let spec = RustcLinkSpec::parse("static:+whole-archive,-bundle=foo:bar");
    assert_eq!(spec.kind, Some(RustcLinkKind::Static));
    assert_eq!(
        spec.modifiers,
        vec![
            RustcLinkModifier::WholeArchive(RustcLinkModifierState::Enabled),
            RustcLinkModifier::Bundle(RustcLinkModifierState::Disabled),
        ]
    );
    assert_eq!(spec.name, "foo");
    assert_eq!(spec.rename, Some(String::from("bar")));
    assert_eq!(spec.to_string(), "static:+whole-archive,-bundle=foo:bar");

    let plain = RustcLinkSpec::parse("ssl");
    assert_eq!(plain.kind, None);
    assert!(plain.modifiers.is_empty());
    assert_eq!(plain.name, "ssl");
    assert_eq!(plain.rename, None);
    assert_eq!(plain.to_string(), "ssl");

    let kind_only = RustcLinkSpec::parse("dylib=z");
    assert_eq!(kind_only.kind, Some(RustcLinkKind::Dylib));
    assert_eq!(kind_only.to_string(), "dylib=z");
}

#[test]
fn emit_and_print_specs_split_at_the_first_equals() {
    let emit = RustcEmitSpec::parse("link=out/a=b");
    assert_eq!(emit.format, RustcEmitFormat::Link);
    assert_eq!(emit.file, Some(String::from("out/a=b")));
    assert_eq!(emit.to_string(), "link=out/a=b");
    let bare = RustcEmitSpec::parse("metadata");
    assert_eq!(bare.file, None);

    let print = RustcPrintSpec::parse("cfg=out.txt");
    assert_eq!(print.info, RustcPrintInfo::Cfg);
    assert_eq!(print.target, RustcPrintTarget::File(String::from("out.txt")));
    assert_eq!(print.to_string(), "cfg=out.txt");
    let stdout = RustcPrintSpec::parse("sysroot");
    assert_eq!(stdout.target, RustcPrintTarget::Stdout);
    assert_eq!(stdout.to_string(), "sysroot");
    assert_eq!(RustcPrintTarget::parse(""), RustcPrintTarget::Stdout);
}

#[test]
fn codegen_options_parse_levels() {
    assert_eq!(RustcCodegenOption::parse("debuginfo=2").unwrap(), RustcCodegenOption::Debuginfo(2));
    assert_eq!(RustcCodegenOption::parse("debuginfo=x").unwrap_err().0, "debuginfo=x");
    assert!(RustcCodegenOption::parse("debuginfo=256").is_err());
    assert_eq!(
        RustcCodegenOption::parse("opt-level=s").unwrap(),
        RustcCodegenOption::OptLevel(String::from("s"))
    );
    assert_eq!(
        RustcCodegenOption::parse("panic=abort").unwrap(),
        RustcCodegenOption::Other(String::from("panic"), Some(String::from("abort")))
    );
    assert_eq!(
        RustcCodegenOption::parse("lto").unwrap(),
        RustcCodegenOption::Other(String::from("lto"), None)
    );
    assert_eq!(RustcCodegenOption::Debuginfo(2).to_string(), "debuginfo=2");
    assert_eq!(RustcCodegenOption::parse("debuginfo=+02").unwrap().to_string(), "debuginfo=2");
}
