use hurry::cargo::cache::{
    plan_restore, save_progress, save_requests, CachedUnit, PendingKeys, PlannedUnit, RestorePlanError,
    Restored, SaveFile, SaveUnit, UnitKind, UnitRestoreAction,
};
use hurry::cargo::rustc::{is_cross_glibc, triple_uses_glibc, RustcTarget};
use hurry::hash::Blake3;

fn key_of(n: u8) -> Blake3 {
    Blake3([n; 32])
}

fn unit(hash: &str, keys: &[u8]) -> SaveUnit {
    let files = keys.iter().map(|k| SaveFile { key: key_of(*k), size: u64::from(*k) }).collect();
    SaveUnit::new(String::from(hash), files)
}

#[test]
fn save_requests_cover_each_unit_not_restored_in_order() {
    let mut units = vec![unit("a", &[1, 2]), unit("b", &[3]), unit("c", &[4]), unit("d", &[2, 5])];
    units[2].unsupported = true;
    let skip = Restored { units: vec![String::from("b")], files: vec![key_of(2)] };
    let requests = save_requests(&units, &skip);
    let names: Vec<&str> = requests.iter().map(|r| r.unit_hash.as_str()).collect();
    assert_eq!(names, vec!["a", "d"]);
    assert_eq!(requests[0].object_keys, vec![key_of(1), key_of(2)]);
    assert_eq!(requests[1].object_keys, vec![key_of(2), key_of(5)]);
    let (reports, plans) = save_progress(&units, &skip);
    assert_eq!(reports.last().unwrap().uploaded_units, requests.len() as u64);
    assert_eq!(plans, vec![vec![0], vec![], vec![], vec![1]]);
}

#[test]
fn save_requests_of_nothing_restored_keep_every_unit() {
    let units = vec![unit("x", &[]), unit("y", &[7])];
    let skip = Restored { units: vec![], files: vec![] };
    let requests = save_requests(&units, &skip);
    assert_eq!(requests.len(), 2);
    assert!(requests[0].object_keys.is_empty());
}

#[test]
fn glibc_targets_are_recognised() {
    assert!(triple_uses_glibc("x86_64-unknown-linux-gnu"));
    assert!(triple_uses_glibc("arm-unknown-linux-gnueabihf"));
    assert!(!triple_uses_glibc("x86_64-unknown-linux-musl"));
    assert!(!triple_uses_glibc("aarch64-apple-darwin"));
    assert!(!triple_uses_glibc("x86_64-pc-windows-gnu"));
}

#[test]
fn cross_compiled_glibc_units_are_unsupported() {
    let host = "x86_64-unknown-linux-gnu";
    let other = RustcTarget::Specified(String::from("aarch64-unknown-linux-gnu"));
    let same = RustcTarget::Specified(String::from(host));
    let musl = RustcTarget::Specified(String::from("x86_64-unknown-linux-musl"));
    assert!(is_cross_glibc(&other, host));
    assert!(!is_cross_glibc(&same, host));
    assert!(!is_cross_glibc(&RustcTarget::ImplicitHost, host));
    assert!(!is_cross_glibc(&musl, host));
    assert!(!is_cross_glibc(&other, "aarch64-unknown-linux-gnu"));
    let u = SaveUnit::for_storage(String::from("u"), vec![], &other, host);
    assert!(u.unsupported);
    let v = SaveUnit::for_storage(String::from("v"), vec![], &RustcTarget::ImplicitHost, host);
    assert!(!v.unsupported);
}

fn planned(hash: &str, kind: UnitKind, fresh: bool) -> PlannedUnit {
    PlannedUnit { unit_hash: String::from(hash), kind, fresh }
}

fn cached(hash: &str, kind: UnitKind, keys: &[u8]) -> CachedUnit {
    CachedUnit { unit_hash: String::from(hash), kind, files: keys.iter().map(|k| key_of(*k)).collect() }
}

#[test]
fn restore_plan_restores_cached_units_and_keeps_fresh_ones() {
    let plan = vec![
        planned("fresh-missing", UnitKind::LibraryCrate, true),
        planned("lib", UnitKind::LibraryCrate, false),
        planned("fresh-cached", UnitKind::BuildScriptCompilation, true),
        planned("gone", UnitKind::BuildScriptExecution, false),
        planned("run", UnitKind::BuildScriptExecution, false),
    ];
    let answer = vec![
        cached("run", UnitKind::BuildScriptExecution, &[7]),
        cached("lib", UnitKind::LibraryCrate, &[1, 2]),
        cached("fresh-cached", UnitKind::LibraryCrate, &[3]),
    ];
    let p = plan_restore(&plan, &answer).unwrap();
    assert_eq!(
        p.actions,
        vec![
            UnitRestoreAction::Missing { touch: true },
            UnitRestoreAction::Restore { mtime_secs: 1 },
            UnitRestoreAction::KeepLocal { mtime_secs: 2 },
            UnitRestoreAction::Missing { touch: false },
            UnitRestoreAction::Restore { mtime_secs: 4 },
        ]
    );
    assert_eq!(p.files, vec![vec![], vec![key_of(1), key_of(2)], vec![], vec![], vec![key_of(7)]]);
    let mut restored = p.restored_units.clone();
    restored.sort();
    assert_eq!(restored, vec!["fresh-cached", "fresh-missing", "lib", "run"]);
}

#[test]
fn restore_plan_fails_on_a_kind_mismatch() {
    let plan = vec![
        planned("ok", UnitKind::LibraryCrate, false),
        planned("bad", UnitKind::BuildScriptCompilation, false),
        planned("worse", UnitKind::LibraryCrate, false),
    ];
    let answer = vec![
        cached("ok", UnitKind::LibraryCrate, &[1]),
        cached("bad", UnitKind::LibraryCrate, &[2]),
        cached("worse", UnitKind::BuildScriptExecution, &[3]),
    ];
    assert_eq!(plan_restore(&plan, &answer).unwrap_err(), RestorePlanError::KindMismatch { index: 1 });
}

#[test]
fn restore_plan_lists_each_restored_unit_once() {
    let plan = vec![planned("u", UnitKind::LibraryCrate, false), planned("u", UnitKind::LibraryCrate, true)];
    let answer = vec![cached("u", UnitKind::LibraryCrate, &[1])];
    let p = plan_restore(&plan, &answer).unwrap();
    assert_eq!(p.restored_units, vec!["u"]);
    assert_eq!(p.actions[1], UnitRestoreAction::Missing { touch: true });
}

#[test]
fn restored_records_each_unit_and_key_once() {
    let mut r = Restored::new();
    r.add_unit("a");
    r.add_unit("b");
    r.add_unit("a");
    r.add_file(&key_of(1));
    r.add_file(&key_of(1));
    r.add_file(&key_of(2));
    assert_eq!(r.units, vec!["a", "b"]);
    assert_eq!(r.files, vec![key_of(1), key_of(2)]);
}

#[test]
fn pending_keys_hold_each_key_once() {
    let mut p = PendingKeys::new(String::from("u"), &[key_of(1), key_of(2), key_of(1)]);
    assert_eq!(p.keys, vec![key_of(1), key_of(2)]);
    assert!(!p.key_restored(&key_of(1)));
    assert!(p.key_restored(&key_of(2)));
}
