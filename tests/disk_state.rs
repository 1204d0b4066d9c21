use disk_state::{
    delete_unknown_disk_state, finish_initialization, is_deferred, plan_initialization,
    plan_initialization_at, stamp_metadata, current_timestamp, timestamp_text, timestamp_key_string, versions_fingerprint,
    CacheEntry, ConfigError, DiskStateOptions, InitError, InitStep, MaterializationMethod,
    ReconcileError, StringTable,
};

fn dir(name: &str) -> CacheEntry {
    CacheEntry { name: Some(name.to_owned()), is_dir: true }
}

fn file(name: &str) -> CacheEntry {
    CacheEntry { name: Some(name.to_owned()), is_dir: false }
}

fn names(v: &[&str]) -> Vec<String> {
    v.iter().map(|s| s.to_string()).collect()
}

fn config_error() -> ConfigError {
    ConfigError {
        section: "buck2".to_owned(),
        key: "sqlite_materializer_state".to_owned(),
        message: "not a rollout percentage".to_owned(),
    }
}

#[test]
fn test_delete_all_from_cache_dir() {
    let entries = vec![dir("materializer_state"), dir("command_hashes")];
    let plan = delete_unknown_disk_state(&entries, &vec![]);
    assert_eq!(plan.error, None);
    assert_eq!(plan.to_delete, names(&["materializer_state", "command_hashes"]));
}

#[test]
fn test_delete_from_cache_dir_with_known_dirs() {
    let entries = vec![dir("materializer_state"), dir("command_hashes")];
    let plan = delete_unknown_disk_state(&entries, &names(&["materializer_state"]));
    assert_eq!(plan.error, None);
    assert_eq!(plan.to_delete, names(&["command_hashes"]));
    assert!(!plan.to_delete.contains(&"materializer_state".to_owned()));
}

#[test]
fn known_name_that_is_not_a_directory_is_deleted() {
    let entries = vec![file("materializer_state"), dir("materializer_state_old")];
    let plan = delete_unknown_disk_state(&entries, &names(&["materializer_state"]));
    assert_eq!(plan.error, None);
    assert_eq!(plan.to_delete, names(&["materializer_state", "materializer_state_old"]));
}

#[test]
fn undecodable_name_stops_after_earlier_deletions() {
    let entries = vec![
        dir("stale"),
        dir("materializer_state"),
        CacheEntry { name: None, is_dir: true },
        dir("later"),
    ];
    let plan = delete_unknown_disk_state(&entries, &names(&["materializer_state"]));
    assert_eq!(plan.error, Some(ReconcileError::NonUtf8Name));
    assert_eq!(plan.to_delete, names(&["stale"]));
}

#[test]
fn empty_cache_dir_deletes_nothing() {
    let plan = delete_unknown_disk_state(&vec![], &names(&["materializer_state"]));
    assert_eq!(plan.error, None);
    assert!(plan.to_delete.is_empty());
}

#[test]
fn reconciling_twice_deletes_nothing_more() {
    let known = names(&["materializer_state", "command_hashes"]);
    let entries = vec![dir("materializer_state"), file("command_hashes"), dir("x"), dir("command_hashes2")];
    let first = delete_unknown_disk_state(&entries, &known);
    assert_eq!(first.to_delete, names(&["command_hashes", "x", "command_hashes2"]));
    let after: Vec<CacheEntry> = entries
        .into_iter()
        .filter(|e| !first.to_delete.contains(e.name.as_ref().unwrap()))
        .collect();
    assert_eq!(after, vec![dir("materializer_state")]);
    let second = delete_unknown_disk_state(&after, &known);
    assert_eq!(second.error, None);
    assert!(second.to_delete.is_empty());
}

#[test]
fn immediate_materialization_is_never_enabled() {
    for rollout in [Ok(Some(true)), Ok(Some(false)), Ok(None), Err(config_error())] {
        let r = DiskStateOptions::new(MaterializationMethod::Immediate, rollout);
        assert_eq!(r, Ok(DiskStateOptions { sqlite_materializer_state: false }));
    }
    let r = DiskStateOptions::new(MaterializationMethod::Eden, Ok(Some(true)));
    assert_eq!(r, Ok(DiskStateOptions { sqlite_materializer_state: false }));
}

#[test]
fn deferred_materialization_follows_the_roll() {
    for m in [MaterializationMethod::Deferred, MaterializationMethod::DeferredSkipFinalArtifacts] {
        assert!(is_deferred(m));
        assert_eq!(
            DiskStateOptions::new(m, Ok(Some(true))),
            Ok(DiskStateOptions { sqlite_materializer_state: true })
        );
        assert_eq!(
            DiskStateOptions::new(m, Ok(Some(false))),
            Ok(DiskStateOptions { sqlite_materializer_state: false })
        );
        assert_eq!(
            DiskStateOptions::new(m, Ok(None)),
            Ok(DiskStateOptions { sqlite_materializer_state: false })
        );
    }
}

#[test]
fn malformed_rollout_setting_is_an_error() {
    let r = DiskStateOptions::new(MaterializationMethod::Deferred, Err(config_error()));
    assert_eq!(r, Err(config_error()));
}

#[test]
fn string_table_insert_replaces() {
    let mut t = StringTable::new();
    assert_eq!(t.get(&"a".to_owned()), None);
    t.insert("a".to_owned(), "1".to_owned());
    t.insert("b".to_owned(), "2".to_owned());
    t.insert("a".to_owned(), "3".to_owned());
    assert_eq!(t.get(&"a".to_owned()), Some("3".to_owned()));
    assert_eq!(t.get(&"b".to_owned()), Some("2".to_owned()));
    assert_eq!(t.to_pairs().len(), 2);
}

#[test]
fn string_table_from_pairs_keeps_the_last_value() {
    let t = StringTable::from_pairs(vec![
        ("k".to_owned(), "old".to_owned()),
        ("j".to_owned(), "x".to_owned()),
        ("k".to_owned(), "new".to_owned()),
    ]);
    assert_eq!(t.get(&"k".to_owned()), Some("new".to_owned()));
    let mut pairs = t.to_pairs();
    pairs.sort();
    assert_eq!(
        pairs,
        vec![("j".to_owned(), "x".to_owned()), ("k".to_owned(), "new".to_owned())]
    );
}

#[test]
fn fingerprint_holds_every_compatibility_key() {
    let v = versions_fingerprint(123, true, Some("v7".to_owned()), Some("host-1".to_owned()));
    assert_eq!(v.get(&"schema_version".to_owned()), Some("123".to_owned()));
    assert_eq!(v.get(&"defer_write_actions".to_owned()), Some("true".to_owned()));
    assert_eq!(v.get(&"buckconfig_version".to_owned()), Some("v7".to_owned()));
    assert_eq!(v.get(&"hostname".to_owned()), Some("host-1".to_owned()));
    assert_eq!(v.to_pairs().len(), 4);
}

#[test]
fn fingerprint_without_optional_keys() {
    let v = versions_fingerprint(0, false, None, None);
    assert_eq!(v.get(&"schema_version".to_owned()), Some("0".to_owned()));
    assert_eq!(v.get(&"defer_write_actions".to_owned()), Some("false".to_owned()));
    assert_eq!(v.get(&"buckconfig_version".to_owned()), None);
    assert_eq!(v.get(&"hostname".to_owned()), None);
    assert_eq!(v.to_pairs().len(), 2);
}

#[test]
fn fingerprint_changes_with_schema_version() {
    let a = versions_fingerprint(10, false, None, None);
    let b = versions_fingerprint(1, false, None, None);
    assert_ne!(a.get(&"schema_version".to_owned()), b.get(&"schema_version".to_owned()));
}

#[test]
fn stamping_records_the_timestamp() {
    let mut collected = StringTable::new();
    collected.insert("hostname".to_owned(), "h".to_owned());
    let m = stamp_metadata(collected, "2024-01-02T03:04:05+00:00".to_owned());
    assert_eq!(timestamp_key_string(), "timestamp_on_initialization");
    assert_eq!(m.get(&timestamp_key_string()), Some("2024-01-02T03:04:05+00:00".to_owned()));
    assert_eq!(m.get(&"hostname".to_owned()), Some("h".to_owned()));
}

#[test]
fn disabled_feature_removes_the_state_path() {
    let options = DiskStateOptions { sqlite_materializer_state: false };
    let step = plan_initialization_at(options, 3, false, None, StringTable::new(), "t".to_owned());
    assert!(matches!(step, InitStep::RemoveStatePath));
    let step = plan_initialization(options, 3, false, None, StringTable::new());
    assert!(matches!(step, Ok(InitStep::RemoveStatePath)));
}

#[test]
fn enabled_feature_opens_the_store() {
    let options = DiskStateOptions { sqlite_materializer_state: true };
    let mut collected = StringTable::new();
    collected.insert("hostname".to_owned(), "devbox".to_owned());
    collected.insert("user".to_owned(), "u".to_owned());
    let step = plan_initialization_at(options, 42, true, None, collected, "ts".to_owned());
    match step {
        InitStep::OpenStore { versions, metadata } => {
            assert_eq!(metadata.get(&timestamp_key_string()), Some("ts".to_owned()));
            assert_eq!(metadata.get(&"user".to_owned()), Some("u".to_owned()));
            assert_eq!(versions.get(&"hostname".to_owned()), Some("devbox".to_owned()));
            assert_eq!(versions.get(&"schema_version".to_owned()), Some("42".to_owned()));
        }
        InitStep::RemoveStatePath => panic!("expected the store to be opened"),
    }
}

#[test]
fn enabled_feature_stamps_the_current_time() {
    let options = DiskStateOptions { sqlite_materializer_state: true };
    match plan_initialization(options, 1, false, None, StringTable::new()).unwrap() {
        InitStep::OpenStore { versions, metadata } => {
            let ts = metadata.get(&timestamp_key_string()).unwrap();
            assert!(ts.len() >= 20);
            assert!(ts.contains('T'));
            assert_eq!(versions.get(&"hostname".to_owned()), None);
        }
        InitStep::RemoveStatePath => panic!("expected the store to be opened"),
    }
}

#[test]
fn failed_load_yields_no_prior_state() {
    let r = finish_initialization::<u8, Vec<u8>, String, String>(
        7,
        Ok(Some("ts".to_owned())),
        Err("version mismatch".to_owned()),
    );
    let (db, identity, prior) = r.unwrap();
    assert_eq!(db, 7);
    assert_eq!(identity.to_string(), "ts");
    assert_eq!(prior, None);
}

#[test]
fn successful_load_yields_prior_state() {
    let r = finish_initialization::<u8, Vec<u8>, String, String>(
        7,
        Ok(Some("ts".to_owned())),
        Ok(vec![1, 2]),
    );
    assert_eq!(r.unwrap().2, Some(vec![1, 2]));
}

#[test]
fn same_creation_timestamp_gives_same_identity() {
    let a = finish_initialization::<u8, u8, (), ()>(1, Ok(Some("t0".to_owned())), Ok(1)).unwrap();
    let b = finish_initialization::<u8, u8, (), ()>(1, Ok(Some("t0".to_owned())), Err(())).unwrap();
    assert_eq!(a.1, b.1);
}

#[test]
fn missing_timestamp_is_an_error() {
    let r = finish_initialization::<u8, u8, (), String>(1, Ok(None), Ok(1));
    assert_eq!(r.err(), Some(InitError::MissingTimestamp));
    let r = finish_initialization::<u8, u8, (), String>(1, Err("io".to_owned()), Ok(1));
    assert_eq!(r.err(), Some(InitError::ReadCreationMetadata("io".to_owned())));
}

#[test]
fn current_time_is_rfc3339_text() {
    let ts = current_timestamp().unwrap();
    assert!(ts.len() >= 20);
    assert_eq!(&ts[4..5], "-");
    assert_eq!(&ts[10..11], "T");
    assert!(ts.ends_with("+00:00"));
}

#[test]
fn timestamp_text_of_known_instants() {
    assert_eq!(timestamp_text(0, 0), Some("1970-01-01T00:00:00+00:00".to_owned()));
    assert_eq!(
        timestamp_text(1_700_000_000, 500_000_000),
        Some("2023-11-14T22:13:20.500+00:00".to_owned())
    );
    assert_eq!(timestamp_text(u64::MAX, 0), None);
    assert_eq!(timestamp_text(i64::MAX as u64, 0), None);
}
