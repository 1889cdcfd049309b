use engine::stores::{profile_name, ConfigError, InstanceRecord, Instances, Profiles};

#[test]
fn a_setting_written_reads_back_and_an_empty_value_clears_it() {
    let store = Instances::new("/data/instances".to_string());
    let mut record = InstanceRecord::default();
    assert_eq!(store.config_get(&record, "memory"), Ok(None));
    store.config_set(&mut record, "memory", "4g").unwrap();
    assert_eq!(store.config_get(&record, "memory"), Ok(Some("4G".to_string())));
    store.config_set(&mut record, "jvm-args", "-XX:+UseG1GC -Xss1M").unwrap();
    assert_eq!(
        store.config_get(&record, "jvm-args"),
        Ok(Some("-XX:+UseG1GC -Xss1M".to_string()))
    );
    store.config_set(&mut record, "memory", "").unwrap();
    assert_eq!(store.config_get(&record, "memory"), Ok(None));
    let listed = store.config_list(&record);
    assert_eq!(listed.len(), 2);
}

#[test]
fn an_unknown_key_or_bad_value_leaves_the_record_alone() {
    let store = Instances::new("/data/instances".to_string());
    let mut record = InstanceRecord::default();
    assert!(matches!(
        store.config_set(&mut record, "colour", "red"),
        Err(ConfigError::UnknownKey(k)) if k == "colour"
    ));
    assert!(matches!(store.config_set(&mut record, "memory", "lots"), Err(ConfigError::Invalid(_))));
    assert!(matches!(store.config_get(&record, "colour"), Err(ConfigError::UnknownKey(_))));
    assert_eq!(record.jvm.memory, None);
}

#[test]
fn playtime_only_grows_by_positive_sessions() {
    let store = Instances::new("/data/instances".to_string());
    let mut record = InstanceRecord::default();
    assert!(!store.add_playtime(&mut record, 0));
    assert!(!store.add_playtime(&mut record, -5));
    assert!(store.add_playtime(&mut record, 90));
    assert!(store.add_playtime(&mut record, 10));
    assert_eq!(record.playtime_seconds, 100);
    store.mark_launched(&mut record, 1_700_000_000);
    assert_eq!(record.last_played_unix, Some(1_700_000_000));
}

#[test]
fn a_store_can_be_pointed_elsewhere() {
    let mut store = Instances::new("/a".to_string());
    assert_eq!(store.dir(), "/a");
    store.reload("/b".to_string());
    assert_eq!(store.dir(), "/b");
}

#[test]
fn only_json_files_are_profiles() {
    assert_eq!(profile_name("starter.json").as_deref(), Some("starter"));
    assert_eq!(profile_name("a.b.json").as_deref(), Some("a.b"));
    assert_eq!(profile_name(".json"), None);
    assert_eq!(profile_name("notes.txt"), None);
    assert_eq!(profile_name("README"), None);
    let profiles = Profiles::new("/data/profiles".to_string());
    assert_eq!(profiles.file_of("starter"), "/data/profiles/starter.json");
}

#[test]
fn an_unknown_key_is_named_with_the_valid_keys() {
    let store = Instances::new("/data/instances".to_string());
    let record = InstanceRecord::default();
    let err = store.config_get(&record, "colour").unwrap_err();
    assert_eq!(err.message(), "unknown key 'colour' (valid keys: memory, jvm-args)");
}
