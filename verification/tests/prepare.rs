use engine::materialize::MaterializeError;
use engine::meta::{GameVersion, VersionKind};
use engine::prepare::{
    downgrade_between, guard_downgrade, java_missing, launch_layout, match_account, AccountRef,
};

fn catalogue(ids: &[&str]) -> Vec<GameVersion> {
    ids.iter()
        .map(|id| GameVersion { id: id.to_string(), kind: VersionKind::Release, stable: true })
        .collect()
}

#[test]
fn a_downgrade_is_read_off_the_newest_first_catalogue() {
    let versions = catalogue(&["1.21.4", "1.21.1", "1.20.6"]);
    assert_eq!(downgrade_between(&versions, "1.21.4", "1.20.6"), Some(true));
    assert_eq!(downgrade_between(&versions, "1.20.6", "1.21.4"), Some(false));
    assert_eq!(downgrade_between(&versions, "1.21.1", "1.21.1"), Some(false));
    assert_eq!(downgrade_between(&versions, "1.8.9", "1.21.4"), None, "unlisted is undecidable");
}

#[test]
fn an_unconfirmed_downgrade_is_refused_by_name() {
    let versions = catalogue(&["1.21.4", "1.21.1"]);
    let e = guard_downgrade("world", "Survival", "1.21.4", "1.21.1", &versions, false).unwrap_err();
    assert_eq!(
        e.message(),
        "moving 'Survival' from 1.21.4 back to 1.21.1 is a downgrade, and Minecraft cannot load \
         world written by a newer version; confirm the downgrade to proceed"
    );
    assert!(guard_downgrade("world", "Survival", "1.21.4", "1.21.1", &versions, true).is_ok());
    assert!(guard_downgrade("saves", "Main", "1.21.1", "1.21.4", &versions, false).is_ok());
    assert!(guard_downgrade("saves", "Main", "1.21.4", "b1.7.3", &versions, false).is_ok());
}

#[test]
fn a_launch_keeps_mojangs_jar_layout_and_a_log_per_session() {
    let l = launch_layout("/data/meta", "/data/instances/abc", "1.21.1", 3).unwrap();
    assert_eq!(l.client_jar, "/data/meta/versions/1.21.1/1.21.1.jar");
    assert_eq!(l.libraries_root, "/data/meta/libraries");
    assert_eq!(l.assets_root, "/data/meta/assets");
    assert_eq!(l.natives_dir, "/data/meta/natives/1.21.1");
    assert_eq!(l.logs_dir, "/data/instances/abc/logs");
    assert_eq!(l.log_file, "/data/instances/abc/logs/session-3.log");
    assert_eq!(l.log_config, "/data/instances/abc/logs/session-3.xml");
    assert_eq!(
        launch_layout("/m", "/i", "../x", 0).unwrap_err(),
        MaterializeError::UnsafeFilename("../x".to_string())
    );
}

#[test]
fn an_account_answers_to_its_name_in_any_case_or_its_uuid() {
    let accounts = vec![
        AccountRef { name: "Steve".into(), uuid: "u-1".into() },
        AccountRef { name: "Alex".into(), uuid: "u-2".into() },
    ];
    assert_eq!(match_account(&accounts, "alex"), Some(1));
    assert_eq!(match_account(&accounts, "STEVE"), Some(0));
    assert_eq!(match_account(&accounts, "u-2"), Some(1));
    assert_eq!(match_account(&accounts, "U-2"), None, "a uuid matches exactly");
    assert_eq!(match_account(&accounts, "Herobrine"), None);
}

#[test]
fn a_missing_runtime_names_the_install_command() {
    assert_eq!(java_missing(21), "java 21 is not installed (run `hestia java install 21`)");
}
