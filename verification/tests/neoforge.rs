use engine::neoforge::{
    artifact, artifact_versions, builds_for, catalogue, game_version, installer_url, is_legacy,
    server_args_file, CatalogueError,
};

#[test]
fn a_version_names_the_game_version_it_targets() {
    assert_eq!(game_version("21.1.244").as_deref(), Some("1.21.1"));
    assert_eq!(game_version("20.2.29-beta").as_deref(), Some("1.20.2"));
    assert_eq!(game_version("20.6.119").as_deref(), Some("1.20.6"));
    assert_eq!(
        game_version("21.0.167").as_deref(),
        Some("1.21"),
        "a zero patch is the .0 release, not 1.21.0"
    );
}

#[test]
fn calendar_versions_take_the_year_scheme() {
    assert_eq!(game_version("26.1.2.84").as_deref(), Some("26.1.2"));
    assert_eq!(
        game_version("26.2.0.35-beta").as_deref(),
        Some("26.2"),
        "a zero hotfix drops, as a zero patch does"
    );
    assert_eq!(game_version("26.1.0.5-beta").as_deref(), Some("26.1"));
}

#[test]
fn build_metadata_names_the_prerelease_a_build_targets() {
    assert_eq!(
        game_version("26.1.0.0-alpha.14+snapshot-11").as_deref(),
        Some("26.1-snapshot-11"),
        "an alpha belongs to the snapshot it was built against, not to 26.1"
    );
    assert_eq!(
        game_version("26.1.0.0-alpha.15+pre-3").as_deref(),
        Some("26.1-pre-3")
    );
}

#[test]
fn the_legacy_line_leads_with_the_game_version_it_is_for() {
    assert_eq!(game_version("1.20.1-47.1.106").as_deref(), Some("1.20.1"));
    assert!(is_legacy("1.20.1-47.1.106"));
    assert!(
        !is_legacy("21.1.244"),
        "the modern line leads with the minor"
    );
    assert!(!is_legacy("26.2.0.37-beta"), "nor does the calendar line");
}

#[test]
fn each_line_names_its_own_maven_artifact() {
    assert_eq!(artifact("1.20.1-47.1.106"), "forge");
    assert_eq!(artifact("21.1.244"), "neoforge");
    assert_eq!(
        installer_url("1.20.1-47.1.106"),
        "https://maven.neoforged.net/releases/net/neoforged/forge/1.20.1-47.1.106/forge-1.20.1-47.1.106-installer.jar"
    );
    assert_eq!(
        installer_url("21.1.244"),
        "https://maven.neoforged.net/releases/net/neoforged/neoforge/21.1.244/neoforge-21.1.244-installer.jar"
    );
}

#[test]
fn an_unparseable_version_names_nothing() {
    assert_eq!(game_version("nonsense"), None);
    assert_eq!(game_version("21"), None, "a game version needs two fields");
    assert_eq!(
        game_version("26.1"),
        None,
        "the year scheme needs its hotfix field"
    );
}

#[test]
fn the_craftmine_artifact_maps_to_no_real_version() {
    assert_eq!(
        game_version("0.25w14craftmine.5-beta").as_deref(),
        Some("1.0.25w14craftmine")
    );
}

#[test]
fn the_metadata_lists_every_version_element() {
    let body = "<metadata><versioning><versions>\n<version>21.1.1</version>\n<version> 21.1.2 </version><version></version>\n</versions></versioning></metadata>";
    assert_eq!(artifact_versions(body), ["21.1.1", "21.1.2"]);
    assert!(artifact_versions("no tags").is_empty());
}

#[test]
fn the_catalogue_drops_uninstallable_builds_and_refuses_emptiness() {
    let legacy = vec!["1.20.1-47.1.7".to_string(), "1.20.1-47.1.106".to_string()];
    let modern = vec!["47.1.82".to_string(), "21.1.244".to_string()];
    assert_eq!(catalogue(legacy, modern).unwrap(), ["1.20.1-47.1.106", "21.1.244"]);
    assert_eq!(catalogue(vec!["47.1.82".to_string()], vec![]), Err(CatalogueError::NoVersions));
}

#[test]
fn builds_for_a_game_are_newest_first() {
    let versions: Vec<String> = ["21.1.1", "21.0.3", "21.1.2"].iter().map(|s| s.to_string()).collect();
    assert_eq!(builds_for(&versions, "1.21.1"), ["21.1.2", "21.1.1"]);
    assert_eq!(
        server_args_file("21.1.244", false),
        "libraries/net/neoforged/neoforge/21.1.244/unix_args.txt"
    );
    assert_eq!(
        server_args_file("1.20.1-47.1.106", true),
        "libraries/net/neoforged/forge/1.20.1-47.1.106/win_args.txt"
    );
}
