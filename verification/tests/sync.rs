use engine::installed::InstalledContent;
use engine::provider::ContentKind;
use engine::sync::{installs_into_instance, only_candidate, players_packs, replay_at_exit, selector};

fn names(items: &[&str]) -> Vec<String> {
    items.iter().map(|s| s.to_string()).collect()
}

#[test]
fn the_one_instance_with_the_files_seeds_the_unit() {
    let n = names(&["Main", "Modded", "Old"]);
    assert_eq!(only_candidate(&vec![false, true, false], &n), Ok(Some(1)));
    assert_eq!(only_candidate(&vec![false, false, false], &n), Ok(None));
}

#[test]
fn several_candidates_make_the_user_pick() {
    let n = names(&["Main", "Modded", "Old"]);
    assert_eq!(
        only_candidate(&vec![true, false, true], &n),
        Err(names(&["Main", "Old"]))
    );
}

#[test]
fn only_the_last_session_out_replays_the_pass() {
    assert!(replay_at_exit(0));
    assert!(!replay_at_exit(1));
}

fn item(project: &str, filename: &str, origin: &str) -> InstalledContent {
    InstalledContent {
        kind: ContentKind::ResourcePack,
        source: "modrinth".to_string(),
        project_id: project.to_string(),
        slug: String::new(),
        title: filename.to_string(),
        version_id: String::new(),
        version_number: String::new(),
        filename: filename.to_string(),
        sha1: String::new(),
        url: String::new(),
        icon_url: String::new(),
        installed_unix: 0,
        worlds: Vec::new(),
        origin: origin.to_string(),
        enabled: false,
        disabled_worlds: Vec::new(),
    }
}

#[test]
fn content_a_modpack_supplied_stays_out_of_the_library() {
    let installed = vec![
        item("abc", "faithful.zip", ""),
        item("def", "pack-bundled.zip", "modpack:xyz"),
        item("", "local.zip", ""),
    ];
    let packs = players_packs(&installed);
    assert_eq!(packs.len(), 2);
    assert_eq!(packs[0].project, "abc");
    assert!(!packs[0].enabled);
    assert_eq!(selector(&packs[0]), "abc");
    assert_eq!(selector(&packs[1]), "local.zip", "a pack with no project is named by its file");
}

#[test]
fn datapacks_travel_but_are_not_installed() {
    assert!(!installs_into_instance(ContentKind::DataPack));
    assert!(installs_into_instance(ContentKind::ResourcePack));
}
