use engine::content::{content_target, kind_dir, managed_kind, origin_owner, pick_name, safe_name};
use engine::provider::ContentKind;

#[test]
fn a_refusal_names_whatever_owns_the_item() {
    assert_eq!(origin_owner("profile:starter"), "global profile 'starter'");
    assert_eq!(origin_owner("modpack:1KVo5zza"), "modpack '1KVo5zza'");
}

#[test]
fn a_name_that_climbs_out_of_the_folder_is_refused() {
    assert!(safe_name("shot.png").is_ok());
    for name in ["", "../shot.png", "a/b.png", "..\\b.png"] {
        assert!(safe_name(name).is_err(), "{name}");
    }
}

#[test]
fn the_requested_name_wins_over_the_archives_own() {
    assert_eq!(pick_name(" Mine ", "Cozy Pack"), "Mine");
    assert_eq!(pick_name("", "Cozy Pack"), "Cozy Pack");
    assert_eq!(pick_name("   ", "Cozy Pack"), "Cozy Pack");
}

#[test]
fn an_origin_without_a_scope_is_quoted_whole() {
    assert_eq!(origin_owner("handmade"), "'handmade'");
}

#[test]
fn a_trimmed_safe_name_is_returned_trimmed() {
    assert_eq!(safe_name("  shot.png ").unwrap(), "shot.png");
}

#[test]
fn targets_route_by_requested_kind_not_project_kind() {
    assert_eq!(
        content_target("/entry", ContentKind::DataPack, "pack.zip"),
        "/entry/datapacks/pack.zip"
    );
    assert_eq!(
        content_target("/entry", ContentKind::Shader, "shader.zip"),
        "/entry/shaderpacks/shader.zip"
    );
}

#[test]
fn a_kinds_directory_reads_back_as_that_kind() {
    for kind in [ContentKind::Mod, ContentKind::Plugin, ContentKind::ResourcePack, ContentKind::Shader] {
        let path = format!("{}/file.jar", kind_dir(kind));
        assert_eq!(managed_kind(&path), Some(kind));
    }
    assert_eq!(managed_kind("datapacks/pack.zip"), None);
    assert_eq!(content_target("/entry/", ContentKind::Mod, "a.jar"), "/entry/mods/a.jar");
}

#[test]
fn a_pack_fits_only_the_flavor_and_version_it_pins() {
    assert_eq!(engine::content::pack_fits("fabric", "1.21.1", "fabric", "1.21.1"), Ok(()));
    let m = engine::content::pack_fits("fabric", "1.21.1", "neoforge", "1.21.1").unwrap_err();
    assert_eq!(m.pack_flavor, "neoforge");
    assert_eq!(m.flavor, "fabric");
    assert!(engine::content::pack_fits("fabric", "1.21.1", "fabric", "1.20.1").is_err());
}

#[test]
fn datapack_worlds_are_checked_then_resolved_once_each() {
    let asked: Vec<String> = [" World One ", "", "World Two", "World One"].iter().map(|s| s.to_string()).collect();
    let names = engine::content::requested_worlds(ContentKind::DataPack, engine::provider::Side::Client, &asked);
    assert_eq!(names, ["World One", "World Two", "World One"]);
    assert_eq!(engine::content::world_dirs(&names), ["saves/World One", "saves/World Two"]);
    assert!(engine::content::requested_worlds(ContentKind::DataPack, engine::provider::Side::Server, &asked).is_empty());
    assert!(engine::content::requested_worlds(ContentKind::Mod, engine::provider::Side::Client, &asked).is_empty());
}
