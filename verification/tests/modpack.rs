use engine::content::{managed_kind, pack_display_name, pack_entry_name, side_gate, stale_overrides, SideSupport};
use engine::provider::{accepted_kinds, ContentKind, Side};

fn flat_dirs_are_managed() {
    assert_eq!(managed_kind("mods/sodium.jar"), Some(ContentKind::Mod));
    assert_eq!(managed_kind("plugins/essentials.jar"), Some(ContentKind::Plugin));
    assert_eq!(managed_kind("resourcepacks/cozy.zip"), Some(ContentKind::ResourcePack));
    assert_eq!(managed_kind("shaderpacks/bsl.zip"), Some(ContentKind::Shader));
}

fn nested_and_other_paths_are_not() {
    // The managed dirs are flat, so a nested path cannot be mirrored.
    assert_eq!(managed_kind("mods/1.21/sodium.jar"), None);
    assert_eq!(managed_kind("config/sodium.json"), None);
    assert_eq!(managed_kind("options.txt"), None);
    assert_eq!(managed_kind("mods"), None);
    assert_eq!(managed_kind("mods/"), None);
}

fn strings(items: &[&str]) -> Vec<String> {
    items.iter().map(|s| s.to_string()).collect()
}

fn only_dropped_files_are_stale() {
    let stale = stale_overrides(
        &strings(&["config/a.toml", "config/b.toml"]),
        &strings(&["config/a.toml", "config/c.toml"]),
    );
    assert_eq!(stale.len(), 1);
    assert_eq!(stale[0], "config/b.toml");
}

fn the_given_name_wins() {
    assert_eq!(pack_entry_name("", "Fabulously Optimized"), "Fabulously Optimized");
    assert_eq!(pack_entry_name("  my pack ", "Fabulously Optimized"), "my pack");
}

#[test]
fn modpack_a_flat_load_dir_file_is_managed_content() {
    flat_dirs_are_managed();
}

#[test]
fn apply_a_flat_load_dir_file_is_managed_content() {
    flat_dirs_are_managed();
}

#[test]
fn modpack_anything_else_is_a_game_directory_file() {
    nested_and_other_paths_are_not();
}

#[test]
fn apply_anything_else_is_a_game_directory_file() {
    nested_and_other_paths_are_not();
}

#[test]
fn modpack_an_update_marks_only_the_files_the_new_pack_dropped() {
    only_dropped_files_are_stale();
}

#[test]
fn apply_an_update_marks_only_the_files_the_new_pack_dropped() {
    only_dropped_files_are_stale();
}

#[test]
fn modpack_an_entry_takes_the_packs_name_only_when_none_was_given() {
    the_given_name_wins();
}

#[test]
fn mod_an_entry_takes_the_packs_name_only_when_none_was_given() {
    the_given_name_wins();
}

#[test]
fn a_pack_with_no_name_of_its_own_takes_the_projects() {
    assert_eq!(pack_display_name("", Some("Cozy")), "Cozy");
    assert_eq!(pack_display_name("", None), "modpack");
}

fn kinds_by_side_and_flavor() {
    assert_eq!(
        accepted_kinds(Side::Server, Some(ContentKind::Plugin)),
        vec![ContentKind::Plugin, ContentKind::DataPack],
        "a paper or spigot server takes plugins, never mods"
    );
    assert_eq!(
        accepted_kinds(Side::Server, Some(ContentKind::Mod)),
        vec![ContentKind::Mod, ContentKind::DataPack]
    );
    assert_eq!(
        accepted_kinds(Side::Server, None),
        vec![ContentKind::DataPack],
        "vanilla loads nothing of its own, but a world still takes datapacks"
    );
    assert_eq!(
        accepted_kinds(Side::Client, None),
        vec![ContentKind::ResourcePack, ContentKind::Shader, ContentKind::DataPack],
        "a client reads packs whatever its flavor loads"
    );
}

#[test]
fn entry_a_flavor_contributes_its_loader_kind_and_the_side_the_rest() {
    kinds_by_side_and_flavor();
}

#[test]
fn provider_a_flavor_contributes_its_loader_kind_and_the_side_the_rest() {
    kinds_by_side_and_flavor();
}

#[test]
fn side_gate_waives_datapacks_by_requested_kind() {
    // Modrinth types datapacks as mod projects, often client-unsupported.
    assert!(side_gate(ContentKind::DataPack, "Pack", SideSupport::Unknown, SideSupport::Unsupported, Side::Client).is_ok());
    assert!(side_gate(ContentKind::Mod, "Pack", SideSupport::Unknown, SideSupport::Unsupported, Side::Client).is_err());
}
