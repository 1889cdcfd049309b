use engine::installed::{
    admit_add, keep_worlds, kind_matches, merge_pack_items, needs_update, record_installed, route,
    scope_enabled, target_worlds, update_targets, world_name_of, AddRefusal, InstalledContent, Route,
    UpdatePlan, UpdateRefusal,
};
use engine::provider::{ContentKind, Side};

fn strings(items: &[&str]) -> Vec<String> {
    items.iter().map(|s| s.to_string()).collect()
}

fn item(kind: ContentKind, project: &str, filename: &str) -> InstalledContent {
    InstalledContent {
        kind,
        source: "modrinth".to_string(),
        project_id: project.to_string(),
        slug: String::new(),
        title: filename.to_string(),
        version_id: String::new(),
        version_number: String::new(),
        filename: filename.to_string(),
        sha1: String::new(),
        url: String::new(),
        icon_url: String::new(),
        installed_unix: 0,
        worlds: Vec::new(),
        origin: String::new(),
        enabled: true,
        disabled_worlds: Vec::new(),
    }
}

#[test]
fn scoping_a_world_off_leaves_the_rest_loaded() {
    let entry_worlds = strings(&["saves/one", "saves/two"]);
    let mut pack = item(ContentKind::DataPack, "", "");

    scope_enabled(&mut pack, false, &strings(&["two"]), &entry_worlds);
    assert_eq!(pack.disabled_worlds, strings(&["saves/two"]));
    assert!(pack.enabled, "the item itself stays on");

    scope_enabled(&mut pack, true, &strings(&["two"]), &entry_worlds);
    assert!(pack.disabled_worlds.is_empty());
}

#[test]
fn removing_named_worlds_keeps_the_rest() {
    let entry_worlds = strings(&["saves/one", "saves/two"]);
    let pack = item(ContentKind::DataPack, "", "");
    assert_eq!(keep_worlds(&pack, &strings(&["two"]), &entry_worlds), strings(&["saves/one"]));
    assert!(
        keep_worlds(&pack, &strings(&["one", "two"]), &entry_worlds).is_empty(),
        "no world left means the item goes"
    );
    assert!(
        keep_worlds(&pack, &Vec::new(), &entry_worlds).is_empty(),
        "an unscoped removal takes the item"
    );
}

#[test]
fn an_item_wide_toggle_clears_per_world_exclusions_only_when_enabling() {
    let entry_worlds = strings(&["saves/one", "saves/two"]);
    let mut pack = item(ContentKind::DataPack, "", "");
    scope_enabled(&mut pack, false, &strings(&["one", "two"]), &entry_worlds);
    assert_eq!(pack.disabled_worlds, strings(&["saves/one", "saves/two"]));
    scope_enabled(&mut pack, false, &strings(&["one"]), &entry_worlds);
    assert_eq!(pack.disabled_worlds, strings(&["saves/one", "saves/two"]), "no repeats");
    scope_enabled(&mut pack, false, &Vec::new(), &entry_worlds);
    assert!(!pack.enabled);
    assert_eq!(pack.disabled_worlds.len(), 2);
    scope_enabled(&mut pack, true, &Vec::new(), &entry_worlds);
    assert!(pack.enabled);
    assert!(pack.disabled_worlds.is_empty());
}

#[test]
fn an_own_selection_narrows_the_targets() {
    let entry_worlds = strings(&["saves/one", "saves/two", "saves/three"]);
    let mut pack = item(ContentKind::DataPack, "", "");
    pack.worlds = strings(&["saves/two"]);
    assert_eq!(target_worlds(&pack, &entry_worlds), strings(&["saves/two"]));
    assert!(keep_worlds(&pack, &strings(&["two"]), &entry_worlds).is_empty());
    assert_eq!(keep_worlds(&pack, &strings(&["one"]), &entry_worlds), strings(&["saves/two"]));
    assert_eq!(world_name_of("saves/two"), "two");
    assert_eq!(world_name_of("two"), "two");
}

#[test]
fn a_datapack_request_accepts_a_mod_project() {
    assert!(kind_matches(ContentKind::DataPack, ContentKind::Mod));
    assert!(kind_matches(ContentKind::Mod, ContentKind::Mod));
    assert!(!kind_matches(ContentKind::Mod, ContentKind::DataPack));
}

#[test]
fn an_item_names_exactly_one_source() {
    assert_eq!(route("sodium", "", ""), Route::Project);
    assert_eq!(route("", "https://x/y", ""), Route::Url);
    assert_eq!(route("", "", "/tmp/a.jar"), Route::File);
    assert_eq!(route("", "", ""), Route::Malformed);
    assert_eq!(route("sodium", "https://x/y", ""), Route::Malformed);
}

#[test]
fn a_reinstall_takes_out_its_old_entry_and_appends_the_new() {
    let index = vec![item(ContentKind::Mod, "a", "a-1.jar"), item(ContentKind::Mod, "b", "b-1.jar")];
    let (index, replaced) = record_installed(index, vec![item(ContentKind::Mod, "a", "a-2.jar")]);
    assert_eq!(index.len(), 2);
    assert_eq!(index[0].filename, "b-1.jar");
    assert_eq!(index[1].filename, "a-2.jar");
    assert_eq!(replaced.len(), 1);
    assert_eq!(replaced[0].filename, "a-1.jar");
}

fn owned(kind: ContentKind, project: &str, filename: &str, origin: &str) -> InstalledContent {
    let mut i = item(kind, project, filename);
    i.origin = origin.to_string();
    i
}

#[test]
fn a_pack_update_drops_what_it_no_longer_ships_and_tags_what_it_brings() {
    let index = vec![
        owned(ContentKind::Mod, "a", "a-1.jar", "modpack:old"),
        owned(ContentKind::Mod, "b", "b-1.jar", "modpack:old"),
        owned(ContentKind::Mod, "c", "c-1.jar", ""),
    ];
    let items = vec![
        item(ContentKind::Mod, "a", "a-2.jar"),
        item(ContentKind::Mod, "c", "c-1.jar"),
        item(ContentKind::Mod, "d", "d-1.jar"),
    ];
    let keeping = strings(&["a-2.jar", "c-1.jar", "d-1.jar"]);
    let (index, removed) = merge_pack_items(
        index,
        items,
        &"modpack:new".to_string(),
        &Some("modpack:old".to_string()),
        &keeping,
    );
    let names: Vec<(&str, &str)> =
        index.iter().map(|i| (i.filename.as_str(), i.origin.as_str())).collect();
    assert_eq!(
        names,
        [("a-2.jar", "modpack:new"), ("c-1.jar", ""), ("d-1.jar", "modpack:new")],
        "a person's own copy keeps its untagged ownership"
    );
    let gone: Vec<&str> = removed.iter().map(|i| i.filename.as_str()).collect();
    assert_eq!(gone, ["a-1.jar", "b-1.jar"], "the files the new pack no longer ships");
}

#[test]
fn a_first_install_drops_nothing() {
    let index = vec![owned(ContentKind::Mod, "x", "x.jar", "")];
    let (index, removed) = merge_pack_items(
        index,
        vec![item(ContentKind::ResourcePack, "x", "x.jar")],
        &"modpack:p".to_string(),
        &None,
        &vec![],
    );
    assert_eq!(index.len(), 2, "another kind is another entry");
    assert!(removed.is_empty());
    assert_eq!(index[1].origin, "modpack:p");
}

#[test]
fn removing_a_pack_takes_only_what_it_installed() {
    let index = vec![
        owned(ContentKind::Mod, "a", "a.jar", "modpack:p"),
        owned(ContentKind::Mod, "b", "b.jar", ""),
        owned(ContentKind::Mod, "c", "c.jar", "profile:starter"),
        owned(ContentKind::Mod, "d", "d.jar", "modpack:p"),
    ];
    let (kept, dropped) = engine::installed::split_by_origin(index, &"modpack:p".to_string());
    let kept: Vec<&str> = kept.iter().map(|i| i.filename.as_str()).collect();
    let dropped: Vec<&str> = dropped.iter().map(|i| i.filename.as_str()).collect();
    assert_eq!(kept, ["b.jar", "c.jar"]);
    assert_eq!(dropped, ["a.jar", "d.jar"]);
}

#[test]
fn a_batch_walks_dependencies_past_what_is_installed() {
    let index = vec![
        owned(ContentKind::Mod, "fabric-api", "fabric-api.jar", ""),
        owned(ContentKind::Mod, "", "local.jar", ""),
    ];
    let mut visited = engine::installed::visited_from_index(&index);
    assert_eq!(visited, strings(&["fabric-api"]));
    let mut queued = Vec::new();
    assert!(engine::installed::enqueue_root(&mut queued, &mut visited, &"fabric-api".to_string()),
        "a named root reinstalls even when present");
    assert!(engine::installed::enqueue_root(&mut queued, &mut visited, &"sodium".to_string()));
    assert!(!engine::installed::enqueue_root(&mut queued, &mut visited, &"sodium".to_string()),
        "a duplicate within the batch collapses");
    assert_eq!(queued, strings(&["fabric-api", "sodium"]));
    assert_eq!(visited, strings(&["fabric-api", "sodium"]));
}

#[test]
fn a_batch_is_refused_for_a_kind_the_entry_cannot_load_or_when_empty() {
    match admit_add(Side::Server, None, ContentKind::Mod, 2) {
        Err(AddRefusal::KindRejected(accepts)) => assert_eq!(accepts, [ContentKind::DataPack]),
        other => panic!("vanilla cannot load mods, got {:?}", other),
    }
    assert!(matches!(
        admit_add(Side::Server, Some(ContentKind::Mod), ContentKind::Mod, 0),
        Err(AddRefusal::NothingToDo)
    ));
    assert!(admit_add(Side::Client, None, ContentKind::Shader, 1).is_ok());
}

#[test]
fn an_update_picks_its_targets_and_refuses_what_it_cannot_move() {
    let mut from_file = item(ContentKind::Mod, "", "local.jar");
    from_file.source = "file".to_string();
    let index = vec![
        item(ContentKind::Mod, "sodium", "sodium-1.jar"),
        item(ContentKind::ResourcePack, "faithful", "faithful.zip"),
        from_file,
        item(ContentKind::Mod, "lithium", "lithium-1.jar"),
    ];
    let plan = |moves: Vec<usize>, refusal: Option<UpdateRefusal>| -> Result<UpdatePlan, UpdateRefusal> {
        Ok(UpdatePlan { moves, refusal })
    };
    assert_eq!(update_targets(&index, ContentKind::Mod, ""), plan(vec![0, 3], None));
    assert_eq!(update_targets(&index, ContentKind::Mod, "lithium-1.jar"), plan(vec![3], None));
    assert_eq!(
        update_targets(&index, ContentKind::Mod, "local.jar"),
        plan(vec![], Some(UpdateRefusal::CannotUpdate("local.jar".to_string(), "file".to_string())))
    );
    assert_eq!(
        update_targets(&index, ContentKind::Mod, "absent"),
        Err(UpdateRefusal::NotFound("absent".to_string()))
    );
    assert_eq!(update_targets(&index, ContentKind::Shader, ""), Err(UpdateRefusal::NothingInstalled));

    let mut current = item(ContentKind::Mod, "sodium", "sodium-1.jar");
    current.version_id = "v1".to_string();
    assert!(!needs_update(&current, "v1"));
    assert!(needs_update(&current, "v2"));
}

#[test]
fn a_named_update_moves_what_comes_before_the_item_it_cannot_move() {
    let mut shared = item(ContentKind::Mod, "", "shared.jar");
    shared.source = "url".to_string();
    shared.title = "Shared".to_string();
    let mut linked = item(ContentKind::Mod, "p", "p-1.jar");
    linked.title = "Shared".to_string();
    let mut later = item(ContentKind::Mod, "q", "q-1.jar");
    later.title = "Shared".to_string();
    let index = vec![linked, shared, later];
    assert_eq!(
        update_targets(&index, ContentKind::Mod, "Shared"),
        Ok(UpdatePlan {
            moves: vec![0],
            refusal: Some(UpdateRefusal::CannotUpdate("shared.jar".to_string(), "url".to_string())),
        })
    );
}
