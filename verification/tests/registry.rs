use engine::provider::{ContentKind, Prerequisite, Side};
use engine::registry::{Registry, UnknownFlavor};

#[test]
fn the_shipped_flavors_are_offered_in_order() {
    let r = Registry::shipped(false);
    let servers: Vec<String> = r.server_flavors().into_iter().map(|f| f.id).collect();
    assert_eq!(servers, ["vanilla", "fabric", "paper", "folia", "spigot", "bukkit", "neoforge"]);
    let instances: Vec<String> = r.instance_flavors().into_iter().map(|f| f.id).collect();
    assert_eq!(instances, ["vanilla", "fabric", "neoforge"]);
}

#[test]
fn a_flavor_contributes_its_loader_kind_and_the_side_the_rest() {
    let r = Registry::shipped(false);
    let paper = &r.server_flavors()[2];
    assert_eq!(paper.accepts, [ContentKind::Plugin, ContentKind::DataPack]);
    let vanilla = &r.instance_flavors()[0];
    assert_eq!(
        vanilla.accepts,
        [ContentKind::ResourcePack, ContentKind::Shader, ContentKind::DataPack]
    );
    assert_eq!(r.server_loads("fabric"), Some(ContentKind::Mod));
    assert_eq!(r.server_loads("paper"), Some(ContentKind::Plugin));
    assert_eq!(r.server_loads("vanilla"), None);
    assert_eq!(r.instance_loads("neoforge"), Some(ContentKind::Mod));
}

#[test]
fn an_unregistered_flavor_loads_nothing_and_is_refused_where_it_must_act() {
    let r = Registry::shipped(false);
    assert_eq!(r.server_loads("forge"), None);
    assert!(r.server_requires("forge").is_empty());
    let e = r.server("forge").unwrap_err();
    assert_eq!(e, UnknownFlavor { side: Side::Server, id: "forge".into() });
    assert_eq!(e.message(), "unknown server flavor: forge");
    assert_eq!(r.instance("paper").unwrap_err().message(), "unknown instance flavor: paper");
    assert_eq!(r.server("spigot"), Ok(4));
}

#[test]
fn only_buildtools_flavors_need_git_and_not_on_windows() {
    let r = Registry::shipped(false);
    assert_eq!(r.server_requires("spigot"), [Prerequisite::Git]);
    assert_eq!(r.server_requires("bukkit"), [Prerequisite::Git]);
    assert!(r.server_requires("paper").is_empty());
    assert!(r.instance_requires("fabric").is_empty());
    let w = Registry::shipped(true);
    assert!(w.server_requires("spigot").is_empty());
}

#[test]
fn a_packs_loader_is_a_flavor_only_where_one_ships() {
    let r = Registry::shipped(false);
    assert_eq!(r.pack_flavor(Side::Client, &Some("fabric".into())), Ok("fabric".to_string()));
    assert_eq!(r.pack_flavor(Side::Client, &None), Ok("vanilla".to_string()));
    assert_eq!(r.pack_flavor(Side::Client, &Some(String::new())), Ok("vanilla".to_string()));
    assert_eq!(r.pack_flavor(Side::Client, &Some("quilt".into())), Err("quilt".to_string()));
    assert_eq!(r.pack_flavor(Side::Client, &Some("paper".into())), Err("paper".to_string()));
    assert_eq!(r.pack_flavor(Side::Server, &Some("paper".into())), Ok("paper".to_string()));
}
