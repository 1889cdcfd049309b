use engine::batch::{AddBatch, Node, RootVerdict};
use engine::installed::{Dependency, InstalledContent};
use engine::provider::ContentKind;

fn node(project: &str) -> Node {
    Node {
        given: project.to_string(),
        source: "modrinth".to_string(),
        pin: String::new(),
        project: project.to_string(),
    }
}

fn installed(project: &str) -> InstalledContent {
    InstalledContent {
        kind: ContentKind::Mod,
        source: "modrinth".to_string(),
        project_id: project.to_string(),
        slug: String::new(),
        title: String::new(),
        version_id: String::new(),
        version_number: String::new(),
        filename: format!("{project}.jar"),
        sha1: String::new(),
        url: String::new(),
        icon_url: String::new(),
        installed_unix: 0,
        worlds: Vec::new(),
        origin: String::new(),
        enabled: true,
        disabled_worlds: Vec::new(),
    }
}

fn dep(project: &str, required: bool) -> Dependency {
    Dependency { required, project_id: project.to_string() }
}

#[test]
fn roots_are_checked_then_queued_once() {
    let mut batch = AddBatch::new(&vec![installed("fabric-api")]);
    assert_eq!(
        batch.admit_root(node("iris"), ContentKind::Mod, ContentKind::Shader, true),
        RootVerdict::KindMismatch
    );
    assert_eq!(
        batch.admit_root(node("cape"), ContentKind::Mod, ContentKind::Mod, false),
        RootVerdict::SideRefused
    );
    assert_eq!(
        batch.admit_root(node("fabric-api"), ContentKind::Mod, ContentKind::Mod, true),
        RootVerdict::Queued,
        "a named root reinstalls even when present"
    );
    assert_eq!(
        batch.admit_root(node("sodium"), ContentKind::Mod, ContentKind::Mod, true),
        RootVerdict::Queued
    );
    assert_eq!(
        batch.admit_root(node("sodium"), ContentKind::Mod, ContentKind::Mod, true),
        RootVerdict::Duplicate
    );
    assert_eq!(
        batch.admit_root(node("pack"), ContentKind::DataPack, ContentKind::Mod, false),
        RootVerdict::SideRefused
    );
}

#[test]
fn a_shared_dependency_installs_once() {
    let mut batch = AddBatch::new(&vec![installed("fabric-api")]);
    batch.admit_root(node("a"), ContentKind::Mod, ContentKind::Mod, true);
    batch.admit_root(node("b"), ContentKind::Mod, ContentKind::Mod, true);
    assert_eq!(batch.progress(), (1, 3));
    let first = batch.next().unwrap();
    assert_eq!(first.project, "b", "the latest queued is taken first");
    let deps = batch.dependencies(
        ContentKind::Mod,
        &vec![dep("lib", true), dep("fabric-api", true), dep("optional", false), dep("", true), dep("lib", true)],
    );
    assert_eq!(deps, ["lib"], "installed, optional, nameless and repeated ones are skipped");
    assert!(batch.admit_dependency(node("lib"), true));
    batch.finish();
    let second = batch.next().unwrap();
    assert_eq!(second.project, "lib");
    assert!(batch.dependencies(ContentKind::Mod, &vec![dep("lib", true)]).is_empty());
    batch.finish();
    let third = batch.next().unwrap();
    assert_eq!(third.project, "a");
    assert_eq!(batch.progress(), (3, 3));
    assert!(batch.dependencies(ContentKind::ResourcePack, &vec![dep("x", true)]).is_empty());
    batch.finish();
    assert!(batch.next().is_none());
}

#[test]
fn a_dependency_unsupported_on_the_side_is_skipped() {
    let mut batch = AddBatch::new(&vec![]);
    assert!(!batch.admit_dependency(node("client-only"), false));
    assert!(batch.next().is_none());
}
