use engine::fabric::{merge_libraries, server_launcher_url, versionless_key};
use engine::json::Json;
use engine::meta::{libraries, maven_path, natives, rules_allow};
use engine::profile::{Artifact, Library};

fn obj(fields: Vec<(&str, Json)>) -> Json {
    Json::Object(fields.into_iter().map(|(k, v)| (k.to_string(), v)).collect())
}

fn text(s: &str) -> Json {
    Json::Str(s.to_string())
}

fn download(path: &str, url: &str, sha1: &str, size: u64) -> Json {
    obj(vec![
        ("path", text(path)),
        ("url", text(url)),
        ("sha1", text(sha1)),
        ("size", Json::PosInt(size)),
    ])
}

fn legacy_version() -> Json {
    obj(vec![(
        "libraries",
        Json::Array(vec![obj(vec![
            ("name", text("org.lwjgl.lwjgl:lwjgl-platform:2.9.4")),
            (
                "natives",
                obj(vec![
                    ("linux", text("natives-linux")),
                    ("windows", text("natives-windows")),
                    ("osx", text("natives-osx")),
                ]),
            ),
            ("extract", obj(vec![("exclude", Json::Array(vec![text("META-INF/")]))])),
            (
                "downloads",
                obj(vec![
                    (
                        "artifact",
                        download(
                            "org/lwjgl/lwjgl/lwjgl-platform/2.9.4/lwjgl-platform-2.9.4.jar",
                            "https://libraries.minecraft.net/base.jar",
                            "aa",
                            10,
                        ),
                    ),
                    (
                        "classifiers",
                        obj(vec![
                            (
                                "natives-linux",
                                download("org/lwjgl/natives-linux.jar", "https://libraries.minecraft.net/natives-linux.jar", "bb", 20),
                            ),
                            (
                                "natives-windows",
                                download("org/lwjgl/natives-windows.jar", "https://libraries.minecraft.net/natives-windows.jar", "cc", 30),
                            ),
                            (
                                "natives-osx",
                                download("org/lwjgl/natives-osx.jar", "https://libraries.minecraft.net/natives-osx.jar", "dd", 40),
                            ),
                        ]),
                    ),
                ]),
            ),
        ])]),
    )])
}

#[test]
fn natives_take_the_host_classifier_and_its_exclusions() {
    for os in ["linux", "windows", "osx"] {
        let found = natives(&legacy_version(), os, true);
        assert_eq!(found.len(), 1);
        assert_eq!(found[0].library.path, format!("org/lwjgl/natives-{os}.jar"));
        assert_eq!(found[0].exclude, ["META-INF/"]);
        assert_eq!(found[0].library.name, format!("org.lwjgl.lwjgl:lwjgl-platform:2.9.4:natives-{os}"));
    }
}

#[test]
fn a_native_classifier_stays_off_the_classpath() {
    let libs = libraries(&legacy_version(), "linux");
    assert_eq!(libs.len(), 1, "only the base artifact is a library");
    assert!(libs[0].path.ends_with("lwjgl-platform-2.9.4.jar"));
    assert_eq!(libs[0].artifact.filename, "base.jar");
    assert_eq!(libs[0].artifact.size, 10);
}

#[test]
fn a_modern_version_has_no_natives() {
    let version = obj(vec![(
        "libraries",
        Json::Array(vec![obj(vec![
            ("name", text("org.lwjgl:lwjgl:3.3.3:natives-linux")),
            (
                "downloads",
                obj(vec![(
                    "artifact",
                    download("org/lwjgl/lwjgl/3.3.3/lwjgl-3.3.3-natives-linux.jar", "https://libraries.minecraft.net/x.jar", "ee", 50),
                )]),
            ),
        ])]),
    )]);
    assert!(natives(&version, "linux", true).is_empty());
    assert_eq!(libraries(&version, "linux").len(), 1);
}

#[test]
fn the_arch_placeholder_resolves_to_the_pointer_width() {
    let version = obj(vec![(
        "libraries",
        Json::Array(vec![obj(vec![
            ("name", text("tv.twitch:twitch-platform:5.16")),
            (
                "natives",
                obj(vec![
                    ("linux", text("natives-linux-${arch}")),
                    ("windows", text("natives-windows-${arch}")),
                    ("osx", text("natives-osx")),
                ]),
            ),
            (
                "downloads",
                obj(vec![(
                    "classifiers",
                    obj(vec![(
                        "natives-linux-64",
                        download("tv/twitch/native.jar", "https://libraries.minecraft.net/native.jar", "ff", 60),
                    )]),
                )]),
            ),
        ])]),
    )]);
    assert_eq!(natives(&version, "linux", true).len(), 1);
    assert_eq!(natives(&version, "linux", false).len(), 0);
}

#[test]
fn rules_decide_by_the_last_rule_for_the_host() {
    let allow_all = obj(vec![("action", text("allow"))]);
    let deny_osx = obj(vec![("action", text("disallow")), ("os", obj(vec![("name", text("osx"))]))]);
    let rules = Json::Array(vec![allow_all, deny_osx]);
    assert!(rules_allow(&rules, "linux"));
    assert!(!rules_allow(&rules, "osx"));
    assert!(rules_allow(&Json::Array(vec![]), "linux"));
    let gated = Json::Array(vec![obj(vec![("action", text("allow")), ("features", obj(vec![]))])]);
    assert!(!rules_allow(&gated, "linux"), "a feature-gated rule never speaks for the host");
}

#[test]
fn a_maven_coordinate_names_its_repository_path() {
    assert_eq!(maven_path("net.fabricmc:fabric-loader:0.16.10").unwrap(), "net/fabricmc/fabric-loader/0.16.10/fabric-loader-0.16.10.jar");
    assert_eq!(maven_path("a.b:c:1:natives-linux@zip").unwrap(), "a/b/c/1/c-1-natives-linux.zip");
    assert_eq!(maven_path("a:b"), None);
    assert_eq!(maven_path("a::1"), None);
}

fn lib(name: &str) -> Library {
    Library { name: name.to_string(), path: name.to_string(), artifact: Artifact::default() }
}

fn names(libs: &[Library]) -> Vec<&str> {
    libs.iter().map(|l| l.name.as_str()).collect()
}

#[test]
fn overlay_repin_collapses_to_one_version() {
    let merged = merge_libraries(
        &vec![lib("org.ow2.asm:asm:9.6"), lib("com.google.guava:guava:32.1")],
        &vec![lib("org.ow2.asm:asm:9.10.1")],
    );
    assert_eq!(
        names(&merged),
        ["org.ow2.asm:asm:9.10.1", "com.google.guava:guava:32.1"],
        "the overlay version wins in the base's slot"
    );
}

#[test]
fn distinct_classifiers_are_kept() {
    let merged = merge_libraries(
        &vec![lib("org.lwjgl:lwjgl:3.3.3"), lib("org.lwjgl:lwjgl:3.3.3:natives-linux")],
        &Vec::new(),
    );
    assert_eq!(names(&merged).len(), 2, "jar and its natives sibling survive");
}

#[test]
fn the_versionless_key_keeps_group_artifact_classifier_and_extension() {
    assert_eq!(versionless_key("org.ow2.asm:asm:9.6"), "org.ow2.asm:asm@jar");
    assert_eq!(versionless_key("org.lwjgl:lwjgl:3.3.3:natives-linux"), "org.lwjgl:lwjgl:natives-linux@jar");
    assert_eq!(versionless_key("odd"), "odd");
}

#[test]
fn the_fabric_launcher_url_names_all_three_builds() {
    assert_eq!(
        server_launcher_url("1.21.4", "0.16.10", "1.0.1"),
        "https://meta.fabricmc.net/v2/versions/loader/1.21.4/0.16.10/1.0.1/server/jar"
    );
}
