use engine::launch::{
    classpath_separator, flavor_defaults, instance_plan, join_str, jvm_args_source, normalize_memory,
    parent_of, parse_jvm_args,
    server_plan, substitute, InstancePaths, JavaSettings, JvmArgsSource, LaunchAccount,
    SettingError, JVM_ARGS_KEY, MEMORY_KEY,
};
use engine::profile::{Artifact, AssetIndex, InstanceProfile, Library, ServerProfile};

fn account() -> LaunchAccount {
    LaunchAccount {
        name: "Steve".into(),
        uuid: "uuid-1".into(),
        access_token: "token-1".into(),
    }
}

fn library(path: &str) -> Library {
    Library {
        name: path.to_string(),
        path: path.to_string(),
        artifact: Artifact::default(),
    }
}

fn paths(client_jar: &str) -> InstancePaths {
    InstancePaths {
        game_dir: "/inst".into(),
        natives_dir: "/inst/natives".into(),
        client_jar: client_jar.into(),
        libraries_root: "/libraries".into(),
        assets_root: "/assets".into(),
    }
}

#[test]
fn substitute_replaces_known_and_drops_unknown() {
    let vars = vec![("version_name".to_string(), "1.21.1".to_string())];
    assert_eq!(
        substitute("--version=${version_name}", &vars),
        "--version=1.21.1"
    );
    assert_eq!(substitute("${unknown_key}", &vars), "");
    assert_eq!(substitute("${broken", &vars), "${broken");
    assert_eq!(substitute("plain", &vars), "plain");
}

#[test]
fn server_plan_without_main_class_is_a_jar_invocation() {
    let profile = ServerProfile {
        primary: Artifact {
            filename: "server.jar".into(),
            ..Default::default()
        },
        ..Default::default()
    };
    let plan = server_plan(&profile, "/java/bin/java", "/srv", &JavaSettings::default(), false);
    assert_eq!(plan.args, ["-jar", "server.jar", "nogui"]);
    assert_eq!(plan.cwd, "/srv");
    assert_eq!(plan.program, "/java/bin/java");
}

#[test]
fn server_plan_with_main_class_builds_a_classpath() {
    let profile = ServerProfile {
        primary: Artifact {
            filename: "launcher.jar".into(),
            ..Default::default()
        },
        libraries: vec![library("a/b.jar"), library("a/b.jar"), library("c/d.jar")],
        main_class: "net.example.Main".into(),
        ..Default::default()
    };
    let plan = server_plan(&profile, "java", "/srv", &JavaSettings::default(), false);
    assert_eq!(plan.args[0], "-cp");
    let classpath = &plan.args[1];
    assert_eq!(classpath.matches("b.jar").count(), 1, "duplicates dropped");
    assert!(classpath.contains("launcher.jar"));
    assert_eq!(classpath, "libraries/a/b.jar:libraries/c/d.jar:launcher.jar");
    assert_eq!(plan.args[2], "net.example.Main");
    assert_eq!(plan.args.last().map(String::as_str), Some("nogui"));
}

#[test]
fn instance_plan_substitutes_and_orders_sections() {
    let profile = InstanceProfile {
        game_version: "1.21.1".into(),
        client: Artifact::default(),
        libraries: vec![library("a/b.jar")],
        asset_index: AssetIndex {
            id: "17".into(),
            ..Default::default()
        },
        main_class: "net.minecraft.client.main.Main".into(),
        jvm_args: vec!["-cp".into(), "${classpath}".into()],
        game_args: vec!["--username".into(), "${auth_player_name}".into()],
        ..Default::default()
    };
    let plan = instance_plan(
        &profile,
        "java",
        &paths("/versions/1.21.1/client.jar"),
        &account(),
        &JavaSettings::default(),
        false,
    );
    let main_at = plan
        .args
        .iter()
        .position(|a| a == "net.minecraft.client.main.Main")
        .expect("main class present");
    assert!(plan.args[..main_at]
        .iter()
        .any(|a| a.contains("client.jar")));
    assert_eq!(plan.args[main_at + 1..], ["--username", "Steve"]);
    assert_eq!(plan.cwd, "/inst");
    assert_eq!(plan.args[1], "/libraries/a/b.jar:/versions/1.21.1/client.jar");
}

#[test]
fn instance_plan_supplies_classpath_when_jvm_args_absent() {
    let profile = InstanceProfile {
        main_class: "net.minecraft.client.Minecraft".into(),
        ..Default::default()
    };
    let plan = instance_plan(
        &profile,
        "java",
        &paths("/versions/old/client.jar"),
        &account(),
        &JavaSettings::default(),
        false,
    );
    assert_eq!(plan.args[0], "-cp");
    assert!(plan.args[1].contains("client.jar"));
}

fn settings(memory: Option<&str>, jvm_args: &[&str]) -> JavaSettings {
    JavaSettings {
        memory: memory.map(str::to_string),
        jvm_args: jvm_args.iter().map(|a| a.to_string()).collect(),
    }
}

#[test]
fn server_plan_prepends_memory_and_extra_flags() {
    let profile = ServerProfile {
        primary: Artifact {
            filename: "server.jar".into(),
            ..Default::default()
        },
        ..Default::default()
    };
    let plan = server_plan(&profile, "java", "/srv", &settings(Some("4G"), &["-XX:+UseG1GC"]), false);
    assert_eq!(
        plan.args,
        ["-Xms4G", "-Xmx4G", "-XX:+UseG1GC", "-jar", "server.jar", "nogui"]
    );
}

#[test]
fn instance_plan_appends_user_flags_after_manifest_jvm_args() {
    let profile = InstanceProfile {
        client: Artifact::default(),
        main_class: "net.minecraft.client.main.Main".into(),
        jvm_args: vec!["-cp".into(), "${classpath}".into()],
        ..Default::default()
    };
    let plan = instance_plan(
        &profile,
        "java",
        &paths("/versions/1.21.1/client.jar"),
        &account(),
        &settings(Some("2048M"), &["-XX:+UseZGC"]),
        false,
    );
    let main_at = plan
        .args
        .iter()
        .position(|a| a == "net.minecraft.client.main.Main")
        .expect("main class present");
    assert_eq!(
        &plan.args[main_at - 3..main_at],
        ["-Xms2048M", "-Xmx2048M", "-XX:+UseZGC"]
            .iter()
            .map(|s| s.to_string())
            .collect::<Vec<_>>()
            .as_slice()
    );
    let cp_at = plan.args.iter().position(|a| a == "-cp").unwrap();
    assert!(cp_at < main_at - 3, "manifest jvm args precede user flags");
}

#[test]
fn memory_validation_normalizes_accepts_and_rejects() {
    let mut s = JavaSettings::default();
    assert!(s.set(MEMORY_KEY, "4g").unwrap());
    assert_eq!(s.memory.as_deref(), Some("4G"));
    assert_eq!(s.flags(), ["-Xms4G", "-Xmx4G"]);
    assert!(s.set(MEMORY_KEY, "2048M").unwrap());
    assert_eq!(s.memory.as_deref(), Some("2048M"));
    assert!(s.set(MEMORY_KEY, "").unwrap());
    assert_eq!(s.memory, None);
    for bad in ["4", "G", "0G", "4GB", "4.5G", "-4G", "four"] {
        assert!(s.set(MEMORY_KEY, bad).is_err(), "'{bad}' must be rejected");
    }
}

#[test]
fn jvm_args_split_validate_and_clear() {
    let mut s = JavaSettings::default();
    assert!(s.set(JVM_ARGS_KEY, "-XX:+UseG1GC  -Xmn1G").unwrap());
    assert_eq!(s.jvm_args, ["-XX:+UseG1GC", "-Xmn1G"]);
    assert_eq!(
        s.get(JVM_ARGS_KEY),
        Some(Some("-XX:+UseG1GC -Xmn1G".into()))
    );
    assert!(s.set(JVM_ARGS_KEY, "notaflag").is_err());
    assert!(s.set(JVM_ARGS_KEY, "").unwrap());
    assert!(s.jvm_args.is_empty());
    assert_eq!(s.get(JVM_ARGS_KEY), Some(None));
}

#[test]
fn get_returns_outer_none_for_non_jvm_key() {
    assert_eq!(JavaSettings::default().get("server-port"), None);
}

#[test]
fn entries_list_both_keys() {
    let s = settings(Some("4G"), &["-a", "-b"]);
    assert_eq!(
        s.entries(),
        vec![
            ("memory".to_string(), "4G".to_string()),
            ("jvm-args".to_string(), "-a -b".to_string())
        ]
    );
    assert_eq!(JavaSettings::default().entries()[0].1, "");
}

#[test]
fn memory_and_flag_errors_name_the_problem() {
    assert_eq!(normalize_memory(" 512k "), Ok("512K".to_string()));
    assert_eq!(normalize_memory("00G"), Err(SettingError::Memory));
    assert_eq!(
        parse_jvm_args("-a b"),
        Err(SettingError::NotAFlag("b".to_string()))
    );
    assert_eq!(
        SettingError::NotAFlag("b".to_string()).message(),
        "jvm arguments must start with '-' (got 'b')"
    );
}

#[test]
fn paths_join_like_a_unix_path() {
    assert_eq!(join_str("libraries", "a/b.jar"), "libraries/a/b.jar");
    assert_eq!(join_str("/root/", "x"), "/root/x");
    assert_eq!(join_str("/root", "/abs"), "/abs");
    assert_eq!(join_str("", "x"), "x");
}

fn flavor(args: &[&str]) -> Vec<String> {
    args.iter().map(|s| s.to_string()).collect()
}

#[test]
fn the_innermost_set_layer_wins() {
    assert_eq!(
        jvm_args_source(&settings(None, &[]), &settings(None, &[]), &flavor(&["-XX:+UseG1GC"])),
        JvmArgsSource::Flavor,
        "nothing set, so paper's own recommendation runs"
    );
    assert_eq!(
        jvm_args_source(
            &settings(None, &[]),
            &settings(None, &["-Xss1M"]),
            &flavor(&["-XX:+UseG1GC"])
        ),
        JvmArgsSource::Defaults,
        "a launcher-wide default outranks the flavor's"
    );
    assert_eq!(
        jvm_args_source(
            &settings(None, &["-Xss2M"]),
            &settings(None, &["-Xss1M"]),
            &flavor(&["-XX:+UseG1GC"])
        ),
        JvmArgsSource::Entry,
        "a user who wrote flags meant them"
    );
    assert_eq!(
        jvm_args_source(&settings(None, &[]), &settings(None, &[]), &flavor(&[])),
        JvmArgsSource::Unset
    );
}

#[test]
fn a_flavor_recommends_flags_but_never_memory() {
    let resolved = settings(None, &[])
        .or_defaults(&settings(None, &[]))
        .or_defaults(&flavor_defaults(&flavor(&["-XX:+UseG1GC"])));
    assert_eq!(
        resolved.flags(),
        ["-XX:+UseG1GC"],
        "memory stays the user's call; the flavor only recommends flags"
    );
}

#[test]
fn a_set_memory_survives_layering_and_the_named_layer_supplies_the_flags() {
    let entry = settings(Some("2G"), &[]);
    let defaults = settings(Some("1G"), &["-Xss1M"]);
    let flavor_layer = flavor_defaults(&flavor(&["-XX:+UseG1GC"]));
    let resolved = entry.or_defaults(&defaults).or_defaults(&flavor_layer);
    assert_eq!(resolved.memory.as_deref(), Some("2G"));
    assert_eq!(resolved.jvm_args, vec!["-Xss1M".to_string()]);
    assert_eq!(
        jvm_args_source(&entry, &defaults, &flavor(&["-XX:+UseG1GC"])),
        JvmArgsSource::Defaults
    );
    assert_eq!(resolved.flags(), ["-Xms2G", "-Xmx2G", "-Xss1M"]);
}

#[test]
fn a_windows_host_joins_the_classpath_with_semicolons() {
    let server = ServerProfile {
        primary: Artifact {
            filename: "launcher.jar".into(),
            ..Default::default()
        },
        libraries: vec![library("a/b.jar"), library("c/d.jar")],
        main_class: "net.example.Main".into(),
        ..Default::default()
    };
    let plan = server_plan(&server, "java", "/srv", &JavaSettings::default(), true);
    assert_eq!(plan.args[1], "libraries/a/b.jar;libraries/c/d.jar;launcher.jar");

    let client = InstanceProfile {
        libraries: vec![library("a/b.jar")],
        main_class: "net.minecraft.client.Minecraft".into(),
        ..Default::default()
    };
    let plan = instance_plan(
        &client,
        "java",
        &paths("/versions/old/client.jar"),
        &account(),
        &JavaSettings::default(),
        true,
    );
    assert_eq!(plan.args[..2], ["-cp", "/libraries/a/b.jar;/versions/old/client.jar"]);
}

#[test]
fn the_separator_follows_the_host() {
    assert_eq!(classpath_separator(true), ";");
    assert_eq!(classpath_separator(false), ":");
}

#[test]
fn a_parent_reads_components_as_a_path_does() {
    assert_eq!(parent_of("/inst/./bin/java").as_deref(), Some("/inst/./bin"));
    assert_eq!(parent_of("/inst/./bin").as_deref(), Some("/inst"));
    assert_eq!(parent_of("a//b/").as_deref(), Some("a"));
    assert_eq!(parent_of("a/b/.").as_deref(), Some("a"));
    assert_eq!(parent_of("/a").as_deref(), Some("/"));
    assert_eq!(parent_of("a").as_deref(), Some(""));
    assert_eq!(parent_of(".").as_deref(), Some(""));
    assert_eq!(parent_of("./bin").as_deref(), Some("."));
    assert_eq!(parent_of("/"), None);
    assert_eq!(parent_of(""), None);
}
