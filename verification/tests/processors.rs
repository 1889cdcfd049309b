use engine::json::Json;
use std::io::Write;

use engine::processors::{
    arguments, data_table, jar_main_class, processor_classpath, processor_jar, resolve, runs_on, Install,
    ProcessorError, Side,
};

fn obj(fields: Vec<(&str, Json)>) -> Json {
    Json::Object(fields.into_iter().map(|(k, v)| (k.to_string(), v)).collect())
}

fn strs(items: &[&str]) -> Json {
    Json::Array(items.iter().map(|s| Json::Str(s.to_string())).collect())
}

fn table() -> Vec<(String, String)> {
    vec![
        ("ROOT".to_string(), "/srv".to_string()),
        ("SIDE".to_string(), "server".to_string()),
        ("PATCHED".to_string(), "/libs/patched.jar".to_string()),
    ]
}

#[test]
fn sides_filter_the_chain() {
    let both = obj(vec![("jar", Json::Str("a:b:1".into()))]);
    let client = obj(vec![("jar", Json::Str("a:b:1".into())), ("sides", strs(&["client"]))]);
    assert!(runs_on(&both, Side::Server), "no sides means both");
    assert!(runs_on(&client, Side::Client));
    assert!(!runs_on(&client, Side::Server));
}

#[test]
fn a_token_substitutes_even_when_embedded() {
    let processor = obj(vec![("args", strs(&["--to", "{ROOT}/run.sh", "--side", "{SIDE}"]))]);
    let args = arguments(&processor, &table(), "/libs").unwrap();
    assert_eq!(args, ["--to", "/srv/run.sh", "--side", "server"]);
}

#[test]
fn a_bracketed_coordinate_becomes_a_library_path() {
    let processor = obj(vec![("args", strs(&["--input", "[net.neoforged:neoform:1.21.1@zip]"]))]);
    let args = arguments(&processor, &table(), "/libs").unwrap();
    assert_eq!(args[1], "/libs/net/neoforged/neoform/1.21.1/neoform-1.21.1.zip");
}

#[test]
fn one_argument_in_is_one_argument_out() {
    let processor = obj(vec![("args", strs(&["--a", "{ROOT}", "--b", "{PATCHED}", "plain"]))]);
    let args = arguments(&processor, &table(), "/libs").unwrap();
    assert_eq!(args.len(), 5, "substitution must never split or drop an argument");
}

#[test]
fn a_data_value_resolves_by_its_form() {
    let staged = vec![("/data/server.lzma".to_string(), "/tmp/s.lzma".to_string())];
    let libs = "/libs";
    assert_eq!(
        resolve("[net.neoforged:neoforge:21.1.244:server]", libs, &staged).unwrap(),
        "/libs/net/neoforged/neoforge/21.1.244/neoforge-21.1.244-server.jar"
    );
    assert_eq!(resolve("/data/server.lzma", libs, &staged).unwrap(), "/tmp/s.lzma");
    assert_eq!(
        resolve("'1.21.1-20240808'", libs, &staged).unwrap(),
        "'1.21.1-20240808'",
        "a literal is left alone"
    );
}

#[test]
fn a_missing_installer_file_is_an_error_not_a_literal() {
    assert!(resolve("/data/client.lzma", "/libs", &Vec::new()).is_err());
}

#[test]
fn the_data_table_resolves_the_side_and_adds_the_install_tokens() {
    let install = Install {
        root: "/srv".to_string(),
        installer: "/tmp/installer.jar".to_string(),
        minecraft_jar: "/srv/server.jar".to_string(),
        side: Side::Server,
        java: "java".to_string(),
    };
    let staged = vec![("/data/server.lzma".to_string(), "/tmp/s.lzma".to_string())];
    let profile = obj(vec![(
        "data",
        obj(vec![
            ("BINPATCH", obj(vec![("client", Json::Str("/data/client.lzma".into())), ("server", Json::Str("/data/server.lzma".into()))])),
            ("MC_VERSION", obj(vec![("server", Json::Str("1.21.1".into()))])),
            ("CLIENT_ONLY", obj(vec![("client", Json::Str("x".into()))])),
        ]),
    )]);
    let table = data_table(&profile, &install, &staged).unwrap();
    let pairs: Vec<(&str, &str)> = table.iter().map(|(k, v)| (k.as_str(), v.as_str())).collect();
    assert_eq!(
        pairs,
        [
            ("BINPATCH", "/tmp/s.lzma"),
            ("MC_VERSION", "1.21.1"),
            ("ROOT", "/srv"),
            ("SIDE", "server"),
            ("MINECRAFT_JAR", "/srv/server.jar"),
            ("INSTALLER", "/tmp/installer.jar"),
        ]
    );

    let missing = obj(vec![("data", obj(vec![("PATCH", obj(vec![("server", Json::Str("/data/absent".into()))]))]))]);
    assert_eq!(
        data_table(&missing, &install, &staged),
        Err(ProcessorError::MissingInstallerFile("/data/absent".to_string()))
    );
}

#[test]
fn a_processor_names_its_jar() {
    assert_eq!(processor_jar(&obj(vec![("jar", Json::Str("a:b:1".into()))])), Ok("a:b:1".to_string()));
    assert_eq!(processor_jar(&obj(vec![])), Err(ProcessorError::NoJar));
}

#[test]
fn a_processor_classpath_is_its_libraries_then_its_jar() {
    let processor = obj(vec![("classpath", strs(&["a:b:1", "c:d:2"]))]);
    assert_eq!(
        processor_classpath(&processor, "/libs", "/libs/p.jar", false).unwrap(),
        "/libs/a/b/1/b-1.jar:/libs/c/d/2/d-2.jar:/libs/p.jar"
    );
    assert_eq!(
        processor_classpath(&processor, "/libs", "/libs/p.jar", true).unwrap(),
        "/libs/a/b/1/b-1.jar;/libs/c/d/2/d-2.jar;/libs/p.jar"
    );
    assert_eq!(processor_classpath(&obj(vec![]), "/libs", "/libs/p.jar", false).unwrap(), "/libs/p.jar");
    assert_eq!(
        processor_classpath(&obj(vec![("classpath", strs(&["a:b:1", "bad", "worse"]))]), "/libs", "/p.jar", false),
        Err(ProcessorError::NotACoordinate("bad".to_string()))
    );
}

#[test]
fn the_first_bad_argument_is_the_one_named() {
    let processor = obj(vec![("args", strs(&["ok", "[bad]", "[worse]"]))]);
    assert_eq!(
        arguments(&processor, &table(), "/libs"),
        Err(ProcessorError::NotACoordinate("bad".to_string()))
    );
}

fn zipped(entries: &[(&str, &[u8])]) -> Vec<u8> {
    let mut writer = zip::ZipWriter::new(std::io::Cursor::new(Vec::new()));
    let options = zip::write::SimpleFileOptions::default();
    for (name, content) in entries {
        writer.start_file(*name, options).unwrap();
        writer.write_all(content).unwrap();
    }
    writer.finish().unwrap().into_inner()
}

#[test]
fn a_jar_main_class_comes_from_its_manifest() {
    let jar = zipped(&[
        ("a/B.class", b"cafe"),
        ("META-INF/MANIFEST.MF", b"Manifest-Version: 1.0\r\nMain-Class: net.neoforged.Tool \r\n"),
    ]);
    assert_eq!(jar_main_class(&jar).as_deref(), Some("net.neoforged.Tool"));
    assert_eq!(jar_main_class(&zipped(&[("META-INF/MANIFEST.MF", b"Manifest-Version: 1.0\n")])), None);
    assert_eq!(jar_main_class(&zipped(&[("a/B.class", b"cafe")])), None);
    assert_eq!(jar_main_class(&zipped(&[("META-INF/MANIFEST.MF", &[0xff, 0xfe])])), None);
    assert_eq!(jar_main_class(b"not a jar"), None);
}
