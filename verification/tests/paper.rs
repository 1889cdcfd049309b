use engine::json::Json;
use engine::paper::{newest_build, parse_build, Channel};
use engine::profile::HashAlgorithm;

fn obj(fields: Vec<(&str, Json)>) -> Json {
    Json::Object(fields.into_iter().map(|(k, v)| (k.to_string(), v)).collect())
}

fn text(s: &str) -> Json {
    Json::Str(s.to_string())
}

fn build_json(id: u64, channel: &str) -> Json {
    obj(vec![
        ("id", Json::PosInt(id)),
        ("channel", text(channel)),
        (
            "downloads",
            obj(vec![(
                "server:default",
                obj(vec![
                    ("name", text(&format!("paper-1.21.8-{id}.jar"))),
                    ("size", Json::PosInt(52811717)),
                    ("url", text("https://fill-data.papermc.io/v1/objects/abc/paper.jar")),
                    ("checksums", obj(vec![("sha256", text("abc"))])),
                ]),
            )]),
        ),
    ])
}

#[test]
fn a_build_carries_its_jar_and_sha256() {
    let build = parse_build(&build_json(60, "STABLE")).unwrap();
    assert_eq!(build.number, 60);
    assert_eq!(build.channel, Channel::Stable);
    assert_eq!(build.download.checksum.unwrap().algorithm, HashAlgorithm::Sha256);
    assert_eq!(build.download.filename, "paper-1.21.8-60.jar");
    assert_eq!(build.download.size, 52811717);
}

#[test]
fn a_build_with_no_server_jar_is_skipped() {
    let value = obj(vec![
        ("id", Json::PosInt(61)),
        ("channel", text("STABLE")),
        ("downloads", obj(vec![("sources:default", obj(vec![("url", text("x"))]))])),
    ]);
    assert!(parse_build(&value).is_none(), "a build with nothing launchable is not offered");
}

#[test]
fn recommended_is_stable_relabelled() {
    assert_eq!(Channel::parse("RECOMMENDED"), Some(Channel::Stable));
    assert_eq!(Channel::parse("beta"), Some(Channel::Beta));
    assert_eq!(Channel::parse("something-new"), None);
}

#[test]
fn the_newest_stable_build_is_preferred_over_newer_experiments() {
    let builds = vec![
        parse_build(&build_json(62, "ALPHA")).unwrap(),
        parse_build(&build_json(61, "STABLE")).unwrap(),
        parse_build(&build_json(60, "STABLE")).unwrap(),
    ];
    assert_eq!(newest_build(&builds), Some(1));
    let experimental = vec![parse_build(&build_json(3, "BETA")).unwrap()];
    assert_eq!(newest_build(&experimental), Some(0));
    assert_eq!(newest_build(&Vec::new()), None);
}
