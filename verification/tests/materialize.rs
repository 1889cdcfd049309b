use engine::json::Json;
use engine::materialize::{
    first_of_each, index_path, is_excluded, object_path, object_url, plan_assets, safe_join,
    validate_filename, MaterializeError,
};

fn strings(items: &[&str]) -> Vec<String> {
    items.iter().map(|s| s.to_string()).collect()
}

fn object(hash: &str, size: u64) -> Json {
    Json::Object(vec![
        ("hash".to_string(), Json::Str(hash.to_string())),
        ("size".to_string(), Json::PosInt(size)),
    ])
}

#[test]
fn unpacking_skips_the_excluded_prefixes() {
    let exclude = strings(&["META-INF/"]);
    assert!(is_excluded("META-INF/MANIFEST.MF", &exclude));
    assert!(!is_excluded("liblwjgl.so", &exclude));
    assert!(!is_excluded("liblwjgl.so", &vec![]));
}

#[test]
fn a_plain_file_name_passes_and_anything_else_is_refused() {
    assert_eq!(validate_filename("client.jar"), Ok(()));
    assert_eq!(validate_filename(""), Err(MaterializeError::UnsafeFilename(String::new())));
    assert_eq!(validate_filename(".hidden"), Err(MaterializeError::UnsafeFilename(".hidden".into())));
    assert!(validate_filename("a/b.jar").is_err());
    assert!(validate_filename("a\\b.jar").is_err());
}

#[test]
fn a_relative_path_may_not_climb_out() {
    assert_eq!(safe_join("/libs", "org/x/1.0/x.jar").unwrap(), "/libs/org/x/1.0/x.jar");
    assert_eq!(safe_join("/libs", "a/./b").unwrap(), "/libs/a/./b");
    assert_eq!(safe_join("/libs", "a..b/c").unwrap(), "/libs/a..b/c");
    for bad in ["", "/etc/passwd", "../x", "a/../../x", "a/..", "./x", "."] {
        assert_eq!(
            safe_join("/libs", bad),
            Err(MaterializeError::UnsafePath(bad.to_string())),
            "{bad}"
        );
    }
}

#[test]
fn a_repeated_key_is_fetched_once_at_its_first_place() {
    assert_eq!(first_of_each(&strings(&["a", "b", "a", "c", "b"])), vec![0, 1, 3]);
    assert_eq!(first_of_each(&strings(&[])), Vec::<usize>::new());
}

#[test]
fn objects_live_under_their_hash_prefix() {
    let hash = "0123456789abcdef0123456789abcdef01234567";
    assert_eq!(
        object_path("/assets", hash),
        format!("/assets/objects/01/{hash}")
    );
    assert_eq!(
        object_url(hash),
        format!("https://resources.download.minecraft.net/01/{hash}")
    );
    assert_eq!(index_path("17", "/assets").unwrap(), "/assets/indexes/17.json");
    assert!(index_path("../17", "/assets").is_err());
}

#[test]
fn an_asset_index_plans_each_hash_once() {
    let h1 = "aaaaaaaaaaaaaaaaaaaaaaaaaaaaaaaaaaaaaaaa";
    let h2 = "bbbbbbbbbbbbbbbbbbbbbbbbbbbbbbbbbbbbbbbb";
    let index = Json::Object(vec![(
        "objects".to_string(),
        Json::Object(vec![
            ("icons/a.png".to_string(), object(h1, 10)),
            ("icons/b.png".to_string(), object(h2, 20)),
            ("icons/c.png".to_string(), object(h1, 10)),
        ]),
    )]);
    let plan = plan_assets("17", "/assets", "/game", &index).unwrap();
    assert_eq!(plan.entries.len(), 3);
    assert_eq!(plan.entries[1].name, "icons/b.png");
    assert_eq!(plan.entries[1].size, 20);
    assert_eq!(plan.fetch, vec![0, 1]);
}

#[test]
fn an_asset_index_without_objects_or_with_a_bad_hash_is_refused() {
    let empty = Json::Object(vec![]);
    assert!(matches!(
        plan_assets("17", "/assets", "/game", &empty),
        Err(MaterializeError::NoObjects)
    ));
    let bad = Json::Object(vec![(
        "objects".to_string(),
        Json::Object(vec![("x".to_string(), object("xyz", 1))]),
    )]);
    assert!(matches!(
        plan_assets("17", "/assets", "/game", &bad),
        Err(MaterializeError::InvalidHash(h)) if h == "xyz"
    ));
}
