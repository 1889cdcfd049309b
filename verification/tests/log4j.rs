use engine::log4j::{session_config, xml_escape};

#[test]
fn config_is_log4shell_safe_and_points_at_the_file() {
    let xml = session_config("/data/logs/session-3.log");
    assert!(xml.contains(r#"fileName="/data/logs/session-3.log""#));
    assert!(
        xml.contains("%m{nolookups}"),
        "message lookups must be disabled"
    );
    assert!(!xml.contains("${"), "no interpolation left in the template");
}

#[test]
fn special_characters_in_the_path_are_escaped() {
    let xml = session_config("/home/a & b/logs/s.log");
    assert!(xml.contains("a &amp; b"));
    assert!(!xml.contains("a & b"));
}

#[test]
fn every_special_character_has_its_entity() {
    assert_eq!(xml_escape("<a href=\"x\">'&'</a>"), "&lt;a href=&quot;x&quot;&gt;&apos;&amp;&apos;&lt;/a&gt;");
    assert_eq!(xml_escape("plain"), "plain");
}
