use engine::order::{lex_less, newest_first, sorted_unique};
use engine::screenshots::{
    is_png, missing_screenshot, newest_first_listing, screenshot_dir, Screenshot,
};

fn shot(instance: &str, file: &str, taken: i64) -> Screenshot {
    Screenshot {
        instance: instance.to_string(),
        instance_name: instance.to_string(),
        file: file.to_string(),
        path: format!("/data/{instance}/screenshots/{file}"),
        taken_unix: taken,
        bytes: 1,
    }
}

#[test]
fn screenshots_list_newest_first_then_by_name() {
    let shots = vec![
        shot("a", "2024-01-01.png", 100),
        shot("b", "b.png", 300),
        shot("a", "a.png", 300),
        shot("b", "a.png", 300),
        shot("a", "old.png", 50),
    ];
    let listed = newest_first_listing(&shots);
    let seen: Vec<(&str, &str)> =
        listed.iter().map(|s| (s.instance.as_str(), s.file.as_str())).collect();
    assert_eq!(
        seen,
        [("a", "a.png"), ("b", "a.png"), ("b", "b.png"), ("a", "2024-01-01.png"), ("a", "old.png")],
        "ties on both keys keep their given order"
    );
}

#[test]
fn only_png_files_are_screenshots() {
    assert!(is_png("2024-05-01_12.00.00.png"));
    assert!(is_png("shot.PNG"));
    assert!(!is_png("shot.jpg"));
    assert!(!is_png(".png"), "a dot file has no extension");
    assert!(!is_png("png"));
    assert!(!is_png("shot."));
    assert_eq!(screenshot_dir("/data/i/data"), "/data/i/data/screenshots");
    assert_eq!(missing_screenshot("x.png", "Main"), "no screenshot 'x.png' in 'Main'");
}

#[test]
fn text_orders_by_code_point() {
    assert!(lex_less("a", "b"));
    assert!(lex_less("ab", "abc"));
    assert!(!lex_less("abc", "ab"));
    assert!(!lex_less("same", "same"));
    assert!(lex_less("Z", "a"), "upper case sorts first");
    assert!(lex_less("", "a"));
}

#[test]
fn ids_are_looked_up_once_each_in_order() {
    let ids = vec!["P7dR8mSH".to_string(), "AANobbMI".to_string(), "P7dR8mSH".to_string()];
    assert_eq!(sorted_unique(&ids), ["AANobbMI", "P7dR8mSH"]);
    assert!(sorted_unique(&vec![]).is_empty());
}

#[test]
fn the_raw_order_is_a_permutation() {
    let files: Vec<String> = ["b", "a", "c"].iter().map(|s| s.to_string()).collect();
    assert_eq!(newest_first(&vec![1, 1, 2], &files), vec![2, 1, 0]);
}
