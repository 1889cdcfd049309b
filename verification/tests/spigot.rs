use engine::spigot::{java_major, names};

#[test]
fn the_index_yields_names_without_the_latest_alias() {
    let index = r#"<a href="../">../</a>
<a href="1.21.4.json">1.21.4.json</a>   28-Sep-2025
<a href="4458.json">4458.json</a>       28-Sep-2025
<a href="latest.json">latest.json</a>   28-Sep-2025"#;
    assert_eq!(names(index), ["1.21.4", "4458"]);
}

#[test]
fn the_java_is_the_first_required_major_in_range() {
    assert_eq!(java_major(&vec![]), 8);
    assert_eq!(java_major(&vec![17, 21]), 17);
    assert_eq!(java_major(&vec![18, 20]), 18);
    assert_eq!(java_major(&vec![21, 23]), 21);
}
