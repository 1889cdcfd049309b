use engine::servers::{
    edit_entry, find, from_entry, into_entry, remove_entry, reposition, FileEntry, ListEditError,
    ServerEntry,
};

fn entry(name: &str, address: &str) -> ServerEntry {
    ServerEntry { name: name.into(), address: address.into(), ..ServerEntry::default() }
}

fn names(servers: &[ServerEntry]) -> Vec<&str> {
    servers.iter().map(|s| s.name.as_str()).collect()
}

#[test]
fn an_entry_moves_to_a_visible_position() {
    let mut servers = vec![entry("A", "a.net"), entry("B", "b.net"), entry("C", "c.net")];
    assert!(reposition(&mut servers, 2, 0));
    assert_eq!(names(&servers), ["C", "A", "B"]);
    assert!(reposition(&mut servers, 0, 2));
    assert_eq!(names(&servers), ["A", "B", "C"]);
}

#[test]
fn a_hidden_row_is_not_counted_as_a_position() {
    let hidden = ServerEntry { hidden: true, ..entry("scratch", "direct.example.net") };
    let mut servers = vec![entry("A", "a.net"), hidden, entry("B", "b.net")];
    assert!(reposition(&mut servers, 2, 0));
    assert_eq!(names(&servers), ["B", "A", "scratch"]);
}

#[test]
fn a_position_past_the_end_leaves_the_list_alone() {
    let mut servers = vec![entry("A", "a.net"), entry("B", "b.net")];
    assert!(!reposition(&mut servers, 0, 2));
    assert_eq!(names(&servers), ["A", "B"]);
}

#[test]
fn an_entry_is_found_by_name_or_address_ignoring_case() {
    let servers = vec![entry("Hermitcraft", "smp.example.net")];
    assert_eq!(find(&servers, "hermitcraft"), Some(0));
    assert_eq!(find(&servers, "SMP.example.net"), Some(0));
    assert_eq!(find(&servers, "nothing"), None);
}

#[test]
fn a_list_round_trips_through_the_file() {
    let servers = vec![
        ServerEntry {
            accept_textures: true,
            icon: "aWNvbg==".into(),
            ..entry("Hermitcraft", "smp.example.net:25565")
        },
        entry("LAN box", "192.168.1.10"),
        ServerEntry { hidden: true, ..entry("scratch", "direct.example.net") },
    ];
    let rows: Vec<FileEntry> = servers.iter().map(from_entry).collect();
    assert_eq!(rows[0].accept_textures, Some(1));
    assert_eq!(rows[1].accept_textures, Some(0));
    assert_eq!(rows[1].hidden, None, "a visible row writes no hidden flag");
    assert_eq!(rows[2].hidden, Some(1));
    let back: Vec<ServerEntry> = rows.into_iter().map(into_entry).collect();
    assert_eq!(back, servers);
}

#[test]
fn an_omitted_flag_reads_as_off() {
    let row = FileEntry { name: "Old".into(), ip: "old.net".into(), ..FileEntry::default() };
    let e = into_entry(row);
    assert!(!e.accept_textures);
    assert!(!e.hidden);
    let row = FileEntry { accept_textures: Some(5), hidden: Some(0), ..FileEntry::default() };
    let e = into_entry(row);
    assert!(e.accept_textures);
    assert!(!e.hidden);
}

#[test]
fn an_edit_adds_or_rewrites_keeping_the_cached_icon() {
    let mut list = vec![ServerEntry { icon: "cached".into(), ..entry("Hermitcraft", "smp.example.net") }];
    edit_entry(&mut list, "", entry("  LAN box ", " 192.168.1.10 ")).unwrap();
    assert_eq!(list.len(), 2);
    assert_eq!(list[1].name, "LAN box");
    assert_eq!(list[1].address, "192.168.1.10");
    edit_entry(&mut list, "hermitcraft", ServerEntry { icon: "new".into(), ..entry("Hermit", "hermit.net") })
        .unwrap();
    assert_eq!(list[0].name, "Hermit");
    assert_eq!(list[0].icon, "cached", "the icon is the game's cache for that row");
    assert_eq!(
        edit_entry(&mut list, "ghost", entry("X", "x.net")),
        Err(ListEditError::NotFound("ghost".into()))
    );
    assert_eq!(edit_entry(&mut list, "", entry("   ", "x.net")), Err(ListEditError::NameRequired));
    assert_eq!(list.len(), 2);
    remove_entry(&mut list, "LAN BOX").unwrap();
    assert_eq!(names(&list), ["Hermit"]);
    assert!(remove_entry(&mut list, "LAN box").is_err());
}
