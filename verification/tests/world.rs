use std::io::Write;

use engine::world::{
    describe, difficulty, game_mode, icon_text, level_source, Difficulty, GameMode, LevelData,
};

fn gzip(bytes: &[u8]) -> Vec<u8> {
    let mut encoder = flate2::write::GzEncoder::new(Vec::new(), flate2::Compression::default());
    encoder.write_all(bytes).unwrap();
    encoder.finish().unwrap()
}

fn level(name: &str, game_type: i32, hardcore: bool) -> LevelData {
    LevelData {
        level_name: name.to_string(),
        game_type,
        difficulty: 2,
        hardcore: u8::from(hardcore) as i8,
        allow_commands: 0,
        last_played: 1_751_000_000_000,
        version: Some("1.21.1".to_string()),
    }
}

#[test]
fn a_world_is_described_from_its_level_dat() {
    let icon = icon_text(&Some(b"not really a png".to_vec()));
    let info = describe("world-folder", 4096, icon, Some(level("My Survival Base", 0, true)));
    assert!(info.read);
    assert_eq!(info.folder, "world-folder");
    assert_eq!(info.name, "My Survival Base", "the display name, not the folder");
    assert_eq!(info.version, "1.21.1");
    assert_eq!(info.game_mode, GameMode::Survival);
    assert_eq!(info.difficulty, Difficulty::Normal);
    assert!(info.hardcore);
    assert!(!info.cheats);
    assert_eq!(info.last_played_unix, Some(1_751_000_000));
    assert!(!info.icon.is_empty(), "the world's own thumbnail rides along");
    assert_eq!(info.icon, "bm90IHJlYWxseSBhIHBuZw==");
    assert_eq!(info.size_bytes, 4096);
}

#[test]
fn an_unreadable_world_still_lists_as_its_folder() {
    for folder in ["corrupt", "bare"] {
        let info = describe(folder, 0, icon_text(&None), None);
        assert!(!info.read, "{folder} cannot be read");
        assert_eq!(info.name, folder, "falls back to the folder name");
        assert_eq!(info.version, "");
        assert_eq!(info.last_played_unix, None);
        assert_eq!(info.icon, "");
    }
}

#[test]
fn plain_nbt_is_read_too() {
    let nbt = b"\x0a\x00\x00\x00".to_vec();
    assert_eq!(level_source(&gzip(&nbt)), nbt, "a gzipped level.dat is unpacked");
    assert_eq!(level_source(&nbt), nbt, "a hand-unpacked save is read as it stands");
    let info = describe("unpacked", 0, String::new(), Some(level("Flat", 1, false)));
    assert!(info.read);
    assert_eq!(info.name, "Flat");
    assert_eq!(info.game_mode, GameMode::Creative);
}

#[test]
fn a_blank_name_or_unknown_time_is_not_invented() {
    let mut d = level("   ", 7, false);
    d.last_played = 0;
    d.version = None;
    d.allow_commands = 1;
    let info = describe("folder", 0, String::new(), Some(d));
    assert_eq!(info.name, "folder");
    assert_eq!(info.last_played_unix, None, "zero is unknown, not 1970");
    assert_eq!(info.version, "");
    assert!(info.cheats);
    assert_eq!(info.game_mode, GameMode::Survival);
}

#[test]
fn mode_and_difficulty_numbers_map_to_names() {
    assert_eq!(game_mode(1), GameMode::Creative);
    assert_eq!(game_mode(2), GameMode::Adventure);
    assert_eq!(game_mode(3), GameMode::Spectator);
    assert_eq!(game_mode(-1), GameMode::Survival);
    assert_eq!(difficulty(0), Difficulty::Peaceful);
    assert_eq!(difficulty(1), Difficulty::Easy);
    assert_eq!(difficulty(2), Difficulty::Normal);
    assert_eq!(difficulty(3), Difficulty::Hard);
    assert_eq!(difficulty(9), Difficulty::Normal);
}
