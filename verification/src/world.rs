//! A save world described from its `level.dat`: the in-game name, how it
//! plays, which version wrote it and when it was last opened. Every field is
//! best-effort: a save that cannot be read still lists, as its folder, with
//! `read` false. The files are the caller's; the NBT compound arrives here as
//! the plain values it holds.

use vstd::prelude::*;

use std::io::Read;

use crate::skins::{base64_encode, base64_standard};
use crate::text::trim;

verus! {

/// How a world plays.
#[derive(Debug, Clone, Copy, PartialEq, Eq, Structural)]
pub enum GameMode {
    Survival,
    Creative,
    Adventure,
    Spectator,
}

/// A world's difficulty.
#[derive(Debug, Clone, Copy, PartialEq, Eq, Structural)]
pub enum Difficulty {
    Peaceful,
    Easy,
    Normal,
    Hard,
}

/// The game mode a `GameType` number stands for; an unknown one is
/// survival.
pub open spec fn game_mode_spec(value: i32) -> GameMode {
    if value == 1 {
        GameMode::Creative
    } else if value == 2 {
        GameMode::Adventure
    } else if value == 3 {
        GameMode::Spectator
    } else {
        GameMode::Survival
    }
}

/// The game mode a `GameType` number stands for.
pub fn game_mode(value: i32) -> (r: GameMode)
    ensures
        r == game_mode_spec(value),
{
    match value {
        1 => GameMode::Creative,
        2 => GameMode::Adventure,
        3 => GameMode::Spectator,
        _ => GameMode::Survival,
    }
}

/// The difficulty a `Difficulty` number stands for (saves before 1.13 used
/// the same numbering); an unknown one is normal.
pub open spec fn difficulty_spec(value: i8) -> Difficulty {
    if value == 0 {
        Difficulty::Peaceful
    } else if value == 1 {
        Difficulty::Easy
    } else if value == 3 {
        Difficulty::Hard
    } else {
        Difficulty::Normal
    }
}

/// The difficulty a `Difficulty` number stands for.
pub fn difficulty(value: i8) -> (r: Difficulty)
    ensures
        r == difficulty_spec(value),
{
    match value {
        0 => Difficulty::Peaceful,
        1 => Difficulty::Easy,
        3 => Difficulty::Hard,
        _ => Difficulty::Normal,
    }
}

/// The fields of `level.dat`'s `Data` compound a listing shows, each at its
/// default (empty, zero, absent) where the save does not carry it.
#[derive(Debug, Clone, Default)]
pub struct LevelData {
    pub level_name: String,
    pub game_type: i32,
    pub difficulty: i8,
    pub hardcore: i8,
    pub allow_commands: i8,
    /// Milliseconds since the epoch.
    pub last_played: i64,
    /// The `Version.Name` of the game that last wrote the save.
    pub version: Option<String>,
}

/// One save world, as a listing shows it.
#[derive(Debug, Clone)]
pub struct WorldInfo {
    /// The folder under `saves/`.
    pub folder: String,
    /// The in-game name, or the folder when the save names none.
    pub name: String,
    pub size_bytes: u64,
    /// The world's thumbnail, base64; empty when it has none.
    pub icon: String,
    /// Whether `level.dat` could be read at all.
    pub read: bool,
    pub game_mode: GameMode,
    pub difficulty: Difficulty,
    pub hardcore: bool,
    pub cheats: bool,
    /// Unix seconds of the last play, when the save knows it.
    pub last_played_unix: Option<i64>,
    pub version: String,
}

/// The bytes flate2's gzip reader decodes `bytes` to, `None` when it refuses
/// them.
pub uninterp spec fn gunzipped(bytes: Seq<u8>) -> Option<Seq<u8>>;

/// flate2's `read::GzDecoder` read to the end over `bytes`: the decoded
/// bytes, or `None` for its I/O error.
#[verifier::external_body]
fn gunzip(bytes: &[u8]) -> (r: Option<Vec<u8>>)
    ensures
        r matches Some(out) ==> gunzipped(bytes@) == Some(out@),
        r is None ==> gunzipped(bytes@) is None,
{
    let mut out = Vec::new();
    match flate2::read::GzDecoder::new(bytes).read_to_end(&mut out) {
        Ok(_) => Some(out),
        Err(_) => None,
    }
}

/// The NBT a `level.dat` holds: its gzip content, or the file as it stands
/// when it is not gzipped (a hand-unpacked save is plain NBT).
pub open spec fn level_source_spec(file: Seq<u8>) -> Seq<u8> {
    match gunzipped(file) {
        Some(decoded) => decoded,
        None => file,
    }
}

/// The NBT a `level.dat` file holds.
pub fn level_source(file: &[u8]) -> (r: Vec<u8>)
    ensures
        r@ == level_source_spec(file@),
{
    match gunzip(file) {
        Some(decoded) => decoded,
        None => {
            let mut out: Vec<u8> = Vec::new();
            let mut i: usize = 0;
            while i < file.len()
                invariant
                    i <= file@.len(),
                    out@ == file@.take(i as int),
                decreases file.len() - i,
            {
                out.push(file[i]);
                assert(out@ =~= file@.take(i + 1));
                i += 1;
            }
            assert(file@.take(file@.len() as int) =~= file@);
            out
        },
    }
}

/// A world's thumbnail as a listing carries it: the icon's bytes in
/// base64, empty when there is no readable icon.
pub fn icon_text(icon: &Option<Vec<u8>>) -> (r: String)
    requires
        icon matches Some(b) ==> b@.len() / 3 * 4 + 4 <= usize::MAX,
    ensures
        r@ == (match icon {
            Some(b) => base64_standard(b@),
            None => Seq::empty(),
        }),
{
    match icon {
        Some(bytes) => base64_encode(bytes.as_slice()),
        None => String::new(),
    }
}

/// The description of world `folder` with the given size and icon: from its
/// level data when that could be read, else the folder alone.
pub fn describe(folder: &str, size_bytes: u64, icon: String, level: Option<LevelData>) -> (r: WorldInfo)
    ensures
        r.folder@ == folder@,
        r.size_bytes == size_bytes,
        r.icon == icon,
        r.read == level is Some,
        match level {
            None => {
                &&& r.name@ == folder@
                &&& r.game_mode == GameMode::Survival
                &&& r.difficulty == Difficulty::Normal
                &&& !r.hardcore && !r.cheats
                &&& r.last_played_unix is None
                &&& r.version@.len() == 0
            },
            Some(d) => {
                &&& r.name@ == (if trim(d.level_name@).len() == 0 {
                    folder@
                } else {
                    d.level_name@
                })
                &&& r.game_mode == game_mode_spec(d.game_type)
                &&& r.difficulty == difficulty_spec(d.difficulty)
                &&& r.hardcore == (d.hardcore != 0)
                &&& r.cheats == (d.allow_commands != 0)
                &&& r.last_played_unix == (if d.last_played > 0 {
                    Some((d.last_played / 1000) as i64)
                } else {
                    None
                })
                &&& r.version@ == (match d.version {
                    Some(v) => v@,
                    None => Seq::empty(),
                })
            },
        },
{
    match level {
        None => WorldInfo {
            folder: String::from_str(folder),
            name: String::from_str(folder),
            size_bytes,
            icon,
            read: false,
            game_mode: GameMode::Survival,
            difficulty: Difficulty::Normal,
            hardcore: false,
            cheats: false,
            last_played_unix: None,
            version: String::new(),
        },
        Some(d) => {
            let named = crate::text::trim_str(d.level_name.as_str()).len() > 0;
            let name = if named {
                d.level_name
            } else {
                String::from_str(folder)
            };
            let last_played_unix = if d.last_played > 0 {
                Some(d.last_played / 1000)
            } else {
                None
            };
            let version = match d.version {
                Some(v) => v,
                None => String::new(),
            };
            WorldInfo {
                folder: String::from_str(folder),
                name,
                size_bytes,
                icon,
                read: true,
                game_mode: game_mode(d.game_type),
                difficulty: difficulty(d.difficulty),
                hardcore: d.hardcore != 0,
                cheats: d.allow_commands != 0,
                last_played_unix,
                version,
            }
        },
    }
}

} // verus!
