//! What a launch or a version change decides before any download: whether
//! moving an entry to another version is a downgrade that needs consent,
//! where a launch keeps the client jar, libraries, assets, natives and its
//! session log, which account plays, and what to say when the Java runtime
//! is missing.

use vstd::prelude::*;

use crate::launch::{join_str, path_join};
use crate::materialize::{safe_filename, validate_filename, MaterializeError};
use crate::meta::GameVersion;
use crate::text::{
    chars_of, decimal, decimal_int, decimal_i64, decimal_u64, eq_ignore_case, eq_ignore_case_exec,
    push_all, push_str, str_eq, string_of,
};

verus! {

/// The position of the first version with `id` in a catalogue.
pub open spec fn listed_at(ids: Seq<Seq<char>>, id: Seq<char>) -> Option<int> {
    if exists|i: int| 0 <= i < ids.len() && ids[i] == id {
        Some(choose|i: int| 0 <= i < ids.len() && ids[i] == id && forall|j: int| 0 <= j < i ==> ids[j] != id)
    } else {
        None
    }
}

/// The ids of a catalogue, in its order.
pub open spec fn version_ids(versions: Seq<GameVersion>) -> Seq<Seq<char>> {
    versions.map_values(|v: GameVersion| v.id@)
}

/// Whether moving from `from` to `to` goes back in a newest-first
/// catalogue: `to` listed after `from`. Undecidable (`None`) when the
/// catalogue lists either no longer.
pub open spec fn downgrade_spec(ids: Seq<Seq<char>>, from: Seq<char>, to: Seq<char>) -> Option<bool> {
    match (listed_at(ids, from), listed_at(ids, to)) {
        (Some(a), Some(b)) => Some(b > a),
        _ => None,
    }
}

fn position(versions: &Vec<GameVersion>, id: &str) -> (r: Option<usize>)
    ensures
        r matches Some(i) ==> listed_at(version_ids(versions@), id@) == Some(i as int),
        r is None ==> listed_at(version_ids(versions@), id@) is None,
{
    let ghost ids = version_ids(versions@);
    let mut i: usize = 0;
    while i < versions.len()
        invariant
            ids == version_ids(versions@),
            i <= versions@.len(),
            forall|j: int| 0 <= j < i ==> ids[j] != id@,
        decreases versions.len() - i,
    {
        if str_eq(versions[i].id.as_str(), id) {
            proof {
                assert(ids[i as int] == id@);
                let p = choose|p: int| 0 <= p < ids.len() && ids[p] == id@ && forall|j: int| 0 <= j < p ==> ids[j] != id@;
                if p < i {
                } else if p > i {
                    assert(ids[i as int] == id@);
                }
            }
            return Some(i);
        }
        i += 1;
    }
    proof {
        assert forall|j: int| 0 <= j < ids.len() implies ids[j] != id@ by {
        }
    }
    None
}

/// Whether moving from `from` to `to` is a downgrade by the newest-first
/// catalogue `versions`; `None` when it does not list both.
pub fn downgrade_between(versions: &Vec<GameVersion>, from: &str, to: &str) -> (r: Option<bool>)
    ensures
        r == downgrade_spec(version_ids(versions@), from@, to@),
{
    match (position(versions, from), position(versions, to)) {
        (Some(a), Some(b)) => Some(b > a),
        _ => None,
    }
}

/// An unconfirmed downgrade, refused.
#[derive(Debug, Clone, PartialEq, Eq)]
pub struct DowngradeRefused {
    /// What the game cannot load once written by a newer version: `world`
    /// for a server, `saves` for an instance.
    pub data: String,
    pub name: String,
    pub from: String,
    pub to: String,
}

impl DowngradeRefused {
    /// The message a user sees.
    pub open spec fn message_spec(&self) -> Seq<char> {
        "moving '"@ + self.name@ + "' from "@ + self.from@ + " back to "@ + self.to@
            + " is a downgrade, and Minecraft cannot load "@ + self.data@
            + " written by a newer version; confirm the downgrade to proceed"@
    }

    /// The message a user sees.
    pub fn message(&self) -> (r: String)
        ensures
            r@ == self.message_spec(),
    {
        let mut out: Vec<char> = Vec::new();
        push_str(&mut out, "moving '");
        push_str(&mut out, self.name.as_str());
        push_str(&mut out, "' from ");
        push_str(&mut out, self.from.as_str());
        push_str(&mut out, " back to ");
        push_str(&mut out, self.to.as_str());
        push_str(&mut out, " is a downgrade, and Minecraft cannot load ");
        push_str(&mut out, self.data.as_str());
        push_str(&mut out, " written by a newer version; confirm the downgrade to proceed");
        string_of(&out)
    }
}

/// Refuse an unconfirmed downgrade. A version the catalogue no longer lists
/// is undecidable and passes.
pub fn guard_downgrade(
    data: &str,
    name: &str,
    from: &str,
    to: &str,
    versions: &Vec<GameVersion>,
    allowed: bool,
) -> (r: Result<(), DowngradeRefused>)
    ensures
        r is Err <==> (!allowed && downgrade_spec(version_ids(versions@), from@, to@) == Some(true)),
        r matches Err(e) ==> e.data@ == data@ && e.name@ == name@ && e.from@ == from@ && e.to@ == to@,
{
    if !allowed {
        if let Some(true) = downgrade_between(versions, from, to) {
            return Err(
                DowngradeRefused {
                    data: String::from_str(data),
                    name: String::from_str(name),
                    from: String::from_str(from),
                    to: String::from_str(to),
                },
            );
        }
    }
    Ok(())
}

/// Where one instance launch keeps what it materialises and writes.
#[derive(Debug, Clone)]
pub struct LaunchLayout {
    /// `versions/<v>/<v>.jar`: Mojang's own layout, which a modloader booting
    /// off the module path filters the vanilla jar out by.
    pub client_jar: String,
    pub libraries_root: String,
    pub assets_root: String,
    pub natives_dir: String,
    /// The per-session logs, under the instance root so backups leave them.
    pub logs_dir: String,
    pub log_file: String,
    pub log_config: String,
}

/// The file name of session `seq`'s log with `extension`.
pub open spec fn session_file(seq: u32, extension: Seq<char>) -> Seq<char> {
    "session-"@ + decimal(seq as nat) + extension
}

fn session_name(seq: u32, extension: &str) -> (r: String)
    ensures
        r@ == session_file(seq, extension@),
{
    let mut out: Vec<char> = Vec::new();
    push_str(&mut out, "session-");
    let digits = decimal_u64(seq as u64);
    push_all(&mut out, &digits);
    push_str(&mut out, extension);
    string_of(&out)
}

/// Where a launch of game version `version`, session `seq`, keeps its files
/// under the shared metadata root `meta` and the instance directory; the
/// version must be a plain file name, since it names a directory and a jar.
pub fn launch_layout(meta: &str, instance_dir: &str, version: &str, seq: u32) -> (r: Result<LaunchLayout, MaterializeError>)
    ensures
        !safe_filename(version@) ==> (r matches Err(MaterializeError::UnsafeFilename(n)) && n@ == version@),
        safe_filename(version@) ==> (r matches Ok(l) && {
            &&& l.client_jar@ == path_join(path_join(path_join(meta@, "versions"@), version@), version@ + ".jar"@)
            &&& l.libraries_root@ == path_join(meta@, "libraries"@)
            &&& l.assets_root@ == path_join(meta@, "assets"@)
            &&& l.natives_dir@ == path_join(path_join(meta@, "natives"@), version@)
            &&& l.logs_dir@ == path_join(instance_dir@, "logs"@)
            &&& l.log_file@ == path_join(l.logs_dir@, session_file(seq, ".log"@))
            &&& l.log_config@ == path_join(l.logs_dir@, session_file(seq, ".xml"@))
        }),
{
    validate_filename(version)?;
    let versions = join_str(meta, "versions");
    let dir = join_str(versions.as_str(), version);
    let mut jar = chars_of(version);
    push_str(&mut jar, ".jar");
    let jar_name = string_of(&jar);
    let client_jar = join_str(dir.as_str(), jar_name.as_str());
    let natives = join_str(meta, "natives");
    let logs_dir = join_str(instance_dir, "logs");
    let log_name = session_name(seq, ".log");
    let config_name = session_name(seq, ".xml");
    let log_file = join_str(logs_dir.as_str(), log_name.as_str());
    let log_config = join_str(logs_dir.as_str(), config_name.as_str());
    Ok(
        LaunchLayout {
            client_jar,
            libraries_root: join_str(meta, "libraries"),
            assets_root: join_str(meta, "assets"),
            natives_dir: join_str(natives.as_str(), version),
            logs_dir,
            log_file,
            log_config,
        },
    )
}

/// A signed-in account as a launch matches it.
#[derive(Debug, Clone)]
pub struct AccountRef {
    pub name: String,
    pub uuid: String,
}

/// Whether `a` answers to `reference`: its name, ignoring ASCII case, or its
/// uuid exactly.
pub open spec fn answers_to(a: AccountRef, reference: Seq<char>) -> bool {
    eq_ignore_case(a.name@, reference) || a.uuid@ == reference
}

/// The first account of `accounts` that answers to a non-empty `reference`.
pub fn match_account(accounts: &Vec<AccountRef>, reference: &str) -> (r: Option<usize>)
    ensures
        r matches Some(i) ==> i < accounts@.len() && answers_to(accounts@[i as int], reference@) && forall|j: int|
            0 <= j < i ==> !answers_to(#[trigger] accounts@[j], reference@),
        r is None ==> forall|j: int| 0 <= j < accounts@.len() ==> !answers_to(#[trigger] accounts@[j], reference@),
{
    let rc = chars_of(reference);
    let mut i: usize = 0;
    while i < accounts.len()
        invariant
            rc@ == reference@,
            i <= accounts@.len(),
            forall|j: int| 0 <= j < i ==> !answers_to(#[trigger] accounts@[j], reference@),
        decreases accounts.len() - i,
    {
        let a = &accounts[i];
        let nc = chars_of(a.name.as_str());
        if eq_ignore_case_exec(&nc, &rc) || str_eq(a.uuid.as_str(), reference) {
            return Some(i);
        }
        i += 1;
    }
    None
}

/// What a launch says when the runtime its profile needs is not installed.
pub fn java_missing(major: i32) -> (r: String)
    ensures
        r@ == "java "@ + decimal_int(major as int) + " is not installed (run `hestia java install "@ + decimal_int(
            major as int,
        ) + "`)"@,
{
    let digits = decimal_i64(major as i64);
    let mut out: Vec<char> = Vec::new();
    push_str(&mut out, "java ");
    push_all(&mut out, &digits);
    push_str(&mut out, " is not installed (run `hestia java install ");
    push_all(&mut out, &digits);
    push_str(&mut out, "`)");
    string_of(&out)
}

/// The way back from a downgrade is an upgrade, and staying on a version is
/// never a downgrade: by one catalogue, at most one direction of a move needs
/// consent.
pub proof fn lemma_downgrade_is_one_way(ids: Seq<Seq<char>>, a: Seq<char>, b: Seq<char>)
    ensures
        downgrade_spec(ids, a, b) == Some(true) ==> downgrade_spec(ids, b, a) == Some(false),
        downgrade_spec(ids, a, a) != Some(true),
{
}

} // verus!
