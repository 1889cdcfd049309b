//! The rules a content or pack operation applies to one entry: which loader
//! a lookup filters by, which directory an archive path manages, whether a
//! project may go on a side, and how entries and items are named.

use vstd::prelude::*;

use crate::provider::{ContentKind, Side};
use crate::launch::{join_str, path_join};
use crate::text::{
    chars_eq, chars_of, has_char, has_sub, contains_str, push_all, push_str, split_once,
    split_once_spec, str_eq, string_of, trim, trim_chars, trim_str, eq_ignore_case,
    eq_ignore_case_exec, rfind_char,
};

verus! {

/// The noun a side is called by in messages.
pub open spec fn noun_spec(side: Side) -> Seq<char> {
    match side {
        Side::Server => "server"@,
        Side::Client => "instance"@,
    }
}

/// The noun a side is called by in messages.
pub fn noun(side: Side) -> (r: &'static str)
    ensures
        r@ == noun_spec(side),
{
    match side {
        Side::Server => "server",
        Side::Client => "instance",
    }
}

/// The loader filter a kind's version lookup needs: the entry's own flavor
/// for mods and plugins, `datapack` for datapacks, none otherwise.
pub open spec fn content_loader_spec(kind: ContentKind, flavor: Seq<char>) -> Option<Seq<char>> {
    match kind {
        ContentKind::Mod | ContentKind::Plugin => Some(flavor),
        ContentKind::DataPack => Some("datapack"@),
        _ => None,
    }
}

/// The loader filter a kind's version lookup needs.
pub fn content_loader(kind: ContentKind, flavor: &str) -> (r: Option<String>)
    ensures
        r matches Some(s) ==> content_loader_spec(kind, flavor@) == Some(s@),
        r is None ==> content_loader_spec(kind, flavor@) is None,
{
    match kind {
        ContentKind::Mod | ContentKind::Plugin => Some(String::from_str(flavor)),
        ContentKind::DataPack => Some(String::from_str("datapack")),
        _ => None,
    }
}

/// Whether a project declares support for a side.
#[derive(Debug, Clone, Copy, PartialEq, Eq, Structural)]
pub enum SideSupport {
    Required,
    Optional,
    Unsupported,
    Unknown,
}

/// Why a project cannot go on an entry's side.
#[derive(Debug, Clone, PartialEq, Eq)]
pub struct SideRefusal {
    pub title: String,
    pub side: Side,
}

impl SideRefusal {
    /// The message a user is shown.
    pub fn message(&self) -> (r: String)
        ensures
            r@ == "'"@ + self.title@ + "' does not support the "@ + noun_spec(self.side) + " side"@,
    {
        let mut out: Vec<char> = Vec::new();
        push_str(&mut out, "'");
        push_str(&mut out, self.title.as_str());
        push_str(&mut out, "' does not support the ");
        push_str(&mut out, noun(self.side));
        push_str(&mut out, " side");
        string_of(&out)
    }
}

/// Refuse content the platform marks unsupported for the entry's side;
/// datapacks are exempt, and a side the platform said nothing of passes.
pub fn side_gate(
    requested: ContentKind,
    title: &str,
    server_side: SideSupport,
    client_side: SideSupport,
    side: Side,
) -> (r: Result<(), SideRefusal>)
    ensures
        r is Ok <==> (requested == ContentKind::DataPack || (match side {
            Side::Server => server_side,
            Side::Client => client_side,
        }) != SideSupport::Unsupported),
        r matches Err(e) ==> e.title@ == title@ && e.side == side,
{
    if requested == ContentKind::DataPack {
        return Ok(());
    }
    let support = match side {
        Side::Server => server_side,
        Side::Client => client_side,
    };
    if support == SideSupport::Unsupported {
        return Err(SideRefusal { title: String::from_str(title), side });
    }
    Ok(())
}

/// The content kind an archive path manages: a file directly inside one of
/// the loader directories (`mods/`, `plugins/`, `resourcepacks/`,
/// `shaderpacks/`), and nothing for any other path.
pub open spec fn managed_kind_spec(path: Seq<char>) -> Option<ContentKind> {
    match split_once_spec(path, '/') {
        None => None,
        Some((dir, rest)) => if rest.len() == 0 || rest.contains('/') {
            None
        } else if dir == "mods"@ {
            Some(ContentKind::Mod)
        } else if dir == "plugins"@ {
            Some(ContentKind::Plugin)
        } else if dir == "resourcepacks"@ {
            Some(ContentKind::ResourcePack)
        } else if dir == "shaderpacks"@ {
            Some(ContentKind::Shader)
        } else {
            None
        },
    }
}

/// The content kind an archive path manages, if any.
pub fn managed_kind(path: &str) -> (r: Option<ContentKind>)
    ensures
        r == managed_kind_spec(path@),
{
    let cs = chars_of(path);
    let (dir, rest) = match split_once(&cs, '/') {
        Some(parts) => parts,
        None => return None,
    };
    if rest.len() == 0 || has_char(&rest, '/') {
        return None;
    }
    let d = string_of(&dir);
    if str_eq(d.as_str(), "mods") {
        Some(ContentKind::Mod)
    } else if str_eq(d.as_str(), "plugins") {
        Some(ContentKind::Plugin)
    } else if str_eq(d.as_str(), "resourcepacks") {
        Some(ContentKind::ResourcePack)
    } else if str_eq(d.as_str(), "shaderpacks") {
        Some(ContentKind::Shader)
    } else {
        None
    }
}

/// The directory under an entry root that holds a kind's managed files.
pub open spec fn kind_dir_spec(kind: ContentKind) -> Seq<char> {
    match kind {
        ContentKind::Mod => "mods"@,
        ContentKind::Plugin => "plugins"@,
        ContentKind::ResourcePack => "resourcepacks"@,
        ContentKind::Shader => "shaderpacks"@,
        ContentKind::DataPack => "datapacks"@,
    }
}

/// The directory that holds a kind's managed files.
pub fn kind_dir(kind: ContentKind) -> (r: &'static str)
    ensures
        r@ == kind_dir_spec(kind),
{
    match kind {
        ContentKind::Mod => "mods",
        ContentKind::Plugin => "plugins",
        ContentKind::ResourcePack => "resourcepacks",
        ContentKind::Shader => "shaderpacks",
        ContentKind::DataPack => "datapacks",
    }
}

/// The managed path a kind's file occupies under the entry root: judged by
/// the requested kind, so a datapack that the platform types as a mod still
/// lands among the datapacks.
pub fn content_target(entry_dir: &str, kind: ContentKind, filename: &str) -> (r: String)
    ensures
        r@ == path_join(path_join(entry_dir@, kind_dir_spec(kind)), filename@),
{
    let dir = join_str(entry_dir, kind_dir(kind));
    join_str(dir.as_str(), filename)
}

/// A flat load directory's file maps back to the kind that directory holds:
/// `managed_kind` reads the kind off any path `kind_dir` names, for every
/// kind but datapacks, which are world data rather than loader content.
pub proof fn lemma_kind_dir_round_trip(kind: ContentKind, filename: Seq<char>)
    requires
        kind != ContentKind::DataPack,
        filename.len() > 0,
        !filename.contains('/'),
    ensures
        managed_kind_spec(kind_dir_spec(kind) + "/"@ + filename) == Some(kind),
{
    reveal_strlit("mods");
    reveal_strlit("plugins");
    reveal_strlit("resourcepacks");
    reveal_strlit("shaderpacks");
    reveal_strlit("/");
    let dir = kind_dir_spec(kind);
    let path = dir + "/"@ + filename;
    assert(!dir.contains('/'));
    assert(path[dir.len() as int] == '/');
    assert(path.contains('/'));
    let i = choose|i: int| 0 <= i < path.len() && path[i] == '/' && forall|k: int| 0 <= k < i ==> path[k] != '/';
    if i < dir.len() {
        assert(dir[i] == '/');
    }
    if i > dir.len() {
        assert(path[dir.len() as int] != '/');
    }
    assert(path.take(i) =~= dir);
    assert(path.skip(i + 1) =~= filename);
}

/// Who an `origin` tag says installed an item, for a refusal that names
/// where to go instead.
pub open spec fn origin_owner_spec(origin: Seq<char>) -> Seq<char> {
    match split_once_spec(origin, ':') {
        Some((scope, name)) => if scope == "modpack"@ {
            "modpack '"@ + name + "'"@
        } else {
            "global profile '"@ + name + "'"@
        },
        None => "'"@ + origin + "'"@,
    }
}

/// Who an `origin` tag says installed an item.
pub fn origin_owner(origin: &str) -> (r: String)
    ensures
        r@ == origin_owner_spec(origin@),
{
    let cs = chars_of(origin);
    let mut out: Vec<char> = Vec::new();
    match split_once(&cs, ':') {
        Some((scope, name)) => {
            let s = string_of(&scope);
            if str_eq(s.as_str(), "modpack") {
                push_str(&mut out, "modpack '");
            } else {
                push_str(&mut out, "global profile '");
            }
            push_all(&mut out, &name);
            push_str(&mut out, "'");
        },
        None => {
            push_str(&mut out, "'");
            push_all(&mut out, &cs);
            push_str(&mut out, "'");
        },
    }
    string_of(&out)
}

/// `given` trimmed when it says anything, else `fallback` as it stands.
pub open spec fn given_or(given: Seq<char>, fallback: Seq<char>) -> Seq<char> {
    if trim(given).len() == 0 {
        fallback
    } else {
        trim(given)
    }
}

/// The name a modpack install gives its entry: the name asked for, trimmed,
/// else the pack's own.
pub fn pack_entry_name(given: &str, pack_name: &str) -> (r: String)
    ensures
        r@ == given_or(given@, pack_name@),
{
    let t = trim_str(given);
    if t.len() == 0 {
        String::from_str(pack_name)
    } else {
        string_of(&t)
    }
}

/// The name an import gives its instance: the name asked for, else the
/// archive's own, each trimmed.
pub fn pick_name(requested: &str, from_archive: &str) -> (r: String)
    ensures
        r@ == (if trim(requested@).len() == 0 {
            trim(from_archive@)
        } else {
            trim(requested@)
        }),
{
    let t = trim_str(requested);
    if t.len() == 0 {
        string_of(&trim_str(from_archive))
    } else {
        string_of(&t)
    }
}

/// The name an entry is given when none was asked for: `<flavor>-<version>`.
pub fn effective_name(name: &str, flavor: &str, version: &str) -> (r: String)
    ensures
        r@ == (if trim(name@).len() == 0 {
            flavor@ + "-"@ + version@
        } else {
            trim(name@)
        }),
{
    let t = trim_str(name);
    if t.len() == 0 {
        let mut out: Vec<char> = Vec::new();
        push_str(&mut out, flavor);
        push_str(&mut out, "-");
        push_str(&mut out, version);
        string_of(&out)
    } else {
        string_of(&t)
    }
}

/// A modpack's display name: its own, else its project's title, else
/// `modpack`.
pub fn pack_display_name(pack_name: &str, project_title: Option<&str>) -> (r: String)
    ensures
        pack_name@.len() > 0 ==> r@ == pack_name@,
        pack_name@.len() == 0 ==> r@ == (match project_title {
            Some(t) => if t@.len() > 0 {
                t@
            } else {
                "modpack"@
            },
            None => "modpack"@,
        }),
{
    if pack_name.unicode_len() > 0 {
        return String::from_str(pack_name);
    }
    match project_title {
        Some(t) => if t.unicode_len() > 0 {
            String::from_str(t)
        } else {
            String::from_str("modpack")
        },
        None => String::from_str("modpack"),
    }
}

/// What identifies an item in a failure: its project, else its URL, else
/// its path, else a placeholder.
pub fn item_label(project: &str, url: &str, path: &str) -> (r: String)
    ensures
        r@ == (if project@.len() > 0 {
            project@
        } else if url@.len() > 0 {
            url@
        } else if path@.len() > 0 {
            path@
        } else {
            "(empty item)"@
        }),
{
    if project.unicode_len() > 0 {
        String::from_str(project)
    } else if url.unicode_len() > 0 {
        String::from_str(url)
    } else if path.unicode_len() > 0 {
        String::from_str(path)
    } else {
        String::from_str("(empty item)")
    }
}

/// What a shared pack is selected by: its project, else its file name.
pub fn selector(project: &str, filename: &str) -> (r: String)
    ensures
        r@ == (if project@.len() == 0 {
            filename@
        } else {
            project@
        }),
{
    if project.unicode_len() == 0 {
        String::from_str(filename)
    } else {
        String::from_str(project)
    }
}

/// Why a screenshot name was refused.
#[derive(Debug, Clone, PartialEq, Eq)]
pub struct NameRefused {
    pub name: String,
}

/// Whether a trimmed client-supplied name could only be a file in one
/// directory: non-empty, with no separator and no `..`.
pub open spec fn safe_name_ok(name: Seq<char>) -> bool {
    name.len() > 0 && !name.contains('/') && !name.contains('\\') && !has_sub(name, ".."@)
}

/// A name from a client is a file in one directory, never a path into
/// another: the trimmed name is accepted only when it is safe.
pub fn safe_name(file: &str) -> (r: Result<String, NameRefused>)
    ensures
        safe_name_ok(trim(file@)) ==> (r matches Ok(n) && n@ == trim(file@)),
        !safe_name_ok(trim(file@)) ==> (r matches Err(e) && e.name@ == file@),
{
    let name = trim_str(file);
    if name.len() == 0 || has_char(&name, '/') || has_char(&name, '\\') || contains_str(&name, "..") {
        return Err(NameRefused { name: String::from_str(file) });
    }
    Ok(string_of(&name))
}

/// The extension of a file name: what follows its last `.`, unless that dot
/// begins the name.
pub open spec fn extension_of(name: Seq<char>) -> Option<Seq<char>> {
    if exists|i: int| 0 < i < name.len() && name[i] == '.' {
        let i = choose|i: int| 0 < i < name.len() && name[i] == '.' && forall|k: int| i < k < name.len() ==> name[k] != '.';
        Some(name.skip(i + 1))
    } else {
        None
    }
}

/// Whether a file name's extension is `png`, in any case.
pub fn is_png_name(name: &str) -> (r: bool)
    ensures
        r == (extension_of(name@) matches Some(e) && eq_ignore_case(e, "png"@)),
{
    let cs = chars_of(name);
    let n = cs.len();
    match rfind_char(&cs, '.') {
        Some(i) => {
            if i == 0 {
                proof {
                    assert(!exists|j: int| 0 < j < name@.len() && name@[j] == '.');
                }
                return false;
            }
            assert(i < n);
            let ext = crate::text::sub_chars(&cs, i + 1, n);
            let png = chars_of("png");
            proof {
                let j = choose|j: int| 0 < j < name@.len() && name@[j] == '.' && forall|k: int| j < k < name@.len() ==> name@[k] != '.';
                assert(0 < i < name@.len() && name@[i as int] == '.');
                if j < i {
                } else if j > i {
                }
                assert(ext@ =~= name@.skip(i + 1));
            }
            eq_ignore_case_exec(&ext, &png)
        },
        None => {
            proof {
                assert(!exists|j: int| 0 < j < name@.len() && name@[j] == '.');
            }
            false
        },
    }
}

/// Which layer supplies the flags a server starts with.
#[derive(Debug, Clone, Copy, PartialEq, Eq, Structural)]
pub enum JvmArgsSource {
    Entry,
    Defaults,
    Flavor,
    Unset,
}

/// Which layer supplies the flags a server starts with: the entry's own,
/// else the launcher-wide defaults, else the flavor's recommendation.
pub fn jvm_args_source(entry: &Vec<String>, defaults: &Vec<String>, flavor: &Vec<String>) -> (r: JvmArgsSource)
    ensures
        r == (if entry@.len() > 0 {
            JvmArgsSource::Entry
        } else if defaults@.len() > 0 {
            JvmArgsSource::Defaults
        } else if flavor@.len() > 0 {
            JvmArgsSource::Flavor
        } else {
            JvmArgsSource::Unset
        }),
{
    if entry.len() > 0 {
        JvmArgsSource::Entry
    } else if defaults.len() > 0 {
        JvmArgsSource::Defaults
    } else if flavor.len() > 0 {
        JvmArgsSource::Flavor
    } else {
        JvmArgsSource::Unset
    }
}

/// The previous pack's game-directory files that the new one no longer
/// ships, in the previous pack's order.
pub fn stale_overrides(previous: &Vec<String>, current: &Vec<String>) -> (r: Vec<String>)
    ensures
        r.deep_view() == previous.deep_view().filter(|p: Seq<char>| !current.deep_view().contains(p)),
{
    let ghost prev = previous.deep_view();
    let ghost cur = current.deep_view();
    let mut out: Vec<String> = Vec::new();
    let mut i: usize = 0;
    while i < previous.len()
        invariant
            prev == previous.deep_view(),
            cur == current.deep_view(),
            i <= prev.len(),
            out.deep_view() == prev.take(i as int).filter(|p: Seq<char>| !cur.contains(p)),
        decreases previous.len() - i,
    {
        let item = &previous[i];
        assert(item@ == prev[i as int]);
        assert(prev.take(i + 1).drop_last() =~= prev.take(i as int));
        proof {
            reveal(Seq::filter);
        }
        let ghost before = out.deep_view();
        if !crate::launch::contains_string(current, item) {
            out.push(item.clone());
            assert(out.deep_view() =~= before.push(item@));
        }
        i += 1;
    }
    assert(prev.take(prev.len() as int) =~= prev);
    out
}


/// Which layer a server's flags come from, over the layers' arguments.
pub open spec fn source_of(entry: Seq<Seq<char>>, defaults: Seq<Seq<char>>, flavor: Seq<Seq<char>>) -> JvmArgsSource {
    if entry.len() > 0 {
        JvmArgsSource::Entry
    } else if defaults.len() > 0 {
        JvmArgsSource::Defaults
    } else if flavor.len() > 0 {
        JvmArgsSource::Flavor
    } else {
        JvmArgsSource::Unset
    }
}

/// The reported source names the layer whose flags the server starts with:
/// layering the entry over the defaults over the flavor yields exactly the
/// arguments of the layer `jvm_args_source` reports (none when it reports
/// none).
pub proof fn lemma_source_names_the_layer(entry: Seq<Seq<char>>, defaults: Seq<Seq<char>>, flavor: Seq<Seq<char>>)
    ensures
        ({
            let resolved = crate::launch::layer_args(crate::launch::layer_args(entry, defaults), flavor);
            match source_of(entry, defaults, flavor) {
                JvmArgsSource::Entry => resolved == entry,
                JvmArgsSource::Defaults => resolved == defaults,
                JvmArgsSource::Flavor => resolved == flavor,
                JvmArgsSource::Unset => resolved.len() == 0,
            }
        }),
{
}

/// A pack pinning another flavor or game version than the entry runs.
#[derive(Debug, Clone, PartialEq, Eq)]
pub struct PackMismatch {
    pub flavor: String,
    pub game_version: String,
    pub pack_flavor: String,
    pub pack_game_version: String,
}

/// A pack fits an entry only when the entry already runs the flavor and
/// game version it pins: both are baked into the entry's profile and neither
/// changes in place.
pub fn pack_fits(flavor: &str, game_version: &str, pack_flavor: &str, pack_game_version: &str) -> (r: Result<(), PackMismatch>)
    ensures
        r is Ok <==> (flavor@ == pack_flavor@ && game_version@ == pack_game_version@),
        r matches Err(m) ==> m.flavor@ == flavor@ && m.game_version@ == game_version@ && m.pack_flavor@
            == pack_flavor@ && m.pack_game_version@ == pack_game_version@,
{
    if str_eq(flavor, pack_flavor) && str_eq(game_version, pack_game_version) {
        return Ok(());
    }
    Err(
        PackMismatch {
            flavor: String::from_str(flavor),
            game_version: String::from_str(game_version),
            pack_flavor: String::from_str(pack_flavor),
            pack_game_version: String::from_str(pack_game_version),
        },
    )
}

/// The save worlds a datapack batch names, trimmed, empty names skipped, in
/// order: each must exist under `saves/` before anything installs.
pub open spec fn world_requests(worlds: Seq<Seq<char>>) -> Seq<Seq<char>>
    decreases worlds.len(),
{
    if worlds.len() == 0 {
        Seq::empty()
    } else {
        let rest = world_requests(worlds.drop_last());
        if trim(worlds.last()).len() > 0 {
            rest.push(trim(worlds.last()))
        } else {
            rest
        }
    }
}

/// The world names a batch asks for, to check before installing: none for a
/// kind other than datapacks or on a server, whose one world is implied.
pub fn requested_worlds(kind: ContentKind, side: Side, worlds: &Vec<String>) -> (r: Vec<String>)
    ensures
        (kind != ContentKind::DataPack || side == Side::Server) ==> r@.len() == 0,
        (kind == ContentKind::DataPack && side == Side::Client) ==> r.deep_view() == world_requests(worlds.deep_view()),
{
    let mut out: Vec<String> = Vec::new();
    if kind != ContentKind::DataPack || side == Side::Server {
        return out;
    }
    let ghost all = worlds.deep_view();
    let mut i: usize = 0;
    while i < worlds.len()
        invariant
            all == worlds.deep_view(),
            i <= all.len(),
            out.deep_view() == world_requests(all.take(i as int)),
        decreases worlds.len() - i,
    {
        assert(all.take(i + 1).drop_last() =~= all.take(i as int));
        assert(all.take(i + 1).last() == all[i as int]);
        let t = trim_str(worlds[i].as_str());
        if t.len() > 0 {
            let ghost before = out.deep_view();
            out.push(string_of(&t));
            assert(out.deep_view() =~= before.push(trim(all[i as int])));
        }
        i += 1;
    }
    assert(all.take(all.len() as int) =~= all);
    out
}

/// The data-relative directories of checked world names: `saves/<name>`,
/// each once, first occurrence first.
pub fn world_dirs(names: &Vec<String>) -> (r: Vec<String>)
    ensures
        r.deep_view() == crate::launch::dedup(names.deep_view().map_values(|n: Seq<char>| "saves/"@ + n)),
{
    let ghost all = names.deep_view().map_values(|n: Seq<char>| "saves/"@ + n);
    let mut out: Vec<String> = Vec::new();
    let mut i: usize = 0;
    while i < names.len()
        invariant
            all == names.deep_view().map_values(|n: Seq<char>| "saves/"@ + n),
            i <= names@.len(),
            out.deep_view() == crate::launch::dedup(all.take(i as int)),
        decreases names.len() - i,
    {
        let mut d: Vec<char> = Vec::new();
        push_str(&mut d, "saves/");
        push_str(&mut d, names[i].as_str());
        let dir = string_of(&d);
        assert(dir@ == all[i as int]);
        assert(all.take(i + 1).drop_last() =~= all.take(i as int));
        assert(all.take(i + 1).last() == all[i as int]);
        crate::launch::push_unique(&mut out, dir);
        i += 1;
    }
    assert(all.take(all.len() as int) =~= all);
    out
}

} // verus!
