//! Fabric: reading the Fabric Meta catalogue, the loader profile layered
//! over a base game version, and how its libraries merge over vanilla's.

use vstd::prelude::*;

use vstd::string::StringExecFns;

use crate::json::{array_spec, bool_spec, get_opt, get_spec, str_opt, str_spec, strings, strings_of, text_in, u64_at, Json};
use crate::meta::{
    client_artifact, game_args, has_download, is_artifact_of, items_of, java_major, jvm_args,
    maven_path, maven_path_spec, sha1_checksum, sha1_of, GameVersion, MetaError, VersionKind,
};
use crate::profile::{Artifact, InstanceProfile, Library, ServerProfile};
use crate::provider::{ContentKind, Flavor, Loads};
use crate::materialize::{first_indices, first_seen};
use crate::text::{
    after_last, after_last_exec, chars_of, ends_with, ends_with_str, lemma_split_nonempty,
    push_all, push_str, split_char, split_on, split_once, split_once_spec, string_of,
};

verus! {

/// The Fabric Meta API root.
pub const META: &'static str = "https://meta.fabricmc.net/v2";

/// Where a Fabric library without its own repository is fetched from.
pub const DEFAULT_MAVEN: &'static str = "https://maven.fabricmc.net/";

/// Whether a JSON flag under `key` is `true`.
pub open spec fn flag(j: Option<Json>, key: Seq<char>) -> bool {
    match get_opt(j, key) {
        Some(v) => bool_spec(v) == Some(true),
        None => false,
    }
}

/// The game version a Fabric `versions/game` item names, if it names one.
pub open spec fn game_item_version(v: Json) -> Option<Seq<char>> {
    str_opt(get_spec(v, "version"@))
}

/// The game versions of a Fabric `versions/game` answer: every item naming
/// a version, a release exactly when stable.
pub fn game_versions_from(j: &Json) -> (r: Result<Vec<GameVersion>, MetaError>)
    ensures
        array_spec(*j) is None ==> r == Err::<Vec<GameVersion>, MetaError>(MetaError::NotAnArray),
        array_spec(*j) matches Some(items) ==> (r matches Ok(out) && {
            let kept = crate::json::keep(items, |v: Json| game_item_version(v) is Some);
            out@.len() == kept.len() && forall|i: int|
                0 <= i < kept.len() ==> {
                    let g = #[trigger] out@[i];
                    &&& Some(g.id@) == game_item_version(kept[i])
                    &&& g.stable == flag(Some(kept[i]), "stable"@)
                    &&& g.kind == if g.stable {
                        VersionKind::Release
                    } else {
                        VersionKind::Snapshot
                    }
                }
        }),
{
    let items = match j.as_array() {
        Some(items) => items,
        None => return Err(MetaError::NotAnArray),
    };
    let ghost pred = |v: Json| game_item_version(v) is Some;
    let mut out: Vec<GameVersion> = Vec::new();
    let mut i: usize = 0;
    while i < items.len()
        invariant
            i <= items@.len(),
            pred == (|v: Json| game_item_version(v) is Some),
            ({
                let kept = crate::json::keep(items@.take(i as int), pred);
                out@.len() == kept.len() && forall|k: int|
                    0 <= k < kept.len() ==> {
                        let g = #[trigger] out@[k];
                        &&& Some(g.id@) == game_item_version(kept[k])
                        &&& g.stable == flag(Some(kept[k]), "stable"@)
                        &&& g.kind == if g.stable {
                            VersionKind::Release
                        } else {
                            VersionKind::Snapshot
                        }
                    }
            }),
        decreases items.len() - i,
    {
        let v = &items[i];
        assert(items@.take(i + 1).drop_last() =~= items@.take(i as int));
        let version = match v.get("version") {
            Some(x) => x.as_str(),
            None => None,
        };
        if let Some(id) = version {
            let stable = match v.get("stable") {
                Some(s) => s.as_bool() == Some(true),
                None => false,
            };
            let ghost before = out@;
            out.push(
                GameVersion {
                    id: id.clone(),
                    kind: if stable {
                        VersionKind::Release
                    } else {
                        VersionKind::Snapshot
                    },
                    stable,
                },
            );
            assert(pred(items@[i as int]));
            assert(forall|k: int| 0 <= k < before.len() ==> out@[k] == before[k]);
        }
        i += 1;
    }
    assert(items@.take(items@.len() as int) =~= items@);
    Ok(out)
}

/// The loader version a Fabric loader item names.
pub open spec fn loader_item_version(e: Json) -> Option<Seq<char>> {
    str_opt(get_opt(get_spec(e, "loader"@), "version"@))
}

/// Every loader build a Fabric `versions/loader/<game>` answer lists, in its
/// order (newest first).
pub fn loader_versions_from(j: &Json) -> (r: Result<Vec<String>, MetaError>)
    ensures
        array_spec(*j) is None ==> r == Err::<Vec<String>, MetaError>(MetaError::NotAnArray),
        array_spec(*j) matches Some(items) ==> (r matches Ok(out) && {
            let kept = crate::json::keep(items, |e: Json| loader_item_version(e) is Some);
            out@.len() == kept.len() && forall|i: int|
                0 <= i < kept.len() ==> Some((#[trigger] out@[i])@) == loader_item_version(kept[i])
        }),
{
    let items = match j.as_array() {
        Some(items) => items,
        None => return Err(MetaError::NotAnArray),
    };
    let ghost pred = |e: Json| loader_item_version(e) is Some;
    let mut out: Vec<String> = Vec::new();
    let mut i: usize = 0;
    while i < items.len()
        invariant
            i <= items@.len(),
            pred == (|e: Json| loader_item_version(e) is Some),
            ({
                let kept = crate::json::keep(items@.take(i as int), pred);
                out@.len() == kept.len() && forall|k: int|
                    0 <= k < kept.len() ==> Some((#[trigger] out@[k])@) == loader_item_version(kept[k])
            }),
        decreases items.len() - i,
    {
        let e = &items[i];
        assert(items@.take(i + 1).drop_last() =~= items@.take(i as int));
        let version = match e.get("loader") {
            Some(l) => match l.get("version") {
                Some(v) => v.as_str(),
                None => None,
            },
            None => None,
        };
        if let Some(v) = version {
            let ghost before = out@;
            out.push(v.clone());
            assert(pred(items@[i as int]));
            assert(forall|k: int| 0 <= k < before.len() ==> out@[k] == before[k]);
        }
        i += 1;
    }
    assert(items@.take(items@.len() as int) =~= items@);
    Ok(out)
}

/// The first item satisfying `p`, else the first item: how Fabric's newest
/// stable build is chosen, falling back to the newest.
pub open spec fn stable_or_first(items: Seq<Json>, p: spec_fn(Json) -> bool) -> Option<int> {
    if exists|i: int| 0 <= i < items.len() && p(#[trigger] items[i]) {
        Some(choose|i: int| 0 <= i < items.len() && p(#[trigger] items[i]) && forall|k: int| 0 <= k < i ==> !p(#[trigger] items[k]))
    } else if items.len() > 0 {
        Some(0)
    } else {
        None
    }
}

/// Whether a loader item is marked stable.
pub open spec fn loader_stable(e: Json) -> bool {
    flag(get_spec(e, "loader"@), "stable"@)
}

/// The newest loader for a game version out of a Fabric loader answer: the
/// first stable build, else the newest; `NothingPublished` when there is
/// none or it names no version.
pub fn latest_loader(j: &Json) -> (r: Result<String, MetaError>)
    ensures
        array_spec(*j) is None ==> r == Err::<String, MetaError>(MetaError::NotAnArray),
        array_spec(*j) matches Some(items) ==> match stable_or_first(items, |e: Json| loader_stable(e)) {
            Some(i) => match loader_item_version(items[i]) {
                Some(v) => r matches Ok(s) && s@ == v,
                None => r is Err && !(r matches Err(MetaError::NotAnArray)),
            },
            None => r is Err && !(r matches Err(MetaError::NotAnArray)),
        },
{
    let items = match j.as_array() {
        Some(items) => items,
        None => return Err(MetaError::NotAnArray),
    };
    let ghost pred = |e: Json| loader_stable(e);
    let mut chosen: Option<usize> = None;
    let mut i: usize = 0;
    while i < items.len()
        invariant
            i <= items@.len(),
            pred == (|e: Json| loader_stable(e)),
            chosen is None ==> forall|k: int| 0 <= k < i ==> !pred(#[trigger] items@[k]),
            chosen matches Some(c) ==> c < items@.len() && pred(items@[c as int]) && forall|k: int|
                0 <= k < c ==> !pred(#[trigger] items@[k]),
        decreases items.len() - i,
    {
        if chosen.is_none() {
            let stable = match items[i].get("loader") {
                Some(l) => match l.get("stable") {
                    Some(s) => s.as_bool() == Some(true),
                    None => false,
                },
                None => false,
            };
            if stable {
                assert(pred(items@[i as int]));
                chosen = Some(i);
            }
        }
        i += 1;
    }
    let pick = match chosen {
        Some(c) => c,
        None => {
            if items.len() == 0 {
                return Err(MetaError::NothingPublished(String::from_str("fabric loader")));
            }
            0
        },
    };
    proof {
        if chosen is Some {
            let c = choose|c: int|
                0 <= c < items@.len() && pred(#[trigger] items@[c]) && forall|k: int|
                    0 <= k < c ==> !pred(#[trigger] items@[k]);
            if c < pick {
            } else if c > pick {
                assert(!pred(items@[pick as int]));
            }
        }
    }
    let version = match items[pick].get("loader") {
        Some(l) => match l.get("version") {
            Some(v) => v.as_str(),
            None => None,
        },
        None => None,
    };
    match version {
        Some(v) => Ok(v.clone()),
        None => Err(MetaError::NothingPublished(String::from_str("fabric loader"))),
    }
}

/// Whether an installer item is marked stable.
pub open spec fn installer_stable(e: Json) -> bool {
    flag(Some(e), "stable"@)
}

/// The newest installer out of a Fabric `versions/installer` answer: the
/// first stable build, else the newest.
pub fn latest_installer(j: &Json) -> (r: Result<String, MetaError>)
    ensures
        array_spec(*j) is None ==> r == Err::<String, MetaError>(MetaError::NotAnArray),
        array_spec(*j) matches Some(items) ==> match stable_or_first(items, |e: Json| installer_stable(e)) {
            Some(i) => match str_opt(get_spec(items[i], "version"@)) {
                Some(v) => r matches Ok(s) && s@ == v,
                None => r is Err && !(r matches Err(MetaError::NotAnArray)),
            },
            None => r is Err && !(r matches Err(MetaError::NotAnArray)),
        },
{
    let items = match j.as_array() {
        Some(items) => items,
        None => return Err(MetaError::NotAnArray),
    };
    let ghost pred = |e: Json| installer_stable(e);
    let mut chosen: Option<usize> = None;
    let mut i: usize = 0;
    while i < items.len()
        invariant
            i <= items@.len(),
            pred == (|e: Json| installer_stable(e)),
            chosen is None ==> forall|k: int| 0 <= k < i ==> !pred(#[trigger] items@[k]),
            chosen matches Some(c) ==> c < items@.len() && pred(items@[c as int]) && forall|k: int|
                0 <= k < c ==> !pred(#[trigger] items@[k]),
        decreases items.len() - i,
    {
        if chosen.is_none() {
            let stable = match items[i].get("stable") {
                Some(s) => s.as_bool() == Some(true),
                None => false,
            };
            if stable {
                assert(pred(items@[i as int]));
                chosen = Some(i);
            }
        }
        i += 1;
    }
    let pick = match chosen {
        Some(c) => c,
        None => {
            if items.len() == 0 {
                return Err(MetaError::NothingPublished(String::from_str("fabric installer")));
            }
            0
        },
    };
    proof {
        if chosen is Some {
            let c = choose|c: int|
                0 <= c < items@.len() && pred(#[trigger] items@[c]) && forall|k: int|
                    0 <= k < c ==> !pred(#[trigger] items@[k]);
            if c < pick {
            } else if c > pick {
                assert(!pred(items@[pick as int]));
            }
        }
    }
    match items[pick].get("version") {
        Some(v) => match v.as_str() {
            Some(s) => Ok(s.clone()),
            None => Err(MetaError::NothingPublished(String::from_str("fabric installer"))),
        },
        None => Err(MetaError::NothingPublished(String::from_str("fabric installer"))),
    }
}

/// The self-contained Fabric server launcher jar for a game, loader and
/// installer.
pub open spec fn server_launcher_url_spec(game: Seq<char>, loader: Seq<char>, installer: Seq<char>) -> Seq<char> {
    "https://meta.fabricmc.net/v2"@ + "/versions/loader/"@ + game + "/"@ + loader + "/"@ + installer
        + "/server/jar"@
}

/// The self-contained Fabric server launcher jar for a game, loader and
/// installer (the endpoint refuses a request without the installer).
pub fn server_launcher_url(game: &str, loader: &str, installer: &str) -> (r: String)
    ensures
        r@ == server_launcher_url_spec(game@, loader@, installer@),
{
    let mut out: Vec<char> = Vec::new();
    push_str(&mut out, "https://meta.fabricmc.net/v2");
    push_str(&mut out, "/versions/loader/");
    push_str(&mut out, game);
    push_str(&mut out, "/");
    push_str(&mut out, loader);
    push_str(&mut out, "/");
    push_str(&mut out, installer);
    push_str(&mut out, "/server/jar");
    string_of(&out)
}

/// The client main class of a loader profile: `mainClass` when it is a
/// string, its `client` entry when it is an object, else empty.
pub open spec fn client_main_class_spec(profile: Json) -> Seq<char> {
    match get_spec(profile, "mainClass"@) {
        Some(Json::Str(s)) => s@,
        Some(Json::Object(f)) => text_in(Some(Json::Object(f)), "client"@),
        _ => Seq::empty(),
    }
}

/// The client main class of a loader profile.
pub fn client_main_class(profile: &Json) -> (r: String)
    ensures
        r@ == client_main_class_spec(*profile),
{
    match profile.get("mainClass") {
        Some(Json::Str(s)) => s.clone(),
        Some(m) => {
            if m.is_object() {
                m.text("client")
            } else {
                String::new()
            }
        },
        None => String::new(),
    }
}

/// Whether a Fabric library entry yields a library: its name is a Maven
/// coordinate.
pub open spec fn fabric_lib_kept(lib: Json) -> bool {
    maven_path_spec(text_in(Some(lib), "name"@)) is Some
}

/// The repository a Fabric library is fetched from.
pub open spec fn repository_of(lib: Json) -> Seq<char> {
    match str_opt(get_spec(lib, "url"@)) {
        Some(u) => u,
        None => "https://maven.fabricmc.net/"@,
    }
}

/// Whether `l` is the library a Fabric entry describes: its path derived
/// from the coordinate, its URL the repository joined with the path.
pub open spec fn is_fabric_library_of(l: Library, lib: Json) -> bool {
    let path = maven_path_spec(text_in(Some(lib), "name"@))->0;
    let base = repository_of(lib);
    let sep = if ends_with(base, "/"@) { Seq::<char>::empty() } else { "/"@ };
    &&& l.name@ == text_in(Some(lib), "name"@)
    &&& l.path@ == path
    &&& l.artifact.url@ == base + sep + path
    &&& l.artifact.filename@ == after_last(path, '/')
    &&& l.artifact.size == u64_at(lib, "size"@, 0)
    &&& sha1_checksum(l.artifact.checksum, text_in(Some(lib), "sha1"@))
}

/// The libraries of a Fabric loader profile, in order: each entry whose name
/// is a Maven coordinate.
pub fn libraries(profile: &Json) -> (r: Vec<Library>)
    ensures
        ({
            let kept = crate::json::keep(crate::json::items_at(Some(*profile), "libraries"@), |lib: Json| fabric_lib_kept(lib));
            r@.len() == kept.len() && forall|i: int| 0 <= i < kept.len() ==> is_fabric_library_of(#[trigger] r@[i], kept[i])
        }),
{
    let ghost pred = |lib: Json| fabric_lib_kept(lib);
    let mut out: Vec<Library> = Vec::new();
    let libs = match items_of(Some(profile), "libraries") {
        Some(l) => l,
        None => return out,
    };
    proof {
        reveal_strlit("/");
        reveal_strlit("https://maven.fabricmc.net/");
    }
    let mut i: usize = 0;
    while i < libs.len()
        invariant
            i <= libs@.len(),
            pred == (|lib: Json| fabric_lib_kept(lib)),
            ({
                let kept = crate::json::keep(libs@.take(i as int), pred);
                out@.len() == kept.len() && forall|k: int| 0 <= k < kept.len() ==> is_fabric_library_of(#[trigger] out@[k], kept[k])
            }),
        decreases libs.len() - i,
    {
        let lib = &libs[i];
        assert(libs@.take(i + 1).drop_last() =~= libs@.take(i as int));
        let name = lib.text("name");
        if let Some(path) = maven_path(name.as_str()) {
            let base = match lib.get("url") {
                Some(u) => match u.as_str() {
                    Some(s) => s.clone(),
                    None => String::from_str("https://maven.fabricmc.net/"),
                },
                None => String::from_str("https://maven.fabricmc.net/"),
            };
            let bc = chars_of(base.as_str());
            let mut url = chars_of(base.as_str());
            if !ends_with_str(&bc, "/") {
                push_str(&mut url, "/");
            }
            push_str(&mut url, path.as_str());
            let filename = after_last_exec(path.as_str(), '/');
            let ghost before = out@;
            out.push(
                Library {
                    name,
                    artifact: Artifact {
                        url: string_of(&url),
                        filename,
                        size: lib.u64_or("size", 0),
                        checksum: sha1_of(lib.text("sha1")),
                    },
                    path,
                },
            );
            assert(pred(libs@[i as int]));
            assert(forall|k: int| 0 <= k < before.len() ==> out@[k] == before[k]);
        }
        i += 1;
    }
    assert(libs@.take(libs@.len() as int) =~= libs@);
    out
}

/// The JVM arguments a loader profile adds: the strings of `arguments.jvm`.
pub fn profile_jvm_args(profile: &Json) -> (r: Vec<String>)
    ensures
        r.deep_view() == strings(crate::json::items_at(get_spec(*profile, "arguments"@), "jvm"@)),
{
    match items_of(profile.get("arguments"), "jvm") {
        Some(items) => strings_of(items),
        None => Vec::new(),
    }
}

/// A Maven coordinate reduced to its identity without the version
/// (`group:artifact[:classifier]@ext`), or the coordinate itself when it has
/// fewer than three parts.
pub open spec fn versionless_key_spec(coord: Seq<char>) -> Seq<char> {
    let (c, ext) = match split_once_spec(coord, '@') {
        Some(pair) => pair,
        None => (coord, "jar"@),
    };
    let parts = split_on(c, ':');
    if parts.len() < 3 {
        c
    } else if parts.len() > 3 {
        parts[0] + ":"@ + parts[1] + ":"@ + parts[3] + "@"@ + ext
    } else {
        parts[0] + ":"@ + parts[1] + "@"@ + ext
    }
}

/// A Maven coordinate's identity without its version.
pub fn versionless_key(coord: &str) -> (r: String)
    ensures
        r@ == versionless_key_spec(coord@),
{
    proof {
        reveal_strlit("jar");
    }
    let cs = chars_of(coord);
    let (c, ext) = match split_once(&cs, '@') {
        Some(pair) => pair,
        None => {
            let mut jar: Vec<char> = Vec::new();
            push_str(&mut jar, "jar");
            (chars_of(coord), jar)
        },
    };
    let parts = split_char(&c, ':');
    proof {
        lemma_split_nonempty(c@, ':');
    }
    let ghost ps = split_on(c@, ':');
    assert(parts@.len() == ps.len());
    if parts.len() < 3 {
        return string_of(&c);
    }
    assert(parts@[0]@ == ps[0] && parts@[1]@ == ps[1]);
    let mut out: Vec<char> = Vec::new();
    push_all(&mut out, &parts[0]);
    push_str(&mut out, ":");
    push_all(&mut out, &parts[1]);
    if parts.len() > 3 {
        assert(parts@[3]@ == ps[3]);
        push_str(&mut out, ":");
        push_all(&mut out, &parts[3]);
    }
    push_str(&mut out, "@");
    push_all(&mut out, &ext);
    proof {
        if ps.len() > 3 {
            assert(out@ =~= ps[0] + ":"@ + ps[1] + ":"@ + ps[3] + "@"@ + ext@);
        } else {
            assert(out@ =~= ps[0] + ":"@ + ps[1] + "@"@ + ext@);
        }
    }
    string_of(&out)
}

/// The versionless keys of a list of libraries.
pub open spec fn lib_keys(libs: Seq<Library>) -> Seq<Seq<char>> {
    libs.map_values(|l: Library| versionless_key_spec(l.name@))
}

/// The last index of `keys` holding `k`.
pub open spec fn last_with(keys: Seq<Seq<char>>, k: Seq<char>) -> int {
    choose|j: int| 0 <= j < keys.len() && keys[j] == k && forall|m: int| j < m < keys.len() ==> keys[m] != k
}

/// The merge of `libs` (the base then the overlay): one library per
/// versionless key, in the order keys are first seen, each the last library
/// holding that key.
pub open spec fn merged_spec(libs: Seq<Library>) -> Seq<Library> {
    let keys = lib_keys(libs);
    first_indices(keys).map_values(|p: usize| libs[last_with(keys, keys[p as int])])
}

/// Layer a loader's libraries over the vanilla base the way an inheriting
/// version manifest merges: libraries are keyed by their coordinate without
/// the version, so an artifact the loader re-pins keeps a single entry (the
/// overlay's) in the slot where the key was first seen, while a jar and its
/// natives sibling (same artifact, another classifier) both stay.
/// The two lists together are held in one vector on the way, so every
/// merge that returns had them within `usize::MAX`: the bound the merge's
/// laws (`lemma_merge_one_per_key`, `lemma_merge_keeps_every_key`,
/// `lemma_overlay_wins`) ask for.
pub fn merge_libraries(base: &Vec<Library>, overlay: &Vec<Library>) -> (r: Vec<Library>)
    ensures
        r@ == merged_spec(base@ + overlay@),
        base@.len() + overlay@.len() <= usize::MAX,
{
    let ghost all = base@ + overlay@;
    let mut libs: Vec<Library> = Vec::new();
    let mut i: usize = 0;
    while i < base.len()
        invariant
            i <= base@.len(),
            libs@ == base@.take(i as int),
        decreases base.len() - i,
    {
        libs.push(base[i].duplicate());
        assert(libs@ =~= base@.take(i + 1));
        i += 1;
    }
    let mut j: usize = 0;
    while j < overlay.len()
        invariant
            i == base@.len(),
            j <= overlay@.len(),
            libs@ == base@ + overlay@.take(j as int),
        decreases overlay.len() - j,
    {
        libs.push(overlay[j].duplicate());
        assert(libs@ =~= base@ + overlay@.take(j + 1));
        j += 1;
    }
    assert(base@.take(base@.len() as int) =~= base@);
    assert(overlay@.take(overlay@.len() as int) =~= overlay@);
    assert(libs@ == all);
    let mut keys: Vec<String> = Vec::new();
    let mut k: usize = 0;
    while k < libs.len()
        invariant
            libs@ == all,
            k <= all.len(),
            keys.deep_view() == lib_keys(all.take(k as int)),
        decreases libs.len() - k,
    {
        let key = versionless_key(libs[k].name.as_str());
        let ghost before = keys.deep_view();
        keys.push(key);
        assert(all.take(k + 1) =~= all.take(k as int).push(all[k as int]));
        assert(lib_keys(all.take(k + 1)) =~= lib_keys(all.take(k as int)).push(
            versionless_key_spec(all[k as int].name@),
        ));
        assert(keys.deep_view() =~= before.push(versionless_key_spec(all[k as int].name@)));
        assert(keys.deep_view() =~= lib_keys(all.take(k + 1)));
        k += 1;
    }
    assert(all.take(all.len() as int) =~= all);
    let ghost ks = lib_keys(all);
    let firsts = crate::materialize::first_of_each(&keys);
    let mut out: Vec<Library> = Vec::new();
    let mut m: usize = 0;
    while m < firsts.len()
        invariant
            libs@ == all,
            keys.deep_view() == ks,
            ks == lib_keys(all),
            firsts@ == first_indices(ks),
            m <= firsts@.len(),
            out@ == firsts@.take(m as int).map_values(|p: usize| all[last_with(ks, ks[p as int])]),
        decreases firsts.len() - m,
    {
        let p = firsts[m];
        proof {
            lemma_first_indices_bound(ks, m as int);
        }
        let mut q: usize = keys.len() - 1;
        let target = keys[p].clone();
        while q > p && !crate::text::str_eq(keys[q].as_str(), target.as_str())
            invariant
                keys.deep_view() == ks,
                p < ks.len(),
                p <= q < ks.len(),
                target@ == ks[p as int],
                forall|t: int| q < t < ks.len() ==> ks[t] != ks[p as int],
            decreases q,
        {
            q -= 1;
        }
        proof {
            assert(ks[q as int] == ks[p as int]);
            let w = last_with(ks, ks[p as int]);
            assert(exists|j: int| 0 <= j < ks.len() && ks[j] == ks[p as int] && forall|t: int| j < t < ks.len() ==> ks[t] != ks[p as int]);
            if w < q {
            } else if w > q {
            }
        }
        out.push(libs[q].duplicate());
        assert(out@ =~= firsts@.take(m + 1).map_values(|p: usize| all[last_with(ks, ks[p as int])]));
        m += 1;
    }
    assert(firsts@.take(firsts@.len() as int) =~= firsts@);
    out
}

/// Some last index holds every key that occurs.
pub proof fn lemma_last_with(keys: Seq<Seq<char>>, i: int)
    requires
        0 <= i < keys.len(),
    ensures
        ({
            let w = last_with(keys, keys[i]);
            &&& 0 <= w < keys.len()
            &&& keys[w] == keys[i]
            &&& i <= w
            &&& forall|m: int| w < m < keys.len() ==> keys[m] != keys[i]
        }),
    decreases keys.len() - i,
{
    let k = keys[i];
    if exists|j: int| i < j < keys.len() && keys[j] == k {
        let j = choose|j: int| i < j < keys.len() && keys[j] == k;
        lemma_last_with(keys, j);
    } else {
        assert(exists|j: int| 0 <= j < keys.len() && keys[j] == k && forall|m: int| j < m < keys.len() ==> keys[m] != k);
        let w = last_with(keys, k);
        if w < i {
            assert(keys[i] != k);
        }
    }
}

/// Merging keeps one library per versionless key: no two merged libraries
/// share one.
pub proof fn lemma_merge_one_per_key(libs: Seq<Library>, a: int, b: int)
    requires
        libs.len() <= usize::MAX,
        0 <= a < b < merged_spec(libs).len(),
    ensures
        versionless_key_spec(merged_spec(libs)[a].name@) != versionless_key_spec(merged_spec(libs)[b].name@),
{
    let keys = lib_keys(libs);
    let f = first_indices(keys);
    crate::materialize::lemma_first_indices_distinct(keys, a, b);
    crate::materialize::lemma_first_indices_first_seen(keys, a);
    crate::materialize::lemma_first_indices_first_seen(keys, b);
    lemma_last_with(keys, f[a] as int);
    lemma_last_with(keys, f[b] as int);
}

/// Merging loses no artifact: every library's versionless key is held by a
/// merged library, and that library is the last one given with the key, so
/// a library of the overlay replaces any base library of its key.
pub proof fn lemma_merge_keeps_every_key(libs: Seq<Library>, i: int)
    requires
        libs.len() <= usize::MAX,
        0 <= i < libs.len(),
    ensures
        exists|m: int|
            0 <= m < merged_spec(libs).len() && #[trigger] merged_spec(libs)[m] == libs[last_with(lib_keys(libs), lib_keys(libs)[i])],
        versionless_key_spec(libs[last_with(lib_keys(libs), lib_keys(libs)[i])].name@) == versionless_key_spec(libs[i].name@),
        i <= last_with(lib_keys(libs), lib_keys(libs)[i]) < libs.len(),
{
    let keys = lib_keys(libs);
    crate::materialize::lemma_first_indices_cover(keys, i);
    let m = choose|m: int| 0 <= m < first_indices(keys).len() && keys[#[trigger] first_indices(keys)[m] as int] == keys[i];
    crate::materialize::lemma_first_indices_first_seen(keys, m);
    assert(merged_spec(libs)[m] == libs[last_with(keys, keys[first_indices(keys)[m] as int])]);
    lemma_last_with(keys, i);
}

/// The overlay wins a collision: where a loader library shares its
/// versionless key with others, the merged library of that key is the
/// overlay's last one of it.
pub proof fn lemma_overlay_wins(base: Seq<Library>, overlay: Seq<Library>, j: int)
    requires
        base.len() + overlay.len() <= usize::MAX,
        0 <= j < overlay.len(),
    ensures
        exists|m: int, q: int|
            #![trigger merged_spec(base + overlay)[m], overlay[q]]
            0 <= m < merged_spec(base + overlay).len() && j <= q < overlay.len()
                && merged_spec(base + overlay)[m] == overlay[q]
                && versionless_key_spec(overlay[q].name@) == versionless_key_spec(overlay[j].name@),
{
    let libs = base + overlay;
    let i = base.len() + j;
    assert(libs[i] == overlay[j]);
    lemma_merge_keeps_every_key(libs, i);
    let w = last_with(lib_keys(libs), lib_keys(libs)[i]);
    let m = choose|m: int|
        0 <= m < merged_spec(libs).len() && #[trigger] merged_spec(libs)[m] == libs[last_with(lib_keys(libs), lib_keys(libs)[i])];
    assert(libs[w] == overlay[w - base.len()]);
    assert(merged_spec(libs)[m] == overlay[w - base.len()]);
}

/// Every index `first_indices` yields is an index of `keys`.
pub proof fn lemma_first_indices_bound(keys: Seq<Seq<char>>, m: int)
    requires
        0 <= m < first_indices(keys).len(),
    ensures
        first_indices(keys)[m] < keys.len(),
    decreases keys.len(),
{
    if keys.len() > 0 {
        let r = first_indices(keys.drop_last());
        if m < r.len() {
            lemma_first_indices_bound(keys.drop_last(), m);
            if first_seen(keys, keys.len() - 1) {
                assert(first_indices(keys)[m] == r[m]);
            }
        }
    }
}

/// The Fabric server flavor: a self-contained launcher jar.
#[derive(Debug, Clone, Copy)]
pub struct FabricServer;

/// The Fabric client flavor: the loader profile merged over vanilla.
#[derive(Debug, Clone, Copy)]
pub struct FabricInstance;

impl Flavor for FabricServer {
    fn id(&self) -> (r: &'static str)
        ensures
            r@ == "fabric"@,
    {
        "fabric"
    }

    fn name(&self) -> (r: &'static str)
        ensures
            r@ == "Fabric"@,
    {
        "Fabric"
    }

    fn summary(&self) -> (r: &'static str)
        ensures
            r@ == ""@,
    {
        ""
    }

    fn loads(&self) -> (r: Loads)
        ensures
            r == Some(ContentKind::Mod),
    {
        Some(ContentKind::Mod)
    }
}

impl Flavor for FabricInstance {
    fn id(&self) -> (r: &'static str)
        ensures
            r@ == "fabric"@,
    {
        "fabric"
    }

    fn name(&self) -> (r: &'static str)
        ensures
            r@ == "Fabric"@,
    {
        "Fabric"
    }

    fn summary(&self) -> (r: &'static str)
        ensures
            r@ == ""@,
    {
        ""
    }

    fn loads(&self) -> (r: Loads)
        ensures
            r == Some(ContentKind::Mod),
    {
        Some(ContentKind::Mod)
    }
}

/// The file name of a Fabric server launcher jar.
pub open spec fn launcher_jar_name(game: Seq<char>, loader: Seq<char>, installer: Seq<char>) -> Seq<char> {
    "fabric-server-mc."@ + game + "-loader."@ + loader + "-launcher."@ + installer + ".jar"@
}

/// The server profile of Fabric for a game version, loader and installer
/// over the game's version document `base`.
pub fn server_profile(game: &str, loader: &str, installer: &str, base: &Json) -> (r: ServerProfile)
    ensures
        r.flavor@ == "fabric"@,
        r.game_version@ == game@,
        r.loader_version matches Some(l) && l@ == loader@,
        r.primary.url@ == server_launcher_url_spec(game@, loader@, installer@),
        r.primary.filename@ == launcher_jar_name(game@, loader@, installer@),
        r.primary.size == 0,
        r.primary.checksum is None,
        r.libraries@.len() == 0,
        r.java_major == crate::meta::java_major_spec(*base),
        r.main_class@.len() == 0,
        r.jvm_args@.len() == 0,
        r.args_file@.len() == 0,
{
    let mut name: Vec<char> = Vec::new();
    push_str(&mut name, "fabric-server-mc.");
    push_str(&mut name, game);
    push_str(&mut name, "-loader.");
    push_str(&mut name, loader);
    push_str(&mut name, "-launcher.");
    push_str(&mut name, installer);
    push_str(&mut name, ".jar");
    ServerProfile {
        flavor: String::from_str("fabric"),
        game_version: String::from_str(game),
        loader_version: Some(String::from_str(loader)),
        primary: Artifact {
            filename: string_of(&name),
            url: server_launcher_url(game, loader, installer),
            size: 0,
            checksum: None,
        },
        libraries: Vec::new(),
        java_major: java_major(base),
        main_class: String::new(),
        jvm_args: Vec::new(),
        args_file: String::new(),
    }
}

/// The client profile of Fabric for a game version and loader, from the
/// game's version document `base` and the loader profile `profile`; `os` is
/// the host in Mojang's rule vocabulary.
pub fn instance_profile(game: &str, loader: &str, base: &Json, profile: &Json, os: &str) -> (r: Result<InstanceProfile, MetaError>)
    ensures
        !has_download(*base, "client"@) ==> r == Err::<InstanceProfile, MetaError>(MetaError::NoClientDownload),
        has_download(*base, "client"@) && get_spec(*base, "assetIndex"@) is None ==> r == Err::<
            InstanceProfile,
            MetaError,
        >(MetaError::NoAssetIndex),
        has_download(*base, "client"@) ==> match get_spec(*base, "assetIndex"@) {
            Some(index) => if crate::meta::has_url(index) {
                r is Ok
            } else {
                r == Err::<crate::profile::InstanceProfile, crate::meta::MetaError>(crate::meta::MetaError::AssetIndexWithoutUrl)
            },
            None => true,
        },
        r matches Ok(p) ==> {
            &&& get_spec(*base, "assetIndex"@) matches Some(index) && p.asset_index.id@ == crate::json::text_in(Some(index), "id"@)
                && p.asset_index.total_size == crate::json::u64_at(index, "totalSize"@, 0) && crate::meta::is_artifact_of(p.asset_index.artifact, index)
            &&& p.flavor@ == "fabric"@
            &&& p.game_version@ == game@
            &&& p.loader_version matches Some(l) && l@ == loader@
            &&& is_artifact_of(p.client, crate::meta::download_obj(*base, "client"@)->0)
            &&& p.asset_index.id@ == text_in(get_spec(*base, "assetIndex"@), "id"@)
            &&& p.java_major == crate::meta::java_major_spec(*base)
            &&& p.main_class@ == client_main_class_spec(*profile)
            &&& p.jvm_args.deep_view() == crate::meta::collect_args_spec(*base, "jvm"@, os@) + strings(
                crate::json::items_at(get_spec(*profile, "arguments"@), "jvm"@),
            )
            &&& p.game_args.deep_view() == crate::meta::game_args_spec(*base, os@)
            &&& exists|vanilla: Seq<Library>, fabric: Seq<Library>|
                #[trigger] merged_spec(vanilla + fabric) == p.libraries@ && {
                    let vk = crate::json::keep(crate::meta::version_libs(*base), |lib: Json| crate::meta::library_kept(lib, os@));
                    let fk = crate::json::keep(crate::json::items_at(Some(*profile), "libraries"@), |lib: Json| fabric_lib_kept(lib));
                    &&& vanilla.len() == vk.len()
                    &&& forall|i: int| 0 <= i < vk.len() ==> crate::meta::is_library_of(#[trigger] vanilla[i], vk[i])
                    &&& fabric.len() == fk.len()
                    &&& forall|i: int| 0 <= i < fk.len() ==> is_fabric_library_of(#[trigger] fabric[i], fk[i])
                }
        },
{
    let client = client_artifact(base)?;
    let asset_index = crate::meta::asset_index(base)?;
    let vanilla = crate::meta::libraries(base, os);
    let extra = libraries(profile);
    let merged = merge_libraries(&vanilla, &extra);
    let mut jvm = jvm_args(base, os);
    let more = profile_jvm_args(profile);
    crate::launch::append_all(&mut jvm, &more);
    assert(merged_spec(vanilla@ + extra@) == merged@);
    Ok(
        InstanceProfile {
            flavor: String::from_str("fabric"),
            game_version: String::from_str(game),
            loader_version: Some(String::from_str(loader)),
            client,
            libraries: merged,
            asset_index,
            java_major: java_major(base),
            main_class: client_main_class(profile),
            jvm_args: jvm,
            game_args: game_args(base, os),
        },
    )
}

/// A loader item's stability is read from its `loader` object: when some
/// item's `loader.stable` is `true`, the first such item is the one the
/// latest loader is taken from, whatever other keys the items carry.
pub proof fn lemma_first_loader_stable_is_picked(items: Seq<Json>, k: int)
    requires
        0 <= k < items.len(),
        get_opt(get_spec(items[k], "loader"@), "stable"@) == Some(Json::Bool(true)),
        forall|j: int| 0 <= j < k ==> get_opt(get_spec(#[trigger] items[j], "loader"@), "stable"@) != Some(Json::Bool(true)),
    ensures
        stable_or_first(items, |e: Json| loader_stable(e)) == Some(k),
{
    let p = |e: Json| loader_stable(e);
    assert(p(items[k]));
    assert forall|j: int| 0 <= j < k implies !p(#[trigger] items[j]) by {
        if p(items[j]) {
            let v = get_opt(get_spec(items[j], "loader"@), "stable"@)->0;
            assert(bool_spec(v) == Some(true));
            assert(v == Json::Bool(true));
        }
    }
    let c = choose|i: int| 0 <= i < items.len() && p(#[trigger] items[i]) && forall|m: int| 0 <= m < i ==> !p(#[trigger] items[m]);
    if c < k {
        assert(!p(items[c]));
    } else if c > k {
        assert(!p(items[k]));
    }
}

} // verus!
