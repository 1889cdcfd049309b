//! NeoForge versions: which game version a build targets, which maven
//! artifact publishes it, and reading the published version lists.

use vstd::prelude::*;

use crate::text::{
    str_eq,
    occurs_at,
    first_occ, first_occ_exec, push_str, sub_chars, trim, trim_chars,
    before_char, before_char_exec, chars_eq, chars_of, concat3, decimal, decimal_u64, parse_uint,
    parse_uint_spec, push_all, split_once, split_once_spec, starts_with, starts_with_str, string_of,
};

verus! {

/// Whether a version belongs to the legacy 1.20.1 line, whose versions lead
/// with the game version (`1.20.1-47.1.106`).
pub open spec fn is_legacy_spec(version: Seq<char>) -> bool {
    starts_with(version, "1."@)
}

/// Whether a version belongs to the legacy 1.20.1 line.
pub fn is_legacy(version: &str) -> (r: bool)
    ensures
        r == is_legacy_spec(version@),
{
    let cs = chars_of(version);
    starts_with_str(&cs, "1.")
}

/// The release a modern version targets, before any prerelease suffix:
/// `<minor>.<patch>.<build>` for 1.x (a zero patch is the `.0` release), and
/// `<year>.<release>.<hotfix>.<build>` from 26 on (a zero hotfix drops).
pub open spec fn release_spec(core: Seq<char>) -> Option<Seq<char>> {
    match parse_uint_spec(before_char(core, '.'), 0xffff_ffff) {
        None => None,
        Some(major) => match split_once_spec(core, '.') {
            None => None,
            Some((_, r1)) => {
                let minor = before_char(r1, '.');
                if major >= 26 {
                    match split_once_spec(r1, '.') {
                        None => None,
                        Some((_, r2)) => {
                            let hotfix = before_char(r2, '.');
                            if hotfix == "0"@ {
                                Some(decimal(major as nat) + "."@ + minor)
                            } else {
                                Some(decimal(major as nat) + "."@ + minor + "."@ + hotfix)
                            }
                        },
                    }
                } else if minor == "0"@ {
                    Some("1."@ + decimal(major as nat))
                } else {
                    Some("1."@ + decimal(major as nat) + "."@ + minor)
                }
            },
        },
    }
}

/// The Minecraft version a NeoForge version targets, or `None` when the
/// version follows neither published scheme. Semver build metadata names the
/// prerelease a build was made against and is appended to the release.
pub open spec fn game_version_spec(version: Seq<char>) -> Option<Seq<char>> {
    if is_legacy_spec(version) {
        match split_once_spec(version, '-') {
            Some((game, _)) => Some(game),
            None => None,
        }
    } else {
        let core = before_char(version, '+');
        match release_spec(core) {
            None => None,
            Some(release) => match split_once_spec(version, '+') {
                Some((_, pre)) => Some(release + "-"@ + pre),
                None => Some(release),
            },
        }
    }
}

fn release(core: &Vec<char>) -> (r: Option<Vec<char>>)
    ensures
        r matches Some(v) ==> release_spec(core@) == Some(v@),
        r is None ==> release_spec(core@) is None,
{
    let head = before_char_exec(core, '.');
    let major = match parse_uint(&head, 0xffff_ffff) {
        Some(m) => m,
        None => return None,
    };
    let (_, r1) = match split_once(core, '.') {
        Some(parts) => parts,
        None => return None,
    };
    let minor = before_char_exec(&r1, '.');
    let digits = decimal_u64(major);
    let dot = chars_of(".");
    proof {
        reveal_strlit(".");
        reveal_strlit("0");
        reveal_strlit("1.");
    }
    if major >= 26 {
        let (_, r2) = match split_once(&r1, '.') {
            Some(parts) => parts,
            None => return None,
        };
        let hotfix = before_char_exec(&r2, '.');
        let zero = chars_of("0");
        let mut out = concat3(&digits, &dot, &minor);
        if !chars_eq(&hotfix, &zero) {
            push_all(&mut out, &dot);
            push_all(&mut out, &hotfix);
        }
        Some(out)
    } else {
        let zero = chars_of("0");
        let lead = chars_of("1.");
        if chars_eq(&minor, &zero) {
            let mut out = lead;
            push_all(&mut out, &digits);
            Some(out)
        } else {
            Some(concat3(&concat3(&lead, &digits, &dot), &minor, &Vec::new()))
        }
    }
}

/// The Minecraft version a NeoForge version targets.
pub fn game_version(version: &str) -> (r: Option<String>)
    ensures
        r matches Some(v) ==> game_version_spec(version@) == Some(v@),
        r is None ==> game_version_spec(version@) is None,
{
    let cs = chars_of(version);
    if is_legacy(version) {
        return match split_once(&cs, '-') {
            Some((game, _)) => Some(string_of(&game)),
            None => None,
        };
    }
    let core = before_char_exec(&cs, '+');
    let rel = match release(&core) {
        Some(r) => r,
        None => return None,
    };
    proof {
        reveal_strlit("-");
    }
    match split_once(&cs, '+') {
        Some((_, pre)) => {
            let dash = chars_of("-");
            Some(string_of(&concat3(&rel, &dash, &pre)))
        },
        None => Some(string_of(&rel)),
    }
}

/// The maven artifact a version is published under.
pub open spec fn artifact_spec(version: Seq<char>) -> Seq<char> {
    if is_legacy_spec(version) {
        "forge"@
    } else {
        "neoforge"@
    }
}

/// The maven artifact a version is published under: `forge` for the legacy
/// 1.20.1 line, `neoforge` for everything since.
pub fn artifact(version: &str) -> (r: &'static str)
    ensures
        r@ == artifact_spec(version@),
{
    if is_legacy(version) {
        "forge"
    } else {
        "neoforge"
    }
}

/// The maven repository NeoForge publishes to.
pub open spec fn maven() -> Seq<char> {
    "https://maven.neoforged.net/releases"@
}

/// The group path of a version's artifact.
pub open spec fn group_path(version: Seq<char>) -> Seq<char> {
    if is_legacy_spec(version) {
        "net/neoforged/forge"@
    } else {
        "net/neoforged/neoforge"@
    }
}

/// Where a version's installer jar is published.
pub open spec fn installer_url_spec(version: Seq<char>) -> Seq<char> {
    maven() + "/"@ + group_path(version) + "/"@ + version + "/"@ + artifact_spec(version) + "-"@
        + version + "-installer.jar"@
}

/// Where a version's installer jar is published.
pub fn installer_url(version: &str) -> (r: String)
    ensures
        r@ == installer_url_spec(version@),
{
    let legacy = is_legacy(version);
    let mut out: Vec<char> = Vec::new();
    push_str(&mut out, "https://maven.neoforged.net/releases");
    push_str(&mut out, "/");
    if legacy {
        push_str(&mut out, "net/neoforged/forge");
    } else {
        push_str(&mut out, "net/neoforged/neoforge");
    }
    push_str(&mut out, "/");
    push_str(&mut out, version);
    push_str(&mut out, "/");
    push_str(&mut out, artifact(version));
    push_str(&mut out, "-");
    push_str(&mut out, version);
    push_str(&mut out, "-installer.jar");
    assert(out@ =~= installer_url_spec(version@));
    string_of(&out)
}

/// The argument file a server-side install writes, relative to the server's
/// directory; `windows` picks the Windows spelling.
pub open spec fn server_args_file_spec(loader: Seq<char>, windows: bool) -> Seq<char> {
    "libraries/net/neoforged/"@ + artifact_spec(loader) + "/"@ + loader + "/"@ + (if windows {
        "win_args.txt"@
    } else {
        "unix_args.txt"@
    })
}

/// The argument file a server-side install writes.
pub fn server_args_file(loader: &str, windows: bool) -> (r: String)
    ensures
        r@ == server_args_file_spec(loader@, windows),
{
    let mut out: Vec<char> = Vec::new();
    push_str(&mut out, "libraries/net/neoforged/");
    push_str(&mut out, artifact(loader));
    push_str(&mut out, "/");
    push_str(&mut out, loader);
    push_str(&mut out, "/");
    if windows {
        push_str(&mut out, "win_args.txt");
    } else {
        push_str(&mut out, "unix_args.txt");
    }
    assert(out@ =~= server_args_file_spec(loader@, windows));
    string_of(&out)
}

/// The text a document piece holds up to its first `</version>`, trimmed,
/// when that is non-empty.
pub open spec fn piece_item(piece: Seq<char>) -> Seq<Seq<char>> {
    match first_occ(piece, "</version>"@) {
        Some(k) => {
            let t = trim(piece.take(k));
            if t.len() > 0 {
                seq![t]
            } else {
                Seq::empty()
            }
        },
        None => Seq::empty(),
    }
}

/// The part of `rest` before the next `<version>`, or all of it.
pub open spec fn piece_of(rest: Seq<char>) -> Seq<char> {
    match first_occ(rest, "<version>"@) {
        Some(j) => rest.take(j),
        None => rest,
    }
}

/// The index just past the first `<version>` in `body`, kept within bounds.
pub open spec fn after_open(body: Seq<char>, i: int) -> int {
    if 0 <= i && i + 9 <= body.len() {
        i + 9
    } else {
        body.len() as int
    }
}

/// The versions a `maven-metadata.xml` lists: the trimmed, non-empty text of
/// every `<version>` element, in document order. Each piece the document
/// splits into at an opening tag is read up to its first closing tag.
#[verifier::opaque]
pub open spec fn listed_versions(body: Seq<char>) -> Seq<Seq<char>>
    decreases body.len(),
{
    if body.len() == 0 {
        Seq::empty()
    } else {
        match first_occ(body, "<version>"@) {
            None => Seq::empty(),
            Some(i) => {
                let rest = body.skip(after_open(body, i));
                piece_item(piece_of(rest)) + listed_versions(rest)
            },
        }
    }
}

proof fn lemma_listed_step(body: Seq<char>)
    ensures
        first_occ(body, "<version>"@) is None ==> listed_versions(body) == Seq::<Seq<char>>::empty(),
        first_occ(body, "<version>"@) matches Some(i) ==> occurs_at(body, "<version>"@, i) ==> listed_versions(body)
            == piece_item(piece_of(body.skip(i + 9))) + listed_versions(body.skip(i + 9)),
{
    reveal(listed_versions);
    reveal_strlit("<version>");
}

fn piece_text(piece: &Vec<char>, close: &Vec<char>) -> (r: Option<String>)
    requires
        close@ == "</version>"@,
    ensures
        r matches Some(t) ==> piece_item(piece@) == seq![t@],
        r is None ==> piece_item(piece@) == Seq::<Seq<char>>::empty(),
{
    match first_occ_exec(piece, close) {
        Some(k) => {
            let inner = sub_chars(piece, 0, k);
            assert(inner@ =~= piece@.take(k as int));
            let t = trim_chars(&inner);
            if t.len() > 0 {
                Some(string_of(&t))
            } else {
                None
            }
        },
        None => None,
    }
}

/// The versions a `maven-metadata.xml` body lists.
pub fn artifact_versions(body: &str) -> (r: Vec<String>)
    ensures
        r.deep_view() == listed_versions(body@),
{
    let cs = chars_of(body);
    let open = chars_of("<version>");
    let close = chars_of("</version>");
    proof {
        reveal_strlit("<version>");
        reveal_strlit("</version>");
    }
    let mut out: Vec<String> = Vec::new();
    let mut rest = cs;
    loop
        invariant
            open@ == "<version>"@,
            close@ == "</version>"@,
            out.deep_view() + listed_versions(rest@) == listed_versions(body@),
        decreases rest@.len(),
    {
        proof {
            lemma_listed_step(rest@);
            reveal_strlit("<version>");
        }
        let i = match first_occ_exec(&rest, &open) {
            Some(i) => i,
            None => {
                assert(out.deep_view() + Seq::<Seq<char>>::empty() =~= out.deep_view());
                return out;
            },
        };
        let ghost whole = rest@;
        let n = rest.len();
        assert(i + 9 <= n);
        let tail = sub_chars(&rest, i + 9, n);
        assert(tail@ =~= whole.skip(i + 9));
        let piece = match first_occ_exec(&tail, &open) {
            Some(j) => sub_chars(&tail, 0, j),
            None => sub_chars(&tail, 0, tail.len()),
        };
        assert(piece@ =~= piece_of(tail@));
        let ghost before = out.deep_view();
        match piece_text(&piece, &close) {
            Some(t) => {
                out.push(t);
                assert(out.deep_view() =~= before + piece_item(piece@));
            },
            None => {
                assert(out.deep_view() =~= before + piece_item(piece@));
            },
        }
        assert(out.deep_view() + listed_versions(tail@) =~= before + listed_versions(whole));
        rest = tail;
    }
}

/// Published versions whose installer is missing upstream.
pub open spec fn uninstallable(version: Seq<char>) -> bool {
    version == "1.20.1-47.1.7"@ || version == "47.1.82"@
}

/// Why no NeoForge versions could be offered.
#[derive(Debug, Clone, Copy, PartialEq, Eq, Structural)]
pub enum CatalogueError {
    /// Neither artifact lists an installable version.
    NoVersions,
}

/// The installable versions in `listed`, in order.
pub open spec fn installable(listed: Seq<Seq<char>>) -> Seq<Seq<char>> {
    listed.filter(|v: Seq<char>| !uninstallable(v))
}

proof fn lemma_installable_concat(a: Seq<Seq<char>>, b: Seq<Seq<char>>)
    ensures
        installable(a + b) == installable(a) + installable(b),
{
    Seq::<Seq<char>>::filter_distributes_over_add(a, b, |v: Seq<char>| !uninstallable(v));
}

fn push_installable(out: &mut Vec<String>, list: &Vec<String>)
    ensures
        final(out).deep_view() == old(out).deep_view() + installable(list.deep_view()),
{
    let ghost all = list.deep_view();
    let ghost start = out.deep_view();
    let mut i: usize = 0;
    while i < list.len()
        invariant
            all == list.deep_view(),
            start == old(out).deep_view(),
            i <= list@.len(),
            out.deep_view() == start + installable(all.take(i as int)),
        decreases list.len() - i,
    {
        let v = &list[i];
        assert(v@ == all[i as int]);
        let skip = str_eq(v.as_str(), "1.20.1-47.1.7") || str_eq(v.as_str(), "47.1.82");
        let ghost before = out.deep_view();
        assert(all.take(i + 1).drop_last() =~= all.take(i as int));
        proof {
            reveal(Seq::filter);
        }
        if !skip {
            out.push(v.clone());
            assert(out.deep_view() =~= before.push(v@));
        } else {
            assert(out.deep_view() =~= before);
        }
        i += 1;
    }
    assert(all.take(list@.len() as int) =~= all);
}

/// Every installable version across the legacy and the modern artifact, the
/// legacy line first; an empty catalogue is an error.
pub fn catalogue(legacy: Vec<String>, modern: Vec<String>) -> (r: Result<Vec<String>, CatalogueError>)
    ensures
        installable(legacy.deep_view() + modern.deep_view()).len() == 0 ==> r == Err::<Vec<String>, CatalogueError>(CatalogueError::NoVersions),
        installable(legacy.deep_view() + modern.deep_view()).len() > 0 ==> (r matches Ok(v) && v.deep_view() == installable(legacy.deep_view() + modern.deep_view())),
{
    let ghost all = legacy.deep_view() + modern.deep_view();
    let mut out: Vec<String> = Vec::new();
    push_installable(&mut out, &legacy);
    push_installable(&mut out, &modern);
    proof {
        lemma_installable_concat(legacy.deep_view(), modern.deep_view());
    }
    if out.len() == 0 {
        return Err(CatalogueError::NoVersions);
    }
    Ok(out)
}

/// Every build in `versions` that targets `game`, newest first (the
/// catalogue lists oldest first).
pub open spec fn builds_for_spec(versions: Seq<Seq<char>>, game: Seq<char>) -> Seq<Seq<char>> {
    versions.filter(|v: Seq<char>| game_version_spec(v) == Some(game)).reverse()
}

/// Every build in `versions` that targets `game`, newest first.
pub fn builds_for(versions: &Vec<String>, game: &str) -> (r: Vec<String>)
    ensures
        r.deep_view() == builds_for_spec(versions.deep_view(), game@),
{
    let ghost all = versions.deep_view();
    let mut kept: Vec<String> = Vec::new();
    let mut i: usize = 0;
    while i < versions.len()
        invariant
            all == versions.deep_view(),
            i <= versions@.len(),
            kept.deep_view() == all.take(i as int).filter(|v: Seq<char>| game_version_spec(v) == Some(game@)),
        decreases versions.len() - i,
    {
        let v = &versions[i];
        assert(v@ == all[i as int]);
        let ghost before = kept.deep_view();
        assert(all.take(i + 1).drop_last() =~= all.take(i as int));
        proof {
            reveal(Seq::filter);
        }
        let matches = match game_version(v.as_str()) {
            Some(g) => str_eq(g.as_str(), game),
            None => false,
        };
        if matches {
            kept.push(v.clone());
            assert(kept.deep_view() =~= before.push(v@));
        } else {
            assert(kept.deep_view() =~= before);
        }
        i += 1;
    }
    assert(all.take(versions@.len() as int) =~= all);
    let ghost fwd = kept.deep_view();
    let mut out: Vec<String> = Vec::new();
    let mut j: usize = kept.len();
    while j > 0
        invariant
            fwd == kept.deep_view(),
            j <= kept@.len(),
            out.deep_view() == fwd.skip(j as int).reverse(),
        decreases j,
    {
        let ghost before = out.deep_view();
        out.push(kept[j - 1].clone());
        assert(out.deep_view() =~= before.push(fwd[j - 1]));
        assert(fwd.skip(j - 1) =~= seq![fwd[j - 1]] + fwd.skip(j as int));
        assert(fwd.skip(j - 1).reverse() =~= fwd.skip(j as int).reverse().push(fwd[j - 1]));
        j -= 1;
    }
    assert(fwd.skip(0) =~= fwd);
    out
}

/// The game versions NeoForge builds exist for, typed and ordered by
/// Mojang's manifest; a derived version the manifest lacks is dropped.
pub fn game_versions(versions: &Vec<String>, manifest: &Vec<crate::meta::GameVersion>) -> (r: Vec<crate::meta::GameVersion>)
    ensures
        ({
            let targeted = versions.deep_view().filter(|v: Seq<char>| game_version_spec(v) is Some).map_values(|v: Seq<char>| game_version_spec(v)->0);
            r@ == manifest@.filter(|g: crate::meta::GameVersion| targeted.contains(g.id@))
        }),
{
    let ghost all = versions.deep_view();
    let ghost pred = |v: Seq<char>| game_version_spec(v) is Some;
    let mut targeted: Vec<String> = Vec::new();
    let mut i: usize = 0;
    while i < versions.len()
        invariant
            all == versions.deep_view(),
            pred == (|v: Seq<char>| game_version_spec(v) is Some),
            i <= all.len(),
            targeted.deep_view() == all.take(i as int).filter(pred).map_values(|v: Seq<char>| game_version_spec(v)->0),
        decreases versions.len() - i,
    {
        let v = &versions[i];
        assert(v@ == all[i as int]);
        let ghost pre = all.take(i as int);
        assert(all.take(i + 1) =~= pre.push(all[i as int]));
        proof {
            pre.lemma_filter_push(all[i as int], pred);
        }
        let ghost before = targeted.deep_view();
        match game_version(v.as_str()) {
            Some(g) => {
                let ghost gv = g@;
                targeted.push(g);
                assert(game_version_spec(all[i as int]) == Some(gv));
                assert(targeted.deep_view() =~= before.push(gv));
                assert(pre.filter(pred).push(all[i as int]).map_values(|v: Seq<char>| game_version_spec(v)->0)
                    =~= pre.filter(pred).map_values(|v: Seq<char>| game_version_spec(v)->0).push(gv));
            },
            None => {},
        }
        i += 1;
    }
    assert(all.take(all.len() as int) =~= all);
    crate::spigot::game_versions(&targeted, manifest)
}

/// What resolving a NeoForge build refuses.
#[derive(Debug, Clone, PartialEq, Eq)]
pub enum ResolveError {
    /// No build is published for the game version; it carries the version.
    NoBuild(String),
    /// The version document refused.
    Meta(crate::meta::MetaError),
}

/// The build a resolve uses: the pinned one, else simply the newest of the
/// game version's builds (NeoForge has no stability preference).
pub fn resolve_loader(pinned: Option<&str>, versions: &Vec<String>, game: &str) -> (r: Result<String, ResolveError>)
    ensures
        pinned matches Some(p) ==> (r matches Ok(l) && l@ == p@),
        pinned is None && builds_for_spec(versions.deep_view(), game@).len() > 0 ==> (r matches Ok(l) && l@
            == builds_for_spec(versions.deep_view(), game@)[0]),
        pinned is None && builds_for_spec(versions.deep_view(), game@).len() == 0 ==> (r matches Err(
            ResolveError::NoBuild(g),
        ) && g@ == game@),
{
    if let Some(p) = pinned {
        return Ok(String::from_str(p));
    }
    let builds = builds_for(versions, game);
    if builds.len() == 0 {
        return Err(ResolveError::NoBuild(String::from_str(game)));
    }
    Ok(builds[0].clone())
}

/// Where a build's installer jar is kept once fetched.
pub fn installer_path(root: &str, loader: &str) -> (r: String)
    ensures
        r@ == crate::launch::path_join(crate::launch::path_join(root@, "neoforge"@), loader@ + ".jar"@),
{
    let dir = crate::launch::join_str(root, "neoforge");
    let mut file = chars_of(loader);
    push_str(&mut file, ".jar");
    let f = string_of(&file);
    crate::launch::join_str(dir.as_str(), f.as_str())
}

/// The one-line description of NeoForge.
pub open spec fn summary_spec() -> Seq<char> {
    "Mod loader for big, content-heavy modpacks. The first launch prepares the game files, so it takes a few minutes."@
}

/// The NeoForge server flavor.
#[derive(Debug, Clone, Copy)]
pub struct NeoForgeServer;

/// The NeoForge client flavor.
#[derive(Debug, Clone, Copy)]
pub struct NeoForgeInstance;

impl crate::provider::Flavor for NeoForgeServer {
    fn id(&self) -> (r: &'static str)
        ensures
            r@ == "neoforge"@,
    {
        "neoforge"
    }

    fn name(&self) -> (r: &'static str)
        ensures
            r@ == "NeoForge"@,
    {
        "NeoForge"
    }

    fn summary(&self) -> (r: &'static str)
        ensures
            r@ == summary_spec(),
    {
        "Mod loader for big, content-heavy modpacks. The first launch prepares the game files, so it takes a few minutes."
    }

    fn loads(&self) -> (r: crate::provider::Loads)
        ensures
            r == Some(crate::provider::ContentKind::Mod),
    {
        Some(crate::provider::ContentKind::Mod)
    }
}

impl crate::provider::Flavor for NeoForgeInstance {
    fn id(&self) -> (r: &'static str)
        ensures
            r@ == "neoforge"@,
    {
        "neoforge"
    }

    fn name(&self) -> (r: &'static str)
        ensures
            r@ == "NeoForge"@,
    {
        "NeoForge"
    }

    fn summary(&self) -> (r: &'static str)
        ensures
            r@ == summary_spec(),
    {
        "Mod loader for big, content-heavy modpacks. The first launch prepares the game files, so it takes a few minutes."
    }

    fn loads(&self) -> (r: crate::provider::Loads)
        ensures
            r == Some(crate::provider::ContentKind::Mod),
    {
        Some(crate::provider::ContentKind::Mod)
    }
}

/// The NeoForge server profile of a build over the game's version document:
/// the vanilla server jar stays the primary artifact (the processors patch
/// it), and the launch reads the argument file the install writes.
pub fn server_profile(game: &str, loader: &str, base: &crate::json::Json, windows: bool) -> (r: Result<crate::profile::ServerProfile, crate::meta::MetaError>)
    ensures
        !crate::meta::has_download(*base, "server"@) ==> r == Err::<crate::profile::ServerProfile, crate::meta::MetaError>(crate::meta::MetaError::NoServerDownload),
        crate::meta::has_download(*base, "server"@) ==> (r matches Ok(p) && p.flavor@ == "neoforge"@
            && p.game_version@ == game@ && (p.loader_version matches Some(l) && l@ == loader@)
            && p.args_file@ == server_args_file_spec(loader@, windows) && crate::meta::is_artifact_of(
            p.primary,
            crate::meta::download_obj(*base, "server"@)->0,
        ) && p.libraries@.len() == 0 && p.java_major == crate::meta::java_major_spec(*base)
            && p.main_class@.len() == 0 && p.jvm_args@.len() == 0),
{
    let primary = crate::meta::server_artifact(base)?;
    Ok(
        crate::profile::ServerProfile {
            flavor: String::from_str("neoforge"),
            game_version: String::from_str(game),
            args_file: server_args_file(loader, windows),
            loader_version: Some(String::from_str(loader)),
            primary,
            libraries: Vec::new(),
            java_major: crate::meta::java_major(base),
            main_class: String::new(),
            jvm_args: Vec::new(),
        },
    )
}

/// The NeoForge client profile of a build: the installer's version document
/// layered over the game's (libraries merged, arguments appended, its main
/// class); `os` is the host in Mojang's rule vocabulary.
pub fn instance_profile(game: &str, loader: &str, base: &crate::json::Json, installer: &crate::json::Json, os: &str) -> (r: Result<crate::profile::InstanceProfile, crate::meta::MetaError>)
    ensures
        !crate::meta::has_download(*base, "client"@) ==> r == Err::<crate::profile::InstanceProfile, crate::meta::MetaError>(crate::meta::MetaError::NoClientDownload),
        crate::meta::has_download(*base, "client"@) && crate::json::get_spec(*base, "assetIndex"@) is None ==> r == Err::<
            crate::profile::InstanceProfile,
            crate::meta::MetaError,
        >(crate::meta::MetaError::NoAssetIndex),
        crate::meta::has_download(*base, "client"@) ==> match crate::json::get_spec(*base, "assetIndex"@) {
            Some(index) => if crate::meta::has_url(index) {
                r is Ok
            } else {
                r == Err::<crate::profile::InstanceProfile, crate::meta::MetaError>(crate::meta::MetaError::AssetIndexWithoutUrl)
            },
            None => true,
        },
        r matches Ok(p) ==> {
            &&& crate::json::get_spec(*base, "assetIndex"@) matches Some(index) && p.asset_index.id@ == crate::json::text_in(Some(index), "id"@)
                && p.asset_index.total_size == crate::json::u64_at(index, "totalSize"@, 0) && crate::meta::is_artifact_of(p.asset_index.artifact, index)
            &&& p.flavor@ == "neoforge"@
            &&& p.game_version@ == game@
            &&& p.loader_version matches Some(l) && l@ == loader@
            &&& crate::meta::is_artifact_of(p.client, crate::meta::download_obj(*base, "client"@)->0)
            &&& p.java_major == crate::meta::java_major_spec(*base)
            &&& p.main_class@ == crate::json::text_in(Some(*installer), "mainClass"@)
            &&& p.jvm_args.deep_view() == crate::meta::collect_args_spec(*base, "jvm"@, os@) + crate::meta::collect_args_spec(*installer, "jvm"@, os@)
            &&& p.game_args.deep_view() == crate::meta::game_args_spec(*base, os@) + crate::meta::game_args_spec(*installer, os@)
            &&& exists|vanilla: Seq<crate::profile::Library>, extra: Seq<crate::profile::Library>|
                #[trigger] crate::fabric::merged_spec(vanilla + extra) == p.libraries@ && {
                    let vk = crate::json::keep(crate::meta::version_libs(*base), |lib: crate::json::Json| crate::meta::library_kept(lib, os@));
                    let ek = crate::json::keep(crate::meta::version_libs(*installer), |lib: crate::json::Json| crate::meta::library_kept(lib, os@));
                    &&& vanilla.len() == vk.len()
                    &&& forall|i: int| 0 <= i < vk.len() ==> crate::meta::is_library_of(#[trigger] vanilla[i], vk[i])
                    &&& extra.len() == ek.len()
                    &&& forall|i: int| 0 <= i < ek.len() ==> crate::meta::is_library_of(#[trigger] extra[i], ek[i])
                }
        },
{
    let client = crate::meta::client_artifact(base)?;
    let asset_index = crate::meta::asset_index(base)?;
    let vanilla = crate::meta::libraries(base, os);
    let extra = crate::meta::libraries(installer, os);
    let merged = crate::fabric::merge_libraries(&vanilla, &extra);
    let mut jvm = crate::meta::jvm_args(base, os);
    let more_jvm = crate::meta::jvm_args(installer, os);
    crate::launch::append_all(&mut jvm, &more_jvm);
    let mut game_args = crate::meta::game_args(base, os);
    let more_game = crate::meta::game_args(installer, os);
    crate::launch::append_all(&mut game_args, &more_game);
    assert(crate::fabric::merged_spec(vanilla@ + extra@) == merged@);
    Ok(
        crate::profile::InstanceProfile {
            flavor: String::from_str("neoforge"),
            game_version: String::from_str(game),
            loader_version: Some(String::from_str(loader)),
            client,
            libraries: merged,
            asset_index,
            java_major: crate::meta::java_major(base),
            main_class: crate::meta::main_class(installer),
            jvm_args: jvm,
            game_args,
        },
    )
}

} // verus!
