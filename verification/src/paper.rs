//! The PaperMC server platforms, Paper and Folia: reading the Fill catalogue
//! (versions, builds, the java a version needs), choosing a build, and the
//! server profile a build makes.

use vstd::prelude::*;

use vstd::string::StringExecFns;

use crate::json::{array_spec, get_opt, get_spec, i64_spec, str_opt, strings, strings_of, text_in, u64_at, u64_spec, Json};
use crate::meta::{items_of, sha1_checksum, GameVersion, MetaError, VersionKind};
use crate::profile::{Artifact, Checksum, HashAlgorithm, ServerProfile};
use crate::provider::{ContentKind, Flavor, Loads};
use crate::text::{chars_of, decimal, decimal_u64, str_eq, string_of, upper_all, upper_chars};

verus! {

/// The Fill v3 API root.
pub const META: &'static str = "https://fill.papermc.io/v3";

/// The download every server build publishes under.
pub const SERVER_DOWNLOAD: &'static str = "server:default";

/// What a build was released as. Only `Stable` is picked automatically.
#[derive(Debug, Clone, Copy, PartialEq, Eq, Structural)]
pub enum Channel {
    Stable,
    Beta,
    Alpha,
}

/// The channel a Fill label names, ignoring ASCII case: `RECOMMENDED` is the
/// newest stable build relabelled, not a fourth channel.
pub open spec fn channel_spec(raw: Seq<char>) -> Option<Channel> {
    let u = upper_all(raw);
    if u == "STABLE"@ || u == "RECOMMENDED"@ {
        Some(Channel::Stable)
    } else if u == "BETA"@ {
        Some(Channel::Beta)
    } else if u == "ALPHA"@ {
        Some(Channel::Alpha)
    } else {
        None
    }
}

impl Channel {
    /// The channel a Fill label names.
    pub fn parse(raw: &str) -> (r: Option<Channel>)
        ensures
            r == channel_spec(raw@),
    {
        let u = upper_chars(&chars_of(raw));
        let s = string_of(&u);
        if str_eq(s.as_str(), "STABLE") || str_eq(s.as_str(), "RECOMMENDED") {
            Some(Channel::Stable)
        } else if str_eq(s.as_str(), "BETA") {
            Some(Channel::Beta)
        } else if str_eq(s.as_str(), "ALPHA") {
            Some(Channel::Alpha)
        } else {
            None
        }
    }
}

/// One published build: its number, channel and server jar.
#[derive(Debug, Clone)]
pub struct Build {
    pub number: u64,
    pub channel: Channel,
    pub download: Artifact,
}

/// The server download of a build entry.
pub open spec fn server_download(value: Json) -> Option<Json> {
    get_opt(get_spec(value, "downloads"@), "server:default"@)
}

/// Whether a build entry carries a launchable server jar: a download with a
/// url and a name, a numeric id and a known channel.
pub open spec fn build_usable(value: Json) -> bool {
    &&& server_download(value) is Some
    &&& u64_spec_at(value, "id"@) is Some
    &&& match str_opt(get_spec(value, "channel"@)) {
        Some(c) => channel_spec(c) is Some,
        None => false,
    }
    &&& str_opt(get_spec(server_download(value)->0, "url"@)) is Some
    &&& str_opt(get_spec(server_download(value)->0, "name"@)) is Some
}

/// The `u64` under `key`, if there is one.
pub open spec fn u64_spec_at(j: Json, key: Seq<char>) -> Option<u64> {
    match get_spec(j, key) {
        Some(v) => u64_spec(v),
        None => None,
    }
}

/// Whether `c` is the SHA-256 checksum a non-empty text names, or absent for
/// an empty one.
pub open spec fn sha256_checksum(c: Option<Checksum>, hex: Seq<char>) -> bool {
    if hex.len() == 0 {
        c is None
    } else {
        c matches Some(k) && k.algorithm == HashAlgorithm::Sha256 && k.hex@ == hex
    }
}

/// Whether `b` is the build an entry describes.
pub open spec fn is_build_of(b: Build, value: Json) -> bool {
    let d = server_download(value)->0;
    &&& Some(b.number) == u64_spec_at(value, "id"@)
    &&& Some(b.channel) == channel_spec(str_opt(get_spec(value, "channel"@))->0)
    &&& Some(b.download.url@) == str_opt(get_spec(d, "url"@))
    &&& Some(b.download.filename@) == str_opt(get_spec(d, "name"@))
    &&& b.download.size == u64_at(d, "size"@, 0)
    &&& sha256_checksum(b.download.checksum, text_in(get_spec(d, "checksums"@), "sha256"@))
}

/// A build entry, or `None` when it carries no launchable server jar.
pub fn parse_build(value: &Json) -> (r: Option<Build>)
    ensures
        build_usable(*value) ==> (r matches Some(b) && is_build_of(b, *value)),
        !build_usable(*value) ==> r is None,
{
    let download = match value.get("downloads") {
        Some(d) => match d.get("server:default") {
            Some(x) => x,
            None => return None,
        },
        None => return None,
    };
    let sha256 = crate::json::text_of(download.get("checksums"), "sha256");
    let number = match value.get("id") {
        Some(v) => match v.as_u64() {
            Some(n) => n,
            None => return None,
        },
        None => return None,
    };
    let channel = match value.get("channel") {
        Some(c) => match c.as_str() {
            Some(s) => match Channel::parse(s.as_str()) {
                Some(ch) => ch,
                None => return None,
            },
            None => return None,
        },
        None => return None,
    };
    let url = match download.get("url") {
        Some(u) => match u.as_str() {
            Some(s) => s.clone(),
            None => return None,
        },
        None => return None,
    };
    let filename = match download.get("name") {
        Some(u) => match u.as_str() {
            Some(s) => s.clone(),
            None => return None,
        },
        None => return None,
    };
    let checksum = if sha256.as_str().is_empty() {
        None
    } else {
        Some(Checksum { algorithm: HashAlgorithm::Sha256, hex: sha256 })
    };
    Some(
        Build {
            number,
            channel,
            download: Artifact { url, filename, size: download.u64_or("size", 0), checksum },
        },
    )
}

/// Every usable build of a Fill builds answer, in its order (newest first).
pub fn builds_from(j: &Json) -> (r: Result<Vec<Build>, MetaError>)
    ensures
        array_spec(*j) is None ==> r == Err::<Vec<Build>, MetaError>(MetaError::NotAnArray),
        array_spec(*j) matches Some(items) ==> (r matches Ok(out) && {
            let kept = crate::json::keep(items, |v: Json| build_usable(v));
            out@.len() == kept.len() && forall|i: int| 0 <= i < kept.len() ==> is_build_of(#[trigger] out@[i], kept[i])
        }),
{
    let items = match j.as_array() {
        Some(items) => items,
        None => return Err(MetaError::NotAnArray),
    };
    let ghost pred = |v: Json| build_usable(v);
    let mut out: Vec<Build> = Vec::new();
    let mut i: usize = 0;
    while i < items.len()
        invariant
            i <= items@.len(),
            pred == (|v: Json| build_usable(v)),
            ({
                let kept = crate::json::keep(items@.take(i as int), pred);
                out@.len() == kept.len() && forall|k: int| 0 <= k < kept.len() ==> is_build_of(#[trigger] out@[k], kept[k])
            }),
        decreases items.len() - i,
    {
        assert(items@.take(i + 1).drop_last() =~= items@.take(i as int));
        if let Some(b) = parse_build(&items[i]) {
            let ghost before = out@;
            out.push(b);
            assert(pred(items@[i as int]));
            assert(forall|k: int| 0 <= k < before.len() ==> out@[k] == before[k]);
        }
        i += 1;
    }
    assert(items@.take(items@.len() as int) =~= items@);
    Ok(out)
}

/// The build a create resolves to when none was pinned: the newest stable
/// one (builds come newest first), else the newest of any channel; `None`
/// when nothing is published.
pub fn newest_build(builds: &Vec<Build>) -> (r: Option<usize>)
    ensures
        builds@.len() == 0 ==> r is None,
        (exists|i: int| 0 <= i < builds@.len() && (#[trigger] builds@[i]).channel == Channel::Stable)
            ==> (r matches Some(i) && i < builds@.len() && builds@[i as int].channel == Channel::Stable
            && forall|k: int| 0 <= k < i ==> builds@[k].channel != Channel::Stable),
        builds@.len() > 0 && (forall|i: int| 0 <= i < builds@.len() ==> (#[trigger] builds@[i]).channel
            != Channel::Stable) ==> r == Some(0usize),
{
    let mut i: usize = 0;
    while i < builds.len()
        invariant
            i <= builds@.len(),
            forall|k: int| 0 <= k < i ==> builds@[k].channel != Channel::Stable,
        decreases builds.len() - i,
    {
        if builds[i].channel == Channel::Stable {
            return Some(i);
        }
        i += 1;
    }
    if builds.len() == 0 {
        None
    } else {
        Some(0)
    }
}

/// The build numbers of a list of builds, in decimal, in order.
pub fn build_numbers(builds: &Vec<Build>) -> (r: Vec<String>)
    ensures
        r@.len() == builds@.len(),
        forall|i: int| 0 <= i < builds@.len() ==> (#[trigger] r@[i])@ == decimal(builds@[i].number as nat),
{
    let mut out: Vec<String> = Vec::new();
    let mut i: usize = 0;
    while i < builds.len()
        invariant
            i <= builds@.len(),
            out@.len() == i,
            forall|k: int| 0 <= k < i ==> (#[trigger] out@[k])@ == decimal(builds@[k].number as nat),
        decreases builds.len() - i,
    {
        let digits = decimal_u64(builds[i].number);
        out.push(string_of(&digits));
        i += 1;
    }
    out
}

/// The game versions a Fill project answer publishes: the strings of every
/// array among the values of its `versions` object, in order.
pub open spec fn published_spec(fields: Seq<(String, Json)>) -> Seq<Seq<char>>
    decreases fields.len(),
{
    if fields.len() == 0 {
        Seq::empty()
    } else {
        published_spec(fields.drop_last()) + match array_spec(fields.last().1) {
            Some(items) => strings(items),
            None => Seq::empty(),
        }
    }
}

/// The game versions a Fill project answer publishes, in no meaningful
/// order; `None` when it carries no `versions` object.
pub fn game_versions_from(body: &Json) -> (r: Option<Vec<String>>)
    ensures
        !(get_spec(*body, "versions"@) matches Some(Json::Object(_))) ==> r is None,
        get_spec(*body, "versions"@) matches Some(Json::Object(fields)) ==> (r matches Some(out)
            && out.deep_view() == published_spec(fields@)),
{
    let fields = match body.get("versions") {
        Some(Json::Object(fields)) => fields,
        _ => return None,
    };
    let mut out: Vec<String> = Vec::new();
    let mut i: usize = 0;
    while i < fields.len()
        invariant
            i <= fields@.len(),
            out.deep_view() == published_spec(fields@.take(i as int)),
        decreases fields.len() - i,
    {
        assert(fields@.take(i + 1).drop_last() =~= fields@.take(i as int));
        let ghost before = out.deep_view();
        match fields[i].1.as_array() {
            Some(items) => {
                let more = strings_of(items);
                crate::launch::append_all(&mut out, &more);
            },
            None => {
                assert(before + Seq::<Seq<char>>::empty() =~= before);
            },
        }
        i += 1;
    }
    assert(fields@.take(fields@.len() as int) =~= fields@);
    Some(out)
}

/// Order the versions a project publishes by Mojang's manifest, keeping the
/// ones it does not list at the end as snapshots.
pub fn order_versions(published: &Vec<String>, manifest: &Vec<GameVersion>) -> (r: Vec<GameVersion>)
    ensures
        ({
            let listed = manifest@.filter(|v: GameVersion| published.deep_view().contains(v.id@));
            let unlisted = published.deep_view().filter(|p: Seq<char>| !listed.map_values(|v: GameVersion| v.id@).contains(p));
            &&& r@.len() == listed.len() + unlisted.len()
            &&& forall|i: int| 0 <= i < listed.len() ==> #[trigger] r@[i] == listed[i]
            &&& forall|i: int|
                0 <= i < unlisted.len() ==> (#[trigger] r@[listed.len() + i]).id@ == unlisted[i]
                    && r@[listed.len() + i].kind == VersionKind::Snapshot && !r@[listed.len() + i].stable
        }),
{
    let ghost pubs = published.deep_view();
    let mut versions: Vec<GameVersion> = Vec::new();
    let mut i: usize = 0;
    while i < manifest.len()
        invariant
            pubs == published.deep_view(),
            i <= manifest@.len(),
            versions@ == manifest@.take(i as int).filter(|v: GameVersion| pubs.contains(v.id@)),
        decreases manifest.len() - i,
    {
        let v = &manifest[i];
        let ghost pre = manifest@.take(i as int);
        assert(manifest@.take(i + 1) =~= pre.push(manifest@[i as int]));
        proof {
            pre.lemma_filter_push(manifest@[i as int], |v: GameVersion| pubs.contains(v.id@));
        }
        if crate::launch::contains_string(published, &v.id) {
            versions.push(GameVersion { id: v.id.clone(), kind: v.kind, stable: v.stable });
        }
        i += 1;
    }
    assert(manifest@.take(manifest@.len() as int) =~= manifest@);
    let ghost listed = versions@;
    let mut ids: Vec<String> = Vec::new();
    let mut k: usize = 0;
    while k < versions.len()
        invariant
            k <= versions@.len(),
            ids.deep_view() == versions@.take(k as int).map_values(|v: GameVersion| v.id@),
        decreases versions.len() - k,
    {
        let ghost before = ids.deep_view();
        let id = versions[k].id.clone();
        ids.push(id);
        assert(ids.deep_view() =~= before.push(id@));
        assert(versions@.take(k + 1) =~= versions@.take(k as int).push(versions@[k as int]));
        assert(ids.deep_view() =~= versions@.take(k + 1).map_values(|v: GameVersion| v.id@));
        k += 1;
    }
    assert(versions@.take(versions@.len() as int) =~= versions@);
    let ghost listed_ids = listed.map_values(|v: GameVersion| v.id@);
    let mut out = versions;
    let mut j: usize = 0;
    while j < published.len()
        invariant
            pubs == published.deep_view(),
            ids.deep_view() == listed_ids,
            listed_ids == listed.map_values(|v: GameVersion| v.id@),
            j <= pubs.len(),
            out@.len() == listed.len() + pubs.take(j as int).filter(|p: Seq<char>| !listed_ids.contains(p)).len(),
            forall|q: int| 0 <= q < listed.len() ==> #[trigger] out@[q] == listed[q],
            forall|q: int|
                0 <= q < pubs.take(j as int).filter(|p: Seq<char>| !listed_ids.contains(p)).len() ==> (#[trigger] out@[listed.len() + q]).id@
                    == pubs.take(j as int).filter(|p: Seq<char>| !listed_ids.contains(p))[q] && out@[listed.len() + q].kind
                    == VersionKind::Snapshot && !out@[listed.len() + q].stable,
        decreases published.len() - j,
    {
        let p = &published[j];
        let ghost pre = pubs.take(j as int);
        assert(pubs.take(j + 1) =~= pre.push(pubs[j as int]));
        proof {
            pre.lemma_filter_push(pubs[j as int], |p: Seq<char>| !listed_ids.contains(p));
        }
        if !crate::launch::contains_string(&ids, p) {
            out.push(GameVersion { id: p.clone(), kind: VersionKind::Snapshot, stable: false });
        }
        j += 1;
    }
    assert(pubs.take(pubs.len() as int) =~= pubs);
    out
}

/// What a version's builds need from the JVM: the minimum major and the
/// flags PaperMC recommends.
#[derive(Debug, Clone)]
pub struct Java {
    pub major: i32,
    pub flags: Vec<String>,
}

/// The `java` block of a Fill version answer.
pub open spec fn java_block(body: Json) -> Option<Json> {
    get_opt(get_spec(body, "version"@), "java"@)
}

/// The minimum Java major a Fill version answer states.
pub open spec fn java_minimum(body: Json) -> Option<i64> {
    match get_opt(get_opt(java_block(body), "version"@), "minimum"@) {
        Some(v) => i64_spec(v),
        None => None,
    }
}

/// What a Fill version answer says of the JVM; `None` when it states no
/// minimum major.
pub fn java_from(body: &Json) -> (r: Option<Java>)
    ensures
        java_minimum(*body) is None ==> r is None,
        java_minimum(*body) matches Some(m) ==> (r matches Some(j) && j.major == m as i32
            && j.flags.deep_view() == strings(crate::json::items_at(get_opt(java_block(*body), "flags"@), "recommended"@))),
{
    let java = match body.get("version") {
        Some(v) => v.get("java"),
        None => None,
    };
    let major = match java {
        Some(j) => match j.get("version") {
            Some(v) => match v.get("minimum") {
                Some(m) => m.as_i64(),
                None => None,
            },
            None => None,
        },
        None => None,
    };
    let major = match major {
        Some(m) => m,
        None => return None,
    };
    let flags_block = match java {
        Some(j) => j.get("flags"),
        None => None,
    };
    let flags = match items_of(flags_block, "recommended") {
        Some(items) => strings_of(items),
        None => Vec::new(),
    };
    Some(Java { major: major as i32, flags })
}

/// The server profile of a project's build for a game version.
pub fn server_profile(project: &str, game: &str, build: &Build, java: &Java) -> (r: ServerProfile)
    ensures
        r.flavor@ == project@,
        r.game_version@ == game@,
        r.loader_version matches Some(l) && l@ == decimal(build.number as nat),
        r.primary == build.download,
        r.libraries@.len() == 0,
        r.java_major == java.major,
        r.main_class@.len() == 0,
        r.jvm_args.deep_view() == java.flags.deep_view(),
        r.args_file@.len() == 0,
{
    let mut flags: Vec<String> = Vec::new();
    crate::launch::append_all(&mut flags, &java.flags);
    ServerProfile {
        flavor: String::from_str(project),
        game_version: String::from_str(game),
        loader_version: Some(string_of(&decimal_u64(build.number))),
        primary: build.download.duplicate(),
        libraries: Vec::new(),
        java_major: java.major,
        main_class: String::new(),
        jvm_args: flags,
        args_file: String::new(),
    }
}

/// The Paper server flavor.
#[derive(Debug, Clone, Copy)]
pub struct PaperServer;

/// The Folia server flavor: Paper with regionised multithreading.
#[derive(Debug, Clone, Copy)]
pub struct FoliaServer;

impl Flavor for PaperServer {
    fn id(&self) -> (r: &'static str)
        ensures
            r@ == "paper"@,
    {
        "paper"
    }

    fn name(&self) -> (r: &'static str)
        ensures
            r@ == "Paper"@,
    {
        "Paper"
    }

    fn summary(&self) -> (r: &'static str)
        ensures
            r@ == "High-performance server that runs Bukkit plugins, on flags PaperMC tunes per version."@,
    {
        "High-performance server that runs Bukkit plugins, on flags PaperMC tunes per version."
    }

    fn loads(&self) -> (r: Loads)
        ensures
            r == Some(ContentKind::Plugin),
    {
        Some(ContentKind::Plugin)
    }
}

impl Flavor for FoliaServer {
    fn id(&self) -> (r: &'static str)
        ensures
            r@ == "folia"@,
    {
        "folia"
    }

    fn name(&self) -> (r: &'static str)
        ensures
            r@ == "Folia"@,
    {
        "Folia"
    }

    fn summary(&self) -> (r: &'static str)
        ensures
            r@ == "Paper with regionised multithreading, for very large worlds. Only Folia-ready plugins work."@,
    {
        "Paper with regionised multithreading, for very large worlds. Only Folia-ready plugins work."
    }

    /// Folia's plugins are filtered as `folia`, never widened to `paper`.
    fn loads(&self) -> (r: Loads)
        ensures
            r == Some(ContentKind::Plugin),
    {
        Some(ContentKind::Plugin)
    }
}

} // verus!
