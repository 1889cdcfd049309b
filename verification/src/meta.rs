//! Reading upstream metadata: Maven coordinates, Mojang's rule arrays and
//! download objects, and the version JSON extractors that turn a version
//! into launch-profile pieces. Fetching is the caller's.

use vstd::prelude::*;

use vstd::string::StringExecFns;

use crate::json::{
    array_spec, get_opt, get_spec, i64_spec, str_opt, str_spec, strings, strings_of, text_in,
    text_of, u64_at, Json,
};
use crate::launch::{split_words, words};
use crate::profile::{Artifact, AssetIndex, Checksum, HashAlgorithm, Library, Native};
use crate::text::{
    after_last, after_last_exec, chars_of, lemma_split_nonempty, push_all, push_str,
    replace_all, replace_all_exec, replace_char, replace_char_exec, split_char, split_on,
    split_once, split_once_spec, str_eq, string_of,
};

verus! {

/// What reading a catalogue or a version document refuses.
#[derive(Debug, Clone, PartialEq, Eq)]
pub enum MetaError {
    /// The version manifest lacks its `versions` array.
    NoVersions,
    /// No version of this id is in the manifest.
    VersionNotFound(String),
    /// The version has no client download.
    NoClientDownload,
    /// The version has no server download (too old to ship a server jar).
    NoServerDownload,
    /// The version has no `assetIndex`.
    NoAssetIndex,
    /// The `assetIndex` lacks its url.
    AssetIndexWithoutUrl,
    /// A catalogue answer that should be a JSON array is not.
    NotAnArray,
    /// Nothing is published where something had to be; it says what.
    NothingPublished(String),
}

/// Mojang's name (`os.name` in rules) for the host, from Rust's `target_os`.
pub open spec fn rules_os_spec(target_os: Seq<char>) -> Seq<char> {
    if target_os == "windows"@ {
        "windows"@
    } else if target_os == "macos"@ {
        "osx"@
    } else {
        "linux"@
    }
}

/// Mojang's name for the host's operating system.
pub fn rules_os(target_os: &str) -> (r: &'static str)
    ensures
        r@ == rules_os_spec(target_os@),
{
    if str_eq(target_os, "windows") {
        "windows"
    } else if str_eq(target_os, "macos") {
        "osx"
    } else {
        "linux"
    }
}

/// Whether a rule speaks to the host: it is not feature-gated, and it names
/// no operating system or names the host's.
pub open spec fn rule_applies(rule: Json, os: Seq<char>) -> bool {
    &&& get_spec(rule, "features"@) is None
    &&& match str_opt(get_opt(get_spec(rule, "os"@), "name"@)) {
        Some(n) => n == os,
        None => true,
    }
}

/// Whether a rule's action allows (a missing action allows).
pub open spec fn rule_allows(rule: Json) -> bool {
    match str_opt(get_spec(rule, "action"@)) {
        Some(a) => a == "allow"@,
        None => true,
    }
}

/// The action of the last rule that speaks to the host; disallowed when none
/// does.
pub open spec fn last_verdict(rules: Seq<Json>, os: Seq<char>) -> bool
    decreases rules.len(),
{
    if rules.len() == 0 {
        false
    } else if rule_applies(rules.last(), os) {
        rule_allows(rules.last())
    } else {
        last_verdict(rules.drop_last(), os)
    }
}

/// Whether a Mojang `rules` value allows the host: anything but a non-empty
/// array allows; an array decides by its last rule for the host.
pub open spec fn rules_allow_spec(rules: Json, os: Seq<char>) -> bool {
    match array_spec(rules) {
        None => true,
        Some(rs) => rs.len() == 0 || last_verdict(rs, os),
    }
}

/// Evaluate a Mojang `rules` value for the host named `os`.
pub fn rules_allow(rules: &Json, os: &str) -> (r: bool)
    ensures
        r == rules_allow_spec(*rules, os@),
{
    proof {
        reveal_strlit("allow");
    }
    let rs = match rules.as_array() {
        None => return true,
        Some(rs) => rs,
    };
    if rs.len() == 0 {
        return true;
    }
    let mut allowed = false;
    let mut i: usize = 0;
    while i < rs.len()
        invariant
            i <= rs@.len(),
            allowed == last_verdict(rs@.take(i as int), os@),
        decreases rs.len() - i,
    {
        let rule = &rs[i];
        assert(rs@.take(i + 1).drop_last() =~= rs@.take(i as int));
        let gated = rule.get("features").is_some();
        let names = match rule.get("os") {
            Some(o) => match o.get("name") {
                Some(n) => match n.as_str() {
                    Some(name) => str_eq(name.as_str(), os),
                    None => true,
                },
                None => true,
            },
            None => true,
        };
        if !gated && names {
            allowed = match rule.get("action") {
                Some(a) => match a.as_str() {
                    Some(action) => str_eq(action.as_str(), "allow"),
                    None => true,
                },
                None => true,
            };
        }
        i += 1;
    }
    assert(rs@.take(rs@.len() as int) =~= rs@);
    allowed
}

/// The repository-relative path of a Maven coordinate
/// (`group:artifact:version[:classifier][@ext]`); `None` when it has fewer
/// than three parts or one of them is empty.
pub open spec fn maven_path_spec(coord: Seq<char>) -> Option<Seq<char>> {
    let (c, ext) = match split_once_spec(coord, '@') {
        Some(pair) => pair,
        None => (coord, "jar"@),
    };
    let parts = split_on(c, ':');
    if parts.len() < 3 || parts[0].len() == 0 || parts[1].len() == 0 || parts[2].len() == 0 {
        None
    } else {
        let group = replace_char(parts[0], '.', '/');
        let classifier = if parts.len() > 3 {
            "-"@ + parts[3]
        } else {
            Seq::empty()
        };
        Some(
            group + "/"@ + parts[1] + "/"@ + parts[2] + "/"@ + parts[1] + "-"@ + parts[2] + classifier
                + "."@ + ext,
        )
    }
}

/// The repository-relative path of a Maven coordinate.
pub fn maven_path(coord: &str) -> (r: Option<String>)
    ensures
        r matches Some(p) ==> maven_path_spec(coord@) == Some(p@),
        r is None ==> maven_path_spec(coord@) is None,
{
    proof {
        reveal_strlit("jar");
    }
    let cs = chars_of(coord);
    let (c, ext) = match split_once(&cs, '@') {
        Some(pair) => pair,
        None => {
            let mut jar: Vec<char> = Vec::new();
            push_str(&mut jar, "jar");
            (chars_of(coord), jar)
        },
    };
    let parts = split_char(&c, ':');
    proof {
        lemma_split_nonempty(c@, ':');
    }
    let ghost ps = split_on(c@, ':');
    assert(parts@.len() == ps.len());
    if parts.len() < 3 {
        return None;
    }
    assert(parts@[0]@ == ps[0] && parts@[1]@ == ps[1] && parts@[2]@ == ps[2]);
    if parts[0].len() == 0 || parts[1].len() == 0 || parts[2].len() == 0 {
        return None;
    }
    let group = replace_char_exec(&parts[0], '.', '/');
    let mut out = group;
    push_str(&mut out, "/");
    push_all(&mut out, &parts[1]);
    push_str(&mut out, "/");
    push_all(&mut out, &parts[2]);
    push_str(&mut out, "/");
    push_all(&mut out, &parts[1]);
    push_str(&mut out, "-");
    push_all(&mut out, &parts[2]);
    if parts.len() > 3 {
        assert(parts@[3]@ == ps[3]);
        push_str(&mut out, "-");
        push_all(&mut out, &parts[3]);
    }
    push_str(&mut out, ".");
    push_all(&mut out, &ext);
    proof {
        let group = replace_char(ps[0], '.', '/');
        let classifier = if ps.len() > 3 {
            "-"@ + ps[3]
        } else {
            Seq::<char>::empty()
        };
        assert(out@ =~= group + "/"@ + ps[1] + "/"@ + ps[2] + "/"@ + ps[1] + "-"@ + ps[2]
            + classifier + "."@ + ext@);
    }
    Some(string_of(&out))
}

/// The file name at the end of a path or URL.
pub fn filename_of(path: &str) -> (r: String)
    ensures
        r@ == after_last(path@, '/'),
{
    after_last_exec(path, '/')
}

/// Whether `c` is the SHA-1 checksum a non-empty `sha1` text names, or
/// absent for an empty one.
pub open spec fn sha1_checksum(c: Option<Checksum>, sha1: Seq<char>) -> bool {
    if sha1.len() == 0 {
        c is None
    } else {
        c matches Some(k) && k.algorithm == HashAlgorithm::Sha1 && k.hex@ == sha1
    }
}

/// The SHA-1 checksum a text names, absent when it is empty.
pub fn sha1_of(sha1: String) -> (r: Option<Checksum>)
    ensures
        sha1_checksum(r, sha1@),
{
    if sha1.as_str().is_empty() {
        None
    } else {
        Some(Checksum { algorithm: HashAlgorithm::Sha1, hex: sha1 })
    }
}

/// Whether a download object names a non-empty url.
pub open spec fn has_url(obj: Json) -> bool {
    match str_opt(get_spec(obj, "url"@)) {
        Some(u) => u.len() > 0,
        None => false,
    }
}

/// Whether `a` is the artifact a download object describes: its url, the
/// url's last segment as file name, its size (0 when absent) and its SHA-1.
pub open spec fn is_artifact_of(a: Artifact, obj: Json) -> bool {
    &&& a.url@ == text_in(Some(obj), "url"@)
    &&& a.filename@ == after_last(text_in(Some(obj), "url"@), '/')
    &&& a.size == u64_at(obj, "size"@, 0)
    &&& sha1_checksum(a.checksum, text_in(Some(obj), "sha1"@))
}

/// The artifact a download object describes, when it names a url.
pub fn artifact_from(obj: &Json) -> (r: Option<Artifact>)
    ensures
        !has_url(*obj) ==> r is None,
        has_url(*obj) ==> (r matches Some(a) && is_artifact_of(a, *obj)),
{
    let url = match obj.get("url") {
        Some(u) => match u.as_str() {
            Some(s) => s.clone(),
            None => return None,
        },
        None => return None,
    };
    if url.as_str().is_empty() {
        return None;
    }
    let filename = after_last_exec(url.as_str(), '/');
    let size = obj.u64_or("size", 0);
    let checksum = sha1_of(obj.text("sha1"));
    Some(Artifact { url, filename, size, checksum })
}

/// The optional view of an optional reference.
pub open spec fn opt(j: Option<&Json>) -> Option<Json> {
    match j {
        Some(v) => Some(*v),
        None => None,
    }
}

/// The array under `key` of an optional object, when there is one.
pub fn items_of<'a>(j: Option<&'a Json>, key: &str) -> (r: Option<&'a Vec<Json>>)
    ensures
        r matches Some(v) ==> crate::json::items_at(opt(j), key@) == v@,
        r is None ==> crate::json::items_at(opt(j), key@) == Seq::<Json>::empty(),
{
    match j {
        None => None,
        Some(o) => match o.get(key) {
            None => None,
            Some(v) => v.as_array(),
        },
    }
}

/// The download object under `downloads.<key>` of a version.
pub open spec fn download_obj(version: Json, key: Seq<char>) -> Option<Json> {
    get_opt(get_spec(version, "downloads"@), key)
}

/// The download under `downloads.<key>` of a version, when it names a url.
fn download_artifact(version: &Json, key: &str) -> (r: Option<Artifact>)
    ensures
        match download_obj(*version, key@) {
            Some(o) => if has_url(o) {
                r matches Some(a) && is_artifact_of(a, o)
            } else {
                r is None
            },
            None => r is None,
        },
{
    match version.get("downloads") {
        None => None,
        Some(d) => match d.get(key) {
            None => None,
            Some(o) => artifact_from(o),
        },
    }
}

/// Whether a version has a usable download under `downloads.<key>`.
pub open spec fn has_download(version: Json, key: Seq<char>) -> bool {
    match download_obj(version, key) {
        Some(o) => has_url(o),
        None => false,
    }
}

/// The client jar of a version.
pub fn client_artifact(version: &Json) -> (r: Result<Artifact, MetaError>)
    ensures
        !has_download(*version, "client"@) ==> r == Err::<Artifact, MetaError>(MetaError::NoClientDownload),
        has_download(*version, "client"@) ==> (r matches Ok(a) && is_artifact_of(
            a,
            download_obj(*version, "client"@)->0,
        )),
{
    match download_artifact(version, "client") {
        Some(a) => Ok(a),
        None => Err(MetaError::NoClientDownload),
    }
}

/// The server jar of a version.
pub fn server_artifact(version: &Json) -> (r: Result<Artifact, MetaError>)
    ensures
        !has_download(*version, "server"@) ==> r == Err::<Artifact, MetaError>(MetaError::NoServerDownload),
        has_download(*version, "server"@) ==> (r matches Ok(a) && is_artifact_of(
            a,
            download_obj(*version, "server"@)->0,
        )),
{
    match download_artifact(version, "server") {
        Some(a) => Ok(a),
        None => Err(MetaError::NoServerDownload),
    }
}

/// The Java major a version asks for (`javaVersion.majorVersion`, cut to
/// 32 bits), 8 when it names none.
pub open spec fn java_major_spec(version: Json) -> i32 {
    match get_opt(get_spec(version, "javaVersion"@), "majorVersion"@) {
        Some(v) => match i64_spec(v) {
            Some(n) => n as i32,
            None => 8,
        },
        None => 8,
    }
}

/// The Java major a version asks for.
pub fn java_major(version: &Json) -> (r: i32)
    ensures
        r == java_major_spec(*version),
{
    match version.get("javaVersion") {
        Some(j) => match j.get("majorVersion") {
            Some(v) => match v.as_i64() {
                Some(n) => n as i32,
                None => 8,
            },
            None => 8,
        },
        None => 8,
    }
}

/// The main class a version launches, empty when it names none.
pub fn main_class(version: &Json) -> (r: String)
    ensures
        r@ == text_in(Some(*version), "mainClass"@),
{
    version.text("mainClass")
}

/// The asset index a version reads: its id, total size and download.
pub fn asset_index(version: &Json) -> (r: Result<AssetIndex, MetaError>)
    ensures
        get_spec(*version, "assetIndex"@) is None ==> r == Err::<AssetIndex, MetaError>(MetaError::NoAssetIndex),
        get_spec(*version, "assetIndex"@) matches Some(index) ==> if has_url(index) {
            r matches Ok(a) && a.id@ == text_in(Some(index), "id"@) && a.total_size == u64_at(
                index,
                "totalSize"@,
                0,
            ) && is_artifact_of(a.artifact, index)
        } else {
            r == Err::<AssetIndex, MetaError>(MetaError::AssetIndexWithoutUrl)
        },
{
    let index = match version.get("assetIndex") {
        Some(i) => i,
        None => return Err(MetaError::NoAssetIndex),
    };
    let artifact = match artifact_from(index) {
        Some(a) => a,
        None => return Err(MetaError::AssetIndexWithoutUrl),
    };
    Ok(AssetIndex { id: index.text("id"), total_size: index.u64_or("totalSize", 0), artifact })
}

/// The libraries a version document lists.
pub open spec fn version_libs(version: Json) -> Seq<Json> {
    crate::json::items_at(Some(version), "libraries"@)
}

/// Whether a library entry's rules (if any) allow the host.
pub open spec fn lib_allowed(lib: Json, os: Seq<char>) -> bool {
    match get_spec(lib, "rules"@) {
        Some(r) => rules_allow_spec(r, os),
        None => true,
    }
}

/// The artifact object of a library entry.
pub open spec fn artifact_obj(lib: Json) -> Option<Json> {
    get_opt(get_spec(lib, "downloads"@), "artifact"@)
}

/// Whether a library entry is on the classpath for the host: allowed, with
/// an artifact download that names a url.
pub open spec fn library_kept(lib: Json, os: Seq<char>) -> bool {
    lib_allowed(lib, os) && match artifact_obj(lib) {
        Some(o) => has_url(o),
        None => false,
    }
}

/// Whether `l` is the classpath library an entry describes.
pub open spec fn is_library_of(l: Library, lib: Json) -> bool {
    let o = artifact_obj(lib)->0;
    &&& l.name@ == text_in(Some(lib), "name"@)
    &&& l.path@ == text_in(Some(o), "path"@)
    &&& is_artifact_of(l.artifact, o)
}

/// The classpath libraries of a version for the host, in order. A legacy
/// library's native classifier is not one of them.
pub fn libraries(version: &Json, os: &str) -> (r: Vec<Library>)
    ensures
        ({
            let kept = crate::json::keep(version_libs(*version), |lib: Json| library_kept(lib, os@));
            r@.len() == kept.len() && forall|i: int| 0 <= i < kept.len() ==> is_library_of(#[trigger] r@[i], kept[i])
        }),
{
    let ghost pred = |lib: Json| library_kept(lib, os@);
    let mut out: Vec<Library> = Vec::new();
    let libs = match items_of(Some(version), "libraries") {
        Some(l) => l,
        None => return out,
    };
    let mut i: usize = 0;
    while i < libs.len()
        invariant
            i <= libs@.len(),
            pred == (|lib: Json| library_kept(lib, os@)),
            ({
                let kept = crate::json::keep(libs@.take(i as int), pred);
                out@.len() == kept.len() && forall|k: int| 0 <= k < kept.len() ==> is_library_of(#[trigger] out@[k], kept[k])
            }),
        decreases libs.len() - i,
    {
        let lib = &libs[i];
        assert(libs@.take(i + 1).drop_last() =~= libs@.take(i as int));
        let allowed = match lib.get("rules") {
            Some(rules) => rules_allow(rules, os),
            None => true,
        };
        if allowed {
            let artifact_obj = match lib.get("downloads") {
                Some(d) => d.get("artifact"),
                None => None,
            };
            if let Some(o) = artifact_obj {
                if let Some(artifact) = artifact_from(o) {
                    let ghost before = out@;
                    out.push(Library { name: lib.text("name"), path: o.text("path"), artifact });
                    assert(pred(libs@[i as int]));
                    assert(forall|k: int| 0 <= k < before.len() ==> out@[k] == before[k]);
                }
            }
        }
        i += 1;
    }
    assert(libs@.take(libs@.len() as int) =~= libs@);
    out
}

/// The classifier a library's `natives` block names for the host, with the
/// `${arch}` placeholder resolved to the pointer width.
pub open spec fn classifier_of(lib: Json, os: Seq<char>, pointer_64: bool) -> Option<Seq<char>> {
    match str_opt(get_opt(get_spec(lib, "natives"@), os)) {
        Some(c) => Some(replace_all(c, "${arch}"@, if pointer_64 { "64"@ } else { "32"@ })),
        None => None,
    }
}

/// The download a native classifier names.
pub open spec fn classifier_download(lib: Json, classifier: Seq<char>) -> Option<Json> {
    get_opt(get_opt(get_spec(lib, "downloads"@), "classifiers"@), classifier)
}

/// Whether a library entry yields a native jar for the host.
pub open spec fn native_kept(lib: Json, os: Seq<char>, pointer_64: bool) -> bool {
    &&& lib_allowed(lib, os)
    &&& classifier_of(lib, os, pointer_64) is Some
    &&& match classifier_download(lib, classifier_of(lib, os, pointer_64)->0) {
        Some(d) => has_url(d),
        None => false,
    }
}

/// The entry prefixes a native jar is unpacked without.
pub open spec fn exclusions(lib: Json) -> Seq<Seq<char>> {
    strings(crate::json::items_at(get_spec(lib, "extract"@), "exclude"@))
}

/// Whether `n` is the native jar an entry describes for the host.
pub open spec fn is_native_of(n: Native, lib: Json, os: Seq<char>, pointer_64: bool) -> bool {
    let c = classifier_of(lib, os, pointer_64)->0;
    let d = classifier_download(lib, c)->0;
    &&& n.library.name@ == text_in(Some(lib), "name"@) + ":"@ + c
    &&& n.library.path@ == text_in(Some(d), "path"@)
    &&& is_artifact_of(n.library.artifact, d)
    &&& n.exclude.deep_view() == exclusions(lib)
}

/// The classifier a library's `natives` block names for the host.
fn native_classifier(lib: &Json, os: &str, pointer_64: bool) -> (r: Option<String>)
    ensures
        r matches Some(c) ==> classifier_of(*lib, os@, pointer_64) == Some(c@),
        r is None ==> classifier_of(*lib, os@, pointer_64) is None,
{
    let name = match lib.get("natives") {
        Some(n) => match n.get(os) {
            Some(c) => match c.as_str() {
                Some(s) => s,
                None => return None,
            },
            None => return None,
        },
        None => return None,
    };
    let cs = chars_of(name.as_str());
    let pat = chars_of("${arch}");
    let width = chars_of(if pointer_64 { "64" } else { "32" });
    proof {
        reveal_strlit("${arch}");
    }
    let out = replace_all_exec(&cs, &pat, &width);
    Some(string_of(&out))
}

/// The native jars of a version for the host (`os` in Mojang's vocabulary,
/// `pointer_64` the JVM's pointer width), in order. Empty for versions whose
/// manifests carry no `natives` blocks.
pub fn natives(version: &Json, os: &str, pointer_64: bool) -> (r: Vec<Native>)
    ensures
        ({
            let kept = crate::json::keep(version_libs(*version), |lib: Json| native_kept(lib, os@, pointer_64));
            r@.len() == kept.len() && forall|i: int|
                0 <= i < kept.len() ==> is_native_of(#[trigger] r@[i], kept[i], os@, pointer_64)
        }),
{
    let ghost pred = |lib: Json| native_kept(lib, os@, pointer_64);
    let mut out: Vec<Native> = Vec::new();
    let libs = match items_of(Some(version), "libraries") {
        Some(l) => l,
        None => return out,
    };
    let mut i: usize = 0;
    while i < libs.len()
        invariant
            i <= libs@.len(),
            pred == (|lib: Json| native_kept(lib, os@, pointer_64)),
            ({
                let kept = crate::json::keep(libs@.take(i as int), pred);
                out@.len() == kept.len() && forall|k: int|
                    0 <= k < kept.len() ==> is_native_of(#[trigger] out@[k], kept[k], os@, pointer_64)
            }),
        decreases libs.len() - i,
    {
        let lib = &libs[i];
        assert(libs@.take(i + 1).drop_last() =~= libs@.take(i as int));
        let allowed = match lib.get("rules") {
            Some(rules) => rules_allow(rules, os),
            None => true,
        };
        if allowed {
            if let Some(classifier) = native_classifier(lib, os, pointer_64) {
                let download = match lib.get("downloads") {
                    Some(d) => match d.get("classifiers") {
                        Some(c) => c.get(classifier.as_str()),
                        None => None,
                    },
                    None => None,
                };
                if let Some(d) = download {
                    if let Some(artifact) = artifact_from(d) {
                        let mut name = chars_of(lib.text("name").as_str());
                        push_str(&mut name, ":");
                        push_str(&mut name, classifier.as_str());
                        let exclude = match items_of(lib.get("extract"), "exclude") {
                            Some(items) => strings_of(items),
                            None => Vec::new(),
                        };
                        assert(exclude.deep_view() =~= exclusions(*lib));
                        let ghost before = out@;
                        out.push(
                            Native {
                                library: Library { name: string_of(&name), path: d.text("path"), artifact },
                                exclude,
                            },
                        );
                        assert(pred(libs@[i as int]));
                        assert(forall|k: int| 0 <= k < before.len() ==> out@[k] == before[k]);
                    }
                }
            }
        }
        i += 1;
    }
    assert(libs@.take(libs@.len() as int) =~= libs@);
    out
}

/// The arguments one entry of an `arguments.<key>` array contributes: a
/// plain string itself; an object, when its rules allow the host, its string
/// value or the strings of its array value.
pub open spec fn arg_values(entry: Json, os: Seq<char>) -> Seq<Seq<char>> {
    match entry {
        Json::Str(s) => seq![s@],
        Json::Object(_) => if !lib_allowed(entry, os) {
            Seq::empty()
        } else {
            match get_spec(entry, "value"@) {
                Some(Json::Str(s)) => seq![s@],
                Some(Json::Array(vals)) => strings(vals@),
                _ => Seq::empty(),
            }
        },
        _ => Seq::empty(),
    }
}

/// The arguments a list of entries contributes, in order.
pub open spec fn args_from(entries: Seq<Json>, os: Seq<char>) -> Seq<Seq<char>>
    decreases entries.len(),
{
    if entries.len() == 0 {
        Seq::empty()
    } else {
        args_from(entries.drop_last(), os) + arg_values(entries.last(), os)
    }
}

/// The rule-filtered arguments of `arguments.<key>` in a version.
pub open spec fn collect_args_spec(version: Json, key: Seq<char>, os: Seq<char>) -> Seq<Seq<char>> {
    args_from(crate::json::items_at(get_spec(version, "arguments"@), key), os)
}

/// Append the strings of `vals` to `out`.
fn push_strings(out: &mut Vec<String>, vals: &Vec<Json>)
    ensures
        final(out).deep_view() == old(out).deep_view() + strings(vals@),
{
    let more = strings_of(vals);
    let mut i: usize = 0;
    let ghost start = out.deep_view();
    while i < more.len()
        invariant
            i <= more@.len(),
            more.deep_view() == strings(vals@),
            out.deep_view() == start + more.deep_view().take(i as int),
        decreases more.len() - i,
    {
        let ghost before = out.deep_view();
        let item = more[i].clone();
        assert(item@ == more.deep_view()[i as int]);
        out.push(item);
        assert(out.deep_view() =~= before.push(item@));
        assert(more.deep_view().take(i + 1) =~= more.deep_view().take(i as int).push(item@));
        assert(out.deep_view() =~= start + more.deep_view().take(i + 1));
        i += 1;
    }
    assert(more.deep_view().take(more.deep_view().len() as int) =~= more.deep_view());
}

/// The rule-filtered arguments of `arguments.<key>` in a version.
pub fn collect_args(version: &Json, key: &str, os: &str) -> (r: Vec<String>)
    ensures
        r.deep_view() == collect_args_spec(*version, key@, os@),
{
    let mut out: Vec<String> = Vec::new();
    let entries = match items_of(version.get("arguments"), key) {
        Some(e) => e,
        None => return out,
    };
    let mut i: usize = 0;
    while i < entries.len()
        invariant
            i <= entries@.len(),
            out.deep_view() == args_from(entries@.take(i as int), os@),
        decreases entries.len() - i,
    {
        let entry = &entries[i];
        assert(entries@.take(i + 1).drop_last() =~= entries@.take(i as int));
        let ghost before = out.deep_view();
        match entry {
            Json::Str(s) => {
                out.push(s.clone());
                assert(out.deep_view() =~= before + seq![s@]);
            },
            Json::Object(_) => {
                let allowed = match entry.get("rules") {
                    Some(rules) => rules_allow(rules, os),
                    None => true,
                };
                if allowed {
                    match entry.get("value") {
                        Some(Json::Str(s)) => {
                            out.push(s.clone());
                            assert(out.deep_view() =~= before + seq![s@]);
                        },
                        Some(Json::Array(vals)) => {
                            push_strings(&mut out, vals);
                        },
                        _ => {
                            assert(before + Seq::<Seq<char>>::empty() =~= before);
                        },
                    }
                } else {
                    assert(before + Seq::<Seq<char>>::empty() =~= before);
                }
            },
            _ => {
                assert(before + Seq::<Seq<char>>::empty() =~= before);
            },
        }
        i += 1;
    }
    assert(entries@.take(entries@.len() as int) =~= entries@);
    out
}

/// The JVM arguments of a version for the host.
pub fn jvm_args(version: &Json, os: &str) -> (r: Vec<String>)
    ensures
        r.deep_view() == collect_args_spec(*version, "jvm"@, os@),
{
    collect_args(version, "jvm", os)
}

/// The game arguments of a version: the modern `arguments.game` list when
/// it yields any, else the legacy `minecraftArguments` split on whitespace.
pub open spec fn game_args_spec(version: Json, os: Seq<char>) -> Seq<Seq<char>> {
    let modern = collect_args_spec(version, "game"@, os);
    if modern.len() > 0 {
        modern
    } else {
        match str_opt(get_spec(version, "minecraftArguments"@)) {
            Some(t) => words(t),
            None => Seq::empty(),
        }
    }
}

/// The game arguments of a version for the host.
pub fn game_args(version: &Json, os: &str) -> (r: Vec<String>)
    ensures
        r.deep_view() == game_args_spec(*version, os@),
{
    let modern = collect_args(version, "game", os);
    if modern.len() > 0 {
        return modern;
    }
    match version.get("minecraftArguments") {
        Some(v) => match v.as_str() {
            Some(t) => split_words(t.as_str()),
            None => Vec::new(),
        },
        None => Vec::new(),
    }
}

/// What kind of version a manifest entry is.
#[derive(Debug, Clone, Copy, PartialEq, Eq, Structural)]
pub enum VersionKind {
    Release,
    Snapshot,
    OldBeta,
    OldAlpha,
}

/// The kind a manifest `type` names; anything unknown is a snapshot.
pub open spec fn kind_of(t: Seq<char>) -> VersionKind {
    if t == "release"@ {
        VersionKind::Release
    } else if t == "old_beta"@ {
        VersionKind::OldBeta
    } else if t == "old_alpha"@ {
        VersionKind::OldAlpha
    } else {
        VersionKind::Snapshot
    }
}

/// One version of the manifest: its id, kind and detail URL.
#[derive(Debug, Clone)]
pub struct VersionEntry {
    pub id: String,
    pub kind: VersionKind,
    pub url: String,
}

/// Whether a manifest entry names both its id and its URL.
pub open spec fn entry_usable(v: Json) -> bool {
    text_in(Some(v), "id"@).len() > 0 && text_in(Some(v), "url"@).len() > 0
}

/// Whether `e` is the version entry a manifest item describes.
pub open spec fn is_entry_of(e: VersionEntry, v: Json) -> bool {
    &&& e.id@ == text_in(Some(v), "id"@)
    &&& e.url@ == text_in(Some(v), "url"@)
    &&& e.kind == kind_of(text_in(Some(v), "type"@))
}

/// The versions Mojang's manifest lists, in its order, skipping entries
/// without an id or URL.
pub fn manifest_entries(j: &Json) -> (r: Result<Vec<VersionEntry>, MetaError>)
    ensures
        !(get_spec(*j, "versions"@) matches Some(Json::Array(_))) ==> r == Err::<
            Vec<VersionEntry>,
            MetaError,
        >(MetaError::NoVersions),
        get_spec(*j, "versions"@) matches Some(Json::Array(vs)) ==> (r matches Ok(out) && {
            let kept = crate::json::keep(vs@, |v: Json| entry_usable(v));
            out@.len() == kept.len() && forall|i: int| 0 <= i < kept.len() ==> is_entry_of(#[trigger] out@[i], kept[i])
        }),
{
    proof {
        reveal_strlit("release");
        reveal_strlit("old_beta");
        reveal_strlit("old_alpha");
    }
    let versions = match j.get("versions") {
        Some(Json::Array(vs)) => vs,
        _ => return Err(MetaError::NoVersions),
    };
    let ghost pred = |v: Json| entry_usable(v);
    let mut out: Vec<VersionEntry> = Vec::new();
    let mut i: usize = 0;
    while i < versions.len()
        invariant
            i <= versions@.len(),
            pred == (|v: Json| entry_usable(v)),
            ({
                let kept = crate::json::keep(versions@.take(i as int), pred);
                out@.len() == kept.len() && forall|k: int| 0 <= k < kept.len() ==> is_entry_of(#[trigger] out@[k], kept[k])
            }),
        decreases versions.len() - i,
    {
        let v = &versions[i];
        assert(versions@.take(i + 1).drop_last() =~= versions@.take(i as int));
        let id = v.text("id");
        let url = v.text("url");
        if !id.as_str().is_empty() && !url.as_str().is_empty() {
            let t = v.text("type");
            let kind = if str_eq(t.as_str(), "release") {
                VersionKind::Release
            } else if str_eq(t.as_str(), "old_beta") {
                VersionKind::OldBeta
            } else if str_eq(t.as_str(), "old_alpha") {
                VersionKind::OldAlpha
            } else {
                VersionKind::Snapshot
            };
            let ghost before = out@;
            out.push(VersionEntry { id, kind, url });
            assert(pred(versions@[i as int]));
            assert(forall|k: int| 0 <= k < before.len() ==> out@[k] == before[k]);
        }
        i += 1;
    }
    assert(versions@.take(versions@.len() as int) =~= versions@);
    Ok(out)
}

/// A game version as the catalogue shows it: stable exactly for releases.
#[derive(Debug, Clone)]
pub struct GameVersion {
    pub id: String,
    pub kind: VersionKind,
    pub stable: bool,
}

/// The game versions of a manifest, in its order.
pub fn game_versions(entries: &Vec<VersionEntry>) -> (r: Vec<GameVersion>)
    ensures
        r@.len() == entries@.len(),
        forall|i: int|
            0 <= i < entries@.len() ==> (#[trigger] r@[i]).id@ == entries@[i].id@ && r@[i].kind
                == entries@[i].kind && r@[i].stable == (entries@[i].kind == VersionKind::Release),
{
    let mut out: Vec<GameVersion> = Vec::new();
    let mut i: usize = 0;
    while i < entries.len()
        invariant
            i <= entries@.len(),
            out@.len() == i,
            forall|k: int|
                0 <= k < i ==> (#[trigger] out@[k]).id@ == entries@[k].id@ && out@[k].kind
                    == entries@[k].kind && out@[k].stable == (entries@[k].kind == VersionKind::Release),
        decreases entries.len() - i,
    {
        let e = &entries[i];
        out.push(GameVersion { id: e.id.clone(), kind: e.kind, stable: e.kind == VersionKind::Release });
        i += 1;
    }
    out
}

/// The manifest entry of version `id`: the first with that id.
pub fn find_version(entries: &Vec<VersionEntry>, id: &str) -> (r: Result<usize, MetaError>)
    ensures
        r matches Ok(i) ==> i < entries@.len() && entries@[i as int].id@ == id@ && forall|k: int|
            0 <= k < i ==> entries@[k].id@ != id@,
        r is Err ==> (r matches Err(MetaError::VersionNotFound(x)) && x@ == id@) && forall|k: int|
            0 <= k < entries@.len() ==> entries@[k].id@ != id@,
{
    let mut i: usize = 0;
    while i < entries.len()
        invariant
            i <= entries@.len(),
            forall|k: int| 0 <= k < i ==> entries@[k].id@ != id@,
        decreases entries.len() - i,
    {
        if str_eq(entries[i].id.as_str(), id) {
            return Ok(i);
        }
        i += 1;
    }
    Err(MetaError::VersionNotFound(String::from_str(id)))
}

} // verus!
