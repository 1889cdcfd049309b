//! Java runtimes: Adoptium's platform vocabulary, reading its catalogue,
//! where an install's pieces live, and the `runtime.json` record each install
//! keeps beside it. Fetching, extracting and the disk scan are the caller's.

use vstd::prelude::*;

use vstd::string::StringExecFns;

use crate::json::{array_spec, get_opt, get_spec, i64_spec, text_in, text_of, Json};
use crate::launch::{join_str, parent_of, parent_path, path_join};
use crate::order::{stable_order, stable_sort_order};
use crate::profile::{Checksum, HashAlgorithm};
use crate::text::{chars_of, ends_with, ends_with_str, has_char, push_str, str_eq, string_of};

verus! {

/// The record each install keeps beside its runtime.
pub const RUNTIME_RECORD: &'static str = "runtime.json";

/// An install extracts under its directory name with this suffix and is
/// renamed into place, so a runtime is only ever registered whole.
pub const STAGING_SUFFIX: &'static str = ".staging";

/// Where downloaded archives land before extraction.
pub const SCRATCH: &'static str = "tmp";

/// What can go wrong choosing, reading or placing a runtime.
#[derive(Debug, Clone, PartialEq, Eq)]
pub enum JavaError {
    /// No Java builds are published for the host's CPU architecture.
    UnsupportedArch,
    /// A Java major version must be positive.
    InvalidMajor,
    /// The catalogue named an archive that is not a plain file name.
    UnsafeArchiveName(String),
    /// The assets answer is not a JSON array.
    AssetsNotArray,
    /// The releases answer lacks its `available_releases` list.
    MissingReleases,
    /// The matching build lacks its link, file name or checksum.
    IncompleteBuild(i32),
    /// No build of the major is published for the platform.
    NoBuild { major: i32, os: String, arch: String },
    /// The downloaded archive is neither a zip nor a gzipped tarball; it
    /// carries the file name.
    UnsupportedArchive(String),
}

/// Adoptium's platform vocabulary: os and architecture.
#[derive(Debug, Clone)]
pub struct JavaTarget {
    pub os: String,
    pub arch: String,
}

/// Adoptium's name for an operating system, from Rust's `target_os` name.
pub open spec fn os_name(target_os: Seq<char>) -> Seq<char> {
    if target_os == "windows"@ {
        "windows"@
    } else if target_os == "macos"@ {
        "mac"@
    } else {
        "linux"@
    }
}

/// Adoptium's name for a CPU, from Rust's `target_arch` name; `None` where
/// nothing is published.
pub open spec fn arch_name(target_arch: Seq<char>) -> Option<Seq<char>> {
    if target_arch == "aarch64"@ {
        Some("aarch64"@)
    } else if target_arch == "x86_64"@ {
        Some("x64"@)
    } else {
        None
    }
}

/// The Adoptium platform of a host, given its `target_os` and `target_arch`.
pub fn host_target(target_os: &str, target_arch: &str) -> (r: Result<JavaTarget, JavaError>)
    ensures
        arch_name(target_arch@) is None ==> r == Err::<JavaTarget, JavaError>(JavaError::UnsupportedArch),
        arch_name(target_arch@) matches Some(a) ==> (r matches Ok(t) && t.os@ == os_name(target_os@)
            && t.arch@ == a),
{
    proof {
        reveal_strlit("windows");
        reveal_strlit("macos");
        reveal_strlit("mac");
        reveal_strlit("linux");
        reveal_strlit("aarch64");
        reveal_strlit("x86_64");
        reveal_strlit("x64");
    }
    let os = if str_eq(target_os, "windows") {
        "windows"
    } else if str_eq(target_os, "macos") {
        "mac"
    } else {
        "linux"
    };
    let arch = if str_eq(target_arch, "aarch64") {
        "aarch64"
    } else if str_eq(target_arch, "x86_64") {
        "x64"
    } else {
        return Err(JavaError::UnsupportedArch);
    };
    Ok(JavaTarget { os: String::from_str(os), arch: String::from_str(arch) })
}

/// The name of the java executable.
pub open spec fn java_exe_spec(windows: bool) -> Seq<char> {
    if windows {
        "java.exe"@
    } else {
        "java"@
    }
}

/// The name of the java executable.
pub fn java_exe(windows: bool) -> (r: &'static str)
    ensures
        r@ == java_exe_spec(windows),
{
    if windows {
        "java.exe"
    } else {
        "java"
    }
}

/// Where a runtime home may keep its executable, in the order they are
/// tried: `bin/`, then the macOS bundle's `Contents/Home/bin/`.
pub open spec fn java_candidates_spec(home: Seq<char>, windows: bool) -> Seq<Seq<char>> {
    seq![
        path_join(path_join(home, "bin"@), java_exe_spec(windows)),
        path_join(
            path_join(path_join(path_join(home, "Contents"@), "Home"@), "bin"@),
            java_exe_spec(windows),
        ),
    ]
}

/// Where a runtime home may keep its executable, in the order tried.
pub fn java_candidates(home: &str, windows: bool) -> (r: Vec<String>)
    ensures
        r.deep_view() == java_candidates_spec(home@, windows),
{
    let exe = java_exe(windows);
    let bin = join_str(home, "bin");
    let direct = join_str(bin.as_str(), exe);
    let contents = join_str(home, "Contents");
    let inner = join_str(contents.as_str(), "Home");
    let inner_bin = join_str(inner.as_str(), "bin");
    let bundle = join_str(inner_bin.as_str(), exe);
    let mut r: Vec<String> = Vec::new();
    r.push(direct);
    r.push(bundle);
    assert(r.deep_view() =~= java_candidates_spec(home@, windows));
    r
}

/// A build the catalogue offers: what to fetch and how to check it.
#[derive(Debug, Clone)]
pub struct JavaPackage {
    pub vendor: String,
    pub major: i32,
    pub release_name: String,
    pub url: String,
    pub archive_name: String,
    pub checksum: Checksum,
}

/// Whether a catalogue asset is the JDK build for `os`/`arch`.
pub open spec fn asset_matches(asset: Json, os: Seq<char>, arch: Seq<char>) -> bool {
    let binary = get_spec(asset, "binary"@);
    &&& text_in(binary, "os"@) == os
    &&& text_in(binary, "architecture"@) == arch
    &&& text_in(binary, "image_type"@) == "jdk"@
}

/// The first asset that is the JDK build for `os`/`arch`.
pub open spec fn first_matching(assets: Seq<Json>, os: Seq<char>, arch: Seq<char>) -> Option<int> {
    if exists|i: int| 0 <= i < assets.len() && asset_matches(#[trigger] assets[i], os, arch) {
        Some(
            choose|i: int|
                0 <= i < assets.len() && asset_matches(#[trigger] assets[i], os, arch) && forall|
                    j: int,
                | 0 <= j < i ==> !asset_matches(#[trigger] assets[j], os, arch),
        )
    } else {
        None
    }
}

/// The package an asset describes, as its fields' texts: vendor, release
/// name, link, archive name and SHA-256.
pub open spec fn package_texts(asset: Json) -> (Seq<char>, Seq<char>, Seq<char>, Seq<char>) {
    let package = get_opt(get_spec(asset, "binary"@), "package"@);
    (
        text_in(Some(asset), "release_name"@),
        text_in(package, "link"@),
        text_in(package, "name"@),
        text_in(package, "checksum"@),
    )
}

/// Whether `p` is the package `asset` describes for `major`.
pub open spec fn is_package_of(p: JavaPackage, asset: Json, major: i32) -> bool {
    let t = package_texts(asset);
    &&& p.vendor@ == "temurin"@
    &&& p.major == major
    &&& p.release_name@ == t.0
    &&& p.url@ == t.1
    &&& p.archive_name@ == t.2
    &&& p.checksum.algorithm == HashAlgorithm::Sha256
    &&& p.checksum.hex@ == t.3
}

/// Whether a described package can be fetched and checked.
pub open spec fn package_complete(p: JavaPackage) -> bool {
    p.url@.len() > 0 && p.archive_name@.len() > 0 && p.checksum.valid_spec()
}

/// The JDK build of `major` for `target` out of an Adoptium assets answer:
/// the first asset for the platform, which must carry its link, file name
/// and a full SHA-256.
pub fn package_from_json(assets: &Json, major: i32, target: &JavaTarget) -> (r: Result<JavaPackage, JavaError>)
    ensures
        array_spec(*assets) is None ==> r == Err::<JavaPackage, JavaError>(JavaError::AssetsNotArray),
        array_spec(*assets) matches Some(items) ==> match first_matching(items, target.os@, target.arch@) {
            None => r matches Err(JavaError::NoBuild { major: m, os, arch }) && m == major && os@
                == target.os@ && arch@ == target.arch@,
            Some(i) => match r {
                Ok(p) => is_package_of(p, items[i], major) && package_complete(p),
                Err(e) => e == JavaError::IncompleteBuild(major) && exists|p: JavaPackage|
                    is_package_of(p, items[i], major) && !package_complete(p),
            },
        },
{
    proof {
        reveal_strlit("temurin");
    }
    let items = match assets.as_array() {
        Some(items) => items,
        None => return Err(JavaError::AssetsNotArray),
    };
    let mut i: usize = 0;
    while i < items.len()
        invariant
            array_spec(*assets) == Some(items@),
            i <= items@.len(),
            forall|j: int| 0 <= j < i ==> !asset_matches(#[trigger] items@[j], target.os@, target.arch@),
        decreases items.len() - i,
    {
        let asset = &items[i];
        let binary = asset.get("binary");
        let os = text_of(binary, "os");
        let arch = text_of(binary, "architecture");
        let image = text_of(binary, "image_type");
        proof {
            reveal_strlit("jdk");
        }
        if os == target.os && arch == target.arch && str_eq(image.as_str(), "jdk") {
            assert(asset_matches(items@[i as int], target.os@, target.arch@));
            let package = match binary {
                Some(b) => b.get("package"),
                None => None,
            };
            let resolved = JavaPackage {
                vendor: String::from_str("temurin"),
                major,
                release_name: text_of(Some(asset), "release_name"),
                url: text_of(package, "link"),
                archive_name: text_of(package, "name"),
                checksum: Checksum { algorithm: HashAlgorithm::Sha256, hex: text_of(package, "checksum") },
            };
            assert(first_matching(items@, target.os@, target.arch@) == Some(i as int));
            assert(is_package_of(resolved, items@[i as int], major));
            if resolved.url.as_str().is_empty() || resolved.archive_name.as_str().is_empty() || !resolved.checksum.is_valid() {
                assert(!package_complete(resolved));
                return Err(JavaError::IncompleteBuild(major));
            }
            return Ok(resolved);
        }
        i += 1;
    }
    Err(JavaError::NoBuild { major, os: target.os.clone(), arch: target.arch.clone() })
}

/// A Java line the catalogue offers, and whether it is long-term support.
#[derive(Debug, Clone, Copy, PartialEq, Eq, Structural)]
pub struct JavaRelease {
    pub major: i32,
    pub lts: bool,
}

/// The integers among a list of JSON values, in order.
pub open spec fn integers(items: Seq<Json>) -> Seq<i64>
    decreases items.len(),
{
    if items.len() == 0 {
        Seq::empty()
    } else {
        let rest = integers(items.drop_last());
        match i64_spec(items.last()) {
            Some(n) => rest.push(n),
            None => rest,
        }
    }
}

/// The releases an `available_releases` answer lists, before ordering: each
/// integer major, marked long-term when the LTS list holds it too.
pub open spec fn listed_releases(available: Seq<Json>, lts: Seq<Json>) -> Seq<JavaRelease> {
    integers(available).map_values(|m: i64| JavaRelease { major: m as i32, lts: integers(lts).contains(m) })
}

/// The majors of a list of releases, as sort keys.
pub open spec fn major_keys(s: Seq<JavaRelease>) -> Seq<i64> {
    s.map_values(|x: JavaRelease| x.major as i64)
}

/// `out` is `s` ordered by major, releases of one major in their order in `s`.
pub open spec fn is_stable_sort_by_major(s: Seq<JavaRelease>, out: Seq<JavaRelease>) -> bool {
    exists|order: Seq<usize>|
        #[trigger] stable_order(major_keys(s), order) && out == order.map_values(|k: usize| s[k as int])
}

/// The integers of `items`, in order.
pub fn integers_of(items: &Vec<Json>) -> (r: Vec<i64>)
    ensures
        r@ == integers(items@),
{
    let mut r: Vec<i64> = Vec::new();
    let mut i: usize = 0;
    while i < items.len()
        invariant
            i <= items@.len(),
            r@ == integers(items@.take(i as int)),
        decreases items.len() - i,
    {
        assert(items@.take(i + 1).drop_last() =~= items@.take(i as int));
        match items[i].as_i64() {
            Some(n) => r.push(n),
            None => {},
        }
        i += 1;
    }
    assert(items@.take(items@.len() as int) =~= items@);
    r
}

/// Whether `n` is among `values`.
fn holds(values: &Vec<i64>, n: i64) -> (r: bool)
    ensures
        r == values@.contains(n),
{
    let mut i: usize = 0;
    while i < values.len()
        invariant
            i <= values@.len(),
            forall|j: int| 0 <= j < i ==> values@[j] != n,
        decreases values.len() - i,
    {
        if values[i] == n {
            return true;
        }
        i += 1;
    }
    false
}

/// The Java lines an Adoptium `available_releases` answer offers, ordered by
/// major (stably), each marked long-term when `available_lts_releases` lists
/// it; an absent LTS list marks none.
pub fn releases_from_json(j: &Json) -> (r: Result<Vec<JavaRelease>, JavaError>)
    ensures
        array_spec(match get_spec(*j, "available_releases"@) {
            Some(v) => v,
            None => Json::Null,
        }) is None ==> r == Err::<Vec<JavaRelease>, JavaError>(JavaError::MissingReleases),
        array_spec(match get_spec(*j, "available_releases"@) {
            Some(v) => v,
            None => Json::Null,
        }) matches Some(available) ==> r matches Ok(out) && {
            let listed = listed_releases(
                available,
                match array_spec(match get_spec(*j, "available_lts_releases"@) {
                    Some(v) => v,
                    None => Json::Null,
                }) {
                    Some(l) => l,
                    None => Seq::empty(),
                },
            );
            is_stable_sort_by_major(listed, out@)
        },
{
    let available = match j.get("available_releases") {
        Some(v) => match v.as_array() {
            Some(a) => a,
            None => return Err(JavaError::MissingReleases),
        },
        None => return Err(JavaError::MissingReleases),
    };
    let empty: Vec<Json> = Vec::new();
    let lts_items = match j.get("available_lts_releases") {
        Some(v) => match v.as_array() {
            Some(a) => a,
            None => &empty,
        },
        None => &empty,
    };
    let majors = integers_of(available);
    let lts = integers_of(lts_items);
    let ghost listed = listed_releases(available@, lts_items@);
    let mut releases: Vec<JavaRelease> = Vec::new();
    let mut keys: Vec<i64> = Vec::new();
    let mut i: usize = 0;
    while i < majors.len()
        invariant
            majors@ == integers(available@),
            lts@ == integers(lts_items@),
            listed == listed_releases(available@, lts_items@),
            i <= majors@.len(),
            releases@ == listed.take(i as int),
            keys@ == major_keys(listed.take(i as int)),
        decreases majors.len() - i,
    {
        let m = majors[i];
        let release = JavaRelease { major: m as i32, lts: holds(&lts, m) };
        releases.push(release);
        keys.push(release.major as i64);
        assert(releases@ =~= listed.take(i + 1));
        assert(keys@ =~= major_keys(listed.take(i + 1)));
        i += 1;
    }
    assert(listed.take(listed.len() as int) =~= listed);
    let order = stable_sort_order(&keys);
    let mut out: Vec<JavaRelease> = Vec::new();
    let mut k: usize = 0;
    while k < order.len()
        invariant
            stable_order(keys@, order@),
            releases@ == listed,
            keys@ == major_keys(listed),
            k <= order@.len(),
            out@ == order@.take(k as int).map_values(|x: usize| listed[x as int]),
        decreases order.len() - k,
    {
        let x = order[k];
        out.push(releases[x]);
        assert(out@ =~= order@.take(k + 1).map_values(|x: usize| listed[x as int]));
        k += 1;
    }
    assert(order@.take(order@.len() as int) =~= order@);
    assert(stable_order(major_keys(listed), order@));
    Ok(out)
}

/// Whether a catalogue archive name is a plain file name: non-empty, not
/// hidden, and free of path separators and quotes.
pub open spec fn safe_archive_name(name: Seq<char>) -> bool {
    &&& name.len() > 0
    &&& name[0] != '.'
    &&& !name.contains('/')
    &&& !name.contains('\\')
    &&& !name.contains('"')
}

/// Refuse an archive name that could escape the scratch directory.
pub fn validate_archive_name(name: &str) -> (r: Result<(), JavaError>)
    ensures
        safe_archive_name(name@) ==> r is Ok,
        !safe_archive_name(name@) ==> (r matches Err(JavaError::UnsafeArchiveName(n)) && n@ == name@),
{
    let cs = chars_of(name);
    if cs.len() == 0 || cs[0] == '.' || has_char(&cs, '/') || has_char(&cs, '\\') || has_char(
        &cs,
        '"',
    ) {
        return Err(JavaError::UnsafeArchiveName(String::from_str(name)));
    }
    Ok(())
}

/// `path` with `suffix` appended to its last component.
pub fn with_suffix(path: &str, suffix: &str) -> (r: String)
    ensures
        r@ == path@ + suffix@,
{
    let mut out = chars_of(path);
    push_str(&mut out, suffix);
    string_of(&out)
}

/// Where one install's pieces live: the downloaded archive, the staging tree
/// it extracts into, and the directory the rename out of staging commits to.
#[derive(Debug, Clone)]
pub struct InstallPaths {
    pub archive: String,
    pub staging: String,
    pub install_dir: String,
}

/// The directory name of an install: vendor, a hyphen, the major.
pub open spec fn install_name(vendor: Seq<char>, major: i32) -> Seq<char> {
    vendor + "-"@ + crate::text::decimal_int(major as int)
}

impl InstallPaths {
    /// The paths of `package`'s install under `base`.
    pub fn for_package(base: &str, package: &JavaPackage) -> (r: InstallPaths)
        ensures
            r.install_dir@ == path_join(base@, install_name(package.vendor@, package.major)),
            r.staging@ == r.install_dir@ + ".staging"@,
            r.archive@ == path_join(path_join(base@, "tmp"@), package.archive_name@),
    {
        let mut name = chars_of(package.vendor.as_str());
        push_str(&mut name, "-");
        let digits = crate::text::decimal_i64(package.major as i64);
        crate::text::push_all(&mut name, &digits);
        let dir_name = string_of(&name);
        let install_dir = join_str(base, dir_name.as_str());
        let scratch = join_str(base, "tmp");
        InstallPaths {
            archive: join_str(scratch.as_str(), package.archive_name.as_str()),
            staging: with_suffix(install_dir.as_str(), ".staging"),
            install_dir,
        }
    }
}

/// A JSON integer holding `n`.
pub open spec fn int_json(n: i64) -> Json {
    if n >= 0 {
        Json::PosInt(n as u64)
    } else {
        Json::NegInt(n)
    }
}

/// A JSON integer holding `n`.
fn int_value(n: i64) -> (r: Json)
    ensures
        r == int_json(n),
{
    if n >= 0 {
        Json::PosInt(n as u64)
    } else {
        Json::NegInt(n)
    }
}

/// The `runtime.json` record of an install: vendor, major, release name and
/// the executable's path relative to the install, with forward slashes.
pub fn runtime_record(package: &JavaPackage, executable: &str) -> (r: Json)
    ensures
        r matches Json::Object(fields) && fields@.len() == 4 && fields@[0].0@ == "vendor"@ && fields@[0].1
            == Json::Str(package.vendor) && fields@[1].0@ == "major"@ && fields@[1].1 == int_json(
            package.major as i64,
        ) && fields@[2].0@ == "release_name"@ && fields@[2].1 == Json::Str(package.release_name)
            && fields@[3].0@ == "executable"@ && (fields@[3].1 matches Json::Str(e) && e@ == executable@),
{
    let mut fields: Vec<(String, Json)> = Vec::new();
    fields.push((String::from_str("vendor"), Json::Str(package.vendor.clone())));
    fields.push((String::from_str("major"), int_value(package.major as i64)));
    fields.push((String::from_str("release_name"), Json::Str(package.release_name.clone())));
    fields.push((String::from_str("executable"), Json::Str(String::from_str(executable))));
    Json::Object(fields)
}

/// An installed runtime, as its record and the disk describe it.
#[derive(Debug, Clone)]
pub struct JavaRuntime {
    pub vendor: String,
    pub major: i32,
    pub release_name: String,
    pub home: String,
    pub executable: String,
    /// Whether some instance or server uses it; the store of those fills it.
    pub in_use: bool,
}

impl JavaRuntime {
    /// A copy of this runtime.
    pub fn duplicate(&self) -> (r: JavaRuntime)
        ensures
            r == *self,
    {
        JavaRuntime {
            vendor: self.vendor.clone(),
            major: self.major,
            release_name: self.release_name.clone(),
            home: self.home.clone(),
            executable: self.executable.clone(),
            in_use: self.in_use,
        }
    }
}

/// The major a record states: its integer `major` cut to 32 bits, 0 when
/// absent.
pub open spec fn record_major(record: Json) -> i32 {
    match i64_spec(match get_spec(record, "major"@) {
        Some(v) => v,
        None => Json::Null,
    }) {
        Some(n) => n as i32,
        None => 0,
    }
}

/// The home of a runtime whose executable is `exe`: two levels up, or the
/// install directory where there are not two.
pub open spec fn home_of(install_dir: Seq<char>, exe: Seq<char>) -> Seq<char> {
    match parent_path(exe) {
        Some(bin) => match parent_path(bin) {
            Some(home) => home,
            None => install_dir,
        },
        None => install_dir,
    }
}

/// The runtime a `runtime.json` under `install_dir` describes, `None` when
/// its major is not positive. The caller still checks that the executable is
/// a file.
pub fn runtime_from_record(install_dir: &str, record: &Json) -> (r: Option<JavaRuntime>)
    ensures
        record_major(*record) <= 0 ==> r is None,
        record_major(*record) > 0 ==> (r matches Some(rt) && rt.major == record_major(*record)
            && rt.executable@ == path_join(install_dir@, text_in(Some(*record), "executable"@))
            && rt.home@ == home_of(install_dir@, rt.executable@) && rt.vendor@ == text_in(
            Some(*record),
            "vendor"@,
        ) && rt.release_name@ == text_in(Some(*record), "release_name"@) && !rt.in_use),
{
    let major: i32 = match record.get("major") {
        Some(v) => match v.as_i64() {
            Some(n) => n as i32,
            None => 0,
        },
        None => 0,
    };
    if major <= 0 {
        return None;
    }
    let relative = text_of(Some(record), "executable");
    let executable = join_str(install_dir, relative.as_str());
    let home = match parent_of(executable.as_str()) {
        Some(bin) => match parent_of(bin.as_str()) {
            Some(h) => h,
            None => String::from_str(install_dir),
        },
        None => String::from_str(install_dir),
    };
    Some(
        JavaRuntime {
            vendor: text_of(Some(record), "vendor"),
            major,
            release_name: text_of(Some(record), "release_name"),
            home,
            executable,
            in_use: false,
        },
    )
}

/// The majors of a list of runtimes, as sort keys.
pub open spec fn runtime_keys(s: Seq<JavaRuntime>) -> Seq<i64> {
    s.map_values(|x: JavaRuntime| x.major as i64)
}

/// Runtimes ordered by major, runtimes of one major in their given order.
pub fn sort_runtimes(runtimes: &Vec<JavaRuntime>) -> (r: Vec<JavaRuntime>)
    ensures
        exists|order: Seq<usize>|
            #[trigger] stable_order(runtime_keys(runtimes@), order) && r@ == order.map_values(
                |k: usize| runtimes@[k as int],
            ),
{
    let mut keys: Vec<i64> = Vec::new();
    let mut i: usize = 0;
    while i < runtimes.len()
        invariant
            i <= runtimes@.len(),
            keys@ == runtime_keys(runtimes@.take(i as int)),
        decreases runtimes.len() - i,
    {
        keys.push(runtimes[i].major as i64);
        assert(keys@ =~= runtime_keys(runtimes@.take(i + 1)));
        i += 1;
    }
    assert(runtimes@.take(runtimes@.len() as int) =~= runtimes@);
    let order = stable_sort_order(&keys);
    let mut out: Vec<JavaRuntime> = Vec::new();
    let mut k: usize = 0;
    while k < order.len()
        invariant
            stable_order(keys@, order@),
            keys@ == runtime_keys(runtimes@),
            k <= order@.len(),
            out@ == order@.take(k as int).map_values(|x: usize| runtimes@[x as int]),
        decreases order.len() - k,
    {
        let x = order[k];
        out.push(runtimes[x].duplicate());
        assert(out@ =~= order@.take(k + 1).map_values(|x: usize| runtimes@[x as int]));
        k += 1;
    }
    assert(order@.take(order@.len() as int) =~= order@);
    out
}

/// The first installed runtime of `major`.
pub fn find_installed(runtimes: &Vec<JavaRuntime>, major: i32) -> (r: Option<usize>)
    ensures
        r matches Some(i) ==> i < runtimes@.len() && runtimes@[i as int].major == major && forall|
            j: int,
        | 0 <= j < i ==> runtimes@[j].major != major,
        r is None ==> forall|j: int| 0 <= j < runtimes@.len() ==> runtimes@[j].major != major,
{
    let mut i: usize = 0;
    while i < runtimes.len()
        invariant
            i <= runtimes@.len(),
            forall|j: int| 0 <= j < i ==> runtimes@[j].major != major,
        decreases runtimes.len() - i,
    {
        if runtimes[i].major == major {
            return Some(i);
        }
        i += 1;
    }
    None
}

/// What an install request does before any network work: refuse a
/// non-positive major, hand back an installed runtime of the major unless the
/// install is forced, or go on to resolve and fetch.
#[derive(Debug, Clone, Copy, PartialEq, Eq)]
pub enum InstallStart {
    /// The runtime at this index of the installed list is the answer.
    AlreadyInstalled(usize),
    /// Resolve, download, extract and register.
    Fetch,
}

/// How an install request starts.
pub fn install_start(major: i32, force: bool, installed: &Vec<JavaRuntime>) -> (r: Result<InstallStart, JavaError>)
    ensures
        major <= 0 ==> r == Err::<InstallStart, JavaError>(JavaError::InvalidMajor),
        major > 0 && force ==> r == Ok::<InstallStart, JavaError>(InstallStart::Fetch),
        major > 0 && !force ==> match r {
            Ok(InstallStart::AlreadyInstalled(i)) => i < installed@.len() && installed@[i as int].major
                == major && forall|j: int| 0 <= j < i ==> installed@[j].major != major,
            Ok(InstallStart::Fetch) => forall|j: int|
                0 <= j < installed@.len() ==> installed@[j].major != major,
            Err(_) => false,
        },
{
    if major <= 0 {
        return Err(JavaError::InvalidMajor);
    }
    if !force {
        if let Some(i) = find_installed(installed, major) {
            return Ok(InstallStart::AlreadyInstalled(i));
        }
    }
    Ok(InstallStart::Fetch)
}

/// What an interrupted install leaves behind and may be dropped: every
/// entry of `base` named with the staging suffix, and the contents of the
/// scratch directory.
#[derive(Debug, Clone)]
pub struct ReclaimPlan {
    pub base: String,
    pub staging_suffix: String,
    pub scratch: String,
}

/// The Java store: where runtimes are installed.
#[derive(Debug, Clone)]
pub struct Java {
    dir: String,
}

impl Java {
    /// The directory the store reads and installs into.
    pub closed spec fn dir_spec(&self) -> Seq<char> {
        self.dir@
    }

    /// A store over `dir`.
    pub fn new(dir: String) -> (r: Java)
        ensures
            r.dir_spec() == dir@,
    {
        Java { dir }
    }

    /// The directory the store reads and installs into.
    pub fn dir(&self) -> (r: String)
        ensures
            r@ == self.dir_spec(),
    {
        self.dir.clone()
    }

    /// Point the store at another directory.
    pub fn reload(&mut self, dir: String)
        ensures
            final(self).dir_spec() == dir@,
    {
        self.dir = dir;
    }

    /// What to drop after an interrupted install: the staged trees under the
    /// directory and the scratch directory's contents.
    pub fn reclaim(&self) -> (r: ReclaimPlan)
        ensures
            r.base@ == self.dir_spec(),
            r.staging_suffix@ == ".staging"@,
            r.scratch@ == path_join(self.dir_spec(), "tmp"@),
    {
        ReclaimPlan {
            base: self.dir.clone(),
            staging_suffix: String::from_str(".staging"),
            scratch: join_str(self.dir.as_str(), "tmp"),
        }
    }
}


/// The record an install writes reads back as what was written: its
/// vendor, major, release name and executable path.
pub proof fn lemma_runtime_record_round_trip(p: JavaPackage, executable: Seq<char>, record: Json)
    requires
        record matches Json::Object(fields) && fields@.len() == 4 && fields@[0].0@ == "vendor"@
            && fields@[0].1 == Json::Str(p.vendor) && fields@[1].0@ == "major"@ && fields@[1].1
            == int_json(p.major as i64) && fields@[2].0@ == "release_name"@ && fields@[2].1
            == Json::Str(p.release_name) && fields@[3].0@ == "executable"@ && (fields@[3].1 matches Json::Str(
            e,
        ) && e@ == executable),
    ensures
        text_in(Some(record), "vendor"@) == p.vendor@,
        record_major(record) == p.major,
        text_in(Some(record), "release_name"@) == p.release_name@,
        text_in(Some(record), "executable"@) == executable,
{
    reveal_strlit("vendor");
    reveal_strlit("major");
    reveal_strlit("release_name");
    reveal_strlit("executable");
    let fields = record->Object_0@;
    assert("vendor"@[0] != "major"@[0] && "vendor"@[0] != "release_name"@[0] && "vendor"@[0] != "executable"@[0]);
    assert("major"@[0] != "release_name"@[0] && "major"@[0] != "executable"@[0]);
    assert("release_name"@[0] != "executable"@[0]);
    assert(fields.drop_first()[0] == fields[1]);
    assert(fields.drop_first().drop_first()[0] == fields[2]);
    assert(fields.drop_first().drop_first().drop_first()[0] == fields[3]);
    reveal_with_fuel(crate::json::lookup, 4);
    let m = p.major as i64;
    if m >= 0 {
        assert((m as u64) as i64 == m);
    }
    assert((m as i32) == p.major);
}

/// How a downloaded runtime archive is unpacked.
#[derive(Debug, Clone, Copy, PartialEq, Eq, Structural)]
pub enum ArchiveFormat {
    Zip,
    TarGz,
}

/// The format a runtime archive's file name announces: `.zip`, or
/// `.tar.gz`/`.tgz`; anything else is not unpacked.
pub open spec fn archive_format_spec(file_name: Seq<char>) -> Option<ArchiveFormat> {
    if ends_with(file_name, ".zip"@) {
        Some(ArchiveFormat::Zip)
    } else if ends_with(file_name, ".tar.gz"@) || ends_with(file_name, ".tgz"@) {
        Some(ArchiveFormat::TarGz)
    } else {
        None
    }
}

/// The format of the archive named `file_name`, refused when it is neither.
pub fn archive_format(file_name: &str) -> (r: Result<ArchiveFormat, JavaError>)
    ensures
        archive_format_spec(file_name@) matches Some(f) ==> r == Ok::<ArchiveFormat, JavaError>(f),
        archive_format_spec(file_name@) is None ==> (r matches Err(JavaError::UnsupportedArchive(n)) && n@
            == file_name@),
{
    let cs = chars_of(file_name);
    if ends_with_str(&cs, ".zip") {
        Ok(ArchiveFormat::Zip)
    } else if ends_with_str(&cs, ".tar.gz") || ends_with_str(&cs, ".tgz") {
        Ok(ArchiveFormat::TarGz)
    } else {
        Err(JavaError::UnsupportedArchive(String::from_str(file_name)))
    }
}

} // verus!
