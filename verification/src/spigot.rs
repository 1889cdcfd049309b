//! Bukkit and Spigot: the SpigotMC hub's catalogue (which versions
//! BuildTools can build, and the Java each needs), the Java a build runs
//! with, the profile naming a jar that is compiled locally, and where the
//! build keeps its work.

use vstd::prelude::*;

use vstd::string::StringExecFns;

use crate::buildtools::Product;
use crate::java::{integers, integers_of};
use crate::json::{get_spec, i64_spec, items_at, Json};
use crate::launch::{join_str, path_join};
use crate::meta::{items_of, GameVersion};
use crate::order::{stable_order, stable_sort_order};
use crate::profile::{Artifact, ServerProfile};
use crate::provider::{prerequisites, ContentKind, Flavor, Loads, Prerequisite};
use crate::text::{
    before_char, before_char_exec, chars_of, ends_with, ends_with_str, push_str, split_pat,
    split_pat_exec, str_eq, string_of, sub_chars, starts_with, starts_with_str,
};

verus! {

/// The hub serving BuildTools and its version metadata.
pub const HUB: &'static str = "https://hub.spigotmc.org";

/// The BuildTools build every install runs: the last successful one, since a
/// pinned copy stops being able to build each new game version.
pub const BUILDTOOLS_URL: &'static str = "https://hub.spigotmc.org/jenkins/job/BuildTools/lastSuccessfulBuild/artifact/target/BuildTools.jar";

/// A class-file major is its Java major plus this.
pub const CLASS_FILE_OFFSET: i64 = 44;

/// What the versions predating the hub's `javaVersions` field were built
/// with.
pub const LEGACY_JAVA_MAJOR: i32 = 8;

/// The name one `href="` piece of the hub's index links to: the target up to
/// its closing quote, with `.json` stripped; the `latest` alias and anything
/// not ending in `.json` name nothing.
pub open spec fn index_name(piece: Seq<char>) -> Option<Seq<char>> {
    let n = before_char(piece, '"');
    if ends_with(n, ".json"@) && n.take(n.len() - 5) != "latest"@ {
        Some(n.take(n.len() - 5))
    } else {
        None
    }
}

/// The names a list of index pieces link to, in order.
pub open spec fn names_in(pieces: Seq<Seq<char>>) -> Seq<Seq<char>>
    decreases pieces.len(),
{
    if pieces.len() == 0 {
        Seq::empty()
    } else {
        let r = names_in(pieces.drop_last());
        match index_name(pieces.last()) {
            Some(n) => r.push(n),
            None => r,
        }
    }
}

/// Every name the hub's version index publishes metadata for.
pub open spec fn names_spec(index: Seq<char>) -> Seq<Seq<char>> {
    names_in(split_pat(index, "href=\""@).drop_first())
}

/// The name one index piece links to.
fn name_of(piece: &Vec<char>) -> (r: Option<String>)
    ensures
        r matches Some(n) ==> index_name(piece@) == Some(n@),
        r is None ==> index_name(piece@) is None,
{
    proof {
        reveal_strlit(".json");
        reveal_strlit("latest");
    }
    let n = before_char_exec(piece, '"');
    if !ends_with_str(&n, ".json") {
        return None;
    }
    let stem = sub_chars(&n, 0, n.len() - 5);
    assert(stem@ =~= n@.take(n@.len() - 5));
    let s = string_of(&stem);
    if str_eq(s.as_str(), "latest") {
        return None;
    }
    Some(s)
}

/// Every name the hub's version index (an HTML directory listing of
/// `<name>.json` files) links to, without the `latest` alias. Most are
/// Jenkins build numbers; the caller keeps the ones Mojang lists.
pub fn names(index: &str) -> (r: Vec<String>)
    ensures
        r.deep_view() == names_spec(index@),
{
    proof {
        reveal_strlit("href=\"");
    }
    let cs = chars_of(index);
    let pat = chars_of("href=\"");
    let pieces = split_pat_exec(&cs, &pat);
    let ghost ps = pieces@.map_values(|v: Vec<char>| v@);
    let ghost rest = ps.drop_first();
    let mut out: Vec<String> = Vec::new();
    let mut i: usize = 1;
    if pieces.len() == 0 {
        assert(rest =~= Seq::<Seq<char>>::empty());
        return out;
    }
    while i < pieces.len()
        invariant
            1 <= i <= pieces@.len(),
            ps == pieces@.map_values(|v: Vec<char>| v@),
            rest == ps.drop_first(),
            out.deep_view() == names_in(rest.take(i - 1)),
        decreases pieces.len() - i,
    {
        assert(rest.take(i as int).drop_last() =~= rest.take(i - 1));
        assert(rest.take(i as int).last() == pieces@[i as int]@);
        let ghost before = out.deep_view();
        match name_of(&pieces[i]) {
            Some(n) => {
                out.push(n);
                assert(out.deep_view() =~= before.push(n@));
            },
            None => {},
        }
        i += 1;
    }
    assert(rest.take(rest.len() as int) =~= rest);
    out
}

/// The integers of the array under `key`.
pub open spec fn integers_at(j: Json, key: Seq<char>) -> Seq<i64> {
    integers(items_at(Some(j), key))
}

/// The Java majors of a hub version answer's `javaVersions` class-file
/// range, before ordering.
pub open spec fn class_majors(body: Json) -> Seq<i32> {
    integers_at(body, "javaVersions"@).map_values(|c: i64| (c - 44) as i32)
}

/// Majors as sort keys.
pub open spec fn major_keys(s: Seq<i32>) -> Seq<i64> {
    s.map_values(|m: i32| m as i64)
}

/// The Java majors a version can be built and run with, lowest first; empty
/// for a version predating the field.
pub fn java_versions(body: &Json) -> (r: Vec<i32>)
    requires
        forall|i: int|
            0 <= i < integers_at(*body, "javaVersions"@).len() ==> #[trigger] integers_at(*body, "javaVersions"@)[i]
                >= i64::MIN + 44,
    ensures
        exists|order: Seq<usize>|
            #[trigger] stable_order(major_keys(class_majors(*body)), order) && r@
                == order.map_values(|k: usize| class_majors(*body)[k as int]),
{
    let ghost all = integers_at(*body, "javaVersions"@);
    let classes = match items_of(Some(body), "javaVersions") {
        Some(items) => integers_of(items),
        None => Vec::new(),
    };
    assert(classes@ == all);
    let ghost majors = class_majors(*body);
    let mut values: Vec<i32> = Vec::new();
    let mut keys: Vec<i64> = Vec::new();
    let mut i: usize = 0;
    while i < classes.len()
        invariant
            classes@ == all,
            majors == all.map_values(|c: i64| (c - 44) as i32),
            forall|k: int| 0 <= k < all.len() ==> #[trigger] all[k] >= i64::MIN + 44,
            i <= all.len(),
            values@ == majors.take(i as int),
            keys@ == major_keys(majors.take(i as int)),
        decreases classes.len() - i,
    {
        let c = classes[i];
        assert(all[i as int] >= i64::MIN + 44);
        let m = (c - 44) as i32;
        values.push(m);
        keys.push(m as i64);
        assert(values@ =~= majors.take(i + 1));
        assert(keys@ =~= major_keys(majors.take(i + 1)));
        i += 1;
    }
    assert(majors.take(majors.len() as int) =~= majors);
    let order = stable_sort_order(&keys);
    let mut out: Vec<i32> = Vec::new();
    let mut k: usize = 0;
    while k < order.len()
        invariant
            stable_order(keys@, order@),
            values@ == majors,
            keys@ == major_keys(majors),
            k <= order@.len(),
            out@ == order@.take(k as int).map_values(|x: usize| majors[x as int]),
        decreases order.len() - k,
    {
        let x = order[k];
        out.push(values[x]);
        assert(out@ =~= order@.take(k + 1).map_values(|x: usize| majors[x as int]));
        k += 1;
    }
    assert(order@.take(order@.len() as int) =~= order@);
    assert(stable_order(major_keys(class_majors(*body)), order@));
    out
}

/// The Java majors Minecraft launch profiles ever require: 8 (before 1.17),
/// 16 (1.17), 17 (1.18 to 1.20.4) and 21 (1.20.5 on).
pub open spec fn required_java_majors_spec() -> Seq<i32> {
    seq![8i32, 16i32, 17i32, 21i32]
}

/// The Java majors Minecraft launch profiles ever require.
pub fn required_java_majors() -> (r: Vec<i32>)
    ensures
        r@ == required_java_majors_spec(),
{
    let mut r: Vec<i32> = Vec::new();
    r.push(8);
    r.push(16);
    r.push(17);
    r.push(21);
    assert(r@ =~= required_java_majors_spec());
    r
}

/// The Java a version is built and run with, from its supported majors
/// (lowest first): the first major Minecraft profiles require that lies in
/// the supported range, else the low end; 8 when no range is stated.
pub open spec fn java_major_spec(supported: Seq<i32>) -> i32 {
    if supported.len() == 0 {
        8
    } else {
        let low = supported[0];
        let high = supported.last();
        let req = required_java_majors_spec();
        if exists|i: int| 0 <= i < req.len() && low <= #[trigger] req[i] <= high {
            req[choose|i: int|
                0 <= i < req.len() && low <= #[trigger] req[i] <= high && forall|k: int|
                    0 <= k < i ==> !(low <= #[trigger] req[k] <= high)]
        } else {
            low
        }
    }
}

/// The Java a version is built and run with.
pub fn java_major(supported: &Vec<i32>) -> (r: i32)
    ensures
        r == java_major_spec(supported@),
{
    if supported.len() == 0 {
        return LEGACY_JAVA_MAJOR;
    }
    let low = supported[0];
    let high = supported[supported.len() - 1];
    let req = required_java_majors();
    let mut i: usize = 0;
    while i < req.len()
        invariant
            req@ == required_java_majors_spec(),
            i <= req@.len(),
            supported@.len() > 0,
            low == supported@[0],
            high == supported@.last(),
            forall|k: int| 0 <= k < i ==> !(low <= #[trigger] req@[k] <= high),
        decreases req.len() - i,
    {
        if low <= req[i] && req[i] <= high {
            proof {
                assert(low <= req@[i as int] <= high);
                let c = choose|c: int|
                    0 <= c < req@.len() && low <= #[trigger] req@[c] <= high && forall|k: int|
                        0 <= k < c ==> !(low <= #[trigger] req@[k] <= high);
                if c < i {
                } else if c > i {
                    assert(!(low <= req@[i as int] <= high));
                }
            }
            return req[i];
        }
        i += 1;
    }
    low
}

/// The versions BuildTools can build: the manifest's versions the hub
/// publishes metadata for, in manifest order. A published name the manifest
/// lacks is a Jenkins build number, never a version to offer.
pub fn game_versions(published: &Vec<String>, manifest: &Vec<GameVersion>) -> (r: Vec<GameVersion>)
    ensures
        r@ == manifest@.filter(|v: GameVersion| published.deep_view().contains(v.id@)),
{
    let ghost pubs = published.deep_view();
    let mut out: Vec<GameVersion> = Vec::new();
    let mut i: usize = 0;
    while i < manifest.len()
        invariant
            pubs == published.deep_view(),
            i <= manifest@.len(),
            out@ == manifest@.take(i as int).filter(|v: GameVersion| pubs.contains(v.id@)),
        decreases manifest.len() - i,
    {
        let v = &manifest[i];
        let ghost pre = manifest@.take(i as int);
        assert(manifest@.take(i + 1) =~= pre.push(manifest@[i as int]));
        proof {
            pre.lemma_filter_push(manifest@[i as int], |v: GameVersion| pubs.contains(v.id@));
        }
        if crate::launch::contains_string(published, &v.id) {
            out.push(GameVersion { id: v.id.clone(), kind: v.kind, stable: v.stable });
        }
        i += 1;
    }
    assert(manifest@.take(manifest@.len() as int) =~= manifest@);
    out
}

/// The server profile of a product for a game version: it names the jar the
/// build will write and carries no URL, which tells provisioning there is
/// nothing to fetch.
pub fn server_profile(product: Product, game: &str, java_major: i32) -> (r: ServerProfile)
    ensures
        r.flavor@ == product.flavor_spec(),
        r.game_version@ == game@,
        r.loader_version is None,
        r.primary.filename@ == product.prefix_spec() + "-"@ + game@ + ".jar"@,
        r.primary.url@.len() == 0,
        r.primary.size == 0,
        r.primary.checksum is None,
        r.libraries@.len() == 0,
        r.java_major == java_major,
        r.main_class@.len() == 0,
        r.jvm_args@.len() == 0,
        r.args_file@.len() == 0,
{
    ServerProfile {
        flavor: String::from_str(product.flavor()),
        game_version: String::from_str(game),
        loader_version: None,
        primary: Artifact { url: String::new(), filename: product.jar_name(game), size: 0, checksum: None },
        libraries: Vec::new(),
        java_major,
        main_class: String::new(),
        jvm_args: Vec::new(),
        args_file: String::new(),
    }
}

/// The tree BuildTools works in, shared by every version and both products.
pub fn work_dir(meta: &str) -> (r: String)
    ensures
        r@ == path_join(meta@, "spigot"@),
{
    join_str(meta, "spigot")
}

/// Where a version's built jars land.
pub fn jars_dir(meta: &str, version: &str) -> (r: String)
    ensures
        r@ == path_join(path_join(path_join(meta@, "spigot"@), "jars"@), version@),
{
    let work = work_dir(meta);
    let jars = join_str(work.as_str(), "jars");
    join_str(jars.as_str(), version)
}

/// Whether a file in the jars directory is the product's jar: named with its
/// prefix and a hyphen, ending `.jar` (the build names it after the version
/// its own metadata reports).
pub open spec fn is_product_jar(name: Seq<char>, product: Product) -> bool {
    starts_with(name, product.prefix_spec() + "-"@) && ends_with(name, ".jar"@)
}

/// The first of `names` (a directory's entries) that is the product's jar.
pub fn built(names: &Vec<String>, product: Product) -> (r: Option<usize>)
    ensures
        r matches Some(i) ==> i < names@.len() && is_product_jar(names@[i as int]@, product) && forall|
            k: int,
        | 0 <= k < i ==> !is_product_jar(names@[k]@, product),
        r is None ==> forall|k: int| 0 <= k < names@.len() ==> !is_product_jar(names@[k]@, product),
{
    let mut prefix = chars_of(product.prefix());
    push_str(&mut prefix, "-");
    let p = string_of(&prefix);
    let mut i: usize = 0;
    while i < names.len()
        invariant
            i <= names@.len(),
            p@ == product.prefix_spec() + "-"@,
            forall|k: int| 0 <= k < i ==> !is_product_jar(names@[k]@, product),
        decreases names.len() - i,
    {
        let n = chars_of(names[i].as_str());
        if starts_with_str(&n, p.as_str()) && ends_with_str(&n, ".jar") {
            return Some(i);
        }
        i += 1;
    }
    None
}

/// The CraftBukkit server flavor, compiled locally with BuildTools.
#[derive(Debug, Clone, Copy)]
pub struct BukkitServer;

/// The Spigot server flavor, compiled locally with BuildTools.
#[derive(Debug, Clone, Copy)]
pub struct SpigotServer;

impl Flavor for BukkitServer {
    fn id(&self) -> (r: &'static str)
        ensures
            r@ == "bukkit"@,
    {
        "bukkit"
    }

    fn name(&self) -> (r: &'static str)
        ensures
            r@ == "CraftBukkit"@,
    {
        "CraftBukkit"
    }

    fn summary(&self) -> (r: &'static str)
        ensures
            r@ == "The plugin server Spigot is built on, without its speed-ups. Pick Spigot unless you need this exactly."@,
    {
        "The plugin server Spigot is built on, without its speed-ups. Pick Spigot unless you need this exactly."
    }

    fn loads(&self) -> (r: Loads)
        ensures
            r == Some(ContentKind::Plugin),
    {
        Some(ContentKind::Plugin)
    }

    fn needs(&self, windows: bool) -> (r: Vec<Prerequisite>)
        ensures
            windows ==> r@.len() == 0,
            !windows ==> r@ == seq![Prerequisite::Git],
    {
        prerequisites(windows)
    }
}

impl Flavor for SpigotServer {
    fn id(&self) -> (r: &'static str)
        ensures
            r@ == "spigot"@,
    {
        "spigot"
    }

    fn name(&self) -> (r: &'static str)
        ensures
            r@ == "Spigot"@,
    {
        "Spigot"
    }

    fn summary(&self) -> (r: &'static str)
        ensures
            r@ == "The classic plugin server, with the largest plugin library. Nobody may hand it out ready-made, so Hestia builds it here the first time — allow a few minutes."@,
    {
        "The classic plugin server, with the largest plugin library. Nobody may hand it out ready-made, so Hestia builds it here the first time — allow a few minutes."
    }

    /// Spigot's plugins are filtered as `spigot`, never widened to `bukkit`.
    fn loads(&self) -> (r: Loads)
        ensures
            r == Some(ContentKind::Plugin),
    {
        Some(ContentKind::Plugin)
    }

    fn needs(&self, windows: bool) -> (r: Vec<Prerequisite>)
        ensures
            windows ==> r@.len() == 0,
            !windows ==> r@ == seq![Prerequisite::Git],
    {
        prerequisites(windows)
    }
}

/// The Java majors a hub answer yields are its class-file versions less 44
/// (class 52 is Java 8, class 65 is Java 21), each class taken once, lowest
/// major first.
pub proof fn lemma_java_versions_are_class_files_less_44(body: Json, r: Seq<i32>)
    requires
        exists|order: Seq<usize>|
            #[trigger] stable_order(major_keys(class_majors(body)), order) && r == order.map_values(
                |k: usize| class_majors(body)[k as int],
            ),
    ensures
        ({
            let classes = integers_at(body, "javaVersions"@);
            &&& r.len() == classes.len()
            &&& exists|order: Seq<usize>|
                order.len() == classes.len() && (forall|i: int| 0 <= i < order.len() ==> #[trigger] order[i] < classes.len()
                    && r[i] == (classes[order[i] as int] - 44) as i32) && (forall|i: int, j: int|
                    0 <= i < j < order.len() ==> #[trigger] order[i] != #[trigger] order[j])
            &&& forall|i: int, j: int| 0 <= i < j < r.len() ==> #[trigger] r[i] <= #[trigger] r[j]
        }),
{
    let classes = integers_at(body, "javaVersions"@);
    let majors = class_majors(body);
    let keys = major_keys(majors);
    let order = choose|order: Seq<usize>|
        #[trigger] stable_order(keys, order) && r == order.map_values(|k: usize| majors[k as int]);
    assert forall|i: int| 0 <= i < order.len() implies #[trigger] order[i] < classes.len()
        && r[i] == (classes[order[i] as int] - 44) as i32 by {
        assert(r[i] == majors[order[i] as int]);
    }
    assert forall|i: int, j: int| 0 <= i < j < order.len() implies #[trigger] order[i] != #[trigger] order[j] by {
        crate::order::lemma_stable_order_distinct(keys, order, i, j);
    }
    assert forall|i: int, j: int| 0 <= i < j < r.len() implies #[trigger] r[i] <= #[trigger] r[j] by {
        crate::order::lemma_stable_order_distinct(keys, order, i, j);
        assert(keys[order[i] as int] == r[i] as i64);
        assert(keys[order[j] as int] == r[j] as i64);
    }
}

} // verus!
