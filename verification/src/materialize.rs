//! What materialising a profile onto disk decides: which names and paths
//! from upstream are safe, which libraries are fetched once, which native
//! entries are unpacked, and what an asset index asks for. The downloads,
//! the file checks and the copies are the caller's.

use vstd::prelude::*;

use vstd::string::StringExecFns;

use crate::json::{bool_spec, get_spec, str_spec, u64_spec, Json};
use crate::launch::{contains_string, join_str, path_join};
use crate::profile::{is_hex_digit, Library};
use crate::text::{ends_with,
    chars_of, has_char, push_str, starts_with, starts_with_str, string_of, sub_chars,
};

verus! {

/// Where asset objects are downloaded from.
pub const ASSET_HOST: &'static str = "https://resources.download.minecraft.net";

/// What materialising refuses.
#[derive(Debug, Clone, PartialEq, Eq)]
pub enum MaterializeError {
    /// An artifact's file name is empty, hidden or holds a separator.
    UnsafeFilename(String),
    /// An upstream relative path is empty, absolute or climbs out.
    UnsafePath(String),
    /// An asset index without its `objects` map.
    NoObjects,
    /// An asset index names an object hash that is not 40 hex digits.
    InvalidHash(String),
}

/// Whether an artifact file name is a plain name: non-empty, not hidden,
/// without `/` or `\`.
pub open spec fn safe_filename(name: Seq<char>) -> bool {
    name.len() > 0 && name[0] != '.' && !name.contains('/') && !name.contains('\\')
}

/// Refuse an artifact file name that is not a plain name.
pub fn validate_filename(name: &str) -> (r: Result<(), MaterializeError>)
    ensures
        safe_filename(name@) ==> r is Ok,
        !safe_filename(name@) ==> (r matches Err(MaterializeError::UnsafeFilename(n)) && n@ == name@),
{
    let cs = chars_of(name);
    if cs.len() == 0 || cs[0] == '.' || has_char(&cs, '/') || has_char(&cs, '\\') {
        return Err(MaterializeError::UnsafeFilename(String::from_str(name)));
    }
    Ok(())
}

/// Whether a `..` component starts at `i` of `s`.
pub open spec fn parent_ref_at(s: Seq<char>, i: int) -> bool {
    &&& 0 <= i && i + 2 <= s.len()
    &&& s[i] == '.' && s[i + 1] == '.'
    &&& (i == 0 || s[i - 1] == '/')
    &&& (i + 2 == s.len() || s[i + 2] == '/')
}

/// Whether `s` starts with a `.` component (`.` alone or `./...`).
pub open spec fn leading_cur_dir(s: Seq<char>) -> bool {
    s.len() > 0 && s[0] == '.' && (s.len() == 1 || s[1] == '/')
}

/// Whether an upstream relative path only names entries below its root:
/// non-empty, not absolute, with no `..` component and no leading `.`
/// component (a `.` further in is no component at all).
pub open spec fn safe_relative(s: Seq<char>) -> bool {
    &&& s.len() > 0
    &&& s[0] != '/'
    &&& !leading_cur_dir(s)
    &&& forall|i: int| !#[trigger] parent_ref_at(s, i)
}

/// `relative` under `root`, refusing a path that is empty, absolute or
/// climbs out.
pub fn safe_join(root: &str, relative: &str) -> (r: Result<String, MaterializeError>)
    ensures
        safe_relative(relative@) ==> (r matches Ok(p) && p@ == path_join(root@, relative@)),
        !safe_relative(relative@) ==> (r matches Err(MaterializeError::UnsafePath(p)) && p@
            == relative@),
{
    let cs = chars_of(relative);
    let n = cs.len();
    let refuse = n == 0 || cs[0] == '/' || (cs[0] == '.' && (n == 1 || cs[1] == '/'));
    if refuse {
        return Err(MaterializeError::UnsafePath(String::from_str(relative)));
    }
    let mut i: usize = 0;
    while i < n
        invariant
            n == cs@.len(),
            cs@ == relative@,
            forall|k: int| 0 <= k < i ==> !#[trigger] parent_ref_at(cs@, k),
        decreases n - i,
    {
        if i + 1 < n && cs[i] == '.' && cs[i + 1] == '.' && (i == 0 || cs[i - 1] == '/') && (i + 2 == n || cs[i
            + 2] == '/') {
            assert(parent_ref_at(cs@, i as int));
            return Err(MaterializeError::UnsafePath(String::from_str(relative)));
        }
        i += 1;
    }
    assert forall|k: int| !#[trigger] parent_ref_at(cs@, k) by {
        if 0 <= k && k + 2 <= n {
            assert(k < i);
        }
    }
    Ok(join_str(root, relative))
}

/// Whether entry `i` of `keys` is the first with its value.
pub open spec fn first_seen(keys: Seq<Seq<char>>, i: int) -> bool {
    forall|j: int| 0 <= j < i ==> keys[j] != keys[i]
}

/// The indices of the first entry of each distinct value, ascending.
pub open spec fn first_indices(keys: Seq<Seq<char>>) -> Seq<usize>
    decreases keys.len(),
{
    if keys.len() == 0 {
        Seq::empty()
    } else {
        let r = first_indices(keys.drop_last());
        if first_seen(keys, keys.len() - 1) {
            r.push((keys.len() - 1) as usize)
        } else {
            r
        }
    }
}

/// A first entry of a prefix is a first entry of the whole.
proof fn lemma_first_seen_prefix(keys: Seq<Seq<char>>, k: int)
    requires
        0 <= k < keys.len() - 1,
    ensures
        first_seen(keys.drop_last(), k) <==> first_seen(keys, k),
{
    if first_seen(keys, k) {
        assert forall|j: int| 0 <= j < k implies keys.drop_last()[j] != keys.drop_last()[k] by {
            assert(keys[j] != keys[k]);
        }
    }
    if first_seen(keys.drop_last(), k) {
        assert forall|j: int| 0 <= j < k implies keys[j] != keys[k] by {
            assert(keys.drop_last()[j] != keys.drop_last()[k]);
        }
    }
}

/// Every index `first_indices` yields points at the first entry of its
/// value.
pub proof fn lemma_first_indices_first_seen(keys: Seq<Seq<char>>, m: int)
    requires
        keys.len() <= usize::MAX,
        0 <= m < first_indices(keys).len(),
    ensures
        first_indices(keys)[m] < keys.len(),
        first_seen(keys, first_indices(keys)[m] as int),
    decreases keys.len(),
{
    if keys.len() == 0 {
        assert(first_indices(keys).len() == 0);
        return;
    }
    let n = keys.len() as int;
    let r = first_indices(keys.drop_last());
    let f = first_indices(keys);
    if first_seen(keys, n - 1) {
        assert(f == r.push((n - 1) as usize));
    } else {
        assert(f == r);
    }
    if m < r.len() {
        lemma_first_indices_first_seen(keys.drop_last(), m);
        assert(f[m] == r[m]);
        lemma_first_seen_prefix(keys, r[m] as int);
        assert(first_seen(keys, f[m] as int));
    } else {
        assert(first_seen(keys, n - 1));
        assert(f[m] == (n - 1) as usize);
        assert(f[m] as int == n - 1);
        assert(first_seen(keys, f[m] as int));
    }
}

/// `first_indices` yields exactly the first entry of each value: an index
/// is in it if and only if its entry is the first with that value.
pub proof fn lemma_first_indices_exact(keys: Seq<Seq<char>>, k: int)
    requires
        keys.len() <= usize::MAX,
        0 <= k < keys.len(),
    ensures
        first_indices(keys).contains(k as usize) <==> first_seen(keys, k),
    decreases keys.len(),
{
    if keys.len() == 0 {
        assert(first_indices(keys).len() == 0);
        return;
    }
    let n = keys.len() as int;
    let r = first_indices(keys.drop_last());
    let f = first_indices(keys);
    if first_seen(keys, n - 1) {
        assert(f == r.push((n - 1) as usize));
    } else {
        assert(f == r);
    }
    if f.contains(k as usize) {
        let w = choose|w: int| 0 <= w < f.len() && f[w] == k as usize;
        lemma_first_indices_first_seen(keys, w);
    }
    if first_seen(keys, k) {
        if k == n - 1 {
            assert(f[r.len() as int] == k as usize);
        } else {
            lemma_first_seen_prefix(keys, k);
            lemma_first_indices_exact(keys.drop_last(), k);
            let w = choose|w: int| 0 <= w < r.len() && r[w] == k as usize;
            assert(f[w] == k as usize);
        }
    }
}

/// The entries `first_indices` picks come in ascending order and hold
/// pairwise different values: each value is fetched once.
pub proof fn lemma_first_indices_distinct(keys: Seq<Seq<char>>, a: int, b: int)
    requires
        keys.len() <= usize::MAX,
        0 <= a < b < first_indices(keys).len(),
    ensures
        keys[first_indices(keys)[a] as int] != keys[first_indices(keys)[b] as int],
        first_indices(keys)[a] < first_indices(keys)[b],
    decreases keys.len(),
{
    if keys.len() == 0 {
        assert(first_indices(keys).len() == 0);
        return;
    }
    let n = keys.len() as int;
    let r = first_indices(keys.drop_last());
    let f = first_indices(keys);
    if first_seen(keys, n - 1) {
        assert(f == r.push((n - 1) as usize));
    } else {
        assert(f == r);
    }
    lemma_first_indices_first_seen(keys, a);
    lemma_first_indices_first_seen(keys, b);
    if b < r.len() {
        lemma_first_indices_distinct(keys.drop_last(), a, b);
        lemma_first_indices_first_seen(keys.drop_last(), a);
        lemma_first_indices_first_seen(keys.drop_last(), b);
        assert(f[a] == r[a] && f[b] == r[b]);
        assert(keys.drop_last()[r[a] as int] == keys[r[a] as int]);
        assert(keys.drop_last()[r[b] as int] == keys[r[b] as int]);
    } else {
        lemma_first_indices_first_seen(keys.drop_last(), a);
        assert(f[a] == r[a]);
        assert(f[b] == (n - 1) as usize);
        assert(first_seen(keys, n - 1));
        assert(keys[f[a] as int] != keys[n - 1]);
    }
}

/// Every value of `keys` is held by one of the entries `first_indices`
/// picks: nothing is left unfetched.
pub proof fn lemma_first_indices_cover(keys: Seq<Seq<char>>, k: int)
    requires
        keys.len() <= usize::MAX,
        0 <= k < keys.len(),
    ensures
        exists|m: int| 0 <= m < first_indices(keys).len() && keys[#[trigger] first_indices(keys)[m] as int] == keys[k],
    decreases k,
{
    if first_seen(keys, k) {
        lemma_first_indices_exact(keys, k);
        let m = choose|m: int| 0 <= m < first_indices(keys).len() && first_indices(keys)[m] == k as usize;
        assert(keys[first_indices(keys)[m] as int] == keys[k]);
    } else {
        let j = choose|j: int| 0 <= j < k && keys[j] == keys[k];
        lemma_first_indices_cover(keys, j);
        let m = choose|m: int| 0 <= m < first_indices(keys).len() && keys[#[trigger] first_indices(keys)[m] as int] == keys[j];
        assert(keys[first_indices(keys)[m] as int] == keys[k]);
    }
}

/// The indices of the first entry of each distinct value of `keys`.
pub fn first_of_each(keys: &Vec<String>) -> (r: Vec<usize>)
    ensures
        r@ == first_indices(keys.deep_view()),
{
    let ghost all = keys.deep_view();
    let mut seen: Vec<String> = Vec::new();
    let mut r: Vec<usize> = Vec::new();
    let mut i: usize = 0;
    while i < keys.len()
        invariant
            all == keys.deep_view(),
            i <= all.len(),
            r@ == first_indices(all.take(i as int)),
            forall|s: Seq<char>| seen.deep_view().contains(s) <==> all.take(i as int).contains(s),
        decreases keys.len() - i,
    {
        let ghost pre = all.take(i as int);
        let ghost post = all.take(i + 1);
        assert(post.drop_last() =~= pre);
        let key = keys[i].clone();
        assert(key@ == all[i as int]);
        let known = contains_string(&seen, &key);
        assert(first_indices(post) == if first_seen(post, i as int) {
            first_indices(pre).push(i)
        } else {
            first_indices(pre)
        });
        if known {
            proof {
                assert(pre.contains(key@));
                let j = choose|j: int| 0 <= j < pre.len() && pre[j] == key@;
                assert(post[j] == post[i as int]);
                assert(!first_seen(post, i as int));
            }
        } else {
            proof {
                assert forall|j: int| 0 <= j < i implies post[j] != post[i as int] by {
                    assert(pre[j] == post[j]);
                    if pre[j] == key@ {
                        assert(pre.contains(key@));
                    }
                }
            }
            r.push(i);
            let ghost before = seen.deep_view();
            seen.push(key);
            proof {
                assert(seen.deep_view() =~= before.push(all[i as int]));
                assert forall|s: Seq<char>| seen.deep_view().contains(s) <==> post.contains(s) by {
                    if post.contains(s) {
                        let j = choose|j: int| 0 <= j < post.len() && post[j] == s;
                        if j < i {
                            assert(pre[j] == s);
                            assert(pre.contains(s));
                            assert(before.contains(s));
                            let q = choose|q: int| 0 <= q < before.len() && before[q] == s;
                            assert(seen.deep_view()[q] == s);
                        } else {
                            assert(seen.deep_view()[before.len() as int] == s);
                        }
                    }
                    if seen.deep_view().contains(s) {
                        let q = choose|q: int|
                            0 <= q < seen.deep_view().len() && seen.deep_view()[q] == s;
                        if q < before.len() {
                            assert(before[q] == s);
                            assert(before.contains(s));
                            let j = choose|j: int| 0 <= j < pre.len() && pre[j] == s;
                            assert(post[j] == s);
                        } else {
                            assert(post[i as int] == s);
                        }
                    }
                }
            }
        }
        proof {
            if known {
                assert forall|s: Seq<char>| seen.deep_view().contains(s) <==> post.contains(s) by {
                    if post.contains(s) {
                        let j = choose|j: int| 0 <= j < post.len() && post[j] == s;
                        if j < i {
                            assert(pre[j] == s);
                            assert(pre.contains(s));
                        } else {
                            assert(pre.contains(key@));
                        }
                    }
                    if seen.deep_view().contains(s) {
                        assert(pre.contains(s));
                        let j = choose|j: int| 0 <= j < pre.len() && pre[j] == s;
                        assert(post[j] == s);
                    }
                }
            }
        }
        i += 1;
    }
    assert(all.take(all.len() as int) =~= all);
    r
}

/// The library paths of a list, in order.
pub open spec fn library_path_list(libs: Seq<Library>) -> Seq<Seq<char>> {
    libs.map_values(|l: Library| l.path@)
}

/// The libraries to fetch, as indices: the first library of each path,
/// since a loader profile layered over the base game repeats some.
pub fn library_targets(libs: &Vec<Library>) -> (r: Vec<usize>)
    ensures
        r@ == first_indices(library_path_list(libs@)),
{
    let mut paths: Vec<String> = Vec::new();
    let mut i: usize = 0;
    while i < libs.len()
        invariant
            i <= libs@.len(),
            paths.deep_view() == library_path_list(libs@.take(i as int)),
        decreases libs.len() - i,
    {
        let ghost before = paths.deep_view();
        paths.push(libs[i].path.clone());
        assert(libs@.take(i + 1) =~= libs@.take(i as int).push(libs@[i as int]));
        assert(library_path_list(libs@.take(i + 1)) =~= library_path_list(libs@.take(i as int)).push(
            libs@[i as int].path@,
        ));
        assert(paths.deep_view() =~= library_path_list(libs@.take(i + 1)));
        i += 1;
    }
    assert(libs@.take(libs@.len() as int) =~= libs@);
    first_of_each(&paths)
}

/// Whether a native jar entry is left out by one of the excluded prefixes.
pub open spec fn excluded_spec(name: Seq<char>, exclude: Seq<Seq<char>>) -> bool {
    exists|i: int| 0 <= i < exclude.len() && starts_with(name, #[trigger] exclude[i])
}

/// Whether a native jar entry is left out by one of the excluded prefixes.
pub fn is_excluded(name: &str, exclude: &Vec<String>) -> (r: bool)
    ensures
        r == excluded_spec(name@, exclude.deep_view()),
{
    let cs = chars_of(name);
    let ghost all = exclude.deep_view();
    let mut i: usize = 0;
    while i < exclude.len()
        invariant
            all == exclude.deep_view(),
            cs@ == name@,
            i <= all.len(),
            forall|k: int| 0 <= k < i ==> !starts_with(name@, #[trigger] all[k]),
        decreases exclude.len() - i,
    {
        if starts_with_str(&cs, exclude[i].as_str()) {
            assert(starts_with(name@, all[i as int]));
            return true;
        }
        i += 1;
    }
    false
}

/// One named object of an asset index.
#[derive(Debug, Clone)]
pub struct AssetEntry {
    pub name: String,
    pub hash: String,
    pub size: u64,
}

/// An asset entry as its texts and size.
pub open spec fn entry_view(e: AssetEntry) -> (Seq<char>, Seq<char>, u64) {
    (e.name@, e.hash@, e.size)
}

/// Whether an object hash is a SHA-1 written out in 40 hex digits.
pub open spec fn valid_hash(h: Seq<char>) -> bool {
    h.len() == 40 && forall|i: int| 0 <= i < h.len() ==> is_hex_digit(#[trigger] h[i])
}

/// The size an index object states, 0 when it states none.
pub open spec fn object_size(object: Json) -> u64 {
    match u64_spec(match get_spec(object, "size"@) {
        Some(v) => v,
        None => Json::Null,
    }) {
        Some(n) => n,
        None => 0,
    }
}

/// The hash an index object states, if it states one as text.
pub open spec fn object_hash(object: Json) -> Option<Seq<char>> {
    match get_spec(object, "hash"@) {
        Some(v) => str_spec(v),
        None => None,
    }
}

/// The entries of an index's objects map, in order: each object with a
/// textual hash, the first invalid hash refusing the whole index.
pub open spec fn asset_entries(fields: Seq<(String, Json)>) -> Result<
    Seq<(Seq<char>, Seq<char>, u64)>,
    Seq<char>,
>
    decreases fields.len(),
{
    if fields.len() == 0 {
        Ok(Seq::empty())
    } else {
        match asset_entries(fields.drop_last()) {
            Err(h) => Err(h),
            Ok(prev) => {
                let (name, object) = fields.last();
                match object_hash(object) {
                    None => Ok(prev),
                    Some(h) => if valid_hash(h) {
                        Ok(prev.push((name@, h, object_size(object))))
                    } else {
                        Err(h)
                    },
                }
            },
        }
    }
}

/// Whether an index flag is set to `true`.
pub open spec fn flag_set(parsed: Json, key: Seq<char>) -> bool {
    match get_spec(parsed, key) {
        Some(v) => bool_spec(v) == Some(true),
        None => false,
    }
}

/// The directory a legacy index wants its assets copied into by name:
/// `resources` under the game directory when it maps to resources, else
/// `virtual/<id>` under the asset root when it is virtual.
pub open spec fn mapped_dir(parsed: Json, index_id: Seq<char>, root: Seq<char>, game_dir: Seq<char>) -> Option<Seq<char>> {
    if flag_set(parsed, "map_to_resources"@) {
        Some(path_join(game_dir, "resources"@))
    } else if flag_set(parsed, "virtual"@) {
        Some(path_join(path_join(root, "virtual"@), index_id))
    } else {
        None
    }
}

/// What an asset index asks for: where a legacy index wants assets by name,
/// every named object, and which of them to fetch (the first of each hash).
#[derive(Debug, Clone)]
pub struct AssetPlan {
    pub mapped: Option<String>,
    pub entries: Vec<AssetEntry>,
    pub fetch: Vec<usize>,
}

/// Where an asset index is kept under the asset root; its id must be a
/// plain file name.
pub fn index_path(index_id: &str, root: &str) -> (r: Result<String, MaterializeError>)
    ensures
        safe_filename(index_id@) ==> (r matches Ok(p) && p@ == path_join(
            path_join(root@, "indexes"@),
            index_id@ + ".json"@,
        )),
        !safe_filename(index_id@) ==> (r matches Err(MaterializeError::UnsafeFilename(n)) && n@
            == index_id@),
{
    validate_filename(index_id)?;
    let indexes = join_str(root, "indexes");
    let mut file = chars_of(index_id);
    push_str(&mut file, ".json");
    let f = string_of(&file);
    Ok(join_str(indexes.as_str(), f.as_str()))
}

/// The plan for a parsed asset index `parsed` of id `index_id`.
pub fn plan_assets(index_id: &str, root: &str, game_dir: &str, parsed: &Json) -> (r: Result<AssetPlan, MaterializeError>)
    ensures
        !(get_spec(*parsed, "objects"@) matches Some(Json::Object(_))) ==> r
            == Err::<AssetPlan, MaterializeError>(MaterializeError::NoObjects),
        get_spec(*parsed, "objects"@) matches Some(Json::Object(fields)) ==> match asset_entries(
            fields@,
        ) {
            Err(h) => r matches Err(MaterializeError::InvalidHash(x)) && x@ == h,
            Ok(es) => r matches Ok(plan) && plan.entries@.map_values(|e: AssetEntry| entry_view(e))
                == es && plan.fetch@ == first_indices(es.map_values(
                |e: (Seq<char>, Seq<char>, u64)| e.1,
            )) && match mapped_dir(*parsed, index_id@, root@, game_dir@) {
                Some(d) => plan.mapped matches Some(m) && m@ == d,
                None => plan.mapped is None,
            },
        },
{
    let mapped_flag = match parsed.get("map_to_resources") {
        Some(v) => v.as_bool() == Some(true),
        None => false,
    };
    let virtual_flag = match parsed.get("virtual") {
        Some(v) => v.as_bool() == Some(true),
        None => false,
    };
    let mapped = if mapped_flag {
        Some(join_str(game_dir, "resources"))
    } else if virtual_flag {
        let v = join_str(root, "virtual");
        Some(join_str(v.as_str(), index_id))
    } else {
        None
    };
    let fields = match parsed.get("objects") {
        Some(Json::Object(fields)) => fields,
        _ => return Err(MaterializeError::NoObjects),
    };
    let mut entries: Vec<AssetEntry> = Vec::new();
    let mut hashes: Vec<String> = Vec::new();
    let mut i: usize = 0;
    while i < fields.len()
        invariant
            get_spec(*parsed, "objects"@) matches Some(Json::Object(f)) && f@ == fields@,
            i <= fields@.len(),
            asset_entries(fields@.take(i as int)) matches Ok(es) && entries@.map_values(
                |e: AssetEntry| entry_view(e),
            ) == es && hashes.deep_view() == es.map_values(|e: (Seq<char>, Seq<char>, u64)| e.1),
        decreases fields.len() - i,
    {
        let ghost pre = fields@.take(i as int);
        let ghost post = fields@.take(i + 1);
        assert(post.drop_last() =~= pre);
        let ghost es = asset_entries(pre)->Ok_0;
        let name = &fields[i].0;
        let object = &fields[i].1;
        let hash = match object.get("hash") {
            Some(h) => h.as_str(),
            None => None,
        };
        match hash {
            None => {},
            Some(h) => {
                let hc = chars_of(h.as_str());
                let mut ok = hc.len() == 40;
                let mut k: usize = 0;
                while ok && k < hc.len()
                    invariant
                        hc@ == h@,
                        ok ==> hc@.len() == 40,
                        !ok ==> (hc@.len() != 40 || (k < hc@.len() && !is_hex_digit(hc@[k as int]))),
                        k <= hc@.len(),
                        forall|q: int| 0 <= q < k ==> is_hex_digit(#[trigger] hc@[q]),
                    decreases hc.len() - k + (if ok {
                        1int
                    } else {
                        0int
                    }),
                {
                    let c = hc[k];
                    if !(('0' <= c && c <= '9') || ('a' <= c && c <= 'f') || ('A' <= c && c <= 'F')) {
                        ok = false;
                    } else {
                        k += 1;
                    }
                }
                if !ok {
                    assert(!valid_hash(h@));
                    assert(asset_entries(post) == Err::<Seq<(Seq<char>, Seq<char>, u64)>, Seq<char>>(
                        h@,
                    ));
                    let ghost rest = fields@.skip(i + 1);
                    proof {
                        lemma_entries_err_persists(fields@, i as int + 1, h@);
                    }
                    return Err(MaterializeError::InvalidHash(h.clone()));
                }
                let size = match object.get("size") {
                    Some(s) => match s.as_u64() {
                        Some(n) => n,
                        None => 0,
                    },
                    None => 0,
                };
                let ghost before = entries@;
                let ghost hbefore = hashes.deep_view();
                entries.push(AssetEntry { name: name.clone(), hash: h.clone(), size });
                hashes.push(h.clone());
                assert(entries@.map_values(|e: AssetEntry| entry_view(e)) =~= es.push(
                    (name@, h@, size),
                ));
                assert(hashes.deep_view() =~= hbefore.push(h@));
            },
        }
        i += 1;
    }
    assert(fields@.take(fields@.len() as int) =~= fields@);
    let fetch = first_of_each(&hashes);
    Ok(AssetPlan { mapped, entries, fetch })
}

/// Once the entries of a prefix are refused, so are those of the whole.
proof fn lemma_entries_err_persists(fields: Seq<(String, Json)>, n: int, h: Seq<char>)
    requires
        0 <= n <= fields.len(),
        asset_entries(fields.take(n)) == Err::<Seq<(Seq<char>, Seq<char>, u64)>, Seq<char>>(h),
    ensures
        asset_entries(fields) == Err::<Seq<(Seq<char>, Seq<char>, u64)>, Seq<char>>(h),
    decreases fields.len() - n,
{
    if n == fields.len() {
        assert(fields.take(n) =~= fields);
    } else {
        assert(fields.take(n + 1).drop_last() =~= fields.take(n));
        lemma_entries_err_persists(fields, n + 1, h);
    }
}

/// Where an asset object is kept: `objects/<first two digits>/<hash>`.
pub open spec fn object_path_spec(root: Seq<char>, hash: Seq<char>) -> Seq<char> {
    path_join(path_join(path_join(root, "objects"@), hash.take(2)), hash)
}

/// Where an asset object is kept under the asset root.
pub fn object_path(root: &str, hash: &str) -> (r: String)
    requires
        hash@.len() >= 2,
    ensures
        r@ == object_path_spec(root@, hash@),
{
    let hc = chars_of(hash);
    let prefix = sub_chars(&hc, 0, 2);
    assert(prefix@ =~= hash@.take(2));
    let p = string_of(&prefix);
    let objects = join_str(root, "objects");
    let dir = join_str(objects.as_str(), p.as_str());
    join_str(dir.as_str(), hash)
}

/// Where an asset object is downloaded from.
pub fn object_url(hash: &str) -> (r: String)
    requires
        hash@.len() >= 2,
    ensures
        r@ == "https://resources.download.minecraft.net"@ + "/"@ + hash@.take(2) + "/"@ + hash@,
{
    let hc = chars_of(hash);
    let prefix = sub_chars(&hc, 0, 2);
    assert(prefix@ =~= hash@.take(2));
    let mut out: Vec<char> = Vec::new();
    push_str(&mut out, "https://resources.download.minecraft.net");
    push_str(&mut out, "/");
    crate::text::push_all(&mut out, &prefix);
    push_str(&mut out, "/");
    push_str(&mut out, hash);
    string_of(&out)
}


/// A safe relative path joined under a root stays under it: the joined path
/// is the root, a separator where the root lacks one, then the relative
/// path.
pub proof fn lemma_safe_join_stays_under_root(root: Seq<char>, relative: Seq<char>)
    requires
        safe_relative(relative),
    ensures
        starts_with(path_join(root, relative), root),
        ends_with(path_join(root, relative), relative),
        path_join(root, relative) == root + (if root.len() == 0 || root.last() == '/' {
            Seq::<char>::empty()
        } else {
            "/"@
        }) + relative,
{
    let j = path_join(root, relative);
    let sep: Seq<char> = if root.len() == 0 || root.last() == '/' {
        Seq::<char>::empty()
    } else {
        "/"@
    };
    assert(j =~= root + sep + relative);
    assert(j.subrange(0, root.len() as int) =~= root);
    assert(j.subrange(j.len() - relative.len(), j.len() as int) =~= relative);
}

} // verus!
