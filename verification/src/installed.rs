//! The content index of an entry: what a batch install routes where, which
//! dependencies it follows, and how installed and updated items are written
//! back into the index. Fetching projects and files is the caller's.

use vstd::prelude::*;

use vstd::string::StringExecFns;

use crate::provider::{accepted_kinds, accepted_kinds_spec, ContentKind, Loads, Side};
use crate::launch::{contains_string, copy_strings, push_unique};
use crate::text::{after_last, after_last_exec, str_eq};

verus! {

/// One installed item, as the entry's content index records it.
#[derive(Debug, Clone)]
pub struct InstalledContent {
    pub kind: ContentKind,
    pub source: String,
    pub project_id: String,
    pub slug: String,
    pub title: String,
    pub version_id: String,
    pub version_number: String,
    pub filename: String,
    pub sha1: String,
    pub url: String,
    pub icon_url: String,
    pub installed_unix: i64,
    pub worlds: Vec<String>,
    /// Who installed it (`modpack:<id>`, `profile:<name>`); empty when a
    /// person did.
    pub origin: String,
    pub enabled: bool,
    pub disabled_worlds: Vec<String>,
}

/// Whether a fetched project satisfies the requested kind: the same kind,
/// or a mod-typed project asked for as a datapack (the platform has no
/// datapack project type).
pub open spec fn kind_matches_spec(requested: ContentKind, project: ContentKind) -> bool {
    requested == project || (requested == ContentKind::DataPack && project == ContentKind::Mod)
}

/// Whether a fetched project satisfies the requested kind.
pub fn kind_matches(requested: ContentKind, project: ContentKind) -> (r: bool)
    ensures
        r == kind_matches_spec(requested, project),
{
    requested == project || (requested == ContentKind::DataPack && project == ContentKind::Mod)
}

/// How one item of a batch is installed.
#[derive(Debug, Clone, Copy, PartialEq, Eq, Structural)]
pub enum Route {
    /// It names none, or more than one, of a project, a URL and a file.
    Malformed,
    /// A source page URL.
    Url,
    /// A platform project.
    Project,
    /// A local file.
    File,
}

/// How an item naming `project`, `url` and `path` (each possibly empty) is
/// installed: exactly one of them must be given.
pub open spec fn route_spec(project: Seq<char>, url: Seq<char>, path: Seq<char>) -> Route {
    let given = (if project.len() > 0 { 1int } else { 0int }) + (if url.len() > 0 { 1int } else { 0int }) + (
    if path.len() > 0 {
        1int
    } else {
        0int
    });
    if given != 1 {
        Route::Malformed
    } else if url.len() > 0 {
        Route::Url
    } else if project.len() > 0 {
        Route::Project
    } else {
        Route::File
    }
}

/// How an item is installed.
pub fn route(project: &str, url: &str, path: &str) -> (r: Route)
    ensures
        r == route_spec(project@, url@, path@),
{
    let p = !project.is_empty();
    let u = !url.is_empty();
    let f = !path.is_empty();
    let given: u8 = (if p { 1 } else { 0 }) + (if u { 1 } else { 0 }) + (if f { 1 } else { 0 });
    if given != 1 {
        Route::Malformed
    } else if u {
        Route::Url
    } else if p {
        Route::Project
    } else {
        Route::File
    }
}

/// The source a project item is fetched from: its own, else the batch's.
pub fn item_source(item: &str, batch: &str) -> (r: String)
    ensures
        r@ == (if item@.len() == 0 {
            batch@
        } else {
            item@
        }),
{
    if item.is_empty() {
        String::from_str(batch)
    } else {
        String::from_str(item)
    }
}

/// Whether index entry `old` is the one a newly installed `item` replaces:
/// the same kind, and the same project (when the item has one) or the same
/// file name.
pub open spec fn replaces(old: InstalledContent, item: InstalledContent) -> bool {
    old.kind == item.kind && ((item.project_id@.len() > 0 && old.project_id@ == item.project_id@)
        || old.filename@ == item.filename@)
}

/// The first entry of `index` that `item` replaces.
pub open spec fn replaced_at(index: Seq<InstalledContent>, item: InstalledContent) -> Option<int> {
    if exists|p: int| 0 <= p < index.len() && replaces(#[trigger] index[p], item) {
        Some(choose|p: int|
            0 <= p < index.len() && replaces(#[trigger] index[p], item) && forall|q: int|
                0 <= q < p ==> !replaces(#[trigger] index[q], item))
    } else {
        None
    }
}

/// The index after recording one installed item: the entry it replaces (if
/// any) taken out, the item appended; and the replaced entry when its files
/// are left behind under another name.
pub open spec fn record_one(index: Seq<InstalledContent>, item: InstalledContent) -> (Seq<InstalledContent>, Option<InstalledContent>) {
    match replaced_at(index, item) {
        Some(p) => (
            index.remove(p).push(item),
            if index[p].filename@ != item.filename@ {
                Some(index[p])
            } else {
                None
            },
        ),
        None => (index.push(item), None),
    }
}

/// The index after recording every installed item in order, and the
/// replaced entries whose files are to be removed, in order.
pub open spec fn record_all(index: Seq<InstalledContent>, items: Seq<InstalledContent>) -> (Seq<InstalledContent>, Seq<InstalledContent>)
    decreases items.len(),
{
    if items.len() == 0 {
        (index, Seq::empty())
    } else {
        let (before, stale) = record_all(index, items.drop_last());
        let (after, old) = record_one(before, items.last());
        (after, match old {
            Some(o) => stale.push(o),
            None => stale,
        })
    }
}

/// The first entry of `index` an item replaces.
fn find_replaced(index: &Vec<InstalledContent>, item: &InstalledContent) -> (r: Option<usize>)
    ensures
        r matches Some(p) ==> replaced_at(index@, *item) == Some(p as int) && p < index@.len(),
        r is None ==> replaced_at(index@, *item) is None,
{
    let mut p: usize = 0;
    while p < index.len()
        invariant
            p <= index@.len(),
            forall|q: int| 0 <= q < p ==> !replaces(#[trigger] index@[q], *item),
        decreases index.len() - p,
    {
        let old = &index[p];
        let same = old.kind == item.kind && ((!item.project_id.as_str().is_empty() && old.project_id == item.project_id)
            || old.filename == item.filename);
        if same {
            proof {
                assert(replaces(index@[p as int], *item));
                let c = choose|c: int|
                    0 <= c < index@.len() && replaces(#[trigger] index@[c], *item) && forall|q: int|
                        0 <= q < c ==> !replaces(#[trigger] index@[q], *item);
                if c < p {
                } else if c > p {
                    assert(!replaces(index@[p as int], *item));
                }
            }
            return Some(p);
        }
        p += 1;
    }
    None
}

/// Record a batch of installed items in the index, in order: each replaces
/// the first entry of its kind with its project or file name. Returned are
/// the new index and the replaced entries whose files, named otherwise, are
/// to be removed.
pub fn record_installed(index: Vec<InstalledContent>, items: Vec<InstalledContent>) -> (r: (Vec<InstalledContent>, Vec<InstalledContent>))
    ensures
        (r.0@, r.1@) == record_all(index@, items@),
{
    let ghost all = items@;
    let mut index = index;
    let ghost start = index@;
    let mut stale: Vec<InstalledContent> = Vec::new();
    let mut items = items;
    let ghost mut done: Seq<InstalledContent> = Seq::empty();
    while items.len() > 0
        invariant
            done + items@ == all,
            (index@, stale@) == record_all(start, done),
        decreases items@.len(),
    {
        let ghost remaining = items@;
        let item = items.remove(0);
        assert(remaining =~= seq![item] + items@);
        let ghost before = index@;
        let ghost stale_before = stale@;
        match find_replaced(&index, &item) {
            Some(p) => {
                let old = index.remove(p);
                if old.filename != item.filename {
                    stale.push(old);
                }
            },
            None => {},
        }
        let ghost kept = item;
        index.push(item);
        let ghost done_before = done;
        proof {
            done = done.push(kept);
        }
        assert(done.drop_last() =~= done_before);
        assert(done + items@ =~= all);
        assert(record_one(before, kept).0 =~= index@);
    }
    (index, stale)
}

/// Write updated items back into the index: each takes the place of the
/// first entry of its kind and project, keeping that entry's origin and
/// enabled state (an update moves the version, not the ownership); an item
/// with no such entry is appended.
pub open spec fn apply_update(index: Seq<InstalledContent>, item: InstalledContent) -> Seq<InstalledContent> {
    if exists|p: int| 0 <= p < index.len() && (#[trigger] index[p]).kind == item.kind && index[p].project_id@ == item.project_id@ {
        let p = choose|p: int|
            0 <= p < index.len() && (#[trigger] index[p]).kind == item.kind && index[p].project_id@ == item.project_id@
                && forall|q: int| 0 <= q < p ==> !((#[trigger] index[q]).kind == item.kind && index[q].project_id@ == item.project_id@);
        index.update(p, InstalledContent { origin: index[p].origin, enabled: index[p].enabled, ..item })
    } else {
        index.push(item)
    }
}

/// Every update written back in order.
pub open spec fn apply_updates_spec(index: Seq<InstalledContent>, items: Seq<InstalledContent>) -> Seq<InstalledContent>
    decreases items.len(),
{
    if items.len() == 0 {
        index
    } else {
        apply_update(apply_updates_spec(index, items.drop_last()), items.last())
    }
}

/// Write updated items back into the index.
pub fn apply_updates(index: Vec<InstalledContent>, updated: Vec<InstalledContent>) -> (r: Vec<InstalledContent>)
    ensures
        r@ == apply_updates_spec(index@, updated@),
{
    let ghost all = updated@;
    let mut index = index;
    let ghost start = index@;
    let mut updated = updated;
    let ghost mut done: Seq<InstalledContent> = Seq::empty();
    while updated.len() > 0
        invariant
            done + updated@ == all,
            index@ == apply_updates_spec(start, done),
        decreases updated@.len(),
    {
        let ghost remaining = updated@;
        let item = updated.remove(0);
        assert(remaining =~= seq![item] + updated@);
        let ghost before = index@;
        let mut p: usize = 0;
        let mut found: Option<usize> = None;
        while p < index.len()
            invariant
                index@ == before,
                p <= index@.len(),
                found is None ==> forall|q: int| 0 <= q < p ==> !((#[trigger] index@[q]).kind == item.kind && index@[q].project_id@ == item.project_id@),
                found matches Some(f) ==> f < index@.len() && index@[f as int].kind == item.kind && index@[f as int].project_id@ == item.project_id@
                    && forall|q: int| 0 <= q < f ==> !((#[trigger] index@[q]).kind == item.kind && index@[q].project_id@ == item.project_id@),
            decreases index.len() - p,
        {
            if found.is_none() && index[p].kind == item.kind && index[p].project_id == item.project_id {
                found = Some(p);
            }
            p += 1;
        }
        let ghost kept = item;
        match found {
            Some(f) => {
                proof {
                    let c = choose|c: int|
                        0 <= c < before.len() && (#[trigger] before[c]).kind == kept.kind && before[c].project_id@ == kept.project_id@
                            && forall|q: int| 0 <= q < c ==> !((#[trigger] before[q]).kind == kept.kind && before[q].project_id@ == kept.project_id@);
                    if c < f {
                    } else if c > f {
                        assert(!(before[f as int].kind == kept.kind && before[f as int].project_id@ == kept.project_id@));
                    }
                }
                let origin = index[f].origin.clone();
                let enabled = index[f].enabled;
                let mut item = item;
                item.origin = origin;
                item.enabled = enabled;
                index.set(f, item);
            },
            None => {
                index.push(item);
            },
        }
        let ghost done_before = done;
        proof {
            done = done.push(kept);
        }
        assert(done.drop_last() =~= done_before);
        assert(done + updated@ =~= all);
    }
    index
}

/// One dependency a version declares.
#[derive(Debug, Clone)]
pub struct Dependency {
    pub required: bool,
    pub project_id: String,
}

/// The projects a walk over `deps` adds, in order: each required
/// dependency naming a project that neither `visited` nor an earlier step
/// holds.
pub open spec fn deps_walk(deps: Seq<Dependency>, visited: Seq<Seq<char>>) -> Seq<Seq<char>>
    decreases deps.len(),
{
    if deps.len() == 0 {
        Seq::empty()
    } else {
        let r = deps_walk(deps.drop_last(), visited);
        let d = deps.last();
        if d.required && d.project_id@.len() > 0 && !(visited + r).contains(d.project_id@) {
            r.push(d.project_id@)
        } else {
            r
        }
    }
}

/// The dependencies a version adds to a batch's queue: required ones that
/// name a project not yet visited, each once, in order. `visited` grows by
/// the returned ids.
pub fn required_dependencies(deps: &Vec<Dependency>, visited: &mut Vec<String>) -> (r: Vec<String>)
    ensures
        r.deep_view() == deps_walk(deps@, old(visited).deep_view()),
        final(visited).deep_view() == old(visited).deep_view() + r.deep_view(),
        forall|i: int| 0 <= i < r@.len() ==> !old(visited).deep_view().contains(#[trigger] r@[i]@),
        forall|i: int, j: int| 0 <= i < j < r@.len() ==> r@[i]@ != r@[j]@,
        forall|i: int|
            0 <= i < deps@.len() && deps@[i].required && deps@[i].project_id@.len() > 0 ==> #[trigger] final(visited).deep_view().contains(
                deps@[i].project_id@,
            ),
        forall|i: int|
            0 <= i < r@.len() ==> #[trigger] r@[i]@.len() > 0 && exists|k: int|
                0 <= k < deps@.len() && (#[trigger] deps@[k]).required && deps@[k].project_id@ == r@[i]@,
{
    let ghost start = visited.deep_view();
    let mut out: Vec<String> = Vec::new();
    let mut i: usize = 0;
    while i < deps.len()
        invariant
            i <= deps@.len(),
            out.deep_view() == deps_walk(deps@.take(i as int), start),
            visited.deep_view() == start + out.deep_view(),
            forall|a: int| 0 <= a < out@.len() ==> !start.contains(#[trigger] out@[a]@),
            forall|a: int, b: int| 0 <= a < b < out@.len() ==> out@[a]@ != out@[b]@,
            forall|k: int|
                0 <= k < i && deps@[k].required && deps@[k].project_id@.len() > 0 ==> #[trigger] visited.deep_view().contains(
                    deps@[k].project_id@,
                ),
            forall|a: int|
                0 <= a < out@.len() ==> #[trigger] out@[a]@.len() > 0 && exists|k: int|
                    0 <= k < deps@.len() && (#[trigger] deps@[k]).required && deps@[k].project_id@ == out@[a]@,
        decreases deps.len() - i,
    {
        let dep = &deps[i];
        assert(deps@.take(i + 1).drop_last() =~= deps@.take(i as int));
        assert(deps@.take(i + 1).last() == deps@[i as int]);
        let ghost v0 = visited.deep_view();
        assert(forall|k: int|
            0 <= k < i && deps@[k].required && deps@[k].project_id@.len() > 0 ==> v0.contains(deps@[k].project_id@));
        if dep.required && !dep.project_id.as_str().is_empty() {
            if !crate::launch::contains_string(visited, &dep.project_id) {
                let ghost vb = visited.deep_view();
                let ghost ob = out.deep_view();
                let id = dep.project_id.clone();
                visited.push(dep.project_id.clone());
                out.push(id);
                proof {
                    assert(visited.deep_view() =~= vb.push(dep.project_id@));
                    assert(out.deep_view() =~= ob.push(dep.project_id@));
                    assert(visited.deep_view() =~= start + out.deep_view());
                    assert(!start.contains(dep.project_id@)) by {
                        if start.contains(dep.project_id@) {
                            let w = choose|w: int| 0 <= w < start.len() && start[w] == dep.project_id@;
                            assert(vb[w] == dep.project_id@);
                        }
                    }
                    assert forall|a: int| 0 <= a < out@.len() - 1 implies out@[a]@ != dep.project_id@ by {
                        assert(vb[start.len() + a] == out@[a]@);
                    }
                    assert forall|x: Seq<char>| vb.contains(x) implies visited.deep_view().contains(x) by {
                        let w = choose|w: int| 0 <= w < vb.len() && vb[w] == x;
                        assert(visited.deep_view()[w] == x);
                    }
                    assert(visited.deep_view()[vb.len() as int] == deps@[i as int].project_id@);
                    assert(out@[out@.len() - 1]@ == deps@[i as int].project_id@);
                }
            }
        }
        i += 1;
    }
    assert(deps@.take(deps@.len() as int) =~= deps@);
    out
}

/// The folder name of a world path: its last component.
pub open spec fn world_name(world: Seq<char>) -> Seq<char> {
    after_last(world, '/')
}

/// The folder name of a world path.
pub fn world_name_of(world: &str) -> (r: String)
    ensures
        r@ == world_name(world@),
{
    after_last_exec(world, '/')
}

/// The worlds an item's selection covers: its own list, or every world of the
/// entry when it names none.
pub open spec fn target_worlds_spec(item_worlds: Seq<Seq<char>>, entry_worlds: Seq<Seq<char>>) -> Seq<Seq<char>> {
    if item_worlds.len() == 0 {
        entry_worlds
    } else {
        item_worlds
    }
}

/// The worlds an item's selection covers.
pub fn target_worlds(item: &InstalledContent, entry_worlds: &Vec<String>) -> (r: Vec<String>)
    ensures
        r.deep_view() == target_worlds_spec(item.worlds.deep_view(), entry_worlds.deep_view()),
{
    if item.worlds.len() == 0 {
        copy_strings(entry_worlds)
    } else {
        copy_strings(&item.worlds)
    }
}

/// The worlds of `worlds`, in order, whose folder name is (`named`) or is not
/// (`!named`) among `names`.
pub open spec fn select_worlds(worlds: Seq<Seq<char>>, names: Seq<Seq<char>>, named: bool) -> Seq<Seq<char>>
    decreases worlds.len(),
{
    if worlds.len() == 0 {
        Seq::empty()
    } else {
        let rest = select_worlds(worlds.drop_last(), names, named);
        if names.contains(world_name(worlds.last())) == named {
            rest.push(worlds.last())
        } else {
            rest
        }
    }
}

/// Whether `names` holds `name`, compared by content.
fn names_hold(names: &Vec<String>, name: &String) -> (r: bool)
    ensures
        r == names.deep_view().contains(name@),
{
    contains_string(names, name)
}

/// The worlds of `worlds` whose folder name is, or is not, among `names`.
pub fn select_worlds_exec(worlds: &Vec<String>, names: &Vec<String>, named: bool) -> (r: Vec<String>)
    ensures
        r.deep_view() == select_worlds(worlds.deep_view(), names.deep_view(), named),
{
    let ghost all = worlds.deep_view();
    let mut out: Vec<String> = Vec::new();
    let mut i: usize = 0;
    while i < worlds.len()
        invariant
            all == worlds.deep_view(),
            i <= all.len(),
            out.deep_view() == select_worlds(all.take(i as int), names.deep_view(), named),
        decreases worlds.len() - i,
    {
        let ghost before = out.deep_view();
        let w = &worlds[i];
        let folder = world_name_of(w.as_str());
        let hit = names_hold(names, &folder);
        assert(all.take(i + 1).drop_last() =~= all.take(i as int));
        assert(all.take(i + 1).last() == all[i as int]);
        if hit == named {
            out.push(w.clone());
            assert(out.deep_view() =~= before.push(all[i as int]));
        }
        i += 1;
    }
    assert(all.take(all.len() as int) =~= all);
    out
}

/// The worlds an item still loads in once the worlds named in `drop` are
/// taken from it; empty means nothing is left, so the item goes. An unscoped
/// removal (`drop` empty) takes the whole item.
pub open spec fn keep_worlds_spec(item_worlds: Seq<Seq<char>>, drop: Seq<Seq<char>>, entry_worlds: Seq<Seq<char>>) -> Seq<Seq<char>> {
    if drop.len() == 0 {
        Seq::empty()
    } else {
        select_worlds(target_worlds_spec(item_worlds, entry_worlds), drop, false)
    }
}

/// The worlds an item still loads in once those named in `drop` are taken
/// from it.
pub fn keep_worlds(item: &InstalledContent, drop: &Vec<String>, entry_worlds: &Vec<String>) -> (r: Vec<String>)
    ensures
        r.deep_view() == keep_worlds_spec(item.worlds.deep_view(), drop.deep_view(), entry_worlds.deep_view()),
{
    if drop.len() == 0 {
        return Vec::new();
    }
    let current = target_worlds(item, entry_worlds);
    select_worlds_exec(&current, drop, false)
}

/// `s` without the items that occur in `gone`, in order.
pub open spec fn without(s: Seq<Seq<char>>, gone: Seq<Seq<char>>) -> Seq<Seq<char>>
    decreases s.len(),
{
    if s.len() == 0 {
        Seq::empty()
    } else {
        let rest = without(s.drop_last(), gone);
        if gone.contains(s.last()) {
            rest
        } else {
            rest.push(s.last())
        }
    }
}

/// `acc` with each item of `items` appended, in order, unless already there.
pub open spec fn add_missing(acc: Seq<Seq<char>>, items: Seq<Seq<char>>) -> Seq<Seq<char>>
    decreases items.len(),
{
    if items.len() == 0 {
        acc
    } else {
        let a = add_missing(acc, items.drop_last());
        if a.contains(items.last()) {
            a
        } else {
            a.push(items.last())
        }
    }
}

/// Whether two index entries agree on everything but the enabled state and
/// the disabled worlds.
pub open spec fn same_but_toggles(a: InstalledContent, b: InstalledContent) -> bool {
    &&& a.kind == b.kind
    &&& a.source == b.source
    &&& a.project_id == b.project_id
    &&& a.slug == b.slug
    &&& a.title == b.title
    &&& a.version_id == b.version_id
    &&& a.version_number == b.version_number
    &&& a.filename == b.filename
    &&& a.sha1 == b.sha1
    &&& a.url == b.url
    &&& a.icon_url == b.icon_url
    &&& a.installed_unix == b.installed_unix
    &&& a.worlds == b.worlds
    &&& a.origin == b.origin
}

/// The worlds a scoped toggle of `item` reaches: those of its selection whose
/// folder name `scope` lists.
pub open spec fn scoped_targets(item: InstalledContent, scope: Seq<Seq<char>>, entry_worlds: Seq<Seq<char>>) -> Seq<Seq<char>> {
    select_worlds(target_worlds_spec(item.worlds.deep_view(), entry_worlds), scope, true)
}

fn strip_worlds(worlds: &Vec<String>, gone: &Vec<String>) -> (r: Vec<String>)
    ensures
        r.deep_view() == without(worlds.deep_view(), gone.deep_view()),
{
    let ghost all = worlds.deep_view();
    let mut out: Vec<String> = Vec::new();
    let mut i: usize = 0;
    while i < worlds.len()
        invariant
            all == worlds.deep_view(),
            i <= all.len(),
            out.deep_view() == without(all.take(i as int), gone.deep_view()),
        decreases worlds.len() - i,
    {
        let ghost before = out.deep_view();
        let w = &worlds[i];
        assert(all.take(i + 1).drop_last() =~= all.take(i as int));
        assert(all.take(i + 1).last() == all[i as int]);
        if !contains_string(gone, w) {
            out.push(w.clone());
            assert(out.deep_view() =~= before.push(all[i as int]));
        }
        i += 1;
    }
    assert(all.take(all.len() as int) =~= all);
    out
}

fn append_missing(acc: &mut Vec<String>, items: &Vec<String>)
    ensures
        final(acc).deep_view() == add_missing(old(acc).deep_view(), items.deep_view()),
{
    let ghost start = acc.deep_view();
    let ghost all = items.deep_view();
    let mut i: usize = 0;
    while i < items.len()
        invariant
            all == items.deep_view(),
            i <= all.len(),
            acc.deep_view() == add_missing(start, all.take(i as int)),
        decreases items.len() - i,
    {
        assert(all.take(i + 1).drop_last() =~= all.take(i as int));
        assert(all.take(i + 1).last() == all[i as int]);
        push_unique(acc, items[i].clone());
        i += 1;
    }
    assert(all.take(all.len() as int) =~= all);
}

/// A toggle of one item: item-wide with no `scope`, else only for the worlds
/// it names. Enabling item-wide clears every per-world exclusion; enabling
/// worlds turns the item back on (a wholly disabled pack loads nowhere) and
/// lifts their exclusion; disabling worlds adds them to the exclusions once
/// each, leaving the item's own state alone.
pub fn scope_enabled(item: &mut InstalledContent, enabled: bool, scope: &Vec<String>, entry_worlds: &Vec<String>)
    ensures
        same_but_toggles(*final(item), *old(item)),
        scope@.len() == 0 ==> final(item).enabled == enabled && final(item).disabled_worlds.deep_view() == (if enabled {
            Seq::<Seq<char>>::empty()
        } else {
            old(item).disabled_worlds.deep_view()
        }),
        scope@.len() > 0 && enabled ==> final(item).enabled && final(item).disabled_worlds.deep_view() == without(
            old(item).disabled_worlds.deep_view(),
            scoped_targets(*old(item), scope.deep_view(), entry_worlds.deep_view()),
        ),
        scope@.len() > 0 && !enabled ==> final(item).enabled == old(item).enabled && final(item).disabled_worlds.deep_view()
            == add_missing(
            old(item).disabled_worlds.deep_view(),
            scoped_targets(*old(item), scope.deep_view(), entry_worlds.deep_view()),
        ),
{
    if scope.len() == 0 {
        item.enabled = enabled;
        if enabled {
            item.disabled_worlds = Vec::new();
            assert(item.disabled_worlds.deep_view() =~= Seq::<Seq<char>>::empty());
        }
        return;
    }
    let selection = target_worlds(item, entry_worlds);
    let targets = select_worlds_exec(&selection, scope, true);
    if enabled {
        item.enabled = true;
        let kept = strip_worlds(&item.disabled_worlds, &targets);
        item.disabled_worlds = kept;
    } else {
        let mut dw = copy_strings(&item.disabled_worlds);
        append_missing(&mut dw, &targets);
        item.disabled_worlds = dw;
    }
}

proof fn lemma_without_append(a: Seq<Seq<char>>, b: Seq<Seq<char>>, g: Seq<Seq<char>>)
    ensures
        without(a + b, g) == without(a, g) + without(b, g),
    decreases b.len(),
{
    if b.len() == 0 {
        assert(a + b =~= a);
        assert(without(a, g) + without(b, g) =~= without(a, g));
    } else {
        lemma_without_append(a, b.drop_last(), g);
        assert((a + b).drop_last() =~= a + b.drop_last());
        assert((a + b).last() == b.last());
        if g.contains(b.last()) {
        } else {
            assert(without(a, g) + without(b.drop_last(), g).push(b.last()) =~= (without(a, g) + without(
                b.drop_last(),
                g,
            )).push(b.last()));
        }
    }
}

proof fn lemma_without_covered(m: Seq<Seq<char>>, g: Seq<Seq<char>>)
    requires
        forall|i: int| 0 <= i < m.len() ==> g.contains(#[trigger] m[i]),
    ensures
        without(m, g) == Seq::<Seq<char>>::empty(),
    decreases m.len(),
{
    if m.len() > 0 {
        assert(g.contains(m[m.len() - 1]));
        lemma_without_covered(m.drop_last(), g);
    }
}

proof fn lemma_add_missing_extends(d: Seq<Seq<char>>, t: Seq<Seq<char>>) -> (m: Seq<Seq<char>>)
    ensures
        add_missing(d, t) == d + m,
        forall|i: int| 0 <= i < m.len() ==> t.contains(#[trigger] m[i]),
    decreases t.len(),
{
    if t.len() == 0 {
        assert(d + Seq::<Seq<char>>::empty() =~= d);
        Seq::empty()
    } else {
        let m0 = lemma_add_missing_extends(d, t.drop_last());
        assert forall|i: int| 0 <= i < m0.len() implies t.contains(#[trigger] m0[i]) by {
            let w = choose|w: int| 0 <= w < t.drop_last().len() && t.drop_last()[w] == m0[i];
            assert(t[w] == m0[i]);
        }
        if add_missing(d, t.drop_last()).contains(t.last()) {
            m0
        } else {
            let m = m0.push(t.last());
            assert((d + m0).push(t.last()) =~= d + m);
            assert forall|i: int| 0 <= i < m.len() implies t.contains(#[trigger] m[i]) by {
                if i == m0.len() {
                    assert(t[t.len() - 1] == m[i]);
                } else {
                    assert(m[i] == m0[i]);
                }
            }
            m
        }
    }
}

/// Excluding a set of worlds and then lifting the exclusion of the same set
/// leaves the exclusions as they were, less those worlds: whatever the first
/// toggle added, the second takes out again.
pub proof fn lemma_scope_off_then_on(disabled: Seq<Seq<char>>, targets: Seq<Seq<char>>)
    ensures
        without(add_missing(disabled, targets), targets) == without(disabled, targets),
{
    let m = lemma_add_missing_extends(disabled, targets);
    lemma_without_append(disabled, m, targets);
    lemma_without_covered(m, targets);
    assert(without(disabled, targets) + Seq::<Seq<char>>::empty() =~= without(disabled, targets));
}

/// Taking out worlds that were never excluded changes nothing.
pub proof fn lemma_without_absent(disabled: Seq<Seq<char>>, targets: Seq<Seq<char>>)
    requires
        forall|i: int| 0 <= i < disabled.len() ==> !targets.contains(#[trigger] disabled[i]),
    ensures
        without(disabled, targets) == disabled,
    decreases disabled.len(),
{
    if disabled.len() > 0 {
        assert(!targets.contains(disabled[disabled.len() - 1]));
        lemma_without_absent(disabled.drop_last(), targets);
        assert(disabled.drop_last().push(disabled.last()) =~= disabled);
    }
}

/// The previous pack's entries this pack no longer ships: tagged with the
/// previous pack's origin, under a file name the new pack does not keep.
pub open spec fn dropped_of(index: Seq<InstalledContent>, previous: Seq<char>, keeping: Seq<Seq<char>>) -> Seq<InstalledContent>
    decreases index.len(),
{
    if index.len() == 0 {
        Seq::empty()
    } else {
        let rest = dropped_of(index.drop_last(), previous, keeping);
        let e = index.last();
        if e.origin@ == previous && !keeping.contains(e.filename@) {
            rest.push(e)
        } else {
            rest
        }
    }
}

/// The file names of some entries, in order.
pub open spec fn file_names(s: Seq<InstalledContent>) -> Seq<Seq<char>> {
    s.map_values(|i: InstalledContent| i.filename@)
}

/// The entries of `index` whose file name is not among `gone`, in order.
pub open spec fn kept_after(index: Seq<InstalledContent>, gone: Seq<Seq<char>>) -> Seq<InstalledContent>
    decreases index.len(),
{
    if index.len() == 0 {
        Seq::empty()
    } else {
        let rest = kept_after(index.drop_last(), gone);
        if gone.contains(index.last().filename@) {
            rest
        } else {
            rest.push(index.last())
        }
    }
}

/// The index after folding in one pack item tagged with `origin`: the entry
/// it replaces (same kind, and same project or file) taken out and the item
/// appended, keeping the replaced entry's ownership when a person installed
/// it; with the replaced entry when its file, named otherwise, is left
/// behind.
pub open spec fn merge_one(index: Seq<InstalledContent>, item: InstalledContent, origin: String) -> (Seq<InstalledContent>, Option<InstalledContent>) {
    match replaced_at(index, item) {
        Some(p) => (
            index.remove(p).push(
                InstalledContent {
                    origin: if index[p].origin@.len() == 0 {
                        index[p].origin
                    } else {
                        origin
                    },
                    ..item
                },
            ),
            if index[p].filename@ != item.filename@ {
                Some(index[p])
            } else {
                None
            },
        ),
        None => (index.push(InstalledContent { origin, ..item }), None),
    }
}

/// Every pack item folded in, in order, and the replaced entries whose files
/// are left behind, in order.
pub open spec fn merge_all(index: Seq<InstalledContent>, items: Seq<InstalledContent>, origin: String) -> (Seq<InstalledContent>, Seq<InstalledContent>)
    decreases items.len(),
{
    if items.len() == 0 {
        (index, Seq::empty())
    } else {
        let (before, stale) = merge_all(index, items.drop_last(), origin);
        let (after, old) = merge_one(before, items.last(), origin);
        (after, match old {
            Some(o) => stale.push(o),
            None => stale,
        })
    }
}

/// What merging a pack does to an entry's index: without a previous pack,
/// nothing is dropped; with one, its no-longer-shipped entries go (and every
/// entry sharing one of their file names with them), then the items fold in.
pub open spec fn merge_pack_spec(
    index: Seq<InstalledContent>,
    items: Seq<InstalledContent>,
    origin: String,
    previous: Option<Seq<char>>,
    keeping: Seq<Seq<char>>,
) -> (Seq<InstalledContent>, Seq<InstalledContent>) {
    let (start, dropped) = match previous {
        Some(p) => (kept_after(index, file_names(dropped_of(index, p, keeping))), dropped_of(index, p, keeping)),
        None => (index, Seq::empty()),
    };
    let (merged, replaced) = merge_all(start, items, origin);
    (merged, dropped + replaced)
}

proof fn lemma_dropped_name_listed(index: Seq<InstalledContent>, previous: Seq<char>, keeping: Seq<Seq<char>>, i: int)
    requires
        0 <= i < index.len(),
        index[i].origin@ == previous,
        !keeping.contains(index[i].filename@),
    ensures
        file_names(dropped_of(index, previous, keeping)).contains(index[i].filename@),
    decreases index.len(),
{
    let rest = dropped_of(index.drop_last(), previous, keeping);
    if i == index.len() - 1 {
        assert(file_names(dropped_of(index, previous, keeping))[rest.len() as int] == index[i].filename@);
    } else {
        lemma_dropped_name_listed(index.drop_last(), previous, keeping, i);
        let w = choose|w: int| 0 <= w < file_names(rest).len() && file_names(rest)[w] == index[i].filename@;
        assert(file_names(dropped_of(index, previous, keeping))[w] == index[i].filename@);
    }
}

fn holds_name(names: &Vec<String>, name: &String) -> (r: bool)
    ensures
        r == names.deep_view().contains(name@),
{
    contains_string(names, name)
}

/// Fold a pack's items, tagged with its `origin`, into an entry's index. With
/// a `previous` pack's origin, first drop that pack's entries whose file the
/// new pack does not keep (`keeping` lists its files). A person's own copy
/// of an item keeps its untagged ownership. Returned are the new index and the
/// entries whose files are to be removed: the dropped, then the replaced ones
/// named otherwise.
pub fn merge_pack_items(
    index: Vec<InstalledContent>,
    items: Vec<InstalledContent>,
    origin: &String,
    previous: &Option<String>,
    keeping: &Vec<String>,
) -> (r: (Vec<InstalledContent>, Vec<InstalledContent>))
    ensures
        (r.0@, r.1@) == merge_pack_spec(
            index@,
            items@,
            *origin,
            match previous {
                Some(p) => Some(p@),
                None => None,
            },
            keeping.deep_view(),
        ),
{
    let ghost start_index = index@;
    let mut removed: Vec<InstalledContent> = Vec::new();
    let mut index = index;
    match previous {
        Some(prev) => {
            let ghost pv = prev@;
            let ghost keep = keeping.deep_view();
            let mut names: Vec<String> = Vec::new();
            let mut i: usize = 0;
            while i < index.len()
                invariant
                    index@ == start_index,
                    pv == prev@,
                    keep == keeping.deep_view(),
                    i <= index@.len(),
                    names.deep_view() == file_names(dropped_of(index@.take(i as int), pv, keep)),
                decreases index.len() - i,
            {
                assert(index@.take(i + 1).drop_last() =~= index@.take(i as int));
                assert(index@.take(i + 1).last() == index@[i as int]);
                let ghost before = names.deep_view();
                if index[i].origin == *prev && !holds_name(keeping, &index[i].filename) {
                    names.push(index[i].filename.clone());
                    assert(names.deep_view() =~= before.push(index@[i as int].filename@));
                    assert(file_names(dropped_of(index@.take(i + 1), pv, keep)) =~= file_names(
                        dropped_of(index@.take(i as int), pv, keep),
                    ).push(index@[i as int].filename@));
                }
                i += 1;
            }
            assert(index@.take(index@.len() as int) =~= index@);
            let ghost gone = names.deep_view();
            let mut kept: Vec<InstalledContent> = Vec::new();
            let ghost mut done: Seq<InstalledContent> = Seq::empty();
            while index.len() > 0
                invariant
                    done + index@ == start_index,
                    pv == prev@,
                    keep == keeping.deep_view(),
                    gone == names.deep_view(),
                    gone == file_names(dropped_of(start_index, pv, keep)),
                    kept@ == kept_after(done, gone),
                    removed@ == dropped_of(done, pv, keep),
                decreases index@.len(),
            {
                let ghost remaining = index@;
                let e = index.remove(0);
                assert(remaining =~= seq![e] + index@);
                let ghost done_before = done;
                proof {
                    done = done.push(e);
                }
                assert(done.drop_last() =~= done_before);
                assert(done + index@ =~= start_index);
                let criterion = e.origin == *prev && !holds_name(keeping, &e.filename);
                let listed = holds_name(&names, &e.filename);
                proof {
                    if criterion {
                        assert(start_index[done.len() - 1] == e);
                        lemma_dropped_name_listed(start_index, pv, keep, done.len() - 1);
                    }
                }
                if criterion {
                    removed.push(e);
                } else if !listed {
                    kept.push(e);
                }
            }
            assert(done =~= start_index);
            index = kept;
        },
        None => {},
    }
    let ghost start = index@;
    let ghost dropped = removed@;
    let ghost all = items@;
    let mut items = items;
    let mut stale: Vec<InstalledContent> = Vec::new();
    let ghost mut done: Seq<InstalledContent> = Seq::empty();
    while items.len() > 0
        invariant
            done + items@ == all,
            (index@, stale@) == merge_all(start, done, *origin),
        decreases items@.len(),
    {
        let ghost remaining = items@;
        let item = items.remove(0);
        assert(remaining =~= seq![item] + items@);
        let ghost before = index@;
        let ghost raw = item;
        let mut item = item;
        match find_replaced(&index, &item) {
            Some(p) => {
                let old = index.remove(p);
                if old.origin.as_str().is_empty() {
                    item.origin = old.origin.clone();
                } else {
                    item.origin = origin.clone();
                }
                if old.filename != item.filename {
                    stale.push(old);
                }
            },
            None => {
                item.origin = origin.clone();
            },
        }
        index.push(item);
        let ghost done_before = done;
        proof {
            done = done.push(raw);
        }
        assert(done.drop_last() =~= done_before);
        assert(done + items@ =~= all);
        assert(merge_one(before, raw, *origin).0 =~= index@);
    }
    assert(done =~= all);
    let mut all_removed = removed;
    all_removed.append(&mut stale);
    (index, all_removed)
}

/// The entries of `index` tagged with `origin` (`true`) or not (`false`), in
/// order.
pub open spec fn with_origin(index: Seq<InstalledContent>, origin: Seq<char>, tagged: bool) -> Seq<InstalledContent>
    decreases index.len(),
{
    if index.len() == 0 {
        Seq::empty()
    } else {
        let rest = with_origin(index.drop_last(), origin, tagged);
        if (index.last().origin@ == origin) == tagged {
            rest.push(index.last())
        } else {
            rest
        }
    }
}

/// Take a pack out of an entry's index: the entries it installed (tagged
/// with its `origin`) leave, everything else stays in order. Returned are the
/// index that stays and the entries whose files go.
pub fn split_by_origin(index: Vec<InstalledContent>, origin: &String) -> (r: (Vec<InstalledContent>, Vec<InstalledContent>))
    ensures
        r.0@ == with_origin(index@, origin@, false),
        r.1@ == with_origin(index@, origin@, true),
{
    let ghost all = index@;
    let mut index = index;
    let mut kept: Vec<InstalledContent> = Vec::new();
    let mut dropped: Vec<InstalledContent> = Vec::new();
    let ghost mut done: Seq<InstalledContent> = Seq::empty();
    while index.len() > 0
        invariant
            done + index@ == all,
            kept@ == with_origin(done, origin@, false),
            dropped@ == with_origin(done, origin@, true),
        decreases index@.len(),
    {
        let ghost remaining = index@;
        let e = index.remove(0);
        assert(remaining =~= seq![e] + index@);
        let ghost before = done;
        proof {
            done = done.push(e);
        }
        assert(done.drop_last() =~= before);
        assert(done + index@ =~= all);
        if e.origin == *origin {
            dropped.push(e);
        } else {
            kept.push(e);
        }
    }
    assert(done =~= all);
    (kept, dropped)
}

/// The projects an entry already has, in index order: the dependency walk
/// of a batch treats them as visited, so a dependency already installed is
/// not fetched again.
pub open spec fn installed_projects(index: Seq<InstalledContent>) -> Seq<Seq<char>>
    decreases index.len(),
{
    if index.len() == 0 {
        Seq::empty()
    } else {
        let rest = installed_projects(index.drop_last());
        if index.last().project_id@.len() > 0 {
            rest.push(index.last().project_id@)
        } else {
            rest
        }
    }
}

/// The projects an entry already has.
pub fn visited_from_index(index: &Vec<InstalledContent>) -> (r: Vec<String>)
    ensures
        r.deep_view() == installed_projects(index@),
{
    let mut out: Vec<String> = Vec::new();
    let mut i: usize = 0;
    while i < index.len()
        invariant
            i <= index@.len(),
            out.deep_view() == installed_projects(index@.take(i as int)),
        decreases index.len() - i,
    {
        assert(index@.take(i + 1).drop_last() =~= index@.take(i as int));
        assert(index@.take(i + 1).last() == index@[i as int]);
        let ghost before = out.deep_view();
        if !index[i].project_id.as_str().is_empty() {
            out.push(index[i].project_id.clone());
            assert(out.deep_view() =~= before.push(index@[i as int].project_id@));
        }
        i += 1;
    }
    assert(index@.take(index@.len() as int) =~= index@);
    out
}

/// Queue a root project of a batch: an explicitly named root installs even
/// when the entry already has it (a reinstall or re-pin), and only a
/// duplicate within the batch collapses. A queued root also counts as
/// visited for the dependency walk. Whether it was queued is returned.
pub fn enqueue_root(queued: &mut Vec<String>, visited: &mut Vec<String>, project: &String) -> (r: bool)
    ensures
        r == !old(queued).deep_view().contains(project@),
        r ==> final(queued).deep_view() == old(queued).deep_view().push(project@),
        !r ==> final(queued).deep_view() == old(queued).deep_view(),
        r ==> final(visited).deep_view() == (if old(visited).deep_view().contains(project@) {
            old(visited).deep_view()
        } else {
            old(visited).deep_view().push(project@)
        }),
        !r ==> final(visited).deep_view() == old(visited).deep_view(),
{
    if contains_string(queued, project) {
        return false;
    }
    let ghost before = queued.deep_view();
    queued.push(project.clone());
    assert(queued.deep_view() =~= before.push(project@));
    push_unique(visited, project.clone());
    true
}

/// Why a batch install is refused before any of its items is looked at.
#[derive(Debug, Clone)]
pub enum AddRefusal {
    /// The entry cannot load this kind (vanilla takes no mods, say); it
    /// carries what the entry does accept.
    KindRejected(Vec<ContentKind>),
    /// The batch names no item.
    NothingToDo,
}

/// Whether a batch of `items` items of `kind` may start on an entry of this
/// side whose flavor loads `loads`: refused when the entry does not accept
/// the kind, else when there is nothing to install.
pub fn admit_add(side: Side, loads: Loads, kind: ContentKind, items: usize) -> (r: Result<(), AddRefusal>)
    ensures
        !accepted_kinds_spec(side, loads).contains(kind) ==> (r matches Err(AddRefusal::KindRejected(a)) && a@
            == accepted_kinds_spec(side, loads)),
        accepted_kinds_spec(side, loads).contains(kind) && items == 0 ==> r matches Err(AddRefusal::NothingToDo),
        accepted_kinds_spec(side, loads).contains(kind) && items > 0 ==> r is Ok,
{
    let accepts = accepted_kinds(side, loads);
    let mut i: usize = 0;
    let mut found = false;
    while i < accepts.len()
        invariant
            accepts@ == accepted_kinds_spec(side, loads),
            i <= accepts@.len(),
            found <==> exists|k: int| 0 <= k < i && accepts@[k] == kind,
        decreases accepts.len() - i,
    {
        if accepts[i] == kind {
            found = true;
        }
        i += 1;
    }
    if !found {
        assert(!accepts@.contains(kind));
        return Err(AddRefusal::KindRejected(accepts));
    }
    if items == 0 {
        return Err(AddRefusal::NothingToDo);
    }
    Ok(())
}

/// Whether an installed item answers to `reference`: by its project id,
/// slug, filename or title.
pub open spec fn names_item(item: InstalledContent, reference: Seq<char>) -> bool {
    item.project_id@ == reference || item.slug@ == reference || item.filename@ == reference || item.title@ == reference
}

/// Whether an update of `kind` for `reference` takes this item: one of the
/// kind, and, when a reference is given, answering to it.
pub open spec fn is_update_target(item: InstalledContent, kind: ContentKind, reference: Seq<char>) -> bool {
    item.kind == kind && (reference.len() == 0 || names_item(item, reference))
}

/// The positions of the update targets among the first `n` index entries,
/// in index order.
pub open spec fn update_targets_spec(index: Seq<InstalledContent>, kind: ContentKind, reference: Seq<char>, n: nat) -> Seq<usize>
    decreases n,
{
    if n == 0 {
        Seq::empty()
    } else {
        let prev = update_targets_spec(index, kind, reference, (n - 1) as nat);
        if is_update_target(index[n - 1], kind, reference) {
            prev.push((n - 1) as usize)
        } else {
            prev
        }
    }
}

/// Whether an installed item came from a platform project, so that a newer
/// version of it can be looked up.
pub open spec fn linked(item: InstalledContent) -> bool {
    item.project_id@.len() > 0
}

/// Why an update does not start.
#[derive(Debug, Clone, PartialEq, Eq)]
pub enum UpdateRefusal {
    /// No reference was given and nothing of the kind is installed.
    NothingInstalled,
    /// Nothing of the kind answers to the reference.
    NotFound(String),
    /// The reference names an item installed from a file or URL, which has
    /// no project to update from: its filename and source.
    CannotUpdate(String, String),
}

/// What an update does once its targets are known: the items it moves, in
/// order, and the refusal it ends with when the reference names an item
/// that cannot be updated.
#[derive(Debug, Clone, PartialEq, Eq)]
pub struct UpdatePlan {
    /// Index positions of the items to move, in index order.
    pub moves: Vec<usize>,
    /// The refusal the update fails with once the moves before it are made.
    pub refusal: Option<UpdateRefusal>,
}

/// The plan of an update for `reference` (empty for all), taking the kind's
/// targets in index order. Refused outright when there is no target. An
/// update of everything moves each linked target and passes the others
/// over; a named update moves the linked targets up to the first one with
/// no project, and then fails with that one.
pub fn update_targets(index: &Vec<InstalledContent>, kind: ContentKind, reference: &str) -> (r: Result<UpdatePlan, UpdateRefusal>)
    ensures
        ({
            let t = update_targets_spec(index@, kind, reference@, index@.len());
            &&& t.len() == 0 && reference@.len() == 0 ==> r == Err::<UpdatePlan, UpdateRefusal>(UpdateRefusal::NothingInstalled)
            &&& t.len() == 0 && reference@.len() > 0 ==> (r matches Err(UpdateRefusal::NotFound(x)) && x@ == reference@)
            &&& t.len() > 0 && reference@.len() > 0 && (exists|k: int| 0 <= k < t.len() && !linked(#[trigger] index@[t[k] as int]))
                ==> (r matches Ok(plan) && plan.refusal matches Some(UpdateRefusal::CannotUpdate(f, src)) && exists|k: int|
                0 <= k < t.len() && !linked(#[trigger] index@[t[k] as int]) && f@ == index@[t[k] as int].filename@
                    && src@ == index@[t[k] as int].source@ && plan.moves@ == t.take(k)
                    && forall|j: int| 0 <= j < k ==> linked(#[trigger] index@[t[j] as int]))
            &&& t.len() > 0 && (reference@.len() == 0 || forall|k: int| 0 <= k < t.len() ==> linked(#[trigger] index@[t[k] as int]))
                ==> (r matches Ok(plan) && plan.refusal is None && plan.moves@ == t.filter(|p: usize| linked(index@[p as int])))
        }),
{
    let empty_ref = reference.is_empty();
    let mut targets: Vec<usize> = Vec::new();
    let mut i: usize = 0;
    while i < index.len()
        invariant
            i <= index@.len(),
            empty_ref == (reference@.len() == 0),
            targets@ == update_targets_spec(index@, kind, reference@, i as nat),
            forall|k: int| 0 <= k < targets@.len() ==> #[trigger] targets@[k] < i,
        decreases index.len() - i,
    {
        let item = &index[i];
        let hit = item.kind == kind && (empty_ref || str_eq(item.project_id.as_str(), reference) || str_eq(
            item.slug.as_str(),
            reference,
        ) || str_eq(item.filename.as_str(), reference) || str_eq(item.title.as_str(), reference));
        if hit {
            targets.push(i);
        }
        i += 1;
    }
    let ghost t = targets@;
    if targets.len() == 0 {
        if empty_ref {
            return Err(UpdateRefusal::NothingInstalled);
        } else {
            return Err(UpdateRefusal::NotFound(String::from_str(reference)));
        }
    }
    let mut out: Vec<usize> = Vec::new();
    let mut k: usize = 0;
    while k < targets.len()
        invariant
            t == targets@,
            t == update_targets_spec(index@, kind, reference@, index@.len()),
            forall|j: int| 0 <= j < t.len() ==> #[trigger] t[j] < index@.len(),
            empty_ref == (reference@.len() == 0),
            k <= t.len(),
            out@ == t.take(k as int).filter(|p: usize| linked(index@[p as int])),
            !empty_ref ==> out@ == t.take(k as int),
            !empty_ref ==> forall|j: int| 0 <= j < k ==> linked(#[trigger] index@[t[j] as int]),
        decreases targets.len() - k,
    {
        let p = targets[k];
        let item = &index[p];
        assert(t.take(k + 1).drop_last() =~= t.take(k as int));
        assert(t.take(k + 1).last() == t[k as int]);
        proof {
            reveal(Seq::filter);
        }
        if item.project_id.as_str().is_empty() {
            if !empty_ref {
                let refusal = UpdateRefusal::CannotUpdate(item.filename.clone(), item.source.clone());
                return Ok(UpdatePlan { moves: out, refusal: Some(refusal) });
            }
        } else {
            let ghost before = out@;
            out.push(p);
            assert(out@ =~= before.push(p));
        }
        k += 1;
    }
    assert(t.take(t.len() as int) =~= t);
    Ok(UpdatePlan { moves: out, refusal: None })
}

/// Whether an item whose installed version is `installed` moves to the
/// picked version: only when the picked one differs.
pub fn needs_update(installed: &InstalledContent, picked: &str) -> (r: bool)
    ensures
        r == (installed.version_id@ != picked@),
{
    !str_eq(installed.version_id.as_str(), picked)
}

/// Among the first `n` entries, the first one `item` replaces, when one does.
proof fn lemma_first_replaced(index: Seq<InstalledContent>, item: InstalledContent, n: int) -> (p: int)
    requires
        0 <= n <= index.len(),
        exists|q: int| 0 <= q < n && replaces(#[trigger] index[q], item),
    ensures
        0 <= p < n,
        replaces(index[p], item),
        forall|m: int| 0 <= m < p ==> !replaces(#[trigger] index[m], item),
    decreases n,
{
    if exists|q: int| 0 <= q < n - 1 && replaces(#[trigger] index[q], item) {
        lemma_first_replaced(index, item, n - 1)
    } else {
        n - 1
    }
}

/// Every entry a batch leaves for removal was replaced by an item of the
/// batch under another file name: a reinstalled file is never handed back
/// for deletion.
pub proof fn lemma_removed_files_are_named_otherwise(index: Seq<InstalledContent>, items: Seq<InstalledContent>)
    ensures
        forall|i: int|
            0 <= i < record_all(index, items).1.len() ==> exists|k: int|
                0 <= k < items.len() && replaces(#[trigger] record_all(index, items).1[i], items[k])
                    && record_all(index, items).1[i].filename@ != items[k].filename@,
    decreases items.len(),
{
    if items.len() > 0 {
        let init = items.drop_last();
        lemma_removed_files_are_named_otherwise(index, init);
        let (before, stale) = record_all(index, init);
        let last = items.last();
        let out = record_all(index, items).1;
        assert forall|i: int| 0 <= i < out.len() implies exists|k: int|
            0 <= k < items.len() && replaces(#[trigger] out[i], items[k]) && out[i].filename@ != items[k].filename@ by {
            if i < stale.len() {
                assert(out[i] == stale[i]);
                let k = choose|k: int|
                    0 <= k < init.len() && replaces(#[trigger] stale[i], init[k]) && stale[i].filename@ != init[k].filename@;
                assert(init[k] == items[k]);
                assert(replaces(out[i], items[k]) && out[i].filename@ != items[k].filename@);
            } else {
                if replaced_at(before, last) is None {
                    assert(record_one(before, last).1 is None);
                    assert(out == stale);
                    assert(false);
                }
                lemma_first_replaced(before, last, before.len() as int);
                let p = replaced_at(before, last)->0;
                let w = choose|q: int|
                    0 <= q < before.len() && replaces(#[trigger] before[q], last) && forall|m: int|
                        0 <= m < q ==> !replaces(#[trigger] before[m], last);
                assert(p == w);
                assert(replaces(before[p], last));
                assert(record_one(before, last).1 == Some(before[p]));
                assert(before[p].filename@ != last.filename@);
                assert(out[i] == before[p]);
                assert(items[items.len() - 1] == last);
                assert(replaces(out[i], items[items.len() - 1]) && out[i].filename@ != items[items.len() - 1].filename@);
            }
        }
    }
}

} // verus!
