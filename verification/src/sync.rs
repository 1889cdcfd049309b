//! Which instance seeds a shared unit when the user names none, when a
//! session's exit replays its sync pass, and which installed packs are the
//! player's own to share. The files are the caller's.

use vstd::prelude::*;

use crate::installed::InstalledContent;
use crate::provider::ContentKind;

verus! {

/// The positions of the `true`s of `present`, in order.
pub open spec fn present_at(present: Seq<bool>) -> Seq<int>
    decreases present.len(),
{
    if present.len() == 0 {
        Seq::empty()
    } else {
        let rest = present_at(present.drop_last());
        if present.last() {
            rest.push(present.len() - 1)
        } else {
            rest
        }
    }
}

proof fn lemma_present_at_bounded(present: Seq<bool>)
    ensures
        forall|k: int| 0 <= k < present_at(present).len() ==> 0 <= #[trigger] present_at(present)[k] < present.len(),
    decreases present.len(),
{
    if present.len() > 0 {
        let rest = present_at(present.drop_last());
        lemma_present_at_bounded(present.drop_last());
        assert forall|k: int| 0 <= k < present_at(present).len() implies 0 <= #[trigger] present_at(present)[k] < present.len() by {
            if k < rest.len() {
                assert(present_at(present)[k] == rest[k]);
            }
        }
    }
}

/// The instance a unit is seeded from when none is named: the one instance
/// that has the unit's files, none when no instance has them, and a refusal
/// listing the names of every instance that has them when several do, so
/// the user picks.
pub fn only_candidate(present: &Vec<bool>, names: &Vec<String>) -> (r: Result<Option<usize>, Vec<String>>)
    requires
        present@.len() == names@.len(),
    ensures
        ({
            let c = present_at(present@);
            &&& c.len() == 0 ==> r == Ok::<Option<usize>, Vec<String>>(None)
            &&& c.len() == 1 ==> (r matches Ok(Some(i)) && i == c[0])
            &&& c.len() > 1 ==> (r matches Err(listed) && listed.deep_view() == c.map_values(|i: int| names@[i]@))
        }),
{
    let ghost all = present@;
    let mut found: Vec<usize> = Vec::new();
    let mut i: usize = 0;
    while i < present.len()
        invariant
            all == present@,
            i <= all.len(),
            found@.map_values(|x: usize| x as int) == present_at(all.take(i as int)),
        decreases present.len() - i,
    {
        assert(all.take(i + 1).drop_last() =~= all.take(i as int));
        assert(all.take(i + 1).last() == all[i as int]);
        let ghost before = found@;
        if present[i] {
            found.push(i);
            assert(found@.map_values(|x: usize| x as int) =~= before.map_values(|x: usize| x as int).push(i as int));
        }
        i += 1;
    }
    assert(all.take(all.len() as int) =~= all);
    let ghost c = present_at(all);
    proof {
        lemma_present_at_bounded(all);
    }
    assert(found@.len() == c.len());
    if found.len() == 0 {
        return Ok(None);
    }
    if found.len() == 1 {
        assert(found@.map_values(|x: usize| x as int)[0] == c[0]);
        return Ok(Some(found[0]));
    }
    let mut listed: Vec<String> = Vec::new();
    let mut k: usize = 0;
    while k < found.len()
        invariant
            found@.map_values(|x: usize| x as int) == c,
            forall|q: int| 0 <= q < c.len() ==> 0 <= #[trigger] c[q] < names@.len(),
            names@.len() == all.len(),
            k <= found@.len(),
            listed.deep_view() == c.take(k as int).map_values(|i: int| names@[i]@),
        decreases found.len() - k,
    {
        let ghost before = listed.deep_view();
        assert(found@.map_values(|x: usize| x as int)[k as int] == c[k as int]);
        let at = found[k];
        assert(at < names@.len());
        listed.push(names[at].clone());
        assert(c.take(k + 1) =~= c.take(k as int).push(c[k as int]));
        assert(listed.deep_view() =~= before.push(names@[c[k as int]]@));
        assert(listed.deep_view() =~= c.take(k + 1).map_values(|i: int| names@[i]@));
        k += 1;
    }
    assert(c.take(c.len() as int) =~= c);
    Err(listed)
}

/// Whether a session's exit replays its sync pass: only when it is the last
/// of its instance to leave, since the others still hold the same files open.
pub fn replay_at_exit(running_sessions: usize) -> (r: bool)
    ensures
        r == (running_sessions == 0),
{
    running_sessions == 0
}

/// A pack of the shared library.
#[derive(Debug, Clone)]
pub struct Pack {
    pub kind: ContentKind,
    pub source: String,
    pub project: String,
    pub title: String,
    pub filename: String,
    pub enabled: bool,
}

/// The library entry an installed item makes.
pub open spec fn pack_of(item: InstalledContent) -> Pack {
    Pack {
        kind: item.kind,
        source: item.source,
        project: item.project_id,
        title: item.title,
        filename: item.filename,
        enabled: item.enabled,
    }
}

/// The player's own packs among `installed`, in order: content a modpack or
/// profile supplied (it has an origin) belongs to that, not to the library.
pub open spec fn players_packs_spec(installed: Seq<InstalledContent>) -> Seq<Pack>
    decreases installed.len(),
{
    if installed.len() == 0 {
        Seq::empty()
    } else {
        let rest = players_packs_spec(installed.drop_last());
        if installed.last().origin@.len() == 0 {
            rest.push(pack_of(installed.last()))
        } else {
            rest
        }
    }
}

/// The player's own packs among `installed`, as library entries.
pub fn players_packs(installed: &Vec<InstalledContent>) -> (r: Vec<Pack>)
    ensures
        r@ == players_packs_spec(installed@),
{
    let mut out: Vec<Pack> = Vec::new();
    let mut i: usize = 0;
    while i < installed.len()
        invariant
            i <= installed@.len(),
            out@ == players_packs_spec(installed@.take(i as int)),
        decreases installed.len() - i,
    {
        assert(installed@.take(i + 1).drop_last() =~= installed@.take(i as int));
        assert(installed@.take(i + 1).last() == installed@[i as int]);
        let item = &installed[i];
        if item.origin.as_str().is_empty() {
            out.push(
                Pack {
                    kind: item.kind,
                    source: item.source.clone(),
                    project: item.project_id.clone(),
                    title: item.title.clone(),
                    filename: item.filename.clone(),
                    enabled: item.enabled,
                },
            );
        }
        i += 1;
    }
    assert(installed@.take(installed@.len() as int) =~= installed@);
    out
}

/// How a pack is named to the content flows: by its project, or by its file
/// when it has none.
pub fn selector(pack: &Pack) -> (r: String)
    ensures
        r@ == (if pack.project@.len() == 0 {
            pack.filename@
        } else {
            pack.project@
        }),
{
    if pack.project.as_str().is_empty() {
        pack.filename.clone()
    } else {
        pack.project.clone()
    }
}

/// Whether the library installs a missing pack of `kind` into an instance:
/// not a datapack, which loads from inside a world the player picks, so the
/// library carries it but no install follows.
pub fn installs_into_instance(kind: ContentKind) -> (r: bool)
    ensures
        r == (kind != ContentKind::DataPack),
{
    kind != ContentKind::DataPack
}

} // verus!
