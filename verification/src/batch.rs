//! The bookkeeping of a content batch: which platform projects enter the
//! install queue, in which order they are taken, which dependencies each
//! pick brings along, and what its progress reports count. Every fetch and
//! install is the caller's; each step here is a decision on their outcome.

use vstd::prelude::*;

use crate::installed::{
    deps_walk, installed_projects, kind_matches, kind_matches_spec, required_dependencies,
    visited_from_index, Dependency, InstalledContent,
};
use crate::launch::contains_string;
use crate::provider::ContentKind;

verus! {

/// A project waiting in the queue: the selector it came from (for failure
/// reports), the source serving it, the version pin, and the project id.
#[derive(Debug, Clone)]
pub struct Node {
    pub given: String,
    pub source: String,
    pub pin: String,
    pub project: String,
}

/// What became of a root of the batch.
#[derive(Debug, Clone, Copy, PartialEq, Eq, Structural)]
pub enum RootVerdict {
    /// Queued for install.
    Queued,
    /// Named twice in the batch: the first stands.
    Duplicate,
    /// The fetched project is not of the requested kind.
    KindMismatch,
    /// The platform marks the project unsupported on the entry's side.
    SideRefused,
}

/// Whether a sequence holds no item twice.
pub open spec fn no_repeats(s: Seq<Seq<char>>) -> bool {
    forall|i: int, j: int| 0 <= i < j < s.len() ==> s[i] != s[j]
}

/// A batch in progress.
#[derive(Debug, Clone)]
pub struct AddBatch {
    /// Projects the dependency walk treats as present.
    visited: Vec<String>,
    /// Every project ever queued, in order.
    admitted: Vec<String>,
    queue: Vec<Node>,
    finished: u64,
}

impl AddBatch {
    /// The projects queued so far, in the order they entered.
    pub closed spec fn admitted_spec(&self) -> Seq<Seq<char>> {
        self.admitted.deep_view()
    }

    /// The projects the dependency walk treats as present.
    pub closed spec fn visited_spec(&self) -> Seq<Seq<char>> {
        self.visited.deep_view()
    }

    /// The nodes waiting, oldest first.
    pub closed spec fn queue_spec(&self) -> Seq<Node> {
        self.queue@
    }

    /// How many nodes have been worked off.
    pub closed spec fn finished_spec(&self) -> u64 {
        self.finished
    }

    /// No project is queued twice in a batch, and every queued one counts as
    /// visited, so no dependency brings it again.
    pub closed spec fn wf(&self) -> bool {
        &&& no_repeats(self.admitted.deep_view())
        &&& forall|x: Seq<char>| #[trigger] self.admitted.deep_view().contains(x) ==> self.visited.deep_view().contains(x)
    }

    /// A batch over an entry whose index is `index`: what the entry already
    /// has counts as visited, nothing is queued.
    pub fn new(index: &Vec<InstalledContent>) -> (r: AddBatch)
        ensures
            r.wf(),
            r.visited_spec() == installed_projects(index@),
            r.admitted_spec().len() == 0,
            r.queue_spec().len() == 0,
            r.finished_spec() == 0,
    {
        AddBatch { visited: visited_from_index(index), admitted: Vec::new(), queue: Vec::new(), finished: 0 }
    }

    fn enqueue(&mut self, node: Node) -> (r: bool)
        requires
            old(self).wf(),
        ensures
            final(self).wf(),
            r == !old(self).admitted_spec().contains(node.project@),
            r ==> final(self).admitted_spec() == old(self).admitted_spec().push(node.project@),
            r ==> final(self).queue_spec() == old(self).queue_spec().push(node),
            r ==> final(self).visited_spec() == (if old(self).visited_spec().contains(node.project@) {
                old(self).visited_spec()
            } else {
                old(self).visited_spec().push(node.project@)
            }),
            !r ==> *final(self) == *old(self),
            final(self).finished_spec() == old(self).finished_spec(),
    {
        if contains_string(&self.admitted, &node.project) {
            return false;
        }
        let ghost a0 = self.admitted.deep_view();
        let ghost v0 = self.visited.deep_view();
        let p = node.project.clone();
        self.admitted.push(p);
        assert(self.admitted.deep_view() =~= a0.push(node.project@));
        crate::launch::push_unique(&mut self.visited, node.project.clone());
        self.queue.push(node);
        proof {
            let a = self.admitted.deep_view();
            let v = self.visited.deep_view();
            assert forall|i: int, j: int| 0 <= i < j < a.len() implies a[i] != a[j] by {
                if j == a.len() - 1 {
                    assert(a0.contains(a[i]) || a[i] != node.project@) by {
                        assert(a[i] == a0[i]);
                    }
                } else {
                    assert(a[i] == a0[i] && a[j] == a0[j]);
                }
            }
            assert forall|x: Seq<char>| #[trigger] a.contains(x) implies v.contains(x) by {
                let w = choose|w: int| 0 <= w < a.len() && a[w] == x;
                if w < a0.len() {
                    assert(a0[w] == x);
                    assert(a0.contains(x));
                    assert(v0.contains(x));
                    let u = choose|u: int| 0 <= u < v0.len() && v0[u] == x;
                    assert(v[u] == x);
                } else {
                    if v0.contains(x) {
                        let u = choose|u: int| 0 <= u < v0.len() && v0[u] == x;
                        assert(v[u] == x);
                    } else {
                        assert(v[v0.len() as int] == x);
                    }
                }
            }
        }
        true
    }

    /// Admit a root the batch names, once its project is fetched: a project
    /// of another kind, or one unsupported on the entry's side, is refused;
    /// a second mention of a queued project collapses; otherwise it queues,
    /// even when the entry already has it (a reinstall or re-pin).
    pub fn admit_root(&mut self, node: Node, requested: ContentKind, project_kind: ContentKind, side_ok: bool) -> (r: RootVerdict)
        requires
            old(self).wf(),
        ensures
            final(self).wf(),
            !kind_matches_spec(requested, project_kind) ==> r == RootVerdict::KindMismatch && *final(self) == *old(self),
            kind_matches_spec(requested, project_kind) && !side_ok ==> r == RootVerdict::SideRefused && *final(self) == *old(self),
            kind_matches_spec(requested, project_kind) && side_ok && old(self).admitted_spec().contains(node.project@) ==> r
                == RootVerdict::Duplicate && *final(self) == *old(self),
            kind_matches_spec(requested, project_kind) && side_ok && !old(self).admitted_spec().contains(node.project@) ==> r
                == RootVerdict::Queued && final(self).queue_spec() == old(self).queue_spec().push(node)
                && final(self).admitted_spec() == old(self).admitted_spec().push(node.project@),
    {
        if !kind_matches(requested, project_kind) {
            return RootVerdict::KindMismatch;
        }
        if !side_ok {
            return RootVerdict::SideRefused;
        }
        if self.enqueue(node) {
            RootVerdict::Queued
        } else {
            RootVerdict::Duplicate
        }
    }

    /// The next node to work on: the most recently queued.
    pub fn next(&mut self) -> (r: Option<Node>)
        requires
            old(self).wf(),
        ensures
            final(self).wf(),
            old(self).queue_spec().len() == 0 ==> r is None && final(self).queue_spec() == old(self).queue_spec(),
            old(self).queue_spec().len() > 0 ==> r == Some(old(self).queue_spec().last()) && final(self).queue_spec()
                == old(self).queue_spec().drop_last(),
            final(self).admitted_spec() == old(self).admitted_spec(),
            final(self).visited_spec() == old(self).visited_spec(),
            final(self).finished_spec() == old(self).finished_spec(),
    {
        let r = self.queue.pop();
        proof {
            if old(self).queue@.len() > 0 {
                assert(self.queue@ =~= old(self).queue@.drop_last());
            }
        }
        r
    }

    /// The dependencies a picked version of a `kind` project brings: for a
    /// mod, its required ones the batch has not visited, each once, in
    /// order, now counted as visited; nothing for any other kind.
    pub fn dependencies(&mut self, kind: ContentKind, deps: &Vec<Dependency>) -> (r: Vec<String>)
        requires
            old(self).wf(),
        ensures
            final(self).wf(),
            kind != ContentKind::Mod ==> r@.len() == 0 && *final(self) == *old(self),
            kind == ContentKind::Mod ==> r.deep_view() == deps_walk(deps@, old(self).visited_spec())
                && final(self).visited_spec() == old(self).visited_spec() + r.deep_view(),
            final(self).admitted_spec() == old(self).admitted_spec(),
            final(self).queue_spec() == old(self).queue_spec(),
            final(self).finished_spec() == old(self).finished_spec(),
    {
        if kind != ContentKind::Mod {
            return Vec::new();
        }
        let ghost v0 = self.visited.deep_view();
        let r = required_dependencies(deps, &mut self.visited);
        proof {
            let v = self.visited.deep_view();
            assert forall|x: Seq<char>| #[trigger] self.admitted.deep_view().contains(x) implies v.contains(x) by {
                assert(v0.contains(x));
                let u = choose|u: int| 0 <= u < v0.len() && v0[u] == x;
                assert(v[u] == x);
            }
        }
        r
    }

    /// Queue a fetched dependency, unless the platform marks it unsupported
    /// on the entry's side (then it is skipped) or it is queued already.
    /// Whether it was queued is returned.
    pub fn admit_dependency(&mut self, node: Node, side_ok: bool) -> (r: bool)
        requires
            old(self).wf(),
        ensures
            final(self).wf(),
            r == (side_ok && !old(self).admitted_spec().contains(node.project@)),
            r ==> final(self).queue_spec() == old(self).queue_spec().push(node) && final(self).admitted_spec()
                == old(self).admitted_spec().push(node.project@),
            !r ==> *final(self) == *old(self),
    {
        if !side_ok {
            return false;
        }
        self.enqueue(node)
    }

    /// What the progress of the node being worked on reports: its number in
    /// the batch, and how many the batch is known to hold so far (the queue
    /// grows as dependencies are found).
    pub fn progress(&self) -> (r: (u64, u64))
        requires
            self.finished_spec() + 1 + self.queue_spec().len() <= u64::MAX,
        ensures
            r.0 == self.finished_spec() + 1,
            r.1 == self.finished_spec() + 1 + self.queue_spec().len(),
    {
        let item = self.finished + 1;
        (item, item + self.queue.len() as u64)
    }

    /// One node worked off, installed or failed.
    pub fn finish(&mut self)
        requires
            old(self).wf(),
            old(self).finished_spec() < u64::MAX,
        ensures
            final(self).wf(),
            final(self).finished_spec() == old(self).finished_spec() + 1,
            final(self).admitted_spec() == old(self).admitted_spec(),
            final(self).queue_spec() == old(self).queue_spec(),
            final(self).visited_spec() == old(self).visited_spec(),
    {
        self.finished = self.finished + 1;
    }
}

/// Within a batch no project is queued twice, and a queued project is never
/// brought again as a dependency: a dependency shared across the batch
/// installs once.
pub proof fn lemma_queued_once(b: AddBatch)
    requires
        b.wf(),
    ensures
        no_repeats(b.admitted_spec()),
        forall|x: Seq<char>| #[trigger] b.admitted_spec().contains(x) ==> b.visited_spec().contains(x),
        forall|x: Seq<char>, d: Seq<Dependency>|
            b.admitted_spec().contains(x) ==> !#[trigger] deps_walk(d, b.visited_spec()).contains(x),
{
    assert forall|x: Seq<char>, d: Seq<Dependency>|
        b.admitted_spec().contains(x) implies !#[trigger] deps_walk(d, b.visited_spec()).contains(x) by {
        lemma_walk_skips_visited(d, b.visited_spec(), x);
    }
}

/// A walk never brings back a project its `visited` already holds.
pub proof fn lemma_walk_skips_visited(deps: Seq<Dependency>, visited: Seq<Seq<char>>, x: Seq<char>)
    requires
        visited.contains(x),
    ensures
        !deps_walk(deps, visited).contains(x),
    decreases deps.len(),
{
    if deps.len() > 0 {
        lemma_walk_skips_visited(deps.drop_last(), visited, x);
        let r = deps_walk(deps.drop_last(), visited);
        let d = deps.last();
        if d.required && d.project_id@.len() > 0 && !(visited + r).contains(d.project_id@) {
            let w = choose|w: int| 0 <= w < visited.len() && visited[w] == x;
            assert((visited + r)[w] == x);
            assert(r.push(d.project_id@) =~= deps_walk(deps, visited));
            if deps_walk(deps, visited).contains(x) {
                let v = choose|v: int| 0 <= v < deps_walk(deps, visited).len() && deps_walk(deps, visited)[v] == x;
                if v < r.len() {
                    assert(r[v] == x);
                }
            }
        }
    }
}

} // verus!
