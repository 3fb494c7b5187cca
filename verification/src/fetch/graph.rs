//! The commit graph and the question whether one commit descends from another.

use vstd::prelude::*;
use crate::bytes::views;
use crate::hash::ObjectId;

verus! {

/// A commit with the identifiers of its parents.
#[derive(Debug, Clone, PartialEq, Eq)]
pub struct Commit {
    pub id: ObjectId,
    pub parents: Vec<ObjectId>,
}

/// The model of a `Commit`.
pub struct CommitView {
    pub id: Seq<u8>,
    pub parents: Seq<Seq<u8>>,
}

impl View for Commit {
    type V = CommitView;

    open spec fn view(&self) -> CommitView {
        CommitView { id: self.id@, parents: views(self.parents@) }
    }
}

/// The commits known to the repository. A commit that is not listed has no
/// known parents.
#[derive(Debug, Clone, PartialEq, Eq)]
pub struct ObjectGraph {
    pub commits: Vec<Commit>,
}

impl View for ObjectGraph {
    type V = Seq<CommitView>;

    open spec fn view(&self) -> Seq<CommitView> {
        views(self.commits@)
    }
}

/// Some commit of `graph` is named `child` and lists `parent` among its parents.
pub open spec fn has_edge(graph: Seq<CommitView>, child: Seq<u8>, parent: Seq<u8>) -> bool {
    exists|i: int, j: int|
        0 <= i < graph.len() && 0 <= j < graph[i].parents.len() && #[trigger] graph[i].id == child
            && #[trigger] graph[i].parents[j] == parent
}

/// Each element of `path` but the first is a parent of the one before it.
pub open spec fn is_chain(graph: Seq<CommitView>, path: Seq<Seq<u8>>) -> bool {
    &&& path.len() >= 1
    &&& forall|k: int| 0 <= k < path.len() - 1 ==> has_edge(graph, #[trigger] path[k], path[k + 1])
}

/// `to` is `from` itself or can be reached from it by going from child to
/// parent along commits of `graph`.
pub open spec fn reaches(graph: Seq<CommitView>, from: Seq<u8>, to: Seq<u8>) -> bool {
    exists|path: Seq<Seq<u8>>| #[trigger] is_chain(graph, path) && path[0] == from && path.last() == to
}

/// The number of `false` entries.
pub open spec fn unseen(seen: Seq<bool>) -> nat
    decreases seen.len(),
{
    if seen.len() == 0 {
        0
    } else {
        unseen(seen.drop_last()) + if seen.last() {
            0nat
        } else {
            1nat
        }
    }
}

/// Marking an entry leaves one unmarked entry less.
proof fn lemma_unseen_update(seen: Seq<bool>, k: int)
    requires
        0 <= k < seen.len(),
        !seen[k],
    ensures
        unseen(seen.update(k, true)) + 1 == unseen(seen),
    decreases seen.len(),
{
    let after = seen.update(k, true);
    if k == seen.len() - 1 {
        assert(after.drop_last() =~= seen.drop_last());
    } else {
        assert(after.drop_last() =~= seen.drop_last().update(k, true));
        lemma_unseen_update(seen.drop_last(), k);
    }
}

/// Every commit is reached from itself.
proof fn lemma_reaches_self(graph: Seq<CommitView>, id: Seq<u8>)
    ensures
        reaches(graph, id, id),
{
    let path = seq![id];
    assert(is_chain(graph, path));
    assert(path[0] == id && path.last() == id);
}

/// What is reached can be left along one more edge.
proof fn lemma_reaches_step(graph: Seq<CommitView>, from: Seq<u8>, via: Seq<u8>, to: Seq<u8>)
    requires
        reaches(graph, from, via),
        has_edge(graph, via, to),
    ensures
        reaches(graph, from, to),
{
    let path = choose|path: Seq<Seq<u8>>| #[trigger]
        is_chain(graph, path) && path[0] == from && path.last() == via;
    let longer = path.push(to);
    assert forall|k: int| 0 <= k < longer.len() - 1 implies has_edge(
        graph,
        #[trigger] longer[k],
        longer[k + 1],
    ) by {
        if k < path.len() - 1 {
            assert(longer[k] == path[k]);
            assert(longer[k + 1] == path[k + 1]);
        } else {
            assert(longer[k] == via);
            assert(longer[k + 1] == to);
        }
    }
    assert(is_chain(graph, longer));
    assert(longer[0] == from && longer.last() == to);
}

/// All commits named `id` are marked in `seen`.
spec fn all_seen(graph: Seq<CommitView>, seen: Seq<bool>, id: Seq<u8>) -> bool {
    forall|m: int| 0 <= m < graph.len() && #[trigger] graph[m].id == id ==> seen[m]
}

/// No marked commit has `target` as a parent, and the commits named by the
/// parents of a marked commit are marked too.
spec fn closed(graph: Seq<CommitView>, seen: Seq<bool>, target: Seq<u8>) -> bool {
    forall|i: int, j: int|
        0 <= i < graph.len() && 0 <= j < graph[i].parents.len() && #[trigger] seen[i] ==> {
            &&& #[trigger] graph[i].parents[j] != target
            &&& all_seen(graph, seen, graph[i].parents[j])
        }
}

/// Along a chain that starts at a commit whose namesakes are all marked, in
/// a closed marking, `target` never occurs.
proof fn lemma_closed_avoids(
    graph: Seq<CommitView>,
    seen: Seq<bool>,
    target: Seq<u8>,
    path: Seq<Seq<u8>>,
    k: int,
)
    requires
        seen.len() == graph.len(),
        closed(graph, seen, target),
        is_chain(graph, path),
        path[0] != target,
        all_seen(graph, seen, path[0]),
        0 <= k < path.len(),
    ensures
        path[k] != target,
        all_seen(graph, seen, path[k]),
    decreases k,
{
    if k > 0 {
        lemma_closed_avoids(graph, seen, target, path, k - 1);
        assert(has_edge(graph, path[k - 1], path[k - 1 + 1]));
        let (i, j) = choose|i: int, j: int|
            0 <= i < graph.len() && 0 <= j < graph[i].parents.len() && #[trigger] graph[i].id
                == path[k - 1] && #[trigger] graph[i].parents[j] == path[k];
        assert(seen[i]);
    }
}

impl ObjectGraph {
    /// Marks every commit named `id` that is not marked yet, and queues it.
    fn mark(&self, id: &ObjectId, seen: &mut Vec<bool>, pending: &mut Vec<usize>)
        requires
            old(seen).len() == self.commits.len(),
        ensures
            final(seen).len() == old(seen).len(),
            forall|m: int|
                0 <= m < final(seen).len() ==> final(seen)[m] == (old(seen)[m] || self@[m].id
                    == id@),
            final(pending).len() >= old(pending).len(),
            final(pending)@.subrange(0, old(pending).len() as int) == old(pending)@,
            forall|t: int|
                old(pending).len() <= t < final(pending).len() ==> {
                    &&& (#[trigger] final(pending)[t]) < final(seen).len()
                    &&& !old(seen)[final(pending)[t] as int]
                    &&& self@[final(pending)[t] as int].id == id@
                },
            forall|m: int|
                0 <= m < final(seen).len() && !old(seen)[m] && self@[m].id == id@
                    ==> final(pending)@.contains(m as usize),
            unseen(final(seen)@) + final(pending).len() == unseen(old(seen)@) + old(pending).len(),
    {
        let n = self.commits.len();
        let ghost graph = self@;
        let mut k: usize = 0;
        while k < n
            invariant
                k <= n,
                n == self.commits.len(),
                graph == self@,
                seen.len() == n,
                forall|m: int|
                    0 <= m < k ==> seen[m] == (old(seen)[m] || graph[m].id == id@),
                forall|m: int| k <= m < n ==> seen[m] == old(seen)[m],
                pending.len() >= old(pending).len(),
                pending@.subrange(0, old(pending).len() as int) == old(pending)@,
                forall|t: int|
                    old(pending).len() <= t < pending.len() ==> {
                        &&& (#[trigger] pending[t]) < k
                        &&& !old(seen)[pending[t] as int]
                        &&& graph[pending[t] as int].id == id@
                    },
                forall|m: int|
                    0 <= m < k && !old(seen)[m] && graph[m].id == id@ ==> pending@.contains(m as usize),
                unseen(seen@) + pending.len() == unseen(old(seen)@) + old(pending).len(),
            decreases n - k,
        {
            assert(graph[k as int] == self.commits@[k as int]@);
            if !seen[k] && self.commits[k].id.same_as(id) {
                proof {
                    lemma_unseen_update(seen@, k as int);
                }
                let ghost before = pending@;
                seen.set(k, true);
                pending.push(k);
                assert(pending@.subrange(0, old(pending).len() as int) =~= before.subrange(
                    0,
                    old(pending).len() as int,
                ));
                assert(pending@[before.len() as int] == k);
                assert forall|m: int|
                    0 <= m < k + 1 && !old(seen)[m] && graph[m].id == id@ implies pending@.contains(
                    m as usize,
                ) by {
                    if m < k {
                        let t = choose|t: int| 0 <= t < before.len() && before[t] == m as usize;
                        assert(pending@[t] == m as usize);
                    }
                }
            }
            k += 1;
        }
    }

    /// Whether `ancestor` is `descendant` itself or is found by walking from
    /// `descendant` to parents, as far as the graph records them.
    pub fn is_ancestor(&self, ancestor: &ObjectId, descendant: &ObjectId) -> (r: bool)
        ensures
            r == reaches(self@, descendant@, ancestor@),
    {
        let ghost graph = self@;
        proof {
            lemma_reaches_self(graph, descendant@);
        }
        if descendant.same_as(ancestor) {
            return true;
        }
        let n = self.commits.len();
        let mut seen: Vec<bool> = Vec::new();
        while seen.len() < n
            invariant
                seen.len() <= n,
                forall|m: int| 0 <= m < seen.len() ==> !seen[m],
            decreases n - seen.len(),
        {
            seen.push(false);
        }
        let mut pending: Vec<usize> = Vec::new();
        let ghost mut done: Set<int> = Set::empty();
        self.mark(descendant, &mut seen, &mut pending);
        while pending.len() > 0
            invariant
                n == self.commits.len(),
                graph == self@,
                seen.len() == n,
                descendant@ != ancestor@,
                all_seen(graph, seen@, descendant@),
                forall|m: int|
                    0 <= m < n && #[trigger] seen[m] ==> reaches(graph, descendant@, graph[m].id),
                forall|t: int|
                    0 <= t < pending.len() ==> (#[trigger] pending[t]) < n && seen[pending[t] as int],
                forall|m: int|
                    0 <= m < n && #[trigger] seen[m] ==> done.contains(m) || pending@.contains(
                        m as usize,
                    ),
                forall|i: int, j: int|
                    0 <= i < n && 0 <= j < graph[i].parents.len() && #[trigger] done.contains(i)
                        ==> {
                        &&& #[trigger] graph[i].parents[j] != ancestor@
                        &&& all_seen(graph, seen@, graph[i].parents[j])
                    },
            decreases 2 * unseen(seen@) + pending.len(),
        {
            let ghost budget = 2 * unseen(seen@) + pending.len();
            let ghost queued = pending@;
            let c = pending.pop().unwrap();
            assert(c == queued[queued.len() - 1]);
            assert(graph[c as int] == self.commits@[c as int]@);
            assert forall|t: int| 0 <= t < pending.len() implies (#[trigger] pending[t]) < n
                && seen[pending[t] as int] by {
                assert(pending[t] == queued[t]);
            }
            let commit = &self.commits[c];
            assert forall|m: int| 0 <= m < n && #[trigger] seen[m] implies done.contains(m) || m
                == c || pending@.contains(m as usize) by {
                if !done.contains(m) && m != c {
                    let t = choose|t: int| 0 <= t < queued.len() && queued[t] == m as usize;
                    assert(pending@[t] == m as usize);
                }
            }
            let mut j: usize = 0;
            while j < commit.parents.len()
                invariant
                    n == self.commits.len(),
                    graph == self@,
                    seen.len() == n,
                    c < n,
                    graph[c as int] == commit@,
                    j <= commit.parents.len(),
                    descendant@ != ancestor@,
                    all_seen(graph, seen@, descendant@),
                    forall|m: int|
                        0 <= m < n && #[trigger] seen[m] ==> reaches(
                            graph,
                            descendant@,
                            graph[m].id,
                        ),
                    reaches(graph, descendant@, graph[c as int].id),
                    forall|t: int|
                    0 <= t < pending.len() ==> (#[trigger] pending[t]) < n && seen[pending[t] as int],
                    forall|m: int|
                        0 <= m < n && #[trigger] seen[m] ==> done.contains(m) || m == c
                            || pending@.contains(m as usize),
                    forall|i: int, j: int|
                        0 <= i < n && 0 <= j < graph[i].parents.len() && #[trigger] done.contains(i)
                            ==> {
                            &&& #[trigger] graph[i].parents[j] != ancestor@
                            &&& all_seen(graph, seen@, graph[i].parents[j])
                        },
                    forall|p: int|
                        0 <= p < j ==> {
                            &&& #[trigger] graph[c as int].parents[p] != ancestor@
                            &&& all_seen(graph, seen@, graph[c as int].parents[p])
                        },
                    2 * unseen(seen@) + pending.len() < budget,
                decreases commit.parents.len() - j,
            {
                let parent = &commit.parents[j];
                assert(graph[c as int].parents[j as int] == parent@);
                proof {
                    assert(has_edge(graph, graph[c as int].id, parent@));
                    lemma_reaches_step(graph, descendant@, graph[c as int].id, parent@);
                }
                if parent.same_as(ancestor) {
                    return true;
                }
                let ghost seen_before = seen@;
                let ghost todo_before = pending@;
                self.mark(parent, &mut seen, &mut pending);
                proof {
                    assert forall|t: int| 0 <= t < pending.len() implies (#[trigger] pending[t]) < n
                        && seen[pending[t] as int] by {
                        if t < todo_before.len() {
                            assert(pending@.subrange(0, todo_before.len() as int)[t] == todo_before[t]);
                        }
                    }
                    assert forall|m: int| 0 <= m < n && #[trigger] seen[m] implies done.contains(m)
                        || m == c || pending@.contains(m as usize) by {
                        if seen_before[m] {
                            if !done.contains(m) && m != c {
                                let t = choose|t: int|
                                    0 <= t < todo_before.len() && todo_before[t] == m as usize;
                                assert(pending@.subrange(0, todo_before.len() as int)[t]
                                    == todo_before[t]);
                            }
                        }
                    }
                    assert forall|x: Seq<u8>| all_seen(graph, seen_before, x) implies all_seen(
                        graph,
                        seen@,
                        x,
                    ) by {}
                }
                j += 1;
            }
            proof {
                done = done.insert(c as int);
            }
        }
        proof {
            assert(closed(graph, seen@, ancestor@)) by {
                assert forall|i: int, j: int|
                    0 <= i < graph.len() && 0 <= j < graph[i].parents.len() && #[trigger] seen@[i]
                    implies {
                    &&& #[trigger] graph[i].parents[j] != ancestor@
                    &&& all_seen(graph, seen@, graph[i].parents[j])
                } by {
                    assert(seen[i]);
                    assert(!pending@.contains(i as usize));
                    assert(done.contains(i));
                }
            }
            if reaches(graph, descendant@, ancestor@) {
                let path = choose|path: Seq<Seq<u8>>| #[trigger]
                    is_chain(graph, path) && path[0] == descendant@ && path.last() == ancestor@;
                lemma_closed_avoids(graph, seen@, ancestor@, path, path.len() - 1);
            }
        }
        false
    }
}

} // verus!
