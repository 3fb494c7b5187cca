//! The worktrees of a repository and the branches they have checked out.

use vstd::prelude::*;
use crate::bytes::views;
use crate::fetch::name::FullName;

verus! {

/// The condition of a worktree's directory.
#[derive(Debug, Clone, Copy, PartialEq, Eq, Structural)]
pub enum Liveness {
    /// The directory is in ordinary use.
    Present,
    /// The worktree is locked against pruning.
    Locked,
    /// The directory is gone while the repository still records the worktree.
    Missing,
}

/// A worktree as the repository records it: the main one or a linked one.
#[derive(Debug, Clone, PartialEq, Eq)]
pub struct Worktree {
    /// The directory of the checkout.
    pub dir: String,
    /// The condition of that directory.
    pub liveness: Liveness,
    /// The reference that is checked out, unless the head is detached.
    pub head: Option<FullName>,
}

/// The model of a `Worktree`.
pub struct WorktreeView {
    pub dir: Seq<char>,
    pub liveness: Liveness,
    pub head: Option<Seq<u8>>,
}

impl View for Worktree {
    type V = WorktreeView;

    open spec fn view(&self) -> WorktreeView {
        WorktreeView {
            dir: self.dir@,
            liveness: self.liveness,
            head: match self.head {
                Some(name) => Some(name@),
                None => None,
            },
        }
    }
}

impl Worktree {
    /// The reference this worktree has checked out.
    pub fn checked_out_ref(&self) -> (r: Option<&FullName>)
        ensures
            self@.head == (match r {
                Some(name) => Some(name@),
                None => None,
            }),
    {
        self.head.as_ref()
    }
}

/// All worktrees of a repository, or the fact that they could not be listed.
#[derive(Debug, Clone, PartialEq, Eq)]
pub enum WorktreeIndex {
    /// Every worktree on record, the main one included.
    Listed(Vec<Worktree>),
    /// The worktrees could not be enumerated.
    Unavailable,
}

impl View for WorktreeIndex {
    type V = Option<Seq<WorktreeView>>;

    open spec fn view(&self) -> Option<Seq<WorktreeView>> {
        match self {
            WorktreeIndex::Listed(worktrees) => Some(views(worktrees@)),
            WorktreeIndex::Unavailable => None,
        }
    }
}

/// The position of the first worktree at or after `from` that has `name`
/// checked out. The condition of its directory plays no part.
pub open spec fn holder_from(worktrees: Seq<WorktreeView>, name: Seq<u8>, from: int) -> Option<int>
    decreases worktrees.len() - from,
{
    if from < 0 || from >= worktrees.len() {
        None
    } else if worktrees[from].head == Some(name) {
        Some(from)
    } else {
        holder_from(worktrees, name, from + 1)
    }
}

/// What `holder_from` finds is the first worktree that has the name checked
/// out, and it finds one if there is any.
pub proof fn lemma_holder_from(worktrees: Seq<WorktreeView>, name: Seq<u8>, from: int)
    requires
        0 <= from,
    ensures
        match holder_from(worktrees, name, from) {
            Some(i) => {
                &&& from <= i < worktrees.len()
                &&& worktrees[i].head == Some(name)
                &&& forall|j: int| from <= j < i ==> worktrees[j].head != Some(name)
            },
            None => forall|j: int| from <= j < worktrees.len() ==> worktrees[j].head != Some(name),
        },
    decreases worktrees.len() - from,
{
    if from < worktrees.len() && worktrees[from].head != Some(name) {
        lemma_holder_from(worktrees, name, from + 1);
    }
}

impl WorktreeIndex {
    /// The worktrees on record, unless they could not be enumerated.
    pub fn all_worktrees(&self) -> (r: Option<&Vec<Worktree>>)
        ensures
            self@ == (match r {
                Some(worktrees) => Some(views(worktrees@)),
                None => None,
            }),
    {
        match self {
            WorktreeIndex::Listed(worktrees) => Some(worktrees),
            WorktreeIndex::Unavailable => None,
        }
    }
}

/// The first of `worktrees` that has `name` checked out.
pub fn holder_of(worktrees: &Vec<Worktree>, name: &FullName) -> (r: Option<usize>)
    ensures
        match r {
            Some(i) => i < worktrees.len() && holder_from(views(worktrees@), name@, 0) == Some(
                i as int,
            ),
            None => holder_from(views(worktrees@), name@, 0) is None,
        },
{
    let ghost all = views(worktrees@);
    let mut i: usize = 0;
    while i < worktrees.len()
        invariant
            i <= worktrees.len(),
            all == views(worktrees@),
            holder_from(all, name@, 0) == holder_from(all, name@, i as int),
        decreases worktrees.len() - i,
    {
        assert(all[i as int] == worktrees@[i as int]@);
        match worktrees[i].checked_out_ref() {
            Some(head) => {
                if head.same_as(name) {
                    return Some(i);
                }
            },
            None => {},
        }
        i += 1;
    }
    None
}

} // verus!
