//! Deciding what a fetch does to local references.
//!
//! After a remote has been queried and its references were matched against
//! the fetch patterns, each resulting mapping is classified against the
//! state of the local repository. Classification only reads; the edits it
//! queues are applied afterwards in one batch, or not at all in a dry run.

use vstd::prelude::*;
use crate::hash::ObjectId;
use crate::fetch::graph::{CommitView, ObjectGraph};
use crate::fetch::name::FullName;
use crate::fetch::store::{LogLineView, RefStore, RefValueView};
use crate::fetch::worktree::{WorktreeIndex, WorktreeView};

pub mod graph;
pub mod laws;
pub mod name;
pub mod refs;
pub mod store;
pub mod transaction;
pub mod worktree;

verus! {

/// Whether reference edits are only computed or also applied.
#[derive(Debug, Clone, Copy, PartialEq, Eq, Structural)]
pub enum DryRun {
    /// Compute the outcome and leave the repository untouched.
    Yes,
    /// Compute the outcome and apply its edits.
    No,
}

/// A parsed fetch pattern, as far as updating references depends on it.
#[derive(Debug, Clone, PartialEq, Eq)]
pub struct RefSpec {
    /// Set if the pattern starts with `+`, which permits updates that are no
    /// fast-forward and overwriting tags.
    pub force: bool,
    /// The pattern selecting references on the remote, if any.
    pub src: Option<Vec<u8>>,
    /// The pattern naming the local destination, if any.
    pub dst: Option<Vec<u8>>,
}

/// The model of a `RefSpec`.
pub struct RefSpecView {
    pub force: bool,
    pub src: Option<Seq<u8>>,
    pub dst: Option<Seq<u8>>,
}

impl View for RefSpec {
    type V = RefSpecView;

    open spec fn view(&self) -> RefSpecView {
        RefSpecView {
            force: self.force,
            src: match self.src {
                Some(pattern) => Some(pattern@),
                None => None,
            },
            dst: match self.dst {
                Some(pattern) => Some(pattern@),
                None => None,
            },
        }
    }
}

impl RefSpec {
    /// Whether the pattern permits updates that lose history.
    pub fn allow_non_fast_forward(&self) -> (r: bool)
        ensures
            r == self.force,
    {
        self.force
    }
}

/// A reference as a remote advertises it.
#[derive(Debug, Clone, PartialEq, Eq)]
pub enum RemoteRef {
    /// A reference that points to an object.
    Direct { full_ref_name: Vec<u8>, object: ObjectId },
    /// A reference that points to `target`, another reference, which in turn
    /// leads to `object`.
    Symbolic { full_ref_name: Vec<u8>, target: Vec<u8>, object: ObjectId },
}

/// The remote side of a mapping.
#[derive(Debug, Clone, PartialEq, Eq)]
pub enum Source {
    /// An object named by its identifier.
    ObjectId(ObjectId),
    /// A reference advertised by the remote.
    Ref(RemoteRef),
}

impl Source {
    /// The identifier of the object a local reference should point to.
    pub open spec fn id(self) -> Seq<u8> {
        match self {
            Source::ObjectId(id) => id@,
            Source::Ref(RemoteRef::Direct { object, .. }) => object@,
            Source::Ref(RemoteRef::Symbolic { object, .. }) => object@,
        }
    }

    /// The object a local reference should point to.
    pub fn as_id(&self) -> (r: &ObjectId)
        ensures
            r@ == self.id(),
    {
        match self {
            Source::ObjectId(id) => id,
            Source::Ref(RemoteRef::Direct { object, .. }) => object,
            Source::Ref(RemoteRef::Symbolic { object, .. }) => object,
        }
    }
}

/// What a fetch should bring where: a remote source, the local reference to
/// update if there is one, and the pattern that produced the pair.
#[derive(Debug, Clone, PartialEq, Eq)]
pub struct Mapping {
    pub remote: Source,
    pub local: Option<FullName>,
    pub spec_index: usize,
}

/// What classification reads of a mapping.
pub struct MappingView {
    /// The object the destination should point to.
    pub target: Seq<u8>,
    /// The name of the destination.
    pub local: Option<Seq<u8>>,
    /// The position of the originating pattern.
    pub spec_index: nat,
}

impl View for Mapping {
    type V = MappingView;

    open spec fn view(&self) -> MappingView {
        MappingView {
            target: self.remote.id(),
            local: match self.local {
                Some(name) => Some(name@),
                None => None,
            },
            spec_index: self.spec_index as nat,
        }
    }
}

/// What a fetch reads of the local repository: its references, the
/// worktrees with their checked-out branches, and the commit graph.
#[derive(Debug, Clone, PartialEq, Eq)]
pub struct RepoState {
    pub refs: RefStore,
    pub worktrees: WorktreeIndex,
    pub graph: ObjectGraph,
}

/// The model of a `RepoState`.
pub struct RepoStateView {
    /// What is stored under each reference name.
    pub refs: Map<Seq<u8>, RefValueView>,
    /// The log of what was committed to the references.
    pub log: Seq<LogLineView>,
    /// The worktrees in the order of their enumeration, if they can be enumerated.
    pub worktrees: Option<Seq<WorktreeView>>,
    /// The known commits.
    pub graph: Seq<CommitView>,
}

impl View for RepoState {
    type V = RepoStateView;

    open spec fn view(&self) -> RepoStateView {
        RepoStateView {
            refs: self.refs@,
            log: self.refs.logged(),
            worktrees: self.worktrees@,
            graph: self.graph@,
        }
    }
}

} // verus!
