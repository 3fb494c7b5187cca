//! The result of deciding reference updates.

use vstd::prelude::*;
use crate::bytes::views;
use crate::fetch::refs::{Update, UpdateView};
use crate::fetch::transaction::{RefEdit, RefEditView};

verus! {

/// What was decided for one mapping.
#[derive(Debug, Clone, PartialEq, Eq)]
pub enum Mode {
    /// The destination already has the desired value, or there is no destination.
    NoChangeNeeded,
    /// The destination does not exist yet and is created.
    New,
    /// The destination is overwritten because the pattern forces it.
    Forced,
    /// The destination moves forward to a descendant of its value.
    FastForward,
    /// The destination is a tag with another value, and the pattern does not force.
    RejectedTagUpdate,
    /// The destination is checked out in the worktree at `worktree_dir`.
    RejectedCurrentlyCheckedOut { worktree_dir: String },
    /// The destination is a symbolic reference.
    RejectedSymbolic,
    /// The new value does not descend from the destination's value, and the
    /// pattern does not force.
    RejectedNonFastForward,
}

/// The model of a `Mode`.
pub enum ModeView {
    NoChangeNeeded,
    New,
    Forced,
    FastForward,
    RejectedTagUpdate,
    RejectedCurrentlyCheckedOut { worktree_dir: Seq<char> },
    RejectedSymbolic,
    RejectedNonFastForward,
}

impl View for Mode {
    type V = ModeView;

    open spec fn view(&self) -> ModeView {
        match self {
            Mode::NoChangeNeeded => ModeView::NoChangeNeeded,
            Mode::New => ModeView::New,
            Mode::Forced => ModeView::Forced,
            Mode::FastForward => ModeView::FastForward,
            Mode::RejectedTagUpdate => ModeView::RejectedTagUpdate,
            Mode::RejectedCurrentlyCheckedOut { worktree_dir } => {
                ModeView::RejectedCurrentlyCheckedOut { worktree_dir: worktree_dir@ }
            },
            Mode::RejectedSymbolic => ModeView::RejectedSymbolic,
            Mode::RejectedNonFastForward => ModeView::RejectedNonFastForward,
        }
    }
}

impl ModeView {
    /// Whether the mode refuses the update.
    pub open spec fn is_rejection(self) -> bool {
        match self {
            ModeView::RejectedTagUpdate => true,
            ModeView::RejectedCurrentlyCheckedOut { .. } => true,
            ModeView::RejectedSymbolic => true,
            ModeView::RejectedNonFastForward => true,
            _ => false,
        }
    }
}

/// Why no outcome could be computed.
#[derive(Debug, Clone, Copy, PartialEq, Eq, Structural)]
pub enum Error {
    /// The worktrees of the repository could not be enumerated.
    EnumerationFailed,
    /// What is stored under a destination could not be read.
    ReadFailed,
    /// A reference changed between the decision and the writing of edits.
    ConcurrentModification,
}

/// Everything that was decided for the mappings of one fetch.
#[derive(Debug, Clone, PartialEq, Eq)]
pub struct Outcome {
    /// One update per mapping, in the order of the mappings.
    pub updates: Vec<Update>,
    /// The edits that were queued, in the order of their queuing.
    pub edits: Vec<RefEdit>,
}

/// The model of an `Outcome`.
pub struct OutcomeView {
    pub updates: Seq<UpdateView>,
    pub edits: Seq<RefEditView>,
}

impl View for Outcome {
    type V = OutcomeView;

    open spec fn view(&self) -> OutcomeView {
        OutcomeView { updates: views(self.updates@), edits: views(self.edits@) }
    }
}

} // verus!
