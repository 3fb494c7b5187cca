//! Reference edits and their application as one batch.

use vstd::prelude::*;
use crate::bytes::{lemma_views_push, views};
use crate::hash::ObjectId;
use crate::fetch::DryRun;
use crate::fetch::name::FullName;
use crate::fetch::store::{LogLine, LogLineView, RefStore, RefValue, RefValueView};

verus! {

/// What must hold of a reference for an edit of it to be applied.
#[derive(Debug, Clone, PartialEq, Eq)]
pub enum PreviousValue {
    /// Nothing is stored under the name.
    MustNotExist,
    /// The reference points to the given object.
    MustExistAndMatch(ObjectId),
}

/// The model of a `PreviousValue`.
pub enum PreviousValueView {
    MustNotExist,
    MustExistAndMatch(Seq<u8>),
}

impl View for PreviousValue {
    type V = PreviousValueView;

    open spec fn view(&self) -> PreviousValueView {
        match self {
            PreviousValue::MustNotExist => PreviousValueView::MustNotExist,
            PreviousValue::MustExistAndMatch(id) => PreviousValueView::MustExistAndMatch(id@),
        }
    }
}

/// A pending write of one reference.
#[derive(Debug, Clone, PartialEq, Eq)]
pub struct RefEdit {
    /// The reference to write.
    pub name: FullName,
    /// The object it shall point to.
    pub new: ObjectId,
    /// What must hold of the reference when the edit is applied.
    pub expected: PreviousValue,
    /// The line to enter into the reference's log.
    pub message: String,
}

/// The model of a `RefEdit`.
pub struct RefEditView {
    pub name: Seq<u8>,
    pub new: Seq<u8>,
    pub expected: PreviousValueView,
    pub message: Seq<char>,
}

impl View for RefEdit {
    type V = RefEditView;

    open spec fn view(&self) -> RefEditView {
        RefEditView {
            name: self.name@,
            new: self.new@,
            expected: self.expected@,
            message: self.message@,
        }
    }
}

/// Why a batch of edits was not applied.
#[derive(Debug, Clone, Copy, PartialEq, Eq, Structural)]
pub enum CommitError {
    /// A reference was not in the state that an edit expects.
    ConcurrentModification,
}

/// Whether `refs` is in the state that `edit` expects.
pub open spec fn expectation_met(refs: Map<Seq<u8>, RefValueView>, edit: RefEditView) -> bool {
    match edit.expected {
        PreviousValueView::MustNotExist => !refs.contains_key(edit.name),
        PreviousValueView::MustExistAndMatch(id) => refs.contains_key(edit.name) && refs[edit.name]
            == RefValueView::Direct(id),
    }
}

/// Whether `refs` is in the state that each of `edits` expects.
pub open spec fn all_met(refs: Map<Seq<u8>, RefValueView>, edits: Seq<RefEditView>) -> bool {
    forall|i: int| 0 <= i < edits.len() ==> expectation_met(refs, #[trigger] edits[i])
}

/// `refs` after the first `n` of `edits` were written in order.
pub open spec fn written(refs: Map<Seq<u8>, RefValueView>, edits: Seq<RefEditView>, n: nat) -> Map<
    Seq<u8>,
    RefValueView,
>
    decreases n,
{
    if n == 0 {
        refs
    } else {
        written(refs, edits, (n - 1) as nat).insert(
            edits[n - 1].name,
            RefValueView::Direct(edits[n - 1].new),
        )
    }
}

/// The line that an edit leaves in the log.
pub open spec fn line_of(edit: RefEditView) -> LogLineView {
    LogLineView { name: edit.name, new: edit.new, message: edit.message }
}

/// `log` with one line more for each of the first `n` of `edits`, in order.
pub open spec fn logged_after(log: Seq<LogLineView>, edits: Seq<RefEditView>, n: nat) -> Seq<
    LogLineView,
>
    decreases n,
{
    if n == 0 {
        log
    } else {
        logged_after(log, edits, (n - 1) as nat).push(line_of(edits[n - 1]))
    }
}

/// Whether `store` is in the state that `edit` expects.
fn meets(store: &RefStore, edit: &RefEdit) -> (r: bool)
    ensures
        r == expectation_met(store@, edit@),
{
    match store.read(&edit.name) {
        None => match &edit.expected {
            PreviousValue::MustNotExist => true,
            PreviousValue::MustExistAndMatch(_) => false,
        },
        Some(current) => match &edit.expected {
            PreviousValue::MustNotExist => false,
            PreviousValue::MustExistAndMatch(id) => match current {
                RefValue::Direct(stored) => stored.same_as(id),
                _ => false,
            },
        },
    }
}

impl RefStore {
    /// Writes `edits` as one batch.
    ///
    /// Every edit's expectation is held against the store as it is before
    /// the call. If all are met, the edits are written in order, each with
    /// its line in the log; if one is not, nothing is written.
    pub fn commit_batch(&mut self, edits: &Vec<RefEdit>) -> (r: Result<(), CommitError>)
        ensures
            all_met(old(self)@, views(edits@)) ==> {
                &&& r is Ok
                &&& final(self)@ == written(old(self)@, views(edits@), edits.len() as nat)
                &&& final(self).logged() == logged_after(
                    old(self).logged(),
                    views(edits@),
                    edits.len() as nat,
                )
            },
            !all_met(old(self)@, views(edits@)) ==> {
                &&& r == Err::<(), CommitError>(CommitError::ConcurrentModification)
                &&& final(self)@ == old(self)@
                &&& final(self).logged() == old(self).logged()
            },
    {
        let ghost all = views(edits@);
        let mut i: usize = 0;
        while i < edits.len()
            invariant
                i <= edits.len(),
                all == views(edits@),
                *self == *old(self),
                forall|k: int| 0 <= k < i ==> expectation_met(self@, #[trigger] all[k]),
            decreases edits.len() - i,
        {
            assert(all[i as int] == edits@[i as int]@);
            if !meets(self, &edits[i]) {
                return Err(CommitError::ConcurrentModification);
            }
            i += 1;
        }
        let mut i: usize = 0;
        while i < edits.len()
            invariant
                i <= edits.len(),
                all == views(edits@),
                self@ == written(old(self)@, all, i as nat),
                self.logged() == logged_after(old(self).logged(), all, i as nat),
            decreases edits.len() - i,
        {
            assert(all[i as int] == edits@[i as int]@);
            let edit = &edits[i];
            self.set(&edit.name, RefValue::Direct(edit.new.duplicate()));
            let line = LogLine {
                name: edit.name.duplicate(),
                new: edit.new.duplicate(),
                message: edit.message.clone(),
            };
            proof {
                lemma_views_push(self.log@, line);
            }
            self.log.push(line);
            i += 1;
        }
        Ok(())
    }
}

/// Hands `edits` to `store` as one batch, unless this is a dry run, in
/// which nothing happens.
pub fn apply(store: &mut RefStore, edits: &Vec<RefEdit>, dry_run: DryRun) -> (r: Result<
    (),
    CommitError,
>)
    ensures
        dry_run == DryRun::Yes ==> {
            &&& r is Ok
            &&& final(store)@ == old(store)@
            &&& final(store).logged() == old(store).logged()
        },
        dry_run == DryRun::No && all_met(old(store)@, views(edits@)) ==> {
            &&& r is Ok
            &&& final(store)@ == written(old(store)@, views(edits@), edits.len() as nat)
            &&& final(store).logged() == logged_after(
                old(store).logged(),
                views(edits@),
                edits.len() as nat,
            )
        },
        dry_run == DryRun::No && !all_met(old(store)@, views(edits@)) ==> {
            &&& r == Err::<(), CommitError>(CommitError::ConcurrentModification)
            &&& final(store)@ == old(store)@
            &&& final(store).logged() == old(store).logged()
        },
{
    match dry_run {
        DryRun::Yes => Ok(()),
        DryRun::No => store.commit_batch(edits),
    }
}

} // verus!
