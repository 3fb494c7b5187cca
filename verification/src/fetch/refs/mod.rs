//! Classifying mappings against the repository and queuing reference edits.

use vstd::prelude::*;
use crate::bytes::{lemma_views_push, views};
use crate::fetch::{Mapping, MappingView, RefSpec, RefSpecView, RepoState, RepoStateView};
use crate::fetch::graph::{reaches, CommitView};
use crate::fetch::laws::{aligned, lemma_plan_is_aligned};
use crate::fetch::name::{category_of, is_tag_name, Category, FullName};
use crate::fetch::DryRun;
use crate::fetch::refs::update::{Error, Mode, ModeView, Outcome, OutcomeView};
use crate::fetch::store::{RefValue, RefValueView};
use crate::fetch::transaction::{
    all_met, apply, logged_after, written, PreviousValue, PreviousValueView, RefEdit,
    RefEditView,
};
use crate::fetch::worktree::{holder_from, holder_of};
use crate::hash::ObjectId;

pub mod update;

verus! {

/// What became of one mapping.
#[derive(Debug, Clone, PartialEq, Eq)]
pub struct Update {
    /// What was decided.
    pub mode: Mode,
    /// The position of the edit that was queued for the mapping, if one was.
    pub edit_index: Option<usize>,
}

/// The model of an `Update`.
pub struct UpdateView {
    pub mode: ModeView,
    pub edit_index: Option<nat>,
}

impl View for Update {
    type V = UpdateView;

    open spec fn view(&self) -> UpdateView {
        UpdateView {
            mode: self.mode@,
            edit_index: match self.edit_index {
                Some(i) => Some(i as nat),
                None => None,
            },
        }
    }
}

/// The decision for one mapping: the mode, and the edit to queue if any.
#[derive(Debug, Clone, PartialEq, Eq)]
pub struct Classified {
    pub mode: Mode,
    pub edit: Option<RefEdit>,
}

/// The model of a `Classified`.
pub struct Decision {
    pub mode: ModeView,
    pub edit: Option<RefEditView>,
}

impl View for Classified {
    type V = Decision;

    open spec fn view(&self) -> Decision {
        Decision {
            mode: self.mode@,
            edit: match self.edit {
                Some(edit) => Some(edit@),
                None => None,
            },
        }
    }
}

/// The line that the log of `name` receives for an edit made in `mode`.
pub open spec fn reflog_message(mode: ModeView, name: Seq<u8>) -> Seq<char> {
    match mode {
        ModeView::NoChangeNeeded => "fetch: no update will be performed"@,
        ModeView::New => match category_of(name) {
            Some(Category::Tag) => "fetch: storing tag"@,
            Some(Category::LocalBranch) => "fetch: storing head"@,
            None => "fetch: storing ref"@,
        },
        ModeView::Forced => if is_tag_name(name) {
            "fetch: updating tag"@
        } else {
            "fetch: forced-update"@
        },
        ModeView::FastForward => "fetch: fast-forward"@,
        _ => Seq::empty(),
    }
}

/// A decision that queues no edit.
pub open spec fn without_edit(mode: ModeView) -> Decision {
    Decision { mode, edit: None }
}

/// A decision that queues the edit setting `name` to `target`.
pub open spec fn with_edit(
    mode: ModeView,
    name: Seq<u8>,
    target: Seq<u8>,
    expected: PreviousValueView,
) -> Decision {
    Decision {
        mode,
        edit: Some(
            RefEditView { name, new: target, expected, message: reflog_message(mode, name) },
        ),
    }
}

/// The decision for a destination `name` that points to `current`, is no
/// symbolic reference and is not checked out anywhere.
///
/// A tag with another value is left alone unless forced. An equal value
/// needs no change but still queues its edit. Another value is written if
/// forced, or if it descends from the current one.
pub open spec fn reconcile(
    graph: Seq<CommitView>,
    name: Seq<u8>,
    current: Seq<u8>,
    target: Seq<u8>,
    force: bool,
) -> Decision {
    let expected = PreviousValueView::MustExistAndMatch(current);
    if is_tag_name(name) && current != target && !force {
        without_edit(ModeView::RejectedTagUpdate)
    } else if current == target {
        with_edit(ModeView::NoChangeNeeded, name, target, expected)
    } else if force {
        with_edit(ModeView::Forced, name, target, expected)
    } else if reaches(graph, target, current) {
        with_edit(ModeView::FastForward, name, target, expected)
    } else {
        without_edit(ModeView::RejectedNonFastForward)
    }
}

/// What is stored under `name`, if anything.
pub open spec fn stored(refs: Map<Seq<u8>, RefValueView>, name: Seq<u8>) -> Option<RefValueView> {
    if refs.contains_key(name) {
        Some(refs[name])
    } else {
        None
    }
}

/// The decision for one mapping, or the error that ends the fetch.
///
/// The rules apply in this order, and the first that matches decides:
/// without a destination nothing changes; an unreadable destination is an
/// error; a symbolic destination is refused; so is one that a worktree has
/// checked out, for which the worktrees must be enumerable; a destination
/// that does not exist is created; an existing one is reconciled.
pub open spec fn classify_spec(
    state: RepoStateView,
    mapping: MappingView,
    specs: Seq<RefSpecView>,
) -> Result<Decision, Error> {
    match mapping.local {
        None => Ok(without_edit(ModeView::NoChangeNeeded)),
        Some(name) => match stored(state.refs, name) {
            Some(RefValueView::Unreadable) => Err(Error::ReadFailed),
            Some(RefValueView::Symbolic(_)) => Ok(without_edit(ModeView::RejectedSymbolic)),
            current => match state.worktrees {
                None => Err(Error::EnumerationFailed),
                Some(worktrees) => match holder_from(worktrees, name, 0) {
                    Some(i) => Ok(
                        without_edit(
                            ModeView::RejectedCurrentlyCheckedOut {
                                worktree_dir: worktrees[i].dir,
                            },
                        ),
                    ),
                    None => match current {
                        Some(RefValueView::Direct(id)) => Ok(
                            reconcile(
                                state.graph,
                                name,
                                id,
                                mapping.target,
                                specs[mapping.spec_index as int].force,
                            ),
                        ),
                        _ => Ok(
                            with_edit(
                                ModeView::New,
                                name,
                                mapping.target,
                                PreviousValueView::MustNotExist,
                            ),
                        ),
                    },
                },
            },
        },
    }
}

/// The model of what `classify` returns.
pub open spec fn decided(r: Result<Classified, Error>) -> Result<Decision, Error> {
    match r {
        Ok(classified) => Ok(classified@),
        Err(e) => Err(e),
    }
}

/// The log line for an edit of `name` made in `mode`.
fn message_for(mode: &Mode, name: &FullName) -> (r: String)
    ensures
        r@ == reflog_message(mode@, name@),
{
    match mode {
        Mode::NoChangeNeeded => "fetch: no update will be performed".to_owned(),
        Mode::New => match name.category() {
            Some(Category::Tag) => "fetch: storing tag".to_owned(),
            Some(Category::LocalBranch) => "fetch: storing head".to_owned(),
            None => "fetch: storing ref".to_owned(),
        },
        Mode::Forced => if name.is_tag() {
            "fetch: updating tag".to_owned()
        } else {
            "fetch: forced-update".to_owned()
        },
        Mode::FastForward => "fetch: fast-forward".to_owned(),
        _ => String::new(),
    }
}

/// The decision `mode` together with the edit that sets `name` to `target`.
fn queue(mode: Mode, name: &FullName, target: &ObjectId, expected: PreviousValue) -> (r: Classified)
    ensures
        r@ == with_edit(mode@, name@, target@, expected@),
{
    let message = message_for(&mode, name);
    Classified {
        mode,
        edit: Some(
            RefEdit { name: name.duplicate(), new: target.duplicate(), expected, message },
        ),
    }
}

/// Decides what happens to `mapping`, reading `state` and writing nothing.
pub fn classify(state: &RepoState, mapping: &Mapping, refspecs: &Vec<RefSpec>) -> (r: Result<
    Classified,
    Error,
>)
    requires
        mapping.spec_index < refspecs.len(),
    ensures
        decided(r) == classify_spec(state@, mapping@, views(refspecs@)),
{
    let name = match &mapping.local {
        None => {
            return Ok(Classified { mode: Mode::NoChangeNeeded, edit: None });
        },
        Some(name) => name,
    };
    let current = state.refs.read(name);
    match current {
        Some(RefValue::Unreadable) => {
            return Err(Error::ReadFailed);
        },
        Some(RefValue::Symbolic(_)) => {
            return Ok(Classified { mode: Mode::RejectedSymbolic, edit: None });
        },
        _ => {},
    }
    let worktrees = match state.worktrees.all_worktrees() {
        None => {
            return Err(Error::EnumerationFailed);
        },
        Some(worktrees) => worktrees,
    };
    match holder_of(worktrees, name) {
        Some(i) => {
            assert(views(worktrees@)[i as int] == worktrees@[i as int]@);
            return Ok(
                Classified {
                    mode: Mode::RejectedCurrentlyCheckedOut {
                        worktree_dir: worktrees[i].dir.clone(),
                    },
                    edit: None,
                },
            );
        },
        None => {},
    }
    let target = mapping.remote.as_id();
    let stored_id = match current {
        Some(RefValue::Direct(id)) => id,
        _ => {
            return Ok(queue(Mode::New, name, target, PreviousValue::MustNotExist));
        },
    };
    assert(views(refspecs@)[mapping.spec_index as int] == refspecs@[mapping.spec_index as int]@);
    let force = refspecs[mapping.spec_index].allow_non_fast_forward();
    let same = stored_id.same_as(target);
    if name.is_tag() && !same && !force {
        Ok(Classified { mode: Mode::RejectedTagUpdate, edit: None })
    } else if same {
        Ok(
            queue(
                Mode::NoChangeNeeded,
                name,
                target,
                PreviousValue::MustExistAndMatch(stored_id.duplicate()),
            ),
        )
    } else if force {
        Ok(
            queue(
                Mode::Forced,
                name,
                target,
                PreviousValue::MustExistAndMatch(stored_id.duplicate()),
            ),
        )
    } else if state.graph.is_ancestor(stored_id, target) {
        Ok(
            queue(
                Mode::FastForward,
                name,
                target,
                PreviousValue::MustExistAndMatch(stored_id.duplicate()),
            ),
        )
    } else {
        Ok(Classified { mode: Mode::RejectedNonFastForward, edit: None })
    }
}

/// `outcome` with one more update for `decision`, and its edit queued if it has one.
pub open spec fn extended(outcome: OutcomeView, decision: Decision) -> OutcomeView {
    match decision.edit {
        Some(edit) => OutcomeView {
            updates: outcome.updates.push(
                UpdateView { mode: decision.mode, edit_index: Some(outcome.edits.len()) },
            ),
            edits: outcome.edits.push(edit),
        },
        None => OutcomeView {
            updates: outcome.updates.push(UpdateView { mode: decision.mode, edit_index: None }),
            edits: outcome.edits,
        },
    }
}

/// The outcome for the first `n` mappings, or the first error among them.
pub open spec fn plan_upto(
    state: RepoStateView,
    mappings: Seq<MappingView>,
    specs: Seq<RefSpecView>,
    n: nat,
) -> Result<OutcomeView, Error>
    decreases n,
{
    if n == 0 {
        Ok(OutcomeView { updates: Seq::empty(), edits: Seq::empty() })
    } else {
        match plan_upto(state, mappings, specs, (n - 1) as nat) {
            Err(e) => Err(e),
            Ok(outcome) => match classify_spec(state, mappings[n - 1], specs) {
                Err(e) => Err(e),
                Ok(decision) => Ok(extended(outcome, decision)),
            },
        }
    }
}

/// The outcome for all mappings: they are classified in order, each on its
/// own, and the first error ends it.
pub open spec fn plan_spec(
    state: RepoStateView,
    mappings: Seq<MappingView>,
    specs: Seq<RefSpecView>,
) -> Result<OutcomeView, Error> {
    plan_upto(state, mappings, specs, mappings.len())
}

/// The model of what `plan` and `resolve` return.
pub open spec fn planned(r: Result<Outcome, Error>) -> Result<OutcomeView, Error> {
    match r {
        Ok(outcome) => Ok(outcome@),
        Err(e) => Err(e),
    }
}

/// An error among the first mappings is the result for any more of them.
proof fn lemma_plan_error_stays(
    state: RepoStateView,
    mappings: Seq<MappingView>,
    specs: Seq<RefSpecView>,
    failed: nat,
    n: nat,
)
    requires
        failed <= n,
        plan_upto(state, mappings, specs, failed) is Err,
    ensures
        plan_upto(state, mappings, specs, n) == plan_upto(state, mappings, specs, failed),
    decreases n,
{
    if failed < n {
        lemma_plan_error_stays(state, mappings, specs, failed, (n - 1) as nat);
    }
}

/// Every edit that is queued expects the references as `state` has them.
pub proof fn lemma_plan_expects_state(
    state: RepoStateView,
    mappings: Seq<MappingView>,
    specs: Seq<RefSpecView>,
    n: nat,
)
    ensures
        plan_upto(state, mappings, specs, n) matches Ok(outcome) ==> all_met(
            state.refs,
            outcome.edits,
        ),
    decreases n,
{
    if n > 0 {
        lemma_plan_expects_state(state, mappings, specs, (n - 1) as nat);
    }
}

/// Where every mapping refers to one of the patterns.
pub open spec fn specs_in_range(mappings: Seq<MappingView>, specs: Seq<RefSpecView>) -> bool {
    forall|i: int| 0 <= i < mappings.len() ==> (#[trigger] mappings[i]).spec_index < specs.len()
}

/// Decides what happens to each of `mappings`, reading `state` and writing nothing.
pub fn plan(state: &RepoState, mappings: &Vec<Mapping>, refspecs: &Vec<RefSpec>) -> (r: Result<
    Outcome,
    Error,
>)
    requires
        specs_in_range(views(mappings@), views(refspecs@)),
    ensures
        planned(r) == plan_spec(state@, views(mappings@), views(refspecs@)),
        r matches Ok(outcome) ==> outcome.updates.len() == mappings.len() && aligned(outcome@),
{
    let ghost all = views(mappings@);
    proof {
        lemma_plan_is_aligned(state@, all, views(refspecs@));
    }
    let ghost specs = views(refspecs@);
    let mut updates: Vec<Update> = Vec::new();
    let mut edits: Vec<RefEdit> = Vec::new();
    let mut i: usize = 0;
    assert(views(updates@) =~= Seq::<UpdateView>::empty());
    assert(views(edits@) =~= Seq::<RefEditView>::empty());
    while i < mappings.len()
        invariant
            i <= mappings.len(),
            all == views(mappings@),
            specs == views(refspecs@),
            specs_in_range(all, specs),
            plan_upto(state@, all, specs, i as nat) == Ok::<OutcomeView, Error>(
                OutcomeView { updates: views(updates@), edits: views(edits@) },
            ),
        decreases mappings.len() - i,
    {
        assert(all[i as int] == mappings@[i as int]@);
        let classified = match classify(state, &mappings[i], refspecs) {
            Err(e) => {
                proof {
                    lemma_plan_error_stays(state@, all, specs, (i + 1) as nat, all.len());
                }
                return Err(e);
            },
            Ok(classified) => classified,
        };
        let Classified { mode, edit } = classified;
        proof {
            lemma_views_push(updates@, Update { mode, edit_index: match edit {
                Some(_) => Some(edits.len()),
                None => None,
            } });
        }
        match edit {
            Some(edit) => {
                proof {
                    lemma_views_push(edits@, edit);
                }
                updates.push(Update { mode, edit_index: Some(edits.len()) });
                edits.push(edit);
            },
            None => {
                updates.push(Update { mode, edit_index: None });
            },
        }
        i += 1;
    }
    Ok(Outcome { updates, edits })
}

/// What `resolve` does: its result is the plan for the state before the
/// call; the edits of the plan are written and logged unless this is a dry
/// run; nothing else changes.
pub open spec fn resolve_ensures(
    before: RepoStateView,
    mappings: Seq<MappingView>,
    specs: Seq<RefSpecView>,
    dry_run: DryRun,
    after: RepoStateView,
    r: Result<OutcomeView, Error>,
) -> bool {
    &&& r == plan_spec(before, mappings, specs)
    &&& after.worktrees == before.worktrees
    &&& after.graph == before.graph
    &&& after.refs == match r {
        Ok(outcome) if dry_run == DryRun::No => written(
            before.refs,
            outcome.edits,
            outcome.edits.len(),
        ),
        _ => before.refs,
    }
    &&& after.log == match r {
        Ok(outcome) if dry_run == DryRun::No => logged_after(
            before.log,
            outcome.edits,
            outcome.edits.len(),
        ),
        _ => before.log,
    }
}

/// Decides what happens to each of `mappings` and, unless this is a dry
/// run, writes the queued edits to the references of `state` in one batch.
///
/// The decisions do not depend on `dry_run`. An error leaves `state` as it was.
pub fn resolve(
    state: &mut RepoState,
    mappings: &Vec<Mapping>,
    refspecs: &Vec<RefSpec>,
    dry_run: DryRun,
) -> (r: Result<Outcome, Error>)
    requires
        specs_in_range(views(mappings@), views(refspecs@)),
    ensures
        resolve_ensures(
            old(state)@,
            views(mappings@),
            views(refspecs@),
            dry_run,
            final(state)@,
            planned(r),
        ),
        r matches Ok(outcome) ==> outcome.updates.len() == mappings.len() && aligned(outcome@),
{
    let outcome = match plan(state, mappings, refspecs) {
        Err(e) => {
            return Err(e);
        },
        Ok(outcome) => outcome,
    };
    proof {
        lemma_plan_expects_state(state@, views(mappings@), views(refspecs@), mappings.len() as nat);
    }
    match apply(&mut state.refs, &outcome.edits, dry_run) {
        Ok(()) => Ok(outcome),
        Err(_) => Err(Error::ConcurrentModification),
    }
}

} // verus!
