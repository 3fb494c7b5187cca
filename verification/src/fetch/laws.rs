//! What holds of every outcome.

use vstd::prelude::*;
use crate::fetch::{DryRun, MappingView, RefSpecView, RepoStateView};
use crate::fetch::name::is_tag_name;
use crate::fetch::refs::{
    classify_spec, extended, plan_spec, plan_upto, resolve_ensures, stored, Decision, UpdateView,
};
use crate::fetch::refs::update::{Error, ModeView, OutcomeView};
use crate::fetch::store::RefValueView;
use crate::fetch::worktree::{holder_from, lemma_holder_from};

verus! {

/// The number of updates among the first `n` that have an edit.
pub open spec fn queued_before(updates: Seq<UpdateView>, n: nat) -> nat
    decreases n,
{
    if n == 0 {
        0
    } else {
        queued_before(updates, (n - 1) as nat) + if updates[n - 1].edit_index is Some {
            1nat
        } else {
            0nat
        }
    }
}

/// Edits and updates fit together: there are as many edits as updates that
/// have one, and the updates that have one refer to different edits, each
/// of which exists.
pub open spec fn aligned(outcome: OutcomeView) -> bool {
    &&& outcome.edits.len() == queued_before(outcome.updates, outcome.updates.len())
    &&& forall|i: int|
        0 <= i < outcome.updates.len() && (#[trigger] outcome.updates[i]).edit_index is Some
            ==> outcome.updates[i].edit_index->0 < outcome.edits.len()
    &&& forall|i: int, j: int|
        0 <= i < j < outcome.updates.len() && (#[trigger] outcome.updates[i]).edit_index is Some
            && (#[trigger] outcome.updates[j]).edit_index is Some ==> outcome.updates[i].edit_index
            != outcome.updates[j].edit_index
}

/// The update at position `i` of `outcome` is what classification decides
/// for `mapping`, and its edit, if it has one, is queued behind those of
/// the updates before it.
pub open spec fn follows(
    state: RepoStateView,
    mapping: MappingView,
    specs: Seq<RefSpecView>,
    outcome: OutcomeView,
    i: int,
) -> bool {
    match classify_spec(state, mapping, specs) {
        Err(_) => false,
        Ok(decision) => {
            &&& outcome.updates[i].mode == decision.mode
            &&& match decision.edit {
                None => outcome.updates[i].edit_index is None,
                Some(edit) => {
                    let at = queued_before(outcome.updates, i as nat);
                    &&& outcome.updates[i].edit_index == Some(at)
                    &&& at < outcome.edits.len()
                    &&& outcome.edits[at as int] == edit
                },
            }
        },
    }
}

/// The count goes by the updates it counts among, and by no others.
proof fn lemma_queued_before_agrees(a: Seq<UpdateView>, b: Seq<UpdateView>, n: nat)
    requires
        n <= a.len(),
        n <= b.len(),
        forall|i: int| 0 <= i < n ==> a[i] == b[i],
    ensures
        queued_before(a, n) == queued_before(b, n),
    decreases n,
{
    if n > 0 {
        lemma_queued_before_agrees(a, b, (n - 1) as nat);
    }
}

/// An update with an edit is counted from the next position on.
proof fn lemma_queued_before_grows(updates: Seq<UpdateView>, i: nat, j: nat)
    requires
        i < j <= updates.len(),
    ensures
        queued_before(updates, i) + (if updates[i as int].edit_index is Some {
            1nat
        } else {
            0nat
        }) <= queued_before(updates, j),
    decreases j,
{
    if i + 1 < j {
        lemma_queued_before_grows(updates, i, (j - 1) as nat);
    }
}

/// The outcome for the first `n` mappings has one update for each of them,
/// in their order, each as classification decides on its own; and its edits
/// are those of the decisions, in the same order.
pub proof fn lemma_plan_follows_classification(
    state: RepoStateView,
    mappings: Seq<MappingView>,
    specs: Seq<RefSpecView>,
    n: nat,
)
    requires
        n <= mappings.len(),
    ensures
        plan_upto(state, mappings, specs, n) matches Ok(outcome) ==> {
            &&& outcome.updates.len() == n
            &&& outcome.edits.len() == queued_before(outcome.updates, n)
            &&& forall|i: int| 0 <= i < n ==> follows(state, #[trigger] mappings[i], specs, outcome, i)
        },
    decreases n,
{
    if n > 0 {
        let m = (n - 1) as nat;
        lemma_plan_follows_classification(state, mappings, specs, m);
        if let Ok(outcome) = plan_upto(state, mappings, specs, n) {
            let before = plan_upto(state, mappings, specs, m)->Ok_0;
            let decision = classify_spec(state, mappings[n - 1], specs)->Ok_0;
            assert(outcome == extended(before, decision));
            lemma_queued_before_agrees(before.updates, outcome.updates, m);
            assert forall|i: int| 0 <= i < n implies follows(
                state,
                #[trigger] mappings[i],
                specs,
                outcome,
                i,
            ) by {
                if i < m {
                    assert(follows(state, mappings[i], specs, before, i));
                    assert(outcome.updates[i] == before.updates[i]);
                    lemma_queued_before_agrees(before.updates, outcome.updates, i as nat);
                }
            }
        }
    }
}

/// In every outcome there is one update per mapping, and edits and updates
/// fit together.
pub proof fn lemma_plan_is_aligned(
    state: RepoStateView,
    mappings: Seq<MappingView>,
    specs: Seq<RefSpecView>,
)
    ensures
        plan_spec(state, mappings, specs) matches Ok(outcome) ==> outcome.updates.len()
            == mappings.len() && aligned(outcome),
{
    lemma_plan_follows_classification(state, mappings, specs, mappings.len());
    if let Ok(outcome) = plan_spec(state, mappings, specs) {
        assert forall|i: int|
            0 <= i < outcome.updates.len() && (#[trigger] outcome.updates[i]).edit_index is Some
            implies outcome.updates[i].edit_index->0 < outcome.edits.len() by {
            assert(follows(state, mappings[i], specs, outcome, i));
        }
        assert forall|i: int, j: int|
            0 <= i < j < outcome.updates.len() && (#[trigger] outcome.updates[i]).edit_index is Some
                && (#[trigger] outcome.updates[j]).edit_index is Some implies outcome.updates[i].edit_index
            != outcome.updates[j].edit_index by {
            assert(follows(state, mappings[i], specs, outcome, i));
            assert(follows(state, mappings[j], specs, outcome, j));
            lemma_queued_before_grows(outcome.updates, i as nat, j as nat);
        }
    }
}

/// An update that refuses has no edit, and an update has an edit only if
/// its mapping has a destination.
pub proof fn lemma_edits_only_for_accepted_destinations(
    state: RepoStateView,
    mappings: Seq<MappingView>,
    specs: Seq<RefSpecView>,
    i: int,
)
    requires
        0 <= i < mappings.len(),
        plan_spec(state, mappings, specs) is Ok,
    ensures
        ({
            let update = plan_spec(state, mappings, specs)->Ok_0.updates[i];
            &&& update.mode.is_rejection() ==> update.edit_index is None
            &&& update.edit_index is Some ==> mappings[i].local is Some && (update.mode
                == ModeView::NoChangeNeeded || update.mode == ModeView::New || update.mode
                == ModeView::Forced || update.mode == ModeView::FastForward)
        }),
{
    lemma_plan_follows_classification(state, mappings, specs, mappings.len());
    assert(follows(state, mappings[i], specs, plan_spec(state, mappings, specs)->Ok_0, i));
}

/// A mapping without destination needs no change and queues no edit,
/// whatever the patterns say.
pub proof fn lemma_no_destination_no_change(
    state: RepoStateView,
    mappings: Seq<MappingView>,
    specs: Seq<RefSpecView>,
    i: int,
)
    requires
        0 <= i < mappings.len(),
        mappings[i].local is None,
        plan_spec(state, mappings, specs) is Ok,
    ensures
        plan_spec(state, mappings, specs)->Ok_0.updates[i] == (UpdateView {
            mode: ModeView::NoChangeNeeded,
            edit_index: None,
        }),
{
    lemma_plan_follows_classification(state, mappings, specs, mappings.len());
    assert(follows(state, mappings[i], specs, plan_spec(state, mappings, specs)->Ok_0, i));
}

/// A destination that is a symbolic reference is refused and queues no
/// edit, whatever the patterns say.
pub proof fn lemma_symbolic_is_never_written(
    state: RepoStateView,
    mappings: Seq<MappingView>,
    specs: Seq<RefSpecView>,
    i: int,
)
    requires
        0 <= i < mappings.len(),
        mappings[i].local matches Some(name) && stored(state.refs, name) matches Some(
            RefValueView::Symbolic(_),
        ),
        plan_spec(state, mappings, specs) is Ok,
    ensures
        plan_spec(state, mappings, specs)->Ok_0.updates[i] == (UpdateView {
            mode: ModeView::RejectedSymbolic,
            edit_index: None,
        }),
{
    lemma_plan_follows_classification(state, mappings, specs, mappings.len());
    assert(follows(state, mappings[i], specs, plan_spec(state, mappings, specs)->Ok_0, i));
}

/// A destination that some worktree has checked out is refused with the
/// directory of the first such worktree, and queues no edit. Neither the
/// value to fetch nor the value the destination has plays a part. The
/// destination must be readable and no symbolic reference, since those are
/// dealt with before worktrees are looked at.
pub proof fn lemma_checked_out_is_refused(
    state: RepoStateView,
    mappings: Seq<MappingView>,
    specs: Seq<RefSpecView>,
    i: int,
    w: int,
)
    requires
        0 <= i < mappings.len(),
        mappings[i].local is Some,
        !(stored(state.refs, mappings[i].local->0) matches Some(RefValueView::Symbolic(_))),
        !(stored(state.refs, mappings[i].local->0) matches Some(RefValueView::Unreadable)),
        state.worktrees is Some,
        0 <= w < state.worktrees->0.len(),
        state.worktrees->0[w].head == mappings[i].local,
        plan_spec(state, mappings, specs) is Ok,
    ensures
        ({
            let worktrees = state.worktrees->0;
            let first = holder_from(worktrees, mappings[i].local->0, 0);
            &&& first is Some
            &&& 0 <= first->0 <= w
            &&& plan_spec(state, mappings, specs)->Ok_0.updates[i] == (UpdateView {
                mode: ModeView::RejectedCurrentlyCheckedOut {
                    worktree_dir: worktrees[first->0].dir,
                },
                edit_index: None,
            })
        }),
{
    lemma_holder_from(state.worktrees->0, mappings[i].local->0, 0);
    lemma_plan_follows_classification(state, mappings, specs, mappings.len());
    assert(follows(state, mappings[i], specs, plan_spec(state, mappings, specs)->Ok_0, i));
}

/// An existing tag with another value than the one to fetch is refused
/// when its pattern does not force, and overwritten when it does. The tag
/// must not be checked out in a worktree, which would refuse it before.
pub proof fn lemma_tags_are_not_clobbered(
    state: RepoStateView,
    mappings: Seq<MappingView>,
    specs: Seq<RefSpecView>,
    i: int,
)
    requires
        0 <= i < mappings.len(),
        mappings[i].local is Some,
        is_tag_name(mappings[i].local->0),
        stored(state.refs, mappings[i].local->0) matches Some(RefValueView::Direct(current))
            && current != mappings[i].target,
        state.worktrees matches Some(worktrees) && holder_from(
            worktrees,
            mappings[i].local->0,
            0,
        ) is None,
        plan_spec(state, mappings, specs) is Ok,
    ensures
        ({
            let update = plan_spec(state, mappings, specs)->Ok_0.updates[i];
            let force = specs[mappings[i].spec_index as int].force;
            &&& !force ==> update == (UpdateView {
                mode: ModeView::RejectedTagUpdate,
                edit_index: None,
            })
            &&& force ==> update.mode == ModeView::Forced && update.edit_index is Some
        }),
{
    lemma_plan_follows_classification(state, mappings, specs, mappings.len());
    assert(follows(state, mappings[i], specs, plan_spec(state, mappings, specs)->Ok_0, i));
}

/// Whatever meets the contract of `resolve` on the same state, mappings,
/// patterns and flag is the same result and leaves the same state.
pub proof fn lemma_resolve_is_deterministic(
    before: RepoStateView,
    mappings: Seq<MappingView>,
    specs: Seq<RefSpecView>,
    dry_run: DryRun,
    after_a: RepoStateView,
    result_a: Result<OutcomeView, Error>,
    after_b: RepoStateView,
    result_b: Result<OutcomeView, Error>,
)
    requires
        resolve_ensures(before, mappings, specs, dry_run, after_a, result_a),
        resolve_ensures(before, mappings, specs, dry_run, after_b, result_b),
    ensures
        result_a == result_b,
        after_a == after_b,
{
}

/// A dry run leaves the state as it was, so that every reference reads as
/// before and a second dry run gives the result of the first.
pub proof fn lemma_dry_run_is_pure(
    before: RepoStateView,
    mappings: Seq<MappingView>,
    specs: Seq<RefSpecView>,
    after: RepoStateView,
    result: Result<OutcomeView, Error>,
    after_again: RepoStateView,
    result_again: Result<OutcomeView, Error>,
)
    requires
        resolve_ensures(before, mappings, specs, DryRun::Yes, after, result),
        resolve_ensures(after, mappings, specs, DryRun::Yes, after_again, result_again),
    ensures
        after == before,
        forall|name: Seq<u8>| stored(after.refs, name) == stored(before.refs, name),
        result_again == result,
        after_again == before,
{
}

} // verus!
