//! Cross-cutting laws of the dispatcher, stated over the transition
//! relation `step` and proved once and for all.  Per-operation laws (mex
//! allocation, id uniqueness, the persistence round trip) stand as the
//! contracts of `Catalog::add`, `lemma_step_preserves_wf` and
//! `lemma_save_load_round_trip`.
use vstd::prelude::*;

use crate::catalog::lemma_remove_id;
use crate::catalog::used_id;
use crate::error::SchedulerError;
use crate::grid::cleared_of;
use crate::grid::spec_slot_index;
use crate::schedule::IntentView;
use crate::schedule::ScheduleView;
use crate::schedule::StepResult;
use crate::schedule::step;

verus! {

/// Removing an activity clears every reference to it: the slot that was
/// bound to `x` is empty afterwards, and no slot anywhere still references
/// `x`.
pub proof fn lemma_removal_clears_references(s: ScheduleView, day: int, slot: int, x: nat)
    requires
        s.wf(),
        0 <= day < 5,
        0 <= slot < 6,
        s.grid[spec_slot_index(day, slot)] matches Some(b) && b.activity_id == x,
    ensures
        ({
            let s2 = step(s, IntentView::RemoveActivity { id: x }).state;
            &&& s2.grid[spec_slot_index(day, slot)] is None
            &&& forall|i: int|
                0 <= i < s2.grid.len() ==> !(#[trigger] s2.grid[i] is Some
                    && s2.grid[i]->Some_0.activity_id == x)
        }),
{
    let s2 = step(s, IntentView::RemoveActivity { id: x }).state;
    assert(s2.grid == cleared_of(s.grid, x));
    assert forall|i: int|
        0 <= i < s2.grid.len() implies !(#[trigger] s2.grid[i] is Some
        && s2.grid[i]->Some_0.activity_id == x) by {
        assert(s2.grid[i] == cleared_of(s.grid, x)[i]);
    }
}

/// Removal is idempotent: removing `x` twice yields exactly the state and
/// the outcome of removing it once.
pub proof fn lemma_remove_idempotent(s: ScheduleView, x: nat)
    requires
        s.wf(),
    ensures
        step(step(s, IntentView::RemoveActivity { id: x }).state, IntentView::RemoveActivity {
            id: x,
        }) == step(s, IntentView::RemoveActivity { id: x }),
{
    let m = IntentView::RemoveActivity { id: x };
    let once = step(s, m).state;
    if used_id(s.catalog, x) {
        lemma_remove_id(s.catalog, x);
    }
    assert(!used_id(once.catalog, x));
    assert forall|i: int| 0 <= i < once.grid.len() implies cleared_of(once.grid, x)[i]
        == once.grid[i] by {
        assert(once.grid[i] == cleared_of(s.grid, x)[i]);
    }
    assert(cleared_of(once.grid, x) =~= once.grid);
    assert(step(once, m).state =~= once);
    assert(step(once, m) =~= step(s, m));
}

/// Only one edit session may be open: while the editor is editing, another
/// request to create or to edit is rejected and changes nothing.
pub proof fn lemma_editor_single_session(s: ScheduleView, id: nat)
    requires
        s.editor is Editing,
    ensures
        step(s, IntentView::RequestNewActivity) == (StepResult {
            state: s,
            outcome: Err(SchedulerError::InvalidStateTransition),
        }),
        step(s, IntentView::RequestEditActivity { id }) == (StepResult {
            state: s,
            outcome: Err(SchedulerError::InvalidStateTransition),
        }),
{
}

} // verus!
