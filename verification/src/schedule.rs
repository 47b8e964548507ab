//! The dispatcher: the single entry point that turns user intents into
//! mutations of the catalog, the grid and the editor, keeping the three
//! consistent.  `step` is the mathematical transition relation; `handle` is
//! proved to implement it exactly.
use vstd::prelude::*;

use crate::activity::ActivityView;
use crate::activity::ClassType;
use crate::activity::NewActivityTextInputs;
use crate::catalog::Catalog;
use crate::catalog::index_of_id;
use crate::catalog::lemma_mex_exists;
use crate::catalog::lemma_push_new_id;
use crate::catalog::lemma_remove_id;
use crate::catalog::lemma_update_same_id;
use crate::catalog::spec_mex;
use crate::catalog::is_mex;
use crate::catalog::unique_ids;
use crate::catalog::used_id;
use crate::editor::EditorState;
use crate::editor::EditorView;
use crate::error::SchedulerError;
use crate::grid::ScheduleGrid;
use crate::grid::SlotBindingView;
use crate::grid::cleared_of;
use crate::grid::refs_live;
use crate::grid::spec_slot_index;

verus! {

/// A user intent: the only mutation channel into the scheduler state.
pub enum Intent {
    /// Open an editor session that creates a new activity.
    RequestNewActivity,
    /// Open an editor session on the existing activity with the given id.
    RequestEditActivity(usize),
    /// Close the editor session without touching the catalog.
    CancelEdit,
    /// Replace the text of one editor field.
    ActivityFieldChanged(NewActivityTextInputs, String),
    /// Choose the class type in the editor.
    ActivityTypeSelected(ClassType),
    /// Commit the editor session to the catalog and close it.
    SubmitActivity,
    /// Delete the activity with the given id and clear every grid cell
    /// referencing it.
    RemoveActivity(usize),
    /// Bind the cell `(day, slot)` to the given activity id, or empty it.
    AssignSlot(usize, usize, Option<usize>),
    /// Ask for the given URL to be opened externally; no state change.
    LaunchMeeting(String),
}

/// Mathematical model of an intent.
#[verifier::ext_equal]
pub ghost enum IntentView {
    RequestNewActivity,
    RequestEditActivity { id: nat },
    CancelEdit,
    ActivityFieldChanged { field: NewActivityTextInputs, value: Seq<char> },
    ActivityTypeSelected { class_type: ClassType },
    SubmitActivity,
    RemoveActivity { id: nat },
    AssignSlot { day: int, slot: int, target: Option<nat> },
    LaunchMeeting { url: Seq<char> },
}

impl View for Intent {
    type V = IntentView;

    open spec fn view(&self) -> IntentView {
        match *self {
            Intent::RequestNewActivity => IntentView::RequestNewActivity,
            Intent::RequestEditActivity(id) => IntentView::RequestEditActivity { id: id as nat },
            Intent::CancelEdit => IntentView::CancelEdit,
            Intent::ActivityFieldChanged(field, value) => IntentView::ActivityFieldChanged {
                field,
                value: value@,
            },
            Intent::ActivityTypeSelected(class_type) => IntentView::ActivityTypeSelected {
                class_type,
            },
            Intent::SubmitActivity => IntentView::SubmitActivity,
            Intent::RemoveActivity(id) => IntentView::RemoveActivity { id: id as nat },
            Intent::AssignSlot(day, slot, target) => IntentView::AssignSlot {
                day: day as int,
                slot: slot as int,
                target: match target {
                    Some(id) => Some(id as nat),
                    None => None,
                },
            },
            Intent::LaunchMeeting(url) => IntentView::LaunchMeeting { url: url@ },
        }
    }
}

/// Mathematical model of the whole scheduler state.
#[verifier::ext_equal]
pub ghost struct ScheduleView {
    pub catalog: Seq<ActivityView>,
    pub grid: Seq<Option<SlotBindingView>>,
    pub editor: EditorView,
}

impl ScheduleView {
    /// The state invariant: distinct catalog ids, a full 5 x 6 grid, and no
    /// binding referencing a dead id.
    pub open spec fn wf(self) -> bool {
        &&& unique_ids(self.catalog)
        &&& self.grid.len() == 30
        &&& refs_live(self.catalog, self.grid)
    }
}

/// What one step yields: the next state and the reported outcome.  An
/// `Ok(Some(url))` outcome asks the surrounding layer to open `url`.
#[verifier::ext_equal]
pub ghost struct StepResult {
    pub state: ScheduleView,
    pub outcome: Result<Option<Seq<char>>, SchedulerError>,
}

pub open spec fn step_request_new(s: ScheduleView) -> StepResult {
    if s.editor is Closed {
        StepResult {
            state: ScheduleView {
                editor: EditorView::Editing {
                    target: None,
                    name: Seq::empty(),
                    url: Seq::empty(),
                    class_type: None,
                },
                ..s
            },
            outcome: Ok(None),
        }
    } else {
        StepResult { state: s, outcome: Err(SchedulerError::InvalidStateTransition) }
    }
}

pub open spec fn step_request_edit(s: ScheduleView, id: nat) -> StepResult {
    if !(s.editor is Closed) {
        StepResult { state: s, outcome: Err(SchedulerError::InvalidStateTransition) }
    } else if used_id(s.catalog, id) {
        let a = s.catalog[index_of_id(s.catalog, id)];
        StepResult {
            state: ScheduleView {
                editor: EditorView::Editing {
                    target: Some(id),
                    name: a.name,
                    url: a.url,
                    class_type: Some(a.class_type),
                },
                ..s
            },
            outcome: Ok(None),
        }
    } else {
        StepResult { state: s, outcome: Err(SchedulerError::NotFound) }
    }
}

pub open spec fn step_cancel(s: ScheduleView) -> StepResult {
    StepResult { state: ScheduleView { editor: EditorView::Closed, ..s }, outcome: Ok(None) }
}

pub open spec fn step_field_changed(
    s: ScheduleView,
    field: NewActivityTextInputs,
    value: Seq<char>,
) -> StepResult {
    match s.editor {
        EditorView::Editing { target, name, url, class_type } => {
            let editor = match field {
                NewActivityTextInputs::Name => EditorView::Editing {
                    target,
                    name: value,
                    url,
                    class_type,
                },
                NewActivityTextInputs::URL => EditorView::Editing {
                    target,
                    name,
                    url: value,
                    class_type,
                },
            };
            StepResult { state: ScheduleView { editor, ..s }, outcome: Ok(None) }
        },
        EditorView::Closed => StepResult {
            state: s,
            outcome: Err(SchedulerError::InvalidStateTransition),
        },
    }
}

pub open spec fn step_type_selected(s: ScheduleView, t: ClassType) -> StepResult {
    match s.editor {
        EditorView::Editing { target, name, url, class_type } => StepResult {
            state: ScheduleView {
                editor: EditorView::Editing { target, name, url, class_type: Some(t) },
                ..s
            },
            outcome: Ok(None),
        },
        EditorView::Closed => StepResult {
            state: s,
            outcome: Err(SchedulerError::InvalidStateTransition),
        },
    }
}

pub open spec fn step_submit(s: ScheduleView) -> StepResult {
    match s.editor {
        EditorView::Closed => StepResult {
            state: s,
            outcome: Err(SchedulerError::InvalidStateTransition),
        },
        EditorView::Editing { target, name, url, class_type } => {
            let ct = match class_type {
                Some(t) => t,
                None => ClassType::Lecture,
            };
            match target {
                None => StepResult {
                    state: ScheduleView {
                        catalog: s.catalog.push(
                            ActivityView { id: spec_mex(s.catalog), name, url, class_type: ct },
                        ),
                        grid: s.grid,
                        editor: EditorView::Closed,
                    },
                    outcome: Ok(None),
                },
                Some(id) => if used_id(s.catalog, id) {
                    StepResult {
                        state: ScheduleView {
                            catalog: s.catalog.update(
                                index_of_id(s.catalog, id),
                                ActivityView { id, name, url, class_type: ct },
                            ),
                            grid: s.grid,
                            editor: EditorView::Closed,
                        },
                        outcome: Ok(None),
                    }
                } else {
                    StepResult {
                        state: ScheduleView { editor: EditorView::Closed, ..s },
                        outcome: Err(SchedulerError::NotFound),
                    }
                },
            }
        },
    }
}

pub open spec fn step_remove(s: ScheduleView, id: nat) -> StepResult {
    let catalog = if used_id(s.catalog, id) {
        s.catalog.remove(index_of_id(s.catalog, id))
    } else {
        s.catalog
    };
    StepResult {
        state: ScheduleView { catalog, grid: cleared_of(s.grid, id), editor: s.editor },
        outcome: Ok(None),
    }
}

pub open spec fn step_assign(s: ScheduleView, day: int, slot: int, target: Option<nat>) -> StepResult {
    let cell = match target {
        Some(id) => if used_id(s.catalog, id) {
            Some(
                SlotBindingView {
                    activity_id: id,
                    display_label: s.catalog[index_of_id(s.catalog, id)].name,
                },
            )
        } else {
            None
        },
        None => None,
    };
    StepResult {
        state: ScheduleView { grid: s.grid.update(spec_slot_index(day, slot), cell), ..s },
        outcome: Ok(None),
    }
}

pub open spec fn step_launch(s: ScheduleView, url: Seq<char>) -> StepResult {
    StepResult { state: s, outcome: Ok(Some(url)) }
}

/// The transition relation of the scheduler: one intent, fully processed.
pub open spec fn step(s: ScheduleView, m: IntentView) -> StepResult {
    match m {
        IntentView::RequestNewActivity => step_request_new(s),
        IntentView::RequestEditActivity { id } => step_request_edit(s, id),
        IntentView::CancelEdit => step_cancel(s),
        IntentView::ActivityFieldChanged { field, value } => step_field_changed(s, field, value),
        IntentView::ActivityTypeSelected { class_type } => step_type_selected(s, class_type),
        IntentView::SubmitActivity => step_submit(s),
        IntentView::RemoveActivity { id } => step_remove(s, id),
        IntentView::AssignSlot { day, slot, target } => step_assign(s, day, slot, target),
        IntentView::LaunchMeeting { url } => step_launch(s, url),
    }
}

/// The model of an outcome returned by `handle`.
pub open spec fn outcome_view(r: Result<Option<String>, SchedulerError>) -> Result<
    Option<Seq<char>>,
    SchedulerError,
> {
    match r {
        Ok(Some(u)) => Ok(Some(u@)),
        Ok(None) => Ok(None),
        Err(e) => Err(e),
    }
}

/// Every step taken from a well-formed state leaves a well-formed state: the
/// catalog ids stay pairwise distinct, the grid keeps its 30 cells, and no
/// binding ever references a dead id.
pub proof fn lemma_step_preserves_wf(s: ScheduleView, m: IntentView)
    requires
        s.wf(),
        m matches IntentView::AssignSlot { day, slot, target } ==> 0 <= day < 5 && 0 <= slot < 6,
    ensures
        step(s, m).state.wf(),
{
    let s2 = step(s, m).state;
    match m {
        IntentView::SubmitActivity => {
            match s.editor {
                EditorView::Closed => {},
                EditorView::Editing { target, name, url, class_type } => {
                    let ct = match class_type {
                        Some(t) => t,
                        None => ClassType::Lecture,
                    };
                    match target {
                        None => {
                            lemma_mex_exists(s.catalog);
                            assert(is_mex(s.catalog, spec_mex(s.catalog)));
                            let a = ActivityView {
                                id: spec_mex(s.catalog),
                                name,
                                url,
                                class_type: ct,
                            };
                            lemma_push_new_id(s.catalog, a);
                            assert forall|i: int|
                                0 <= i < s2.grid.len() implies (#[trigger] s2.grid[i] matches Some(
                                b,
                            ) ==> used_id(s2.catalog, b.activity_id)) by {
                                if s2.grid[i] is Some {
                                    assert(used_id(s.catalog, s2.grid[i]->Some_0.activity_id));
                                }
                            }
                        },
                        Some(id) => {
                            if used_id(s.catalog, id) {
                                let i = index_of_id(s.catalog, id);
                                assert(0 <= i < s.catalog.len() && s.catalog[i].id == id);
                                lemma_update_same_id(
                                    s.catalog,
                                    i,
                                    ActivityView { id, name, url, class_type: ct },
                                );
                                assert forall|j: int|
                                    0 <= j < s2.grid.len() implies (#[trigger] s2.grid[j] matches
                                    Some(b) ==> used_id(s2.catalog, b.activity_id)) by {
                                    if s2.grid[j] is Some {
                                        assert(used_id(s.catalog, s2.grid[j]->Some_0.activity_id));
                                    }
                                }
                            }
                        },
                    }
                },
            }
        },
        IntentView::RemoveActivity { id } => {
            if used_id(s.catalog, id) {
                lemma_remove_id(s.catalog, id);
            }
            assert forall|i: int|
                0 <= i < s2.grid.len() implies (#[trigger] s2.grid[i] matches Some(b) ==> used_id(
                s2.catalog,
                b.activity_id,
            )) by {
                if s2.grid[i] is Some {
                    let b = s2.grid[i]->Some_0;
                    assert(s2.grid[i] == cleared_of(s.grid, id)[i]);
                    assert(s.grid[i] is Some && s.grid[i]->Some_0 == b && b.activity_id != id);
                    assert(used_id(s.catalog, b.activity_id));
                }
            }
        },
        IntentView::AssignSlot { day, slot, target } => {
            let idx = spec_slot_index(day, slot);
            assert(0 <= idx < 30);
            assert forall|i: int|
                0 <= i < s2.grid.len() implies (#[trigger] s2.grid[i] matches Some(b) ==> used_id(
                s2.catalog,
                b.activity_id,
            )) by {
                if i != idx {
                    assert(s2.grid[i] == s.grid[i]);
                }
            }
        },
        _ => {},
    }
}

/// The whole scheduler state: catalog, grid and editor, owned as one
/// aggregate and mutated only through `handle`.
pub struct Schedule {
    pub catalog: Catalog,
    pub grid: ScheduleGrid,
    pub editor: EditorState,
}

impl View for Schedule {
    type V = ScheduleView;

    open spec fn view(&self) -> ScheduleView {
        ScheduleView { catalog: self.catalog@, grid: self.grid@, editor: self.editor@ }
    }
}

impl Schedule {
    /// The empty scheduler: no activities, an empty grid, a closed editor.
    pub fn new() -> (s: Schedule)
        ensures
            s@.wf(),
            s@.catalog == Seq::<ActivityView>::empty(),
            forall|i: int| 0 <= i < 30 ==> s@.grid[i] is None,
            s@.editor == EditorView::Closed,
    {
        Schedule { catalog: Catalog::new(), grid: ScheduleGrid::new(), editor: EditorState::Closed }
    }

    /// Processes one intent to completion.  The state moves exactly as the
    /// transition relation `step` says, and the outcome is `step`'s outcome;
    /// an error means the state did not change except that a submit on a
    /// vanished target closes the editor.
    pub fn handle(&mut self, intent: Intent) -> (r: Result<Option<String>, SchedulerError>)
        requires
            old(self)@.wf(),
            intent matches Intent::AssignSlot(day, slot, _) ==> day < 5 && slot < 6,
        ensures
            final(self)@ == step(old(self)@, intent@).state,
            outcome_view(r) == step(old(self)@, intent@).outcome,
            final(self)@.wf(),
    {
        proof {
            lemma_step_preserves_wf(old(self)@, intent@);
        }
        match intent {
            Intent::RequestNewActivity => {
                match &self.editor {
                    EditorState::Closed => {
                        self.editor = EditorState::Editing {
                            target: None,
                            name: String::new(),
                            url: String::new(),
                            class_type: None,
                        };
                        Ok(None)
                    },
                    _ => Err(SchedulerError::InvalidStateTransition),
                }
            },
            Intent::RequestEditActivity(id) => {
                match &self.editor {
                    EditorState::Closed => {
                        match self.catalog.find(id) {
                            Some(a) => {
                                let name = a.name.clone();
                                let url = a.url.clone();
                                let class_type = a.class_type;
                                self.editor = EditorState::Editing {
                                    target: Some(id),
                                    name,
                                    url,
                                    class_type: Some(class_type),
                                };
                                Ok(None)
                            },
                            None => Err(SchedulerError::NotFound),
                        }
                    },
                    _ => Err(SchedulerError::InvalidStateTransition),
                }
            },
            Intent::CancelEdit => {
                self.editor = EditorState::Closed;
                Ok(None)
            },
            Intent::ActivityFieldChanged(field, value) => {
                let mut ed = EditorState::Closed;
                core::mem::swap(&mut ed, &mut self.editor);
                match ed {
                    EditorState::Editing { target, name, url, class_type } => {
                        self.editor = match field {
                            NewActivityTextInputs::Name => EditorState::Editing {
                                target,
                                name: value,
                                url,
                                class_type,
                            },
                            NewActivityTextInputs::URL => EditorState::Editing {
                                target,
                                name,
                                url: value,
                                class_type,
                            },
                        };
                        Ok(None)
                    },
                    EditorState::Closed => Err(SchedulerError::InvalidStateTransition),
                }
            },
            Intent::ActivityTypeSelected(class_type) => {
                let mut ed = EditorState::Closed;
                core::mem::swap(&mut ed, &mut self.editor);
                match ed {
                    EditorState::Editing { target, name, url, .. } => {
                        self.editor = EditorState::Editing {
                            target,
                            name,
                            url,
                            class_type: Some(class_type),
                        };
                        Ok(None)
                    },
                    EditorState::Closed => Err(SchedulerError::InvalidStateTransition),
                }
            },
            Intent::SubmitActivity => {
                let mut ed = EditorState::Closed;
                core::mem::swap(&mut ed, &mut self.editor);
                match ed {
                    EditorState::Closed => Err(SchedulerError::InvalidStateTransition),
                    EditorState::Editing { target, name, url, class_type } => {
                        let ct = match class_type {
                            Some(t) => t,
                            None => ClassType::Lecture,
                        };
                        match target {
                            None => {
                                let _id = self.catalog.add(name, url, ct);
                                Ok(None)
                            },
                            Some(id) => {
                                match self.catalog.update(id, name, url, ct) {
                                    Ok(u) => Ok(None),
                                    Err(e) => Err(e),
                                }
                            },
                        }
                    },
                }
            },
            Intent::RemoveActivity(id) => {
                self.grid.on_activity_removed(id);
                self.catalog.remove(id);
                Ok(None)
            },
            Intent::AssignSlot(day, slot, target) => {
                match target {
                    Some(id) => self.grid.assign(day, slot, id, &self.catalog),
                    None => self.grid.clear(day, slot),
                }
                Ok(None)
            },
            Intent::LaunchMeeting(url) => Ok(Some(url)),
        }
    }
}

} // verus!
