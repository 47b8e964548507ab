use class_scheduler::activity::Activity;
use class_scheduler::activity::ClassType;
use class_scheduler::activity::NewActivityTextInputs;
use class_scheduler::catalog::Catalog;
use class_scheduler::catalog::find_activity;
use class_scheduler::editor::EditorState;
use class_scheduler::error::SchedulerError;
use class_scheduler::grid::SlotBinding;
use class_scheduler::persist::PersistRecord;
use class_scheduler::persist::load;
use class_scheduler::persist::save;
use class_scheduler::schedule::Intent;
use class_scheduler::schedule::Schedule;

fn add_activity(s: &mut Schedule, name: &str, url: &str) -> usize {
    s.handle(Intent::RequestNewActivity).unwrap();
    s.handle(Intent::ActivityFieldChanged(
        NewActivityTextInputs::Name,
        name.to_string(),
    ))
    .unwrap();
    s.handle(Intent::ActivityFieldChanged(
        NewActivityTextInputs::URL,
        url.to_string(),
    ))
    .unwrap();
    let before: Vec<usize> = s.catalog.list().iter().map(|a| a.id).collect();
    s.handle(Intent::SubmitActivity).unwrap();
    let after: Vec<usize> = s.catalog.list().iter().map(|a| a.id).collect();
    *after.iter().find(|id| !before.contains(id)).unwrap()
}

fn catalog_ids(s: &Schedule) -> Vec<usize> {
    s.catalog.list().iter().map(|a| a.id).collect()
}

fn cell(s: &Schedule, day: usize, slot: usize) -> Option<(usize, String)> {
    s.grid
        .get(day, slot)
        .as_ref()
        .map(|b| (b.activity_id, b.display_label.clone()))
}

#[test]
fn mex_allocation_after_gap() {
    let mut s = Schedule::new();
    for name in ["a", "b", "c", "d"] {
        add_activity(&mut s, name, "u");
    }
    assert_eq!(catalog_ids(&s), vec![0, 1, 2, 3]);
    s.handle(Intent::RemoveActivity(2)).unwrap();
    assert_eq!(catalog_ids(&s), vec![0, 1, 3]);
    let id = add_activity(&mut s, "e", "u");
    assert_eq!(id, 2);
}

#[test]
fn mex_allocation_dense() {
    let mut s = Schedule::new();
    for name in ["a", "b", "c"] {
        add_activity(&mut s, name, "u");
    }
    assert_eq!(catalog_ids(&s), vec![0, 1, 2]);
    let id = add_activity(&mut s, "d", "u");
    assert_eq!(id, 3);
}

#[test]
fn ids_stay_pairwise_distinct() {
    let mut s = Schedule::new();
    for k in 0..6 {
        add_activity(&mut s, &format!("a{}", k), "u");
    }
    s.handle(Intent::RemoveActivity(1)).unwrap();
    s.handle(Intent::RemoveActivity(4)).unwrap();
    add_activity(&mut s, "x", "u");
    add_activity(&mut s, "y", "u");
    add_activity(&mut s, "z", "u");
    let ids = catalog_ids(&s);
    for i in 0..ids.len() {
        for j in 0..i {
            assert_ne!(ids[i], ids[j]);
        }
    }
}

#[test]
fn removal_clears_references() {
    let mut s = Schedule::new();
    let id0 = add_activity(&mut s, "Algebra", "https://x");
    let id1 = add_activity(&mut s, "Logic", "https://y");
    s.handle(Intent::AssignSlot(0, 0, Some(id0))).unwrap();
    s.handle(Intent::AssignSlot(2, 3, Some(id0))).unwrap();
    s.handle(Intent::AssignSlot(1, 1, Some(id1))).unwrap();
    s.handle(Intent::RemoveActivity(id0)).unwrap();
    assert_eq!(cell(&s, 0, 0), None);
    assert_eq!(cell(&s, 2, 3), None);
    assert_eq!(cell(&s, 1, 1), Some((id1, "Logic".to_string())));
    for day in 0..5 {
        for slot in 0..6 {
            if let Some((id, _)) = cell(&s, day, slot) {
                assert_ne!(id, id0);
            }
        }
    }
}

#[test]
fn removal_is_idempotent() {
    let mut s = Schedule::new();
    let id0 = add_activity(&mut s, "Algebra", "https://x");
    add_activity(&mut s, "Logic", "https://y");
    s.handle(Intent::AssignSlot(0, 0, Some(id0))).unwrap();
    s.handle(Intent::RemoveActivity(id0)).unwrap();
    let ids_once = catalog_ids(&s);
    let cells_once: Vec<Option<(usize, String)>> = (0..30)
        .map(|i| cell(&s, i / 6, i % 6))
        .collect();
    let outcome = s.handle(Intent::RemoveActivity(id0));
    assert_eq!(outcome, Ok(None));
    assert_eq!(catalog_ids(&s), ids_once);
    let cells_twice: Vec<Option<(usize, String)>> = (0..30)
        .map(|i| cell(&s, i / 6, i % 6))
        .collect();
    assert_eq!(cells_once, cells_twice);
}

fn assert_same_state(a: &Schedule, b: &Schedule) {
    let la = a.catalog.list();
    let lb = b.catalog.list();
    assert_eq!(la.len(), lb.len());
    for (x, y) in la.iter().zip(lb.iter()) {
        assert_eq!(x.id, y.id);
        assert_eq!(x.name, y.name);
        assert_eq!(x.url, y.url);
        assert_eq!(x.class_type, y.class_type);
    }
    for day in 0..5 {
        for slot in 0..6 {
            assert_eq!(cell(a, day, slot), cell(b, day, slot));
        }
    }
}

#[test]
fn round_trip_empty_state() {
    let s = Schedule::new();
    let record = save(&s.catalog, &s.grid);
    let (catalog, grid) = load(record).unwrap();
    let restored = Schedule {
        catalog,
        grid,
        editor: EditorState::Closed,
    };
    assert_same_state(&s, &restored);
}

#[test]
fn round_trip_fully_bound_grid() {
    let mut s = Schedule::new();
    let id0 = add_activity(&mut s, "Algebra", "https://x");
    let id1 = add_activity(&mut s, "Logic", "https://y");
    for day in 0..5 {
        for slot in 0..6 {
            let id = if (day + slot) % 2 == 0 { id0 } else { id1 };
            s.handle(Intent::AssignSlot(day, slot, Some(id))).unwrap();
        }
    }
    let record = save(&s.catalog, &s.grid);
    assert_eq!(record.version, 1);
    let (catalog, grid) = load(record).unwrap();
    let restored = Schedule {
        catalog,
        grid,
        editor: EditorState::Closed,
    };
    assert_same_state(&s, &restored);
}

#[test]
fn load_rejects_wrong_version() {
    let s = Schedule::new();
    let mut record = save(&s.catalog, &s.grid);
    record.version = 2;
    assert!(load(record).is_none());
}

#[test]
fn load_rejects_short_plan() {
    let record = PersistRecord {
        version: 1,
        activities: vec![],
        plan: vec![None; 29],
    };
    assert!(load(record).is_none());
}

#[test]
fn load_rejects_duplicate_ids() {
    let record = PersistRecord {
        version: 1,
        activities: vec![
            Activity {
                id: 0,
                name: "a".to_string(),
                url: "u".to_string(),
                class_type: ClassType::Lecture,
            },
            Activity {
                id: 0,
                name: "b".to_string(),
                url: "v".to_string(),
                class_type: ClassType::Tutorial,
            },
        ],
        plan: vec![None; 30],
    };
    assert!(load(record).is_none());
}

#[test]
fn load_rejects_dangling_binding() {
    let mut plan: Vec<Option<SlotBinding>> = Vec::new();
    for _ in 0..30 {
        plan.push(None);
    }
    plan[7] = Some(SlotBinding {
        activity_id: 3,
        display_label: "ghostly".to_string(),
    });
    let record = PersistRecord {
        version: 1,
        activities: vec![],
        plan,
    };
    assert!(load(record).is_none());
}

#[test]
fn editor_rejects_second_session() {
    let mut s = Schedule::new();
    add_activity(&mut s, "Algebra", "https://x");
    s.handle(Intent::RequestNewActivity).unwrap();
    assert_eq!(
        s.handle(Intent::RequestNewActivity),
        Err(SchedulerError::InvalidStateTransition)
    );
    assert_eq!(
        s.handle(Intent::RequestEditActivity(0)),
        Err(SchedulerError::InvalidStateTransition)
    );
    assert!(matches!(s.editor, EditorState::Editing { .. }));
}

#[test]
fn field_change_while_closed_is_rejected() {
    let mut s = Schedule::new();
    assert_eq!(
        s.handle(Intent::ActivityFieldChanged(
            NewActivityTextInputs::Name,
            "x".to_string()
        )),
        Err(SchedulerError::InvalidStateTransition)
    );
    assert_eq!(
        s.handle(Intent::ActivityTypeSelected(ClassType::Tutorial)),
        Err(SchedulerError::InvalidStateTransition)
    );
    assert_eq!(
        s.handle(Intent::SubmitActivity),
        Err(SchedulerError::InvalidStateTransition)
    );
}

#[test]
fn scenario_create_first_activity() {
    let mut s = Schedule::new();
    s.handle(Intent::RequestNewActivity).unwrap();
    s.handle(Intent::ActivityFieldChanged(
        NewActivityTextInputs::Name,
        "Algebra".to_string(),
    ))
    .unwrap();
    s.handle(Intent::ActivityFieldChanged(
        NewActivityTextInputs::URL,
        "https://x".to_string(),
    ))
    .unwrap();
    s.handle(Intent::SubmitActivity).unwrap();
    let entries = s.catalog.list();
    assert_eq!(entries.len(), 1);
    assert_eq!(entries[0].id, 0);
    assert_eq!(entries[0].name, "Algebra");
    assert_eq!(entries[0].url, "https://x");
    assert_eq!(entries[0].class_type, ClassType::Lecture);
    assert!(matches!(s.editor, EditorState::Closed));
}

#[test]
fn scenario_remove_and_reallocate_id() {
    let mut s = Schedule::new();
    add_activity(&mut s, "Algebra", "https://x");
    add_activity(&mut s, "Logic", "https://y");
    assert_eq!(catalog_ids(&s), vec![0, 1]);
    s.handle(Intent::AssignSlot(3, 2, Some(0))).unwrap();
    s.handle(Intent::RemoveActivity(0)).unwrap();
    assert_eq!(catalog_ids(&s), vec![1]);
    assert_eq!(cell(&s, 3, 2), None);
    let id = add_activity(&mut s, "Geometry", "https://z");
    assert_eq!(id, 0);
}

#[test]
fn scenario_assign_missing_id_empties_cell() {
    let mut s = Schedule::new();
    let outcome = s.handle(Intent::AssignSlot(0, 0, Some(1)));
    assert_eq!(outcome, Ok(None));
    assert_eq!(cell(&s, 0, 0), None);
}

#[test]
fn assign_none_clears_cell() {
    let mut s = Schedule::new();
    let id0 = add_activity(&mut s, "Algebra", "https://x");
    s.handle(Intent::AssignSlot(4, 5, Some(id0))).unwrap();
    assert_eq!(cell(&s, 4, 5), Some((id0, "Algebra".to_string())));
    s.handle(Intent::AssignSlot(4, 5, None)).unwrap();
    assert_eq!(cell(&s, 4, 5), None);
}

#[test]
fn edit_request_on_missing_id_reports_not_found() {
    let mut s = Schedule::new();
    assert_eq!(
        s.handle(Intent::RequestEditActivity(7)),
        Err(SchedulerError::NotFound)
    );
    assert!(matches!(s.editor, EditorState::Closed));
}

#[test]
fn submit_on_vanished_target_reports_not_found() {
    let mut s = Schedule::new();
    let id0 = add_activity(&mut s, "Algebra", "https://x");
    s.handle(Intent::RequestEditActivity(id0)).unwrap();
    s.handle(Intent::RemoveActivity(id0)).unwrap();
    assert_eq!(
        s.handle(Intent::SubmitActivity),
        Err(SchedulerError::NotFound)
    );
    assert!(matches!(s.editor, EditorState::Closed));
    assert_eq!(catalog_ids(&s), Vec::<usize>::new());
}

#[test]
fn edit_session_updates_entry_in_place() {
    let mut s = Schedule::new();
    let id0 = add_activity(&mut s, "Algebra", "https://x");
    s.handle(Intent::RequestEditActivity(id0)).unwrap();
    s.handle(Intent::ActivityFieldChanged(
        NewActivityTextInputs::Name,
        "Analysis".to_string(),
    ))
    .unwrap();
    s.handle(Intent::ActivityTypeSelected(ClassType::ProblemClass))
        .unwrap();
    s.handle(Intent::SubmitActivity).unwrap();
    let entries = s.catalog.list();
    assert_eq!(entries.len(), 1);
    assert_eq!(entries[0].id, id0);
    assert_eq!(entries[0].name, "Analysis");
    assert_eq!(entries[0].url, "https://x");
    assert_eq!(entries[0].class_type, ClassType::ProblemClass);
}

#[test]
fn cancel_edit_discards_fields() {
    let mut s = Schedule::new();
    s.handle(Intent::RequestNewActivity).unwrap();
    s.handle(Intent::ActivityFieldChanged(
        NewActivityTextInputs::Name,
        "Discarded".to_string(),
    ))
    .unwrap();
    s.handle(Intent::CancelEdit).unwrap();
    assert!(matches!(s.editor, EditorState::Closed));
    assert_eq!(s.catalog.len(), 0);
}

#[test]
fn cancel_edit_while_closed_is_a_no_op() {
    let mut s = Schedule::new();
    assert_eq!(s.handle(Intent::CancelEdit), Ok(None));
    assert!(matches!(s.editor, EditorState::Closed));
}

#[test]
fn launch_meeting_reports_url_and_keeps_state() {
    let mut s = Schedule::new();
    add_activity(&mut s, "Algebra", "https://x");
    let outcome = s.handle(Intent::LaunchMeeting("https://x".to_string()));
    assert_eq!(outcome, Ok(Some("https://x".to_string())));
    assert_eq!(catalog_ids(&s), vec![0]);
}

#[test]
fn find_activity_matches_by_id() {
    let mut s = Schedule::new();
    add_activity(&mut s, "Algebra", "https://x");
    add_activity(&mut s, "Logic", "https://y");
    let entries = s.catalog.list();
    let found = find_activity(entries, Some(1)).unwrap();
    assert_eq!(found.id, 1);
    assert_eq!(found.name, "Logic");
    assert!(find_activity(entries, Some(9)).is_none());
    assert!(find_activity(entries, None).is_none());
}

#[test]
fn catalog_update_reports_not_found() {
    let mut catalog = Catalog::new();
    assert_eq!(
        catalog.update(
            0,
            "a".to_string(),
            "u".to_string(),
            ClassType::Lecture
        ),
        Err(SchedulerError::NotFound)
    );
}

#[test]
fn get_placeholder_text() {
    assert_eq!(
        NewActivityTextInputs::Name.get_placeholder(),
        "Enter activity name"
    );
    assert_eq!(
        NewActivityTextInputs::URL.get_placeholder(),
        "Enter activity URL"
    );
}

#[test]
fn stale_label_survives_rename() {
    let mut s = Schedule::new();
    let id0 = add_activity(&mut s, "Algebra", "https://x");
    s.handle(Intent::AssignSlot(0, 0, Some(id0))).unwrap();
    s.handle(Intent::RequestEditActivity(id0)).unwrap();
    s.handle(Intent::ActivityFieldChanged(
        NewActivityTextInputs::Name,
        "Analysis".to_string(),
    ))
    .unwrap();
    s.handle(Intent::SubmitActivity).unwrap();
    assert_eq!(cell(&s, 0, 0), Some((id0, "Algebra".to_string())));
    s.handle(Intent::AssignSlot(0, 0, Some(id0))).unwrap();
    assert_eq!(cell(&s, 0, 0), Some((id0, "Analysis".to_string())));
}
