//! The activity editor: either closed, or one open create/edit session.
//! Only one session may be open at a time.
use vstd::prelude::*;

use crate::activity::ClassType;

verus! {

/// The editor state.  `target: None` means a new activity is being created;
/// `target: Some(id)` means the catalog entry carrying `id` is being edited.
pub enum EditorState {
    Closed,
    Editing { target: Option<usize>, name: String, url: String, class_type: Option<ClassType> },
}

/// Mathematical model of the editor state.
#[verifier::ext_equal]
pub ghost enum EditorView {
    Closed,
    Editing {
        target: Option<nat>,
        name: Seq<char>,
        url: Seq<char>,
        class_type: Option<ClassType>,
    },
}

impl View for EditorState {
    type V = EditorView;

    open spec fn view(&self) -> EditorView {
        match *self {
            EditorState::Closed => EditorView::Closed,
            EditorState::Editing { target, name, url, class_type } => EditorView::Editing {
                target: match target {
                    Some(id) => Some(id as nat),
                    None => None,
                },
                name: name@,
                url: url@,
                class_type,
            },
        }
    }
}

} // verus!
