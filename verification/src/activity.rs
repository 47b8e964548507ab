//! The catalog's entry type: a user-defined activity with a stable id,
//! a display name, a meeting URL and a class type.
use vstd::prelude::*;

verus! {

/// The kind of a class/activity session.
#[derive(Clone, Copy, PartialEq, Eq, Structural, Debug)]
pub enum ClassType {
    Lecture,
    ProblemClass,
    Tutorial,
}

/// One entry of the activity catalog. `id` is the stable identifier that
/// grid slots reference; it never changes once the entry is created.
pub struct Activity {
    pub id: usize,
    pub name: String,
    pub url: String,
    pub class_type: ClassType,
}

/// Mathematical model of an `Activity`.
#[verifier::ext_equal]
pub ghost struct ActivityView {
    pub id: nat,
    pub name: Seq<char>,
    pub url: Seq<char>,
    pub class_type: ClassType,
}

impl View for Activity {
    type V = ActivityView;

    open spec fn view(&self) -> ActivityView {
        ActivityView {
            id: self.id as nat,
            name: self.name@,
            url: self.url@,
            class_type: self.class_type,
        }
    }
}

impl Clone for Activity {
    fn clone(&self) -> (r: Self)
        ensures
            r == *self,
    {
        Activity {
            id: self.id,
            name: self.name.clone(),
            url: self.url.clone(),
            class_type: self.class_type,
        }
    }
}

/// The two text fields of the activity editor.
#[derive(Debug, Eq, PartialEq, Copy, Clone, Structural)]
pub enum NewActivityTextInputs {
    Name,
    URL,
}

impl NewActivityTextInputs {
    /// The placeholder text shown in an empty editor field.
    pub fn get_placeholder(&self) -> (r: String)
        ensures
            *self is Name ==> r@ == "Enter activity name"@,
            *self is URL ==> r@ == "Enter activity URL"@,
    {
        match *self {
            NewActivityTextInputs::Name => "Enter activity name".to_string(),
            NewActivityTextInputs::URL => "Enter activity URL".to_string(),
        }
    }
}

} // verus!
