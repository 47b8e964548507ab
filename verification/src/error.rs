//! Errors reported by the catalog and the intent dispatcher.
use vstd::prelude::*;

verus! {

/// Why an intent or a catalog operation was rejected.  Rejections never
/// mutate state: the caller may ignore them and keep running.
#[derive(Clone, Copy, PartialEq, Eq, Structural, Debug)]
pub enum SchedulerError {
    /// The named activity id is not in the catalog.
    NotFound,
    /// The intent is not legal in the current editor state (for example a
    /// second edit session while one is already open).
    InvalidStateTransition,
}

} // verus!
