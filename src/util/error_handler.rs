//! Errors shown to the user.
use vstd::prelude::*;

verus! {

/// The event name under which errors are shown.
pub const RUST_ERROR_EVENT_TYPE: &'static str = "RustErrorEvent";

/// An error shown to the user; `kind` is the event's type tag.
#[derive(Clone, Debug)]
pub struct RustErrorEvent {
    pub kind: String,
    pub message: String,
}

impl RustErrorEvent {
    /// The event that shows `message`.
    pub fn new(message: String) -> (r: RustErrorEvent)
        ensures
            r.kind@ == RUST_ERROR_EVENT_TYPE@,
            r.message@ == message@,
    {
        RustErrorEvent { kind: RUST_ERROR_EVENT_TYPE.to_owned(), message }
    }
}

} // verus!
