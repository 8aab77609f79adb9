//! Events of a listening session shown to the user.
use vstd::prelude::*;

verus! {

/// What a session reports: that it started, a transcript, or an answer.
#[derive(Clone, Debug)]
pub enum SessionEvent {
    Started,
    Transcription { text: String },
    QuestionAnswer { text: String },
}

} // verus!
