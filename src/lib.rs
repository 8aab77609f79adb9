//! Speech capture helpers: a verified voice-activity rechunker that turns a
//! stream of probability-annotated audio frames into utterance chunks, and the
//! small pieces of text and configuration handling around it.

pub mod audio;
pub mod config;
pub mod llm;
pub mod session_event;
pub mod system;
pub mod transcription;
pub mod util;
pub mod whisper;
