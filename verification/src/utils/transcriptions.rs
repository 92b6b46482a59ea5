//! Transcriptions: captions for clients that take whole seconds.

use vstd::prelude::*;

verus! {

/// One line of a transcription: its text, where it starts and how long it stays, in
/// whole seconds.
#[derive(Debug, Clone, PartialEq, Eq)]
pub struct TranscriptionSnippet {
    pub text: String,
    pub start: i32,
    pub duration: i32,
}

} // verus!
