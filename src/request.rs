use vstd::prelude::*;

verus! {

/// The body of a request that creates a note.
#[derive(Debug)]
pub struct CreateNoteRequest {
    pub title: String,
    pub content: String,
}

/// The body of a request that replaces a note's title and content.
#[derive(Debug)]
pub struct UpdateNoteRequest {
    pub title: String,
    pub content: String,
}

} // verus!
