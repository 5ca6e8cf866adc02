use vstd::prelude::*;

verus! {

/// What a note is, mathematically: an identifier, two texts and two
/// timestamps (microseconds since the Unix epoch).
pub ghost struct NoteView {
    pub id: u128,
    pub title: Seq<char>,
    pub content: Seq<char>,
    pub created_at: int,
    pub updated_at: int,
}

/// A note as the repository stores it.
#[derive(Debug)]
pub struct NoteModel {
    pub id: u128,
    pub title: String,
    pub content: String,
    pub created_at: i64,
    pub updated_at: i64,
}

/// A note as the service hands it out; field for field the stored note.
#[derive(Debug)]
pub struct NoteResponse {
    pub id: u128,
    pub title: String,
    pub content: String,
    pub created_at: i64,
    pub updated_at: i64,
}

impl View for NoteModel {
    type V = NoteView;

    open spec fn view(&self) -> NoteView {
        NoteView {
            id: self.id,
            title: self.title@,
            content: self.content@,
            created_at: self.created_at as int,
            updated_at: self.updated_at as int,
        }
    }
}

impl View for NoteResponse {
    type V = NoteView;

    open spec fn view(&self) -> NoteView {
        NoteView {
            id: self.id,
            title: self.title@,
            content: self.content@,
            created_at: self.created_at as int,
            updated_at: self.updated_at as int,
        }
    }
}

impl NoteView {
    /// A note is well formed when it was not modified before it was created.
    pub open spec fn well_formed(self) -> bool {
        self.created_at <= self.updated_at
    }
}

impl NoteModel {
    /// A copy of this note.
    pub fn duplicate(&self) -> (r: NoteModel)
        ensures
            r@ == self@,
    {
        NoteModel {
            id: self.id,
            title: self.title.clone(),
            content: self.content.clone(),
            created_at: self.created_at,
            updated_at: self.updated_at,
        }
    }

    /// The response that shows this note.
    pub fn to_response(&self) -> (r: NoteResponse)
        ensures
            r@ == self@,
    {
        NoteResponse {
            id: self.id,
            title: self.title.clone(),
            content: self.content.clone(),
            created_at: self.created_at,
            updated_at: self.updated_at,
        }
    }
}

} // verus!
