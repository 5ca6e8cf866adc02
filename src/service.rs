use vstd::prelude::*;
use crate::identity::new_note_id;
use crate::note::{NoteModel, NoteResponse, NoteView};
use crate::repository::{
    fresh_note, has_id, lookup, removed, revised, store_wf, NoteRepository, RepositoryError,
};

verus! {

/// The notes that an optional response shows.
pub open spec fn response_view(o: Option<NoteResponse>) -> Option<NoteView> {
    match o {
        Some(n) => Some(n@),
        None => None,
    }
}

/// The notes that a sequence of responses shows.
pub open spec fn responses_view(v: Seq<NoteResponse>) -> Seq<NoteView> {
    v.map_values(|n: NoteResponse| n@)
}

/// A failure of the service, with the repository's cause.
#[derive(Debug)]
pub enum ServiceError {
    Repository(RepositoryError),
}

/// The note service: hands out the repository's notes as responses and
/// wraps the repository's failures.
pub struct NoteService {
    repository: NoteRepository,
}

impl View for NoteService {
    type V = Seq<NoteView>;

    closed spec fn view(&self) -> Seq<NoteView> {
        self.repository@
    }
}

impl NoteService {
    /// Every identifier the service ever stored a note under.
    pub closed spec fn issued_ids(&self) -> Seq<u128> {
        self.repository.issued_ids()
    }

    /// The service's invariant: identifiers are unique, every note is well
    /// formed, and every stored identifier was issued.
    pub open spec fn wf(&self) -> bool {
        store_wf(self@, self.issued_ids())
    }

    /// A service over `repository`.
    pub fn new(repository: NoteRepository) -> (r: NoteService)
        requires
            repository.wf(),
        ensures
            r.wf(),
            r@ == repository@,
            r.issued_ids() == repository.issued_ids(),
    {
        NoteService { repository }
    }

    /// Every note, in the order of creation.
    pub fn get_notes(&self) -> (r: Result<Vec<NoteResponse>, ServiceError>)
        requires
            self.wf(),
        ensures
            r matches Ok(v) && responses_view(v@) == self@,
    {
        let notes = self.repository.get_notes();
        let ghost shown = notes@.map_values(|n: NoteModel| n@);
        let mut out: Vec<NoteResponse> = Vec::new();
        let mut i: usize = 0;
        while i < notes.len()
            invariant
                i <= notes@.len(),
                out@.len() == i,
                shown == notes@.map_values(|n: NoteModel| n@),
                forall|j: int| 0 <= j < i ==> (#[trigger] out@[j])@ == shown[j],
            decreases notes@.len() - i,
        {
            out.push(notes[i].to_response());
            i = i + 1;
        }
        assert(responses_view(out@) =~= self@);
        Ok(out)
    }

    /// The note with identifier `id`, or `None` where there is none.
    pub fn get_note_id(&self, id: u128) -> (r: Result<Option<NoteResponse>, ServiceError>)
        requires
            self.wf(),
        ensures
            r matches Ok(o) && response_view(o) == lookup(self@, id),
    {
        match self.repository.get_note_id(id) {
            Some(n) => Ok(Some(n.to_response())),
            None => Ok(None),
        }
    }

    /// Creates a note under `id` at time `now`. Fails, changing nothing,
    /// exactly where `id` was issued before.
    pub fn create_note_with_id(&mut self, id: u128, title: String, content: String, now: i64) -> (r:
        Result<NoteResponse, ServiceError>)
        requires
            old(self).wf(),
        ensures
            final(self).wf(),
            old(self).issued_ids().contains(id) ==> r is Err && final(self)@ == old(self)@
                && final(self).issued_ids() == old(self).issued_ids(),
            !old(self).issued_ids().contains(id) ==> (r matches Ok(n) && n@ == fresh_note(id, title@, content@, now as int)
                && !has_id(old(self)@, id) && final(self)@ == old(self)@.push(n@)
                && final(self).issued_ids() == old(self).issued_ids().push(id)),
    {
        match self.repository.create_note(id, title, content, now) {
            Ok(n) => Ok(n.to_response()),
            Err(e) => Err(ServiceError::Repository(e)),
        }
    }

    /// Creates a note under a new random identifier at time `now`. Where the
    /// identifier drawn was issued before it fails and changes nothing; so a
    /// service that never issued an identifier always succeeds.
    pub fn create_note(&mut self, title: String, content: String, now: i64) -> (r: Result<
        NoteResponse,
        ServiceError,
    >)
        requires
            old(self).wf(),
        ensures
            final(self).wf(),
            r is Err ==> old(self).issued_ids().len() > 0 && final(self)@ == old(self)@
                && final(self).issued_ids() == old(self).issued_ids(),
            r matches Ok(n) ==> !old(self).issued_ids().contains(n.id) && !has_id(old(self)@, n.id)
                && n@ == fresh_note(n.id, title@, content@, now as int) && final(self)@ == old(self)@.push(n@)
                && final(self).issued_ids() == old(self).issued_ids().push(n.id),
    {
        let id = new_note_id();
        self.create_note_with_id(id, title, content, now)
    }

    /// Replaces the title and content of the note with identifier `id`; its
    /// modification time moves to `now`, never backwards. `None` where there
    /// is no such note.
    pub fn update_note(&mut self, id: u128, title: String, content: String, now: i64) -> (r: Result<
        Option<NoteResponse>,
        ServiceError,
    >)
        requires
            old(self).wf(),
        ensures
            final(self).wf(),
            final(self)@ == revised(old(self)@, id, title@, content@, now as int),
            final(self).issued_ids() == old(self).issued_ids(),
            r matches Ok(o) && response_view(o) == lookup(final(self)@, id),
            r matches Ok(o) && (o is None <==> !has_id(old(self)@, id)),
    {
        match self.repository.update_note(id, title, content, now) {
            Some(n) => Ok(Some(n.to_response())),
            None => Ok(None),
        }
    }

    /// Removes the note with identifier `id`, if there is one.
    pub fn delete_note(&mut self, id: u128) -> (r: Result<(), ServiceError>)
        requires
            old(self).wf(),
        ensures
            final(self).wf(),
            final(self)@ == removed(old(self)@, id),
            final(self).issued_ids() == old(self).issued_ids(),
            !has_id(final(self)@, id),
            r is Ok,
    {
        self.repository.delete(id);
        Ok(())
    }
}

} // verus!
