use vstd::prelude::*;
use crate::note::NoteResponse;
use crate::repository::{fresh_note, has_id, lookup, removed, revised};
use crate::request::{CreateNoteRequest, UpdateNoteRequest};
use crate::service::{response_view, responses_view, NoteService, ServiceError};

verus! {

/// The error that a handler hands back to the client.
#[derive(Debug)]
pub enum RequestError {
    RunTimeError(&'static str),
}

/// What a handler hands back: the body, or the error.
pub type JsonResult<T> = Result<T, RequestError>;

/// The one opaque error that a client sees: a runtime error saying "Failed".
pub open spec fn is_failure(e: RequestError) -> bool {
    e matches RequestError::RunTimeError(m) && m@ == seq!['F', 'a', 'i', 'l', 'e', 'd']
}

/// The handlers' answer to what the service returned: its value unchanged,
/// or, for any failure, the opaque runtime error.
pub fn respond<T>(outcome: Result<T, ServiceError>) -> (r: JsonResult<T>)
    ensures
        outcome matches Ok(v) ==> r == Ok::<T, RequestError>(v),
        outcome is Err ==> (r matches Err(e) && is_failure(e)),
{
    match outcome {
        Ok(v) => Ok(v),
        Err(_) => {
            let m: &'static str = "Failed";
            proof {
                reveal_strlit("Failed");
                assert(m@ =~= seq!['F', 'a', 'i', 'l', 'e', 'd']);
            }
            Err(RequestError::RunTimeError(m))
        },
    }
}

/// Lists every note, in the order of creation.
pub fn get_notes(service: &NoteService) -> (r: JsonResult<Vec<NoteResponse>>)
    requires
        service.wf(),
    ensures
        r matches Ok(v) && responses_view(v@) == service@,
{
    respond(service.get_notes())
}

/// The note with identifier `id`, or `None` (a null body) where there is none.
pub fn get_note_id(service: &NoteService, id: u128) -> (r: JsonResult<Option<NoteResponse>>)
    requires
        service.wf(),
    ensures
        r matches Ok(o) && response_view(o) == lookup(service@, id),
{
    respond(service.get_note_id(id))
}

/// Creates a note from `payload` at time `now`, under an identifier never
/// issued before. It fails only where the identifier drawn was issued
/// before, so never on a service that has issued none.
pub fn create_note(service: &mut NoteService, payload: CreateNoteRequest, now: i64) -> (r: JsonResult<
    NoteResponse,
>)
    requires
        old(service).wf(),
    ensures
        final(service).wf(),
        r matches Err(e) ==> is_failure(e) && old(service).issued_ids().len() > 0
            && final(service)@ == old(service)@ && final(service).issued_ids() == old(service).issued_ids(),
        r matches Ok(n) ==> !old(service).issued_ids().contains(n.id) && !has_id(old(service)@, n.id)
            && n@ == fresh_note(n.id, payload.title@, payload.content@, now as int)
            && final(service)@ == old(service)@.push(n@)
            && final(service).issued_ids() == old(service).issued_ids().push(n.id),
{
    respond(service.create_note(payload.title, payload.content, now))
}

/// Replaces the title and content of the note with identifier `id` from
/// `payload` at time `now`; `None` (a null body) where there is no such note.
pub fn update_note(service: &mut NoteService, id: u128, payload: UpdateNoteRequest, now: i64) -> (r:
    JsonResult<Option<NoteResponse>>)
    requires
        old(service).wf(),
    ensures
        final(service).wf(),
        final(service)@ == revised(old(service)@, id, payload.title@, payload.content@, now as int),
        final(service).issued_ids() == old(service).issued_ids(),
        r matches Ok(o) && response_view(o) == lookup(final(service)@, id),
        r matches Ok(o) && (o is None <==> !has_id(old(service)@, id)),
{
    respond(service.update_note(id, payload.title, payload.content, now))
}

/// Removes the note with identifier `id`; where there is none that is no error.
pub fn delete_note(service: &mut NoteService, id: u128) -> (r: JsonResult<()>)
    requires
        old(service).wf(),
    ensures
        final(service).wf(),
        final(service)@ == removed(old(service)@, id),
        final(service).issued_ids() == old(service).issued_ids(),
        !has_id(final(service)@, id),
        r is Ok,
{
    respond(service.delete_note(id))
}

} // verus!
