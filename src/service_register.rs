use vstd::prelude::*;
use crate::repository::NoteRepository;
use crate::service::NoteService;

verus! {

/// The composition root: the note service, over its repository, that every
/// handler is given.
pub struct ServiceRegister {
    pub note_service: NoteService,
}

impl ServiceRegister {
    /// Wraps `repository` in the note service.
    pub fn new(repository: NoteRepository) -> (r: ServiceRegister)
        requires
            repository.wf(),
        ensures
            r.note_service.wf(),
            r.note_service@ == repository@,
            r.note_service.issued_ids() == repository.issued_ids(),
    {
        ServiceRegister { note_service: NoteService::new(repository) }
    }
}

} // verus!
