use axum_note::handler::{
    create_note, delete_note, get_note_id, get_notes, respond, update_note, RequestError,
};
use axum_note::note::NoteResponse;
use axum_note::repository::{NoteRepository, RepositoryError};
use axum_note::request::{CreateNoteRequest, UpdateNoteRequest};
use axum_note::router::{AppRouter, MESSAGE};
use axum_note::service::{NoteService, ServiceError};
use axum_note::service_register::ServiceRegister;

fn service() -> NoteService {
    NoteService::new(NoteRepository::new())
}

fn create(s: &mut NoteService, title: &str, content: &str, now: i64) -> NoteResponse {
    let payload = CreateNoteRequest { title: title.to_string(), content: content.to_string() };
    create_note(s, payload, now).expect("creation succeeds")
}

fn update(s: &mut NoteService, id: u128, title: &str, content: &str, now: i64) -> Option<NoteResponse> {
    let payload = UpdateNoteRequest { title: title.to_string(), content: content.to_string() };
    update_note(s, id, payload, now).expect("update succeeds")
}

#[test]
fn create_returns_note_with_equal_timestamps() {
    let mut s = service();
    let n = create(&mut s, "a", "b", 1_000);
    assert_eq!(n.title, "a");
    assert_eq!(n.content, "b");
    assert_eq!(n.created_at, 1_000);
    assert_eq!(n.updated_at, n.created_at);
}

#[test]
fn created_ids_are_version_four() {
    let mut s = service();
    let a = create(&mut s, "a", "b", 1);
    let b = create(&mut s, "a", "b", 1);
    assert_ne!(a.id, b.id);
    assert_eq!((a.id >> 76) & 0xf, 4);
    assert_eq!((b.id >> 76) & 0xf, 4);
}

#[test]
fn round_trip_through_get() {
    let mut s = service();
    let n = create(&mut s, "title", "", 42);
    let got = get_note_id(&s, n.id).unwrap().expect("note is found");
    assert_eq!(got.id, n.id);
    assert_eq!(got.title, "title");
    assert_eq!(got.content, "");
    assert_eq!(got.created_at, got.updated_at);
}

#[test]
fn list_shows_created_notes_in_order() {
    let mut s = service();
    assert!(get_notes(&s).unwrap().is_empty());
    let a = create(&mut s, "a", "b", 1);
    let b = create(&mut s, "c", "d", 2);
    let all = get_notes(&s).unwrap();
    assert_eq!(all.len(), 2);
    assert_eq!(all[0].id, a.id);
    assert_eq!(all[1].id, b.id);
    assert_eq!(all[1].title, "c");
}

#[test]
fn update_replaces_fields_and_moves_time() {
    let mut s = service();
    let n = create(&mut s, "a", "b", 100);
    let u = update(&mut s, n.id, "a2", "b2", 200).expect("note is found");
    assert_eq!(u.id, n.id);
    assert_eq!(u.title, "a2");
    assert_eq!(u.content, "b2");
    assert_eq!(u.created_at, 100);
    assert_eq!(u.updated_at, 200);
    assert!(u.updated_at > n.updated_at);
    let got = get_note_id(&s, n.id).unwrap().unwrap();
    assert_eq!(got.title, "a2");
    assert_eq!(got.updated_at, 200);
}

#[test]
fn update_never_moves_time_backwards() {
    let mut s = service();
    let n = create(&mut s, "a", "b", 500);
    let u = update(&mut s, n.id, "x", "y", 400).unwrap();
    assert_eq!(u.updated_at, 500);
    assert_eq!(u.created_at, 500);
    assert_eq!(u.title, "x");
}

#[test]
fn update_unknown_id_is_null_not_error() {
    let mut s = service();
    let n = create(&mut s, "a", "b", 1);
    assert!(update(&mut s, n.id ^ 1, "x", "y", 2).is_none());
    let got = get_note_id(&s, n.id).unwrap().unwrap();
    assert_eq!(got.title, "a");
    assert_eq!(get_notes(&s).unwrap().len(), 1);
}

#[test]
fn delete_then_get_is_null() {
    let mut s = service();
    let n = create(&mut s, "a", "b", 1);
    assert!(delete_note(&mut s, n.id).is_ok());
    assert!(get_note_id(&s, n.id).unwrap().is_none());
    assert!(get_notes(&s).unwrap().is_empty());
}

#[test]
fn delete_twice_succeeds() {
    let mut s = service();
    let n = create(&mut s, "a", "b", 1);
    let keep = create(&mut s, "c", "d", 2);
    assert!(delete_note(&mut s, n.id).is_ok());
    assert!(delete_note(&mut s, n.id).is_ok());
    let all = get_notes(&s).unwrap();
    assert_eq!(all.len(), 1);
    assert_eq!(all[0].id, keep.id);
}

#[test]
fn get_never_created_id_is_null() {
    let s = service();
    assert!(get_note_id(&s, 0).unwrap().is_none());
}

#[test]
fn notes_stay_visible_across_other_requests() {
    let mut s = service();
    let a = create(&mut s, "a", "b", 1);
    let b = create(&mut s, "c", "d", 2);
    update(&mut s, b.id, "e", "f", 3).unwrap();
    delete_note(&mut s, b.id).unwrap();
    let got = get_note_id(&s, a.id).unwrap().unwrap();
    assert_eq!(got.title, "a");
    assert_eq!(got.content, "b");
    assert_eq!(got.updated_at, 1);
}

#[test]
fn duplicate_id_is_refused() {
    let mut s = service();
    let first = s.create_note_with_id(7, "a".to_string(), "b".to_string(), 1).unwrap();
    assert_eq!(first.id, 7);
    let again = s.create_note_with_id(7, "x".to_string(), "y".to_string(), 2);
    assert!(matches!(again, Err(ServiceError::Repository(RepositoryError::DuplicateId))));
    let got = s.get_note_id(7).unwrap().unwrap();
    assert_eq!(got.title, "a");
}

#[test]
fn repository_operations_directly() {
    let mut r = NoteRepository::new();
    let n = r.create_note(1, "t".to_string(), "c".to_string(), 10).unwrap();
    assert_eq!(n.updated_at, 10);
    assert!(r.create_note(1, "u".to_string(), "d".to_string(), 11).is_err());
    let u = r.update_note(1, "t2".to_string(), "c2".to_string(), 20).unwrap();
    assert_eq!(u.title, "t2");
    assert_eq!(u.updated_at, 20);
    assert!(r.update_note(2, "t".to_string(), "c".to_string(), 30).is_none());
    assert_eq!(r.get_notes().len(), 1);
    r.delete(1);
    assert!(r.get_note_id(1).is_none());
    r.delete(1);
    assert!(r.get_notes().is_empty());
}

#[test]
fn failure_becomes_opaque_runtime_error() {
    let failed: Result<u8, ServiceError> = Err(ServiceError::Repository(RepositoryError::DuplicateId));
    assert!(matches!(respond(failed), Err(RequestError::RunTimeError("Failed"))));
    let fine: Result<u8, ServiceError> = Ok(3);
    assert!(matches!(respond(fine), Ok(3)));
}

#[test]
fn health_answer() {
    let h = AppRouter::health_checker_handler();
    assert_eq!(h.status, "success");
    assert_eq!(h.message, MESSAGE);
    assert_eq!(MESSAGE, "JWT Authentication in Rust using Axum, Postgres, and SQLX");
}

#[test]
fn register_wraps_repository() {
    let mut reg = ServiceRegister::new(NoteRepository::new());
    let n = reg.note_service.create_note("a".to_string(), "b".to_string(), 5).unwrap();
    assert_eq!(reg.note_service.get_notes().unwrap().len(), 1);
    assert_eq!(reg.note_service.get_note_id(n.id).unwrap().unwrap().content, "b");
}

#[test]
fn deleted_id_is_never_reused() {
    let mut s = service();
    let n = s.create_note_with_id(9, "a".to_string(), "b".to_string(), 1).unwrap();
    delete_note(&mut s, n.id).unwrap();
    let again = s.create_note_with_id(9, "c".to_string(), "d".to_string(), 2);
    assert!(matches!(again, Err(ServiceError::Repository(RepositoryError::DuplicateId))));
    assert!(get_note_id(&s, 9).unwrap().is_none());
    assert!(get_notes(&s).unwrap().is_empty());
}

#[test]
fn create_on_fresh_service_succeeds() {
    let mut s = service();
    let payload = CreateNoteRequest { title: "t".to_string(), content: "c".to_string() };
    assert!(create_note(&mut s, payload, 3).is_ok());
}

#[test]
fn repository_refuses_deleted_id() {
    let mut r = NoteRepository::new();
    r.create_note(4, "t".to_string(), "c".to_string(), 1).unwrap();
    r.delete(4);
    assert!(matches!(
        r.create_note(4, "t".to_string(), "c".to_string(), 2),
        Err(RepositoryError::DuplicateId)
    ));
}
