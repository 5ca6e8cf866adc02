//! A note-keeping service: request and response shapes, a verified
//! in-memory note repository, the service layer over it, and the decisions
//! of the HTTP handlers.

pub mod handler;
pub mod identity;
pub mod note;
pub mod repository;
pub mod request;
pub mod router;
pub mod service;
pub mod service_register;
