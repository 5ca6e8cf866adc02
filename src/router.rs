use vstd::prelude::*;

verus! {

/// The body of the liveness endpoint.
#[derive(Debug)]
pub struct HealthResponse {
    pub status: String,
    pub message: String,
}

/// The message that the liveness endpoint carries.
pub const MESSAGE: &'static str = "JWT Authentication in Rust using Axum, Postgres, and SQLX";

/// The server's routes: notes under `/api`, liveness at `/ping`.
pub struct AppRouter;

impl AppRouter {
    /// The liveness answer: status "success" and the fixed message.
    pub fn health_checker_handler() -> (r: HealthResponse)
        ensures
            r.status@ == seq!['s', 'u', 'c', 'c', 'e', 's', 's'],
            r.message@ == MESSAGE@,
    {
        proof {
            reveal_strlit("success");
        }
        HealthResponse { status: "success".to_owned(), message: MESSAGE.to_owned() }
    }
}

} // verus!
