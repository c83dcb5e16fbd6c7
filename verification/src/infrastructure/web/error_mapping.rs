use std::collections::HashMap;
use vstd::prelude::*;

use crate::domain::DomainError;

verus! {

/// Where the problem types of RFC 7807 answers live.
pub const BASE_URI: &'static str = "https://api.ddd-core.internal/problems/";

/// What `http::StatusCode::canonical_reason` gives for a status code.
pub uninterp spec fn canonical_reason_text(status: u16) -> Option<Seq<char>>;

/// Calls `StatusCode::from_u16(status)` and then `canonical_reason`. The
/// result is named by `canonical_reason_text`; codes outside 100..=999 are not
/// status codes and have no reason, and the reasons of the five codes that
/// domain errors map to are those of the crate's table.
#[verifier::external_body]
fn canonical_reason(status: u16) -> (reason: Option<&'static str>)
    ensures
        reason matches Some(text) ==> canonical_reason_text(status) == Some(text@),
        !(100 <= status <= 999) ==> reason is None,
        (reason is Some) == (canonical_reason_text(status) is Some),
        status == 400 ==> reason is Some && reason->0@ == "Bad Request"@,
        status == 404 ==> reason is Some && reason->0@ == "Not Found"@,
        status == 409 ==> reason is Some && reason->0@ == "Conflict"@,
        status == 422 ==> reason is Some && reason->0@ == "Unprocessable Entity"@,
        status == 500 ==> reason is Some && reason->0@ == "Internal Server Error"@,
{
    match axum::http::StatusCode::from_u16(status) {
        Ok(code) => code.canonical_reason(),
        Err(_) => None,
    }
}

/// An RFC 7807 (Problem Details for HTTP APIs) body.
pub struct ProblemDetail {
    pub problem_type: String,
    pub title: String,
    pub status: u16,
    pub detail: String,
    /// The path of the request: filled in by the request-id middleware when
    /// it runs inside a handler, `None` outside that context.
    pub instance: Option<String>,
    pub errors: Option<HashMap<String, String>>,
}

/// The last segment of the problem type of each error.
pub open spec fn problem_slug(error: DomainError) -> Seq<char> {
    match error {
        DomainError::NotFound { .. } => "not-found"@,
        DomainError::AlreadyExists { .. } => "already-exists"@,
        DomainError::InvariantViolation(_) => "invariant-violation"@,
        DomainError::Validation(_) => "validation-failed"@,
        DomainError::Infrastructure(_) => "internal-server-error"@,
    }
}

/// The HTTP status of each error.
pub open spec fn problem_status(error: DomainError) -> u16 {
    match error {
        DomainError::NotFound { .. } => 404,
        DomainError::AlreadyExists { .. } => 409,
        DomainError::InvariantViolation(_) => 422,
        DomainError::Validation(_) => 400,
        DomainError::Infrastructure(_) => 500,
    }
}

/// The title of each error's problem: the canonical reason of its status.
pub open spec fn problem_title(error: DomainError) -> Seq<char> {
    match error {
        DomainError::NotFound { .. } => "Not Found"@,
        DomainError::AlreadyExists { .. } => "Conflict"@,
        DomainError::InvariantViolation(_) => "Unprocessable Entity"@,
        DomainError::Validation(_) => "Bad Request"@,
        DomainError::Infrastructure(_) => "Internal Server Error"@,
    }
}

impl DomainError {
    /// The problem type's last segment and the HTTP status of the error.
    pub fn problem_type_and_status(&self) -> (answer: (&'static str, u16))
        ensures
            answer.0@ == problem_slug(*self),
            answer.1 == problem_status(*self),
    {
        match self {
            DomainError::NotFound { .. } => ("not-found", 404),
            DomainError::AlreadyExists { .. } => ("already-exists", 409),
            DomainError::InvariantViolation(_) => ("invariant-violation", 422),
            DomainError::Validation(_) => ("validation-failed", 400),
            DomainError::Infrastructure(_) => ("internal-server-error", 500),
        }
    }

    /// The RFC 7807 body that answers the error.
    pub fn problem_detail(&self) -> (problem: ProblemDetail)
        ensures
            problem.problem_type@ == BASE_URI@ + problem_slug(*self),
            problem.title@ == problem_title(*self),
            problem.status == problem_status(*self),
            problem.detail@ == self.spec_message(),
            problem.instance is None,
            problem.errors is None,
    {
        let (slug, status) = self.problem_type_and_status();
        let title = match canonical_reason(status) {
            Some(reason) => reason,
            None => "Error",
        };
        ProblemDetail {
            problem_type: String::from_str(BASE_URI).concat(slug),
            title: String::from_str(title),
            status,
            detail: self.message(),
            instance: None,
            errors: None,
        }
    }
}

/// Every domain error is answered with an error status: infrastructure
/// errors with a server error (5xx), every other one with a client error
/// (4xx).
pub proof fn lemma_error_statuses(error: DomainError)
    ensures
        400 <= problem_status(error) <= 599,
        (problem_status(error) >= 500) == (error is Infrastructure),
{
}

} // verus!
