//! What the service answers.

use vstd::prelude::*;

verus! {

/// The answer to a request for the count.
#[derive(Debug, PartialEq, Eq)]
pub struct HeartsResponse {
    pub count: i64,
    pub already_voted: bool,
}

/// The answer to a vote. The last two fields are left out of an answer where they are `None`.
#[derive(Debug, PartialEq, Eq)]
pub struct VoteResponse {
    pub count: i64,
    pub voted: bool,
    pub reason: Option<&'static str>,
    pub retry_after_seconds: Option<u64>,
}

/// The answer to a request for the history.
#[derive(Debug, PartialEq, Eq)]
pub struct HistoryResponse {
    pub events: Vec<String>,
}

/// Why a request has no proper answer.
#[derive(Clone, Copy, Debug, PartialEq, Eq, Structural)]
pub enum ApiError {
    /// The store could not do what it was asked.
    StoreFailed,
    /// The store answered another question than it was asked.
    UnexpectedAnswer,
    /// The voter's cookie cannot be the value of a header.
    InvalidSetCookie,
}

/// What is answered in place of a proper answer: a status, and the field `error` of the body.
#[derive(Debug, PartialEq, Eq)]
pub struct ErrorResponse {
    pub status: u16,
    pub error: &'static str,
}

impl ApiError {
    /// The answer in place of a proper one, which does not tell the cause.
    pub fn into_response(self) -> (response: ErrorResponse)
        ensures
            response.status == 500,
            response.error@ == "internal_server_error"@,
    {
        ErrorResponse { status: 500, error: "internal_server_error" }
    }
}

/// The answer to a question whether the service is up.
pub fn health() -> (answer: &'static str)
    ensures
        answer@ == "ok"@,
{
    "ok"
}

} // verus!
