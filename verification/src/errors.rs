//! The errors the API answers with: an HTTP status, a stable code and a message.
use vstd::prelude::*;
use crate::text::{owned, push_str};

verus! {

#[derive(Debug, Clone, PartialEq, Eq)]
pub struct ApiError {
    pub status: u16,
    pub code: &'static str,
    pub message: String,
}

/// `r` is the value `expected` gives, or a `400 invalid_request` error whose
/// message `expected` gives.
pub open spec fn answers_bad_request(
    r: Result<String, ApiError>,
    expected: Result<Seq<char>, Seq<char>>,
) -> bool {
    match r {
        Ok(v) => expected == Ok::<Seq<char>, Seq<char>>(v@),
        Err(e) => e.status == 400 && e.code@ == "invalid_request"@ && expected == Err::<
            Seq<char>,
            Seq<char>,
        >(e.message@),
    }
}

/// `e` is a `500 internal_error` with the message `message`.
pub open spec fn is_internal(e: ApiError, message: Seq<char>) -> bool {
    e.status == 500 && e.code@ == "internal_error"@ && e.message@ == message
}

impl ApiError {
    pub fn bad_request(message: String) -> (r: ApiError)
        ensures
            r.status == 400,
            r.code@ == "invalid_request"@,
            r.message == message,
    {
        ApiError { status: 400, code: "invalid_request", message }
    }

    pub fn not_found(resource: &'static str) -> (r: ApiError)
        ensures
            r.status == 404,
            r.code@ == "not_found"@,
            r.message@ == resource@ + " was not found"@,
    {
        let mut message = owned(resource);
        push_str(&mut message, " was not found");
        ApiError { status: 404, code: "not_found", message }
    }

    pub fn conflict(message: String) -> (r: ApiError)
        ensures
            r.status == 409,
            r.code@ == "invalid_job_transition"@,
            r.message == message,
    {
        ApiError { status: 409, code: "invalid_job_transition", message }
    }

    pub fn internal(message: String) -> (r: ApiError)
        ensures
            r.status == 500,
            r.code@ == "internal_error"@,
            r.message == message,
    {
        ApiError { status: 500, code: "internal_error", message }
    }
}

} // verus!
