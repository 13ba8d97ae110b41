//! Status codes and the uniform status-and-message outcome of every operation.
use vstd::prelude::*;

verus! {

/// The HTTP status codes that the record store produces.
#[derive(Clone, Copy, Debug, PartialEq, Eq, Structural)]
pub enum Status {
    Success,
    Created,
    NoContent,
    BadRequest,
    Forbidden,
    InternalServerError,
}

pub open spec fn status_code(s: Status) -> u16 {
    match s {
        Status::Success => 200,
        Status::Created => 201,
        Status::NoContent => 204,
        Status::BadRequest => 400,
        Status::Forbidden => 403,
        Status::InternalServerError => 500,
    }
}

impl Status {
    /// The numeric status code.
    pub fn as_u16(self) -> (r: u16)
        ensures
            r == status_code(self),
    {
        match self {
            Status::Success => 200,
            Status::Created => 201,
            Status::NoContent => 204,
            Status::BadRequest => 400,
            Status::Forbidden => 403,
            Status::InternalServerError => 500,
        }
    }
}

/// Failures that are not caused by a specific, describable client mistake.
#[derive(Clone, Copy, Debug, PartialEq, Eq, Structural)]
pub enum HallError {
    Failed,
    BadRequest,
}

pub open spec fn failed_text() -> Seq<char> {
    "The requested operation failed, please try again."@
}

pub open spec fn malformed_text() -> Seq<char> {
    "Your request was malformed, please modify it and try again."@
}

pub open spec fn hall_error_status(e: HallError) -> Status {
    match e {
        HallError::Failed => Status::InternalServerError,
        HallError::BadRequest => Status::BadRequest,
    }
}

pub open spec fn hall_error_text(e: HallError) -> Seq<char> {
    match e {
        HallError::Failed => failed_text(),
        HallError::BadRequest => malformed_text(),
    }
}

impl HallError {
    /// The status under which this error is reported.
    pub fn as_code(self) -> (r: Status)
        ensures
            r == hall_error_status(self),
    {
        match self {
            HallError::Failed => Status::InternalServerError,
            HallError::BadRequest => Status::BadRequest,
        }
    }

    /// The numeric status code under which this error is reported.
    pub fn as_u16(self) -> (r: u16)
        ensures
            r == status_code(hall_error_status(self)),
    {
        self.as_code().as_u16()
    }

    /// The fixed message shown for this error; the detail never reaches the caller.
    pub fn message(&self) -> (r: String)
        ensures
            r@ == hall_error_text(*self),
    {
        match self {
            HallError::Failed => "The requested operation failed, please try again.".to_string(),
            HallError::BadRequest => {
                "Your request was malformed, please modify it and try again.".to_string()
            },
        }
    }
}

/// The outcome of an operation: a status and a message for the caller.
/// A `NoContent` outcome has an empty message and is sent without a body.
#[derive(Clone, Debug)]
pub struct OperationResponse {
    pub status: Status,
    pub message: String,
    /// What went wrong inside, for the log only: never sent to the caller.
    pub detail: Option<String>,
}

impl OperationResponse {
    /// The numeric status code of this outcome.
    pub fn code(&self) -> (r: u16)
        ensures
            r == status_code(self.status),
    {
        self.status.as_u16()
    }
}

/// Whether `r` carries status `s` and message `m`.
pub open spec fn is_response(r: OperationResponse, s: Status, m: Seq<char>) -> bool {
    r.status == s && r.message@ == m
}

/// Builds the outcome with the given message and status.
pub fn generate_response(resp_message: &str, status_code: Status) -> (r: OperationResponse)
    ensures
        is_response(r, status_code, resp_message@),
{
    OperationResponse { detail: None, status: status_code, message: resp_message.to_string() }
}

/// The outcome of an error raised outside the store, such as a request body
/// that could not be read: internal failures and malformed requests become the
/// generic messages of `HallError`; any other status is not handled here.
pub fn handle_errors(status: Status) -> (r: Option<OperationResponse>)
    ensures
        status == Status::InternalServerError ==> r is Some && is_response(
            r->Some_0,
            Status::InternalServerError,
            failed_text(),
        ),
        status == Status::BadRequest ==> r is Some && is_response(
            r->Some_0,
            Status::BadRequest,
            malformed_text(),
        ),
        status != Status::InternalServerError && status != Status::BadRequest ==> r is None,
{
    match status {
        Status::InternalServerError => {
            let error = HallError::Failed;
            Some(OperationResponse { detail: None, status: error.as_code(), message: error.message() })
        },
        Status::BadRequest => {
            let error = HallError::BadRequest;
            Some(OperationResponse { detail: None, status: error.as_code(), message: error.message() })
        },
        _ => None,
    }
}

} // verus!
