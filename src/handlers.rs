use vstd::prelude::*;
use crate::gate::{Authorization, Gate};
use crate::location::{Fix, Location, Token, fix_views, listing, listing_of, location_views};

verus! {

/// HTTP status of a reply.
#[derive(Clone, Copy, Debug, PartialEq, Eq, Structural)]
pub enum Status {
    Success,
    Created,
    Unauthorized,
    InternalServerError,
}

impl Status {
    pub open spec fn spec_code(self) -> u16 {
        match self {
            Status::Success => 200,
            Status::Created => 201,
            Status::Unauthorized => 401,
            Status::InternalServerError => 500,
        }
    }

    /// The numeric HTTP status code.
    pub fn code(&self) -> (r: u16)
        ensures
            r == self.spec_code(),
    {
        match self {
            Status::Success => 200,
            Status::Created => 201,
            Status::Unauthorized => 401,
            Status::InternalServerError => 500,
        }
    }
}

/// The fixed text bodies that the endpoints answer with.
#[derive(Clone, Copy, Debug, PartialEq, Eq, Structural)]
pub enum Body {
    Success,
    Error,
    InvalidToken,
}

impl Body {
    /// The body's text.
    pub fn text(&self) -> (r: &'static str)
        ensures
            r@ == match self {
                Body::Success => "OK"@,
                Body::Error => "ERROR"@,
                Body::InvalidToken => "ERROR: Invalid Token"@,
            },
    {
        match self {
            Body::Success => "OK",
            Body::Error => "ERROR",
            Body::InvalidToken => "ERROR: Invalid Token",
        }
    }
}

/// A status with a fixed text body.
#[derive(Clone, Copy, Debug, PartialEq, Eq, Structural)]
pub struct Reply {
    pub status: Status,
    pub body: Body,
}

/// 201 "OK": a fix was recorded.
pub open spec fn created() -> Reply {
    Reply { status: Status::Created, body: Body::Success }
}

/// 200 "OK": the store was cleared.
pub open spec fn cleared() -> Reply {
    Reply { status: Status::Success, body: Body::Success }
}

/// 200 "ERROR": the store refused the write, a duplicate timestamp included.
pub open spec fn write_failed() -> Reply {
    Reply { status: Status::Success, body: Body::Error }
}

/// 401 "ERROR: Invalid Token".
pub open spec fn denied() -> Reply {
    Reply { status: Status::Unauthorized, body: Body::InvalidToken }
}

/// 500 "ERROR".
pub open spec fn server_error() -> Reply {
    Reply { status: Status::InternalServerError, body: Body::Error }
}

/// Why a store operation did not complete.
#[derive(Clone, Copy, Debug, PartialEq, Eq, Structural)]
pub enum StoreFailure {
    /// The store has not been set up.
    Unavailable,
    /// The store refused or failed the operation.
    Failed,
}

/// What the ingestion endpoint does next with a request.
pub enum LogStep {
    Respond(Reply),
    Insert(Fix),
}

/// What the reset endpoint does next with a request.
#[derive(Clone, Copy, Debug, PartialEq, Eq, Structural)]
pub enum ResetStep {
    Respond(Reply),
    Clear,
}

/// What the history endpoint answers.
pub enum History {
    Listing(Vec<Location>),
    Failure(Reply),
}

/// Ingestion, first step: a report with the wrong token is answered at once
/// and never reaches the store; otherwise its fix is to be inserted.
pub fn log_request(gate: &Gate, report: &Location) -> (r: LogStep)
    ensures
        report@.token != gate.secret() ==> r == LogStep::Respond(denied()),
        report@.token == gate.secret() ==> (r matches LogStep::Insert(f) && f@ == report@.fix),
{
    match gate.authorize(&report.token) {
        Authorization::Unauthorized => LogStep::Respond(
            Reply { status: Status::Unauthorized, body: Body::InvalidToken },
        ),
        Authorization::Authorized => LogStep::Insert(report.fix()),
    }
}

pub open spec fn log_reply_of(outcome: Result<(), StoreFailure>) -> Reply {
    match outcome {
        Ok(()) => created(),
        Err(StoreFailure::Failed) => write_failed(),
        Err(StoreFailure::Unavailable) => server_error(),
    }
}

/// Ingestion, last step: the reply for the outcome of the insert.
pub fn log_reply(outcome: Result<(), StoreFailure>) -> (r: Reply)
    ensures
        r == log_reply_of(outcome),
{
    match outcome {
        Ok(()) => Reply { status: Status::Created, body: Body::Success },
        Err(StoreFailure::Failed) => Reply { status: Status::Success, body: Body::Error },
        Err(StoreFailure::Unavailable) => Reply {
            status: Status::InternalServerError,
            body: Body::Error,
        },
    }
}

/// Reset, first step: a request with the wrong token is answered at once;
/// otherwise the store is to be cleared.
pub fn reset_request(gate: &Gate, token: &Token) -> (r: ResetStep)
    ensures
        token.token@ != gate.secret() ==> r == ResetStep::Respond(denied()),
        token.token@ == gate.secret() ==> r == ResetStep::Clear,
{
    match gate.authorize(&token.token) {
        Authorization::Unauthorized => ResetStep::Respond(
            Reply { status: Status::Unauthorized, body: Body::InvalidToken },
        ),
        Authorization::Authorized => ResetStep::Clear,
    }
}

pub open spec fn reset_reply_of(outcome: Result<(), StoreFailure>) -> Reply {
    match outcome {
        Ok(()) => cleared(),
        Err(_) => server_error(),
    }
}

/// Reset, last step: the reply for the outcome of clearing the store.
pub fn reset_reply(outcome: Result<(), StoreFailure>) -> (r: Reply)
    ensures
        r == reset_reply_of(outcome),
{
    match outcome {
        Ok(()) => Reply { status: Status::Success, body: Body::Success },
        Err(_) => Reply { status: Status::InternalServerError, body: Body::Error },
    }
}

/// History: the stored fixes as entries with a blank token, in the order
/// read, or 500 "ERROR" when the read did not succeed.
pub fn history_reply(read: Result<Vec<Fix>, StoreFailure>) -> (r: History)
    ensures
        read matches Ok(rows) ==> (r matches History::Listing(entries) && location_views(entries@)
            == listing(fix_views(rows@))),
        read is Err ==> r == History::Failure(server_error()),
{
    match read {
        Ok(rows) => History::Listing(listing_of(&rows)),
        Err(_) => History::Failure(Reply { status: Status::InternalServerError, body: Body::Error }),
    }
}

} // verus!
