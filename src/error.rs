use vstd::prelude::*;
use crate::types::QuestionID;

verus! {

/// The two query parameters of a page request.
#[derive(Debug, Clone, Copy, PartialEq, Eq)]
pub enum Param {
    Start,
    End,
}

impl Param {
    pub open spec fn name_spec(self) -> Seq<char> {
        match self {
            Param::Start => "start"@,
            Param::End => "end"@,
        }
    }

    /// The parameter's key in a query string.
    pub fn name(&self) -> (r: &'static str)
        ensures
            r@ == self.name_spec(),
    {
        match self {
            Param::Start => "start",
            Param::End => "end",
        }
    }
}

/// A failure of a question handler.
#[derive(Debug, Clone, PartialEq, Eq)]
pub enum Error {
    /// The value of `field` is not an unsigned integer.
    ParseInt { field: Param, text: String },
    /// Only one of `start` and `end` was given.
    MissingParameters,
    /// The requested page does not lie within the listing.
    RangeInvalid,
    /// No question is stored under this identifier.
    QuestionNotFound(QuestionID),
}

/// A handler failure as plain values.
pub enum ErrorKind {
    ParseInt { field: Param, text: Seq<char> },
    MissingParameters,
    RangeInvalid,
    QuestionNotFound { id: Seq<char> },
}

impl View for Error {
    type V = ErrorKind;

    open spec fn view(&self) -> ErrorKind {
        match self {
            Error::ParseInt { field, text } => ErrorKind::ParseInt { field: *field, text: text@ },
            Error::MissingParameters => ErrorKind::MissingParameters,
            Error::RangeInvalid => ErrorKind::RangeInvalid,
            Error::QuestionNotFound(id) => ErrorKind::QuestionNotFound { id: id.0@ },
        }
    }
}

pub open spec fn error_message(e: ErrorKind) -> Seq<char> {
    match e {
        ErrorKind::ParseInt { field, text } => "Cannot parse parameter "@ + field.name_spec() + ": "@
            + text,
        ErrorKind::MissingParameters => "Missing Parameter"@,
        ErrorKind::RangeInvalid => "Range invalid"@,
        ErrorKind::QuestionNotFound { id } => "Question not found: "@ + id,
    }
}

impl Error {
    /// The human-readable text of the failure, naming the parameter or the
    /// identifier concerned.
    pub fn message(&self) -> (r: String)
        ensures
            r@ == error_message(self@),
    {
        match self {
            Error::ParseInt { field, text } => {
                let mut m = String::from_str("Cannot parse parameter ");
                m.append(field.name());
                m.append(": ");
                m.append(text.as_str());
                m
            },
            Error::MissingParameters => String::from_str("Missing Parameter"),
            Error::RangeInvalid => String::from_str("Range invalid"),
            Error::QuestionNotFound(id) => {
                let mut m = String::from_str("Question not found: ");
                m.append(id.0.as_str());
                m
            },
        }
    }
}

pub const RANGE_NOT_SATISFIABLE: u16 = 416;

pub const FORBIDDEN: u16 = 403;

pub const UNPROCESSABLE_ENTITY: u16 = 422;

pub const NOT_FOUND: u16 = 404;

/// Every way a request can fail: a handler's failure, or one that the
/// routing layer reports.
#[derive(Debug, Clone, PartialEq, Eq)]
pub enum Failure {
    Handler(Error),
    /// The cross-origin policy refused the request; the text says why.
    CorsForbidden(String),
    /// The body or form does not have the expected shape; the text says how.
    MalformedBody(String),
    /// No route matches the request.
    NoRoute,
}

/// An HTTP status and the text sent with it.
#[derive(Debug, Clone, PartialEq, Eq)]
pub struct Reply {
    pub status: u16,
    pub message: String,
}

pub open spec fn failure_status(f: Failure) -> u16 {
    match f {
        Failure::Handler(_) => RANGE_NOT_SATISFIABLE,
        Failure::CorsForbidden(_) => FORBIDDEN,
        Failure::MalformedBody(_) => UNPROCESSABLE_ENTITY,
        Failure::NoRoute => NOT_FOUND,
    }
}

pub open spec fn failure_message(f: Failure) -> Seq<char> {
    match f {
        Failure::Handler(e) => error_message(e@),
        Failure::CorsForbidden(m) => m@,
        Failure::MalformedBody(m) => m@,
        Failure::NoRoute => "Route not found"@,
    }
}

/// Translates a failure into the status and message of its response.
pub fn return_error(f: &Failure) -> (r: Reply)
    ensures
        r.status == failure_status(*f),
        r.message@ == failure_message(*f),
{
    match f {
        Failure::Handler(e) => Reply { status: RANGE_NOT_SATISFIABLE, message: e.message() },
        Failure::CorsForbidden(m) => Reply { status: FORBIDDEN, message: m.clone() },
        Failure::MalformedBody(m) => Reply { status: UNPROCESSABLE_ENTITY, message: m.clone() },
        Failure::NoRoute => Reply { status: NOT_FOUND, message: String::from_str("Route not found") },
    }
}

} // verus!
