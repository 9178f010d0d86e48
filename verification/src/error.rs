//! What can go wrong with a request, and how it is answered.

use crate::json::{members_view, object, push_member, Json, Value};
use vstd::prelude::*;
use vstd::string::StringExecFns;

verus! {

/// An error of the database, as its driver reports it.
#[derive(Debug, PartialEq, Eq)]
pub struct DatabaseError {
    /// Whether a row was asked for and none was there.
    pub row_not_found: bool,
    pub message: String,
}

#[derive(Debug, PartialEq, Eq)]
pub enum AppError {
    InvalidDatabaseName,
    CapacityBusy,
    Overloaded,
    Unauthorized,
    InvalidRequest(String),
    Database(DatabaseError),
    /// Holds what is logged; a client does not see it.
    Internal(String),
}

/// How an error is answered.
#[derive(Debug, PartialEq, Eq)]
pub struct ErrorResponse {
    pub status: u16,
    pub code: &'static str,
    pub message: String,
    /// The value of the `Retry-After` header.
    pub retry_after_seconds: Option<u64>,
}

/// Seconds after which a request that was shed may be tried again.
pub const RETRY_AFTER_SECONDS: u64 = 1;

impl AppError {
    /// The HTTP status of the answer.
    pub open spec fn status(self) -> u16 {
        match self {
            AppError::InvalidDatabaseName => 400,
            AppError::InvalidRequest(reason) => 400,
            AppError::CapacityBusy => 503,
            AppError::Overloaded => 429,
            AppError::Unauthorized => 401,
            AppError::Database(error) => if error.row_not_found {
                404
            } else {
                422
            },
            AppError::Internal(source) => 500,
        }
    }

    /// The code in the answer's body.
    pub open spec fn code(self) -> Seq<char> {
        match self {
            AppError::InvalidDatabaseName => "invalid_request"@,
            AppError::InvalidRequest(reason) => "invalid_request"@,
            AppError::CapacityBusy => "capacity_busy"@,
            AppError::Overloaded => "overloaded"@,
            AppError::Unauthorized => "unauthorized"@,
            AppError::Database(error) => if error.row_not_found {
                "not_found"@
            } else {
                "database_error"@
            },
            AppError::Internal(source) => "internal_error"@,
        }
    }

    /// After how many seconds a client may try again, where it is told.
    pub open spec fn retry_after(self) -> Option<u64> {
        if self is Overloaded {
            Some(RETRY_AFTER_SECONDS)
        } else {
            None
        }
    }

    /// The error in words.
    pub open spec fn text(self) -> Seq<char> {
        match self {
            AppError::InvalidDatabaseName =>
                "invalid database name: use 1-64 ASCII letters, numbers, '-' or '_'"@,
            AppError::CapacityBusy => "all open databases are currently busy"@,
            AppError::Overloaded => "too many requests are in flight"@,
            AppError::Unauthorized => "unauthorized"@,
            AppError::InvalidRequest(reason) => "invalid request: "@ + reason@,
            AppError::Database(error) => "database error: "@ + error.message@,
            AppError::Internal(source) => "internal server error"@,
        }
    }

    /// The error in words.
    pub fn message(&self) -> (message: String)
        ensures
            message@ == self.text(),
    {
        match self {
            AppError::InvalidDatabaseName =>
                "invalid database name: use 1-64 ASCII letters, numbers, '-' or '_'".to_owned(),
            AppError::CapacityBusy => "all open databases are currently busy".to_owned(),
            AppError::Overloaded => "too many requests are in flight".to_owned(),
            AppError::Unauthorized => "unauthorized".to_owned(),
            AppError::InvalidRequest(reason) => {
                let mut message = "invalid request: ".to_owned();
                message.append(reason.as_str());
                message
            },
            AppError::Database(error) => {
                let mut message = "database error: ".to_owned();
                message.append(error.message.as_str());
                message
            },
            AppError::Internal(_) => "internal server error".to_owned(),
        }
    }

    /// The answer to a request that failed.
    pub fn into_response(self) -> (response: ErrorResponse)
        ensures
            response.status == self.status(),
            response.code@ == self.code(),
            response.message@ == self.text(),
            response.retry_after_seconds == self.retry_after(),
    {
        let (status, code): (u16, &'static str) = match &self {
            AppError::InvalidDatabaseName => (400, "invalid_request"),
            AppError::InvalidRequest(_) => (400, "invalid_request"),
            AppError::CapacityBusy => (503, "capacity_busy"),
            AppError::Overloaded => (429, "overloaded"),
            AppError::Unauthorized => (401, "unauthorized"),
            AppError::Database(error) => if error.row_not_found {
                (404, "not_found")
            } else {
                (422, "database_error")
            },
            AppError::Internal(_) => (500, "internal_error"),
        };
        let retry_after_seconds = match &self {
            AppError::Overloaded => Some(RETRY_AFTER_SECONDS),
            _ => None,
        };
        ErrorResponse { status, code, message: self.message(), retry_after_seconds }
    }
}

impl ErrorResponse {
    /// The body of the answer.
    pub fn body(&self) -> (body: Value)
        ensures
            body.view() == Json::Object(
                seq![
                    (
                        "error"@,
                        Json::Object(
                            seq![
                                ("code"@, Json::Text(self.code@)),
                                ("message"@, Json::Text(self.message@)),
                            ],
                        ),
                    ),
                ],
            ),
    {
        let mut detail: Vec<(String, Value)> = Vec::new();
        push_member(&mut detail, "code", Value::Text(self.code.to_owned()));
        push_member(&mut detail, "message", Value::Text(self.message.clone()));
        let mut body: Vec<(String, Value)> = Vec::new();
        assert(members_view(detail@) =~= seq![
            ("code"@, Json::Text(self.code@)),
            ("message"@, Json::Text(self.message@)),
        ]);
        push_member(&mut body, "error", object(detail));
        assert(members_view(body@) =~= seq![("error"@, Json::Object(members_view(detail@)))]);
        object(body)
    }
}

} // verus!
