//! The ways in which a request fails, and what the caller is told.

use vstd::prelude::*;

use crate::text::join2;

verus! {

#[derive(Debug)]
pub enum AppError {
    /// The store failed.
    Clickhouse(String),
    NotFound(String),
    Unauthorized(String),
    Forbidden(String),
    BadRequest(String),
    UnknownSymbol(String),
    Conflict(String),
    Internal(String),
    /// A computation left the range of its type. No answer is given: the request is abandoned.
    Overflow,
}

#[verifier::ext_equal]
pub enum AppErrorView {
    Clickhouse(Seq<char>),
    NotFound(Seq<char>),
    Unauthorized(Seq<char>),
    Forbidden(Seq<char>),
    BadRequest(Seq<char>),
    UnknownSymbol(Seq<char>),
    Conflict(Seq<char>),
    Internal(Seq<char>),
    Overflow,
}

impl View for AppError {
    type V = AppErrorView;

    open spec fn view(&self) -> AppErrorView {
        match self {
            AppError::Clickhouse(text) => AppErrorView::Clickhouse(text@),
            AppError::NotFound(text) => AppErrorView::NotFound(text@),
            AppError::Unauthorized(text) => AppErrorView::Unauthorized(text@),
            AppError::Forbidden(text) => AppErrorView::Forbidden(text@),
            AppError::BadRequest(text) => AppErrorView::BadRequest(text@),
            AppError::UnknownSymbol(text) => AppErrorView::UnknownSymbol(text@),
            AppError::Conflict(text) => AppErrorView::Conflict(text@),
            AppError::Internal(text) => AppErrorView::Internal(text@),
            AppError::Overflow => AppErrorView::Overflow,
        }
    }
}

impl AppErrorView {
    /// The HTTP status of the response.
    pub open spec fn status(self) -> u16 {
        match self {
            AppErrorView::NotFound(_) => 404,
            AppErrorView::Unauthorized(_) => 401,
            AppErrorView::Forbidden(_) => 403,
            AppErrorView::Conflict(_) => 409,
            AppErrorView::BadRequest(_) | AppErrorView::UnknownSymbol(_) => 400,
            _ => 500,
        }
    }

    /// The text under `error` in the body of the response.
    pub open spec fn message(self) -> Seq<char> {
        match self {
            AppErrorView::Clickhouse(text) => "ClickHouse error: "@ + text,
            AppErrorView::NotFound(text) => "Not found: "@ + text,
            AppErrorView::Unauthorized(text) => "Unauthorized: "@ + text,
            AppErrorView::Forbidden(text) => "Forbidden: "@ + text,
            AppErrorView::BadRequest(text) => "Bad request: "@ + text,
            AppErrorView::UnknownSymbol(text) => "Unknown symbol: "@ + text,
            AppErrorView::Conflict(text) => "Conflict: "@ + text,
            AppErrorView::Internal(text) => "Internal error: "@ + text,
            AppErrorView::Overflow => "Internal error: arithmetic overflow"@,
        }
    }
}

impl AppError {
    pub fn message(&self) -> (r: String)
        ensures
            r@ == self@.message(),
    {
        match self {
            AppError::Clickhouse(text) => join2("ClickHouse error: ", text),
            AppError::NotFound(text) => join2("Not found: ", text),
            AppError::Unauthorized(text) => join2("Unauthorized: ", text),
            AppError::Forbidden(text) => join2("Forbidden: ", text),
            AppError::BadRequest(text) => join2("Bad request: ", text),
            AppError::UnknownSymbol(text) => join2("Unknown symbol: ", text),
            AppError::Conflict(text) => join2("Conflict: ", text),
            AppError::Internal(text) => join2("Internal error: ", text),
            AppError::Overflow => "Internal error: arithmetic overflow".to_owned(),
        }
    }

    /// The status and the error text of the response.
    pub fn error_response(&self) -> (r: (u16, String))
        ensures
            r.0 == self@.status(),
            r.1@ == self@.message(),
    {
        let status: u16 = match self {
            AppError::NotFound(_) => 404,
            AppError::Unauthorized(_) => 401,
            AppError::Forbidden(_) => 403,
            AppError::Conflict(_) => 409,
            AppError::BadRequest(_) | AppError::UnknownSymbol(_) => 400,
            _ => 500,
        };
        (status, self.message())
    }
}

} // verus!
