//! The failures that the core reports, and how each is presented.

use vstd::prelude::*;
use vstd::string::StringExecFns;

verus! {

/// A failure of one of the core's operations.
#[derive(Debug, PartialEq, Eq)]
pub enum AppError {
    /// The requested id has no row, or the statement that had to change one
    /// changed none. Carries the message that names the id.
    NotFound(String),
    /// A failure inside the service that is neither the caller's nor the
    /// store's.
    InternalError(String),
    /// The store failed. Carries the store's own words.
    Database(String),
    /// Reserved: the input was refused.
    InvalidInput(String),
    /// Reserved: the caller may not do this.
    Unauthorized,
}

/// Mathematical value of an [`AppError`].
pub enum AppErrorView {
    NotFound(Seq<char>),
    InternalError(Seq<char>),
    Database(Seq<char>),
    InvalidInput(Seq<char>),
    Unauthorized,
}

impl View for AppError {
    type V = AppErrorView;

    open spec fn view(&self) -> AppErrorView {
        match self {
            AppError::NotFound(m) => AppErrorView::NotFound(m@),
            AppError::InternalError(m) => AppErrorView::InternalError(m@),
            AppError::Database(m) => AppErrorView::Database(m@),
            AppError::InvalidInput(m) => AppErrorView::InvalidInput(m@),
            AppError::Unauthorized => AppErrorView::Unauthorized,
        }
    }
}

impl DeepView for AppError {
    type V = AppErrorView;

    open spec fn deep_view(&self) -> AppErrorView {
        self@
    }
}

/// The message of the failure to find the quote with the given id.
pub open spec fn not_found_message(id: Seq<char>) -> Seq<char> {
    "Quote with id "@ + id + " not found"@
}

impl AppErrorView {
    /// The failure to find the quote with the given id.
    pub open spec fn not_found(id: Seq<char>) -> AppErrorView {
        AppErrorView::NotFound(not_found_message(id))
    }

    /// The HTTP status under which the failure is reported.
    pub open spec fn status_code(self) -> u16 {
        match self {
            AppErrorView::NotFound(_) => 404,
            AppErrorView::InternalError(_) => 500,
            AppErrorView::Database(_) => 500,
            AppErrorView::InvalidInput(_) => 400,
            AppErrorView::Unauthorized => 401,
        }
    }

    /// The message that the response body carries.
    pub open spec fn message(self) -> Seq<char> {
        match self {
            AppErrorView::NotFound(m) => m,
            AppErrorView::InternalError(m) => m,
            AppErrorView::Database(m) => m,
            AppErrorView::InvalidInput(m) => m,
            AppErrorView::Unauthorized => "Unauthorized"@,
        }
    }

    /// The failure written out in full, with its category in front.
    pub open spec fn display(self) -> Seq<char> {
        match self {
            AppErrorView::NotFound(m) => "Not Found: "@ + m,
            AppErrorView::InternalError(m) => "Internal Error: "@ + m,
            AppErrorView::Database(m) => "Database Error: "@ + m,
            AppErrorView::InvalidInput(m) => "Invalid Input: "@ + m,
            AppErrorView::Unauthorized => "Unauthorized"@,
        }
    }
}

impl AppError {
    /// The failure to find the quote with the given id.
    pub fn not_found(id: &str) -> (err: AppError)
        ensures
            err@ == AppErrorView::not_found(id@),
    {
        let mut message = String::from_str("Quote with id ");
        message.append(id);
        message.append(" not found");
        AppError::NotFound(message)
    }

    /// The HTTP status under which the failure is reported.
    pub fn status_code(&self) -> (code: u16)
        ensures
            code == self@.status_code(),
    {
        match self {
            AppError::NotFound(_) => 404,
            AppError::InternalError(_) => 500,
            AppError::Database(_) => 500,
            AppError::InvalidInput(_) => 400,
            AppError::Unauthorized => 401,
        }
    }

    /// The status and the message of the response that reports the failure.
    pub fn into_response(self) -> (response: (u16, String))
        ensures
            response.0 == self@.status_code(),
            response.1@ == self@.message(),
    {
        match self {
            AppError::NotFound(msg) => (404, msg),
            AppError::Database(msg) => (500, msg),
            AppError::InternalError(msg) => (500, msg),
            AppError::InvalidInput(msg) => (400, msg),
            AppError::Unauthorized => (401, String::from_str("Unauthorized")),
        }
    }

    /// The failure written out in full, with its category in front.
    pub fn to_string(&self) -> (text: String)
        ensures
            text@ == self@.display(),
    {
        match self {
            AppError::NotFound(msg) => String::from_str("Not Found: ").concat(msg.as_str()),
            AppError::InternalError(msg) => String::from_str("Internal Error: ").concat(
                msg.as_str(),
            ),
            AppError::Database(msg) => String::from_str("Database Error: ").concat(msg.as_str()),
            AppError::InvalidInput(msg) => String::from_str("Invalid Input: ").concat(msg.as_str()),
            AppError::Unauthorized => String::from_str("Unauthorized"),
        }
    }
}

} // verus!
