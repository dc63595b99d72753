//! The outcomes a request can end in besides success, and the response each
//! one is answered with.

use vstd::prelude::*;
use vstd::string::StringExecFns;

verus! {

/// Why a request did not produce a page.
///
/// The faults carry the detail that the failing collaborator reported. It is
/// kept for the log and never sent to the client.
#[derive(Debug)]
pub enum AppError {
    /// The store failed: connectivity, I/O or query execution.
    Database(String),
    /// The schema could not be brought up to date.
    Migration(String),
    /// A template failed to render.
    Template(String),
    /// The configuration could not be read.
    Config(String),
    /// Nothing exists under the requested name. A normal negative result.
    NotFound(String),
    /// The caller's input was malformed; the store was never asked.
    Validation(String),
    /// Any other failure.
    Internal,
}

/// Status and body of a response that is not a rendered page.
#[derive(Debug)]
pub struct Reply {
    pub status: u16,
    pub body: String,
}

pub const STATUS_OK: u16 = 200;

pub const STATUS_BAD_REQUEST: u16 = 400;

pub const STATUS_NOT_FOUND: u16 = 404;

pub const STATUS_INTERNAL_SERVER_ERROR: u16 = 500;

impl AppError {
    /// The error is `NotFound` and carries `message`.
    pub open spec fn is_not_found(self, message: Seq<char>) -> bool {
        self matches AppError::NotFound(m) && m@ == message
    }

    /// The error is `Validation` and carries `message`.
    pub open spec fn is_validation(self, message: Seq<char>) -> bool {
        self matches AppError::Validation(m) && m@ == message
    }

    /// The error is a fault of the service or of a collaborator, not a
    /// result of what the caller asked for.
    pub open spec fn is_fault(self) -> bool {
        !(self is NotFound) && !(self is Validation)
    }

    /// The status code the error is reported with.
    pub open spec fn spec_status(self) -> u16 {
        match self {
            AppError::NotFound(_) => STATUS_NOT_FOUND,
            AppError::Validation(_) => STATUS_BAD_REQUEST,
            _ => STATUS_INTERNAL_SERVER_ERROR,
        }
    }

    /// The text sent to the client. Only a missing name and a validation
    /// message are echoed; every fault is reported by a fixed sentence.
    pub open spec fn spec_body(self) -> Seq<char> {
        match self {
            AppError::NotFound(message) => message@,
            AppError::Validation(message) => message@,
            AppError::Config(_) => "Configuration error"@,
            _ => "Internal server error"@,
        }
    }

    /// The sentence that introduces the error's detail in `message`.
    pub open spec fn spec_prefix(self) -> Seq<char> {
        match self {
            AppError::Database(_) => "Database error: "@,
            AppError::Migration(_) => "Migration error: "@,
            AppError::Template(_) => "Template error: "@,
            AppError::Config(_) => "Configuration error: "@,
            AppError::NotFound(_) => "Not found: "@,
            AppError::Validation(_) => "Validation error: "@,
            AppError::Internal => "Internal server error"@,
        }
    }

    /// The detail the error carries; empty for `Internal`.
    pub open spec fn spec_detail(self) -> Seq<char> {
        match self {
            AppError::Database(detail) => detail@,
            AppError::Migration(detail) => detail@,
            AppError::Template(detail) => detail@,
            AppError::Config(detail) => detail@,
            AppError::NotFound(detail) => detail@,
            AppError::Validation(detail) => detail@,
            AppError::Internal => Seq::<char>::empty(),
        }
    }

    /// The full description of the error, detail included, as it is logged.
    pub fn message(&self) -> (text: String)
        ensures
            text@ == self.spec_prefix() + self.spec_detail(),
    {
        match self {
            AppError::Database(detail) => String::from_str("Database error: ").concat(
                detail.as_str(),
            ),
            AppError::Migration(detail) => String::from_str("Migration error: ").concat(
                detail.as_str(),
            ),
            AppError::Template(detail) => String::from_str("Template error: ").concat(
                detail.as_str(),
            ),
            AppError::Config(detail) => String::from_str("Configuration error: ").concat(
                detail.as_str(),
            ),
            AppError::NotFound(detail) => String::from_str("Not found: ").concat(detail.as_str()),
            AppError::Validation(detail) => String::from_str("Validation error: ").concat(
                detail.as_str(),
            ),
            AppError::Internal => {
                let text = String::from_str("Internal server error");
                assert(text@ =~= self.spec_prefix() + self.spec_detail());
                text
            },
        }
    }

    /// The response the error is reported with.
    pub fn into_response(self) -> (response: Reply)
        ensures
            response.status == self.spec_status(),
            response.body@ == self.spec_body(),
    {
        match self {
            AppError::NotFound(message) => Reply { status: STATUS_NOT_FOUND, body: message },
            AppError::Validation(message) => Reply {
                status: STATUS_BAD_REQUEST,
                body: message,
            },
            AppError::Config(_) => Reply {
                status: STATUS_INTERNAL_SERVER_ERROR,
                body: String::from_str("Configuration error"),
            },
            _ => Reply {
                status: STATUS_INTERNAL_SERVER_ERROR,
                body: String::from_str("Internal server error"),
            },
        }
    }
}

/// A fault is reported as a server error by one of two fixed sentences: the
/// detail it carries never reaches the client.
pub proof fn law_faults_hide_their_detail(error: AppError)
    requires
        error.is_fault(),
    ensures
        error.spec_status() == STATUS_INTERNAL_SERVER_ERROR,
        error is Config ==> error.spec_body() == "Configuration error"@,
        !(error is Config) ==> error.spec_body() == "Internal server error"@,
{
}

} // verus!
