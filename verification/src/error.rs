//! The closed error taxonomy of the service, with its mapping to
//! transport-level status codes and messages.

use vstd::prelude::*;

use crate::decimal::{dec_rep, dec_string};

verus! {

/// Failures of the question/answer repository.
#[derive(Clone, Copy, Debug, PartialEq, Eq, Structural)]
pub enum QuestionRepoError {
    /// A malformed (empty) identifier string was supplied.
    InvalidId,
    /// Reserved for persistence failures; no current operation produces it.
    UnableToWrite,
    /// A lookup or foreign-key reference missed.
    IdNotFound,
}

/// Failures of pagination validation.
#[derive(Clone, Copy, Debug, PartialEq, Eq, Structural)]
pub enum PaginationError {
    /// Reserved generic validation failure; no current operation produces it.
    ValidationError,
    /// The requested page size, which exceeded the fixed ceiling of 100.
    MaximumPageSizeExceeded(usize),
}

/// The umbrella error surfaced to callers of the service operations.
#[derive(Clone, Copy, Debug, PartialEq, Eq, Structural)]
pub enum AppError {
    QuestionRepo(QuestionRepoError),
    Pagination(PaginationError),
}

impl From<QuestionRepoError> for AppError {
    fn from(item: QuestionRepoError) -> (r: Self) {
        AppError::QuestionRepo(item)
    }
}

impl vstd::std_specs::convert::FromSpecImpl<QuestionRepoError> for AppError {
    open spec fn obeys_from_spec() -> bool {
        true
    }

    open spec fn from_spec(item: QuestionRepoError) -> Self {
        AppError::QuestionRepo(item)
    }
}

impl From<PaginationError> for AppError {
    fn from(item: PaginationError) -> (r: Self) {
        AppError::Pagination(item)
    }
}

impl vstd::std_specs::convert::FromSpecImpl<PaginationError> for AppError {
    open spec fn obeys_from_spec() -> bool {
        true
    }

    open spec fn from_spec(item: PaginationError) -> Self {
        AppError::Pagination(item)
    }
}

impl QuestionRepoError {
    /// The HTTP status class this error maps to.
    pub open spec fn spec_status_code(self) -> u16 {
        match self {
            QuestionRepoError::InvalidId => 400,
            QuestionRepoError::UnableToWrite => 500,
            QuestionRepoError::IdNotFound => 404,
        }
    }

    pub fn status_code(&self) -> (c: u16)
        ensures
            c == self.spec_status_code(),
    {
        match self {
            QuestionRepoError::InvalidId => 400,
            QuestionRepoError::UnableToWrite => 500,
            QuestionRepoError::IdNotFound => 404,
        }
    }

    /// The human-readable message for the response body.
    pub open spec fn spec_message(self) -> Seq<char> {
        match self {
            QuestionRepoError::InvalidId => "Invalid Question Id provided"@,
            QuestionRepoError::UnableToWrite => "Unable to save question"@,
            QuestionRepoError::IdNotFound => "Unable to find provided question id"@,
        }
    }

    pub fn message(&self) -> (m: String)
        ensures
            m@ == self.spec_message(),
    {
        match self {
            QuestionRepoError::InvalidId => "Invalid Question Id provided".to_owned(),
            QuestionRepoError::UnableToWrite => "Unable to save question".to_owned(),
            QuestionRepoError::IdNotFound => "Unable to find provided question id".to_owned(),
        }
    }
}

impl PaginationError {
    pub open spec fn spec_status_code(self) -> u16 {
        422
    }

    pub fn status_code(&self) -> (c: u16)
        ensures
            c == self.spec_status_code(),
    {
        422
    }

    /// The message embeds the requested size and the fixed ceiling.
    pub open spec fn spec_message(self) -> Seq<char> {
        match self {
            PaginationError::ValidationError => "Unable to determine pagination"@,
            PaginationError::MaximumPageSizeExceeded(size) => "Maximum page size (100) exceeded: "@
                + dec_rep(size as nat),
        }
    }

    pub fn message(&self) -> (m: String)
        ensures
            m@ == self.spec_message(),
    {
        match self {
            PaginationError::ValidationError => "Unable to determine pagination".to_owned(),
            PaginationError::MaximumPageSizeExceeded(size) => {
                let rendered = dec_string(*size);
                "Maximum page size (100) exceeded: ".to_owned().concat(rendered.as_str())
            },
        }
    }
}

impl AppError {
    pub open spec fn spec_status_code(self) -> u16 {
        match self {
            AppError::QuestionRepo(e) => e.spec_status_code(),
            AppError::Pagination(e) => e.spec_status_code(),
        }
    }

    pub fn status_code(&self) -> (c: u16)
        ensures
            c == self.spec_status_code(),
    {
        match self {
            AppError::QuestionRepo(e) => e.status_code(),
            AppError::Pagination(e) => e.status_code(),
        }
    }

    pub open spec fn spec_message(self) -> Seq<char> {
        match self {
            AppError::QuestionRepo(e) => e.spec_message(),
            AppError::Pagination(e) => e.spec_message(),
        }
    }

    pub fn message(&self) -> (m: String)
        ensures
            m@ == self.spec_message(),
    {
        match self {
            AppError::QuestionRepo(e) => e.message(),
            AppError::Pagination(e) => e.message(),
        }
    }
}

} // verus!
