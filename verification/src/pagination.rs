//! Pagination: untrusted offset/limit input is defaulted and
//! bounds-checked into a safe paging descriptor.

use vstd::prelude::*;

use crate::error::PaginationError;

verus! {

/// Offset taken when the request names none.
pub const DEFAULT_OFFSET: usize = 0;

/// Page size taken when the request names none.
pub const DEFAULT_RESULTS: usize = 10;

/// The hard ceiling on a requested page size; larger requests are
/// rejected, not clamped.
pub const MAX_RESULTS: usize = 100;

/// A raw, untrusted paging request, straight from the query string.
#[derive(Clone, Copy, Debug)]
pub struct Pagination {
    pub offset: Option<usize>,
    pub max_results: Option<usize>,
}

/// A paging descriptor after defaulting and bounds-checking: safe to use
/// directly for slicing a result set. Invariant: `max_results <= 100`.
#[derive(Clone, Copy, Debug, PartialEq, Eq, Structural)]
pub struct ValidatedPagination {
    pub offset: usize,
    pub max_results: usize,
}

impl ValidatedPagination {
    /// What validation guarantees of every value it produces.
    pub open spec fn wf(self) -> bool {
        self.max_results <= MAX_RESULTS
    }
}

impl Pagination {
    /// The outcome of validation: the offset defaults to 0; the page size
    /// defaults to 10 and is rejected above the ceiling of 100, carrying
    /// the offending value.
    pub open spec fn spec_validate(self) -> Result<ValidatedPagination, PaginationError> {
        match self.max_results {
            Some(m) => if m > MAX_RESULTS {
                Err(PaginationError::MaximumPageSizeExceeded(m))
            } else {
                Ok(
                    ValidatedPagination {
                        offset: match self.offset {
                            Some(o) => o,
                            None => DEFAULT_OFFSET,
                        },
                        max_results: m,
                    },
                )
            },
            None => Ok(
                ValidatedPagination {
                    offset: match self.offset {
                        Some(o) => o,
                        None => DEFAULT_OFFSET,
                    },
                    max_results: DEFAULT_RESULTS,
                },
            ),
        }
    }

    /// Validates the request. Pure and deterministic: succeeds if and only
    /// if the requested page size is absent or within the ceiling.
    pub fn validate(self) -> (r: Result<ValidatedPagination, PaginationError>)
        ensures
            r == self.spec_validate(),
            r matches Ok(v) ==> v.wf(),
    {
        let offset: usize = match self.offset {
            Some(o) => o,
            None => DEFAULT_OFFSET,
        };
        match self.max_results {
            None => Ok(ValidatedPagination { offset, max_results: DEFAULT_RESULTS }),
            Some(m) => if m > MAX_RESULTS {
                Err(PaginationError::MaximumPageSizeExceeded(m))
            } else {
                Ok(ValidatedPagination { offset, max_results: m })
            },
        }
    }
}

/// Validation is idempotent: a raw request rebuilt from an
/// already-validated descriptor validates to that same descriptor.
pub proof fn lemma_validate_idempotent(v: ValidatedPagination)
    requires
        v.wf(),
    ensures
        (Pagination { offset: Some(v.offset), max_results: Some(v.max_results) }).spec_validate()
            == Ok::<ValidatedPagination, PaginationError>(v),
{
}

/// A result collection wrapped with the paging descriptor that produced
/// it, so a client can issue the next page request.
#[derive(Clone, Debug)]
pub struct PaginatedResponse<T> {
    pub page: ValidatedPagination,
    pub items: Vec<T>,
}

impl<T> PaginatedResponse<T> {
    pub fn new(page: ValidatedPagination, items: Vec<T>) -> (r: Self)
        ensures
            r.page == page,
            r.items == items,
    {
        PaginatedResponse { page, items }
    }
}

} // verus!
