use stack_underflow::error::{AppError, PaginationError};
use stack_underflow::pagination::{Pagination, ValidatedPagination};

#[test]
fn validate_defaults_when_absent() {
    let v = Pagination { offset: None, max_results: None }.validate().unwrap();
    assert_eq!(v, ValidatedPagination { offset: 0, max_results: 10 });
}

#[test]
fn validate_keeps_supplied_values() {
    let v = Pagination { offset: Some(7), max_results: Some(25) }.validate().unwrap();
    assert_eq!(v, ValidatedPagination { offset: 7, max_results: 25 });
}

#[test]
fn validate_accepts_the_ceiling_and_zero() {
    let v = Pagination { offset: None, max_results: Some(100) }.validate().unwrap();
    assert_eq!(v, ValidatedPagination { offset: 0, max_results: 100 });
    let v = Pagination { offset: Some(3), max_results: Some(0) }.validate().unwrap();
    assert_eq!(v, ValidatedPagination { offset: 3, max_results: 0 });
}

#[test]
fn validate_rejects_above_the_ceiling() {
    let e = Pagination { offset: None, max_results: Some(150) }.validate().unwrap_err();
    assert_eq!(e, PaginationError::MaximumPageSizeExceeded(150));
    let e = Pagination { offset: Some(2), max_results: Some(101) }.validate().unwrap_err();
    assert_eq!(e, PaginationError::MaximumPageSizeExceeded(101));
}

#[test]
fn validate_puts_no_bound_on_offset() {
    let v = Pagination { offset: Some(usize::MAX), max_results: None }.validate().unwrap();
    assert_eq!(v.offset, usize::MAX);
}

#[test]
fn validate_is_idempotent() {
    let v = Pagination { offset: Some(4), max_results: Some(42) }.validate().unwrap();
    let again = Pagination { offset: Some(v.offset), max_results: Some(v.max_results) }
        .validate()
        .unwrap();
    assert_eq!(v, again);
}

#[test]
fn page_size_error_message_embeds_value_and_ceiling() {
    let e = PaginationError::MaximumPageSizeExceeded(150);
    assert_eq!(e.message(), "Maximum page size (100) exceeded: 150");
    assert_eq!(e.status_code(), 422);
    let e = AppError::Pagination(PaginationError::MaximumPageSizeExceeded(10_000_000));
    assert_eq!(e.message(), "Maximum page size (100) exceeded: 10000000");
}

#[test]
fn reserved_pagination_error_is_representable() {
    let e = PaginationError::ValidationError;
    assert_eq!(e.message(), "Unable to determine pagination");
    assert_eq!(e.status_code(), 422);
}
