use stack_underflow::error::{AppError, PaginationError, QuestionRepoError};

#[test]
fn repo_error_status_codes() {
    assert_eq!(QuestionRepoError::InvalidId.status_code(), 400);
    assert_eq!(QuestionRepoError::UnableToWrite.status_code(), 500);
    assert_eq!(QuestionRepoError::IdNotFound.status_code(), 404);
}

#[test]
fn repo_error_messages() {
    assert_eq!(QuestionRepoError::InvalidId.message(), "Invalid Question Id provided");
    assert_eq!(QuestionRepoError::UnableToWrite.message(), "Unable to save question");
    assert_eq!(QuestionRepoError::IdNotFound.message(), "Unable to find provided question id");
}

#[test]
fn app_error_delegates_to_its_family() {
    let e = AppError::from(QuestionRepoError::IdNotFound);
    assert_eq!(e, AppError::QuestionRepo(QuestionRepoError::IdNotFound));
    assert_eq!(e.status_code(), 404);
    assert_eq!(e.message(), "Unable to find provided question id");

    let e = AppError::from(PaginationError::MaximumPageSizeExceeded(222));
    assert_eq!(e, AppError::Pagination(PaginationError::MaximumPageSizeExceeded(222)));
    assert_eq!(e.status_code(), 422);
    assert_eq!(e.message(), "Maximum page size (100) exceeded: 222");
}

#[test]
fn decimal_rendering_is_exact() {
    assert_eq!(stack_underflow::decimal::dec_string(0), "0");
    assert_eq!(stack_underflow::decimal::dec_string(7), "7");
    assert_eq!(stack_underflow::decimal::dec_string(100), "100");
    assert_eq!(stack_underflow::decimal::dec_string(90210), "90210");
    assert_eq!(
        stack_underflow::decimal::dec_string(usize::MAX),
        format!("{}", usize::MAX)
    );
}
