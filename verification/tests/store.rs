use stack_underflow::error::{AppError, PaginationError, QuestionRepoError};
use stack_underflow::pagination::Pagination;
use stack_underflow::question::{QuestionBody, QuestionId, Tag};
use stack_underflow::store::Store;

fn body(title: &str, content: &str) -> QuestionBody {
    QuestionBody::new(title.to_string(), content.to_string(), None)
}

#[test]
fn seeded_store_scenario() {
    let store = Store::new();
    let q = store.get_question("1").unwrap();
    assert_eq!(q.id().as_str(), "1");
    assert_eq!(q.body().title().as_str(), "First Question");
    assert_eq!(q.body().content().as_str(), "Content of question");
    let tags = q.body().tags();
    assert_eq!(tags.len(), 1);
    assert_eq!(tags[0].as_str(), "faq");

    let e = store.get_question("").unwrap_err();
    assert_eq!(e, AppError::QuestionRepo(QuestionRepoError::InvalidId));

    let e = store.get_question("999").unwrap_err();
    assert_eq!(e, AppError::QuestionRepo(QuestionRepoError::IdNotFound));
}

#[test]
fn put_then_get_returns_the_question_last_put() {
    let mut store = Store::new();
    store.replace_question("42", body("first title", "first content")).unwrap();
    store.replace_question("42", body("second title", "second content")).unwrap();
    let q = store.get_question("42").unwrap();
    assert_eq!(q.body().title().as_str(), "second title");
    assert_eq!(q.body().content().as_str(), "second content");
    assert_eq!(store.count_questions(), 2);
}

#[test]
fn delete_then_get_reports_not_found() {
    let mut store = Store::new();
    store.replace_question("gone", body("t", "c")).unwrap();
    store.delete_question("gone").unwrap();
    let e = store.get_question("gone").unwrap_err();
    assert_eq!(e, AppError::QuestionRepo(QuestionRepoError::IdNotFound));
}

#[test]
fn delete_missing_or_invalid_id_fails() {
    let mut store = Store::new();
    let e = store.delete_question("999").unwrap_err();
    assert_eq!(e, AppError::QuestionRepo(QuestionRepoError::IdNotFound));
    let e = store.delete_question("").unwrap_err();
    assert_eq!(e, AppError::QuestionRepo(QuestionRepoError::InvalidId));
    assert_eq!(store.count_questions(), 1);
}

#[test]
fn create_question_assigns_a_fresh_36_char_id() {
    let mut store = Store::new();
    let q = store.create_question(body("made", "fresh"));
    let id = q.id();
    assert_eq!(id.as_str().chars().count(), 36);
    let found = store.get_question(id.as_str()).unwrap();
    assert_eq!(found.body().title().as_str(), "made");
    assert_eq!(store.count_questions(), 2);
}

#[test]
fn replace_question_with_tags_keeps_them_in_order() {
    let mut store = Store::new();
    let tags = vec![Tag::parse("alpha").unwrap(), Tag::parse("beta").unwrap()];
    let b = QuestionBody::new("t".to_string(), "c".to_string(), Some(tags));
    store.replace_question("tagged", b).unwrap();
    let q = store.get_question("tagged").unwrap();
    let ts = q.body().tags();
    assert_eq!(ts.len(), 2);
    assert_eq!(ts[0].as_str(), "alpha");
    assert_eq!(ts[1].as_str(), "beta");
}

#[test]
fn create_answer_against_missing_question_changes_nothing() {
    let mut store = Store::new();
    assert_eq!(store.count_answers(), 0);
    let e = store.create_answer("999", "orphan".to_string()).unwrap_err();
    assert_eq!(e, AppError::QuestionRepo(QuestionRepoError::IdNotFound));
    assert_eq!(store.count_answers(), 0);

    let e = store.create_answer("", "orphan".to_string()).unwrap_err();
    assert_eq!(e, AppError::QuestionRepo(QuestionRepoError::InvalidId));
    assert_eq!(store.count_answers(), 0);
}

#[test]
fn create_answer_against_existing_question_is_found_again() {
    let mut store = Store::new();
    let a = store.create_answer("1", "the content".to_string()).unwrap();
    assert_eq!(a.question_id.as_str(), "1");
    assert_eq!(a.content, "the content");
    assert_eq!(a.id.as_str().chars().count(), 36);
    assert_eq!(store.count_answers(), 1);

    let found = store.get_answer(a.id()).unwrap();
    assert_eq!(found.content, "the content");
    assert_eq!(found.question_id.as_str(), "1");
}

#[test]
fn answer_question_by_typed_id() {
    let mut store = Store::new();
    let qid = QuestionId::parse("1").unwrap();
    let a = store.answer_question(&qid, "typed".to_string()).unwrap();
    assert_eq!(a.question_id.as_str(), "1");

    let missing = QuestionId::parse("404").unwrap();
    let e = store.answer_question(&missing, "nope".to_string()).unwrap_err();
    assert_eq!(e, QuestionRepoError::IdNotFound);
}

#[test]
fn list_questions_pages_and_clamps() {
    let mut store = Store::new();
    store.delete_question("1").unwrap();
    for i in 0..7 {
        store
            .replace_question(&format!("q{}", i), body(&format!("title {}", i), "c"))
            .unwrap();
    }
    let page = store
        .list_questions(Pagination { offset: Some(0), max_results: Some(3) })
        .unwrap();
    assert_eq!(page.items.len(), 3);
    assert_eq!(page.page.offset, 0);
    assert_eq!(page.page.max_results, 3);

    let page = store
        .list_questions(Pagination { offset: Some(5), max_results: Some(100) })
        .unwrap();
    assert_eq!(page.items.len(), 2);

    let page = store
        .list_questions(Pagination { offset: Some(50), max_results: Some(10) })
        .unwrap();
    assert_eq!(page.items.len(), 0);

    let page = store
        .list_questions(Pagination { offset: None, max_results: None })
        .unwrap();
    assert_eq!(page.items.len(), 7);
}

#[test]
fn list_questions_rejects_an_oversized_page() {
    let store = Store::new();
    let e = store
        .list_questions(Pagination { offset: None, max_results: Some(150) })
        .unwrap_err();
    assert_eq!(e, AppError::Pagination(PaginationError::MaximumPageSizeExceeded(150)));
    assert_eq!(e.message(), "Maximum page size (100) exceeded: 150");
}

#[test]
fn many_puts_with_distinct_ids_are_all_visible() {
    let mut store = Store::new();
    store.delete_question("1").unwrap();
    let n = 50;
    for i in 0..n {
        store
            .replace_question(&format!("id-{}", i), body(&format!("t{}", i), "c"))
            .unwrap();
    }
    assert_eq!(store.count_questions(), n);
    assert_eq!(store.list().len(), n);
    for i in 0..n {
        let q = store.get_question(&format!("id-{}", i)).unwrap();
        assert_eq!(q.body().title(), &format!("t{}", i));
    }
}
