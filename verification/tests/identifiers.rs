use stack_underflow::answer::AnswerId;
use stack_underflow::error::QuestionRepoError;
use stack_underflow::question::{QuestionId, Tag};

#[test]
fn tag_parse_round_trips_verbatim() {
    let t = Tag::parse("faq").unwrap();
    assert_eq!(t.as_str(), "faq");
    let t = Tag::parse("  spaces kept  ").unwrap();
    assert_eq!(t.as_str(), "  spaces kept  ");
}

#[test]
fn tag_parse_empty_fails() {
    assert_eq!(Tag::parse("").unwrap_err(), QuestionRepoError::InvalidId);
}

#[test]
fn question_id_parse_round_trips_verbatim() {
    let id = QuestionId::parse("1").unwrap();
    assert_eq!(id.as_str(), "1");
    let id = QuestionId::parse("a long, strange id — kept verbatim").unwrap();
    assert_eq!(id.as_str(), "a long, strange id — kept verbatim");
}

#[test]
fn question_id_parse_empty_fails() {
    assert_eq!(QuestionId::parse("").unwrap_err(), QuestionRepoError::InvalidId);
}

#[test]
fn answer_id_parse_round_trips_verbatim() {
    let id = AnswerId::parse("abc-123").unwrap();
    assert_eq!(id.as_str(), "abc-123");
}

#[test]
fn answer_id_parse_empty_fails() {
    assert_eq!(AnswerId::parse("").unwrap_err(), QuestionRepoError::InvalidId);
}

#[test]
fn whitespace_only_ids_are_accepted() {
    let id = QuestionId::parse("   ").unwrap();
    assert_eq!(id.as_str(), "   ");
    let t = Tag::parse("\t").unwrap();
    assert_eq!(t.as_str(), "\t");
}
