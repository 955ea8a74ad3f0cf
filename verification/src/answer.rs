//! Answers to questions: always server-assigned identifiers and an
//! immutable record referencing an existing question.

use vstd::prelude::*;

use crate::error::QuestionRepoError;
use crate::idgen::fresh_uuid;
use crate::question::QuestionId;

verus! {

/// The unique key of an answer. Invariant: never empty. In practice always
/// server-generated; parsing from text exists for symmetry with the other
/// identifiers and rejects exactly the empty string.
#[derive(Debug)]
pub struct AnswerId(pub(crate) String);

impl View for AnswerId {
    type V = Seq<char>;

    closed spec fn view(&self) -> Seq<char> {
        self.0@
    }
}

impl AnswerId {
    /// Parsing succeeds on exactly the non-empty strings, verbatim; the
    /// empty string is rejected as an invalid-input error.
    pub fn parse(id: &str) -> (r: Result<AnswerId, QuestionRepoError>)
        ensures
            match r {
                Ok(a) => id@.len() > 0 && a@ == id@,
                Err(e) => id@.len() == 0 && e == QuestionRepoError::InvalidId,
            },
    {
        if id.is_empty() {
            Err(QuestionRepoError::InvalidId)
        } else {
            Ok(AnswerId(id.to_owned()))
        }
    }

    /// The wrapped text.
    pub fn as_str(&self) -> (r: &str)
        ensures
            r@ == self@,
    {
        self.0.as_str()
    }
}

impl Clone for AnswerId {
    fn clone(&self) -> (r: Self)
        ensures
            r@ == self@,
    {
        AnswerId(self.0.clone())
    }
}

impl PartialEq for AnswerId {
    fn eq(&self, other: &Self) -> (r: bool) {
        self.0 == other.0
    }
}

impl vstd::std_specs::cmp::PartialEqSpecImpl for AnswerId {
    open spec fn obeys_eq_spec() -> bool {
        true
    }

    open spec fn eq_spec(&self, other: &Self) -> bool {
        self@ == other@
    }
}

/// The content of an answer before it is given an identity.
#[derive(Debug)]
pub struct AnswerBody {
    pub content: String,
}

impl View for AnswerBody {
    type V = Seq<char>;

    open spec fn view(&self) -> Seq<char> {
        self.content@
    }
}

/// The mathematical value of an answer.
#[verifier::ext_equal]
pub struct AnswerView {
    pub id: Seq<char>,
    pub question_id: Seq<char>,
    pub content: Seq<char>,
}

/// An answer: a server-assigned identity, the question it answers, and its
/// content. Immutable after creation.
#[derive(Debug)]
pub struct Answer {
    pub id: AnswerId,
    pub question_id: QuestionId,
    pub content: String,
}

impl View for Answer {
    type V = AnswerView;

    open spec fn view(&self) -> AnswerView {
        AnswerView { id: self.id@, question_id: self.question_id@, content: self.content@ }
    }
}

impl Answer {
    /// An answer to the given question, under a fresh server-assigned
    /// random id.
    pub fn new(question_id: QuestionId, content: String) -> (r: Self)
        ensures
            r@.question_id == question_id@,
            r@.content == content@,
            r@.id.len() == 36,
    {
        Answer { id: AnswerId(fresh_uuid()), question_id, content }
    }

    /// The answer's identity.
    pub fn id(&self) -> (r: &AnswerId)
        ensures
            r@ == self@.id,
    {
        &self.id
    }
}

impl Clone for Answer {
    fn clone(&self) -> (r: Self)
        ensures
            r@ == self@,
    {
        Answer {
            id: self.id.clone(),
            question_id: self.question_id.clone(),
            content: self.content.clone(),
        }
    }
}

} // verus!
