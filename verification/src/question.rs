//! Questions, their identifiers and tags: validated wrappers around text,
//! rejecting exactly the empty string.

use vstd::prelude::*;

use crate::error::QuestionRepoError;
use crate::idgen::fresh_uuid;

verus! {

/// A label attached to a question. Invariant: never empty when parsed;
/// any non-empty text is accepted verbatim.
#[derive(Debug)]
pub struct Tag(pub(crate) String);

impl View for Tag {
    type V = Seq<char>;

    closed spec fn view(&self) -> Seq<char> {
        self.0@
    }
}

impl Tag {
    /// Parsing succeeds on exactly the non-empty strings, verbatim; the
    /// empty string is rejected as an invalid-input error.
    pub fn parse(text: &str) -> (r: Result<Tag, QuestionRepoError>)
        ensures
            match r {
                Ok(t) => text@.len() > 0 && t@ == text@,
                Err(e) => text@.len() == 0 && e == QuestionRepoError::InvalidId,
            },
    {
        if text.is_empty() {
            Err(QuestionRepoError::InvalidId)
        } else {
            Ok(Tag(text.to_owned()))
        }
    }

    /// The wrapped text.
    pub fn as_str(&self) -> (r: &str)
        ensures
            r@ == self@,
    {
        self.0.as_str()
    }
}

impl Clone for Tag {
    fn clone(&self) -> (r: Self)
        ensures
            r@ == self@,
    {
        Tag(self.0.clone())
    }
}

impl From<String> for Tag {
    fn from(item: String) -> (r: Self) {
        Tag(item)
    }
}

impl vstd::std_specs::convert::FromSpecImpl<String> for Tag {
    open spec fn obeys_from_spec() -> bool {
        true
    }

    closed spec fn from_spec(item: String) -> Self {
        Tag(item)
    }
}

/// The unique key of a question. Invariant: never empty.
#[derive(Debug)]
pub struct QuestionId(pub(crate) String);

impl View for QuestionId {
    type V = Seq<char>;

    closed spec fn view(&self) -> Seq<char> {
        self.0@
    }
}

impl QuestionId {
    /// Parsing succeeds on exactly the non-empty strings, verbatim; the
    /// empty string is rejected as an invalid-input error.
    pub fn parse(id: &str) -> (r: Result<QuestionId, QuestionRepoError>)
        ensures
            match r {
                Ok(q) => id@.len() > 0 && q@ == id@,
                Err(e) => id@.len() == 0 && e == QuestionRepoError::InvalidId,
            },
    {
        if id.is_empty() {
            Err(QuestionRepoError::InvalidId)
        } else {
            Ok(QuestionId(id.to_owned()))
        }
    }

    /// The wrapped text.
    pub fn as_str(&self) -> (r: &str)
        ensures
            r@ == self@,
    {
        self.0.as_str()
    }
}

impl Clone for QuestionId {
    fn clone(&self) -> (r: Self)
        ensures
            r@ == self@,
    {
        QuestionId(self.0.clone())
    }
}

impl PartialEq for QuestionId {
    fn eq(&self, other: &Self) -> (r: bool) {
        self.0 == other.0
    }
}

impl vstd::std_specs::cmp::PartialEqSpecImpl for QuestionId {
    open spec fn obeys_eq_spec() -> bool {
        true
    }

    open spec fn eq_spec(&self, other: &Self) -> bool {
        self@ == other@
    }
}

/// The mathematical value of a question body.
#[verifier::ext_equal]
pub struct QuestionBodyView {
    pub title: Seq<char>,
    pub content: Seq<char>,
    pub tags: Seq<Seq<char>>,
}

/// The mutable fields of a question; carries no identity.
#[derive(Debug)]
pub struct QuestionBody {
    pub(crate) title: String,
    pub(crate) content: String,
    pub(crate) tags: Vec<Tag>,
}

impl View for QuestionBody {
    type V = QuestionBodyView;

    closed spec fn view(&self) -> QuestionBodyView {
        QuestionBodyView {
            title: self.title@,
            content: self.content@,
            tags: self.tags@.map_values(|t: Tag| t@),
        }
    }
}

impl QuestionBody {
    /// A body from its parts; absent tags default to none.
    pub fn new(title: String, content: String, tags: Option<Vec<Tag>>) -> (r: Self)
        ensures
            r@.title == title@,
            r@.content == content@,
            r@.tags == (match tags {
                Some(ts) => ts@.map_values(|t: Tag| t@),
                None => Seq::<Seq<char>>::empty(),
            }),
    {
        let chosen: Vec<Tag> = match tags {
            Some(ts) => ts,
            None => Vec::new(),
        };
        proof {
            if chosen@.len() == 0 {
                assert(chosen@.map_values(|t: Tag| t@) =~= Seq::<Seq<char>>::empty());
            }
        }
        QuestionBody { title, content, tags: chosen }
    }

    /// Combines this body with the given identity.
    pub fn into_question(self, question_id: QuestionId) -> (r: Question)
        ensures
            r@.id == question_id@,
            r@.body == self@,
    {
        Question { id: question_id, body: self }
    }

    pub fn title(&self) -> (r: &String)
        ensures
            r@ == self@.title,
    {
        &self.title
    }

    pub fn content(&self) -> (r: &String)
        ensures
            r@ == self@.content,
    {
        &self.content
    }

    pub fn tags(&self) -> (r: &Vec<Tag>)
        ensures
            r@.map_values(|t: Tag| t@) == self@.tags,
    {
        &self.tags
    }
}

impl Clone for QuestionBody {
    fn clone(&self) -> (r: Self)
        ensures
            r@ == self@,
    {
        let r = QuestionBody {
            title: self.title.clone(),
            content: self.content.clone(),
            tags: clone_tags(&self.tags),
        };
        proof {
            assert(r@.tags =~= self@.tags);
        }
        r
    }
}

/// Clones a tag list, preserving each tag's text.
fn clone_tags(tags: &Vec<Tag>) -> (r: Vec<Tag>)
    ensures
        r@.map_values(|t: Tag| t@) == tags@.map_values(|t: Tag| t@),
{
    let mut r: Vec<Tag> = Vec::new();
    let mut i: usize = 0;
    while i < tags.len()
        invariant
            i <= tags@.len(),
            r@.len() == i,
            forall|j: int| 0 <= j < i ==> r@[j]@ == tags@[j]@,
        decreases tags@.len() - i,
    {
        r.push(tags[i].clone());
        i = i + 1;
    }
    proof {
        assert(r@.map_values(|t: Tag| t@) =~= tags@.map_values(|t: Tag| t@));
    }
    r
}

/// The mathematical value of a question.
#[verifier::ext_equal]
pub struct QuestionView {
    pub id: Seq<char>,
    pub body: QuestionBodyView,
}

/// A question: an immutable identity plus a body. Mutation is whole-record
/// replacement keyed by the id.
#[derive(Debug)]
pub struct Question {
    pub(crate) id: QuestionId,
    pub(crate) body: QuestionBody,
}

impl View for Question {
    type V = QuestionView;

    closed spec fn view(&self) -> QuestionView {
        QuestionView { id: self.id@, body: self.body@ }
    }
}

impl Question {
    /// A question from a caller-supplied identity and a body.
    pub fn new(id: QuestionId, body: QuestionBody) -> (r: Self)
        ensures
            r@.id == id@,
            r@.body == body@,
    {
        Question { id, body }
    }

    /// A question from a body, under a fresh server-assigned random id.
    pub fn with_fresh_id(body: QuestionBody) -> (r: Self)
        ensures
            r@.body == body@,
            r@.id.len() == 36,
    {
        Question { id: QuestionId(fresh_uuid()), body }
    }

    /// The question's identity.
    pub fn id(&self) -> (r: QuestionId)
        ensures
            r@ == self@.id,
    {
        self.id.clone()
    }

    /// The question's body.
    pub fn body(&self) -> (r: &QuestionBody)
        ensures
            r@ == self@.body,
    {
        &self.body
    }
}

impl Clone for Question {
    fn clone(&self) -> (r: Self)
        ensures
            r@ == self@,
    {
        Question { id: self.id.clone(), body: self.body.clone() }
    }
}

/// How a question's value relates to its parts.
pub(crate) proof fn lemma_question_view(q: Question)
    ensures
        q@.id == q.id@,
        q@.body == q.body@,
{
}

} // verus!
