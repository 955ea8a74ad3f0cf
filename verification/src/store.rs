//! The in-memory repository: two independent maps, questions keyed by
//! `QuestionId` and answers keyed by `AnswerId`, with insert-or-replace,
//! lookup and removal, and the service operations built on them.

use vstd::prelude::*;

use crate::answer::{Answer, AnswerId, AnswerView};
use crate::error::{AppError, QuestionRepoError};
use crate::pagination::{PaginatedResponse, Pagination, ValidatedPagination};
use crate::question::{Question, QuestionBody, QuestionId, QuestionView};

verus! {

/// A record carrying its own text key.
pub trait Keyed {
    spec fn key(self) -> Seq<char>;
}

impl Keyed for QuestionView {
    open spec fn key(self) -> Seq<char> {
        self.id
    }
}

impl Keyed for AnswerView {
    open spec fn key(self) -> Seq<char> {
        self.id
    }
}

/// The map induced by a sequence of keyed records; on duplicate keys the
/// later record wins.
pub open spec fn entry_map<V: Keyed>(s: Seq<V>) -> Map<Seq<char>, V>
    decreases s.len(),
{
    if s.len() == 0 {
        Map::empty()
    } else {
        entry_map(s.drop_last()).insert(s.last().key(), s.last())
    }
}

/// No two records of the sequence share a key.
pub open spec fn unique_keys<V: Keyed>(s: Seq<V>) -> bool {
    forall|i: int, j: int| 0 <= i < j < s.len() ==> s[i].key() != s[j].key()
}

proof fn lemma_entry_map_contains<V: Keyed>(s: Seq<V>, k: Seq<char>)
    ensures
        entry_map(s).contains_key(k) <==> exists|i: int| 0 <= i < s.len() && s[i].key() == k,
    decreases s.len(),
{
    if s.len() > 0 {
        let prev = s.drop_last();
        lemma_entry_map_contains(prev, k);
        if s.last().key() == k {
            assert(s[s.len() - 1].key() == k);
        } else {
            if entry_map(s).contains_key(k) {
                let i = choose|i: int| 0 <= i < prev.len() && prev[i].key() == k;
                assert(s[i].key() == k);
            }
            if exists|i: int| 0 <= i < s.len() && s[i].key() == k {
                let i = choose|i: int| 0 <= i < s.len() && s[i].key() == k;
                assert(i < s.len() - 1);
                assert(prev[i].key() == k);
            }
        }
    }
}

proof fn lemma_entry_map_value<V: Keyed>(s: Seq<V>, i: int)
    requires
        unique_keys(s),
        0 <= i < s.len(),
    ensures
        entry_map(s).contains_key(s[i].key()),
        entry_map(s)[s[i].key()] == s[i],
    decreases s.len(),
{
    let prev = s.drop_last();
    if i < s.len() - 1 {
        assert(unique_keys(prev));
        lemma_entry_map_value(prev, i);
        assert(s.last().key() != s[i].key());
    }
}

proof fn lemma_entry_map_push<V: Keyed>(s: Seq<V>, v: V)
    ensures
        entry_map(s.push(v)) == entry_map(s).insert(v.key(), v),
{
    assert(s.push(v).drop_last() =~= s);
    assert(s.push(v).last() == v);
}

proof fn lemma_entry_map_remove<V: Keyed>(s: Seq<V>, i: int)
    requires
        unique_keys(s),
        0 <= i < s.len(),
    ensures
        entry_map(s.remove(i)) == entry_map(s).remove(s[i].key()),
    decreases s.len(),
{
    let k = s[i].key();
    let prev = s.drop_last();
    if i == s.len() - 1 {
        assert(s.remove(i) =~= prev);
        lemma_entry_map_contains(prev, k);
        assert(forall|j: int| 0 <= j < prev.len() ==> prev[j].key() != k);
        assert(!entry_map(prev).contains_key(k));
        assert(entry_map(prev).insert(k, s.last()).remove(k) =~= entry_map(prev));
        assert(entry_map(s.remove(i)) =~= entry_map(s).remove(k));
    } else {
        assert(unique_keys(prev));
        lemma_entry_map_remove(prev, i);
        let sr = s.remove(i);
        assert(sr.drop_last() =~= prev.remove(i));
        assert(sr.last() == s.last());
        assert(s.last().key() != k);
        assert(entry_map(sr) == entry_map(prev.remove(i)).insert(s.last().key(), s.last()));
        assert(entry_map(prev).remove(k).insert(s.last().key(), s.last()) =~= entry_map(
            prev,
        ).insert(s.last().key(), s.last()).remove(k));
        assert(entry_map(sr) =~= entry_map(s).remove(k));
    }
}

proof fn lemma_entry_map_len<V: Keyed>(s: Seq<V>)
    requires
        unique_keys(s),
    ensures
        entry_map(s).dom().finite(),
        entry_map(s).len() == s.len(),
    decreases s.len(),
{
    if s.len() == 0 {
        assert(entry_map(s).dom() =~= Set::<Seq<char>>::empty());
    } else {
        let prev = s.drop_last();
        assert(unique_keys(prev));
        lemma_entry_map_len(prev);
        lemma_entry_map_contains(prev, s.last().key());
        assert(forall|j: int| 0 <= j < prev.len() ==> prev[j].key() != s.last().key());
        assert(!entry_map(prev).contains_key(s.last().key()));
    }
}

proof fn lemma_unique_remove<V: Keyed>(s: Seq<V>, i: int)
    requires
        unique_keys(s),
        0 <= i < s.len(),
    ensures
        unique_keys(s.remove(i)),
        forall|j: int| 0 <= j < s.remove(i).len() ==> s.remove(i)[j].key() != s[i].key(),
{
    let sr = s.remove(i);
    assert forall|j: int| 0 <= j < sr.len() implies sr[j].key() != s[i].key() by {
        if j < i {
            assert(sr[j] == s[j]);
        } else {
            assert(sr[j] == s[j + 1]);
        }
    }
    assert forall|x: int, y: int| 0 <= x < y < sr.len() implies sr[x].key() != sr[y].key() by {
        if y < i {
        } else if x < i {
            assert(sr[y] == s[y + 1]);
        } else {
            assert(sr[x] == s[x + 1]);
            assert(sr[y] == s[y + 1]);
        }
    }
}

/// The mathematical value of the store: its two maps.
#[verifier::ext_equal]
pub struct StoreView {
    pub questions: Map<Seq<char>, QuestionView>,
    pub answers: Map<Seq<char>, AnswerView>,
}

/// The record seeded into every fresh store.
pub open spec fn seed_question() -> QuestionView {
    QuestionView {
        id: "1"@,
        body: crate::question::QuestionBodyView {
            title: "First Question"@,
            content: "Content of question"@,
            tags: seq!["faq"@],
        },
    }
}

/// The in-memory repository. Both collections keep one record per key.
#[derive(Debug)]
pub struct Store {
    questions: Vec<Question>,
    answers: Vec<Answer>,
}

impl View for Store {
    type V = StoreView;

    open spec fn view(&self) -> StoreView {
        StoreView {
            questions: entry_map(self.questions_seq()),
            answers: entry_map(self.answers_seq()),
        }
    }
}

impl Store {
    /// The questions, in the store's iteration order.
    pub closed spec fn questions_seq(&self) -> Seq<QuestionView> {
        self.questions@.map_values(|q: Question| q@)
    }

    /// The answers, in the store's iteration order.
    pub closed spec fn answers_seq(&self) -> Seq<AnswerView> {
        self.answers@.map_values(|a: Answer| a@)
    }

    /// Internal consistency: one record per key in each collection.
    pub open spec fn wf(&self) -> bool {
        unique_keys(self.questions_seq()) && unique_keys(self.answers_seq())
    }

    /// A fresh store: the bundled seed question, and no answers.
    pub fn new() -> (r: Store)
        ensures
            r.wf(),
            r@.questions == Map::<Seq<char>, QuestionView>::empty().insert(
                seed_question().id,
                seed_question(),
            ),
            r@.answers == Map::<Seq<char>, AnswerView>::empty(),
    {
        proof {
            reveal_strlit("faq");
            reveal_strlit("1");
        }
        let tag = match crate::question::Tag::parse("faq") {
            Ok(t) => t,
            Err(_) => vstd::pervasive::unreached(),
        };
        let mut tags: Vec<crate::question::Tag> = Vec::new();
        tags.push(tag);
        let body = QuestionBody::new(
            String::from_str("First Question"),
            String::from_str("Content of question"),
            Some(tags),
        );
        let qid = match QuestionId::parse("1") {
            Ok(i) => i,
            Err(_) => vstd::pervasive::unreached(),
        };
        let q = Question::new(qid, body);
        proof {
            assert(q@.body.tags =~= seed_question().body.tags);
            assert(q@ =~~= seed_question());
        }
        let mut questions: Vec<Question> = Vec::new();
        questions.push(q);
        let r = Store { questions, answers: Vec::new() };
        proof {
            assert(r.questions_seq() =~= seq![seed_question()]);
            assert(r.answers_seq() =~= Seq::<AnswerView>::empty());
            assert(r.questions_seq().drop_last() =~= Seq::<QuestionView>::empty());
            assert(r.questions_seq().last() == seed_question());
            assert(entry_map(Seq::<QuestionView>::empty()) == Map::<Seq<char>, QuestionView>::empty());
            assert(entry_map(Seq::<AnswerView>::empty()) == Map::<Seq<char>, AnswerView>::empty());
            assert(r@.questions =~= Map::<Seq<char>, QuestionView>::empty().insert(
                seed_question().id,
                seed_question(),
            ));
        }
        r
    }

    /// The index of the question with this id, if any.
    fn find_question(&self, id: &QuestionId) -> (r: Option<usize>)
        ensures
            match r {
                Some(i) => 0 <= i < self.questions_seq().len() && self.questions_seq()[
                    i as int
                ].id == id@,
                None => forall|j: int|
                    0 <= j < self.questions_seq().len() ==> self.questions_seq()[j].id != id@,
            },
    {
        proof {
            lemma_q_seq(self.questions@);
        }
        let mut i: usize = 0;
        while i < self.questions.len()
            invariant
                i <= self.questions@.len(),
                self.questions_seq().len() == self.questions@.len(),
                forall|j: int| 0 <= j < i ==> self.questions_seq()[j].id != id@,
                forall|j: int|
                    0 <= j < self.questions@.len() ==> self.questions_seq()[j].id
                        == self.questions@[j].id@,
            decreases self.questions@.len() - i,
        {
            if self.questions[i].id == *id {
                return Some(i);
            }
            i = i + 1;
        }
        None
    }

    /// The index of the answer with this id, if any.
    fn find_answer(&self, id: &AnswerId) -> (r: Option<usize>)
        ensures
            match r {
                Some(i) => 0 <= i < self.answers_seq().len() && self.answers_seq()[i as int].id
                    == id@,
                None => forall|j: int|
                    0 <= j < self.answers_seq().len() ==> self.answers_seq()[j].id != id@,
            },
    {
        proof {
            lemma_a_seq(self.answers@);
        }
        let mut i: usize = 0;
        while i < self.answers.len()
            invariant
                i <= self.answers@.len(),
                self.answers_seq().len() == self.answers@.len(),
                forall|j: int| 0 <= j < i ==> self.answers_seq()[j].id != id@,
                forall|j: int|
                    0 <= j < self.answers@.len() ==> self.answers_seq()[j].id
                        == self.answers@[j].id@,
            decreases self.answers@.len() - i,
        {
            if self.answers[i].id == *id {
                return Some(i);
            }
            i = i + 1;
        }
        None
    }

    /// A snapshot of all current questions, in the store's order.
    pub fn list(&self) -> (r: Vec<Question>)
        ensures
            r@.map_values(|q: Question| q@) == self.questions_seq(),
    {
        proof {
            lemma_q_seq(self.questions@);
        }
        let mut r: Vec<Question> = Vec::new();
        let mut i: usize = 0;
        while i < self.questions.len()
            invariant
                i <= self.questions@.len(),
                r@.len() == i,
                forall|j: int| 0 <= j < i ==> r@[j]@ == self.questions@[j]@,
            decreases self.questions@.len() - i,
        {
            r.push(self.questions[i].clone());
            i = i + 1;
        }
        proof {
            lemma_q_seq(r@);
            assert(r@.map_values(|q: Question| q@) =~= self.questions_seq());
        }
        r
    }

    /// How many questions the store holds.
    pub fn count_questions(&self) -> (r: usize)
        requires
            self.wf(),
        ensures
            r == self@.questions.len(),
    {
        proof {
            lemma_entry_map_len(self.questions_seq());
            lemma_q_seq(self.questions@);
        }
        self.questions.len()
    }

    /// How many answers the store holds.
    pub fn count_answers(&self) -> (r: usize)
        requires
            self.wf(),
        ensures
            r == self@.answers.len(),
    {
        proof {
            lemma_entry_map_len(self.answers_seq());
            lemma_a_seq(self.answers@);
        }
        self.answers.len()
    }

    /// Looks a question up by id.
    pub fn get(&self, id: &QuestionId) -> (r: Option<Question>)
        requires
            self.wf(),
        ensures
            match r {
                Some(q) => self@.questions.contains_key(id@) && q@ == self@.questions[id@],
                None => !self@.questions.contains_key(id@),
            },
    {
        match self.find_question(id) {
            Some(i) => {
                proof {
                    lemma_entry_map_value(self.questions_seq(), i as int);
                    lemma_q_seq(self.questions@);
                }
                Some(self.questions[i].clone())
            },
            None => {
                proof {
                    lemma_entry_map_contains(self.questions_seq(), id@);
                }
                None
            },
        }
    }

    /// Looks an answer up by id.
    pub fn get_answer(&self, id: &AnswerId) -> (r: Option<Answer>)
        requires
            self.wf(),
        ensures
            match r {
                Some(a) => self@.answers.contains_key(id@) && a@ == self@.answers[id@],
                None => !self@.answers.contains_key(id@),
            },
    {
        match self.find_answer(id) {
            Some(i) => {
                proof {
                    lemma_entry_map_value(self.answers_seq(), i as int);
                    lemma_a_seq(self.answers@);
                }
                Some(self.answers[i].clone())
            },
            None => {
                proof {
                    lemma_entry_map_contains(self.answers_seq(), id@);
                }
                None
            },
        }
    }

    /// Whether a question with this id currently exists.
    pub fn contains_question(&self, id: &QuestionId) -> (r: bool)
        ensures
            r == self@.questions.contains_key(id@),
    {
        proof {
            lemma_entry_map_contains(self.questions_seq(), id@);
        }
        match self.find_question(id) {
            Some(_) => true,
            None => false,
        }
    }

    /// Insert-or-replace, keyed by the question's id; always succeeds.
    pub fn put(&mut self, question: Question)
        requires
            old(self).wf(),
        ensures
            final(self).wf(),
            final(self)@.questions == old(self)@.questions.insert(question@.id, question@),
            final(self)@.answers == old(self)@.answers,
    {
        let ghost s0 = self.questions_seq();
        proof {
            lemma_q_seq(self.questions@);
        }
        let ghost qv = question@;
        match self.find_question(&question.id) {
            Some(i) => {
                proof {
                    lemma_entry_map_remove(s0, i as int);
                    lemma_unique_remove(s0, i as int);
                    assert(s0[i as int].key() == qv.key()) by {
                        crate::question::lemma_question_view(question);
                    }
                }
                self.questions.remove(i);
                proof {
                    lemma_q_seq(self.questions@);
                    assert(self.questions_seq() =~= s0.remove(i as int));
                }
                let ghost s1 = self.questions_seq();
                self.questions.push(question);
                proof {
                    lemma_q_seq(self.questions@);
                    assert(self.questions_seq() =~= s1.push(qv));
                    lemma_entry_map_push(s1, qv);
                    assert(entry_map(s1).insert(qv.key(), qv) =~= entry_map(s0).insert(
                        qv.key(),
                        qv,
                    ));
                    assert(unique_keys(s1.push(qv)));
                }
            },
            None => {
                self.questions.push(question);
                proof {
                    lemma_q_seq(self.questions@);
                    assert(self.questions_seq() =~= s0.push(qv));
                    lemma_entry_map_push(s0, qv);
                    assert(s0.push(qv).last() == qv);
                    assert(forall|j: int| 0 <= j < s0.len() ==> s0[j].key() != qv.key()) by {
                        crate::question::lemma_question_view(question);
                    }
                    assert(unique_keys(s0.push(qv)));
                }
            },
        }
    }

    /// Insert-or-replace, keyed by the answer's id.
    fn put_answer(&mut self, answer: Answer)
        requires
            old(self).wf(),
        ensures
            final(self).wf(),
            final(self)@.answers == old(self)@.answers.insert(answer@.id, answer@),
            final(self)@.questions == old(self)@.questions,
    {
        let ghost s0 = self.answers_seq();
        proof {
            lemma_a_seq(self.answers@);
        }
        let ghost av = answer@;
        match self.find_answer(&answer.id) {
            Some(i) => {
                proof {
                    lemma_entry_map_remove(s0, i as int);
                    lemma_unique_remove(s0, i as int);
                }
                self.answers.remove(i);
                proof {
                    lemma_a_seq(self.answers@);
                    assert(self.answers_seq() =~= s0.remove(i as int));
                }
                let ghost s1 = self.answers_seq();
                self.answers.push(answer);
                proof {
                    lemma_a_seq(self.answers@);
                    assert(self.answers_seq() =~= s1.push(av));
                    lemma_entry_map_push(s1, av);
                    assert(entry_map(s1).insert(av.key(), av) =~= entry_map(s0).insert(
                        av.key(),
                        av,
                    ));
                    assert(unique_keys(s1.push(av)));
                }
            },
            None => {
                self.answers.push(answer);
                proof {
                    lemma_a_seq(self.answers@);
                    assert(self.answers_seq() =~= s0.push(av));
                    lemma_entry_map_push(s0, av);
                    assert(unique_keys(s0.push(av)));
                }
            },
        }
    }

    /// Removes the question with this id; reports whether it existed.
    pub fn delete(&mut self, id: &QuestionId) -> (r: bool)
        requires
            old(self).wf(),
        ensures
            final(self).wf(),
            r == old(self)@.questions.contains_key(id@),
            final(self)@.questions == old(self)@.questions.remove(id@),
            final(self)@.answers == old(self)@.answers,
    {
        let ghost s0 = self.questions_seq();
        proof {
            lemma_entry_map_contains(s0, id@);
        }
        match self.find_question(id) {
            Some(i) => {
                proof {
                    lemma_entry_map_remove(s0, i as int);
                    lemma_unique_remove(s0, i as int);
                }
                self.questions.remove(i);
                proof {
                    lemma_q_seq(self.questions@);
                    assert(self.questions_seq() =~= s0.remove(i as int));
                }
                true
            },
            None => {
                proof {
                    assert(old(self)@.questions.remove(id@) =~= old(self)@.questions);
                }
                false
            },
        }
    }

    /// Creates an answer to an existing question: verifies the referenced
    /// question exists, then stores a fresh-id answer; a miss changes
    /// nothing.
    pub fn answer_question(&mut self, question_id: &QuestionId, content: String) -> (r: Result<
        Answer,
        QuestionRepoError,
    >)
        requires
            old(self).wf(),
        ensures
            final(self).wf(),
            final(self)@.questions == old(self)@.questions,
            match r {
                Ok(a) => old(self)@.questions.contains_key(question_id@) && a@.question_id
                    == question_id@ && a@.content == content@ && a@.id.len() == 36
                    && final(self)@.answers == old(self)@.answers.insert(a@.id, a@),
                Err(e) => e == QuestionRepoError::IdNotFound && !old(self)@.questions.contains_key(
                    question_id@,
                ) && final(self)@.answers == old(self)@.answers,
            },
    {
        if !self.contains_question(question_id) {
            return Err(QuestionRepoError::IdNotFound);
        }
        let answer = Answer::new(question_id.clone(), content);
        let out = answer.clone();
        self.put_answer(answer);
        Ok(out)
    }

    /// Lists a page of questions: validates the paging request, then
    /// returns the slice `[offset, offset + max_results)` of the store's
    /// questions, clamped to what exists.
    pub fn list_questions(&self, pagination: Pagination) -> (r: Result<
        PaginatedResponse<Question>,
        AppError,
    >)
        ensures
            match r {
                Ok(resp) => match pagination.spec_validate() {
                    Ok(v) => resp.page == v && resp.items@.map_values(|q: Question| q@)
                        == self.questions_seq().subrange(
                        page_start(v, self.questions_seq().len()),
                        page_end(v, self.questions_seq().len()),
                    ),
                    Err(_) => false,
                },
                Err(e) => match pagination.spec_validate() {
                    Ok(_) => false,
                    Err(pe) => e == AppError::Pagination(pe),
                },
            },
    {
        let v = match pagination.validate() {
            Ok(v) => v,
            Err(e) => {
                return Err(AppError::Pagination(e));
            },
        };
        proof {
            lemma_q_seq(self.questions@);
        }
        let len = self.questions.len();
        let lo: usize = if v.offset < len {
            v.offset
        } else {
            len
        };
        let hi: usize = if v.max_results < len - lo {
            lo + v.max_results
        } else {
            len
        };
        let mut items: Vec<Question> = Vec::new();
        let mut i: usize = lo;
        while i < hi
            invariant
                lo <= i <= hi <= self.questions@.len(),
                items@.len() == i - lo,
                forall|j: int| lo <= j < i ==> items@[j - lo]@ == self.questions@[j]@,
            decreases hi - i,
        {
            items.push(self.questions[i].clone());
            i = i + 1;
        }
        proof {
            lemma_q_seq(self.questions@);
            lemma_q_seq(items@);
            assert(items@.map_values(|q: Question| q@) =~= self.questions_seq().subrange(
                page_start(v, self.questions_seq().len()),
                page_end(v, self.questions_seq().len()),
            ));
        }
        Ok(PaginatedResponse { page: v, items })
    }

    /// Looks a question up by its textual id: an empty id is invalid, a
    /// missing one is not found.
    pub fn get_question(&self, id: &str) -> (r: Result<Question, AppError>)
        requires
            self.wf(),
        ensures
            match r {
                Ok(q) => id@.len() > 0 && self@.questions.contains_key(id@) && q@
                    == self@.questions[id@],
                Err(e) => (id@.len() == 0 && e == AppError::QuestionRepo(
                    QuestionRepoError::InvalidId,
                )) || (id@.len() > 0 && !self@.questions.contains_key(id@) && e
                    == AppError::QuestionRepo(QuestionRepoError::IdNotFound)),
            },
    {
        let qid = match QuestionId::parse(id) {
            Ok(q) => q,
            Err(e) => {
                return Err(AppError::QuestionRepo(e));
            },
        };
        match self.get(&qid) {
            Some(q) => Ok(q),
            None => Err(AppError::QuestionRepo(QuestionRepoError::IdNotFound)),
        }
    }

    /// Creates a question from a body under a fresh server-assigned id and
    /// stores it.
    pub fn create_question(&mut self, body: QuestionBody) -> (r: Question)
        requires
            old(self).wf(),
        ensures
            final(self).wf(),
            r@.body == body@,
            r@.id.len() == 36,
            final(self)@.questions == old(self)@.questions.insert(r@.id, r@),
            final(self)@.answers == old(self)@.answers,
    {
        let q = Question::with_fresh_id(body);
        let out = q.clone();
        self.put(q);
        out
    }

    /// Replaces (or creates) the question under the given textual id with
    /// a new record built from the body; an empty id is invalid.
    pub fn replace_question(&mut self, id: &str, body: QuestionBody) -> (r: Result<
        Question,
        AppError,
    >)
        requires
            old(self).wf(),
        ensures
            final(self).wf(),
            final(self)@.answers == old(self)@.answers,
            match r {
                Ok(q) => id@.len() > 0 && q@.id == id@ && q@.body == body@ && final(self)@.questions
                    == old(self)@.questions.insert(id@, q@),
                Err(e) => id@.len() == 0 && e == AppError::QuestionRepo(
                    QuestionRepoError::InvalidId,
                ) && final(self)@.questions == old(self)@.questions,
            },
    {
        let qid = match QuestionId::parse(id) {
            Ok(q) => q,
            Err(e) => {
                return Err(AppError::QuestionRepo(e));
            },
        };
        let q = Question::new(qid, body);
        let out = q.clone();
        self.put(q);
        Ok(out)
    }

    /// Deletes the question under the given textual id: an empty id is
    /// invalid, a missing one is not found.
    pub fn delete_question(&mut self, id: &str) -> (r: Result<(), AppError>)
        requires
            old(self).wf(),
        ensures
            final(self).wf(),
            final(self)@.answers == old(self)@.answers,
            match r {
                Ok(_) => id@.len() > 0 && old(self)@.questions.contains_key(id@)
                    && final(self)@.questions == old(self)@.questions.remove(id@),
                Err(e) => final(self)@.questions == old(self)@.questions && ((id@.len() == 0 && e
                    == AppError::QuestionRepo(QuestionRepoError::InvalidId)) || (id@.len() > 0
                    && !old(self)@.questions.contains_key(id@) && e == AppError::QuestionRepo(
                    QuestionRepoError::IdNotFound,
                ))),
            },
    {
        let qid = match QuestionId::parse(id) {
            Ok(q) => q,
            Err(e) => {
                return Err(AppError::QuestionRepo(e));
            },
        };
        if self.delete(&qid) {
            Ok(())
        } else {
            proof {
                assert(old(self)@.questions.remove(qid@) =~= old(self)@.questions);
            }
            Err(AppError::QuestionRepo(QuestionRepoError::IdNotFound))
        }
    }

    /// Creates an answer to the question under the given textual id: an
    /// empty id is invalid, a missing question is not found and nothing is
    /// stored.
    pub fn create_answer(&mut self, question_id: &str, content: String) -> (r: Result<
        Answer,
        AppError,
    >)
        requires
            old(self).wf(),
        ensures
            final(self).wf(),
            final(self)@.questions == old(self)@.questions,
            match r {
                Ok(a) => question_id@.len() > 0 && old(self)@.questions.contains_key(question_id@)
                    && a@.question_id == question_id@ && a@.content == content@ && a@.id.len() == 36
                    && final(self)@.answers == old(self)@.answers.insert(a@.id, a@),
                Err(e) => final(self)@.answers == old(self)@.answers && ((question_id@.len() == 0
                    && e == AppError::QuestionRepo(QuestionRepoError::InvalidId)) || (
                question_id@.len() > 0 && !old(self)@.questions.contains_key(question_id@) && e
                    == AppError::QuestionRepo(QuestionRepoError::IdNotFound))),
            },
    {
        let qid = match QuestionId::parse(question_id) {
            Ok(q) => q,
            Err(e) => {
                return Err(AppError::QuestionRepo(e));
            },
        };
        match self.answer_question(&qid, content) {
            Ok(a) => Ok(a),
            Err(e) => Err(AppError::QuestionRepo(e)),
        }
    }
}

/// Where a page starts in a collection of `len` records: the requested
/// offset, clamped to the end.
pub open spec fn page_start(p: ValidatedPagination, len: nat) -> int {
    if p.offset <= len {
        p.offset as int
    } else {
        len as int
    }
}

/// Where a page ends: `offset + max_results`, clamped to the end.
pub open spec fn page_end(p: ValidatedPagination, len: nat) -> int {
    if p.offset + p.max_results <= len {
        p.offset + p.max_results
    } else {
        len as int
    }
}

proof fn lemma_q_seq(s: Seq<Question>)
    ensures
        s.map_values(|q: Question| q@).len() == s.len(),
        forall|i: int|
            0 <= i < s.len() ==> s.map_values(|q: Question| q@)[i] == s[i]@ && s.map_values(
                |q: Question| q@,
            )[i].id == s[i].id@,
{
    assert forall|i: int| 0 <= i < s.len() implies s.map_values(|q: Question| q@)[i] == s[i]@
        && s.map_values(|q: Question| q@)[i].id == s[i].id@ by {
        crate::question::lemma_question_view(s[i]);
    }
}

proof fn lemma_a_seq(s: Seq<Answer>)
    ensures
        s.map_values(|a: Answer| a@).len() == s.len(),
        forall|i: int|
            0 <= i < s.len() ==> s.map_values(|a: Answer| a@)[i] == s[i]@ && s.map_values(
                |a: Answer| a@,
            )[i].id == s[i].id@,
{
    assert forall|i: int| 0 <= i < s.len() implies s.map_values(|a: Answer| a@)[i] == s[i]@
        && s.map_values(|a: Answer| a@)[i].id == s[i].id@ by {
    }
}


impl Default for Store {
    fn default() -> (r: Store)
        ensures
            r.wf(),
            r@.questions == Map::<Seq<char>, QuestionView>::empty().insert(
                seed_question().id,
                seed_question(),
            ),
            r@.answers == Map::<Seq<char>, AnswerView>::empty(),
    {
        Store::new()
    }
}

/// Insert-or-replace followed by lookup of the same id yields exactly the
/// record inserted; removal followed by lookup misses.
pub proof fn lemma_put_then_get(questions: Map<Seq<char>, QuestionView>, q: QuestionView)
    ensures
        questions.insert(q.id, q).contains_key(q.id),
        questions.insert(q.id, q)[q.id] == q,
        !questions.insert(q.id, q).remove(q.id).contains_key(q.id),
{
}

/// A created answer is visible under its id, with identical content.
pub proof fn lemma_created_answer_visible(answers: Map<Seq<char>, AnswerView>, a: AnswerView)
    ensures
        answers.insert(a.id, a).contains_key(a.id),
        answers.insert(a.id, a)[a.id] == a,
        answers.insert(a.id, a)[a.id].content == a.content,
{
}

/// The questions map after storing each record of a batch in turn, each
/// by insert-or-replace keyed by its id.
pub open spec fn put_all(m: Map<Seq<char>, QuestionView>, qs: Seq<QuestionView>) -> Map<
    Seq<char>,
    QuestionView,
> 
    decreases qs.len(),
{
    if qs.len() == 0 {
        m
    } else {
        put_all(m, qs.drop_last()).insert(qs.last().id, qs.last())
    }
}

/// No lost updates: storing a batch of records with pairwise-distinct
/// fresh ids, in any interleaving that serializes to this order, leaves
/// every one of them visible, every prior record untouched, and grows the
/// map by exactly the batch size.
pub proof fn lemma_distinct_puts_all_visible(
    m: Map<Seq<char>, QuestionView>,
    qs: Seq<QuestionView>,
)
    requires
        m.dom().finite(),
        forall|i: int, j: int| 0 <= i < j < qs.len() ==> qs[i].id != qs[j].id,
        forall|i: int| 0 <= i < qs.len() ==> !m.contains_key(qs[i].id),
    ensures
        put_all(m, qs).dom().finite(),
        put_all(m, qs).len() == m.len() + qs.len(),
        forall|i: int|
            #![trigger qs[i]]
            0 <= i < qs.len() ==> put_all(m, qs).contains_key(qs[i].id) && put_all(m, qs)[qs[i].id]
                == qs[i],
        forall|k: Seq<char>|
            #![trigger m.contains_key(k)]
            m.contains_key(k) ==> put_all(m, qs).contains_key(k) && put_all(m, qs)[k] == m[k],
        forall|k: Seq<char>|
            #![trigger put_all(m, qs).contains_key(k)]
            put_all(m, qs).contains_key(k) ==> m.contains_key(k) || exists|i: int|
                0 <= i < qs.len() && qs[i].id == k,
    decreases qs.len(),
{
    if qs.len() > 0 {
        let prev = qs.drop_last();
        let last = qs.last();
        assert(forall|i: int| 0 <= i < prev.len() ==> prev[i] == qs[i]);
        lemma_distinct_puts_all_visible(m, prev);
        if put_all(m, prev).contains_key(last.id) {
            assert(!m.contains_key(last.id));
            let i = choose|i: int| 0 <= i < prev.len() && prev[i].id == last.id;
            assert(qs[i].id == qs[qs.len() - 1].id);
            assert(false);
        }
        assert(put_all(m, qs).dom() =~= put_all(m, prev).dom().insert(last.id));
        assert forall|k: Seq<char>|
            m.contains_key(k) implies put_all(m, qs).contains_key(k) && put_all(m, qs)[k]
            == m[k] by {
            assert(m.contains_key(k));
            assert(!m.contains_key(last.id));
            assert(k != last.id);
            assert(put_all(m, prev).contains_key(k));
            assert(put_all(m, prev)[k] == m[k]);
            assert(put_all(m, qs) == put_all(m, prev).insert(last.id, last));
        }
        assert forall|i: int|
            0 <= i < qs.len() implies put_all(m, qs).contains_key(qs[i].id) && put_all(m, qs)[
            qs[i].id
        ] == qs[i] by {
            if i < qs.len() - 1 {
                assert(qs[i].id != last.id);
            }
        }
        assert forall|k: Seq<char>|
            put_all(m, qs).contains_key(k) implies m.contains_key(k) || exists|i: int|
            0 <= i < qs.len() && qs[i].id == k by {
            if k == last.id {
                assert(qs[qs.len() - 1].id == k);
            } else {
                if !m.contains_key(k) {
                    let i = choose|i: int| 0 <= i < prev.len() && prev[i].id == k;
                    assert(qs[i].id == k);
                }
            }
        }
    }
}

} // verus!
