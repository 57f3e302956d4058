use vstd::prelude::*;
use crate::error::Error;
use crate::numbers::{decimal, lemma_usize_of_decimal, usize_text};
use crate::types::{
    answers_view, questions_view, Answer, AnswerID, AnswerView, Question, QuestionID, QuestionView,
};

verus! {

/// Each key occurs at one position at most.
pub open spec fn keys_unique<V>(s: Seq<(Seq<char>, V)>) -> bool {
    forall|i: int, j: int|
        0 <= i < s.len() && 0 <= j < s.len() && i != j ==> #[trigger] s[i].0 != #[trigger] s[j].0
}

pub open spec fn key_at<V>(s: Seq<(Seq<char>, V)>, k: Seq<char>, i: int) -> bool {
    0 <= i < s.len() && s[i].0 == k
}

pub open spec fn has_key<V>(s: Seq<(Seq<char>, V)>, k: Seq<char>) -> bool {
    exists|i: int| key_at(s, k, i)
}

/// The position of key `k` (meaningful where `has_key(s, k)`).
pub open spec fn index_of<V>(s: Seq<(Seq<char>, V)>, k: Seq<char>) -> int {
    choose|i: int| key_at(s, k, i)
}

/// The record stored under `k`.
pub open spec fn value_of<V>(s: Seq<(Seq<char>, V)>, k: Seq<char>) -> Option<V> {
    if has_key(s, k) {
        Some(s[index_of(s, k)].1)
    } else {
        None
    }
}

/// `s` with `v` stored under `k`: in place of the old record if there was
/// one, else at the end.
pub open spec fn put<V>(s: Seq<(Seq<char>, V)>, k: Seq<char>, v: V) -> Seq<(Seq<char>, V)> {
    if has_key(s, k) {
        s.update(index_of(s, k), (k, v))
    } else {
        s.push((k, v))
    }
}

/// The records of `s`, in order.
pub open spec fn values<V>(s: Seq<(Seq<char>, V)>) -> Seq<V> {
    s.map_values(|e: (Seq<char>, V)| e.1)
}

/// Where `k` is at position `i` of a map with unique keys, `index_of` finds `i`.
pub proof fn lemma_index_of<V>(s: Seq<(Seq<char>, V)>, k: Seq<char>, i: int)
    requires
        keys_unique(s),
        key_at(s, k, i),
    ensures
        has_key(s, k),
        index_of(s, k) == i,
{
    let c = index_of(s, k);
    assert(key_at(s, k, c));
}

/// Storing under a key keeps the keys unique.
pub proof fn lemma_put_unique<V>(s: Seq<(Seq<char>, V)>, k: Seq<char>, v: V)
    requires
        keys_unique(s),
    ensures
        keys_unique(put(s, k, v)),
        has_key(put(s, k, v), k),
        value_of(put(s, k, v), k) == Some(v),
        forall|k2: Seq<char>| k2 != k ==> value_of(put(s, k, v), k2) == value_of(s, k2),
{
    let t = put(s, k, v);
    if has_key(s, k) {
        let i = index_of(s, k);
        assert(key_at(s, k, i));
        assert forall|a: int, b: int|
            0 <= a < t.len() && 0 <= b < t.len() && a != b implies #[trigger] t[a].0
            != #[trigger] t[b].0 by {
            assert(s[a].0 != s[b].0);
        }
        lemma_index_of(t, k, i);
    } else {
        assert forall|a: int, b: int|
            0 <= a < t.len() && 0 <= b < t.len() && a != b implies #[trigger] t[a].0
            != #[trigger] t[b].0 by {
            if a < s.len() && b < s.len() {
                assert(s[a].0 != s[b].0);
            } else if a < s.len() {
                assert(!key_at(s, k, a));
            } else {
                assert(!key_at(s, k, b));
            }
        }
        lemma_index_of(t, k, s.len() as int);
    }
    assert forall|k2: Seq<char>| k2 != k implies value_of(t, k2) == value_of(s, k2) by {
        if has_key(s, k2) {
            let j = index_of(s, k2);
            assert(key_at(s, k2, j));
            assert(key_at(t, k2, j));
            lemma_index_of(t, k2, j);
        }
        if has_key(t, k2) {
            let j = index_of(t, k2);
            assert(key_at(t, k2, j));
            assert(key_at(s, k2, j));
        }
    }
}

/// The questions, each under the identifier it was created with.
pub struct QuestionStore {
    entries: Vec<(QuestionID, Question)>,
}

impl View for QuestionStore {
    type V = Seq<(Seq<char>, QuestionView)>;

    closed spec fn view(&self) -> Seq<(Seq<char>, QuestionView)> {
        self.entries@.map_values(|e: (QuestionID, Question)| (e.0.0@, e.1@))
    }
}

impl QuestionStore {
    pub open spec fn wf(&self) -> bool {
        keys_unique(self@)
    }

    /// An empty store.
    pub fn new() -> (r: QuestionStore)
        ensures
            r.wf(),
            r@ == Seq::<(Seq<char>, QuestionView)>::empty(),
    {
        let r = QuestionStore { entries: Vec::new() };
        assert(r@ =~= Seq::<(Seq<char>, QuestionView)>::empty());
        r
    }

    /// The number of stored questions.
    pub fn len(&self) -> (r: usize)
        ensures
            r == self@.len(),
    {
        self.entries.len()
    }

    fn position(&self, id: &QuestionID) -> (r: Option<usize>)
        requires
            self.wf(),
        ensures
            match r {
                Some(i) => key_at(self@, id.0@, i as int) && index_of(self@, id.0@) == i,
                None => !has_key(self@, id.0@),
            },
    {
        let mut i: usize = 0;
        while i < self.entries.len()
            invariant
                i <= self.entries.len(),
                self.wf(),
                forall|j: int| 0 <= j < i ==> self@[j].0 != id.0@,
            decreases self.entries.len() - i,
        {
            if self.entries[i].0.0 == id.0 {
                proof {
                    lemma_index_of(self@, id.0@, i as int);
                }
                return Some(i);
            }
            i = i + 1;
        }
        None
    }

    /// A copy of every stored question, in the store's order.
    pub fn get_all_questions(&self) -> (r: Vec<Question>)
        ensures
            questions_view(r@) == values(self@),
    {
        let mut r: Vec<Question> = Vec::new();
        let mut i: usize = 0;
        while i < self.entries.len()
            invariant
                i <= self.entries.len(),
                r@.len() == i,
                forall|j: int| 0 <= j < i ==> #[trigger] r@[j]@ == self@[j].1,
            decreases self.entries.len() - i,
        {
            r.push(self.entries[i].1.duplicate());
            i = i + 1;
        }
        assert(questions_view(r@) =~= values(self@));
        r
    }

    /// Stores `q` under its identifier, replacing whatever was stored there.
    pub fn insert_question(&mut self, q: Question)
        requires
            old(self).wf(),
        ensures
            final(self).wf(),
            final(self)@ == put(old(self)@, q.id.0@, q@),
            value_of(final(self)@, q.id.0@) == Some(q@),
    {
        proof {
            lemma_put_unique(self@, q.id.0@, q@);
        }
        match self.position(&q.id) {
            Some(i) => {
                let key = q.id.duplicate();
                self.entries.set(i, (key, q));
                assert(self@ =~= put(old(self)@, q.id.0@, q@));
            },
            None => {
                let key = q.id.duplicate();
                self.entries.push((key, q));
                assert(self@ =~= put(old(self)@, q.id.0@, q@));
            },
        }
    }

    /// Replaces the question stored under `id` by `q` (wholly; the key stays
    /// `id`), or fails with `QuestionNotFound` where there is none.
    pub fn update_question(&mut self, id: &QuestionID, q: Question) -> (r: Result<(), Error>)
        requires
            old(self).wf(),
        ensures
            final(self).wf(),
            has_key(old(self)@, id.0@) ==> r is Ok && final(self)@ == old(self)@.update(
                index_of(old(self)@, id.0@),
                (id.0@, q@),
            ),
            !has_key(old(self)@, id.0@) ==> (r matches Err(Error::QuestionNotFound(e)) && e.0@
                == id.0@) && final(self)@ == old(self)@,
    {
        match self.position(id) {
            Some(i) => {
                let key = id.duplicate();
                self.entries.set(i, (key, q));
                assert(self@ =~= old(self)@.update(i as int, (id.0@, q@)));
                Ok(())
            },
            None => Err(Error::QuestionNotFound(id.duplicate())),
        }
    }

    /// Removes the question stored under `id`, or fails with
    /// `QuestionNotFound` where there is none.
    pub fn delete_question(&mut self, id: &QuestionID) -> (r: Result<(), Error>)
        requires
            old(self).wf(),
        ensures
            final(self).wf(),
            has_key(old(self)@, id.0@) ==> r is Ok && final(self)@ == old(self)@.remove(
                index_of(old(self)@, id.0@),
            ),
            !has_key(old(self)@, id.0@) ==> (r matches Err(Error::QuestionNotFound(e)) && e.0@
                == id.0@) && final(self)@ == old(self)@,
    {
        match self.position(id) {
            Some(i) => {
                self.entries.remove(i);
                assert(self@ =~= old(self)@.remove(i as int));
                Ok(())
            },
            None => Err(Error::QuestionNotFound(id.duplicate())),
        }
    }
}

/// The answers, in the order they were posted. The store names each answer
/// itself: the answer at position `i` is called `i + 1` in decimal.
pub struct AnswerStore {
    entries: Vec<Answer>,
}

impl View for AnswerStore {
    type V = Seq<AnswerView>;

    closed spec fn view(&self) -> Seq<AnswerView> {
        answers_view(self.entries@)
    }
}

impl AnswerStore {
    pub open spec fn wf(&self) -> bool {
        forall|i: int| 0 <= i < self@.len() ==> (#[trigger] self@[i]).id == decimal((i + 1) as nat)
    }

    /// An empty store.
    pub fn new() -> (r: AnswerStore)
        ensures
            r.wf(),
            r@ == Seq::<AnswerView>::empty(),
    {
        let r = AnswerStore { entries: Vec::new() };
        assert(r@ =~= Seq::<AnswerView>::empty());
        r
    }

    /// The number of stored answers.
    pub fn len(&self) -> (r: usize)
        ensures
            r == self@.len(),
    {
        self.entries.len()
    }

    /// A copy of every stored answer, in the order they were posted.
    pub fn get_all_answers(&self) -> (r: Vec<Answer>)
        ensures
            answers_view(r@) == self@,
    {
        let mut r: Vec<Answer> = Vec::new();
        let mut i: usize = 0;
        while i < self.entries.len()
            invariant
                i <= self.entries.len(),
                r@.len() == i,
                forall|j: int| 0 <= j < i ==> #[trigger] r@[j]@ == self@[j],
            decreases self.entries.len() - i,
        {
            r.push(self.entries[i].duplicate());
            i = i + 1;
        }
        assert(answers_view(r@) =~= self@);
        r
    }

    /// Stores a new answer to `question_id` under an identifier that no
    /// stored answer has, and returns that identifier. The question is not
    /// looked up.
    pub fn insert_answer(&mut self, content: String, question_id: QuestionID) -> (r: AnswerID)
        requires
            old(self).wf(),
            old(self)@.len() < usize::MAX,
        ensures
            final(self).wf(),
            r.0@ == decimal((old(self)@.len() + 1) as nat),
            forall|i: int| 0 <= i < old(self)@.len() ==> (#[trigger] old(self)@[i]).id != r.0@,
            final(self)@ == old(self)@.push(
                AnswerView { id: r.0@, content: content@, question_id: question_id.0@ },
            ),
    {
        let n = self.entries.len() + 1;
        let id = AnswerID(usize_text(n));
        proof {
            assert forall|i: int| 0 <= i < old(self)@.len() implies (#[trigger] old(self)@[i]).id
                != id.0@ by {
                lemma_usize_of_decimal((i + 1) as usize);
                lemma_usize_of_decimal(n);
            }
        }
        let r = AnswerID(id.0.clone());
        self.entries.push(Answer { id, content, question_id });
        assert(self@ =~= old(self)@.push(
            AnswerView { id: r.0@, content: content@, question_id: question_id.0@ },
        ));
        r
    }
}

} // verus!
