use vstd::prelude::*;
use crate::error::{Error, ErrorKind, Failure};
use crate::numbers::decimal;
use crate::pagination::{extract_pagination, page_query, param, param_value, PageQuery};
use crate::store::{
    has_key, index_of, key_at, keys_unique, lemma_put_unique, put, value_of, values, AnswerStore,
    QuestionStore,
};
use crate::types::{questions_view, AnswerID, AnswerView, Question, QuestionID, QuestionView};

verus! {

/// What a listing request with these query parameters returns, given the
/// questions in the store's order.
pub open spec fn listing(params: Seq<(String, String)>, all: Seq<QuestionView>) -> Result<
    Seq<QuestionView>,
    ErrorKind,
> {
    match page_query(params) {
        PageQuery::All => Ok(all),
        PageQuery::Range { start, end } => if start < end && end <= all.len() {
            Ok(all.subrange(start as int, end as int))
        } else {
            Err(ErrorKind::RangeInvalid)
        },
        PageQuery::Missing => Err(ErrorKind::MissingParameters),
        PageQuery::Malformed { field, text } => Err(ErrorKind::ParseInt { field, text }),
    }
}

/// Lists the stored questions, or the page of them that `start` and `end`
/// ask for.
pub fn get_questions(params: &Vec<(String, String)>, store: &QuestionStore) -> (r: Result<
    Vec<Question>,
    Error,
>)
    ensures
        match listing(params@, values(store@)) {
            Ok(s) => r matches Ok(v) && questions_view(v@) == s,
            Err(k) => r matches Err(e) && e@ == k,
        },
{
    let pagination = match extract_pagination(params) {
        Ok(p) => p,
        Err(e) => {
            return Err(e);
        },
    };
    let all = store.get_all_questions();
    match pagination {
        None => Ok(all),
        Some(p) => {
            if p.end <= p.start || p.end > all.len() {
                return Err(Error::RangeInvalid);
            }
            let mut page: Vec<Question> = Vec::new();
            let mut i: usize = p.start;
            while i < p.end
                invariant
                    p.start <= i <= p.end <= all.len(),
                    page@.len() == i - p.start,
                    forall|j: int|
                        0 <= j < page@.len() ==> #[trigger] page@[j]@ == all@[j + p.start]@,
                decreases p.end - i,
            {
                page.push(all[i].duplicate());
                i = i + 1;
            }
            assert(questions_view(page@) =~= questions_view(all@).subrange(
                p.start as int,
                p.end as int,
            ));
            Ok(page)
        },
    }
}

/// Stores `question` under its identifier, replacing any question stored
/// there before.
pub fn add_question(store: &mut QuestionStore, question: Question)
    requires
        old(store).wf(),
    ensures
        final(store).wf(),
        final(store)@ == put(old(store)@, question.id.0@, question@),
        value_of(final(store)@, question.id.0@) == Some(question@),
{
    store.insert_question(question);
}

/// Replaces the question stored under `id` by `question`.
pub fn update_question(id: String, store: &mut QuestionStore, question: Question) -> (r: Result<
    (),
    Error,
>)
    requires
        old(store).wf(),
    ensures
        final(store).wf(),
        has_key(old(store)@, id@) ==> r is Ok && final(store)@ == old(store)@.update(
            index_of(old(store)@, id@),
            (id@, question@),
        ),
        !has_key(old(store)@, id@) ==> (r matches Err(e) && e@ == (
        ErrorKind::QuestionNotFound { id: id@ })) && final(store)@ == old(store)@,
{
    store.update_question(&QuestionID(id), question)
}

/// Removes the question stored under `id`.
pub fn delete_question(id: String, store: &mut QuestionStore) -> (r: Result<(), Error>)
    requires
        old(store).wf(),
    ensures
        final(store).wf(),
        has_key(old(store)@, id@) ==> r is Ok && final(store)@ == old(store)@.remove(
            index_of(old(store)@, id@),
        ),
        !has_key(old(store)@, id@) ==> (r matches Err(e) && e@ == (
        ErrorKind::QuestionNotFound { id: id@ })) && final(store)@ == old(store)@,
{
    store.delete_question(&QuestionID(id))
}

pub open spec fn missing_field_message(field: Seq<char>) -> Seq<char> {
    "Missing form field: "@ + field
}

/// Stores the answer that the form fields `content` and `questionId`
/// describe, under a new identifier, which it returns. A form without one of
/// them is malformed; `content` is looked for first.
pub fn add_answer(store: &mut AnswerStore, params: &Vec<(String, String)>) -> (r: Result<
    AnswerID,
    Failure,
>)
    requires
        old(store).wf(),
        old(store)@.len() < usize::MAX,
    ensures
        final(store).wf(),
        match (param_value(params@, "content"@), param_value(params@, "questionId"@)) {
            (Some(c), Some(q)) => r matches Ok(id) && id.0@ == decimal(
                (old(store)@.len() + 1) as nat,
            ) && final(store)@ == old(store)@.push(
                AnswerView { id: id.0@, content: c, question_id: q },
            ),
            (None, _) => (r matches Err(Failure::MalformedBody(m)) && m@ == missing_field_message(
                "content"@,
            )) && final(store)@ == old(store)@,
            (Some(_), None) => (r matches Err(Failure::MalformedBody(m)) && m@
                == missing_field_message("questionId"@)) && final(store)@ == old(store)@,
        },
{
    let content = match param(params, "content") {
        Some(c) => c,
        None => {
            let mut m = String::from_str("Missing form field: ");
            m.append("content");
            return Err(Failure::MalformedBody(m));
        },
    };
    let question_id = match param(params, "questionId") {
        Some(q) => q,
        None => {
            let mut m = String::from_str("Missing form field: ");
            m.append("questionId");
            return Err(Failure::MalformedBody(m));
        },
    };
    Ok(store.insert_answer(content.clone(), QuestionID(question_id.clone())))
}

/// A valid page `start < end <= N` holds exactly `end - start` questions,
/// the ones at those positions of the whole listing, in the same order.
pub proof fn lemma_page_is_slice_of_listing(
    params: Seq<(String, String)>,
    unpaged: Seq<(String, String)>,
    all: Seq<QuestionView>,
    start: usize,
    end: usize,
)
    requires
        page_query(params) == (PageQuery::Range { start, end }),
        start < end <= all.len(),
        page_query(unpaged) == PageQuery::All,
    ensures
        listing(params, all) is Ok,
        listing(unpaged, all) is Ok,
        listing(params, all)->Ok_0.len() == end - start,
        listing(params, all)->Ok_0 == listing(unpaged, all)->Ok_0.subrange(start as int, end as int),
{
}

/// A page with `end <= start` or `end > N` is refused as an invalid range,
/// never cut short.
pub proof fn lemma_bad_range_is_refused(
    params: Seq<(String, String)>,
    all: Seq<QuestionView>,
    start: usize,
    end: usize,
)
    requires
        page_query(params) == (PageQuery::Range { start, end }),
        end <= start || end > all.len(),
    ensures
        listing(params, all) == Err::<Seq<QuestionView>, ErrorKind>(ErrorKind::RangeInvalid),
{
}

/// Giving exactly one of `start` and `end` is a missing-parameter failure,
/// whatever the value given.
pub proof fn lemma_one_bound_is_missing(params: Seq<(String, String)>, all: Seq<QuestionView>)
    requires
        param_value(params, "start"@) is Some != param_value(params, "end"@) is Some,
    ensures
        listing(params, all) == Err::<Seq<QuestionView>, ErrorKind>(ErrorKind::MissingParameters),
{
}

/// `q` stands at exactly one position of `l`.
pub open spec fn occurs_once(l: Seq<QuestionView>, q: QuestionView) -> bool {
    exists|i: int|
        0 <= i < l.len() && #[trigger] l[i] == q && forall|j: int|
            0 <= j < l.len() && #[trigger] l[j] == q ==> j == i
}

/// After a question is created, the whole listing holds it exactly once,
/// unless another identifier already held an identical record.
pub proof fn lemma_created_question_listed_once(
    stored: Seq<(Seq<char>, QuestionView)>,
    q: QuestionView,
    unpaged: Seq<(String, String)>,
)
    requires
        keys_unique(stored),
        forall|i: int| 0 <= i < stored.len() && stored[i].0 != q.id ==> #[trigger] stored[i].1 != q,
        page_query(unpaged) == PageQuery::All,
    ensures
        listing(unpaged, values(put(stored, q.id, q))) == Ok::<Seq<QuestionView>, ErrorKind>(
            values(put(stored, q.id, q)),
        ),
        occurs_once(values(put(stored, q.id, q)), q),
{
    let t = put(stored, q.id, q);
    lemma_put_unique(stored, q.id, q);
    let i = index_of(t, q.id);
    assert(key_at(t, q.id, i));
    let l = values(t);
    assert forall|j: int| 0 <= j < l.len() && #[trigger] l[j] == q implies j == i by {
        if j != i {
            assert(t[j].0 != q.id);
            if has_key(stored, q.id) {
                assert(t[j] == stored[j]);
            } else {
                assert(j < stored.len());
                assert(t[j] == stored[j]);
            }
        }
    }
    assert(0 <= i < l.len() && l[i] == q);
}

/// The store after storing `qs` one after another.
pub open spec fn put_all(
    stored: Seq<(Seq<char>, QuestionView)>,
    qs: Seq<QuestionView>,
) -> Seq<(Seq<char>, QuestionView)>
    decreases qs.len(),
{
    if qs.len() == 0 {
        stored
    } else {
        put(put_all(stored, qs.drop_last()), qs.last().id, qs.last())
    }
}

/// Creating questions with distinct identifiers loses none of them: each is
/// stored under its identifier afterwards, and any other record is kept.
pub proof fn lemma_distinct_creates_all_kept(
    stored: Seq<(Seq<char>, QuestionView)>,
    qs: Seq<QuestionView>,
)
    requires
        keys_unique(stored),
        forall|i: int, j: int|
            0 <= i < qs.len() && 0 <= j < qs.len() && i != j ==> #[trigger] qs[i].id
                != #[trigger] qs[j].id,
    ensures
        keys_unique(put_all(stored, qs)),
        forall|i: int| 0 <= i < qs.len() ==> value_of(put_all(stored, qs), #[trigger] qs[i].id)
            == Some(qs[i]),
        forall|k: Seq<char>|
            (forall|i: int| 0 <= i < qs.len() ==> #[trigger] qs[i].id != k) ==> value_of(
                put_all(stored, qs),
                k,
            ) == value_of(stored, k),
    decreases qs.len(),
{
    if qs.len() > 0 {
        let init = qs.drop_last();
        let last = qs.last();
        lemma_distinct_creates_all_kept(stored, init);
        let before = put_all(stored, init);
        lemma_put_unique(before, last.id, last);
        assert forall|i: int| 0 <= i < qs.len() implies value_of(
            put_all(stored, qs),
            #[trigger] qs[i].id,
        ) == Some(qs[i]) by {
            if i < qs.len() - 1 {
                assert(qs[i] == init[i]);
                assert(qs[i].id != last.id);
            }
        }
        assert forall|k: Seq<char>|
            (forall|i: int| 0 <= i < qs.len() ==> #[trigger] qs[i].id != k) implies value_of(
                put_all(stored, qs),
                k,
            ) == value_of(stored, k) by {
            assert(qs[qs.len() - 1].id != k);
            assert forall|i: int| 0 <= i < init.len() implies #[trigger] init[i].id != k by {
                assert(init[i] == qs[i]);
            }
        }
    }
}

} // verus!
