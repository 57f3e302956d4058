use qa_service::{
    add_question, delete_question, get_questions, update_question, Error, Question, QuestionID,
    QuestionStore,
};

fn params(pairs: &[(&str, &str)]) -> Vec<(String, String)> {
    pairs.iter().map(|(k, v)| (k.to_string(), v.to_string())).collect()
}

fn question(id: &str, title: &str) -> Question {
    Question {
        id: QuestionID(id.to_string()),
        title: title.to_string(),
        content: format!("content of {}", title),
        tags: Some(vec!["faq".to_string(), title.to_string()]),
    }
}

fn store_of(qs: &[Question]) -> QuestionStore {
    let mut store = QuestionStore::new();
    for q in qs {
        add_question(&mut store, q.clone());
    }
    store
}

fn seeded() -> QuestionStore {
    store_of(&[
        Question {
            id: QuestionID("1".to_string()),
            title: "t".to_string(),
            content: "c".to_string(),
            tags: None,
        },
    ])
}

#[test]
fn unpaged_listing_returns_all_in_order() {
    let qs = vec![question("a", "A"), question("b", "B"), question("c", "C")];
    let store = store_of(&qs);
    assert_eq!(get_questions(&params(&[]), &store), Ok(qs.clone()));
    assert_eq!(get_questions(&params(&[("q", "z")]), &store), Ok(qs));
}

#[test]
fn valid_page_is_the_slice_of_the_listing() {
    let qs = vec![question("a", "A"), question("b", "B"), question("c", "C"), question("d", "D")];
    let store = store_of(&qs);
    for start in 0..4usize {
        for end in (start + 1)..=4usize {
            let s = start.to_string();
            let e = end.to_string();
            let page = get_questions(&params(&[("start", s.as_str()), ("end", e.as_str())]), &store)
                .unwrap();
            assert_eq!(page.len(), end - start);
            assert_eq!(page, qs[start..end].to_vec());
        }
    }
}

#[test]
fn bad_ranges_are_refused() {
    let store = store_of(&[question("a", "A"), question("b", "B")]);
    for (s, e) in [("1", "1"), ("2", "1"), ("0", "3"), ("5", "9"), ("0", "0")] {
        let r = get_questions(&params(&[("start", s), ("end", e)]), &store);
        assert_eq!(r, Err(Error::RangeInvalid));
    }
}

#[test]
fn one_bound_is_a_missing_parameter() {
    let store = store_of(&[question("a", "A")]);
    assert_eq!(get_questions(&params(&[("start", "0")]), &store), Err(Error::MissingParameters));
    assert_eq!(get_questions(&params(&[("end", "1")]), &store), Err(Error::MissingParameters));
}

#[test]
fn malformed_bound_is_reported_by_listing() {
    let store = store_of(&[question("a", "A")]);
    let r = get_questions(&params(&[("start", "zero"), ("end", "1")]), &store);
    assert_eq!(r, Err(Error::ParseInt { field: qa_service::Param::Start, text: "zero".to_string() }));
}

#[test]
fn created_question_is_listed_once() {
    let mut store = store_of(&[question("a", "A"), question("b", "B")]);
    let q = question("n", "New");
    add_question(&mut store, q.clone());
    let all = get_questions(&params(&[]), &store).unwrap();
    assert_eq!(all.iter().filter(|x| **x == q).count(), 1);
    assert_eq!(all.len(), 3);
}

#[test]
fn creating_an_existing_id_replaces_in_place() {
    let mut store = store_of(&[question("a", "A"), question("b", "B")]);
    let q = question("a", "Again");
    add_question(&mut store, q.clone());
    let all = get_questions(&params(&[]), &store).unwrap();
    assert_eq!(all, vec![q, question("b", "B")]);
}

#[test]
fn distinct_creates_are_all_kept() {
    let mut store = QuestionStore::new();
    let qs: Vec<Question> = (0..50).map(|i| question(&i.to_string(), "T")).collect();
    for q in &qs {
        add_question(&mut store, q.clone());
    }
    assert_eq!(store.len(), 50);
    let all = get_questions(&params(&[]), &store).unwrap();
    for q in &qs {
        assert_eq!(all.iter().filter(|x| *x == q).count(), 1);
    }
}

#[test]
fn update_replaces_the_whole_record() {
    let mut store = store_of(&[question("a", "A"), question("b", "B")]);
    let replacement = Question {
        id: QuestionID("a".to_string()),
        title: "new".to_string(),
        content: "body".to_string(),
        tags: None,
    };
    assert_eq!(update_question("a".to_string(), &mut store, replacement.clone()), Ok(()));
    let all = get_questions(&params(&[]), &store).unwrap();
    assert_eq!(all, vec![replacement, question("b", "B")]);
}

#[test]
fn update_keeps_the_key_of_the_path() {
    let mut store = store_of(&[question("a", "A")]);
    let other = question("z", "Z");
    assert_eq!(update_question("a".to_string(), &mut store, other.clone()), Ok(()));
    assert_eq!(delete_question("z".to_string(), &mut store), Err(Error::QuestionNotFound(QuestionID("z".to_string()))));
    assert_eq!(delete_question("a".to_string(), &mut store), Ok(()));
    assert_eq!(store.len(), 0);
}

#[test]
fn update_of_unknown_id_is_not_found() {
    let mut store = store_of(&[question("a", "A")]);
    let r = update_question("x".to_string(), &mut store, question("x", "X"));
    assert_eq!(r, Err(Error::QuestionNotFound(QuestionID("x".to_string()))));
    assert_eq!(get_questions(&params(&[]), &store), Ok(vec![question("a", "A")]));
}

#[test]
fn delete_of_unknown_id_is_not_found() {
    let mut store = QuestionStore::new();
    let r = delete_question("x".to_string(), &mut store);
    assert_eq!(r, Err(Error::QuestionNotFound(QuestionID("x".to_string()))));
}

#[test]
fn delete_keeps_the_order_of_the_rest() {
    let mut store = store_of(&[question("a", "A"), question("b", "B"), question("c", "C")]);
    assert_eq!(delete_question("b".to_string(), &mut store), Ok(()));
    let all = get_questions(&params(&[]), &store).unwrap();
    assert_eq!(all, vec![question("a", "A"), question("c", "C")]);
}

#[test]
fn seeded_store_scenario() {
    let mut store = seeded();
    let page = get_questions(&params(&[("start", "0"), ("end", "1")]), &store).unwrap();
    assert_eq!(page.len(), 1);
    assert_eq!(page[0].id, QuestionID("1".to_string()));
    assert_eq!(page[0].title, "t");
    assert_eq!(page[0].content, "c");
    assert_eq!(page[0].tags, None);
    let r = get_questions(&params(&[("start", "1"), ("end", "1")]), &store);
    assert_eq!(r, Err(Error::RangeInvalid));
    let reply = qa_service::return_error(&qa_service::Failure::Handler(r.unwrap_err()));
    assert_eq!(reply.status, 416);
    assert_eq!(delete_question("1".to_string(), &mut store), Ok(()));
    let second = delete_question("1".to_string(), &mut store);
    assert_eq!(second, Err(Error::QuestionNotFound(QuestionID("1".to_string()))));
    let reply = qa_service::return_error(&qa_service::Failure::Handler(second.unwrap_err()));
    assert_eq!(reply.status, 416);
    assert_eq!(reply.message, "Question not found: 1");
}
