use qa_service::{add_answer, Answer, AnswerID, AnswerStore, Failure, QuestionID};

fn params(pairs: &[(&str, &str)]) -> Vec<(String, String)> {
    pairs.iter().map(|(k, v)| (k.to_string(), v.to_string())).collect()
}

#[test]
fn answers_get_fresh_numbered_ids() {
    let mut store = AnswerStore::new();
    for i in 1..=12usize {
        let c = format!("answer {}", i);
        let id = add_answer(&mut store, &params(&[("content", c.as_str()), ("questionId", "q1")]))
            .unwrap();
        assert_eq!(id, AnswerID(i.to_string()));
    }
    let all = store.get_all_answers();
    assert_eq!(all.len(), 12);
    assert_eq!(
        all[9],
        Answer {
            id: AnswerID("10".to_string()),
            content: "answer 10".to_string(),
            question_id: QuestionID("q1".to_string()),
        }
    );
}

#[test]
fn answer_to_unknown_question_is_accepted() {
    let mut store = AnswerStore::new();
    let r = add_answer(&mut store, &params(&[("questionId", "nope"), ("content", "hi")]));
    assert_eq!(r, Ok(AnswerID("1".to_string())));
    assert_eq!(store.get_all_answers()[0].question_id, QuestionID("nope".to_string()));
}

#[test]
fn missing_content_is_malformed() {
    let mut store = AnswerStore::new();
    let r = add_answer(&mut store, &params(&[("questionId", "1")]));
    assert_eq!(r, Err(Failure::MalformedBody("Missing form field: content".to_string())));
    assert_eq!(store.len(), 0);
}

#[test]
fn missing_question_id_is_malformed() {
    let mut store = AnswerStore::new();
    let r = add_answer(&mut store, &params(&[("content", "x")]));
    assert_eq!(r, Err(Failure::MalformedBody("Missing form field: questionId".to_string())));
    let reply = qa_service::return_error(&r.unwrap_err());
    assert_eq!(reply.status, 422);
    assert_eq!(store.len(), 0);
}
