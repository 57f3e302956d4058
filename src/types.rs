use vstd::prelude::*;

verus! {

/// Identifier of a question; compared by its text, never read as a number.
#[derive(Debug, Clone, PartialEq, Eq, Hash)]
pub struct QuestionID(pub String);

/// Identifier of an answer.
#[derive(Debug, Clone, PartialEq, Eq, Hash)]
pub struct AnswerID(pub String);

#[derive(Debug, Clone, PartialEq, Eq)]
pub struct Question {
    pub id: QuestionID,
    pub title: String,
    pub content: String,
    pub tags: Option<Vec<String>>,
}

#[derive(Debug, Clone, PartialEq, Eq)]
pub struct Answer {
    pub id: AnswerID,
    pub content: String,
    pub question_id: QuestionID,
}

/// A question as plain text values.
pub struct QuestionView {
    pub id: Seq<char>,
    pub title: Seq<char>,
    pub content: Seq<char>,
    pub tags: Option<Seq<Seq<char>>>,
}

/// An answer as plain text values.
pub struct AnswerView {
    pub id: Seq<char>,
    pub content: Seq<char>,
    pub question_id: Seq<char>,
}

pub open spec fn strings_view(v: Seq<String>) -> Seq<Seq<char>> {
    v.map_values(|s: String| s@)
}

impl View for Question {
    type V = QuestionView;

    open spec fn view(&self) -> QuestionView {
        QuestionView {
            id: self.id.0@,
            title: self.title@,
            content: self.content@,
            tags: match self.tags {
                Some(t) => Some(strings_view(t@)),
                None => None,
            },
        }
    }
}

impl View for Answer {
    type V = AnswerView;

    open spec fn view(&self) -> AnswerView {
        AnswerView { id: self.id.0@, content: self.content@, question_id: self.question_id.0@ }
    }
}

/// The views of a sequence of questions, in order.
pub open spec fn questions_view(v: Seq<Question>) -> Seq<QuestionView> {
    v.map_values(|q: Question| q@)
}

/// The views of a sequence of answers, in order.
pub open spec fn answers_view(v: Seq<Answer>) -> Seq<AnswerView> {
    v.map_values(|a: Answer| a@)
}

fn copy_strings(v: &Vec<String>) -> (r: Vec<String>)
    ensures
        strings_view(r@) == strings_view(v@),
{
    let mut r: Vec<String> = Vec::new();
    let mut i: usize = 0;
    while i < v.len()
        invariant
            i <= v.len(),
            r@.len() == i,
            forall|j: int| 0 <= j < i ==> r@[j]@ == v@[j]@,
        decreases v.len() - i,
    {
        r.push(v[i].clone());
        i = i + 1;
    }
    assert(strings_view(r@) =~= strings_view(v@));
    r
}

impl QuestionID {
    /// A copy of the identifier.
    pub fn duplicate(&self) -> (r: QuestionID)
        ensures
            r.0@ == self.0@,
    {
        QuestionID(self.0.clone())
    }
}

impl Question {
    /// A deep copy of the question.
    pub fn duplicate(&self) -> (r: Question)
        ensures
            r@ == self@,
    {
        let tags = match &self.tags {
            Some(t) => Some(copy_strings(t)),
            None => None,
        };
        Question {
            id: self.id.duplicate(),
            title: self.title.clone(),
            content: self.content.clone(),
            tags,
        }
    }
}

impl Answer {
    /// A deep copy of the answer.
    pub fn duplicate(&self) -> (r: Answer)
        ensures
            r@ == self@,
    {
        Answer {
            id: AnswerID(self.id.0.clone()),
            content: self.content.clone(),
            question_id: self.question_id.duplicate(),
        }
    }
}

} // verus!
