//! An in-memory question/answer store with its request handlers: query-string
//! pagination, create/update/delete of questions, answers posted from a form,
//! and the translation of every failure into an HTTP status and message.

pub mod error;
pub mod handlers;
pub mod numbers;
pub mod pagination;
pub mod restaurant;
pub mod store;
pub mod types;

pub use error::{return_error, Error, Failure, Param, Reply};
pub use handlers::{add_answer, add_question, delete_question, get_questions, update_question};
pub use pagination::{extract_pagination, Pagination};
pub use restaurant::eat_at_restaurant;
pub use store::{AnswerStore, QuestionStore};
pub use types::{Answer, AnswerID, Question, QuestionID};
