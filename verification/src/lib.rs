//! A verified validation engine for quiz documents embedded in a book.
//!
//! A quiz is written as a TOML document holding a sequence of questions.
//! This crate parses such a document into a typed model together with a
//! span tree that records the byte range of every value, checks the model
//! against the question schema and its cross-reference rules, spellchecks
//! the Markdown prose, and judges "tracing" questions from the outcome of
//! compiling and running their embedded program.  Every rule is stated as
//! a contract and proved.

pub mod decode;
pub mod diagnostics;
pub mod directives;
pub mod engine;
pub mod html;
pub mod laws;
pub mod parse;
pub mod preprocess;
pub mod report;
pub mod rules;
pub mod schema;
pub mod session;
pub mod span_tree;
pub mod spellcheck;
pub mod tracing_check;
pub mod text;

pub use engine::{QuizError, ValidationRun, validate};
pub use session::Validated;
