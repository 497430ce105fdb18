//! The building blocks: the HTML element builder, the directive scanner
//! and splicer, and the text utilities.

use mdbook_quiz::directives::{find_quiz_directives, splice_replacements};
use mdbook_quiz::html::HtmlElementBuilder;
use mdbook_quiz::preprocess::{QuizConfig, QuizProcessor, quiz_placeholder_html};
use mdbook_quiz::text::{indent, sat_add, usize_to_string};

#[test]
fn builder_escapes_attribute_values() {
    let mut b = HtmlElementBuilder::new();
    b.attr("class", "quiz-placeholder");
    b.data("quiz-name", "a\"b<c>&d");
    let html = b.finish();
    assert_eq!(
        html,
        "<div class=\"quiz-placeholder\" data-quiz-name=\"a&quot;b&lt;c&gt;&amp;d\"></div>"
    );
}

#[test]
fn placeholder_reflects_config() {
    let config = QuizConfig {
        validate: Some(true),
        fullscreen: Some(true),
        cache_answers: Some(true),
        dev_mode: false,
    };
    let html = quiz_placeholder_html(&config, "quiz1", "{\"questions\":[]}");
    assert_eq!(
        html,
        "<div class=\"quiz-placeholder\" data-quiz-name=\"quiz1\" \
         data-quiz-questions=\"{&quot;questions&quot;:[]}\" data-quiz-fullscreen=\"\" \
         data-quiz-cache-answers=\"\"></div>"
    );
    let dev = QuizConfig { validate: None, fullscreen: None, cache_answers: Some(true), dev_mode: true };
    let html = quiz_placeholder_html(&dev, "quiz1", "[]");
    assert_eq!(
        html,
        "<div class=\"quiz-placeholder\" data-quiz-name=\"quiz1\" data-quiz-questions=\"[]\"></div>"
    );
}

#[test]
fn processor_renderer_support() {
    let p = QuizProcessor;
    assert_eq!(p.name(), "quiz");
    assert!(p.supports_renderer("html"));
    assert!(!p.supports_renderer("not-supported"));
}

#[test]
fn scanner_finds_directives() {
    let content = b"*Hello world!*\n\n{{#quiz ../quiz.toml}}\n".to_vec();
    let found = find_quiz_directives(&content);
    assert_eq!(found.len(), 1);
    assert_eq!(found[0].start, 16);
    assert_eq!(found[0].end, 38);
    assert_eq!(found[0].path, b"../quiz.toml".to_vec());
}

#[test]
fn scanner_ignores_unclosed_directives() {
    let content = b"{{#quiz broken} {{#quiz ok.toml}} {{#quiz }}".to_vec();
    let found = find_quiz_directives(&content);
    assert_eq!(found.len(), 1);
    assert_eq!(found[0].path, b"ok.toml".to_vec());
}

#[test]
fn splicer_replaces_ranges() {
    let content = b"ab{{#quiz q.toml}}cd".to_vec();
    let found = find_quiz_directives(&content);
    assert_eq!(found.len(), 1);
    let reps = vec![(found[0].start, found[0].end, b"<div></div>".to_vec())];
    let out = splice_replacements(&content, &reps);
    assert_eq!(out, b"ab<div></div>cd".to_vec());
}

#[test]
fn decimal_rendering() {
    assert_eq!(usize_to_string(0), "0");
    assert_eq!(usize_to_string(90210), "90210");
}

#[test]
fn indentation_prefixes_lines() {
    assert_eq!(indent("a\nb", "  "), "  a\n  b");
    assert_eq!(indent("", "  "), "  ");
}

#[test]
fn saturating_addition() {
    assert_eq!(sat_add(2, 3), 5);
    assert_eq!(sat_add(usize::MAX, 1), usize::MAX);
}
