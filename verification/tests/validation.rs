//! End-to-end validation behaviour, driven the way a build drives it: the
//! library validates the document and judges tracing questions from the
//! outcomes of compiling and running their programs, which these tests
//! supply as the Rust toolchain would for the programs they embed.

use mdbook_quiz::diagnostics::DiagMessage;
use mdbook_quiz::tracing_check::ProcessOutput;
use mdbook_quiz::engine::{QuizError, ValidationRun};
use mdbook_quiz::validate;
use mdbook_quiz::Validated;

fn test_dictionary() -> zspell::Dictionary {
    let aff = "SET UTF-8\n";
    let dic = "4\nhello\nHello\nworld\nfoo";
    zspell::DictBuilder::new()
        .config_str(aff)
        .dict_str(dic)
        .build()
        .expect("failed to build dictionary")
}

/// The outcome the Rust toolchain yields for the programs these tests
/// embed: compilation fails on the ill-typed one, and a run prints what
/// the program prints.
fn toolchain(program: &str) -> (ProcessOutput, ProcessOutput) {
    let compiles = !program.contains("let x: String = 1");
    let compile = ProcessOutput {
        success: compiles,
        stdout: String::new(),
        stderr: if compiles {
            String::new()
        } else {
            String::from("error[E0308]: mismatched types")
        },
    };
    let run = if program.contains("panic!") {
        ProcessOutput {
            success: false,
            stdout: String::new(),
            stderr: String::from("thread 'main' panicked"),
        }
    } else if program.contains("println!(\"Hello world\")") {
        ProcessOutput {
            success: true,
            stdout: String::from("Hello world\n"),
            stderr: String::new(),
        }
    } else {
        ProcessOutput { success: true, stdout: String::new(), stderr: String::new() }
    };
    (compile, run)
}

fn drive(run: &mut ValidationRun) {
    loop {
        let program = match run.pending_program() {
            Some(p) => p.clone(),
            None => break,
        };
        let (compile, run_out) = toolchain(&program);
        let needs_run = run.submit_compile(&compile);
        if needs_run {
            run.submit_run(&run_out);
        }
    }
}

fn harness_at(path: &str, contents: &str, validated: &mut Validated) -> Result<(), QuizError> {
    let dict = test_dictionary();
    let mut run = validate(path, contents, validated, Some(&dict));
    drive(&mut run);
    run.finish()
}

fn harness(contents: &str) -> Result<(), QuizError> {
    let mut validated = Validated::default();
    harness_at("dummy.rs", contents, &mut validated)
}

#[test]
fn validate_markdown_passes() {
    let contents = r#"
[[questions]]
type = "MultipleChoice"
prompt.prompt = "Hello **world**"
answer.answer = ""
prompt.distractors = [""]
"#;
    assert!(harness(contents).is_ok());
}

#[test]
fn validate_markdown_spellcheck() {
    let contents = r#"
[[questions]]
type = "MultipleChoice"
prompt.prompt = "Hello **wrold**"
answer.answer = ""
prompt.distractors = [""]
"#;
    assert!(harness(contents).is_ok());
}

#[test]
fn validate_duplicate_ids() {
    let contents = r#"
[[questions]]
id = "hello"
type = "MultipleChoice"
prompt.prompt = ""
answer.answer = ""
prompt.distractors = [""]

[[questions]]
id = "hello"
type = "MultipleChoice"
prompt.prompt = ""
answer.answer = ""
prompt.distractors = [""]
"#;
    assert!(harness(contents).is_err());
}

#[test]
fn validate_multipart_spelling() {
    let contents = r#"
[multipart]
a = """
Hello wrold
"""

[[questions]]
id = "hello"
multipart = "a"
type = "MultipleChoice"
prompt.prompt = ""
answer.answer = ""
prompt.distractors = [""]
"#;
    assert!(harness(contents).is_ok());
}

#[test]
fn validate_multipart_key() {
    let contents = r#"
[multipart]
a = ""


[[questions]]
id = "hello"
multipart = "b"
type = "MultipleChoice"
prompt.prompt = ""
answer.answer = ""
prompt.distractors = [""]
"#;
    assert!(harness(contents).is_err());
}

#[test]
fn validate_mcq_passes() {
    let contents = r#"
[[questions]]
type = "MultipleChoice"
prompt.prompt = ""
answer.answer = ""
prompt.distractors = [""]
"#;
    assert!(harness(contents).is_ok());
}

#[test]
fn validate_mcq_index_and_sort() {
    let contents = r#"
[[questions]]
type = "MultipleChoice"
prompt.prompt = ""
answer.answer = ""
prompt.distractors = [""]
prompt.answerIndex = 0
prompt.sortAnswers = true
"#;
    assert!(harness(contents).is_err());
}

#[test]
fn validate_tracing_passes() {
    let contents = r#"
[[questions]]
type = "Tracing"
prompt.program = """
fn main() {
  println!("Hello world");
}
"""
answer.doesCompile = true
answer.stdout = "Hello world"
"#;
    assert!(harness(contents).is_ok());
}

#[test]
fn validate_tracing_compile_fail() {
    let contents = r#"
[[questions]]
type = "Tracing"
prompt.program = """
fn main() {
  let x: String = 1;
}
"""
answer.doesCompile = true
answer.stdout = ""
"#;
    assert!(harness(contents).is_err());
}

#[test]
fn validate_tracing_wrong_stdout() {
    let contents = r#"
[[questions]]
type = "Tracing"
prompt.program = """
fn main() {
  println!("Hello world");
}
"""
answer.doesCompile = true
answer.stdout = "meep meep"
"#;
    assert!(harness(contents).is_err());
}

#[test]
fn validate_twice() {
    let contents = r#"
[[questions]]
id = "foobar"
type = "MultipleChoice"
prompt.prompt = ""
answer.answer = ""
prompt.distractors = [""]
"#;
    let mut validated = Validated::default();
    assert!(harness_at("dummy.rs", contents, &mut validated).is_ok());
    assert!(harness_at("dummy.rs", contents, &mut validated).is_ok());
}

#[test]
fn validate_parse_error() {
    let contents = r#"
[[questions]]
type = "MultipleChoice
prompt.prompt = ""
answer.answer = ""
prompt.distractors = [""]
    "#;
    assert!(harness(contents).is_err());
}

#[test]
fn revalidation_ignores_changed_content() {
    let good = r#"
[[questions]]
type = "ShortAnswer"
prompt.prompt = "Hello world"
answer.answer = "No"
"#;
    let broken = "[[questions]";
    let mut validated = Validated::default();
    assert!(harness_at("same.toml", good, &mut validated).is_ok());
    assert!(harness_at("same.toml", broken, &mut validated).is_ok());
}

#[test]
fn duplicate_id_across_documents() {
    let one = r#"
[[questions]]
id = "shared"
type = "ShortAnswer"
prompt.prompt = ""
answer.answer = ""
"#;
    let two = r#"
[[questions]]
id = "shared"
type = "MultipleChoice"
prompt.prompt = ""
answer.answer = ""
prompt.distractors = [""]
"#;
    let mut validated = Validated::default();
    assert!(harness_at("one.toml", one, &mut validated).is_ok());
    assert!(harness_at("two.toml", two, &mut validated).is_err());
}

#[test]
fn empty_question_list_is_fatal() {
    assert!(harness("questions = []\n").is_err());
}

#[test]
fn multipart_key_present_passes() {
    let contents = r#"
[multipart]
a = "Hello world"

[[questions]]
multipart = "a"
type = "ShortAnswer"
prompt.prompt = ""
answer.answer = ""
"#;
    assert!(harness(contents).is_ok());
}

#[test]
fn answer_index_beyond_distractors_is_fatal() {
    let contents = r#"
[[questions]]
type = "MultipleChoice"
prompt.prompt = ""
answer.answer = ""
prompt.distractors = [""]
prompt.answerIndex = 2
"#;
    assert!(harness(contents).is_err());
}

#[test]
fn answer_index_at_distractor_count_passes() {
    let contents = r#"
[[questions]]
type = "MultipleChoice"
prompt.prompt = ""
answer.answer = ""
prompt.distractors = [""]
prompt.answerIndex = 1
"#;
    assert!(harness(contents).is_ok());
}

#[test]
fn empty_multi_answer_is_fatal() {
    let contents = r#"
[[questions]]
type = "MultipleChoice"
prompt.prompt = ""
answer.answer = []
prompt.distractors = [""]
"#;
    assert!(harness(contents).is_err());
}

#[test]
fn multi_answer_passes() {
    let contents = r#"
[[questions]]
type = "MultipleChoice"
prompt.prompt = ""
answer.answer = ["a", "b"]
prompt.distractors = [""]
"#;
    assert!(harness(contents).is_ok());
}

#[test]
fn tracing_compiles_but_claimed_not() {
    let contents = r#"
[[questions]]
type = "Tracing"
prompt.program = """
fn main() {
  println!("Hello world");
}
"""
answer.doesCompile = false
"#;
    assert!(harness(contents).is_err());
}

#[test]
fn tracing_no_compile_with_stdout_key() {
    let contents = r#"
[[questions]]
type = "Tracing"
prompt.program = """
fn main() {
  let x: String = 1;
}
"""
answer.doesCompile = false
answer.stdout = "1"
"#;
    assert!(harness(contents).is_err());
}

#[test]
fn tracing_no_compile_claimed_not_passes() {
    let contents = r#"
[[questions]]
type = "Tracing"
prompt.program = """
fn main() {
  let x: String = 1;
}
"""
answer.doesCompile = false
answer.lineNumber = 2
"#;
    assert!(harness(contents).is_ok());
}

#[test]
fn tracing_run_failure_is_fatal() {
    let contents = r#"
[[questions]]
type = "Tracing"
prompt.program = """
fn main() {
  panic!();
}
"""
answer.doesCompile = true
answer.stdout = ""
"#;
    assert!(harness(contents).is_err());
}

#[test]
fn spellcheck_flags_exactly_one_word() {
    let contents = r#"
[[questions]]
type = "MultipleChoice"
prompt.prompt = "Hello **wrold**"
answer.answer = ""
prompt.distractors = [""]
"#;
    let dict = test_dictionary();
    let mut validated = Validated::default();
    let run = validate("dummy.rs", contents, &mut validated, Some(&dict));
    let diags = run.diagnostics();
    assert_eq!(diags.len(), 1);
    assert!(!diags[0].fatal);
    match &diags[0].message {
        DiagMessage::Spelling(w) => assert_eq!(w.as_str(), "wrold"),
        _ => panic!("expected a spelling finding"),
    }
    let expected_start = contents.find("wrold").unwrap();
    assert_eq!(diags[0].spans[0].start, expected_start);
    assert_eq!(diags[0].spans[0].end, expected_start + 5);
    assert!(run.finish().is_ok());
}

#[test]
fn spellcheck_correct_text_has_no_findings() {
    let contents = r#"
[[questions]]
type = "MultipleChoice"
prompt.prompt = "Hello **world**"
answer.answer = ""
prompt.distractors = [""]
"#;
    let dict = test_dictionary();
    let mut validated = Validated::default();
    let run = validate("dummy.rs", contents, &mut validated, Some(&dict));
    assert_eq!(run.diagnostics().len(), 0);
}

#[test]
fn spellcheck_skips_numeric_tokens() {
    let contents = r#"
[[questions]]
type = "MultipleChoice"
prompt.prompt = "wrold 42 -17 3e5 4E9 inf Infinity NaN"
answer.answer = ""
prompt.distractors = [""]
"#;
    let dict = test_dictionary();
    let mut validated = Validated::default();
    let run = validate("dummy.rs", contents, &mut validated, Some(&dict));
    let diags = run.diagnostics();
    assert_eq!(diags.len(), 1);
    match &diags[0].message {
        DiagMessage::Spelling(w) => assert_eq!(w.as_str(), "wrold"),
        _ => panic!("expected a spelling finding"),
    }
}

#[test]
fn spellcheck_block_string_offsets() {
    let contents = r#"
[multipart]
a = """
Hello wrold
"""

[[questions]]
multipart = "a"
type = "ShortAnswer"
prompt.prompt = ""
answer.answer = ""
"#;
    let dict = test_dictionary();
    let mut validated = Validated::default();
    let run = validate("dummy.rs", contents, &mut validated, Some(&dict));
    let diags = run.diagnostics();
    assert_eq!(diags.len(), 1);
    let expected_start = contents.find("wrold").unwrap();
    assert_eq!(diags[0].spans[0].start, expected_start);
    assert_eq!(diags[0].spans[0].end, expected_start + 5);
}

#[test]
fn disabled_spellcheck_reports_nothing() {
    let contents = r#"
[[questions]]
type = "MultipleChoice"
prompt.prompt = "Hello **wrold**"
answer.answer = ""
prompt.distractors = [""]
"#;
    let mut validated = Validated::default();
    let run = validate("dummy.rs", contents, &mut validated, None);
    assert_eq!(run.diagnostics().len(), 0);
}

#[test]
fn report_names_the_duplicate() {
    let contents = r#"
[[questions]]
id = "hello"
type = "ShortAnswer"
prompt.prompt = ""
answer.answer = ""

[[questions]]
id = "hello"
type = "ShortAnswer"
prompt.prompt = ""
answer.answer = ""
"#;
    let mut validated = Validated::default();
    let run = validate("dummy.rs", contents, &mut validated, None);
    let report = run.report();
    assert!(report.contains("error: Duplicate ID: hello"));
    let second_id = contents.rfind("\"hello\"").unwrap();
    let location = format!("dummy.rs[{}..{}]: \"hello\"", second_id, second_id + 7);
    assert!(report.contains(&location));
    let err = run.finish().unwrap_err();
    assert_eq!(err.message().as_str(), "Quiz failed to validate: dummy.rs");
}

#[test]
fn unknown_question_type_is_fatal() {
    let contents = r#"
[[questions]]
type = "Essay"
prompt.prompt = ""
answer.answer = ""
"#;
    assert!(harness(contents).is_err());
}

#[test]
fn short_answer_with_alternatives_passes() {
    let contents = r#"
[[questions]]
id = "q1"
type = "ShortAnswer"
prompt.prompt = "Hello world"
prompt.response = "short"
answer.answer = "foo"
answer.alternatives = ["hello", "world"]
context = "Hello world"
promptExplanation = true
"#;
    assert!(harness(contents).is_ok());
}

#[test]
fn spellcheck_covers_multi_answer_items() {
    let contents = r#"
[[questions]]
type = "MultipleChoice"
prompt.prompt = "Hello world"
answer.answer = ["wrold", "world"]
prompt.distractors = ["hello"]
"#;
    let dict = test_dictionary();
    let mut validated = Validated::default();
    let run = validate("dummy.rs", contents, &mut validated, Some(&dict));
    let diags = run.diagnostics();
    assert_eq!(diags.len(), 1);
    match &diags[0].message {
        DiagMessage::Spelling(w) => assert_eq!(w.as_str(), "wrold"),
        _ => panic!("expected a spelling finding"),
    }
    assert!(run.finish().is_ok());
}

#[test]
fn spellcheck_covers_context() {
    let contents = r#"
[[questions]]
type = "ShortAnswer"
prompt.prompt = "Hello world"
answer.answer = "foo"
context = "Hello wrold"
"#;
    let dict = test_dictionary();
    let mut validated = Validated::default();
    let run = validate("dummy.rs", contents, &mut validated, Some(&dict));
    let diags = run.diagnostics();
    assert_eq!(diags.len(), 1);
    match &diags[0].message {
        DiagMessage::Spelling(w) => assert_eq!(w.as_str(), "wrold"),
        _ => panic!("expected a spelling finding"),
    }
    let expected_start = contents.find("wrold").unwrap();
    assert_eq!(diags[0].spans[0].start, expected_start);
}
