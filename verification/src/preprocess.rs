//! What the book preprocessor computes: the quiz placeholder element, the
//! `{{#quiz ...}}` directives of a chapter, and the splicing of their
//! replacements into the chapter text.  The surrounding plumbing — files,
//! processes, the book protocol — lives with the caller.

use vstd::prelude::*;
use crate::html::{HtmlElementBuilder, escape_dq};

verus! {

/// A static asset bundled with the preprocessor.
pub struct Asset {
    /// The file name of the asset.
    pub name: &'static str,
    /// The bytes of the asset.
    pub contents: &'static [u8],
}

/// The preprocessor's configuration.
pub struct QuizConfig {
    /// If true, quiz documents are validated before embedding.
    pub validate: Option<bool>,
    /// If true, a quiz takes up the whole page while in use.
    pub fullscreen: Option<bool>,
    /// If true, a user's answers are cached in the browser and shown on a
    /// revisit.
    pub cache_answers: Option<bool>,
    /// Development mode: caching is disabled.
    pub dev_mode: bool,
}

/// The book preprocessor for quizzes.
pub struct QuizProcessor;

impl QuizProcessor {
    /// The preprocessor's name.
    pub fn name(&self) -> (r: &'static str)
        ensures
            r@ == "quiz"@,
    {
        "quiz"
    }

    /// Every renderer but the unsupported one is supported.
    pub fn supports_renderer(&self, renderer: &str) -> (r: bool)
        ensures
            r == (renderer@ != "not-supported"@),
    {
        !crate::text::str_eq(renderer, "not-supported")
    }
}

/// The placeholder element a quiz is embedded as: its name and its
/// questions as data attributes, and the configured flags.
pub open spec fn placeholder_text(c: QuizConfig, name: Seq<char>, json: Seq<char>) -> Seq<char> {
    "<div"@ + " "@ + "class"@ + "=\""@ + escape_dq("quiz-placeholder"@) + "\""@ + " data-"@
        + "quiz-name"@ + "=\""@ + escape_dq(name) + "\""@ + " data-"@ + "quiz-questions"@
        + "=\""@ + escape_dq(json) + "\""@ + (if c.fullscreen == Some(true) {
        " data-"@ + "quiz-fullscreen"@ + "=\""@ + "\""@
    } else {
        Seq::empty()
    }) + (if c.cache_answers == Some(true) && !c.dev_mode {
        " data-"@ + "quiz-cache-answers"@ + "=\""@ + "\""@
    } else {
        Seq::empty()
    }) + "></div>"@
}

/// Builds the placeholder element for a quiz named `quiz_name` whose
/// questions are serialized in `content_json`.
pub fn quiz_placeholder_html(config: &QuizConfig, quiz_name: &str, content_json: &str) -> (r:
    String)
    ensures
        r@ == placeholder_text(*config, quiz_name@, content_json@),
{
    let mut html = HtmlElementBuilder::new();
    html.attr("class", "quiz-placeholder");
    html.data("quiz-name", quiz_name);
    html.data("quiz-questions", content_json);
    match config.fullscreen {
        Some(true) => {
            html.data("quiz-fullscreen", "");
            proof {
                reveal_strlit("");
                assert(escape_dq(""@) =~= ""@);
            }
        },
        _ => {},
    }
    match config.cache_answers {
        Some(true) => {
            if !config.dev_mode {
                html.data("quiz-cache-answers", "");
                proof {
                    reveal_strlit("");
                    assert(escape_dq(""@) =~= ""@);
                }
            }
        },
        _ => {},
    }
    let r = html.finish();
    proof {
        assert(r@ =~= placeholder_text(*config, quiz_name@, content_json@));
    }
    r
}

} // verus!
