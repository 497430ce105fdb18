//! The typed model of a quiz document: a sequence of questions of a closed
//! set of kinds, each wrapping the fields shared by every kind.

use vstd::prelude::*;

verus! {

/// A [Markdown](https://commonmark.org/help/) string.
pub struct Markdown(pub String);

impl View for Markdown {
    type V = Seq<char>;

    open spec fn view(&self) -> Seq<char> {
        self.0@
    }
}

impl DeepView for Markdown {
    type V = Seq<char>;

    open spec fn deep_view(&self) -> Seq<char> {
        self.0@
    }
}

/// Fields common to all question types.
pub struct QuestionFields<Prompt, Answer> {
    /// A stable identifier for the question, unique across every document
    /// validated in one session.
    pub id: Option<String>,
    /// If set, the question belongs to a multipart group; the key must be
    /// present in the owning [`Quiz::multipart`] mapping.
    pub multipart: Option<String>,
    /// The contents of the prompt; depends on the question type.
    pub prompt: Prompt,
    /// The contents of the answer; depends on the question type.
    pub answer: Answer,
    /// Additional context shown after the question is answered.
    pub context: Option<Markdown>,
    /// If true, asks the user for a brief justification of their answer.
    pub prompt_explanation: Option<bool>,
}

/// The view of [`QuestionFields`], generic over the views of the prompt
/// and the answer.
#[verifier::ext_equal]
pub struct QuestionFieldsV<PromptV, AnswerV> {
    pub id: Option<Seq<char>>,
    pub multipart: Option<Seq<char>>,
    pub prompt: PromptV,
    pub answer: AnswerV,
    pub context: Option<Seq<char>>,
    pub prompt_explanation: Option<bool>,
}

impl<Prompt: View, Answer: View> View for QuestionFields<Prompt, Answer> {
    type V = QuestionFieldsV<Prompt::V, Answer::V>;

    open spec fn view(&self) -> QuestionFieldsV<Prompt::V, Answer::V> {
        QuestionFieldsV {
            id: match self.id {
                Some(ref s) => Some(s@),
                None => None,
            },
            multipart: match self.multipart {
                Some(ref s) => Some(s@),
                None => None,
            },
            prompt: self.prompt@,
            answer: self.answer@,
            context: match self.context {
                Some(ref m) => Some(m@),
                None => None,
            },
            prompt_explanation: self.prompt_explanation,
        }
    }
}

/// The kind of response input that accompanies a short-answer question.
#[derive(Clone, Copy, PartialEq, Eq, Structural)]
pub enum ShortAnswerResponseFormat {
    /// A one-sentence response.
    Short,
    /// A long-form response.
    Long,
    /// A code response.
    Code,
}

/// A prompt for a [`ShortAnswer`] question.
pub struct ShortAnswerPrompt {
    /// The text of the prompt.
    pub prompt: Markdown,
    /// Format of the response.
    pub response: Option<ShortAnswerResponseFormat>,
}

/// The view of [`ShortAnswerPrompt`].
#[verifier::ext_equal]
pub struct ShortAnswerPromptV {
    pub prompt: Seq<char>,
    pub response: Option<ShortAnswerResponseFormat>,
}

impl View for ShortAnswerPrompt {
    type V = ShortAnswerPromptV;

    open spec fn view(&self) -> ShortAnswerPromptV {
        ShortAnswerPromptV { prompt: self.prompt@, response: self.response }
    }
}

/// An answer for a [`ShortAnswer`] question.
pub struct ShortAnswerAnswer {
    /// The exact string that answers the question.
    pub answer: String,
    /// Other acceptable answers.
    pub alternatives: Option<Vec<String>>,
}

/// The view of [`ShortAnswerAnswer`].
#[verifier::ext_equal]
pub struct ShortAnswerAnswerV {
    pub answer: Seq<char>,
    pub alternatives: Option<Seq<Seq<char>>>,
}

impl View for ShortAnswerAnswer {
    type V = ShortAnswerAnswerV;

    open spec fn view(&self) -> ShortAnswerAnswerV {
        ShortAnswerAnswerV {
            answer: self.answer@,
            alternatives: match self.alternatives {
                Some(ref v) => Some(v.deep_view()),
                None => None,
            },
        }
    }
}

/// A question where users type in a response.
pub struct ShortAnswer(pub QuestionFields<ShortAnswerPrompt, ShortAnswerAnswer>);

/// A prompt for a [`Tracing`] question.
pub struct TracingPrompt {
    /// The contents of the program to trace.
    pub program: String,
}

impl View for TracingPrompt {
    type V = Seq<char>;

    open spec fn view(&self) -> Seq<char> {
        self.program@
    }
}

/// An answer for a [`Tracing`] question.
pub struct TracingAnswer {
    /// True if the program should pass the compiler.
    pub does_compile: bool,
    /// If the program compiles, the contents of stdout after running it.
    pub stdout: Option<String>,
    /// If the program does not compile, the line number of the code causing
    /// the error.  Accepted but not consulted by any validation rule.
    pub line_number: Option<usize>,
}

/// The view of [`TracingAnswer`].
#[verifier::ext_equal]
pub struct TracingAnswerV {
    pub does_compile: bool,
    pub stdout: Option<Seq<char>>,
    pub line_number: Option<usize>,
}

impl View for TracingAnswer {
    type V = TracingAnswerV;

    open spec fn view(&self) -> TracingAnswerV {
        TracingAnswerV {
            does_compile: self.does_compile,
            stdout: match self.stdout {
                Some(ref s) => Some(s@),
                None => None,
            },
            line_number: self.line_number,
        }
    }
}

/// A question where users guess the output of a program.
pub struct Tracing(pub QuestionFields<TracingPrompt, TracingAnswer>);

/// A prompt for a [`MultipleChoice`] question.
pub struct MultipleChoicePrompt {
    /// The text of the prompt.
    pub prompt: Markdown,
    /// An array of incorrect answers.
    pub distractors: Vec<Markdown>,
    /// If defined, don't randomize distractors and put the answer at this
    /// index.
    pub answer_index: Option<usize>,
    /// If defined, don't randomize distractors and sort answers by content.
    pub sort_answers: Option<bool>,
}

/// The view of [`MultipleChoicePrompt`].
#[verifier::ext_equal]
pub struct MultipleChoicePromptV {
    pub prompt: Seq<char>,
    pub distractors: Seq<Seq<char>>,
    pub answer_index: Option<usize>,
    pub sort_answers: Option<bool>,
}

impl View for MultipleChoicePrompt {
    type V = MultipleChoicePromptV;

    open spec fn view(&self) -> MultipleChoicePromptV {
        MultipleChoicePromptV {
            prompt: self.prompt@,
            distractors: self.distractors.deep_view(),
            answer_index: self.answer_index,
            sort_answers: self.sort_answers,
        }
    }
}

/// The shape of the correct answer of a [`MultipleChoice`] question.
pub enum MultipleChoiceAnswerFormat {
    /// There is one correct answer.
    Single(Markdown),
    /// There are several correct answers, and the user must select each.
    Multi(Vec<Markdown>),
}

/// The view of [`MultipleChoiceAnswerFormat`].
#[verifier::ext_equal]
pub enum MultipleChoiceAnswerFormatV {
    Single(Seq<char>),
    Multi(Seq<Seq<char>>),
}

impl View for MultipleChoiceAnswerFormat {
    type V = MultipleChoiceAnswerFormatV;

    open spec fn view(&self) -> MultipleChoiceAnswerFormatV {
        match self {
            MultipleChoiceAnswerFormat::Single(m) => MultipleChoiceAnswerFormatV::Single(m@),
            MultipleChoiceAnswerFormat::Multi(v) => MultipleChoiceAnswerFormatV::Multi(
                Seq::new(v@.len(), |i: int| v@[i]@),
            ),
        }
    }
}

/// An answer for a [`MultipleChoice`] question.
pub struct MultipleChoiceAnswer {
    /// The text of the correct answer.
    pub answer: MultipleChoiceAnswerFormat,
}

impl View for MultipleChoiceAnswer {
    type V = MultipleChoiceAnswerFormatV;

    open spec fn view(&self) -> MultipleChoiceAnswerFormatV {
        self.answer@
    }
}

/// A question where users select among several possible answers.
pub struct MultipleChoice(pub QuestionFields<MultipleChoicePrompt, MultipleChoiceAnswer>);

/// An individual question: one of a closed set of kinds.
pub enum Question {
    /// A [`ShortAnswer`] question.
    ShortAnswer(ShortAnswer),
    /// A [`Tracing`] question.
    Tracing(Tracing),
    /// A [`MultipleChoice`] question.
    MultipleChoice(MultipleChoice),
}

/// The view of [`Question`].
#[verifier::ext_equal]
pub enum QuestionV {
    ShortAnswer(QuestionFieldsV<ShortAnswerPromptV, ShortAnswerAnswerV>),
    Tracing(QuestionFieldsV<Seq<char>, TracingAnswerV>),
    MultipleChoice(QuestionFieldsV<MultipleChoicePromptV, MultipleChoiceAnswerFormatV>),
}

impl View for Question {
    type V = QuestionV;

    open spec fn view(&self) -> QuestionV {
        match self {
            Question::ShortAnswer(q) => QuestionV::ShortAnswer(q.0@),
            Question::Tracing(q) => QuestionV::Tracing(q.0@),
            Question::MultipleChoice(q) => QuestionV::MultipleChoice(q.0@),
        }
    }
}

impl QuestionV {
    /// The identifier of the question, whichever its kind.
    pub open spec fn id(self) -> Option<Seq<char>> {
        match self {
            QuestionV::ShortAnswer(f) => f.id,
            QuestionV::Tracing(f) => f.id,
            QuestionV::MultipleChoice(f) => f.id,
        }
    }

    /// The multipart key of the question, whichever its kind.
    pub open spec fn multipart(self) -> Option<Seq<char>> {
        match self {
            QuestionV::ShortAnswer(f) => f.multipart,
            QuestionV::Tracing(f) => f.multipart,
            QuestionV::MultipleChoice(f) => f.multipart,
        }
    }
}

/// A quiz: the top-level document, a sequence of questions together with
/// the optional mapping from multipart keys to shared context blocks.
pub struct Quiz {
    /// The questions of the quiz.
    pub questions: Vec<Question>,
    /// Context for multipart questions: pairs of a key and the Markdown
    /// block shared by the questions carrying that key.  Keys are unique.
    pub multipart: Option<Vec<(String, Markdown)>>,
}

/// The view of [`Quiz`].
#[verifier::ext_equal]
pub struct QuizV {
    pub questions: Seq<QuestionV>,
    pub multipart: Option<Seq<(Seq<char>, Seq<char>)>>,
}

impl View for Quiz {
    type V = QuizV;

    open spec fn view(&self) -> QuizV {
        QuizV {
            questions: Seq::new(self.questions@.len(), |i: int| self.questions@[i]@),
            multipart: match self.multipart {
                Some(ref v) => Some(Seq::new(v@.len(), |i: int| (v@[i].0@, v@[i].1@))),
                None => None,
            },
        }
    }
}

impl QuizV {
    /// The set of multipart keys the quiz defines.
    pub open spec fn multipart_keys(self) -> Set<Seq<char>> {
        match self.multipart {
            Some(pairs) => Set::new(|k: Seq<char>| exists|i: int| 0 <= i < pairs.len() && pairs[i].0 == k),
            None => Set::empty(),
        }
    }
}

} // verus!
