//! The verified schema decoder: turns the span tree of a parsed document
//! into the typed quiz model, together with the byte ranges of every value
//! a validator may need to point at.  A document that the decoder accepts
//! is exactly one that matches the quiz schema.

use vstd::prelude::*;
use vstd::string::StringExecFns;
use crate::schema::{
    Markdown, MultipleChoice, MultipleChoiceAnswer, MultipleChoiceAnswerFormat,
    MultipleChoiceAnswerFormatV, MultipleChoicePrompt, MultipleChoicePromptV, Question,
    QuestionFields, QuestionFieldsV, QuestionV, Quiz, QuizV, ShortAnswer, ShortAnswerAnswer,
    ShortAnswerAnswerV, ShortAnswerPrompt, ShortAnswerPromptV, ShortAnswerResponseFormat,
    Tracing, TracingAnswer, TracingAnswerV, TracingPrompt,
};
use crate::span_tree::{Span, SpanNode, SpanNodeV, SpanKindV, tab_lookup};
use crate::text::str_eq;

verus! {

/// The byte ranges of the values of one question that a validator may
/// label.  Ranges for fields a question kind does not have, or that the
/// document leaves out, are absent.
pub struct QuestionSpans {
    /// The whole question table.
    pub question: Span,
    /// The `id` value.
    pub id: Option<Span>,
    /// The `multipart` value.
    pub multipart: Option<Span>,
    /// The `answer` value.
    pub answer: Span,
    /// The `context` value.
    pub context: Option<Span>,
    /// The Markdown prompt text value.
    pub prompt_md: Option<Span>,
    /// Each distractor value.
    pub distractors: Vec<Span>,
    /// The `answerIndex` value.
    pub answer_index: Option<Span>,
    /// The `sortAnswers` value.
    pub sort_answers: Option<Span>,
    /// The inner `answer` value of a multiple-choice answer.
    pub answer_value: Option<Span>,
    /// Each correct answer of a multi-select answer.
    pub answer_items: Vec<Span>,
    /// The `doesCompile` value.
    pub does_compile: Option<Span>,
    /// The `stdout` value.
    pub stdout: Option<Span>,
}

/// The view of [`QuestionSpans`].
#[verifier::ext_equal]
pub struct QuestionSpansV {
    pub question: Span,
    pub id: Option<Span>,
    pub multipart: Option<Span>,
    pub answer: Span,
    pub context: Option<Span>,
    pub prompt_md: Option<Span>,
    pub distractors: Seq<Span>,
    pub answer_index: Option<Span>,
    pub sort_answers: Option<Span>,
    pub answer_value: Option<Span>,
    pub answer_items: Seq<Span>,
    pub does_compile: Option<Span>,
    pub stdout: Option<Span>,
}

impl View for QuestionSpans {
    type V = QuestionSpansV;

    open spec fn view(&self) -> QuestionSpansV {
        QuestionSpansV {
            question: self.question,
            id: self.id,
            multipart: self.multipart,
            answer: self.answer,
            context: self.context,
            prompt_md: self.prompt_md,
            distractors: self.distractors@,
            answer_index: self.answer_index,
            sort_answers: self.sort_answers,
            answer_value: self.answer_value,
            answer_items: self.answer_items@,
            does_compile: self.does_compile,
            stdout: self.stdout,
        }
    }
}

/// The byte ranges of the values of a whole quiz document.
pub struct QuizSpans {
    /// The top-level table.
    pub root: Span,
    /// Per question, aligned with the quiz's question sequence.
    pub questions: Vec<QuestionSpans>,
    /// Per multipart pair, aligned with the quiz's multipart pairs: the
    /// range of the Markdown value.
    pub multipart: Vec<Span>,
}

/// The view of [`QuizSpans`].
#[verifier::ext_equal]
pub struct QuizSpansV {
    pub root: Span,
    pub questions: Seq<QuestionSpansV>,
    pub multipart: Seq<Span>,
}

impl View for QuizSpans {
    type V = QuizSpansV;

    open spec fn view(&self) -> QuizSpansV {
        QuizSpansV {
            root: self.root,
            questions: Seq::new(self.questions@.len(), |i: int| self.questions@[i]@),
            multipart: self.multipart@,
        }
    }
}

/// The value of an optional field pair.
pub open spec fn oval<A>(o: Option<(A, Span)>) -> Option<A> {
    match o {
        Some((v, _)) => Some(v),
        None => None,
    }
}

/// The range of an optional field pair.
pub open spec fn ospan<A>(o: Option<(A, Span)>) -> Option<Span> {
    match o {
        Some((_, sp)) => Some(sp),
        None => None,
    }
}

/// An optional string field of a table: absent, present as a string, or a
/// schema fault.
pub open spec fn opt_str_field(ps: Seq<(Seq<char>, SpanNodeV)>, key: Seq<char>) -> Option<
    Option<(Seq<char>, Span)>,
> {
    match tab_lookup(ps, key) {
        None => Some(None),
        Some(v) => match v.kind {
            SpanKindV::Str(s) => Some(Some((s, v.span()))),
            _ => None,
        },
    }
}

/// An optional boolean field of a table.
pub open spec fn opt_bool_field(ps: Seq<(Seq<char>, SpanNodeV)>, key: Seq<char>) -> Option<
    Option<(bool, Span)>,
> {
    match tab_lookup(ps, key) {
        None => Some(None),
        Some(v) => match v.kind {
            SpanKindV::Bool(b) => Some(Some((b, v.span()))),
            _ => None,
        },
    }
}

/// An optional non-negative machine integer field of a table.
pub open spec fn opt_usize_field(ps: Seq<(Seq<char>, SpanNodeV)>, key: Seq<char>) -> Option<
    Option<(usize, Span)>,
> {
    match tab_lookup(ps, key) {
        None => Some(None),
        Some(v) => match v.kind {
            SpanKindV::Int(i) => if 0 <= i <= usize::MAX {
                Some(Some((i as usize, v.span())))
            } else {
                None
            },
            _ => None,
        },
    }
}

/// The strings of an array node's elements from position `i` on, with
/// their ranges; a schema fault if an element is not a string.
pub open spec fn str_items_from(cs: Seq<SpanNodeV>, i: int) -> Option<Seq<(Seq<char>, Span)>>
    decreases cs.len() - i,
{
    if i < 0 || i >= cs.len() {
        Some(Seq::empty())
    } else {
        match cs[i].kind {
            SpanKindV::Str(s) => match str_items_from(cs, i + 1) {
                Some(rest) => Some(seq![(s, cs[i].span())] + rest),
                None => None,
            },
            _ => None,
        }
    }
}

/// The response format a string names, if any.
pub open spec fn spec_response(s: Seq<char>) -> Option<ShortAnswerResponseFormat> {
    if s == "short"@ {
        Some(ShortAnswerResponseFormat::Short)
    } else if s == "long"@ {
        Some(ShortAnswerResponseFormat::Long)
    } else if s == "code"@ {
        Some(ShortAnswerResponseFormat::Code)
    } else {
        None
    }
}

/// An optional response-format field of a table.
pub open spec fn opt_response_field(ps: Seq<(Seq<char>, SpanNodeV)>) -> Option<
    Option<ShortAnswerResponseFormat>,
> {
    match opt_str_field(ps, "response"@) {
        None => None,
        Some(None) => Some(None),
        Some(Some((s, _))) => match spec_response(s) {
            Some(f) => Some(Some(f)),
            None => None,
        },
    }
}

/// What a short-answer prompt table decodes to, with the range of its
/// Markdown prompt.
pub open spec fn spec_decode_sa_prompt(n: SpanNodeV) -> Option<(ShortAnswerPromptV, Span)> {
    if !(n.kind is Tab) {
        None
    } else {
        let ps = n.kind->Tab_0;
        match opt_str_field(ps, "prompt"@) {
            Some(Some((s, sp))) => match opt_response_field(ps) {
                Some(resp) => Some((ShortAnswerPromptV { prompt: s, response: resp }, sp)),
                None => None,
            },
            _ => None,
        }
    }
}

/// What a short-answer answer table decodes to.
pub open spec fn spec_decode_sa_answer(n: SpanNodeV) -> Option<ShortAnswerAnswerV> {
    if !(n.kind is Tab) {
        None
    } else {
        let ps = n.kind->Tab_0;
        match opt_str_field(ps, "answer"@) {
            Some(Some((s, _))) => match tab_lookup(ps, "alternatives"@) {
                None => Some(ShortAnswerAnswerV { answer: s, alternatives: None }),
                Some(v) => if !(v.kind is Arr) {
                    None
                } else {
                    match str_items_from(v.kind->Arr_0, 0) {
                        Some(items) => Some(
                            ShortAnswerAnswerV {
                                answer: s,
                                alternatives: Some(Seq::new(items.len(), |i: int| items[i].0)),
                            },
                        ),
                        None => None,
                    }
                },
            },
            _ => None,
        }
    }
}

/// What a tracing prompt table decodes to: the program text.
pub open spec fn spec_decode_tr_prompt(n: SpanNodeV) -> Option<Seq<char>> {
    if !(n.kind is Tab) {
        None
    } else {
        match opt_str_field(n.kind->Tab_0, "program"@) {
            Some(Some((s, _))) => Some(s),
            _ => None,
        }
    }
}

/// What a tracing answer table decodes to, with the ranges of its
/// `doesCompile` and `stdout` values.
pub open spec fn spec_decode_tr_answer(n: SpanNodeV) -> Option<
    (TracingAnswerV, Span, Option<Span>),
> {
    if !(n.kind is Tab) {
        None
    } else {
        let ps = n.kind->Tab_0;
        match opt_bool_field(ps, "doesCompile"@) {
            Some(Some((dc, dcsp))) => match opt_str_field(ps, "stdout"@) {
                Some(out) => match opt_usize_field(ps, "lineNumber"@) {
                    Some(ln) => Some(
                        (
                            TracingAnswerV {
                                does_compile: dc,
                                stdout: oval(out),
                                line_number: oval(ln),
                            },
                            dcsp,
                            ospan(out),
                        ),
                    ),
                    None => None,
                },
                None => None,
            },
            _ => None,
        }
    }
}

/// What a multiple-choice prompt table decodes to, with the ranges of its
/// Markdown prompt, its distractors, and its option values.
pub open spec fn spec_decode_mc_prompt(n: SpanNodeV) -> Option<
    (MultipleChoicePromptV, Span, Seq<Span>, Option<Span>, Option<Span>),
> {
    if !(n.kind is Tab) {
        None
    } else {
        let ps = n.kind->Tab_0;
        match opt_str_field(ps, "prompt"@) {
            Some(Some((s, sp))) => match tab_lookup(ps, "distractors"@) {
                Some(dn) => if !(dn.kind is Arr) {
                    None
                } else {
                    match str_items_from(dn.kind->Arr_0, 0) {
                        Some(ds) => match opt_usize_field(ps, "answerIndex"@) {
                            Some(ai) => match opt_bool_field(ps, "sortAnswers"@) {
                                Some(sa) => Some(
                                    (
                                        MultipleChoicePromptV {
                                            prompt: s,
                                            distractors: Seq::new(ds.len(), |i: int| ds[i].0),
                                            answer_index: oval(ai),
                                            sort_answers: oval(sa),
                                        },
                                        sp,
                                        Seq::new(ds.len(), |i: int| ds[i].1),
                                        ospan(ai),
                                        ospan(sa),
                                    ),
                                ),
                                None => None,
                            },
                            None => None,
                        },
                        None => None,
                    }
                },
                None => None,
            },
            _ => None,
        }
    }
}

/// What a multiple-choice answer table decodes to, with the range of the
/// inner answer value and of each multi-select item.
pub open spec fn spec_decode_mc_answer(n: SpanNodeV) -> Option<
    (MultipleChoiceAnswerFormatV, Span, Seq<Span>),
> {
    if !(n.kind is Tab) {
        None
    } else {
        match tab_lookup(n.kind->Tab_0, "answer"@) {
            Some(an) => match an.kind {
                SpanKindV::Str(s) => Some(
                    (MultipleChoiceAnswerFormatV::Single(s), an.span(), Seq::empty()),
                ),
                SpanKindV::Arr(cs) => match str_items_from(cs, 0) {
                    Some(items) => Some(
                        (
                            MultipleChoiceAnswerFormatV::Multi(
                                Seq::new(items.len(), |i: int| items[i].0),
                            ),
                            an.span(),
                            Seq::new(items.len(), |i: int| items[i].1),
                        ),
                    ),
                    None => None,
                },
                _ => None,
            },
            None => None,
        }
    }
}

/// What one question table decodes to, with its ranges.
pub open spec fn spec_decode_question(n: SpanNodeV) -> Option<(QuestionV, QuestionSpansV)> {
    if !(n.kind is Tab) {
        None
    } else {
        let ps = n.kind->Tab_0;
        match (opt_str_field(ps, "type"@), opt_str_field(ps, "id"@), opt_str_field(
            ps,
            "multipart"@,
        ), opt_str_field(ps, "context"@), opt_bool_field(ps, "promptExplanation"@)) {
            (Some(Some((ty, _))), Some(id), Some(mp), Some(ctx), Some(pe)) => match (tab_lookup(
                ps,
                "prompt"@,
            ), tab_lookup(ps, "answer"@)) {
                (Some(pn), Some(an)) => {
                    let base = QuestionSpansV {
                        question: n.span(),
                        id: ospan(id),
                        multipart: ospan(mp),
                        answer: an.span(),
                        context: ospan(ctx),
                        prompt_md: None,
                        distractors: Seq::empty(),
                        answer_index: None,
                        sort_answers: None,
                        answer_value: None,
                        answer_items: Seq::empty(),
                        does_compile: None,
                        stdout: None,
                    };
                    if ty == "ShortAnswer"@ {
                        match (spec_decode_sa_prompt(pn), spec_decode_sa_answer(an)) {
                            (Some((pv, pmd)), Some(av)) => Some(
                                (
                                    QuestionV::ShortAnswer(
                                        QuestionFieldsV {
                                            id: oval(id),
                                            multipart: oval(mp),
                                            prompt: pv,
                                            answer: av,
                                            context: oval(ctx),
                                            prompt_explanation: oval(pe),
                                        },
                                    ),
                                    QuestionSpansV { prompt_md: Some(pmd), ..base },
                                ),
                            ),
                            _ => None,
                        }
                    } else if ty == "Tracing"@ {
                        match (spec_decode_tr_prompt(pn), spec_decode_tr_answer(an)) {
                            (Some(pv), Some((av, dcsp, outsp))) => Some(
                                (
                                    QuestionV::Tracing(
                                        QuestionFieldsV {
                                            id: oval(id),
                                            multipart: oval(mp),
                                            prompt: pv,
                                            answer: av,
                                            context: oval(ctx),
                                            prompt_explanation: oval(pe),
                                        },
                                    ),
                                    QuestionSpansV {
                                        does_compile: Some(dcsp),
                                        stdout: outsp,
                                        ..base
                                    },
                                ),
                            ),
                            _ => None,
                        }
                    } else if ty == "MultipleChoice"@ {
                        match (spec_decode_mc_prompt(pn), spec_decode_mc_answer(an)) {
                            (Some((pv, pmd, dsp, aisp, sasp)), Some((av, avsp, itemsp))) => Some(
                                (
                                    QuestionV::MultipleChoice(
                                        QuestionFieldsV {
                                            id: oval(id),
                                            multipart: oval(mp),
                                            prompt: pv,
                                            answer: av,
                                            context: oval(ctx),
                                            prompt_explanation: oval(pe),
                                        },
                                    ),
                                    QuestionSpansV {
                                        prompt_md: Some(pmd),
                                        distractors: dsp,
                                        answer_index: aisp,
                                        sort_answers: sasp,
                                        answer_value: Some(avsp),
                                        answer_items: itemsp,
                                        ..base
                                    },
                                ),
                            ),
                            _ => None,
                        }
                    } else {
                        None
                    }
                },
                _ => None,
            },
            _ => None,
        }
    }
}

/// What the elements of the question array from position `i` on decode to.
pub open spec fn questions_from(cs: Seq<SpanNodeV>, i: int) -> Option<
    (Seq<QuestionV>, Seq<QuestionSpansV>),
>
    decreases cs.len() - i,
{
    if i < 0 || i >= cs.len() {
        Some((Seq::empty(), Seq::empty()))
    } else {
        match spec_decode_question(cs[i]) {
            Some((q, s)) => match questions_from(cs, i + 1) {
                Some((qs, ss)) => Some((seq![q] + qs, seq![s] + ss)),
                None => None,
            },
            None => None,
        }
    }
}

/// What the pairs of the multipart table from position `i` on decode to:
/// key-Markdown pairs with the range of each Markdown value.
pub open spec fn multipart_from(ms: Seq<(Seq<char>, SpanNodeV)>, i: int) -> Option<
    (Seq<(Seq<char>, Seq<char>)>, Seq<Span>),
>
    decreases ms.len() - i,
{
    if i < 0 || i >= ms.len() {
        Some((Seq::empty(), Seq::empty()))
    } else {
        match ms[i].1.kind {
            SpanKindV::Str(s) => match multipart_from(ms, i + 1) {
                Some((pairs, spans)) => Some(
                    (seq![(ms[i].0, s)] + pairs, seq![ms[i].1.span()] + spans),
                ),
                None => None,
            },
            _ => None,
        }
    }
}

/// What a whole document decodes to: the typed quiz and its ranges, or
/// nothing where the document does not match the quiz schema.
pub open spec fn spec_decode(t: SpanNodeV) -> Option<(QuizV, QuizSpansV)> {
    if !(t.kind is Tab) {
        None
    } else {
        let ps = t.kind->Tab_0;
        match tab_lookup(ps, "questions"@) {
            None => None,
            Some(qn) => if !(qn.kind is Arr) {
                None
            } else {
                match questions_from(qn.kind->Arr_0, 0) {
                    None => None,
                    Some((qs, qss)) => match tab_lookup(ps, "multipart"@) {
                        None => Some(
                            (
                                QuizV { questions: qs, multipart: None },
                                QuizSpansV {
                                    root: t.span(),
                                    questions: qss,
                                    multipart: Seq::empty(),
                                },
                            ),
                        ),
                        Some(mn) => if !(mn.kind is Tab) {
                            None
                        } else {
                            match multipart_from(mn.kind->Tab_0, 0) {
                                None => None,
                                Some((pairs, spans)) => Some(
                                    (
                                        QuizV { questions: qs, multipart: Some(pairs) },
                                        QuizSpansV {
                                            root: t.span(),
                                            questions: qss,
                                            multipart: spans,
                                        },
                                    ),
                                ),
                            }
                        },
                    },
                }
            },
        }
    }
}

/// The view of an optional owned string field pair.
pub open spec fn ostr_pair_view(o: Option<(String, Span)>) -> Option<(Seq<char>, Span)> {
    match o {
        Some((v, sp)) => Some((v@, sp)),
        None => None,
    }
}

/// Why a document does not match the quiz schema; carries a short account.
pub struct DecodeFault {
    message: String,
}

impl DecodeFault {
    fn new(text: &str) -> (r: DecodeFault) {
        DecodeFault { message: String::from_str(text) }
    }

    /// A short account of the fault.
    pub fn message(&self) -> (r: &String) {
        &self.message
    }
}

/// Reads an optional string field of the table node `n`.
fn get_opt_str(n: &SpanNode, key: &str) -> (r: Result<Option<(String, Span)>, DecodeFault>)
    requires
        n@.kind is Tab,
    ensures
        match opt_str_field(n@.kind->Tab_0, key@) {
            None => r is Err,
            Some(o) => r is Ok && ostr_pair_view(r->Ok_0) == o,
        },
{
    match n.field(key) {
        Err(_) => Ok(None),
        Ok(v) => match v.as_str() {
            Ok(s) => Ok(Some((s.clone(), v.span()))),
            Err(_) => Err(DecodeFault::new("a field that must be a string is not")),
        },
    }
}

/// Reads an optional boolean field of the table node `n`.
fn get_opt_bool(n: &SpanNode, key: &str) -> (r: Result<Option<(bool, Span)>, DecodeFault>)
    requires
        n@.kind is Tab,
    ensures
        match opt_bool_field(n@.kind->Tab_0, key@) {
            None => r is Err,
            Some(o) => r is Ok && r->Ok_0 == o,
        },
{
    match n.field(key) {
        Err(_) => Ok(None),
        Ok(v) => match v.as_bool() {
            Ok(b) => Ok(Some((b, v.span()))),
            Err(_) => Err(DecodeFault::new("a field that must be a boolean is not")),
        },
    }
}

/// Reads an optional non-negative machine integer field of the table node
/// `n`.
fn get_opt_usize(n: &SpanNode, key: &str) -> (r: Result<Option<(usize, Span)>, DecodeFault>)
    requires
        n@.kind is Tab,
    ensures
        match opt_usize_field(n@.kind->Tab_0, key@) {
            None => r is Err,
            Some(o) => r is Ok && r->Ok_0 == o,
        },
{
    match n.field(key) {
        Err(_) => Ok(None),
        Ok(v) => match v.as_int() {
            Ok(i) => {
                if i >= 0 && (i as u64) <= (usize::MAX as u64) {
                    Ok(Some((i as usize, v.span())))
                } else {
                    Err(DecodeFault::new("an integer field does not fit a machine integer"))
                }
            },
            Err(_) => Err(DecodeFault::new("a field that must be an integer is not")),
        },
    }
}

/// Reads the elements of the array node list `cs` as strings with their
/// ranges.
fn decode_str_items(cs: &Vec<SpanNode>) -> (r: Result<(Vec<String>, Vec<Span>), DecodeFault>)
    ensures
        match str_items_from(crate::span_tree::nodes_view(cs@), 0) {
            None => r is Err,
            Some(items) => r is Ok && r->Ok_0.0.deep_view() == Seq::new(
                items.len(),
                |i: int| items[i].0,
            ) && r->Ok_0.1@ == Seq::new(items.len(), |i: int| items[i].1),
        },
{
    let ghost csv = crate::span_tree::nodes_view(cs@);
    proof {
        crate::span_tree::lemma_nodes_view(cs@);
    }
    let mut texts: Vec<String> = Vec::new();
    let mut spans: Vec<Span> = Vec::new();
    let mut i: usize = 0;
    while i < cs.len()
        invariant
            i <= cs@.len(),
            csv == crate::span_tree::nodes_view(cs@),
            csv.len() == cs@.len(),
            forall|j: int| 0 <= j < cs@.len() ==> csv[j] == crate::span_tree::node_view(cs@[j]),
            texts@.len() == i,
            spans@.len() == i,
            match str_items_from(csv, i as int) {
                Some(rest) => str_items_from(csv, 0) == Some(
                    Seq::new(i as nat, |j: int| (texts@[j]@, spans@[j])) + rest,
                ),
                None => str_items_from(csv, 0) is None,
            },
        decreases cs@.len() - i,
    {
        let ghost pre = Seq::new(i as nat, |j: int| (texts@[j]@, spans@[j]));
        match cs[i].as_str() {
            Ok(t) => {
                texts.push(t.clone());
                spans.push(cs[i].span());
            },
            Err(_) => {
                return Err(DecodeFault::new("an array that must hold strings does not"));
            },
        }
        i += 1;
        proof {
            let post = Seq::new(i as nat, |j: int| (texts@[j]@, spans@[j]));
            if str_items_from(csv, i as int) is Some {
                let rest = str_items_from(csv, i as int)->Some_0;
                assert(str_items_from(csv, i - 1) == Some(
                    seq![(csv[i - 1].kind->Str_0, csv[i - 1].span())] + rest,
                ));
                assert(pre + (seq![(csv[i - 1].kind->Str_0, csv[i - 1].span())] + rest) =~= post
                    + rest);
            }
        }
    }
    proof {
        assert(str_items_from(csv, i as int) == Some(Seq::<(Seq<char>, Span)>::empty()));
        let fin = Seq::new(i as nat, |j: int| (texts@[j]@, spans@[j]));
        assert(fin + Seq::<(Seq<char>, Span)>::empty() =~= fin);
        let items = str_items_from(csv, 0)->Some_0;
        assert(texts.deep_view() =~= Seq::new(items.len(), |k: int| items[k].0));
        assert(spans@ =~= Seq::new(items.len(), |k: int| items[k].1));
    }
    Ok((texts, spans))
}

/// Reads the optional response-format field of the table node `n`.
fn get_opt_response(n: &SpanNode) -> (r: Result<Option<ShortAnswerResponseFormat>, DecodeFault>)
    requires
        n@.kind is Tab,
    ensures
        match opt_response_field(n@.kind->Tab_0) {
            None => r is Err,
            Some(o) => r is Ok && r->Ok_0 == o,
        },
{
    match get_opt_str(n, "response") {
        Err(f) => Err(f),
        Ok(None) => Ok(None),
        Ok(Some((s, _))) => {
            if str_eq(s.as_str(), "short") {
                Ok(Some(ShortAnswerResponseFormat::Short))
            } else if str_eq(s.as_str(), "long") {
                Ok(Some(ShortAnswerResponseFormat::Long))
            } else if str_eq(s.as_str(), "code") {
                Ok(Some(ShortAnswerResponseFormat::Code))
            } else {
                Err(DecodeFault::new("a response format is not short, long or code"))
            }
        },
    }
}

/// Decodes a short-answer prompt table.
fn decode_sa_prompt(n: &SpanNode) -> (r: Result<(ShortAnswerPrompt, Span), DecodeFault>)
    ensures
        match spec_decode_sa_prompt(n@) {
            None => r is Err,
            Some((pv, sp)) => r is Ok && r->Ok_0.0@ == pv && r->Ok_0.1 == sp,
        },
{
    if n.as_table().is_err() {
        return Err(DecodeFault::new("a short-answer prompt is not a table"));
    }
    let (prompt, sp) = match get_opt_str(n, "prompt") {
        Err(f) => {
            return Err(f);
        },
        Ok(None) => {
            return Err(DecodeFault::new("a short-answer prompt has no prompt text"));
        },
        Ok(Some(p)) => p,
    };
    let response = match get_opt_response(n) {
        Err(f) => {
            return Err(f);
        },
        Ok(o) => o,
    };
    Ok((ShortAnswerPrompt { prompt: Markdown(prompt), response }, sp))
}

/// Decodes a short-answer answer table.
fn decode_sa_answer(n: &SpanNode) -> (r: Result<ShortAnswerAnswer, DecodeFault>)
    ensures
        match spec_decode_sa_answer(n@) {
            None => r is Err,
            Some(av) => r is Ok && r->Ok_0@ == av,
        },
{
    if n.as_table().is_err() {
        return Err(DecodeFault::new("a short-answer answer is not a table"));
    }
    let answer = match get_opt_str(n, "answer") {
        Err(f) => {
            return Err(f);
        },
        Ok(None) => {
            return Err(DecodeFault::new("a short-answer answer has no answer text"));
        },
        Ok(Some((a, _))) => a,
    };
    let alternatives = match n.field_opt("alternatives") {
        Err(_) => {
            return Err(DecodeFault::new("a short-answer answer is not a table"));
        },
        Ok(None) => None,
        Ok(Some(v)) => match v.as_array() {
            Err(_) => {
                return Err(DecodeFault::new("alternatives is not an array"));
            },
            Ok(cs) => match decode_str_items(cs) {
                Err(f) => {
                    return Err(f);
                },
                Ok((texts, _)) => Some(texts),
            },
        },
    };
    let r = ShortAnswerAnswer { answer, alternatives };
    proof {
        let av = spec_decode_sa_answer(n@)->Some_0;
        assert(r@ =~~= av);
    }
    Ok(r)
}

/// Decodes a tracing prompt table: the program text.
fn decode_tr_prompt(n: &SpanNode) -> (r: Result<TracingPrompt, DecodeFault>)
    ensures
        match spec_decode_tr_prompt(n@) {
            None => r is Err,
            Some(pv) => r is Ok && r->Ok_0@ == pv,
        },
{
    if n.as_table().is_err() {
        return Err(DecodeFault::new("a tracing prompt is not a table"));
    }
    match get_opt_str(n, "program") {
        Err(f) => Err(f),
        Ok(None) => Err(DecodeFault::new("a tracing prompt has no program")),
        Ok(Some((p, _))) => Ok(TracingPrompt { program: p }),
    }
}

/// Decodes a tracing answer table, with the ranges of its `doesCompile`
/// and `stdout` values.
fn decode_tr_answer(n: &SpanNode) -> (r: Result<(TracingAnswer, Span, Option<Span>), DecodeFault>)
    ensures
        match spec_decode_tr_answer(n@) {
            None => r is Err,
            Some((av, dcsp, outsp)) => r is Ok && r->Ok_0.0@ == av && r->Ok_0.1 == dcsp
                && r->Ok_0.2 == outsp,
        },
{
    if n.as_table().is_err() {
        return Err(DecodeFault::new("a tracing answer is not a table"));
    }
    let (does_compile, dcsp) = match get_opt_bool(n, "doesCompile") {
        Err(f) => {
            return Err(f);
        },
        Ok(None) => {
            return Err(DecodeFault::new("a tracing answer has no doesCompile"));
        },
        Ok(Some(p)) => p,
    };
    let out = match get_opt_str(n, "stdout") {
        Err(f) => {
            return Err(f);
        },
        Ok(o) => o,
    };
    let ln = match get_opt_usize(n, "lineNumber") {
        Err(f) => {
            return Err(f);
        },
        Ok(o) => o,
    };
    let (stdout, outsp) = match out {
        Some((s, sp)) => (Some(s), Some(sp)),
        None => (None, None),
    };
    let line_number = match ln {
        Some((v, _)) => Some(v),
        None => None,
    };
    Ok((TracingAnswer { does_compile, stdout, line_number }, dcsp, outsp))
}

/// Decodes a multiple-choice prompt table, with the ranges of its prompt,
/// distractors and options.
fn decode_mc_prompt(n: &SpanNode) -> (r: Result<
    (MultipleChoicePrompt, Span, Vec<Span>, Option<Span>, Option<Span>),
    DecodeFault,
>)
    ensures
        match spec_decode_mc_prompt(n@) {
            None => r is Err,
            Some((pv, pmd, dsp, aisp, sasp)) => r is Ok && r->Ok_0.0@ == pv && r->Ok_0.1 == pmd
                && r->Ok_0.2@ == dsp && r->Ok_0.3 == aisp && r->Ok_0.4 == sasp,
        },
{
    if n.as_table().is_err() {
        return Err(DecodeFault::new("a multiple-choice prompt is not a table"));
    }
    let (prompt, pmd) = match get_opt_str(n, "prompt") {
        Err(f) => {
            return Err(f);
        },
        Ok(None) => {
            return Err(DecodeFault::new("a multiple-choice prompt has no prompt text"));
        },
        Ok(Some(p)) => p,
    };
    let (texts, dspans) = match n.field_opt("distractors") {
        Err(_) => {
            return Err(DecodeFault::new("a multiple-choice prompt is not a table"));
        },
        Ok(None) => {
            return Err(DecodeFault::new("a multiple-choice prompt has no distractors"));
        },
        Ok(Some(v)) => match v.as_array() {
            Err(_) => {
                return Err(DecodeFault::new("distractors is not an array"));
            },
            Ok(cs) => match decode_str_items(cs) {
                Err(f) => {
                    return Err(f);
                },
                Ok(p) => p,
            },
        },
    };
    let ai = match get_opt_usize(n, "answerIndex") {
        Err(f) => {
            return Err(f);
        },
        Ok(o) => o,
    };
    let sa = match get_opt_bool(n, "sortAnswers") {
        Err(f) => {
            return Err(f);
        },
        Ok(o) => o,
    };
    let (answer_index, aisp) = match ai {
        Some((v, sp)) => (Some(v), Some(sp)),
        None => (None, None),
    };
    let (sort_answers, sasp) = match sa {
        Some((v, sp)) => (Some(v), Some(sp)),
        None => (None, None),
    };
    let mut distractors: Vec<Markdown> = Vec::new();
    let mut k: usize = 0;
    let ghost tv = texts.deep_view();
    while k < texts.len()
        invariant
            k <= texts@.len(),
            tv == texts.deep_view(),
            tv.len() == texts@.len(),
            distractors@.len() == k,
            forall|j: int| 0 <= j < k ==> distractors@[j]@ == tv[j],
        decreases texts@.len() - k,
    {
        proof {
            assert(texts.deep_view()[k as int] == texts@[k as int]@);
        }
        distractors.push(Markdown(texts[k].clone()));
        k += 1;
    }
    let p = MultipleChoicePrompt { prompt: Markdown(prompt), distractors, answer_index, sort_answers };
    proof {
        let (pv, pmdv, dspv, aispv, saspv) = spec_decode_mc_prompt(n@)->Some_0;
        assert(p@ =~~= pv);
        assert(dspans@ =~= dspv);
    }
    Ok((p, pmd, dspans, aisp, sasp))
}

/// Decodes a multiple-choice answer table, with the range of the inner
/// answer value and of each multi-select item.
fn decode_mc_answer(n: &SpanNode) -> (r: Result<
    (MultipleChoiceAnswer, Span, Vec<Span>),
    DecodeFault,
>)
    ensures
        match spec_decode_mc_answer(n@) {
            None => r is Err,
            Some((av, avsp, itemsp)) => r is Ok && r->Ok_0.0@ == av && r->Ok_0.1 == avsp
                && r->Ok_0.2@ == itemsp,
        },
{
    if n.as_table().is_err() {
        return Err(DecodeFault::new("a multiple-choice answer is not a table"));
    }
    let an = match n.field("answer") {
        Err(_) => {
            return Err(DecodeFault::new("a multiple-choice answer has no answer"));
        },
        Ok(v) => v,
    };
    match an.as_str() {
        Ok(s) => {
            return Ok(
                (
                    MultipleChoiceAnswer {
                        answer: MultipleChoiceAnswerFormat::Single(Markdown(s.clone())),
                    },
                    an.span(),
                    Vec::new(),
                ),
            );
        },
        Err(_) => {},
    }
    let cs = match an.as_array() {
        Err(_) => {
            return Err(DecodeFault::new("an answer is neither a string nor an array"));
        },
        Ok(cs) => cs,
    };
    let (texts, ispans) = match decode_str_items(cs) {
        Err(f) => {
            return Err(f);
        },
        Ok(p) => p,
    };
    let mut answers: Vec<Markdown> = Vec::new();
    let mut k: usize = 0;
    let ghost tv = texts.deep_view();
    while k < texts.len()
        invariant
            k <= texts@.len(),
            tv == texts.deep_view(),
            tv.len() == texts@.len(),
            answers@.len() == k,
            forall|j: int| 0 <= j < k ==> answers@[j]@ == tv[j],
        decreases texts@.len() - k,
    {
        proof {
            assert(texts.deep_view()[k as int] == texts@[k as int]@);
        }
        answers.push(Markdown(texts[k].clone()));
        k += 1;
    }
    let a = MultipleChoiceAnswer { answer: MultipleChoiceAnswerFormat::Multi(answers) };
    proof {
        let (av, avspv, itemspv) = spec_decode_mc_answer(n@)->Some_0;
        assert(a@ =~~= av);
        assert(ispans@ =~= itemspv);
    }
    Ok((a, an.span(), ispans))
}

/// Decodes one question table, with its ranges.
fn decode_question(n: &SpanNode) -> (r: Result<(Question, QuestionSpans), DecodeFault>)
    ensures
        match spec_decode_question(n@) {
            None => r is Err,
            Some((qv, sv)) => r is Ok && r->Ok_0.0@ == qv && r->Ok_0.1@ == sv,
        },
{
    if n.as_table().is_err() {
        return Err(DecodeFault::new("a question is not a table"));
    }
    let ty = match get_opt_str(n, "type") {
        Err(f) => {
            return Err(f);
        },
        Ok(None) => {
            return Err(DecodeFault::new("a question has no type"));
        },
        Ok(Some((t, _))) => t,
    };
    let id = match get_opt_str(n, "id") {
        Err(f) => {
            return Err(f);
        },
        Ok(o) => o,
    };
    let mp = match get_opt_str(n, "multipart") {
        Err(f) => {
            return Err(f);
        },
        Ok(o) => o,
    };
    let ctx = match get_opt_str(n, "context") {
        Err(f) => {
            return Err(f);
        },
        Ok(o) => o,
    };
    let pe = match get_opt_bool(n, "promptExplanation") {
        Err(f) => {
            return Err(f);
        },
        Ok(o) => o,
    };
    let pn = match n.field("prompt") {
        Err(_) => {
            return Err(DecodeFault::new("a question has no prompt"));
        },
        Ok(v) => v,
    };
    let an = match n.field("answer") {
        Err(_) => {
            return Err(DecodeFault::new("a question has no answer"));
        },
        Ok(v) => v,
    };
    let (id_val, id_sp) = match id {
        Some((v, sp)) => (Some(v), Some(sp)),
        None => (None, None),
    };
    let (mp_val, mp_sp) = match mp {
        Some((v, sp)) => (Some(v), Some(sp)),
        None => (None, None),
    };
    let (ctx_val, ctx_sp) = match ctx {
        Some((v, sp)) => (Some(Markdown(v)), Some(sp)),
        None => (None, None),
    };
    let pe_val = match pe {
        Some((v, _)) => Some(v),
        None => None,
    };
    let base = QuestionSpans {
        question: n.span(),
        id: id_sp,
        multipart: mp_sp,
        answer: an.span(),
        context: ctx_sp,
        prompt_md: None,
        distractors: Vec::new(),
        answer_index: None,
        sort_answers: None,
        answer_value: None,
        answer_items: Vec::new(),
        does_compile: None,
        stdout: None,
    };
    if str_eq(ty.as_str(), "ShortAnswer") {
        let (prompt, pmd) = match decode_sa_prompt(pn) {
            Err(f) => {
                return Err(f);
            },
            Ok(p) => p,
        };
        let answer = match decode_sa_answer(an) {
            Err(f) => {
                return Err(f);
            },
            Ok(a) => a,
        };
        let q = Question::ShortAnswer(
            ShortAnswer(
                QuestionFields {
                    id: id_val,
                    multipart: mp_val,
                    prompt,
                    answer,
                    context: ctx_val,
                    prompt_explanation: pe_val,
                },
            ),
        );
        let sp = QuestionSpans { prompt_md: Some(pmd), ..base };
        proof {
            let (qv, sv) = spec_decode_question(n@)->Some_0;
            assert(q@ =~~= qv);
            assert(sp@ =~~= sv);
        }
        Ok((q, sp))
    } else if str_eq(ty.as_str(), "Tracing") {
        let prompt = match decode_tr_prompt(pn) {
            Err(f) => {
                return Err(f);
            },
            Ok(p) => p,
        };
        let (answer, dcsp, outsp) = match decode_tr_answer(an) {
            Err(f) => {
                return Err(f);
            },
            Ok(a) => a,
        };
        let q = Question::Tracing(
            Tracing(
                QuestionFields {
                    id: id_val,
                    multipart: mp_val,
                    prompt,
                    answer,
                    context: ctx_val,
                    prompt_explanation: pe_val,
                },
            ),
        );
        let sp = QuestionSpans { does_compile: Some(dcsp), stdout: outsp, ..base };
        proof {
            let (qv, sv) = spec_decode_question(n@)->Some_0;
            assert(q@ =~~= qv);
            assert(sp@ =~~= sv);
        }
        Ok((q, sp))
    } else if str_eq(ty.as_str(), "MultipleChoice") {
        let (prompt, pmd, dspans, aisp, sasp) = match decode_mc_prompt(pn) {
            Err(f) => {
                return Err(f);
            },
            Ok(p) => p,
        };
        let (answer, avsp, ispans) = match decode_mc_answer(an) {
            Err(f) => {
                return Err(f);
            },
            Ok(a) => a,
        };
        let q = Question::MultipleChoice(
            MultipleChoice(
                QuestionFields {
                    id: id_val,
                    multipart: mp_val,
                    prompt,
                    answer,
                    context: ctx_val,
                    prompt_explanation: pe_val,
                },
            ),
        );
        let sp = QuestionSpans {
            prompt_md: Some(pmd),
            distractors: dspans,
            answer_index: aisp,
            sort_answers: sasp,
            answer_value: Some(avsp),
            answer_items: ispans,
            ..base
        };
        proof {
            let (qv, sv) = spec_decode_question(n@)->Some_0;
            assert(q@ =~~= qv);
            assert(sp@ =~~= sv);
        }
        Ok((q, sp))
    } else {
        Err(DecodeFault::new("a question type is not among the known kinds"))
    }
}

/// Decodes a whole document: the typed quiz and its ranges, or a fault
/// where the document does not match the quiz schema.
pub fn decode_quiz(t: &SpanNode) -> (r: Result<(Quiz, QuizSpans), DecodeFault>)
    ensures
        match spec_decode(t@) {
            None => r is Err,
            Some((qv, sv)) => r is Ok && r->Ok_0.0@ == qv && r->Ok_0.1@ == sv,
        },
{
    if t.as_table().is_err() {
        return Err(DecodeFault::new("the document is not a table"));
    }
    let qn = match t.field("questions") {
        Err(_) => {
            return Err(DecodeFault::new("the document has no questions"));
        },
        Ok(v) => v,
    };
    let cs = match qn.as_array() {
        Err(_) => {
            return Err(DecodeFault::new("questions is not an array"));
        },
        Ok(cs) => cs,
    };
    let ghost csv = crate::span_tree::nodes_view(cs@);
    proof {
        crate::span_tree::lemma_nodes_view(cs@);
    }
    let mut questions: Vec<Question> = Vec::new();
    let mut qspans: Vec<QuestionSpans> = Vec::new();
    let mut i: usize = 0;
    while i < cs.len()
        invariant
            i <= cs@.len(),
            t@.kind is Tab,
            tab_lookup(t@.kind->Tab_0, "questions"@) == Some(qn@),
            qn@.kind == SpanKindV::Arr(csv),
            csv == crate::span_tree::nodes_view(cs@),
            csv.len() == cs@.len(),
            forall|j: int| 0 <= j < cs@.len() ==> csv[j] == crate::span_tree::node_view(cs@[j]),
            questions@.len() == i,
            qspans@.len() == i,
            match questions_from(csv, i as int) {
                Some(rest) => questions_from(csv, 0) == Some(
                    (
                        Seq::new(i as nat, |j: int| questions@[j]@) + rest.0,
                        Seq::new(i as nat, |j: int| qspans@[j]@) + rest.1,
                    ),
                ),
                None => questions_from(csv, 0) is None,
            },
        decreases cs@.len() - i,
    {
        let ghost pre_q = Seq::new(i as nat, |j: int| questions@[j]@);
        let ghost pre_s = Seq::new(i as nat, |j: int| qspans@[j]@);
        match decode_question(&cs[i]) {
            Err(f) => {
                proof {
                    assert(spec_decode_question(csv[i as int]) is None);
                    assert(questions_from(csv, i as int) is None);
                    assert(questions_from(csv, 0) is None);
                }
                return Err(f);
            },
            Ok((q, sp)) => {
                questions.push(q);
                qspans.push(sp);
            },
        }
        i += 1;
        proof {
            let post_q = Seq::new(i as nat, |j: int| questions@[j]@);
            let post_s = Seq::new(i as nat, |j: int| qspans@[j]@);
            if questions_from(csv, i as int) is Some {
                let rest = questions_from(csv, i as int)->Some_0;
                let here = spec_decode_question(csv[i - 1])->Some_0;
                assert(questions_from(csv, i - 1) == Some(
                    (seq![here.0] + rest.0, seq![here.1] + rest.1),
                ));
                assert(pre_q + (seq![here.0] + rest.0) =~= post_q + rest.0);
                assert(pre_s + (seq![here.1] + rest.1) =~= post_s + rest.1);
            }
        }
    }
    proof {
        assert(questions_from(csv, i as int) == Some(
            (Seq::<QuestionV>::empty(), Seq::<QuestionSpansV>::empty()),
        ));
        let fin = questions_from(csv, 0)->Some_0;
        assert(fin.0 =~= Seq::new(i as nat, |j: int| questions@[j]@));
        assert(fin.1 =~= Seq::new(i as nat, |j: int| qspans@[j]@));
    }
    let mn = match t.field_opt("multipart") {
        Err(_) => {
            return Err(DecodeFault::new("the document is not a table"));
        },
        Ok(o) => o,
    };
    let (multipart, mspans) = match mn {
        None => (None, Vec::new()),
        Some(m) => {
            let ms = match m.as_table() {
                Err(_) => {
                    return Err(DecodeFault::new("multipart is not a table"));
                },
                Ok(ms) => ms,
            };
            let ghost msv = crate::span_tree::pairs_view(ms@);
            proof {
                crate::span_tree::lemma_pairs_view(ms@);
            }
            let mut pairs: Vec<(String, Markdown)> = Vec::new();
            let mut spans: Vec<Span> = Vec::new();
            let mut k: usize = 0;
            while k < ms.len()
                invariant
                    k <= ms@.len(),
                    t@.kind is Tab,
                    tab_lookup(t@.kind->Tab_0, "questions"@) == Some(qn@),
                    qn@.kind == SpanKindV::Arr(csv),
                    questions_from(csv, 0) is Some,
                    tab_lookup(t@.kind->Tab_0, "multipart"@) == Some(m@),
                    m@.kind == SpanKindV::Tab(msv),
                    msv == crate::span_tree::pairs_view(ms@),
                    msv.len() == ms@.len(),
                    forall|j: int|
                        0 <= j < ms@.len() ==> msv[j] == (
                            ms@[j].0@,
                            crate::span_tree::node_view(ms@[j].1),
                        ),
                    pairs@.len() == k,
                    spans@.len() == k,
                    match multipart_from(msv, k as int) {
                        Some(rest) => multipart_from(msv, 0) == Some(
                            (
                                Seq::new(k as nat, |j: int| (pairs@[j].0@, pairs@[j].1@)) + rest.0,
                                spans@ + rest.1,
                            ),
                        ),
                        None => multipart_from(msv, 0) is None,
                    },
                decreases ms@.len() - k,
            {
                let ghost pre_p = Seq::new(k as nat, |j: int| (pairs@[j].0@, pairs@[j].1@));
                let ghost pre_sp = spans@;
                let md = match ms[k].1.as_str() {
                    Err(_) => {
                        proof {
                            assert(!(msv[k as int].1.kind is Str));
                            assert(multipart_from(msv, k as int) is None);
                            assert(multipart_from(msv, 0) is None);
                        }
                        return Err(DecodeFault::new("a multipart value is not a string"));
                    },
                    Ok(sv) => sv.clone(),
                };
                pairs.push((ms[k].0.clone(), Markdown(md)));
                spans.push(ms[k].1.span());
                k += 1;
                proof {
                    let post_p = Seq::new(k as nat, |j: int| (pairs@[j].0@, pairs@[j].1@));
                    if multipart_from(msv, k as int) is Some {
                        let rest = multipart_from(msv, k as int)->Some_0;
                        assert(multipart_from(msv, k - 1) == Some(
                            (
                                seq![(msv[k - 1].0, msv[k - 1].1.kind->Str_0)] + rest.0,
                                seq![msv[k - 1].1.span()] + rest.1,
                            ),
                        ));
                        assert(pre_p + (seq![(msv[k - 1].0, msv[k - 1].1.kind->Str_0)] + rest.0)
                            =~= post_p + rest.0);
                        assert(pre_sp + (seq![msv[k - 1].1.span()] + rest.1) =~= spans@ + rest.1);
                    }
                }
            }
            proof {
                assert(multipart_from(msv, k as int) == Some(
                    (Seq::<(Seq<char>, Seq<char>)>::empty(), Seq::<Span>::empty()),
                ));
                let fin = multipart_from(msv, 0)->Some_0;
                assert(fin.0 =~= Seq::new(k as nat, |j: int| (pairs@[j].0@, pairs@[j].1@)));
                assert(fin.1 =~= spans@);
            }
            (Some(pairs), spans)
        },
    };
    let quiz = Quiz { questions, multipart };
    let qspans_all = QuizSpans { root: t.span(), questions: qspans, multipart: mspans };
    proof {
        let (qv, sv) = spec_decode(t@)->Some_0;
        assert(quiz@ =~~= qv);
        assert(qspans_all@ =~~= sv);
    }
    Ok((quiz, qspans_all))
}

} // verus!
