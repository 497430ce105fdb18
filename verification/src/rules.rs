//! The validation rules: what findings a quiz earns, stated exactly.  The
//! walk over the questions records, in order, precisely the fatal findings
//! that [`quiz_fatals`] names; everything else it records is a spelling
//! warning; and it grows the session's identifier set exactly as
//! [`quiz_ids_after`] says.

use vstd::prelude::*;
use vstd::seq_lib::*;
use crate::decode::{QuestionSpans, QuestionSpansV, QuizSpans, QuizSpansV};
use crate::diagnostics::{
    DiagMessage, DiagMessageV, DiagnosticV, ValidationContext, id_check_diags,
};
use crate::schema::{
    MultipleChoiceAnswerFormat, MultipleChoiceAnswerFormatV, MultipleChoicePromptV, Question,
    QuestionFields, QuestionFieldsV, QuestionV, Quiz, QuizV, TracingAnswerV,
};
use crate::session::Validated;
use crate::span_tree::Span;
use crate::spellcheck::{dict_of, md_diags, validate_markdown};
use crate::text::str_eq;
use crate::tracing_check::{TracingJob, TracingJobV, fatal1, fatal2, jobs_view, or_span};

verus! {

/// The fatal findings of a list, in order.
pub open spec fn fatals(ds: Seq<DiagnosticV>) -> Seq<DiagnosticV> {
    ds.filter(|d: DiagnosticV| d.fatal)
}

/// [`fatals`] distributes over concatenation.
pub proof fn lemma_fatals_app(a: Seq<DiagnosticV>, b: Seq<DiagnosticV>)
    ensures
        fatals(a + b) == fatals(a) + fatals(b),
{
    broadcast use Seq::filter_distributes_over_add;

}

/// A list of warnings has no fatal findings.
pub proof fn lemma_fatals_all_warnings(b: Seq<DiagnosticV>)
    requires
        forall|i: int| 0 <= i < b.len() ==> !(#[trigger] b[i]).fatal,
    ensures
        fatals(b) == Seq::<DiagnosticV>::empty(),
    decreases b.len(),
{
    reveal(Seq::filter);
    if b.len() > 0 {
        lemma_fatals_all_warnings(b.drop_last());
    }
}

/// A list of fatal findings is its own fatal part.
pub proof fn lemma_fatals_all_fatal(b: Seq<DiagnosticV>)
    requires
        forall|i: int| 0 <= i < b.len() ==> (#[trigger] b[i]).fatal,
    ensures
        fatals(b) == b,
    decreases b.len(),
{
    reveal(Seq::filter);
    if b.len() > 0 {
        lemma_fatals_all_fatal(b.drop_last());
        assert(fatals(b) =~= b);
    }
}

/// Appending warnings leaves the fatal part of everything after `n0`
/// unchanged.
pub proof fn lemma_fatals_extend_warnings(pre: Seq<DiagnosticV>, post: Seq<DiagnosticV>, n0: int)
    requires
        0 <= n0 <= pre.len() <= post.len(),
        post.take(pre.len() as int) == pre,
        forall|i: int| pre.len() <= i < post.len() ==> !(#[trigger] post[i]).fatal,
    ensures
        fatals(post.skip(n0)) == fatals(pre.skip(n0)),
{
    let seg = post.skip(pre.len() as int);
    assert(post.skip(n0) =~= pre.skip(n0) + seg);
    lemma_fatals_app(pre.skip(n0), seg);
    lemma_fatals_all_warnings(seg);
    assert(fatals(post.skip(n0)) =~= fatals(pre.skip(n0)));
}

/// Appending fatal findings appends them to the fatal part of everything
/// after `n0`.
pub proof fn lemma_fatals_extend_fatals(pre: Seq<DiagnosticV>, seg: Seq<DiagnosticV>, n0: int)
    requires
        0 <= n0 <= pre.len(),
        forall|i: int| 0 <= i < seg.len() ==> (#[trigger] seg[i]).fatal,
    ensures
        fatals((pre + seg).skip(n0)) == fatals(pre.skip(n0)) + seg,
{
    assert((pre + seg).skip(n0) =~= pre.skip(n0) + seg);
    lemma_fatals_app(pre.skip(n0), seg);
    lemma_fatals_all_fatal(seg);
}

/// The session identifier set after a question with identifier `id`.
pub open spec fn ids_after(ids: Set<Seq<char>>, id: Option<Seq<char>>) -> Set<Seq<char>> {
    match id {
        Some(i) => ids.insert(i),
        None => ids,
    }
}

/// The fatal findings the shared fields of a question earn: a duplicate
/// identifier, and a multipart key the quiz does not define.
pub open spec fn common_fatals_fields(
    id: Option<Seq<char>>,
    mp: Option<Seq<char>>,
    sp: QuestionSpansV,
    mp_keys: Set<Seq<char>>,
    ids: Set<Seq<char>>,
) -> Seq<DiagnosticV> {
    (match id {
        Some(i) => id_check_diags(ids, i, or_span(sp.id, sp.question)),
        None => Seq::empty(),
    }) + (match mp {
        Some(k) => if !mp_keys.contains(k) {
            seq![fatal1(DiagMessageV::MissingMultipart(k), or_span(sp.multipart, sp.question))]
        } else {
            Seq::empty()
        },
        None => Seq::empty(),
    })
}

/// The finding earned when the fixed answer position exceeds the number
/// of distractors.
pub open spec fn idx_seg(
    f: QuestionFieldsV<MultipleChoicePromptV, MultipleChoiceAnswerFormatV>,
    sp: QuestionSpansV,
) -> Seq<DiagnosticV> {
    match f.prompt.answer_index {
        Some(idx) => if idx > f.prompt.distractors.len() {
            seq![
                fatal1(DiagMessageV::AnswerIndexTooLarge, or_span(sp.answer_index, sp.question)),
            ]
        } else {
            Seq::empty()
        },
        None => Seq::empty(),
    }
}

/// The finding earned when both a fixed answer position and sorted
/// answers are set.
pub open spec fn both_seg(
    f: QuestionFieldsV<MultipleChoicePromptV, MultipleChoiceAnswerFormatV>,
    sp: QuestionSpansV,
) -> Seq<DiagnosticV> {
    if f.prompt.answer_index is Some && f.prompt.sort_answers is Some {
        seq![
            fatal2(
                DiagMessageV::IndexAndSort,
                or_span(sp.sort_answers, sp.question),
                or_span(sp.answer_index, sp.question),
            ),
        ]
    } else {
        Seq::empty()
    }
}

/// The finding earned by an empty multi-select answer list.
pub open spec fn multi_seg(
    f: QuestionFieldsV<MultipleChoicePromptV, MultipleChoiceAnswerFormatV>,
    sp: QuestionSpansV,
) -> Seq<DiagnosticV> {
    match f.answer {
        MultipleChoiceAnswerFormatV::Multi(v) => if v.len() == 0 {
            seq![
                fatal1(DiagMessageV::EmptyMultiAnswer, or_span(sp.answer_value, sp.answer)),
            ]
        } else {
            Seq::empty()
        },
        MultipleChoiceAnswerFormatV::Single(_) => Seq::empty(),
    }
}

/// The fatal findings a multiple-choice question earns beyond the shared
/// ones: a fixed answer position beyond the distractors, both a fixed
/// position and sorted answers, and an empty multi-select answer list.
pub open spec fn mcq_fatals(
    f: QuestionFieldsV<MultipleChoicePromptV, MultipleChoiceAnswerFormatV>,
    sp: QuestionSpansV,
) -> Seq<DiagnosticV> {
    idx_seg(f, sp) + both_seg(f, sp) + multi_seg(f, sp)
}

/// The fatal findings a question's own kind earns beyond the shared ones.
pub open spec fn variant_fatals(q: QuestionV, sp: QuestionSpansV) -> Seq<DiagnosticV> {
    match q {
        QuestionV::MultipleChoice(f) => mcq_fatals(f, sp),
        _ => Seq::empty(),
    }
}

/// All fatal findings one question earns, in the order they are recorded.
pub open spec fn question_fatals(
    q: QuestionV,
    sp: QuestionSpansV,
    mp_keys: Set<Seq<char>>,
    ids: Set<Seq<char>>,
) -> Seq<DiagnosticV> {
    common_fatals_fields(q.id(), q.multipart(), sp, mp_keys, ids) + variant_fatals(q, sp)
}

/// The verification job a tracing question hands to the caller.
pub open spec fn job_of(
    f: QuestionFieldsV<Seq<char>, TracingAnswerV>,
    sp: QuestionSpansV,
) -> TracingJobV {
    TracingJobV {
        program: f.prompt,
        does_compile: f.answer.does_compile,
        stdout: f.answer.stdout,
        question: sp.question,
        answer: sp.answer,
        does_compile_span: or_span(sp.does_compile, sp.answer),
        stdout_span: sp.stdout,
    }
}

/// The verification jobs one question hands out: one per tracing question.
pub open spec fn question_jobs(q: QuestionV, sp: QuestionSpansV) -> Seq<TracingJobV> {
    match q {
        QuestionV::Tracing(f) => seq![job_of(f, sp)],
        _ => Seq::empty(),
    }
}

/// The ranges used for a question whose ranges the document did not
/// provide.
pub open spec fn no_spans() -> QuestionSpansV {
    QuestionSpansV {
        question: Span { start: 0, end: 0 },
        id: None,
        multipart: None,
        answer: Span { start: 0, end: 0 },
        context: None,
        prompt_md: None,
        distractors: Seq::empty(),
        answer_index: None,
        sort_answers: None,
        answer_value: None,
        answer_items: Seq::empty(),
        does_compile: None,
        stdout: None,
    }
}

/// The ranges of question `i`, or the empty ranges where there are none.
pub open spec fn sp_at(sps: Seq<QuestionSpansV>, i: int) -> QuestionSpansV {
    if 0 <= i < sps.len() {
        sps[i]
    } else {
        no_spans()
    }
}

/// The session identifier set after the questions from `i` on.
pub open spec fn walk_ids(qs: Seq<QuestionV>, ids: Set<Seq<char>>, i: int) -> Set<Seq<char>>
    decreases qs.len() - i,
{
    if i < 0 || i >= qs.len() {
        ids
    } else {
        walk_ids(qs, ids_after(ids, qs[i].id()), i + 1)
    }
}

/// The fatal findings of the questions from `i` on, against the evolving
/// identifier set.
pub open spec fn walk_fatals(
    qs: Seq<QuestionV>,
    sps: Seq<QuestionSpansV>,
    mp_keys: Set<Seq<char>>,
    ids: Set<Seq<char>>,
    i: int,
) -> Seq<DiagnosticV>
    decreases qs.len() - i,
{
    if i < 0 || i >= qs.len() {
        Seq::empty()
    } else {
        question_fatals(qs[i], sp_at(sps, i), mp_keys, ids) + walk_fatals(
            qs,
            sps,
            mp_keys,
            ids_after(ids, qs[i].id()),
            i + 1,
        )
    }
}

/// The verification jobs of the questions from `i` on, in order.
pub open spec fn walk_jobs(qs: Seq<QuestionV>, sps: Seq<QuestionSpansV>, i: int) -> Seq<
    TracingJobV,
>
    decreases qs.len() - i,
{
    if i < 0 || i >= qs.len() {
        Seq::empty()
    } else {
        question_jobs(qs[i], sp_at(sps, i)) + walk_jobs(qs, sps, i + 1)
    }
}

/// All fatal findings a quiz earns at walk time: an empty question list,
/// then each question's findings in order.  Tracing findings come later,
/// from the outcomes of the quiz's jobs.
pub open spec fn quiz_fatals(quiz: QuizV, sps: QuizSpansV, ids: Set<Seq<char>>) -> Seq<
    DiagnosticV,
> {
    head_seg(quiz, sps) + walk_fatals(quiz.questions, sps.questions, quiz.multipart_keys(), ids, 0)
}

/// The session identifier set after a whole quiz.
pub open spec fn quiz_ids_after(quiz: QuizV, ids: Set<Seq<char>>) -> Set<Seq<char>> {
    walk_ids(quiz.questions, ids, 0)
}

/// The verification jobs of a whole quiz, in question order.
pub open spec fn quiz_jobs(quiz: QuizV, sps: QuizSpansV) -> Seq<TracingJobV> {
    walk_jobs(quiz.questions, sps.questions, 0)
}

/// What one optional Markdown value records: nothing where absent.
pub open spec fn opt_md_diags(
    d: Option<zspell::Dictionary>,
    m: Option<Seq<char>>,
    sp: Option<Span>,
    fallback: Span,
    contents: Seq<u8>,
) -> Seq<DiagnosticV> {
    match m {
        Some(t) => md_diags(d, t, or_span(sp, fallback), contents),
        None => Seq::empty(),
    }
}

/// The warnings of a list of Markdown values paired with their ranges,
/// from position `i` on; values beyond the shorter list are passed over,
/// as a zip does.
pub open spec fn zip_md_diags(
    d: Option<zspell::Dictionary>,
    ms: Seq<Seq<char>>,
    sps: Seq<Span>,
    contents: Seq<u8>,
    i: int,
) -> Seq<DiagnosticV>
    decreases ms.len() - i,
{
    if i < 0 || i >= ms.len() || i >= sps.len() {
        Seq::empty()
    } else {
        md_diags(d, ms[i], sps[i], contents) + zip_md_diags(d, ms, sps, contents, i + 1)
    }
}

/// Everything a multiple-choice question's prompt and answer record, in
/// order: the prompt's and each distractor's spelling warnings, the two
/// option rules, the answer-shape rule, and the answer text's warnings.
pub open spec fn mcq_diags(
    f: QuestionFieldsV<MultipleChoicePromptV, MultipleChoiceAnswerFormatV>,
    sp: QuestionSpansV,
    d: Option<zspell::Dictionary>,
    contents: Seq<u8>,
) -> Seq<DiagnosticV> {
    md_diags(d, f.prompt.prompt, or_span(sp.prompt_md, sp.question), contents) + zip_md_diags(
        d,
        f.prompt.distractors,
        sp.distractors,
        contents,
        0,
    ) + idx_seg(f, sp) + both_seg(f, sp) + mcq_answer_diags(f, sp, d, contents)
}

/// What a multiple-choice answer records: a single answer's spelling
/// warnings, or the answer-shape rule and then each multi-select item's
/// warnings.
pub open spec fn mcq_answer_diags(
    f: QuestionFieldsV<MultipleChoicePromptV, MultipleChoiceAnswerFormatV>,
    sp: QuestionSpansV,
    d: Option<zspell::Dictionary>,
    contents: Seq<u8>,
) -> Seq<DiagnosticV> {
    match f.answer {
        MultipleChoiceAnswerFormatV::Single(m) => md_diags(
            d,
            m,
            or_span(sp.answer_value, sp.answer),
            contents,
        ),
        MultipleChoiceAnswerFormatV::Multi(v) => multi_seg(f, sp) + zip_md_diags(
            d,
            v,
            sp.answer_items,
            contents,
            0,
        ),
    }
}

/// Everything one question records, in order: the shared-field findings,
/// then its kind's own findings — for every kind the prompt and answer are
/// validated against their ranges, and the context, where present, is
/// spellchecked last.
pub open spec fn question_diags(
    q: QuestionV,
    sp: QuestionSpansV,
    mp_keys: Set<Seq<char>>,
    ids: Set<Seq<char>>,
    d: Option<zspell::Dictionary>,
    contents: Seq<u8>,
) -> Seq<DiagnosticV> {
    common_fatals_fields(q.id(), q.multipart(), sp, mp_keys, ids) + (match q {
        QuestionV::ShortAnswer(f) => md_diags(
            d,
            f.prompt.prompt,
            or_span(sp.prompt_md, sp.question),
            contents,
        ) + opt_md_diags(d, f.context, sp.context, sp.question, contents),
        QuestionV::Tracing(f) => opt_md_diags(d, f.context, sp.context, sp.question, contents),
        QuestionV::MultipleChoice(f) => mcq_diags(f, sp, d, contents) + opt_md_diags(
            d,
            f.context,
            sp.context,
            sp.question,
            contents,
        ),
    })
}

/// Everything the questions from `i` on record, against the evolving
/// identifier set.
pub open spec fn walk_diags(
    qs: Seq<QuestionV>,
    sps: Seq<QuestionSpansV>,
    mp_keys: Set<Seq<char>>,
    ids: Set<Seq<char>>,
    d: Option<zspell::Dictionary>,
    contents: Seq<u8>,
    i: int,
) -> Seq<DiagnosticV>
    decreases qs.len() - i,
{
    if i < 0 || i >= qs.len() {
        Seq::empty()
    } else {
        question_diags(qs[i], sp_at(sps, i), mp_keys, ids, d, contents) + walk_diags(
            qs,
            sps,
            mp_keys,
            ids_after(ids, qs[i].id()),
            d,
            contents,
            i + 1,
        )
    }
}

/// The warnings of the multipart context blocks from `k` on, each checked
/// at its value's range.
pub open spec fn multipart_diags(
    d: Option<zspell::Dictionary>,
    pairs: Seq<(Seq<char>, Seq<char>)>,
    sps: Seq<Span>,
    root: Span,
    contents: Seq<u8>,
    k: int,
) -> Seq<DiagnosticV>
    decreases pairs.len() - k,
{
    if k < 0 || k >= pairs.len() {
        Seq::empty()
    } else {
        md_diags(d, pairs[k].1, if k < sps.len() {
            sps[k]
        } else {
            root
        }, contents) + multipart_diags(d, pairs, sps, root, contents, k + 1)
    }
}

/// The finding earned by a quiz with no questions.
pub open spec fn head_seg(quiz: QuizV, sps: QuizSpansV) -> Seq<DiagnosticV> {
    if quiz.questions.len() == 0 {
        seq![fatal1(DiagMessageV::EmptyQuiz, sps.root)]
    } else {
        Seq::empty()
    }
}

/// Everything a whole quiz records at walk time, in order: the
/// non-empty-questions rule, every question's findings, then the warnings
/// of every multipart context block.  The tracing findings come later,
/// from the outcomes of the quiz's jobs.
pub open spec fn quiz_diags(
    quiz: QuizV,
    sps: QuizSpansV,
    ids: Set<Seq<char>>,
    d: Option<zspell::Dictionary>,
    contents: Seq<u8>,
) -> Seq<DiagnosticV> {
    head_seg(quiz, sps) + walk_diags(
        quiz.questions,
        sps.questions,
        quiz.multipart_keys(),
        ids,
        d,
        contents,
        0,
    ) + (match quiz.multipart {
        Some(pairs) => multipart_diags(d, pairs, sps.multipart, sps.root, contents, 0),
        None => Seq::empty(),
    })
}

/// A range, or a fallback where it is absent.
pub fn or_span_x(o: &Option<Span>, d: Span) -> (r: Span)
    ensures
        r == or_span(*o, d),
{
    match o {
        Some(s) => *s,
        None => d,
    }
}

/// Whether the quiz defines `key` in its multipart mapping.
pub fn multipart_contains(quiz: &Quiz, key: &str) -> (r: bool)
    ensures
        r == quiz@.multipart_keys().contains(key@),
{
    match &quiz.multipart {
        None => false,
        Some(pairs) => {
            let ghost pv = quiz@.multipart->Some_0;
            let mut i: usize = 0;
            while i < pairs.len()
                invariant
                    i <= pairs@.len(),
                    quiz@.multipart == Some(pv),
                    pv.len() == pairs@.len(),
                    forall|j: int| 0 <= j < pv.len() ==> pv[j] == (pairs@[j].0@, pairs@[j].1@),
                    forall|j: int| 0 <= j < i ==> pv[j].0 != key@,
                decreases pairs@.len() - i,
            {
                if str_eq(pairs[i].0.as_str(), key) {
                    proof {
                        assert(pv[i as int].0 == key@);
                        assert(quiz@.multipart_keys().contains(key@));
                    }
                    return true;
                }
                i += 1;
            }
            proof {
                assert forall|k: int| 0 <= k < pv.len() implies pv[k].0 != key@ by {}
                assert(!quiz@.multipart_keys().contains(key@));
            }
            false
        },
    }
}

/// Checks the fields every question shares: routes the identifier through
/// the session-wide set and confirms the multipart key against the quiz.
fn validate_common<Prompt: View, Answer: View>(
    f: &QuestionFields<Prompt, Answer>,
    sp: &QuestionSpans,
    quiz: &Quiz,
    cx: &mut ValidationContext,
    session: &mut Validated,
)
    ensures
        final(cx)@.diags == old(cx)@.diags + common_fatals_fields(
            f@.id,
            f@.multipart,
            sp@,
            quiz@.multipart_keys(),
            old(session)@.ids,
        ),
        final(cx)@.path == old(cx)@.path,
        final(cx)@.contents == old(cx)@.contents,
        final(session)@.ids == ids_after(old(session)@.ids, f@.id),
        final(session)@.paths == old(session)@.paths,
{
    match &f.id {
        Some(id) => {
            let spn = or_span_x(&sp.id, sp.question);
            cx.check_id(session, id.as_str(), spn);
        },
        None => {},
    }
    match &f.multipart {
        Some(mp) => {
            if !multipart_contains(quiz, mp.as_str()) {
                let mut spans: Vec<Span> = Vec::new();
                spans.push(or_span_x(&sp.multipart, sp.question));
                cx.error(DiagMessage::MissingMultipart(mp.clone()), spans);
            }
        },
        None => {},
    }
    proof {
        assert(final(cx)@.diags =~= old(cx)@.diags + common_fatals_fields(
            f@.id,
            f@.multipart,
            sp@,
            quiz@.multipart_keys(),
            old(session)@.ids,
        ));
    }
}

/// After appending warnings, the prefix below `n0` and the fatal part are
/// untouched, and every entry since `n0` is fatal or a spelling finding.
proof fn lemma_after_warnings(pre: Seq<DiagnosticV>, post: Seq<DiagnosticV>, n0: int)
    requires
        0 <= n0 <= pre.len() <= post.len(),
        post.take(pre.len() as int) == pre,
        forall|i: int|
            pre.len() <= i < post.len() ==> (!(#[trigger] post[i]).fatal && post[i].message
                is Spelling),
        forall|i: int|
            n0 <= i < pre.len() ==> ((#[trigger] pre[i]).fatal || pre[i].message is Spelling),
    ensures
        post.take(n0) == pre.take(n0),
        fatals(post.skip(n0)) == fatals(pre.skip(n0)),
        forall|i: int|
            n0 <= i < post.len() ==> ((#[trigger] post[i]).fatal || post[i].message is Spelling),
{
    assert forall|i: int| 0 <= i < pre.len() implies post[i] == pre[i] by {
        assert(post.take(pre.len() as int)[i] == post[i]);
    }
    assert(post.take(n0) =~= pre.take(n0));
    lemma_fatals_extend_warnings(pre, post, n0);
}

/// After appending fatal findings, the prefix below `n0` is untouched,
/// the findings join the fatal part, and every entry since `n0` is fatal
/// or a spelling finding.
proof fn lemma_after_fatals(pre: Seq<DiagnosticV>, seg: Seq<DiagnosticV>, n0: int)
    requires
        0 <= n0 <= pre.len(),
        forall|i: int| 0 <= i < seg.len() ==> (#[trigger] seg[i]).fatal,
        forall|i: int|
            n0 <= i < pre.len() ==> ((#[trigger] pre[i]).fatal || pre[i].message is Spelling),
    ensures
        (pre + seg).take(n0) == pre.take(n0),
        fatals((pre + seg).skip(n0)) == fatals(pre.skip(n0)) + seg,
        forall|i: int|
            n0 <= i < (pre + seg).len() ==> ((#[trigger] (pre + seg)[i]).fatal || (pre
                + seg)[i].message is Spelling),
{
    assert((pre + seg).take(n0) =~= pre.take(n0));
    lemma_fatals_extend_fatals(pre, seg, n0);
}

/// Validates one question: the shared fields against the session and the
/// quiz, the kind's own rules, the Markdown prose, and, for a tracing
/// question, hands out one verification job.  Records exactly the
/// findings [`question_diags`] names — the fatal ones of
/// [`question_fatals`] interleaved with the prose's spelling warnings.
pub fn validate_question(
    q: &Question,
    sp: &QuestionSpans,
    quiz: &Quiz,
    cx: &mut ValidationContext,
    session: &mut Validated,
    dict: Option<&zspell::Dictionary>,
    jobs: &mut Vec<TracingJob>,
)
    ensures
        final(cx)@.diags == old(cx)@.diags + question_diags(
            q@,
            sp@,
            quiz@.multipart_keys(),
            old(session)@.ids,
            dict_of(dict),
            old(cx)@.contents,
        ),
        final(cx)@.diags.len() >= old(cx)@.diags.len(),
        final(cx)@.diags.take(old(cx)@.diags.len() as int) == old(cx)@.diags,
        fatals(final(cx)@.diags.skip(old(cx)@.diags.len() as int)) == question_fatals(
            q@,
            sp@,
            quiz@.multipart_keys(),
            old(session)@.ids,
        ),
        forall|i: int|
            old(cx)@.diags.len() <= i < final(cx)@.diags.len()
                ==> ((#[trigger] final(cx)@.diags[i]).fatal
                || final(cx)@.diags[i].message is Spelling),
        final(cx)@.path == old(cx)@.path,
        final(cx)@.contents == old(cx)@.contents,
        final(session)@.ids == ids_after(old(session)@.ids, q@.id()),
        final(session)@.paths == old(session)@.paths,
        jobs_view(final(jobs)@) == jobs_view(old(jobs)@) + question_jobs(q@, sp@),
{
    let ghost n0 = old(cx)@.diags.len() as int;
    let ghost ids0 = old(session)@.ids;
    let ghost keys = quiz@.multipart_keys();
    proof {
        assert(old(cx)@.diags.skip(n0) =~= Seq::<DiagnosticV>::empty());
        lemma_fatals_all_fatal(Seq::<DiagnosticV>::empty());
    }
    match q {
        Question::ShortAnswer(sa) => {
            let ghost dv = dict_of(dict);
            let ghost cv = old(cx)@.contents;
            let ghost common = common_fatals_fields(sa.0@.id, sa.0@.multipart, sp@, keys, ids0);
            validate_common(&sa.0, sp, quiz, cx, session);
            let ghost a1 = cx@.diags;
            proof {
                lemma_after_fatals(old(cx)@.diags, common, n0);
            }
            let ghost pseg = md_diags(dv, sa.0@.prompt.prompt, or_span(sp@.prompt_md, sp@.question), cv);
            validate_markdown(&sa.0.prompt.prompt, or_span_x(&sp.prompt_md, sp.question), cx, dict);
            proof {
                lemma_after_warnings(a1, cx@.diags, n0);
                assert(cx@.diags =~~= old(cx)@.diags + (common + pseg));
            }
            let ghost a2 = cx@.diags;
            let ghost ctxseg = opt_md_diags(dv, sa.0@.context, sp@.context, sp@.question, cv);
            match &sa.0.context {
                Some(c) => {
                    validate_markdown(c, or_span_x(&sp.context, sp.question), cx, dict);
                    proof {
                        lemma_after_warnings(a2, cx@.diags, n0);
                        assert(cx@.diags =~~= a2 + ctxseg);
                    }
                },
                None => {
                    proof {
                        assert(cx@.diags =~= a2 + ctxseg);
                    }
                },
            }
            proof {
                assert(fatals(cx@.diags.skip(n0)) =~= question_fatals(q@, sp@, keys, ids0));
                assert(cx@.diags.take(n0) =~= old(cx)@.diags);
                assert(cx@.diags =~~= old(cx)@.diags + (common + (pseg + ctxseg)));
                assert(cx@.diags =~~= old(cx)@.diags + question_diags(
                    q@,
                    sp@,
                    keys,
                    ids0,
                    dv,
                    cv,
                ));
                assert(jobs_view(jobs@) =~= jobs_view(old(jobs)@) + question_jobs(q@, sp@));
            }
        },
        Question::Tracing(tr) => {
            let ghost dv = dict_of(dict);
            let ghost cv = old(cx)@.contents;
            let ghost common = common_fatals_fields(tr.0@.id, tr.0@.multipart, sp@, keys, ids0);
            validate_common(&tr.0, sp, quiz, cx, session);
            let ghost a1 = cx@.diags;
            proof {
                lemma_after_fatals(old(cx)@.diags, common, n0);
            }
            let stdout = match &tr.0.answer.stdout {
                Some(s) => Some(s.clone()),
                None => None,
            };
            jobs.push(
                TracingJob {
                    program: tr.0.prompt.program.clone(),
                    does_compile: tr.0.answer.does_compile,
                    stdout,
                    question: sp.question,
                    answer: sp.answer,
                    does_compile_span: or_span_x(&sp.does_compile, sp.answer),
                    stdout_span: sp.stdout,
                },
            );
            proof {
                assert(jobs_view(jobs@) =~~= jobs_view(old(jobs)@) + question_jobs(q@, sp@));
            }
            let ghost ctxseg = opt_md_diags(dv, tr.0@.context, sp@.context, sp@.question, cv);
            match &tr.0.context {
                Some(c) => {
                    validate_markdown(c, or_span_x(&sp.context, sp.question), cx, dict);
                    proof {
                        lemma_after_warnings(a1, cx@.diags, n0);
                        assert(cx@.diags =~~= a1 + ctxseg);
                    }
                },
                None => {
                    proof {
                        assert(cx@.diags =~= a1 + ctxseg);
                    }
                },
            }
            proof {
                assert(fatals(cx@.diags.skip(n0)) =~= question_fatals(q@, sp@, keys, ids0));
                assert(cx@.diags.take(n0) =~= old(cx)@.diags);
                assert(cx@.diags =~~= old(cx)@.diags + (common + ctxseg));
                assert(cx@.diags =~~= old(cx)@.diags + question_diags(
                    q@,
                    sp@,
                    keys,
                    ids0,
                    dv,
                    cv,
                ));
            }
        },
        Question::MultipleChoice(mc) => {
            validate_mcq(mc, sp, quiz, cx, session, dict);
            proof {
                assert(jobs_view(jobs@) =~= jobs_view(old(jobs)@) + question_jobs(q@, sp@));
            }
        },
    }
}

/// Validates one multiple-choice question: the shared fields, the prompt
/// and its distractors, the option rules, and the answer.  Records exactly
/// the fatal findings of [`question_fatals`] for this question, plus
/// spelling warnings.
fn validate_mcq(
    mc: &crate::schema::MultipleChoice,
    sp: &QuestionSpans,
    quiz: &Quiz,
    cx: &mut ValidationContext,
    session: &mut Validated,
    dict: Option<&zspell::Dictionary>,
)
    ensures
        final(cx)@.diags == old(cx)@.diags + question_diags(
            QuestionV::MultipleChoice(mc.0@),
            sp@,
            quiz@.multipart_keys(),
            old(session)@.ids,
            dict_of(dict),
            old(cx)@.contents,
        ),
        final(cx)@.diags.len() >= old(cx)@.diags.len(),
        final(cx)@.diags.take(old(cx)@.diags.len() as int) == old(cx)@.diags,
        fatals(final(cx)@.diags.skip(old(cx)@.diags.len() as int)) == question_fatals(
            QuestionV::MultipleChoice(mc.0@),
            sp@,
            quiz@.multipart_keys(),
            old(session)@.ids,
        ),
        forall|i: int|
            old(cx)@.diags.len() <= i < final(cx)@.diags.len()
                ==> ((#[trigger] final(cx)@.diags[i]).fatal
                || final(cx)@.diags[i].message is Spelling),
        final(cx)@.path == old(cx)@.path,
        final(cx)@.contents == old(cx)@.contents,
        final(session)@.ids == ids_after(old(session)@.ids, mc.0@.id),
        final(session)@.paths == old(session)@.paths,
{
    let ghost n0 = old(cx)@.diags.len() as int;
    let ghost ids0 = old(session)@.ids;
    let ghost keys = quiz@.multipart_keys();
    proof {
        assert(old(cx)@.diags.skip(n0) =~= Seq::<DiagnosticV>::empty());
        lemma_fatals_all_fatal(Seq::<DiagnosticV>::empty());
    }
    let ghost common = common_fatals_fields(mc.0@.id, mc.0@.multipart, sp@, keys, ids0);
    validate_common(&mc.0, sp, quiz, cx, session);
    let ghost a1 = cx@.diags;
    proof {
        lemma_after_fatals(old(cx)@.diags, common, n0);
    }
    let ghost dv = dict_of(dict);
    let ghost cv = old(cx)@.contents;
    let ghost mseg = mcq_fatals(mc.0@, sp@);
    validate_mcq_checks(mc, sp, cx, dict);
    proof {
        lemma_compose_segments(a1, cx@.diags, n0, mseg);
        assert(cx@.diags =~~= old(cx)@.diags + (common + mcq_diags(mc.0@, sp@, dv, cv)));
    }
    let ghost a2 = cx@.diags;
    let ghost ctxseg = opt_md_diags(dv, mc.0@.context, sp@.context, sp@.question, cv);
    match &mc.0.context {
        Some(c) => {
            validate_markdown(c, or_span_x(&sp.context, sp.question), cx, dict);
            proof {
                lemma_after_warnings(a2, cx@.diags, n0);
                assert(cx@.diags =~~= a2 + ctxseg);
            }
        },
        None => {
            proof {
                assert(cx@.diags =~= a2 + ctxseg);
            }
        },
    }
    proof {
        assert(fatals(cx@.diags.skip(n0)) =~= question_fatals(
            QuestionV::MultipleChoice(mc.0@),
            sp@,
            keys,
            ids0,
        ));
        assert(cx@.diags.take(n0) =~= old(cx)@.diags);
        assert(cx@.diags =~~= old(cx)@.diags + (common + (mcq_diags(mc.0@, sp@, dv, cv)
            + ctxseg)));
        assert(cx@.diags =~~= old(cx)@.diags + question_diags(
            QuestionV::MultipleChoice(mc.0@),
            sp@,
            keys,
            ids0,
            dv,
            cv,
        ));
    }
}

/// A grown list whose new fatal part is `seg` extends the fatal part
/// after `n0` by `seg`, and keeps the prefix and shape.
proof fn lemma_compose_segments(
    pre: Seq<DiagnosticV>,
    post: Seq<DiagnosticV>,
    n0: int,
    seg: Seq<DiagnosticV>,
)
    requires
        0 <= n0 <= pre.len() <= post.len(),
        post.take(pre.len() as int) == pre,
        fatals(post.skip(pre.len() as int)) == seg,
        forall|i: int|
            pre.len() <= i < post.len() ==> ((#[trigger] post[i]).fatal || post[i].message
                is Spelling),
        forall|i: int|
            n0 <= i < pre.len() ==> ((#[trigger] pre[i]).fatal || pre[i].message is Spelling),
    ensures
        post.take(n0) == pre.take(n0),
        fatals(post.skip(n0)) == fatals(pre.skip(n0)) + seg,
        forall|i: int|
            n0 <= i < post.len() ==> ((#[trigger] post[i]).fatal || post[i].message is Spelling),
{
    assert forall|i: int| 0 <= i < pre.len() implies post[i] == pre[i] by {
        assert(post.take(pre.len() as int)[i] == post[i]);
    }
    assert(post.take(n0) =~= pre.take(n0));
    let tail = post.skip(pre.len() as int);
    assert(post.skip(n0) =~= pre.skip(n0) + tail);
    lemma_fatals_app(pre.skip(n0), tail);
}

/// Validates the answer of one multiple-choice question: its shape rule
/// and its text as Markdown.  Records exactly the findings
/// [`mcq_answer_diags`] names.
fn validate_mcq_answer(
    mc: &crate::schema::MultipleChoice,
    sp: &QuestionSpans,
    cx: &mut ValidationContext,
    dict: Option<&zspell::Dictionary>,
)
    ensures
        final(cx)@.diags == old(cx)@.diags + mcq_answer_diags(
            mc.0@,
            sp@,
            dict_of(dict),
            old(cx)@.contents,
        ),
        final(cx)@.diags.len() >= old(cx)@.diags.len(),
        final(cx)@.diags.take(old(cx)@.diags.len() as int) == old(cx)@.diags,
        fatals(final(cx)@.diags.skip(old(cx)@.diags.len() as int)) == multi_seg(mc.0@, sp@),
        forall|i: int|
            old(cx)@.diags.len() <= i < final(cx)@.diags.len()
                ==> ((#[trigger] final(cx)@.diags[i]).fatal
                || final(cx)@.diags[i].message is Spelling),
        final(cx)@.path == old(cx)@.path,
        final(cx)@.contents == old(cx)@.contents,
{
    let ghost n0 = old(cx)@.diags.len() as int;
    let ghost dv = dict_of(dict);
    let ghost cv = old(cx)@.contents;
    proof {
        assert(old(cx)@.diags.skip(n0) =~= Seq::<DiagnosticV>::empty());
        lemma_fatals_all_fatal(Seq::<DiagnosticV>::empty());
    }
    match &mc.0.answer.answer {
        MultipleChoiceAnswerFormat::Single(m) => {
            validate_markdown(m, or_span_x(&sp.answer_value, sp.answer), cx, dict);
            proof {
                lemma_after_warnings(old(cx)@.diags, cx@.diags, n0);
                assert(fatals(cx@.diags.skip(n0)) =~= multi_seg(mc.0@, sp@));
                assert(cx@.diags =~~= old(cx)@.diags + md_diags(
                    dv,
                    mc.0@.answer->Single_0,
                    or_span(sp@.answer_value, sp@.answer),
                    cv,
                ));
                assert(cx@.diags =~~= old(cx)@.diags + mcq_answer_diags(mc.0@, sp@, dv, cv));
            }
        },
        MultipleChoiceAnswerFormat::Multi(answers) => {
            let ghost mseg = multi_seg(mc.0@, sp@);
            if answers.len() == 0 {
                let mut spans: Vec<Span> = Vec::new();
                spans.push(or_span_x(&sp.answer_value, sp.answer));
                cx.error(DiagMessage::EmptyMultiAnswer, spans);
            }
            proof {
                assert(cx@.diags =~~= old(cx)@.diags + mseg);
                lemma_after_fatals(old(cx)@.diags, mseg, n0);
            }
            let ghost a6 = cx@.diags;
            let ghost av = mc.0@.answer->Multi_0;
            let an = if answers.len() <= sp.answer_items.len() {
                answers.len()
            } else {
                sp.answer_items.len()
            };
            let mut ai: usize = 0;
            while ai < an
                invariant
                    ai <= an,
                    an <= answers@.len(),
                    an <= sp.answer_items@.len(),
                    an == answers@.len() || an == sp.answer_items@.len(),
                    mc.0@.answer == MultipleChoiceAnswerFormatV::Multi(av),
                    av.len() == answers@.len(),
                    forall|j: int| 0 <= j < av.len() ==> #[trigger] av[j] == answers@[j]@,
                    dv == dict_of(dict),
                    cv == old(cx)@.contents,
                    0 <= n0 <= a6.len() <= cx@.diags.len(),
                    cx@.diags + zip_md_diags(dv, av, sp@.answer_items, cv, ai as int) == a6
                        + zip_md_diags(dv, av, sp@.answer_items, cv, 0),
                    cx@.diags.take(a6.len() as int) == a6,
                    forall|i: int|
                        a6.len() <= i < cx@.diags.len() ==> (!(
                        #[trigger] cx@.diags[i]).fatal && cx@.diags[i].message
                            is Spelling),
                    forall|i: int|
                        n0 <= i < a6.len() ==> ((#[trigger] a6[i]).fatal || a6[i].message
                            is Spelling),
                    cx@.path == old(cx)@.path,
                    cx@.contents == old(cx)@.contents,
                decreases an - ai,
            {
                let ghost b = cx@.diags;
                validate_markdown(&answers[ai], sp.answer_items[ai], cx, dict);
                proof {
                    assert(cx@.diags =~~= b + md_diags(
                        dv,
                        av[ai as int],
                        sp@.answer_items[ai as int],
                        cv,
                    ));
                    assert(zip_md_diags(dv, av, sp@.answer_items, cv, ai as int) == md_diags(
                        dv,
                        av[ai as int],
                        sp@.answer_items[ai as int],
                        cv,
                    ) + zip_md_diags(dv, av, sp@.answer_items, cv, ai + 1));
                    assert(cx@.diags + zip_md_diags(dv, av, sp@.answer_items, cv, ai + 1) =~= b
                        + zip_md_diags(dv, av, sp@.answer_items, cv, ai as int));
                    assert forall|i: int|
                        a6.len() <= i < cx@.diags.len() implies (!(
                    #[trigger] cx@.diags[i]).fatal && cx@.diags[i].message is Spelling) by {
                        if i < b.len() {
                            assert(cx@.diags.take(b.len() as int)[i] == cx@.diags[i]);
                        }
                    }
                    assert(cx@.diags.take(a6.len() as int) =~= a6);
                }
                ai += 1;
            }
            proof {
                lemma_after_warnings(a6, cx@.diags, n0);
                assert(fatals(cx@.diags.skip(n0)) =~= multi_seg(mc.0@, sp@));
                assert(zip_md_diags(dv, av, sp@.answer_items, cv, ai as int)
                    =~= Seq::<DiagnosticV>::empty());
                assert(cx@.diags + Seq::<DiagnosticV>::empty() =~= cx@.diags);
                assert(cx@.diags =~~= a6 + zip_md_diags(dv, av, sp@.answer_items, cv, 0));
                assert(cx@.diags =~~= old(cx)@.diags + (mseg + zip_md_diags(
                    dv,
                    av,
                    sp@.answer_items,
                    cv,
                    0,
                )));
                assert(cx@.diags =~~= old(cx)@.diags + mcq_answer_diags(mc.0@, sp@, dv, cv));
            }
        },
    }
}

/// Validates the prompt and the answer of one multiple-choice question:
/// the prompt and each distractor as Markdown, the two option rules, and
/// the answer's shape.  Records exactly the findings [`mcq_diags`] names.
fn validate_mcq_checks(
    mc: &crate::schema::MultipleChoice,
    sp: &QuestionSpans,
    cx: &mut ValidationContext,
    dict: Option<&zspell::Dictionary>,
)
    ensures
        final(cx)@.diags == old(cx)@.diags + mcq_diags(
            mc.0@,
            sp@,
            dict_of(dict),
            old(cx)@.contents,
        ),
        final(cx)@.diags.len() >= old(cx)@.diags.len(),
        final(cx)@.diags.take(old(cx)@.diags.len() as int) == old(cx)@.diags,
        fatals(final(cx)@.diags.skip(old(cx)@.diags.len() as int)) == mcq_fatals(mc.0@, sp@),
        forall|i: int|
            old(cx)@.diags.len() <= i < final(cx)@.diags.len()
                ==> ((#[trigger] final(cx)@.diags[i]).fatal
                || final(cx)@.diags[i].message is Spelling),
        final(cx)@.path == old(cx)@.path,
        final(cx)@.contents == old(cx)@.contents,
{
    let ghost n0 = old(cx)@.diags.len() as int;
    let ghost dv = dict_of(dict);
    let ghost cv = old(cx)@.contents;
    proof {
        assert(old(cx)@.diags.skip(n0) =~= Seq::<DiagnosticV>::empty());
        lemma_fatals_all_fatal(Seq::<DiagnosticV>::empty());
    }
    let ghost m1 = md_diags(dv, mc.0@.prompt.prompt, or_span(sp@.prompt_md, sp@.question), cv);
    validate_markdown(&mc.0.prompt.prompt, or_span_x(&sp.prompt_md, sp.question), cx, dict);
    proof {
        lemma_after_warnings(old(cx)@.diags, cx@.diags, n0);
        assert(cx@.diags =~~= old(cx)@.diags + m1);
    }
    let ghost a2 = cx@.diags;
    let dn = if mc.0.prompt.distractors.len() <= sp.distractors.len() {
        mc.0.prompt.distractors.len()
    } else {
        sp.distractors.len()
    };
    let mut di: usize = 0;
    while di < dn
        invariant
            di <= dn,
            dn <= mc.0.prompt.distractors@.len(),
            dn <= sp.distractors@.len(),
            dn == mc.0.prompt.distractors@.len() || dn == sp.distractors@.len(),
            dv == dict_of(dict),
            cv == old(cx)@.contents,
            0 <= n0 <= a2.len() <= cx@.diags.len(),
            cx@.diags + zip_md_diags(
                dv,
                mc.0@.prompt.distractors,
                sp@.distractors,
                cv,
                di as int,
            ) == a2 + zip_md_diags(dv, mc.0@.prompt.distractors, sp@.distractors, cv, 0),
            cx@.diags.take(a2.len() as int) == a2,
            forall|i: int|
                a2.len() <= i < cx@.diags.len() ==> (!(#[trigger] cx@.diags[i]).fatal
                    && cx@.diags[i].message is Spelling),
            forall|i: int|
                n0 <= i < a2.len() ==> ((#[trigger] a2[i]).fatal || a2[i].message
                    is Spelling),
            cx@.path == old(cx)@.path,
            cx@.contents == old(cx)@.contents,
        decreases dn - di,
    {
        let ghost b = cx@.diags;
        validate_markdown(&mc.0.prompt.distractors[di], sp.distractors[di], cx, dict);
        proof {
            assert(mc.0@.prompt.distractors[di as int] == mc.0.prompt.distractors@[di as int]@);
            assert(cx@.diags =~~= b + md_diags(
                dv,
                mc.0@.prompt.distractors[di as int],
                sp@.distractors[di as int],
                cv,
            ));
            assert(zip_md_diags(dv, mc.0@.prompt.distractors, sp@.distractors, cv, di as int)
                == md_diags(dv, mc.0@.prompt.distractors[di as int], sp@.distractors[di as int], cv)
                + zip_md_diags(dv, mc.0@.prompt.distractors, sp@.distractors, cv, di + 1));
            assert(cx@.diags + zip_md_diags(
                dv,
                mc.0@.prompt.distractors,
                sp@.distractors,
                cv,
                di + 1,
            ) =~= b + zip_md_diags(dv, mc.0@.prompt.distractors, sp@.distractors, cv, di as int));
            assert forall|i: int| a2.len() <= i < cx@.diags.len() implies (!(
            #[trigger] cx@.diags[i]).fatal && cx@.diags[i].message is Spelling) by {
                if i < b.len() {
                    assert(cx@.diags.take(b.len() as int)[i] == cx@.diags[i]);
                }
            }
            assert(cx@.diags.take(a2.len() as int) =~= a2);
        }
        di += 1;
    }
    let ghost m2 = m1 + zip_md_diags(dv, mc.0@.prompt.distractors, sp@.distractors, cv, 0);
    proof {
        lemma_after_warnings(a2, cx@.diags, n0);
        assert(zip_md_diags(dv, mc.0@.prompt.distractors, sp@.distractors, cv, di as int)
            =~= Seq::<DiagnosticV>::empty());
        assert(cx@.diags + Seq::<DiagnosticV>::empty() =~= cx@.diags);
        assert(cx@.diags =~~= old(cx)@.diags + m2);
    }
    let ghost a3 = cx@.diags;
    let ghost iseg = idx_seg(mc.0@, sp@);
    match mc.0.prompt.answer_index {
        Some(idx) => {
            if idx > mc.0.prompt.distractors.len() {
                let mut spans: Vec<Span> = Vec::new();
                spans.push(or_span_x(&sp.answer_index, sp.question));
                cx.error(DiagMessage::AnswerIndexTooLarge, spans);
            }
        },
        None => {},
    }
    let ghost m3 = m2 + iseg;
    proof {
        assert(cx@.diags =~~= a3 + iseg);
        lemma_after_fatals(a3, iseg, n0);
        assert(cx@.diags =~~= old(cx)@.diags + m3);
    }
    let ghost a4 = cx@.diags;
    let ghost bseg = both_seg(mc.0@, sp@);
    if mc.0.prompt.answer_index.is_some() && mc.0.prompt.sort_answers.is_some() {
        let mut spans: Vec<Span> = Vec::new();
        spans.push(or_span_x(&sp.sort_answers, sp.question));
        spans.push(or_span_x(&sp.answer_index, sp.question));
        cx.error(DiagMessage::IndexAndSort, spans);
    }
    let ghost m4 = m3 + bseg;
    proof {
        assert(cx@.diags =~~= a4 + bseg);
        lemma_after_fatals(a4, bseg, n0);
        assert(cx@.diags =~~= old(cx)@.diags + m4);
    }
    let ghost a5 = cx@.diags;
    validate_mcq_answer(mc, sp, cx, dict);
    proof {
        lemma_compose_segments(a5, cx@.diags, n0, multi_seg(mc.0@, sp@));
        assert(cx@.diags =~~= old(cx)@.diags + (m4 + mcq_answer_diags(mc.0@, sp@, dv, cv)));
        assert(cx@.diags =~~= old(cx)@.diags + mcq_diags(mc.0@, sp@, dv, cv));
        assert(fatals(cx@.diags.skip(n0)) =~= mcq_fatals(mc.0@, sp@));
        assert(cx@.diags.take(n0) =~= old(cx)@.diags);
    }
}

/// Validates a whole quiz against the session: the non-empty-questions
/// rule, every question in order, and the multipart context blocks.
/// Records exactly the findings [`quiz_diags`] names — the fatal ones of
/// [`quiz_fatals`] interleaved with every Markdown value's spelling
/// warnings — grows the session identifier set as [`quiz_ids_after`]
/// says, and returns the tracing verification jobs of [`quiz_jobs`], in
/// order.
pub fn validate_quiz(
    quiz: &Quiz,
    sps: &QuizSpans,
    cx: &mut ValidationContext,
    session: &mut Validated,
    dict: Option<&zspell::Dictionary>,
) -> (jobs: Vec<TracingJob>)
    ensures
        final(cx)@.diags == old(cx)@.diags + quiz_diags(
            quiz@,
            sps@,
            old(session)@.ids,
            dict_of(dict),
            old(cx)@.contents,
        ),
        final(cx)@.diags.len() >= old(cx)@.diags.len(),
        final(cx)@.diags.take(old(cx)@.diags.len() as int) == old(cx)@.diags,
        fatals(final(cx)@.diags.skip(old(cx)@.diags.len() as int)) == quiz_fatals(
            quiz@,
            sps@,
            old(session)@.ids,
        ),
        forall|i: int|
            old(cx)@.diags.len() <= i < final(cx)@.diags.len()
                ==> ((#[trigger] final(cx)@.diags[i]).fatal
                || final(cx)@.diags[i].message is Spelling),
        final(cx)@.path == old(cx)@.path,
        final(cx)@.contents == old(cx)@.contents,
        final(session)@.ids == quiz_ids_after(quiz@, old(session)@.ids),
        final(session)@.paths == old(session)@.paths,
        jobs_view(jobs@) == quiz_jobs(quiz@, sps@),
{
    let ghost n0 = old(cx)@.diags.len() as int;
    let ghost ids0 = old(session)@.ids;
    let ghost keys = quiz@.multipart_keys();
    let ghost qsv = quiz@.questions;
    let ghost spsv = sps@.questions;
    proof {
        assert(old(cx)@.diags.skip(n0) =~= Seq::<DiagnosticV>::empty());
        lemma_fatals_all_fatal(Seq::<DiagnosticV>::empty());
    }
    let ghost dv = dict_of(dict);
    let ghost cv = old(cx)@.contents;
    let ghost head = head_seg(quiz@, sps@);
    if quiz.questions.len() == 0 {
        let mut spans: Vec<Span> = Vec::new();
        spans.push(sps.root);
        cx.error(DiagMessage::EmptyQuiz, spans);
    }
    proof {
        assert(cx@.diags =~~= old(cx)@.diags + head);
        lemma_after_fatals(old(cx)@.diags, head, n0);
    }
    let no_sp = QuestionSpans {
        question: Span { start: 0, end: 0 },
        id: None,
        multipart: None,
        answer: Span { start: 0, end: 0 },
        context: None,
        prompt_md: None,
        distractors: Vec::new(),
        answer_index: None,
        sort_answers: None,
        answer_value: None,
        answer_items: Vec::new(),
        does_compile: None,
        stdout: None,
    };
    proof {
        assert(no_sp@ =~= no_spans());
    }
    let mut jobs: Vec<TracingJob> = Vec::new();
    let mut i: usize = 0;
    while i < quiz.questions.len()
        invariant
            i <= quiz.questions@.len(),
            qsv == quiz@.questions,
            spsv == sps@.questions,
            keys == quiz@.multipart_keys(),
            qsv.len() == quiz.questions@.len(),
            forall|j: int| 0 <= j < qsv.len() ==> qsv[j] == quiz.questions@[j]@,
            no_sp@ == no_spans(),
            n0 == old(cx)@.diags.len(),
            n0 <= cx@.diags.len(),
            cx@.diags.take(n0) == old(cx)@.diags,
            forall|k: int|
                n0 <= k < cx@.diags.len() ==> ((#[trigger] cx@.diags[k]).fatal
                    || cx@.diags[k].message is Spelling),
            dv == dict_of(dict),
            cv == old(cx)@.contents,
            fatals(cx@.diags.skip(n0)) + walk_fatals(qsv, spsv, keys, session@.ids, i as int)
                == quiz_fatals(quiz@, sps@, ids0),
            cx@.diags + walk_diags(qsv, spsv, keys, session@.ids, dv, cv, i as int) == (old(
                cx,
            )@.diags + head_seg(quiz@, sps@)) + walk_diags(qsv, spsv, keys, ids0, dv, cv, 0),
            walk_ids(qsv, session@.ids, i as int) == quiz_ids_after(quiz@, ids0),
            jobs_view(jobs@) + walk_jobs(qsv, spsv, i as int) == quiz_jobs(quiz@, sps@),
            session@.paths == old(session)@.paths,
            cx@.path == old(cx)@.path,
            cx@.contents == old(cx)@.contents,
        decreases quiz.questions@.len() - i,
    {
        let spq = if i < sps.questions.len() {
            &sps.questions[i]
        } else {
            &no_sp
        };
        proof {
            assert(spq@ == sp_at(spsv, i as int));
        }
        let ghost pre = cx@.diags;
        let ghost ids_pre = session@.ids;
        let ghost jobs_pre = jobs@;
        validate_question(&quiz.questions[i], spq, quiz, cx, session, dict, &mut jobs);
        proof {
            let qf = question_fatals(qsv[i as int], sp_at(spsv, i as int), keys, ids_pre);
            assert(fatals(cx@.diags.skip(pre.len() as int)) == qf);
            lemma_compose_segments(pre, cx@.diags, n0, qf);
            assert(cx@.diags.take(n0) =~= old(cx)@.diags);
            assert(walk_fatals(qsv, spsv, keys, ids_pre, i as int) == qf + walk_fatals(
                qsv,
                spsv,
                keys,
                ids_after(ids_pre, qsv[i as int].id()),
                i + 1,
            ));
            assert((fatals(pre.skip(n0)) + qf) + walk_fatals(
                qsv,
                spsv,
                keys,
                session@.ids,
                i + 1,
            ) =~= fatals(pre.skip(n0)) + (qf + walk_fatals(qsv, spsv, keys, session@.ids, i + 1)));
            assert(jobs_view(jobs@) =~= jobs_view(jobs_pre) + question_jobs(
                qsv[i as int],
                sp_at(spsv, i as int),
            ));
            assert(jobs_view(jobs@) + walk_jobs(qsv, spsv, i + 1) =~= jobs_view(jobs_pre) + (
            question_jobs(qsv[i as int], sp_at(spsv, i as int)) + walk_jobs(qsv, spsv, i + 1)));
            let qd = question_diags(
                qsv[i as int],
                sp_at(spsv, i as int),
                keys,
                ids_pre,
                dv,
                cv,
            );
            assert(cx@.diags =~= pre + qd);
            assert(walk_diags(qsv, spsv, keys, ids_pre, dv, cv, i as int) == qd + walk_diags(
                qsv,
                spsv,
                keys,
                ids_after(ids_pre, qsv[i as int].id()),
                dv,
                cv,
                i + 1,
            ));
            assert(cx@.diags + walk_diags(qsv, spsv, keys, session@.ids, dv, cv, i + 1) =~= pre
                + walk_diags(qsv, spsv, keys, ids_pre, dv, cv, i as int));
        }
        i += 1;
    }
    proof {
        assert(walk_fatals(qsv, spsv, keys, session@.ids, i as int)
            == Seq::<DiagnosticV>::empty());
        assert(fatals(cx@.diags.skip(n0)) + Seq::<DiagnosticV>::empty() =~= fatals(
            cx@.diags.skip(n0),
        ));
        assert(walk_diags(qsv, spsv, keys, session@.ids, dv, cv, i as int)
            =~= Seq::<DiagnosticV>::empty());
        assert(cx@.diags + Seq::<DiagnosticV>::empty() =~= cx@.diags);
        assert(cx@.diags =~= (old(cx)@.diags + head_seg(quiz@, sps@)) + walk_diags(
            qsv,
            spsv,
            keys,
            ids0,
            dv,
            cv,
            0,
        ));
        assert(jobs_view(jobs@) + Seq::<TracingJobV>::empty() =~= jobs_view(jobs@));
    }
    let ghost after_walk = cx@.diags;
    match &quiz.multipart {
        Some(pairs) => {
            let ghost mpv = quiz@.multipart->Some_0;
            let ghost mspv = sps@.multipart;
            let mut k: usize = 0;
            while k < pairs.len()
                invariant
                    k <= pairs@.len(),
                    quiz@.multipart == Some(mpv),
                    mpv.len() == pairs@.len(),
                    forall|j: int|
                        0 <= j < mpv.len() ==> #[trigger] mpv[j] == (
                            pairs@[j].0@,
                            pairs@[j].1@,
                        ),
                    mspv == sps@.multipart,
                    mspv.len() == sps.multipart@.len(),
                    dv == dict_of(dict),
                    cv == old(cx)@.contents,
                    n0 == old(cx)@.diags.len(),
                    n0 <= cx@.diags.len(),
                    cx@.diags.take(n0) == old(cx)@.diags,
                    forall|j: int|
                        n0 <= j < cx@.diags.len() ==> ((#[trigger] cx@.diags[j]).fatal
                            || cx@.diags[j].message is Spelling),
                    fatals(cx@.diags.skip(n0)) == quiz_fatals(quiz@, sps@, ids0),
                    cx@.diags + multipart_diags(dv, mpv, mspv, sps@.root, cv, k as int)
                        == after_walk + multipart_diags(dv, mpv, mspv, sps@.root, cv, 0),
                    after_walk == (old(cx)@.diags + head_seg(quiz@, sps@)) + walk_diags(
                        quiz@.questions,
                        sps@.questions,
                        quiz@.multipart_keys(),
                        ids0,
                        dv,
                        cv,
                        0,
                    ),
                    cx@.path == old(cx)@.path,
                    cx@.contents == old(cx)@.contents,
                decreases pairs@.len() - k,
            {
                let msp = if k < sps.multipart.len() {
                    sps.multipart[k]
                } else {
                    sps.root
                };
                proof {
                    assert(msp == (if (k as int) < mspv.len() {
                        mspv[k as int]
                    } else {
                        sps@.root
                    }));
                }
                let ghost pre = cx@.diags;
                validate_markdown(&pairs[k].1, msp, cx, dict);
                proof {
                    lemma_after_warnings(pre, cx@.diags, n0);
                    assert(cx@.diags.take(n0) =~= old(cx)@.diags);
                    assert(mpv[k as int].1 == pairs@[k as int].1@);
                    assert(cx@.diags =~~= pre + md_diags(dv, mpv[k as int].1, msp, cv));
                    assert(multipart_diags(dv, mpv, mspv, sps@.root, cv, k as int) == md_diags(
                        dv,
                        mpv[k as int].1,
                        msp,
                        cv,
                    ) + multipart_diags(dv, mpv, mspv, sps@.root, cv, k + 1));
                    assert(cx@.diags + multipart_diags(dv, mpv, mspv, sps@.root, cv, k + 1)
                        =~= pre + multipart_diags(dv, mpv, mspv, sps@.root, cv, k as int));
                }
                k += 1;
            }
            proof {
                assert(multipart_diags(dv, mpv, mspv, sps@.root, cv, k as int)
                    =~= Seq::<DiagnosticV>::empty());
                assert(cx@.diags + Seq::<DiagnosticV>::empty() =~= cx@.diags);
                assert(cx@.diags =~= after_walk + multipart_diags(
                    dv,
                    mpv,
                    mspv,
                    sps@.root,
                    cv,
                    0,
                ));
                assert(cx@.diags =~~= old(cx)@.diags + quiz_diags(quiz@, sps@, ids0, dv, cv));
            }
        },
        None => {
            proof {
                assert(cx@.diags =~~= old(cx)@.diags + quiz_diags(quiz@, sps@, ids0, dv, cv));
            }
        },
    }
    jobs
}

} // verus!
