//! Laws of the engine, stated and proved over the same specification
//! functions its contracts use.

use vstd::prelude::*;
use vstd::seq_lib::*;
use crate::decode::QuestionSpansV;
use crate::diagnostics::{DiagMessageV, DiagnosticV, dup_id_diag, has_fatal, id_check_diags};
use crate::rules::{
    fatals, ids_after, question_fatals, quiz_fatals, sp_at, walk_fatals, walk_ids,
};
use crate::schema::{QuestionV, QuizV};
use crate::spellcheck::{lemma_md_diags_shape, md_diags};
use crate::span_tree::Span;
use crate::tracing_check::or_span;

verus! {

/// Whether the findings hold a fatal duplicate-identifier finding for `x`.
pub open spec fn has_dup_diag(ds: Seq<DiagnosticV>, x: Seq<char>) -> bool {
    exists|k: int|
        0 <= k < ds.len() && (#[trigger] ds[k]).fatal && ds[k].message
            == DiagMessageV::DuplicateId(x)
}

/// A finding present in the second part of a concatenation is present in
/// the whole.
proof fn lemma_dup_in_right(a: Seq<DiagnosticV>, b: Seq<DiagnosticV>, x: Seq<char>)
    requires
        has_dup_diag(b, x),
    ensures
        has_dup_diag(a + b, x),
{
    let k = choose|k: int|
        0 <= k < b.len() && (#[trigger] b[k]).fatal && b[k].message == DiagMessageV::DuplicateId(
            x,
        );
    assert((a + b)[a.len() + k].fatal);
    assert((a + b)[a.len() + k].message == DiagMessageV::DuplicateId(x));
}

/// A question whose identifier the session has already seen earns a fatal
/// duplicate-identifier finding; this is what makes identifiers unique
/// across all documents validated in one session.
pub proof fn lemma_known_id_fatal(
    qs: Seq<QuestionV>,
    sps: Seq<QuestionSpansV>,
    mp_keys: Set<Seq<char>>,
    ids: Set<Seq<char>>,
    i: int,
    j: int,
    x: Seq<char>,
)
    requires
        0 <= i <= j < qs.len(),
        qs[j].id() == Some(x),
        ids.contains(x),
    ensures
        has_dup_diag(walk_fatals(qs, sps, mp_keys, ids, i), x),
    decreases j - i,
{
    let sp = sp_at(sps, i);
    let qf = question_fatals(qs[i], sp, mp_keys, ids);
    let rest = walk_fatals(qs, sps, mp_keys, ids_after(ids, qs[i].id()), i + 1);
    if i == j {
        let span = or_span(sp.id, sp.question);
        assert(id_check_diags(ids, x, span) == seq![dup_id_diag(x, span)]);
        assert(qf[0] == dup_id_diag(x, span));
        assert(has_dup_diag(qf, x));
        lemma_dup_in_left(qf, rest, x);
    } else {
        assert(ids_after(ids, qs[i].id()).contains(x));
        lemma_known_id_fatal(qs, sps, mp_keys, ids_after(ids, qs[i].id()), i + 1, j, x);
        lemma_dup_in_right(qf, rest, x);
    }
}

/// A finding present in the first part of a concatenation is present in
/// the whole.
proof fn lemma_dup_in_left(a: Seq<DiagnosticV>, b: Seq<DiagnosticV>, x: Seq<char>)
    requires
        has_dup_diag(a, x),
    ensures
        has_dup_diag(a + b, x),
{
    let k = choose|k: int|
        0 <= k < a.len() && (#[trigger] a[k]).fatal && a[k].message == DiagMessageV::DuplicateId(
            x,
        );
    assert((a + b)[k].fatal);
    assert((a + b)[k].message == DiagMessageV::DuplicateId(x));
}

/// Two questions of one walk carrying the same identifier earn a fatal
/// duplicate-identifier finding, whatever the session held before.
pub proof fn lemma_duplicate_id_fatal_from(
    qs: Seq<QuestionV>,
    sps: Seq<QuestionSpansV>,
    mp_keys: Set<Seq<char>>,
    ids: Set<Seq<char>>,
    m: int,
    i: int,
    j: int,
    x: Seq<char>,
)
    requires
        0 <= m <= i < j < qs.len(),
        qs[i].id() == Some(x),
        qs[j].id() == Some(x),
    ensures
        has_dup_diag(walk_fatals(qs, sps, mp_keys, ids, m), x),
    decreases i - m,
{
    let qf = question_fatals(qs[m], sp_at(sps, m), mp_keys, ids);
    let ids2 = ids_after(ids, qs[m].id());
    let rest = walk_fatals(qs, sps, mp_keys, ids2, m + 1);
    if m == i {
        assert(ids2.contains(x));
        lemma_known_id_fatal(qs, sps, mp_keys, ids2, m + 1, j, x);
        lemma_dup_in_right(qf, rest, x);
    } else {
        lemma_duplicate_id_fatal_from(qs, sps, mp_keys, ids2, m + 1, i, j, x);
        lemma_dup_in_right(qf, rest, x);
    }
}

/// Law: a duplicate `id` across two questions — in one document, or, by
/// [`lemma_session_duplicate_id`], across documents validated in one
/// session — earns a fatal duplicate-identifier finding.
pub proof fn lemma_duplicate_id_fatal(
    quiz: QuizV,
    sps: crate::decode::QuizSpansV,
    ids: Set<Seq<char>>,
    i: int,
    j: int,
    x: Seq<char>,
)
    requires
        0 <= i < j < quiz.questions.len(),
        quiz.questions[i].id() == Some(x),
        quiz.questions[j].id() == Some(x),
    ensures
        has_dup_diag(quiz_fatals(quiz, sps, ids), x),
        has_fatal(quiz_fatals(quiz, sps, ids)),
{
    lemma_duplicate_id_fatal_from(
        quiz.questions,
        sps.questions,
        quiz.multipart_keys(),
        ids,
        0,
        i,
        j,
        x,
    );
    let w = walk_fatals(quiz.questions, sps.questions, quiz.multipart_keys(), ids, 0);
    lemma_dup_in_right(
        (if quiz.questions.len() == 0 {
            seq![crate::tracing_check::fatal1(DiagMessageV::EmptyQuiz, sps.root)]
        } else {
            Seq::<DiagnosticV>::empty()
        }),
        w,
        x,
    );
}

/// Law: a question whose identifier was seen in an earlier document of
/// the same session earns a fatal duplicate-identifier finding.
pub proof fn lemma_session_duplicate_id(
    quiz: QuizV,
    sps: crate::decode::QuizSpansV,
    ids: Set<Seq<char>>,
    j: int,
    x: Seq<char>,
)
    requires
        0 <= j < quiz.questions.len(),
        quiz.questions[j].id() == Some(x),
        ids.contains(x),
    ensures
        has_dup_diag(quiz_fatals(quiz, sps, ids), x),
        has_fatal(quiz_fatals(quiz, sps, ids)),
{
    lemma_known_id_fatal(quiz.questions, sps.questions, quiz.multipart_keys(), ids, 0, j, x);
    lemma_dup_in_right(
        (if quiz.questions.len() == 0 {
            seq![crate::tracing_check::fatal1(DiagMessageV::EmptyQuiz, sps.root)]
        } else {
            Seq::<DiagnosticV>::empty()
        }),
        walk_fatals(quiz.questions, sps.questions, quiz.multipart_keys(), ids, 0),
        x,
    );
}

/// Law: identifiers seen once stay seen — the walk only grows the session
/// set, so a later validation call still sees them.
pub proof fn lemma_walk_ids_grow(
    qs: Seq<QuestionV>,
    ids: Set<Seq<char>>,
    i: int,
    x: Seq<char>,
)
    requires
        ids.contains(x),
    ensures
        walk_ids(qs, ids, i).contains(x),
    decreases qs.len() - i,
{
    if 0 <= i < qs.len() {
        assert(ids_after(ids, qs[i].id()).contains(x));
        lemma_walk_ids_grow(qs, ids_after(ids, qs[i].id()), i + 1, x);
    }
}

/// Law: validating a document a second time under the same path is a
/// no-op returning success.  One call puts the path into the session set;
/// a later call on any session that grew from it finds the path present,
/// and the engine's contract then promises an empty run, which has no
/// fatal finding.
pub proof fn lemma_revalidation_noop(paths: Set<Seq<char>>, p: Seq<char>)
    ensures
        paths.insert(p).contains(p),
        !has_fatal(Seq::<DiagnosticV>::empty()),
{
}

/// Law: the verdict is decided by the fatal findings alone, so the
/// spellcheck — whose findings are never fatal — never turns a passing
/// document into a failing one.
pub proof fn lemma_verdict_from_fatals(ds: Seq<DiagnosticV>)
    ensures
        has_fatal(ds) <==> fatals(ds).len() > 0,
    decreases ds.len(),
{
    reveal(Seq::filter);
    if ds.len() > 0 {
        lemma_verdict_from_fatals(ds.drop_last());
        if has_fatal(ds.drop_last()) {
            assert(has_fatal(ds)) by {
                let k = choose|k: int| 0 <= k < ds.drop_last().len() && ds.drop_last()[k].fatal;
                assert(ds[k].fatal);
            }
        }
        if has_fatal(ds) && !ds.last().fatal {
            let k = choose|k: int| 0 <= k < ds.len() && ds[k].fatal;
            assert(ds.drop_last()[k].fatal);
        }
    }
}

/// Law: spelling findings never turn a passing document into a failing
/// one — everything the spellcheck records for a Markdown value is a
/// warning, so the verdict over any findings is unchanged by appending
/// them.
pub proof fn lemma_spelling_preserves_verdict(
    ds: Seq<DiagnosticV>,
    d: Option<zspell::Dictionary>,
    md: Seq<char>,
    value_span: Span,
    contents: Seq<u8>,
)
    ensures
        has_fatal(ds + md_diags(d, md, value_span, contents)) == has_fatal(ds),
{
    lemma_md_diags_shape(d, md, value_span, contents);
    let w = md_diags(d, md, value_span, contents);
    if has_fatal(ds) {
        let k = choose|k: int| 0 <= k < ds.len() && ds[k].fatal;
        assert((ds + w)[k].fatal);
    }
    if has_fatal(ds + w) {
        let k = choose|k: int| 0 <= k < (ds + w).len() && (ds + w)[k].fatal;
        assert(k < ds.len());
        assert(ds[k].fatal);
    }
}

} // verus!
