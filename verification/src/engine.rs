//! The engine: one validation call per document.  A call parses the text,
//! decodes it against the schema, walks the questions, and hands back a
//! run that still owes one compile and, where compilation succeeds, one
//! execution per tracing question; the caller performs those and submits
//! the outcomes.  The verdict falls out of the recorded findings.

use vstd::prelude::*;
use vstd::string::StringExecFns;
use vstd::string::StringSliceAdditionalSpecFns;
use crate::decode::{decode_quiz, spec_decode};
use crate::diagnostics::{
    DiagMessage, DiagMessageV, Diagnostic, DiagnosticV, ValidationContext, diags_view, has_fatal,
};
use crate::parse::{parse_toml, toml_outcome_of};
use crate::rules::{fatals, quiz_diags, quiz_fatals, quiz_ids_after, quiz_jobs, validate_quiz};
use crate::spellcheck::dict_of;
use crate::session::Validated;
use crate::tracing_check::{
    ProcessOutput, TracingJob, TracingJobV, compile_fatals, jobs_view, run_fatals,
};

verus! {

/// A single fatal finding carrying no location: how a parse fault is
/// reported.
pub open spec fn parse_fault_diag(cause: Seq<char>) -> DiagnosticV {
    DiagnosticV {
        fatal: true,
        message: DiagMessageV::ParseFault(cause),
        spans: Seq::empty(),
    }
}

/// The state of one document's validation: the findings so far and the
/// tracing jobs not yet judged.
pub struct ValidationRun {
    cx: ValidationContext,
    jobs: Vec<TracingJob>,
    next: usize,
    awaiting_run: bool,
    memo: bool,
}

/// The view of [`ValidationRun`].
pub struct ValidationRunV {
    pub path: Seq<char>,
    pub contents: Seq<u8>,
    pub diags: Seq<DiagnosticV>,
    pub jobs: Seq<TracingJobV>,
    pub next: int,
    pub awaiting_run: bool,
    pub memo: bool,
}

impl View for ValidationRun {
    type V = ValidationRunV;

    closed spec fn view(&self) -> ValidationRunV {
        ValidationRunV {
            path: self.cx@.path,
            contents: self.cx@.contents,
            diags: self.cx@.diags,
            jobs: jobs_view(self.jobs@),
            next: self.next as int,
            awaiting_run: self.awaiting_run,
            memo: self.memo,
        }
    }
}

impl ValidationRun {
    /// Well-formedness: the judged jobs are a prefix of the jobs.
    pub open spec fn wf(self) -> bool {
        &&& self@.next <= self@.jobs.len()
        &&& (self@.awaiting_run ==> self@.next < self@.jobs.len())
    }

    /// Whether every job has been judged.
    pub open spec fn complete(self) -> bool {
        self@.next == self@.jobs.len() && !self@.awaiting_run
    }

    /// Whether this document had already been validated in the session,
    /// so the call was a no-op.
    pub fn memoized(&self) -> (r: bool)
        ensures
            r == self@.memo,
    {
        self.memo
    }

    /// The findings recorded so far, in order.
    pub fn diagnostics(&self) -> (r: &Vec<Diagnostic>)
        ensures
            diags_view(r@) == self@.diags,
    {
        self.cx.diagnostics()
    }

    /// The bytes of the document under validation.
    pub fn contents(&self) -> (r: &Vec<u8>)
        ensures
            r@ == self@.contents,
    {
        self.cx.contents()
    }

    /// The path of the document under validation.
    pub fn path(&self) -> (r: &String)
        ensures
            r@ == self@.path,
    {
        self.cx.path()
    }

    /// The program of the next job to compile, when one is owed.
    pub fn pending_program(&self) -> (r: Option<&String>)
        requires
            self.wf(),
        ensures
            match r {
                Some(p) => !self@.awaiting_run && self@.next < self@.jobs.len() && p@
                    == self@.jobs[self@.next].program,
                None => self@.awaiting_run || self@.next == self@.jobs.len(),
            },
    {
        if !self.awaiting_run && self.next < self.jobs.len() {
            Some(&self.jobs[self.next].program)
        } else {
            None
        }
    }

    /// Whether the run owes an execution of the last compiled program.
    pub fn awaiting_run(&self) -> (r: bool)
        ensures
            r == self@.awaiting_run,
    {
        self.awaiting_run
    }

    /// Whether every job has been judged.
    pub fn done(&self) -> (r: bool)
        requires
            self.wf(),
        ensures
            r == self.complete(),
    {
        !self.awaiting_run && self.next == self.jobs.len()
    }

    /// Judges the outcome of compiling the next job's program; returns
    /// whether the compiled program must now be run.
    pub fn submit_compile(&mut self, output: &ProcessOutput) -> (needs_run: bool)
        requires
            old(self).wf(),
            !old(self)@.awaiting_run,
            old(self)@.next < old(self)@.jobs.len(),
        ensures
            final(self).wf(),
            needs_run == output.success,
            final(self)@.diags == old(self)@.diags + compile_fatals(
                old(self)@.jobs[old(self)@.next],
                output.success,
                output.stderr@,
            ),
            final(self)@.jobs == old(self)@.jobs,
            final(self)@.path == old(self)@.path,
            final(self)@.contents == old(self)@.contents,
            final(self)@.memo == old(self)@.memo,
            final(self)@.awaiting_run == output.success,
            final(self)@.next == if output.success {
                old(self)@.next
            } else {
                old(self)@.next + 1
            },
    {
        let needs_run = crate::tracing_check::judge_compile(
            &self.jobs[self.next],
            output,
            &mut self.cx,
        );
        if needs_run {
            self.awaiting_run = true;
        } else {
            let len = self.jobs.len();
            proof {
                assert(self.next < len);
            }
            self.next = self.next + 1;
        }
        needs_run
    }

    /// Judges the outcome of running the last compiled program.
    pub fn submit_run(&mut self, output: &ProcessOutput)
        requires
            old(self).wf(),
            old(self)@.awaiting_run,
        ensures
            final(self).wf(),
            final(self)@.diags == old(self)@.diags + run_fatals(
                old(self)@.jobs[old(self)@.next],
                output.success,
                output.stdout@,
                output.stderr@,
            ),
            final(self)@.jobs == old(self)@.jobs,
            final(self)@.path == old(self)@.path,
            final(self)@.contents == old(self)@.contents,
            final(self)@.memo == old(self)@.memo,
            final(self)@.awaiting_run == false,
            final(self)@.next == old(self)@.next + 1,
    {
        crate::tracing_check::judge_run(&self.jobs[self.next], output, &mut self.cx);
        self.awaiting_run = false;
        let len = self.jobs.len();
        proof {
            assert(self.next < len);
        }
        self.next = self.next + 1;
    }

    /// Whether any finding so far is fatal.
    pub fn is_fatal(&self) -> (r: bool)
        ensures
            r == has_fatal(self@.diags),
    {
        self.cx.is_fatal()
    }
}

/// Why a validation call failed: at least one finding was fatal.
pub struct QuizError {
    message: String,
}

impl View for QuizError {
    type V = Seq<char>;

    closed spec fn view(&self) -> Seq<char> {
        self.message@
    }
}

impl QuizError {
    /// A short account of the failure, naming the document.
    pub fn message(&self) -> (r: &String)
        ensures
            r@ == self@,
    {
        &self.message
    }
}

impl ValidationRun {
    /// The findings rendered as a report.
    pub fn report(&self) -> (r: String)
        ensures
            r@ == crate::report::report_text(self@.path, self@.contents, self@.diags, 0),
    {
        crate::report::render_report(self.cx.path(), self.cx.contents(), self.cx.diagnostics())
    }

    /// The verdict of a completed run: failure exactly when a fatal
    /// finding was recorded.  Whenever anything at all was found, the
    /// report is written to the error stream first.
    pub fn finish(&self) -> (r: Result<(), QuizError>)
        requires
            self.wf(),
            self.complete(),
        ensures
            r is Err <==> has_fatal(self@.diags),
            r is Err ==> r->Err_0@ == "Quiz failed to validate: "@ + self@.path,
    {
        if self.cx.diagnostics().len() > 0 {
            let rep = self.report();
            crate::report::emit_report(rep.as_str());
        }
        if self.is_fatal() {
            let mut m = String::from_str("Quiz failed to validate: ");
            m.append(self.cx.path().as_str());
            Err(QuizError { message: m })
        } else {
            Ok(())
        }
    }
}

/// Validates the document with text `contents` at `path` against the
/// session.  A path already seen short-circuits to an empty, successful
/// run and the document is not looked at again.  Otherwise the text is
/// parsed and decoded — failure of either is the run's one fatal finding —
/// and the quiz is walked: the run then holds exactly the findings of
/// [`quiz_diags`] — the fatal ones of [`quiz_fatals`] interleaved with
/// every Markdown value's spelling warnings — the session's identifier
/// set has grown as [`quiz_ids_after`] says, and the run owes the caller
/// the jobs of [`quiz_jobs`], in order.
pub fn validate(
    path: &str,
    contents: &str,
    validated: &mut Validated,
    dict: Option<&zspell::Dictionary>,
) -> (run: ValidationRun)
    ensures
        run.wf(),
        !run@.awaiting_run,
        run@.next == 0,
        run@.path == path@,
        run@.contents == contents.spec_bytes(),
        final(validated)@.paths == old(validated)@.paths.insert(path@),
        run@.memo == old(validated)@.paths.contains(path@),
        run@.memo ==> (run@.diags == Seq::<DiagnosticV>::empty() && run@.jobs == Seq::<
            TracingJobV,
        >::empty() && final(validated)@.ids == old(validated)@.ids),
        !run@.memo ==> match toml_outcome_of(contents@) {
            Err(cause) => run@.diags == seq![parse_fault_diag(cause)] && run@.jobs == Seq::<
                TracingJobV,
            >::empty() && final(validated)@.ids == old(validated)@.ids,
            Ok(tree) => match spec_decode(tree) {
                None => {
                    &&& run@.diags.len() == 1
                    &&& run@.diags[0].fatal
                    &&& run@.diags[0].message is ParseFault
                    &&& run@.jobs == Seq::<TracingJobV>::empty()
                    &&& final(validated)@.ids == old(validated)@.ids
                },
                Some((quiz, spans)) => {
                    &&& run@.diags == quiz_diags(
                        quiz,
                        spans,
                        old(validated)@.ids,
                        dict_of(dict),
                        contents.spec_bytes(),
                    )
                    &&& fatals(run@.diags) == quiz_fatals(quiz, spans, old(validated)@.ids)
                    &&& (forall|i: int|
                        0 <= i < run@.diags.len() ==> ((#[trigger] run@.diags[i]).fatal
                            || run@.diags[i].message is Spelling))
                    &&& final(validated)@.ids == quiz_ids_after(quiz, old(validated)@.ids)
                    &&& run@.jobs == quiz_jobs(quiz, spans)
                },
            },
        },
{
    let fresh = validated.insert_path(path);
    let mut cx = ValidationContext::new(path, contents);
    if !fresh {
        return ValidationRun { cx, jobs: Vec::new(), next: 0, awaiting_run: false, memo: true };
    }
    match parse_toml(contents) {
        Err(cause) => {
            let ghost c = cause@;
            cx.error(DiagMessage::ParseFault(cause), Vec::new());
            proof {
                assert(cx@.diags =~~= seq![parse_fault_diag(c)]);
            }
            ValidationRun { cx, jobs: Vec::new(), next: 0, awaiting_run: false, memo: false }
        },
        Ok(tree) => match decode_quiz(&tree) {
            Err(fault) => {
                cx.error(DiagMessage::ParseFault(fault.message().clone()), Vec::new());
                ValidationRun { cx, jobs: Vec::new(), next: 0, awaiting_run: false, memo: false }
            },
            Ok((quiz, spans)) => {
                let jobs = validate_quiz(&quiz, &spans, &mut cx, validated, dict);
                proof {
                    assert(cx@.diags.skip(0) =~= cx@.diags);
                }
                ValidationRun { cx, jobs, next: 0, awaiting_run: false, memo: false }
            },
        },
    }
}

} // verus!
