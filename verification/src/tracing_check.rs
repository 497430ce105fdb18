//! The tracing verifier's decision logic.  Whether a claimed compilation
//! outcome and program output are right is judged here, from the outcome
//! of one compile and one run that the caller performs; the judgments are
//! exact functions of the answer and those outcomes.

use vstd::prelude::*;
use crate::diagnostics::{DiagMessage, DiagMessageV, DiagnosticV, ValidationContext};
use crate::span_tree::Span;
use crate::text::str_eq;

verus! {

/// What running a process yielded: whether it succeeded, and its captured
/// output and error streams.
pub struct ProcessOutput {
    /// Whether the process exited successfully.
    pub success: bool,
    /// The captured standard output, decoded as text.
    pub stdout: String,
    /// The captured standard error, decoded as text.
    pub stderr: String,
}

/// One tracing question's verification job: the program to compile and
/// run, the claims of its answer, and where to anchor findings.
pub struct TracingJob {
    /// The program source text.
    pub program: String,
    /// Whether the answer claims the program compiles.
    pub does_compile: bool,
    /// The output the answer claims, when it claims one.
    pub stdout: Option<String>,
    /// The byte range of the whole question.
    pub question: Span,
    /// The byte range of the answer value.
    pub answer: Span,
    /// The byte range of the `doesCompile` value.
    pub does_compile_span: Span,
    /// The byte range of the `stdout` value, when present.
    pub stdout_span: Option<Span>,
}

/// The view of [`TracingJob`].
#[verifier::ext_equal]
pub struct TracingJobV {
    pub program: Seq<char>,
    pub does_compile: bool,
    pub stdout: Option<Seq<char>>,
    pub question: Span,
    pub answer: Span,
    pub does_compile_span: Span,
    pub stdout_span: Option<Span>,
}

impl View for TracingJob {
    type V = TracingJobV;

    open spec fn view(&self) -> TracingJobV {
        TracingJobV {
            program: self.program@,
            does_compile: self.does_compile,
            stdout: match self.stdout {
                Some(ref s) => Some(s@),
                None => None,
            },
            question: self.question,
            answer: self.answer,
            does_compile_span: self.does_compile_span,
            stdout_span: self.stdout_span,
        }
    }
}

/// The views of a list of jobs.
pub open spec fn jobs_view(js: Seq<TracingJob>) -> Seq<TracingJobV> {
    Seq::new(js.len(), |i: int| js[i]@)
}

/// A fatal finding with one labeled range.
pub open spec fn fatal1(m: DiagMessageV, sp: Span) -> DiagnosticV {
    DiagnosticV { fatal: true, message: m, spans: seq![sp] }
}

/// A fatal finding with two labeled ranges.
pub open spec fn fatal2(m: DiagMessageV, sp1: Span, sp2: Span) -> DiagnosticV {
    DiagnosticV { fatal: true, message: m, spans: seq![sp1, sp2] }
}

/// A range, or a fallback where it is absent.
pub open spec fn or_span(o: Option<Span>, d: Span) -> Span {
    match o {
        Some(s) => s,
        None => d,
    }
}

/// `s` without leading and trailing whitespace, as `str::trim` computes
/// it: a function of the text alone.
pub uninterp spec fn trimmed_of(s: Seq<char>) -> Seq<char>;

/// Relies on `str::trim`: the text without leading and trailing
/// whitespace; empty text stays empty.
#[verifier::external_body]
fn trim_str(s: &str) -> (r: String)
    ensures
        r@ == trimmed_of(s@),
        s@.len() == 0 ==> r@.len() == 0,
{
    s.trim().to_string()
}

/// The findings that a compile outcome earns: a program that compiles
/// refutes an answer claiming otherwise and needs a claimed output; a
/// program that does not compile refutes an answer claiming it does, and
/// must not claim an output.
pub open spec fn compile_fatals(job: TracingJobV, success: bool, stderr: Seq<char>) -> Seq<
    DiagnosticV,
> {
    if success {
        (if !job.does_compile {
            seq![fatal1(DiagMessageV::CompilesButClaimedNot, job.does_compile_span)]
        } else {
            Seq::empty()
        }) + (if job.stdout is None {
            seq![fatal1(DiagMessageV::CompiledButNoStdout, job.answer)]
        } else {
            Seq::empty()
        })
    } else {
        (if job.does_compile {
            seq![fatal1(DiagMessageV::NoCompileButClaimedYes(stderr), job.does_compile_span)]
        } else {
            Seq::empty()
        }) + (if job.stdout is Some {
            seq![fatal1(DiagMessageV::NoCompileButStdout, job.answer)]
        } else {
            Seq::empty()
        })
    }
}

/// The findings that a run outcome earns: a failing run is fatal, and a
/// claimed output must match the captured output up to surrounding
/// whitespace.
pub open spec fn run_fatals(
    job: TracingJobV,
    success: bool,
    stdout: Seq<char>,
    stderr: Seq<char>,
) -> Seq<DiagnosticV> {
    (if !success {
        seq![fatal1(DiagMessageV::RunFailed(stderr), job.answer)]
    } else {
        Seq::empty()
    }) + (match job.stdout {
        Some(expected) => if trimmed_of(stdout) != trimmed_of(expected) {
            seq![
                fatal1(
                    DiagMessageV::StdoutMismatch(expected, stdout),
                    or_span(job.stdout_span, job.answer),
                ),
            ]
        } else {
            Seq::empty()
        },
        None => Seq::empty(),
    })
}

/// Judges the outcome of compiling a job's program, recording exactly the
/// findings [`compile_fatals`] names; the compiled program is to be run
/// exactly when compilation succeeded.
pub fn judge_compile(job: &TracingJob, output: &ProcessOutput, cx: &mut ValidationContext) -> (needs_run: bool)
    ensures
        final(cx)@.diags == old(cx)@.diags + compile_fatals(job@, output.success, output.stderr@),
        final(cx)@.path == old(cx)@.path,
        final(cx)@.contents == old(cx)@.contents,
        needs_run == output.success,
{
    if output.success {
        if !job.does_compile {
            let mut spans: Vec<Span> = Vec::new();
            spans.push(job.does_compile_span);
            cx.error(DiagMessage::CompilesButClaimedNot, spans);
        }
        if job.stdout.is_none() {
            let mut spans: Vec<Span> = Vec::new();
            spans.push(job.answer);
            cx.error(DiagMessage::CompiledButNoStdout, spans);
        }
    } else {
        if job.does_compile {
            let mut spans: Vec<Span> = Vec::new();
            spans.push(job.does_compile_span);
            cx.error(DiagMessage::NoCompileButClaimedYes(output.stderr.clone()), spans);
        }
        if job.stdout.is_some() {
            let mut spans: Vec<Span> = Vec::new();
            spans.push(job.answer);
            cx.error(DiagMessage::NoCompileButStdout, spans);
        }
    }
    proof {
        assert(final(cx)@.diags =~= old(cx)@.diags + compile_fatals(
            job@,
            output.success,
            output.stderr@,
        ));
    }
    output.success
}

/// Judges the outcome of running a job's compiled program, recording
/// exactly the findings [`run_fatals`] names.
pub fn judge_run(job: &TracingJob, output: &ProcessOutput, cx: &mut ValidationContext)
    ensures
        final(cx)@.diags == old(cx)@.diags + run_fatals(
            job@,
            output.success,
            output.stdout@,
            output.stderr@,
        ),
        final(cx)@.path == old(cx)@.path,
        final(cx)@.contents == old(cx)@.contents,
{
    if !output.success {
        let mut spans: Vec<Span> = Vec::new();
        spans.push(job.answer);
        cx.error(DiagMessage::RunFailed(output.stderr.clone()), spans);
    }
    match &job.stdout {
        Some(expected) => {
            let actual_trimmed = trim_str(output.stdout.as_str());
            let expected_trimmed = trim_str(expected.as_str());
            if !str_eq(actual_trimmed.as_str(), expected_trimmed.as_str()) {
                let sp = match job.stdout_span {
                    Some(s) => s,
                    None => job.answer,
                };
                let mut spans: Vec<Span> = Vec::new();
                spans.push(sp);
                cx.error(
                    DiagMessage::StdoutMismatch(expected.clone(), output.stdout.clone()),
                    spans,
                );
            }
        },
        None => {},
    }
    proof {
        assert(final(cx)@.diags =~= old(cx)@.diags + run_fatals(
            job@,
            output.success,
            output.stdout@,
            output.stderr@,
        ));
    }
}

} // verus!
