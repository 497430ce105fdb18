//! Rendering of a run's findings into a human-readable report: one line
//! per finding with its severity and message, and one line per labeled
//! byte range with the document path, the range, and the text it covers.

use vstd::prelude::*;
use vstd::string::StringExecFns;
use crate::diagnostics::{DiagMessage, DiagMessageV, Diagnostic, DiagnosticV, diags_view};
use crate::span_tree::Span;
use crate::text::{dec_digits, indent, indented, usize_to_string};

verus! {

/// Text decoded from bytes as `String::from_utf8_lossy` decodes it: a
/// function of the bytes alone.
pub uninterp spec fn lossy_of(b: Seq<u8>) -> Seq<char>;

/// Relies on `String::from_utf8_lossy`: the text the given byte range
/// decodes to.
#[verifier::external_body]
fn lossy_string(b: &Vec<u8>, start: usize, end: usize) -> (r: String)
    requires
        start <= end <= b@.len(),
    ensures
        r@ == lossy_of(b@.subrange(start as int, end as int)),
{
    String::from_utf8_lossy(&b[start..end]).into_owned()
}

/// Relies on `std::io::Write` for the standard error stream: the report
/// is shown to the user as a side effect.
#[verifier::external_body]
pub fn emit_report(s: &str) {
    let mut err = std::io::stderr();
    let _ = std::io::Write::write_all(&mut err, s.as_bytes());
}

/// The byte range of `sp` clamped into a document of `len` bytes.
pub open spec fn clamped(sp: Span, len: int) -> (int, int) {
    let s = if sp.start as int <= len {
        sp.start as int
    } else {
        len
    };
    let e = if sp.end as int <= len {
        sp.end as int
    } else {
        len
    };
    if s <= e {
        (s, e)
    } else {
        (s, s)
    }
}

/// What a message says, in words.
pub open spec fn message_text(m: DiagMessageV) -> Seq<char> {
    match m {
        DiagMessageV::EmptyQuiz => "Quiz must have at least one question"@,
        DiagMessageV::DuplicateId(id) => "Duplicate ID: "@ + id,
        DiagMessageV::MissingMultipart(k) => "Quiz does not have multipart: "@ + k,
        DiagMessageV::AnswerIndexTooLarge => "Answer index is too large"@,
        DiagMessageV::IndexAndSort => "Cannot use both answerIndex and sortAnswers"@,
        DiagMessageV::EmptyMultiAnswer => "Must be at least one correct answer"@,
        DiagMessageV::Spelling(w) => "Spelling error: `"@ + w + "`"@,
        DiagMessageV::ParseFault(c) => "TOML parse error: "@ + c,
        DiagMessageV::CompilesButClaimedNot => "program compiles but doesCompile = false"@,
        DiagMessageV::CompiledButNoStdout => "program compiles but stdout is missing"@,
        DiagMessageV::NoCompileButClaimedYes(e) => "program does not compile but doesCompile = true. rustc stderr:\n"@
            + indented(e, "  "@),
        DiagMessageV::NoCompileButStdout => "program does not compile but contains a stdout key"@,
        DiagMessageV::RunFailed(e) => "program fails when executed. stderr:\n"@ + indented(
            e,
            "  "@,
        ),
        DiagMessageV::StdoutMismatch(expected, actual) => "expected stdout:\n"@ + indented(
            expected,
            "  "@,
        ) + "\ndid not match actual stdout:\n"@ + indented(actual, "  "@),
    }
}

/// One line locating a labeled byte range: the path, the range, and the
/// text it covers.
pub open spec fn span_text(path: Seq<char>, contents: Seq<u8>, sp: Span) -> Seq<char> {
    let (s, e) = clamped(sp, contents.len() as int);
    "  --> "@ + path + "["@ + dec_digits(sp.start as nat) + ".."@ + dec_digits(sp.end as nat)
        + "]: "@ + lossy_of(contents.subrange(s, e)) + "\n"@
}

/// The location lines of a finding's ranges from position `i` on.
pub open spec fn spans_text(path: Seq<char>, contents: Seq<u8>, sps: Seq<Span>, i: int) -> Seq<
    char,
>
    decreases sps.len() - i,
{
    if i < 0 || i >= sps.len() {
        Seq::empty()
    } else {
        span_text(path, contents, sps[i]) + spans_text(path, contents, sps, i + 1)
    }
}

/// What one finding reports: its severity, its message, and its location
/// lines.
pub open spec fn diag_text(path: Seq<char>, contents: Seq<u8>, d: DiagnosticV) -> Seq<char> {
    (if d.fatal {
        "error: "@
    } else {
        "warning: "@
    }) + message_text(d.message) + "\n"@ + spans_text(path, contents, d.spans, 0)
}

/// The whole report: each finding in order.
pub open spec fn report_text(
    path: Seq<char>,
    contents: Seq<u8>,
    ds: Seq<DiagnosticV>,
    i: int,
) -> Seq<char>
    decreases ds.len() - i,
{
    if i < 0 || i >= ds.len() {
        Seq::empty()
    } else {
        diag_text(path, contents, ds[i]) + report_text(path, contents, ds, i + 1)
    }
}

/// Renders one message, as [`message_text`] says.
fn render_message(m: &DiagMessage) -> (r: String)
    ensures
        r@ == message_text(m@),
{
    match m {
        DiagMessage::EmptyQuiz => String::from_str("Quiz must have at least one question"),
        DiagMessage::DuplicateId(id) => {
            let mut r = String::from_str("Duplicate ID: ");
            r.append(id.as_str());
            r
        },
        DiagMessage::MissingMultipart(k) => {
            let mut r = String::from_str("Quiz does not have multipart: ");
            r.append(k.as_str());
            r
        },
        DiagMessage::AnswerIndexTooLarge => String::from_str("Answer index is too large"),
        DiagMessage::IndexAndSort => String::from_str(
            "Cannot use both answerIndex and sortAnswers",
        ),
        DiagMessage::EmptyMultiAnswer => String::from_str("Must be at least one correct answer"),
        DiagMessage::Spelling(w) => {
            let mut r = String::from_str("Spelling error: `");
            r.append(w.as_str());
            r.append("`");
            r
        },
        DiagMessage::ParseFault(c) => {
            let mut r = String::from_str("TOML parse error: ");
            r.append(c.as_str());
            r
        },
        DiagMessage::CompilesButClaimedNot => String::from_str(
            "program compiles but doesCompile = false",
        ),
        DiagMessage::CompiledButNoStdout => String::from_str(
            "program compiles but stdout is missing",
        ),
        DiagMessage::NoCompileButClaimedYes(e) => {
            let mut r = String::from_str(
                "program does not compile but doesCompile = true. rustc stderr:\n",
            );
            let ind = indent(e.as_str(), "  ");
            r.append(ind.as_str());
            r
        },
        DiagMessage::NoCompileButStdout => String::from_str(
            "program does not compile but contains a stdout key",
        ),
        DiagMessage::RunFailed(e) => {
            let mut r = String::from_str("program fails when executed. stderr:\n");
            let ind = indent(e.as_str(), "  ");
            r.append(ind.as_str());
            r
        },
        DiagMessage::StdoutMismatch(expected, actual) => {
            let mut r = String::from_str("expected stdout:\n");
            let ind1 = indent(expected.as_str(), "  ");
            r.append(ind1.as_str());
            r.append("\ndid not match actual stdout:\n");
            let ind2 = indent(actual.as_str(), "  ");
            r.append(ind2.as_str());
            r
        },
    }
}

/// Renders one location line, as [`span_text`] says.
fn render_span(path: &String, contents: &Vec<u8>, sp: Span) -> (r: String)
    ensures
        r@ == span_text(path@, contents@, sp),
{
    let len = contents.len();
    let s = if sp.start <= len {
        sp.start
    } else {
        len
    };
    let e0 = if sp.end <= len {
        sp.end
    } else {
        len
    };
    let e = if s <= e0 {
        e0
    } else {
        s
    };
    let mut r = String::from_str("  --> ");
    r.append(path.as_str());
    r.append("[");
    let d1 = usize_to_string(sp.start);
    r.append(d1.as_str());
    r.append("..");
    let d2 = usize_to_string(sp.end);
    r.append(d2.as_str());
    r.append("]: ");
    let snippet = lossy_string(contents, s, e);
    r.append(snippet.as_str());
    r.append("\n");
    r
}

/// Renders the whole report of a list of findings, as [`report_text`]
/// says.
pub fn render_report(path: &String, contents: &Vec<u8>, diags: &Vec<Diagnostic>) -> (r: String)
    ensures
        r@ == report_text(path@, contents@, diags_view(diags@), 0),
{
    let ghost dv = diags_view(diags@);
    let mut r = String::new();
    let mut i: usize = 0;
    while i < diags.len()
        invariant
            i <= diags@.len(),
            dv == diags_view(diags@),
            dv.len() == diags@.len(),
            forall|j: int| 0 <= j < dv.len() ==> dv[j] == diags@[j]@,
            r@ + report_text(path@, contents@, dv, i as int) == report_text(
                path@,
                contents@,
                dv,
                0,
            ),
        decreases diags@.len() - i,
    {
        let d = &diags[i];
        let ghost pre = r@;
        if d.fatal {
            r.append("error: ");
        } else {
            r.append("warning: ");
        }
        let msg = render_message(&d.message);
        r.append(msg.as_str());
        r.append("\n");
        proof {
            assert(r@ =~= pre + (if d@.fatal {
                "error: "@
            } else {
                "warning: "@
            }) + message_text(d@.message) + "\n"@);
        }
        let ghost target = pre + (if d@.fatal {
            "error: "@
        } else {
            "warning: "@
        }) + message_text(d@.message) + "\n"@ + spans_text(path@, contents@, d@.spans, 0);
        let mut k: usize = 0;
        while k < d.spans.len()
            invariant
                k <= d.spans@.len(),
                r@ + spans_text(path@, contents@, d@.spans, k as int) == target,
            decreases d.spans@.len() - k,
        {
            let line = render_span(path, contents, d.spans[k]);
            r.append(line.as_str());
            proof {
                assert(spans_text(path@, contents@, d@.spans, k as int) == span_text(
                    path@,
                    contents@,
                    d@.spans[k as int],
                ) + spans_text(path@, contents@, d@.spans, k + 1));
                assert(r@ + spans_text(path@, contents@, d@.spans, k + 1) =~= target);
            }
            k += 1;
        }
        proof {
            assert(spans_text(path@, contents@, d@.spans, k as int) =~= Seq::<char>::empty());
            assert(r@ =~= target);
            assert(r@ =~= pre + diag_text(path@, contents@, dv[i as int]));
            assert(report_text(path@, contents@, dv, i as int) == diag_text(
                path@,
                contents@,
                dv[i as int],
            ) + report_text(path@, contents@, dv, i + 1));
            assert((pre + diag_text(path@, contents@, dv[i as int])) + report_text(
                path@,
                contents@,
                dv,
                i + 1,
            ) =~= pre + (diag_text(path@, contents@, dv[i as int]) + report_text(
                path@,
                contents@,
                dv,
                i + 1,
            )));
        }
        i += 1;
    }
    proof {
        assert(r@ + Seq::<char>::empty() =~= r@);
    }
    r
}

} // verus!
