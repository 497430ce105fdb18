//! Diagnostics and the context that collects them: every finding of one
//! document's validation, fatal or advisory, is recorded here before any
//! report is emitted, so an author sees every problem in one pass.

use vstd::prelude::*;
use vstd::string::StrSliceExecFns;
use vstd::string::StringSliceAdditionalSpecFns;
use crate::span_tree::Span;
use crate::session::Validated;

verus! {

/// What a diagnostic says.  Rendering to text is a separate step, so the
/// contracts of the validators speak of these values, not of prose.
pub enum DiagMessage {
    /// The quiz has no questions.
    EmptyQuiz,
    /// The question identifier was already used in this session.
    DuplicateId(String),
    /// The question names a multipart key the quiz does not define.
    MissingMultipart(String),
    /// The fixed answer position exceeds the number of distractors.
    AnswerIndexTooLarge,
    /// A fixed answer position and sorted answers are mutually exclusive.
    IndexAndSort,
    /// A multi-select question must list at least one correct answer.
    EmptyMultiAnswer,
    /// A word not found in the dictionary.
    Spelling(String),
    /// The document does not parse, or does not match the quiz schema;
    /// carries the cause.
    ParseFault(String),
    /// The program compiles although the answer claims it does not.
    CompilesButClaimedNot,
    /// The program compiles but the answer gives no expected output.
    CompiledButNoStdout,
    /// The program does not compile although the answer claims it does;
    /// carries the compiler's error output.
    NoCompileButClaimedYes(String),
    /// The program does not compile but the answer claims an output.
    NoCompileButStdout,
    /// The compiled program failed when executed; carries its error
    /// output.
    RunFailed(String),
    /// The program's output differs from the claimed output; carries the
    /// claimed and the actual output.
    StdoutMismatch(String, String),
}

/// The view of [`DiagMessage`].
#[verifier::ext_equal]
pub enum DiagMessageV {
    EmptyQuiz,
    DuplicateId(Seq<char>),
    MissingMultipart(Seq<char>),
    AnswerIndexTooLarge,
    IndexAndSort,
    EmptyMultiAnswer,
    Spelling(Seq<char>),
    ParseFault(Seq<char>),
    CompilesButClaimedNot,
    CompiledButNoStdout,
    NoCompileButClaimedYes(Seq<char>),
    NoCompileButStdout,
    RunFailed(Seq<char>),
    StdoutMismatch(Seq<char>, Seq<char>),
}

impl View for DiagMessage {
    type V = DiagMessageV;

    open spec fn view(&self) -> DiagMessageV {
        match self {
            DiagMessage::EmptyQuiz => DiagMessageV::EmptyQuiz,
            DiagMessage::DuplicateId(s) => DiagMessageV::DuplicateId(s@),
            DiagMessage::MissingMultipart(s) => DiagMessageV::MissingMultipart(s@),
            DiagMessage::AnswerIndexTooLarge => DiagMessageV::AnswerIndexTooLarge,
            DiagMessage::IndexAndSort => DiagMessageV::IndexAndSort,
            DiagMessage::EmptyMultiAnswer => DiagMessageV::EmptyMultiAnswer,
            DiagMessage::Spelling(s) => DiagMessageV::Spelling(s@),
            DiagMessage::ParseFault(s) => DiagMessageV::ParseFault(s@),
            DiagMessage::CompilesButClaimedNot => DiagMessageV::CompilesButClaimedNot,
            DiagMessage::CompiledButNoStdout => DiagMessageV::CompiledButNoStdout,
            DiagMessage::NoCompileButClaimedYes(s) => DiagMessageV::NoCompileButClaimedYes(s@),
            DiagMessage::NoCompileButStdout => DiagMessageV::NoCompileButStdout,
            DiagMessage::RunFailed(s) => DiagMessageV::RunFailed(s@),
            DiagMessage::StdoutMismatch(a, b) => DiagMessageV::StdoutMismatch(a@, b@),
        }
    }
}

/// One finding: a message, whether it fails the validation call, and the
/// byte ranges of the document it points at.
pub struct Diagnostic {
    /// Whether the finding fails the overall validation call.
    pub fatal: bool,
    /// What the finding says.
    pub message: DiagMessage,
    /// The byte ranges the finding points at.
    pub spans: Vec<Span>,
}

/// The view of [`Diagnostic`].
#[verifier::ext_equal]
pub struct DiagnosticV {
    pub fatal: bool,
    pub message: DiagMessageV,
    pub spans: Seq<Span>,
}

impl View for Diagnostic {
    type V = DiagnosticV;

    open spec fn view(&self) -> DiagnosticV {
        DiagnosticV { fatal: self.fatal, message: self.message@, spans: self.spans@ }
    }
}

/// The views of a list of diagnostics.
pub open spec fn diags_view(ds: Seq<Diagnostic>) -> Seq<DiagnosticV> {
    Seq::new(ds.len(), |i: int| ds[i]@)
}

/// Whether any finding of the list is fatal.
pub open spec fn has_fatal(ds: Seq<DiagnosticV>) -> bool {
    exists|i: int| 0 <= i < ds.len() && ds[i].fatal
}

/// The duplicate-identifier finding.
pub open spec fn dup_id_diag(id: Seq<char>, span: Span) -> DiagnosticV {
    DiagnosticV { fatal: true, message: DiagMessageV::DuplicateId(id), spans: seq![span] }
}

/// What checking `id` against the session set `ids` records.
pub open spec fn id_check_diags(ids: Set<Seq<char>>, id: Seq<char>, span: Span) -> Seq<
    DiagnosticV,
> {
    if ids.contains(id) {
        seq![dup_id_diag(id, span)]
    } else {
        Seq::empty()
    }
}

/// The sink for the diagnostics of one document's validation.
pub struct ValidationContext {
    path: String,
    contents: Vec<u8>,
    diagnostics: Vec<Diagnostic>,
}

/// The view of [`ValidationContext`].
#[verifier::ext_equal]
pub struct ValidationContextV {
    pub path: Seq<char>,
    pub contents: Seq<u8>,
    pub diags: Seq<DiagnosticV>,
}

impl View for ValidationContext {
    type V = ValidationContextV;

    closed spec fn view(&self) -> ValidationContextV {
        ValidationContextV {
            path: self.path@,
            contents: self.contents@,
            diags: diags_view(self.diagnostics@),
        }
    }
}

impl ValidationContext {
    /// An empty context for the document at `path` with text `contents`.
    pub fn new(path: &str, contents: &str) -> (r: ValidationContext)
        ensures
            r@.path == path@,
            r@.contents == contents.spec_bytes(),
            r@.diags == Seq::<DiagnosticV>::empty(),
    {
        let r = ValidationContext {
            path: path.to_owned(),
            contents: contents.as_bytes_vec(),
            diagnostics: Vec::new(),
        };
        proof {
            assert(r@.diags =~= Seq::<DiagnosticV>::empty());
        }
        r
    }

    /// Records a finding.
    pub fn add_diagnostic(&mut self, fatal: bool, message: DiagMessage, spans: Vec<Span>)
        ensures
            final(self)@.diags == old(self)@.diags.push(
                DiagnosticV { fatal, message: message@, spans: spans@ },
            ),
            final(self)@.path == old(self)@.path,
            final(self)@.contents == old(self)@.contents,
    {
        let ghost m = message@;
        let ghost sp = spans@;
        self.diagnostics.push(Diagnostic { fatal, message, spans });
        proof {
            assert(final(self)@.diags =~= old(self)@.diags.push(
                DiagnosticV { fatal, message: m, spans: sp },
            ));
        }
    }

    /// Records a fatal finding: the overall call will fail.
    pub fn error(&mut self, message: DiagMessage, spans: Vec<Span>)
        ensures
            final(self)@.diags == old(self)@.diags.push(
                DiagnosticV { fatal: true, message: message@, spans: spans@ },
            ),
            final(self)@.path == old(self)@.path,
            final(self)@.contents == old(self)@.contents,
    {
        self.add_diagnostic(true, message, spans);
    }

    /// Records an advisory finding: reported, but never failing the call.
    pub fn warning(&mut self, message: DiagMessage, spans: Vec<Span>)
        ensures
            final(self)@.diags == old(self)@.diags.push(
                DiagnosticV { fatal: false, message: message@, spans: spans@ },
            ),
            final(self)@.path == old(self)@.path,
            final(self)@.contents == old(self)@.contents,
    {
        self.add_diagnostic(false, message, spans);
    }

    /// Inserts `id` into the session-wide identifier set; if it was
    /// already present, records a fatal duplicate-identifier finding
    /// labeled at `span`.  The check spans all documents validated in the
    /// session.
    pub fn check_id(&mut self, session: &mut Validated, id: &str, span: Span)
        ensures
            final(self)@.diags == old(self)@.diags + id_check_diags(
                old(session)@.ids,
                id@,
                span,
            ),
            final(self)@.path == old(self)@.path,
            final(self)@.contents == old(self)@.contents,
            final(session)@.ids == old(session)@.ids.insert(id@),
            final(session)@.paths == old(session)@.paths,
    {
        let fresh = session.insert_id(id);
        if !fresh {
            let mut spans = Vec::new();
            spans.push(span);
            self.error(DiagMessage::DuplicateId(id.to_owned()), spans);
            proof {
                assert(final(self)@.diags =~= old(self)@.diags + id_check_diags(
                    old(session)@.ids,
                    id@,
                    span,
                ));
            }
        } else {
            proof {
                assert(final(self)@.diags =~= old(self)@.diags + id_check_diags(
                    old(session)@.ids,
                    id@,
                    span,
                ));
            }
        }
    }

    /// The bytes of the document under validation.
    pub fn contents(&self) -> (r: &Vec<u8>)
        ensures
            r@ == self@.contents,
    {
        &self.contents
    }

    /// The path of the document under validation.
    pub fn path(&self) -> (r: &String)
        ensures
            r@ == self@.path,
    {
        &self.path
    }

    /// The findings recorded so far, in order.
    pub fn diagnostics(&self) -> (r: &Vec<Diagnostic>)
        ensures
            diags_view(r@) == self@.diags,
    {
        &self.diagnostics
    }

    /// Whether any finding recorded so far is fatal.
    pub fn is_fatal(&self) -> (r: bool)
        ensures
            r == has_fatal(self@.diags),
    {
        let mut i: usize = 0;
        while i < self.diagnostics.len()
            invariant
                i <= self.diagnostics@.len(),
                diags_view(self.diagnostics@) == self@.diags,
                forall|j: int| 0 <= j < i ==> !self@.diags[j].fatal,
            decreases self.diagnostics@.len() - i,
        {
            if self.diagnostics[i].fatal {
                proof {
                    assert(self@.diags[i as int].fatal);
                }
                return true;
            }
            i += 1;
        }
        false
    }
}

} // verus!
