//! The diagnostic model: stable codes, severities, spans and fix hints,
//! gathered in insertion order into a report.
use vstd::prelude::*;

verus! {

#[derive(Debug, Clone, Copy, PartialEq, Eq, Structural)]
pub enum Severity {
    Error,
    Warning,
}

/// A source region: 1-based lines and columns, or all zeros when unknown.
#[derive(Debug, Clone, PartialEq, Eq)]
pub struct Span {
    pub file: String,
    pub start_line: u32,
    pub start_col: u32,
    pub end_line: u32,
    pub end_col: u32,
}

/// What a span denotes: the file name as characters and the four positions.
pub struct SpanV {
    pub file: Seq<char>,
    pub start_line: nat,
    pub start_col: nat,
    pub end_line: nat,
    pub end_col: nat,
}

impl View for Span {
    type V = SpanV;

    open spec fn view(&self) -> SpanV {
        SpanV {
            file: self.file@,
            start_line: self.start_line as nat,
            start_col: self.start_col as nat,
            end_line: self.end_line as nat,
            end_col: self.end_col as nat,
        }
    }
}

impl Span {
    /// Unknown span for fallback paths.
    pub fn unknown(file: &str) -> (r: Span)
        ensures
            r@ == (SpanV { file: file@, start_line: 0, start_col: 0, end_line: 0, end_col: 0 }),
    {
        Span { file: file.to_owned(), start_line: 0, start_col: 0, end_line: 0, end_col: 0 }
    }

    /// A zero-width span at one position.
    pub fn single_point(file: &str, line: u32, col: u32) -> (r: Span)
        ensures
            r@ == (SpanV {
                file: file@,
                start_line: line as nat,
                start_col: col as nat,
                end_line: line as nat,
                end_col: col as nat,
            }),
    {
        Span { file: file.to_owned(), start_line: line, start_col: col, end_line: line, end_col: col }
    }

    /// A copy of this span.
    pub fn copied(&self) -> (r: Span)
        ensures
            r@ == self@,
    {
        Span {
            file: self.file.clone(),
            start_line: self.start_line,
            start_col: self.start_col,
            end_line: self.end_line,
            end_col: self.end_col,
        }
    }
}

/// An advisory patch hint: replace one text with another.
#[derive(Debug, Clone, PartialEq, Eq)]
pub struct Fix {
    pub replace: String,
    pub with: String,
}

/// A diagnostic with a stable machine code such as `type-mismatch`.
#[derive(Debug, Clone, PartialEq, Eq)]
pub struct Diagnostic {
    pub code: String,
    pub severity: Severity,
    pub message: String,
    pub span: Span,
    pub fix: Option<Fix>,
}

/// What a diagnostic denotes, with every text as characters.
pub struct DiagV {
    pub code: Seq<char>,
    pub severity: Severity,
    pub message: Seq<char>,
    pub span: SpanV,
    pub fix: Option<(Seq<char>, Seq<char>)>,
}

impl View for Diagnostic {
    type V = DiagV;

    open spec fn view(&self) -> DiagV {
        DiagV {
            code: self.code@,
            severity: self.severity,
            message: self.message@,
            span: self.span@,
            fix: match self.fix {
                Some(f) => Some((f.replace@, f.with@)),
                None => None,
            },
        }
    }
}

/// An error diagnostic without a fix.
pub open spec fn error_v(code: Seq<char>, message: Seq<char>, span: SpanV) -> DiagV {
    DiagV { code, severity: Severity::Error, message, span, fix: None }
}

/// An error diagnostic with a fix hint.
pub open spec fn error_fix_v(
    code: Seq<char>,
    message: Seq<char>,
    span: SpanV,
    replace: Seq<char>,
    with: Seq<char>,
) -> DiagV {
    DiagV { code, severity: Severity::Error, message, span, fix: Some((replace, with)) }
}

/// Whether some diagnostic of the sequence is an error.
pub open spec fn has_error(ds: Seq<DiagV>) -> bool {
    exists|i: int| 0 <= i < ds.len() && (#[trigger] ds[i]).severity == Severity::Error
}

/// Whether some diagnostic of the sequence carries the given code.
pub open spec fn has_code(ds: Seq<DiagV>, code: Seq<char>) -> bool {
    exists|i: int| 0 <= i < ds.len() && (#[trigger] ds[i]).code == code
}

impl Diagnostic {
    pub fn error(code: &str, message: &str, span: Span) -> (r: Diagnostic)
        ensures
            r@ == error_v(code@, message@, span@),
    {
        Diagnostic {
            code: code.to_owned(),
            severity: Severity::Error,
            message: message.to_owned(),
            span,
            fix: None,
        }
    }

    pub fn warning(code: &str, message: &str, span: Span) -> (r: Diagnostic)
        ensures
            r@ == (DiagV {
                code: code@,
                severity: Severity::Warning,
                message: message@,
                span: span@,
                fix: None,
            }),
    {
        Diagnostic {
            code: code.to_owned(),
            severity: Severity::Warning,
            message: message.to_owned(),
            span,
            fix: None,
        }
    }

    pub fn with_fix(self, replace: String, with: String) -> (r: Diagnostic)
        ensures
            r@ == (DiagV { fix: Some((replace@, with@)), ..self@ }),
    {
        let mut d = self;
        d.fix = Some(Fix { replace, with });
        d
    }
}

/// The diagnostics of one run, in the order in which they were found.
#[derive(Debug, Clone, PartialEq, Eq)]
pub struct DiagnosticReport {
    pub diagnostics: Vec<Diagnostic>,
}

impl View for DiagnosticReport {
    type V = Seq<DiagV>;

    open spec fn view(&self) -> Seq<DiagV> {
        self.diagnostics@.map_values(|d: Diagnostic| d@)
    }
}

impl DiagnosticReport {
    pub fn new() -> (r: DiagnosticReport)
        ensures
            r@ == Seq::<DiagV>::empty(),
    {
        let r = DiagnosticReport { diagnostics: Vec::new() };
        assert(r@ =~= Seq::<DiagV>::empty());
        r
    }

    pub fn push(&mut self, d: Diagnostic)
        ensures
            final(self)@ == old(self)@.push(d@),
    {
        self.diagnostics.push(d);
        assert(final(self)@ =~= old(self)@.push(d@));
    }

    /// True iff no diagnostic has severity `Error`.
    pub fn is_ok(&self) -> (r: bool)
        ensures
            r == !has_error(self@),
    {
        let mut i: usize = 0;
        while i < self.diagnostics.len()
            invariant
                0 <= i <= self.diagnostics@.len(),
                forall|j: int| 0 <= j < i ==> self@[j].severity != Severity::Error,
            decreases self.diagnostics@.len() - i,
        {
            if self.diagnostics[i].severity == Severity::Error {
                assert(self@[i as int].severity == Severity::Error);
                return false;
            }
            i += 1;
        }
        true
    }
}

impl Default for DiagnosticReport {
    fn default() -> (r: DiagnosticReport)
        ensures
            r@ == Seq::<DiagV>::empty(),
    {
        DiagnosticReport::new()
    }
}

} // verus!
