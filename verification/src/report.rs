//! The diagnostic model: a severity-bearing kind tag, and a record carrying
//! an optional title, a primary span, an inline label and footers.
//!
//! Rendering a diagnostic to a terminal is presentation and lives outside the
//! library; only the diagnostic value is modelled here.

use vstd::prelude::*;

use crate::span::Span;

verus! {

/// The closed set of diagnostic kinds, each with a fixed severity.
#[derive(Debug, Clone, Copy, PartialEq, Eq, Structural)]
pub enum ReportKind {
    ArgumentParserError,
    // Lexer
    UnexpectedCharacter,
    UnterminatedMultilineComment,
    UnterminatedLiteral,
    EmptyLiteral,
    // Parser
    UnexpectedToken,
    UnexpectedEOF,
    InvalidNumber,
    // Analyzer
    Undefined,
    TypeError,
    // Code generator
    InvalidType,
    // General
    IOError,
    SyntaxError,
}

/// Severity scale: 1 note, 2 warning, 3 error, 4 argument error, 5 fatal.
pub open spec fn spec_severity(kind: ReportKind) -> u8 {
    match kind {
        ReportKind::ArgumentParserError => 4,
        _ => 3,
    }
}

/// The least severity that counts towards the error threshold.
pub const ERROR_SEVERITY: u8 = 3;

impl ReportKind {
    /// The kind's place in the severity ordering.
    pub fn severity(self) -> (s: u8)
        ensures
            s == spec_severity(self),
    {
        match self {
            ReportKind::ArgumentParserError => 4,
            _ => 3,
        }
    }

    /// A diagnostic of this kind with no title.
    pub fn untitled(self) -> (r: Report)
        ensures
            r == (Report {
                file: None,
                kind: self,
                title: None,
                span: None,
                label: None,
                footers: r.footers,
            }),
            r.footers@ =~= Seq::<String>::empty(),
    {
        Report {
            file: None,
            kind: self,
            title: None,
            span: None,
            label: None,
            footers: Vec::new(),
        }
    }

    /// A diagnostic of this kind with an explicit title.
    pub fn title(self, title: String) -> (r: Report)
        ensures
            r == (Report {
                file: None,
                kind: self,
                title: Some(title),
                span: None,
                label: None,
                footers: r.footers,
            }),
            r.footers@ =~= Seq::<String>::empty(),
    {
        Report {
            file: None,
            kind: self,
            title: Some(title),
            span: None,
            label: None,
            footers: Vec::new(),
        }
    }
}

/// One diagnostic record.
pub struct Report {
    pub file: Option<String>,
    pub kind: ReportKind,
    pub title: Option<String>,
    pub span: Option<Span>,
    pub label: Option<String>,
    pub footers: Vec<String>,
}

impl Report {
    /// Whether this diagnostic crosses the error threshold.
    pub open spec fn is_error(self) -> bool {
        spec_severity(self.kind) >= ERROR_SEVERITY
    }

    /// Attaches the primary span; the first call wins.
    pub fn span(self, span: Span) -> (r: Report)
        ensures
            r == (Report {
                span: if self.span is Some { self.span } else { Some(span) },
                ..self
            }),
    {
        if self.span.is_some() {
            self
        } else {
            Report { span: Some(span), ..self }
        }
    }

    /// Attaches a short inline label.
    pub fn label(self, label: String) -> (r: Report)
        ensures
            r == (Report { label: Some(label), ..self }),
    {
        Report { label: Some(label), ..self }
    }

    /// Appends a help footer: the text behind a `HELP: ` prefix.
    pub fn help(self, help: String) -> (r: Report)
        ensures
            r.footers@.len() == self.footers@.len() + 1,
            forall|i: int|
                0 <= i < self.footers@.len() ==> (#[trigger] r.footers@[i]) == self.footers@[i],
            r.footers@.last()@ == "HELP: "@ + help@,
            r == (Report { footers: r.footers, ..self }),
    {
        proof {
            reveal_strlit("HELP: ");
        }
        self.footer(String::from_str("HELP: ").concat(help.as_str()))
    }

    /// Appends an informational footer: the text behind an `INFO: ` prefix.
    pub fn info(self, info: String) -> (r: Report)
        ensures
            r.footers@.len() == self.footers@.len() + 1,
            forall|i: int|
                0 <= i < self.footers@.len() ==> (#[trigger] r.footers@[i]) == self.footers@[i],
            r.footers@.last()@ == "INFO: "@ + info@,
            r == (Report { footers: r.footers, ..self }),
    {
        proof {
            reveal_strlit("INFO: ");
        }
        self.footer(String::from_str("INFO: ").concat(info.as_str()))
    }

    /// Appends a note footer: the text behind a `NOTE: ` prefix.
    pub fn note(self, note: String) -> (r: Report)
        ensures
            r.footers@.len() == self.footers@.len() + 1,
            forall|i: int|
                0 <= i < self.footers@.len() ==> (#[trigger] r.footers@[i]) == self.footers@[i],
            r.footers@.last()@ == "NOTE: "@ + note@,
            r == (Report { footers: r.footers, ..self }),
    {
        proof {
            reveal_strlit("NOTE: ");
        }
        self.footer(String::from_str("NOTE: ").concat(note.as_str()))
    }

    /// Appends a footer line.
    pub fn footer(self, text: String) -> (r: Report)
        ensures
            r.footers@ == self.footers@.push(text),
            r == (Report { footers: r.footers, ..self }),
    {
        let mut r = self;
        r.footers.push(text);
        r
    }

    /// Names the source file the diagnostic points into.
    pub fn file(self, file: String) -> (r: Report)
        ensures
            r == (Report { file: Some(file), ..self }),
    {
        Report { file: Some(file), ..self }
    }

    /// This diagnostic as the error case of a result.
    pub fn as_err<T>(self) -> (r: Result<T, Report>)
        ensures
            r == Result::<T, Report>::Err(self),
    {
        Err(self)
    }
}

/// How many of the diagnostics cross the error threshold.
pub open spec fn spec_error_count(reports: Seq<Report>) -> nat
    decreases reports.len(),
{
    if reports.len() == 0 {
        0
    } else {
        spec_error_count(reports.drop_last()) + if reports.last().is_error() {
            1nat
        } else {
            0nat
        }
    }
}

/// Counts the diagnostics at or above the error threshold; the pipeline
/// driver polls this after each stage.
pub fn error_count(reports: &Vec<Report>) -> (n: usize)
    ensures
        n == spec_error_count(reports@),
{
    let mut n: usize = 0;
    let mut i: usize = 0;
    while i < reports.len()
        invariant
            i <= reports@.len(),
            n == spec_error_count(reports@.subrange(0, i as int)),
            n <= i,
        decreases reports@.len() - i,
    {
        proof {
            assert(reports@.subrange(0, i + 1).drop_last() =~= reports@.subrange(0, i as int));
            assert(reports@.subrange(0, i + 1).last() == reports@[i as int]);
        }
        if reports[i].kind.severity() >= ERROR_SEVERITY {
            n = n + 1;
        }
        i = i + 1;
    }
    proof {
        assert(reports@.subrange(0, reports@.len() as int) =~= reports@);
    }
    n
}

} // verus!
