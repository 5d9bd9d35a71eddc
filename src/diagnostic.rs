//! Diagnostics collected while compiling.
use vstd::prelude::*;
use crate::span::Span;
use crate::tokens::TokenKind;

verus! {

/// How serious a diagnostic is; `Fatal` is the more serious.
#[derive(Clone, Copy, Debug, PartialEq, Eq, Structural)]
pub enum DiagLevel {
    Fatal,
    Warning,
}

impl DiagLevel {
    pub open spec fn rank(self) -> int {
        match self {
            DiagLevel::Fatal => 0,
            DiagLevel::Warning => 1,
        }
    }

    /// Whether a diagnostic of this level is shown when the log level is `limit`.
    pub fn within(self, limit: DiagLevel) -> (r: bool)
        ensures
            r == (self.rank() <= limit.rank()),
    {
        match (self, limit) {
            (DiagLevel::Warning, DiagLevel::Fatal) => false,
            _ => true,
        }
    }
}

/// Why a number could not be read.
#[derive(Clone, Copy, Debug, PartialEq, Eq, Structural)]
pub enum IntError {
    Empty,
    InvalidDigit,
    PosOverflow,
}

#[derive(Clone, Debug, PartialEq)]
pub enum DiagKind {
    DuplicateLabel,
    UndefinedLabel,
    UnexpectedToken { found: TokenKind, expected: &'static str },
    ParseImmediate(IntError),
    IncompleteCharacter,
    UnsupportedCharacter(char),
}

#[derive(Clone, Debug, PartialEq)]
pub struct Diagnostic {
    pub level: DiagLevel,
    pub span: Span,
    pub kind: DiagKind,
}

pub open spec fn fatal(span: Span, kind: DiagKind) -> Diagnostic {
    Diagnostic { level: DiagLevel::Fatal, span, kind }
}

impl Diagnostic {
    pub fn fatal(span: Span, kind: DiagKind) -> (r: Diagnostic)
        ensures
            r == fatal(span, kind),
    {
        Diagnostic { level: DiagLevel::Fatal, span, kind }
    }

    /// The line (counted from one) on which the span starts, and the position where
    /// that line starts.
    pub fn get_line_info(&self, raw: &Vec<char>) -> (r: (usize, usize))
        requires
            raw@.len() < usize::MAX,
        ensures
            r.0 == 1 + newlines_before(raw@, min_len(self.span.start as int, raw@.len() as int)),
            r.1 == line_start(raw@, min_len(self.span.start as int, raw@.len() as int)),
    {
        let end = if self.span.start <= raw.len() { self.span.start } else { raw.len() };
        let mut line: usize = 1;
        let mut start: usize = 0;
        let mut i: usize = 0;
        while i < end
            invariant
                i <= end <= raw@.len(),
                end == min_len(self.span.start as int, raw@.len() as int),
                line == 1 + newlines_before(raw@, i as int),
                start == line_start(raw@, i as int),
                newlines_before(raw@, i as int) <= i,
                raw@.len() < usize::MAX,
            decreases end - i,
        {
            if raw[i] == '\n' {
                line = line + 1;
                start = i + 1;
            }
            i = i + 1;
        }
        (line, start)
    }
}

pub open spec fn min_len(a: int, b: int) -> int {
    if a <= b { a } else { b }
}

/// Number of newlines among the first `n` characters.
pub open spec fn newlines_before(s: Seq<char>, n: int) -> int
    decreases n,
{
    if n <= 0 {
        0
    } else {
        newlines_before(s, n - 1) + (if s[n - 1] == '\n' { 1int } else { 0int })
    }
}

/// Position just after the last newline among the first `n` characters, or zero.
pub open spec fn line_start(s: Seq<char>, n: int) -> int
    decreases n,
{
    if n <= 0 {
        0
    } else if s[n - 1] == '\n' {
        n
    } else {
        line_start(s, n - 1)
    }
}

/// The diagnostics of at least the given seriousness, in order.
pub fn select_diagnostics(diagnostics: &Vec<Diagnostic>, limit: DiagLevel) -> (r: Vec<Diagnostic>)
    ensures
        r@ == diagnostics@.filter(|d: Diagnostic| d.level.rank() <= limit.rank()),
{
    let mut out: Vec<Diagnostic> = Vec::new();
    let mut i: usize = 0;
    while i < diagnostics.len()
        invariant
            i <= diagnostics@.len(),
            out@ == diagnostics@.subrange(0, i as int).filter(|d: Diagnostic| d.level.rank() <= limit.rank()),
        decreases diagnostics@.len() - i,
    {
        proof {
            reveal(Seq::filter);
            assert(diagnostics@.subrange(0, i + 1).drop_last() =~= diagnostics@.subrange(0, i as int));
        }
        let d = &diagnostics[i];
        if d.level.within(limit) {
            out.push(Diagnostic { level: d.level, span: d.span, kind: copy_kind(&d.kind) });
        }
        i = i + 1;
    }
    assert(diagnostics@.subrange(0, diagnostics@.len() as int) =~= diagnostics@);
    out
}

fn copy_kind(k: &DiagKind) -> (r: DiagKind)
    ensures
        r == *k,
{
    match k {
        DiagKind::DuplicateLabel => DiagKind::DuplicateLabel,
        DiagKind::UndefinedLabel => DiagKind::UndefinedLabel,
        DiagKind::UnexpectedToken { found, expected } => DiagKind::UnexpectedToken { found: *found, expected: *expected },
        DiagKind::ParseImmediate(e) => DiagKind::ParseImmediate(*e),
        DiagKind::IncompleteCharacter => DiagKind::IncompleteCharacter,
        DiagKind::UnsupportedCharacter(c) => DiagKind::UnsupportedCharacter(*c),
    }
}

} // verus!
