//! Contracts as trees of expressions, and what lints say of them.

use vstd::prelude::*;

verus! {

/// A version of the Clarity language.
#[derive(Debug, PartialEq, Eq, Structural, Clone, Copy)]
pub enum ClarityVersion {
    Clarity1,
    Clarity2,
    Clarity3,
    Clarity4,
    Clarity5,
    Clarity6,
}

/// Where an expression stands in its source; lines count from one.
#[derive(Debug, PartialEq, Eq, Structural, Clone, Copy)]
pub struct Span {
    pub start_line: u32,
    pub start_column: u32,
    pub end_line: u32,
    pub end_column: u32,
}

/// An expression.
#[derive(Debug, PartialEq)]
pub struct SymbolicExpression {
    pub expr: SymbolicExpressionType,
    pub span: Span,
}

/// What an expression is.
#[derive(Debug, PartialEq)]
pub enum SymbolicExpressionType {
    Atom(String),
    List(Vec<SymbolicExpression>),
    /// A literal, a field of a trait or a reference to one.
    Other,
}

/// A parsed contract.
#[derive(Debug, PartialEq)]
pub struct ContractAnalysis {
    pub clarity_version: ClarityVersion,
    pub expressions: Vec<SymbolicExpression>,
}

/// How grave a finding is.
#[derive(Debug, PartialEq, Eq, Structural, Clone, Copy)]
pub enum Level {
    Note,
    Warning,
    Error,
}

/// A finding.
#[derive(Debug, PartialEq)]
pub struct Diagnostic {
    pub level: Level,
    pub message: String,
    pub spans: Vec<Span>,
    pub suggestion: Option<String>,
}

pub struct DiagnosticView {
    pub level: Level,
    pub message: Seq<char>,
    pub spans: Seq<Span>,
    pub suggestion: Option<Seq<char>>,
}

impl View for Diagnostic {
    type V = DiagnosticView;

    open spec fn view(&self) -> DiagnosticView {
        DiagnosticView {
            level: self.level,
            message: self.message@,
            spans: self.spans@,
            suggestion: crate::text::opt_text(self.suggestion),
        }
    }
}

/// The views of a list of findings.
pub open spec fn findings(list: Seq<Diagnostic>) -> Seq<DiagnosticView> {
    list.map_values(|diagnostic: Diagnostic| diagnostic@)
}

/// A warning that a contract can switch off.
#[derive(Debug, PartialEq, Eq, Structural, Clone, Copy)]
pub enum WarningKind {
    RenamedWithStacking,
    /// Any other warning.
    Other,
}

/// What an annotation says.
#[derive(Debug, PartialEq)]
pub enum AnnotationKind {
    /// It switches warnings off.
    Allow(Vec<WarningKind>),
    /// Anything else.
    Other,
}

/// A comment for the tools. It is about what starts on the line below it.
#[derive(Debug, PartialEq)]
pub struct Annotation {
    pub kind: AnnotationKind,
    pub span: Span,
}

/// A lint.
#[derive(Debug, PartialEq, Eq, Structural, Clone, Copy)]
pub enum LintName {
    RenamedWithStacking,
}

/// Whether an annotation is about what stands at `span`.
pub open spec fn is_about(annotation: Annotation, span: Span) -> bool {
    annotation.span.start_line + 1 == span.start_line
}

/// The position of the first annotation about what stands at `span`.
pub fn get_index_of_span(annotations: &[Annotation], span: &Span) -> (index: Option<usize>)
    ensures
        match index {
            Some(index) => {
                &&& index < annotations@.len()
                &&& is_about(annotations@[index as int], *span)
                &&& forall|i: int| 0 <= i < index ==> !is_about(#[trigger] annotations@[i], *span)
            },
            None => forall|i: int|
                0 <= i < annotations@.len() ==> !is_about(#[trigger] annotations@[i], *span),
        },
{
    let mut i: usize = 0;
    while i < annotations.len()
        invariant
            i <= annotations@.len(),
            forall|k: int| 0 <= k < i ==> !is_about(#[trigger] annotations@[k], *span),
        decreases annotations@.len() - i,
    {
        let line: u32 = annotations[i].span.start_line;
        if line < span.start_line && span.start_line - line == 1 {
            return Some(i);
        }
        i += 1;
    }
    None
}

} // verus!
