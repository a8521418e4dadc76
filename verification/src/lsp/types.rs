//! The editor-protocol values the library produces: completion kinds,
//! completion items, positions and ranges.

use vstd::prelude::*;

verus! {

/// The kind of a completion candidate, as shown by the editor.
#[derive(Debug, Clone, Copy, PartialEq, Eq, Structural)]
pub enum CompletionItemKind {
    Keyword,
    Function,
    Method,
    Property,
    Module,
    Variable,
    Constant,
    Class,
    Interface,
    Enum,
    EnumMember,
    Field,
}

/// One completion candidate.
#[derive(Debug, Clone)]
pub struct CompletionItem {
    pub label: String,
    pub kind: Option<CompletionItemKind>,
    pub detail: Option<String>,
    /// Markdown documentation.
    pub documentation: Option<String>,
    pub insert_text: Option<String>,
    /// `Some(true)` when `insert_text` is plain text.
    pub insert_text_plain: Option<bool>,
    pub filter_text: Option<String>,
    pub sort_text: Option<String>,
}

/// A zero-based line / character position.
#[derive(Debug, Clone, Copy, PartialEq, Eq, Structural)]
pub struct Position {
    pub line: u32,
    pub character: u32,
}

/// A half-open range between two positions.
#[derive(Debug, Clone, Copy, PartialEq, Eq, Structural)]
pub struct Range {
    pub start: Position,
    pub end: Position,
}

/// A hover: Markdown contents and the range of the hovered identifier.
#[derive(Debug, Clone)]
pub struct Hover {
    pub contents: String,
    pub range: Option<Range>,
}

/// How serious a diagnostic is.
#[derive(Debug, Clone, Copy, PartialEq, Eq, Structural)]
pub enum DiagnosticSeverity {
    Error,
    Warning,
    Information,
    Hint,
}

/// A problem reported on a range of the document.
#[derive(Debug, Clone)]
pub struct Diagnostic {
    pub range: Range,
    pub severity: Option<DiagnosticSeverity>,
    /// Which tool reported it.
    pub source: Option<String>,
    pub message: String,
}

} // verus!
