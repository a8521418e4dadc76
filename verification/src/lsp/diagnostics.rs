//! Diagnostics: lex errors, then parse errors, then validation issues
//! (unused declarations as warnings; duplicates and `break` / `continue`
//! outside a loop as errors), each anchored at its position.

use crate::lsp::types::{Diagnostic, DiagnosticSeverity, Position, Range};
use crate::syntax::ast::Program;
use crate::syntax::parser::ParseError;
use crate::validation::validate::spec_validate;
use crate::text::{nat_digits, owned, usize_decimal};
use crate::validation::issues::{spec_decl_label, ValidationIssue};
use vstd::string::StrSliceExecFns;
use vstd::prelude::*;

use crate::syntax::lexer::lex_from;

verus! {

/// The tool name diagnostics carry.
pub open spec fn spec_source() -> Seq<char> {
    "arcis-lsp"@
}

/// The diagnostic comes from `arcis-lsp`.
pub open spec fn has_source(d: Diagnostic) -> bool {
    d.source matches Some(s) && s@ == spec_source()
}

/// A 1-based position as a 0-based one (0 stays 0).
pub open spec fn zero_based(x: usize) -> u32 {
    (if x > 0 {
        x - 1
    } else {
        0
    }) as u32
}

/// A diagnostic at a 1-based `line` / `col`, `len` characters long (at
/// least one).
pub open spec fn spec_at(line: usize, col: usize, len: nat, severity: DiagnosticSeverity, message: Seq<char>) -> (
    Range,
    DiagnosticSeverity,
    Seq<char>,
) {
    let l = zero_based(line);
    let c = zero_based(col);
    let w = if len > 1 {
        len
    } else {
        1
    };
    let end = if c + (w as u32) > u32::MAX {
        u32::MAX
    } else {
        (c + (w as u32)) as u32
    };
    (
        Range { start: Position { line: l, character: c }, end: Position { line: l, character: end } },
        severity,
        message,
    )
}

/// A diagnostic's range, severity and message.
pub open spec fn diag_view(d: Diagnostic) -> (Range, DiagnosticSeverity, Seq<char>) {
    (d.range, d.severity.unwrap(), d.message@)
}

/// The diagnostic for a validation issue.
pub open spec fn spec_from_validation(issue: ValidationIssue) -> (Range, DiagnosticSeverity, Seq<char>) {
    match issue {
        ValidationIssue::Unused(u) => spec_at(
            u.line,
            u.col,
            u.name@.len(),
            DiagnosticSeverity::Warning,
            "unused "@ + spec_decl_label(u.kind) + " `"@ + u.name@ + "`"@,
        ),
        ValidationIssue::Duplicate(d) => spec_at(
            d.second_line,
            d.second_col,
            d.name@.len(),
            DiagnosticSeverity::Error,
            "duplicate "@ + spec_decl_label(d.kind) + " `"@ + d.name@ + "` (first declared at "@
                + nat_digits(d.first_line as nat) + ":"@ + nat_digits(d.first_col as nat) + ")"@,
        ),
        ValidationIssue::BreakOutsideLoop { keyword, line, col } => spec_at(
            line,
            col,
            keyword@.len(),
            DiagnosticSeverity::Error,
            "`"@ + keyword@ + "` outside of a loop"@,
        ),
    }
}

fn make_at(line: usize, col: usize, len: usize, severity: DiagnosticSeverity, message: String) -> (r: Diagnostic)
    ensures
        diag_view(r) == spec_at(line, col, len as nat, severity, message@),
        r.severity == Some(severity),
        r.source matches Some(s) && s@ == spec_source(),
{
    let l: u32 = (if line > 0 {
        line - 1
    } else {
        0
    }) as u32;
    let c: u32 = (if col > 0 {
        col - 1
    } else {
        0
    }) as u32;
    let w: usize = if len > 1 {
        len
    } else {
        1
    };
    let end = c.saturating_add(w as u32);
    Diagnostic {
        range: Range { start: Position { line: l, character: c }, end: Position { line: l, character: end } },
        severity: Some(severity),
        source: Some(owned("arcis-lsp")),
        message,
    }
}

/// The diagnostic for a validation issue.
pub fn from_validation(issue: &ValidationIssue) -> (r: Diagnostic)
    ensures
        diag_view(r) == spec_from_validation(*issue),
        r.severity == Some(spec_from_validation(*issue).1),
        r.source matches Some(s) && s@ == spec_source(),
{
    match issue {
        ValidationIssue::Unused(u) => {
            let mut m = owned("unused ");
            m.append(u.kind.label());
            m.append(" `");
            m.append(u.name.as_str());
            m.append("`");
            make_at(u.line, u.col, u.name.as_str().unicode_len(), DiagnosticSeverity::Warning, m)
        },
        ValidationIssue::Duplicate(d) => {
            let mut m = owned("duplicate ");
            m.append(d.kind.label());
            m.append(" `");
            m.append(d.name.as_str());
            m.append("` (first declared at ");
            m.append(usize_decimal(d.first_line).as_str());
            m.append(":");
            m.append(usize_decimal(d.first_col).as_str());
            m.append(")");
            make_at(d.second_line, d.second_col, d.name.as_str().unicode_len(), DiagnosticSeverity::Error, m)
        },
        ValidationIssue::BreakOutsideLoop { keyword, line, col } => {
            let mut m = owned("`");
            m.append(keyword);
            m.append("` outside of a loop");
            make_at(*line, *col, keyword.unicode_len(), DiagnosticSeverity::Error, m)
        },
    }
}

/// The diagnostic for a parse error: one character at its position.
pub fn from_parse(e: ParseError) -> (r: Diagnostic)
    ensures
        diag_view(r) == spec_at(e.line, e.col, 1, DiagnosticSeverity::Error, e.msg@),
        r.severity == Some(DiagnosticSeverity::Error),
        r.source matches Some(s) && s@ == spec_source(),
{
    make_at(e.line, e.col, 1, DiagnosticSeverity::Error, e.msg)
}

/// A diagnostic over the whole document.
pub fn full_document_diagnostic(message: &str, severity: DiagnosticSeverity) -> (r: Diagnostic)
    ensures
        r.range == (Range {
            start: Position { line: 0, character: 0 },
            end: Position { line: u32::MAX, character: u32::MAX },
        }),
        r.severity == Some(severity),
        r.source matches Some(s) && s@ == spec_source(),
        r.message@ == message@,
{
    Diagnostic {
        range: Range {
            start: Position { line: 0, character: 0 },
            end: Position { line: u32::MAX, character: u32::MAX },
        },
        severity: Some(severity),
        source: Some(owned("arcis-lsp")),
        message: owned(message),
    }
}

/// The message of the diagnostic for a document that does not lex.
pub open spec fn lex_error_message() -> Seq<char> {
    "lex error: couldn't tokenise the document"@
}

/// Every issue found in `text`: a lex error (over the whole document),
/// else a parse error (at its position), else one diagnostic per
/// validation issue, in order. Every diagnostic is an error or a warning
/// from `arcis-lsp`.
/// `ds` are the diagnostics of the validation issues of `p`, in order.
pub open spec fn validation_diagnostics(p: Program, ds: Seq<Diagnostic>) -> bool {
    &&& ds.len() == spec_validate(p.stmts@).len()
    &&& forall|i: int| 0 <= i < ds.len() ==> diag_view(#[trigger] ds[i]) == spec_from_validation(spec_validate(p.stmts@)[i])
}

/// The one diagnostic of a document that does not lex: an error over the
/// whole document.
pub open spec fn is_lex_failure(d: Diagnostic) -> bool {
    &&& d.range == (Range {
        start: Position { line: 0, character: 0 },
        end: Position { line: u32::MAX, character: u32::MAX },
    })
    &&& d.severity == Some(DiagnosticSeverity::Error)
    &&& d.message@ == "lex error: couldn't tokenise the document"@
}

/// The one diagnostic of a document that does not parse: an error at the
/// parse error's position.
pub open spec fn is_parse_failure(d: Diagnostic) -> bool {
    exists|e: ParseError|
        diag_view(d) == #[trigger] spec_at(e.line, e.col, 1, DiagnosticSeverity::Error, e.msg@)
            && d.severity == Some(DiagnosticSeverity::Error)
}

/// The diagnostics of a document: one error when it does not lex or parse;
/// otherwise one per validation issue of the program it parses to.
pub fn diagnostics_for(text: &str) -> (r: Vec<Diagnostic>)
    ensures
        lex_from(text@, 0, 1, 1) is Err ==> r@.len() == 1 && is_lex_failure(r@[0]),
        (r@.len() == 1 && (is_lex_failure(r@[0]) || is_parse_failure(r@[0]))) || exists|p: Program|
            #[trigger] validation_diagnostics(p, r@),
        forall|i: int| 0 <= i < r@.len() ==> has_source(#[trigger] r@[i]),
        forall|i: int|
            0 <= i < r@.len() ==> (#[trigger] r@[i]).severity == Some(DiagnosticSeverity::Error) || r@[i].severity
                == Some(DiagnosticSeverity::Warning),
{
    let mut out: Vec<Diagnostic> = Vec::new();
    if text.unicode_len() >= usize::MAX - 4 {
        out.push(full_document_diagnostic("lex error: couldn't tokenise the document", DiagnosticSeverity::Error));
        return out;
    }
    let tokens = match crate::syntax::lexer::lex(text) {
        Ok(t) => t,
        Err(_) => {
            out.push(full_document_diagnostic("lex error: couldn't tokenise the document", DiagnosticSeverity::Error));
            return out;
        },
    };
    let program = match crate::syntax::parser::parse(tokens) {
        Ok(p) => p,
        Err(e) => {
            let ghost ev = e;
            let d = from_parse(e);
            proof {
                assert(diag_view(d) == spec_at(ev.line, ev.col, 1, DiagnosticSeverity::Error, ev.msg@));
            }
            out.push(d);
            return out;
        },
    };
    let issues = crate::validation::validate::validate(&program);
    let mut i: usize = 0;
    while i < issues.len()
        invariant
            i <= issues@.len(),
            issues@ == spec_validate(program.stmts@),
            out@.len() == i,
            forall|k: int| 0 <= k < i ==> diag_view(#[trigger] out@[k]) == spec_from_validation(issues@[k]),
            forall|k: int| 0 <= k < out@.len() ==> has_source(#[trigger] out@[k]),
            forall|k: int|
                0 <= k < out@.len() ==> (#[trigger] out@[k]).severity == Some(DiagnosticSeverity::Error)
                    || out@[k].severity == Some(DiagnosticSeverity::Warning),
        decreases issues@.len() - i,
    {
        let d = from_validation(&issues[i]);
        out.push(d);
        i += 1;
    }
    proof {
        assert(validation_diagnostics(program, out@));
    }
    out
}

} // verus!
