//! Validation issues: unused declarations, duplicate declarations and
//! `break` / `continue` outside of a loop, and their text report.

use crate::text::{nat_digits, owned, usize_decimal};
use vstd::prelude::*;

verus! {

/// Category of a declaration that may be flagged unused or duplicate.
#[derive(Debug, Clone, Copy, PartialEq, Eq, Structural)]
pub enum DeclKind {
    Variable,
    Parameter,
}

pub open spec fn spec_decl_label(k: DeclKind) -> Seq<char> {
    match k {
        DeclKind::Variable => "variable"@,
        DeclKind::Parameter => "parameter"@,
    }
}

impl DeclKind {
    pub fn label(&self) -> (r: &'static str)
        ensures
            r@ == spec_decl_label(*self),
    {
        match self {
            DeclKind::Variable => "variable",
            DeclKind::Parameter => "parameter",
        }
    }
}

/// A declaration never used inside its scope.
#[derive(Debug)]
pub struct UnusedDecl {
    pub kind: DeclKind,
    pub name: String,
    pub line: usize,
    pub col: usize,
}

impl Clone for UnusedDecl {
    fn clone(&self) -> (r: Self)
        ensures
            r == *self,
    {
        UnusedDecl { kind: self.kind, name: self.name.clone(), line: self.line, col: self.col }
    }
}

/// Two declarations of one name in one scope.
#[derive(Debug)]
pub struct DuplicateDecl {
    pub kind: DeclKind,
    pub name: String,
    pub first_line: usize,
    pub first_col: usize,
    pub second_line: usize,
    pub second_col: usize,
}

/// A validation issue.
#[derive(Debug)]
pub enum ValidationIssue {
    Unused(UnusedDecl),
    Duplicate(DuplicateDecl),
    BreakOutsideLoop { keyword: &'static str, line: usize, col: usize },
}

/// The report line(s) of one issue.
pub open spec fn issue_text(i: ValidationIssue, path: Seq<char>) -> Seq<char> {
    match i {
        ValidationIssue::Unused(u) => "error: "@ + spec_decl_label(u.kind) + " `"@ + u.name@
            + "` declared but never used\n --> "@ + path + ":"@ + nat_digits(u.line as nat) + ":"@
            + nat_digits(u.col as nat) + "\n"@,
        ValidationIssue::Duplicate(d) => "error: "@ + spec_decl_label(d.kind) + " `"@ + d.name@
            + "` already declared at "@ + path + ":"@ + nat_digits(d.first_line as nat) + ":"@
            + nat_digits(d.first_col as nat) + "\n --> "@ + path + ":"@ + nat_digits(d.second_line as nat)
            + ":"@ + nat_digits(d.second_col as nat) + "\n"@,
        ValidationIssue::BreakOutsideLoop { keyword, .. } => "error: `"@ + keyword@
            + "` used outside of any loop\n"@,
    }
}

/// The report lines of every issue, in order.
pub open spec fn issues_text(s: Seq<ValidationIssue>, path: Seq<char>) -> Seq<char>
    decreases s.len(),
{
    if s.len() == 0 {
        Seq::empty()
    } else {
        issues_text(s.drop_last(), path) + issue_text(s.last(), path)
    }
}

/// How many issues of each kind: unused, duplicate, outside a loop.
pub open spec fn issue_counts(s: Seq<ValidationIssue>) -> (nat, nat, nat)
    decreases s.len(),
{
    if s.len() == 0 {
        (0, 0, 0)
    } else {
        let (u, d, o) = issue_counts(s.drop_last());
        match s.last() {
            ValidationIssue::Unused(_) => (u + 1, d, o),
            ValidationIssue::Duplicate(_) => (u, d + 1, o),
            ValidationIssue::BreakOutsideLoop { .. } => (u, d, o + 1),
        }
    }
}

/// The summary after the issue lines: a blank line, then one count line
/// per kind that occurs; nothing when there are no issues.
pub open spec fn summary_text(s: Seq<ValidationIssue>) -> Seq<char> {
    let (u, d, o) = issue_counts(s);
    if s.len() == 0 {
        Seq::empty()
    } else {
        "\n"@ + (if u > 0 {
            nat_digits(u) + " declaration(s) unused.\n"@
        } else {
            Seq::empty()
        }) + (if d > 0 {
            nat_digits(d) + " duplicate declaration(s).\n"@
        } else {
            Seq::empty()
        }) + (if o > 0 {
            nat_digits(o) + " use(s) of break/continue outside of a loop.\n"@
        } else {
            Seq::empty()
        })
    }
}

/// The text report of `issues`, each located in `source_path`.
pub open spec fn spec_format_issues(s: Seq<ValidationIssue>, path: Seq<char>) -> Seq<char> {
    issues_text(s, path) + summary_text(s)
}

fn issue_line(issue: &ValidationIssue, source_path: &str) -> (r: String)
    ensures
        r@ == issue_text(*issue, source_path@),
{
    let mut out = String::new();
    match issue {
        ValidationIssue::Unused(u) => {
            out.append("error: ");
            out.append(u.kind.label());
            out.append(" `");
            out.append(u.name.as_str());
            out.append("` declared but never used\n --> ");
            out.append(source_path);
            out.append(":");
            out.append(usize_decimal(u.line).as_str());
            out.append(":");
            out.append(usize_decimal(u.col).as_str());
            out.append("\n");
        },
        ValidationIssue::Duplicate(d) => {
            out.append("error: ");
            out.append(d.kind.label());
            out.append(" `");
            out.append(d.name.as_str());
            out.append("` already declared at ");
            out.append(source_path);
            out.append(":");
            out.append(usize_decimal(d.first_line).as_str());
            out.append(":");
            out.append(usize_decimal(d.first_col).as_str());
            out.append("\n --> ");
            out.append(source_path);
            out.append(":");
            out.append(usize_decimal(d.second_line).as_str());
            out.append(":");
            out.append(usize_decimal(d.second_col).as_str());
            out.append("\n");
        },
        ValidationIssue::BreakOutsideLoop { keyword, .. } => {
            out.append("error: `");
            out.append(keyword);
            out.append("` used outside of any loop\n");
        },
    }
    out
}

/// Formats validation issues for the user: one report per issue, then a
/// count of each kind.
pub fn format_issues(issues: &Vec<ValidationIssue>, source_path: &str) -> (r: String)
    ensures
        r@ == spec_format_issues(issues@, source_path@),
{
    let mut out = String::new();
    let mut unused: usize = 0;
    let mut dup: usize = 0;
    let mut outside: usize = 0;
    let mut i: usize = 0;
    while i < issues.len()
        invariant
            i <= issues@.len(),
            out@ == issues_text(issues@.take(i as int), source_path@),
            issue_counts(issues@.take(i as int)) == (unused as nat, dup as nat, outside as nat),
            unused + dup + outside == i,
        decreases issues@.len() - i,
    {
        proof {
            assert(issues@.take(i + 1).drop_last() =~= issues@.take(i as int));
        }
        let line = issue_line(&issues[i], source_path);
        out.append(line.as_str());
        match &issues[i] {
            ValidationIssue::Unused(_) => {
                unused += 1;
            },
            ValidationIssue::Duplicate(_) => {
                dup += 1;
            },
            ValidationIssue::BreakOutsideLoop { .. } => {
                outside += 1;
            },
        }
        i += 1;
    }
    assert(issues@.take(issues@.len() as int) =~= issues@);
    if issues.len() > 0 {
        out.append("\n");
        if unused > 0 {
            out.append(usize_decimal(unused).as_str());
            out.append(" declaration(s) unused.\n");
        }
        if dup > 0 {
            out.append(usize_decimal(dup).as_str());
            out.append(" duplicate declaration(s).\n");
        }
        if outside > 0 {
            out.append(usize_decimal(outside).as_str());
            out.append(" use(s) of break/continue outside of a loop.\n");
        }
    }
    out
}

} // verus!
