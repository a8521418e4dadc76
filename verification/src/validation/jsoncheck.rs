//! `json(...)` calls: each must name a file whose shape is known at
//! compile time. A literal path whose file cannot be read or parsed, a
//! path that is not a literal, and a call without a path are errors.
//!
//! Reading the files is the caller's part: [`json_call_sites`] lists the
//! calls, and [`check_json_calls`] takes, for the literal paths that
//! failed, the reason each failed.

use crate::syntax::ast::{ArrayElement, ArrowBody, ExportDefault, Expr, ObjectField, Program, Stmt, SwitchCase};
use crate::text::str_eq;
use vstd::prelude::*;

verus! {

broadcast use vstd::std_specs::vec::group_vec_axioms;

/// One `json(...)` call validation failure, at the position of the
/// enclosing declaration or assignment (`(0, 0)` elsewhere).
#[derive(Debug, Clone)]
pub struct JsonCallIssue {
    pub message: String,
    pub line: usize,
    pub col: usize,
}

/// What a `json(...)` call was given as its path.
#[derive(Debug)]
pub enum JsonPath {
    Literal(String),
    Computed,
    Missing,
}

/// One `json(...)` call and the position it is reported at.
#[derive(Debug)]
pub struct JsonCallSite {
    pub path: JsonPath,
    pub line: usize,
    pub col: usize,
}

pub enum JsonPathView {
    Literal(Seq<char>),
    Computed,
    Missing,
}

pub open spec fn path_view(p: JsonPath) -> JsonPathView {
    match p {
        JsonPath::Literal(s) => JsonPathView::Literal(s@),
        JsonPath::Computed => JsonPathView::Computed,
        JsonPath::Missing => JsonPathView::Missing,
    }
}

pub open spec fn sites_view(s: Seq<JsonCallSite>) -> Seq<(JsonPathView, usize, usize)> {
    s.map_values(|c: JsonCallSite| (path_view(c.path), c.line, c.col))
}

/// The path argument of a call with arguments `args`.
pub open spec fn path_of(args: Seq<Expr>) -> JsonPathView {
    if args.len() == 0 {
        JsonPathView::Missing
    } else {
        match args[0] {
            Expr::String(p) => JsonPathView::Literal(p@),
            _ => JsonPathView::Computed,
        }
    }
}

pub open spec fn is_json_callee(callee: Expr) -> bool {
    callee matches Expr::Ident(n) && n@ == "json"@
}

/// The `json(...)` calls of a statement, in walk order.
pub open spec fn stmt_sites(s: Stmt) -> Seq<(JsonPathView, usize, usize)>
    decreases s,
{
    match s {
        Stmt::Let { value, line, col, .. } => expr_sites(value, line, col),
        Stmt::Const { value, line, col, .. } => expr_sites(value, line, col),
        Stmt::Assign { value, line, col, .. } => expr_sites(value, line, col),
        Stmt::AssignIndex { index, value, line, col, .. } => expr_sites(index, line, col) + expr_sites(
            value,
            line,
            col,
        ),
        Stmt::AssignMember { object, value, line, col, .. } => expr_sites(*object, line, col) + expr_sites(
            value,
            line,
            col,
        ),
        Stmt::Function(f) => stmts_sites(f.body@),
        Stmt::Return(e) => match e {
            Some(x) => expr_sites(x, 0, 0),
            None => Seq::empty(),
        },
        Stmt::Throw(e) => expr_sites(e, 0, 0),
        Stmt::Expr(e) => expr_sites(e, 0, 0),
        Stmt::If { condition, then_branch, else_branch } => expr_sites(condition, 0, 0) + stmts_sites(
            then_branch@,
        ) + match else_branch {
            Some(b) => stmts_sites(b@),
            None => Seq::empty(),
        },
        Stmt::While { condition, body } => expr_sites(condition, 0, 0) + stmts_sites(body@),
        Stmt::For { init, condition, update, body } => (match init {
            Some(i) => stmt_sites(*i),
            None => Seq::empty(),
        }) + (match condition {
            Some(c) => expr_sites(c, 0, 0),
            None => Seq::empty(),
        }) + (match update {
            Some(u) => stmt_sites(*u),
            None => Seq::empty(),
        }) + stmts_sites(body@),
        Stmt::ForOf { iterable, body, .. } => expr_sites(*iterable, 0, 0) + stmts_sites(body@),
        Stmt::Switch { discriminant, cases } => expr_sites(discriminant, 0, 0) + cases_sites(cases@),
        Stmt::Try { body, catch_body, .. } => stmts_sites(body@) + stmts_sites(catch_body@),
        Stmt::ExportDecl(inner) => stmt_sites(*inner),
        Stmt::ExportDefault(d) => match d {
            ExportDefault::Function(f) => stmts_sites(f.body@),
            ExportDefault::Expr(e) => expr_sites(e, 0, 0),
        },
        _ => Seq::empty(),
    }
}

pub open spec fn stmts_sites(ss: Seq<Stmt>) -> Seq<(JsonPathView, usize, usize)>
    decreases ss,
{
    if ss.len() == 0 {
        Seq::empty()
    } else {
        stmts_sites(ss.drop_last()) + stmt_sites(ss.last())
    }
}

pub open spec fn cases_sites(cs: Seq<SwitchCase>) -> Seq<(JsonPathView, usize, usize)>
    decreases cs,
{
    if cs.len() == 0 {
        Seq::empty()
    } else {
        cases_sites(cs.drop_last()) + exprs_sites(cs.last().values@, 0, 0) + stmts_sites(cs.last().body@)
    }
}

/// The `json(...)` calls of an expression, in walk order: a call itself
/// before its callee and arguments.
pub open spec fn expr_sites(e: Expr, line: usize, col: usize) -> Seq<(JsonPathView, usize, usize)>
    decreases e,
{
    match e {
        Expr::Call { callee, args } => (if is_json_callee(*callee) {
            seq![(path_of(args@), line, col)]
        } else {
            Seq::empty()
        }) + expr_sites(*callee, line, col) + exprs_sites(args@, line, col),
        Expr::Unary { operand, .. } => expr_sites(*operand, line, col),
        Expr::TypeOf(inner) => expr_sites(*inner, line, col),
        Expr::NonNullAssertion(inner) => expr_sites(*inner, line, col),
        Expr::AsConst(inner) => expr_sites(*inner, line, col),
        Expr::Binary { left, right, .. } => expr_sites(*left, line, col) + expr_sites(*right, line, col),
        Expr::Member { object, .. } => expr_sites(*object, line, col),
        Expr::Index { object, index } => expr_sites(*object, line, col) + expr_sites(*index, line, col),
        Expr::ArrayLiteral { elements } => elements_sites(elements@, line, col),
        Expr::ObjectLiteral { fields } => fields_sites(fields@, line, col),
        Expr::AsAssertion { expr, .. } => expr_sites(*expr, line, col),
        Expr::Arrow { body, .. } => match body {
            ArrowBody::Expr(b) => expr_sites(*b, line, col),
            ArrowBody::Block(ss) => stmts_sites(ss@),
        },
        _ => Seq::empty(),
    }
}

pub open spec fn exprs_sites(es: Seq<Expr>, line: usize, col: usize) -> Seq<(JsonPathView, usize, usize)>
    decreases es,
{
    if es.len() == 0 {
        Seq::empty()
    } else {
        exprs_sites(es.drop_last(), line, col) + expr_sites(es.last(), line, col)
    }
}

pub open spec fn elements_sites(es: Seq<ArrayElement>, line: usize, col: usize) -> Seq<
    (JsonPathView, usize, usize),
>
    decreases es,
{
    if es.len() == 0 {
        Seq::empty()
    } else {
        elements_sites(es.drop_last(), line, col) + (match es.last() {
            ArrayElement::Item(e) => expr_sites(e, line, col),
            ArrayElement::Spread(e) => expr_sites(e, line, col),
        })
    }
}

pub open spec fn fields_sites(fs: Seq<ObjectField>, line: usize, col: usize) -> Seq<
    (JsonPathView, usize, usize),
>
    decreases fs,
{
    if fs.len() == 0 {
        Seq::empty()
    } else {
        fields_sites(fs.drop_last(), line, col) + (match fs.last() {
            ObjectField::KV(_, e) => expr_sites(e, line, col),
            ObjectField::Spread(e) => expr_sites(e, line, col),
        })
    }
}

fn path_arg(args: &Vec<Expr>) -> (r: JsonPath)
    ensures
        path_view(r) == path_of(args@),
{
    if args.len() == 0 {
        JsonPath::Missing
    } else {
        match &args[0] {
            Expr::String(p) => JsonPath::Literal(p.clone()),
            _ => JsonPath::Computed,
        }
    }
}

fn push_site(out: &mut Vec<JsonCallSite>, path: JsonPath, line: usize, col: usize)
    ensures
        sites_view(final(out)@) == sites_view(old(out)@).push((path_view(path), line, col)),
{
    let ghost p = path_view(path);
    out.push(JsonCallSite { path, line, col });
    assert(sites_view(out@) =~= sites_view(old(out)@).push((p, line, col)));
}

#[verifier::loop_isolation(false)]
fn sites_in_stmt(stmt: &Stmt, out: &mut Vec<JsonCallSite>)
    ensures
        sites_view(final(out)@) == sites_view(old(out)@) + stmt_sites(*stmt),
    decreases stmt,
{
    let ghost start = sites_view(out@);
    match stmt {
        Stmt::Let { value, line, col, .. } | Stmt::Const { value, line, col, .. } => sites_in_expr(
            value,
            *line,
            *col,
            out,
        ),
        Stmt::Assign { value, line, col, .. } => sites_in_expr(value, *line, *col, out),
        Stmt::AssignIndex { index, value, line, col, .. } => {
            sites_in_expr(index, *line, *col, out);
            sites_in_expr(value, *line, *col, out);
        },
        Stmt::AssignMember { object, value, line, col, .. } => {
            sites_in_expr(object, *line, *col, out);
            sites_in_expr(value, *line, *col, out);
        },
        Stmt::Function(f) => sites_in_block(&f.body, out),
        Stmt::Return(e) => {
            if let Some(x) = e {
                sites_in_expr(x, 0, 0, out);
            }
        },
        Stmt::Throw(e) => sites_in_expr(e, 0, 0, out),
        Stmt::Expr(e) => sites_in_expr(e, 0, 0, out),
        Stmt::If { condition, then_branch, else_branch } => {
            sites_in_expr(condition, 0, 0, out);
            sites_in_block(then_branch, out);
            if let Some(b) = else_branch {
                sites_in_block(b, out);
            }
        },
        Stmt::While { condition, body } => {
            sites_in_expr(condition, 0, 0, out);
            sites_in_block(body, out);
        },
        Stmt::For { init, condition, update, body } => {
            if let Some(i) = init {
                sites_in_stmt(i, out);
            }
            if let Some(c) = condition {
                sites_in_expr(c, 0, 0, out);
            }
            if let Some(u) = update {
                sites_in_stmt(u, out);
            }
            sites_in_block(body, out);
        },
        Stmt::ForOf { iterable, body, .. } => {
            sites_in_expr(iterable, 0, 0, out);
            sites_in_block(body, out);
        },
        Stmt::Switch { discriminant, cases } => {
            sites_in_expr(discriminant, 0, 0, out);
            let mut i: usize = 0;
            let ghost mid = sites_view(out@);
            assert(cases@.take(0) =~= Seq::<SwitchCase>::empty());
            while i < cases.len()
                invariant
                    i <= cases@.len(),
                    sites_view(out@) == mid + cases_sites(cases@.take(i as int)),
                decreases cases@.len() - i,
            {
                proof {
                    assert(decreases_to!(*cases => cases[i as int]));
                    assert(cases@.take(i + 1).drop_last() =~= cases@.take(i as int));
                }
                sites_in_exprs(&cases[i].values, 0, 0, out);
                sites_in_block(&cases[i].body, out);
                i += 1;
            }
            assert(cases@.take(cases@.len() as int) =~= cases@);
        },
        Stmt::Try { body, catch_body, .. } => {
            sites_in_block(body, out);
            sites_in_block(catch_body, out);
        },
        Stmt::ExportDecl(inner) => sites_in_stmt(inner, out),
        Stmt::ExportDefault(ExportDefault::Function(f)) => sites_in_block(&f.body, out),
        Stmt::ExportDefault(ExportDefault::Expr(e)) => sites_in_expr(e, 0, 0, out),
        _ => {},
    }
    assert(sites_view(out@) =~= start + stmt_sites(*stmt));
}

#[verifier::loop_isolation(false)]
fn sites_in_block(ss: &Vec<Stmt>, out: &mut Vec<JsonCallSite>)
    ensures
        sites_view(final(out)@) == sites_view(old(out)@) + stmts_sites(ss@),
    decreases ss,
{
    let ghost start = sites_view(out@);
    let mut i: usize = 0;
    assert(ss@.take(0) =~= Seq::<Stmt>::empty());
    while i < ss.len()
        invariant
            i <= ss@.len(),
            sites_view(out@) == start + stmts_sites(ss@.take(i as int)),
        decreases ss@.len() - i,
    {
        proof {
            assert(decreases_to!(*ss => ss[i as int]));
            assert(ss@.take(i + 1).drop_last() =~= ss@.take(i as int));
        }
        sites_in_stmt(&ss[i], out);
        i += 1;
    }
    assert(ss@.take(ss@.len() as int) =~= ss@);
}

#[verifier::loop_isolation(false)]
fn sites_in_exprs(es: &Vec<Expr>, line: usize, col: usize, out: &mut Vec<JsonCallSite>)
    ensures
        sites_view(final(out)@) == sites_view(old(out)@) + exprs_sites(es@, line, col),
    decreases es,
{
    let ghost start = sites_view(out@);
    let mut i: usize = 0;
    assert(es@.take(0) =~= Seq::<Expr>::empty());
    while i < es.len()
        invariant
            i <= es@.len(),
            sites_view(out@) == start + exprs_sites(es@.take(i as int), line, col),
        decreases es@.len() - i,
    {
        proof {
            assert(decreases_to!(*es => es[i as int]));
            assert(es@.take(i + 1).drop_last() =~= es@.take(i as int));
        }
        sites_in_expr(&es[i], line, col, out);
        i += 1;
    }
    assert(es@.take(es@.len() as int) =~= es@);
}

#[verifier::loop_isolation(false)]
fn sites_in_expr(e: &Expr, line: usize, col: usize, out: &mut Vec<JsonCallSite>)
    ensures
        sites_view(final(out)@) == sites_view(old(out)@) + expr_sites(*e, line, col),
    decreases e,
{
    let ghost start = sites_view(out@);
    match e {
        Expr::Call { callee, args } => {
            let is_json = match &**callee {
                Expr::Ident(n) => str_eq(n.as_str(), "json"),
                _ => false,
            };
            if is_json {
                let p = path_arg(args);
                push_site(out, p, line, col);
            }
            sites_in_expr(callee, line, col, out);
            sites_in_exprs(args, line, col, out);
        },
        Expr::Unary { operand, .. } => sites_in_expr(operand, line, col, out),
        Expr::TypeOf(inner) => sites_in_expr(inner, line, col, out),
        Expr::NonNullAssertion(inner) => sites_in_expr(inner, line, col, out),
        Expr::AsConst(inner) => sites_in_expr(inner, line, col, out),
        Expr::Binary { left, right, .. } => {
            sites_in_expr(left, line, col, out);
            sites_in_expr(right, line, col, out);
        },
        Expr::Member { object, .. } => sites_in_expr(object, line, col, out),
        Expr::Index { object, index } => {
            sites_in_expr(object, line, col, out);
            sites_in_expr(index, line, col, out);
        },
        Expr::ArrayLiteral { elements } => {
            let mut i: usize = 0;
            assert(elements@.take(0) =~= Seq::<ArrayElement>::empty());
            while i < elements.len()
                invariant
                    i <= elements@.len(),
                    sites_view(out@) == start + elements_sites(elements@.take(i as int), line, col),
                decreases elements@.len() - i,
            {
                proof {
                    assert(decreases_to!(*elements => elements[i as int]));
                    assert(elements@.take(i + 1).drop_last() =~= elements@.take(i as int));
                }
                match &elements[i] {
                    ArrayElement::Item(x) => sites_in_expr(x, line, col, out),
                    ArrayElement::Spread(x) => sites_in_expr(x, line, col, out),
                }
                i += 1;
            }
            assert(elements@.take(elements@.len() as int) =~= elements@);
        },
        Expr::ObjectLiteral { fields } => {
            let mut i: usize = 0;
            assert(fields@.take(0) =~= Seq::<ObjectField>::empty());
            while i < fields.len()
                invariant
                    i <= fields@.len(),
                    sites_view(out@) == start + fields_sites(fields@.take(i as int), line, col),
                decreases fields@.len() - i,
            {
                proof {
                    assert(decreases_to!(*fields => fields[i as int]));
                    assert(fields@.take(i + 1).drop_last() =~= fields@.take(i as int));
                }
                match &fields[i] {
                    ObjectField::KV(_, x) => sites_in_expr(x, line, col, out),
                    ObjectField::Spread(x) => sites_in_expr(x, line, col, out),
                }
                i += 1;
            }
            assert(fields@.take(fields@.len() as int) =~= fields@);
        },
        Expr::AsAssertion { expr: inner, .. } => sites_in_expr(inner, line, col, out),
        Expr::Arrow { body, .. } => match body {
            ArrowBody::Expr(b) => sites_in_expr(b, line, col, out),
            ArrowBody::Block(ss) => sites_in_block(ss, out),
        },
        _ => {},
    }
    assert(sites_view(out@) =~= start + expr_sites(*e, line, col));
}

/// Every `json(...)` call of `program`, in walk order.
pub fn json_call_sites(program: &Program) -> (r: Vec<JsonCallSite>)
    ensures
        sites_view(r@) == stmts_sites(program.stmts@),
{
    let mut out: Vec<JsonCallSite> = Vec::new();
    assert(sites_view(out@) =~= Seq::empty());
    sites_in_block(&program.stmts, &mut out);
    assert(sites_view(out@) =~= Seq::empty() + stmts_sites(program.stmts@));
    out
}

/// The reason reading or parsing the file at `path` failed, if it did
/// (the first entry for it).
pub open spec fn failure_for(failures: Seq<(String, String)>, path: Seq<char>) -> Option<Seq<char>>
    decreases failures.len(),
{
    if failures.len() == 0 {
        None
    } else if failures[0].0@ == path {
        Some(failures[0].1@)
    } else {
        failure_for(failures.drop_first(), path)
    }
}

pub open spec fn computed_path_message() -> Seq<char> {
    "json(path): the path isn't a string literal, so its shape can't be inferred at compile time \u{2014} use `json<T>(path)` with an explicit type naming a declared interface."@
}

pub open spec fn missing_path_message() -> Seq<char> {
    "json(): expected a path argument"@
}

/// The issue a call site gives, if any.
pub open spec fn site_issue(site: (JsonPathView, usize, usize), failures: Seq<(String, String)>) -> Seq<
    (Seq<char>, usize, usize),
> {
    match site.0 {
        JsonPathView::Literal(p) => match failure_for(failures, p) {
            Some(e) => seq![("json(\""@ + p + "\"): "@ + e, site.1, site.2)],
            None => Seq::empty(),
        },
        JsonPathView::Computed => seq![(computed_path_message(), site.1, site.2)],
        JsonPathView::Missing => seq![(missing_path_message(), site.1, site.2)],
    }
}

pub open spec fn sites_issues(sites: Seq<(JsonPathView, usize, usize)>, failures: Seq<(String, String)>) -> Seq<
    (Seq<char>, usize, usize),
>
    decreases sites.len(),
{
    if sites.len() == 0 {
        Seq::empty()
    } else {
        sites_issues(sites.drop_last(), failures) + site_issue(sites.last(), failures)
    }
}

/// Calls whose paths are all literals give no issue when no file failed
/// to load; a failure is reported only for a literal path that failed.
pub proof fn lemma_loaded_literals_pass(sites: Seq<(JsonPathView, usize, usize)>)
    requires
        forall|i: int| 0 <= i < sites.len() ==> (#[trigger] sites[i]).0 is Literal,
    ensures
        sites_issues(sites, Seq::empty()) == Seq::<(Seq<char>, usize, usize)>::empty(),
    decreases sites.len(),
{
    if sites.len() > 0 {
        let p = sites.drop_last();
        assert forall|i: int| 0 <= i < p.len() implies (#[trigger] p[i]).0 is Literal by {
            assert(p[i] == sites[i]);
        }
        lemma_loaded_literals_pass(p);
        assert(sites[sites.len() - 1].0 is Literal);
        assert(site_issue(sites.last(), Seq::empty()) =~= Seq::empty());
    }
}

pub open spec fn issues_view(v: Seq<JsonCallIssue>) -> Seq<(Seq<char>, usize, usize)> {
    v.map_values(|i: JsonCallIssue| (i.message@, i.line, i.col))
}

fn failure_lookup(failures: &Vec<(String, String)>, path: &String) -> (r: Option<String>)
    ensures
        match r {
            Some(e) => failure_for(failures@, path@) == Some(e@),
            None => failure_for(failures@, path@) is None,
        },
{
    let mut i: usize = 0;
    proof {
        assert(failures@.subrange(0, failures@.len() as int) =~= failures@);
    }
    while i < failures.len()
        invariant
            i <= failures@.len(),
            failure_for(failures@, path@) == failure_for(failures@.subrange(i as int, failures@.len() as int), path@),
        decreases failures@.len() - i,
    {
        proof {
            let sub = failures@.subrange(i as int, failures@.len() as int);
            assert(sub.drop_first() =~= failures@.subrange(i + 1, failures@.len() as int));
        }
        if str_eq(failures[i].0.as_str(), path.as_str()) {
            return Some(failures[i].1.clone());
        }
        i += 1;
    }
    None
}

fn push_issue(out: &mut Vec<JsonCallIssue>, message: String, line: usize, col: usize)
    ensures
        issues_view(final(out)@) == issues_view(old(out)@).push((message@, line, col)),
{
    let ghost m = message@;
    out.push(JsonCallIssue { message, line, col });
    assert(issues_view(out@) =~= issues_view(old(out)@).push((m, line, col)));
}

/// The issues of the `json(...)` calls of `program`, in walk order:
/// a literal path listed in `failures` (path, reason) is reported with
/// its reason; a path that is not a literal, and a call without one,
/// are always reported.
pub fn check_json_calls(program: &Program, failures: &Vec<(String, String)>) -> (r: Vec<JsonCallIssue>)
    ensures
        issues_view(r@) == sites_issues(stmts_sites(program.stmts@), failures@),
{
    let sites = json_call_sites(program);
    let mut out: Vec<JsonCallIssue> = Vec::new();
    let mut i: usize = 0;
    assert(sites_view(sites@).take(0) =~= Seq::empty());
    assert(issues_view(out@) =~= Seq::empty());
    while i < sites.len()
        invariant
            i <= sites@.len(),
            issues_view(out@) == sites_issues(sites_view(sites@).take(i as int), failures@),
        decreases sites@.len() - i,
    {
        proof {
            assert(sites_view(sites@).take(i + 1).drop_last() =~= sites_view(sites@).take(i as int));
            reveal_strlit("json(\"");
            reveal_strlit("\"): ");
        }
        let line = sites[i].line;
        let col = sites[i].col;
        match &sites[i].path {
            JsonPath::Literal(p) => {
                if let Some(e) = failure_lookup(failures, p) {
                    let mut m = String::from_str("json(\"");
                    m.append(p.as_str());
                    m.append("\"): ");
                    m.append(e.as_str());
                    push_issue(&mut out, m, line, col);
                }
            },
            JsonPath::Computed => {
                let m = String::from_str(
                    "json(path): the path isn't a string literal, so its shape can't be inferred at compile time \u{2014} use `json<T>(path)` with an explicit type naming a declared interface.",
                );
                push_issue(&mut out, m, line, col);
            },
            JsonPath::Missing => {
                let m = String::from_str("json(): expected a path argument");
                push_issue(&mut out, m, line, col);
            },
        }
        i += 1;
    }
    assert(sites_view(sites@).take(sites@.len() as int) =~= sites_view(sites@));
    out
}

} // verus!
