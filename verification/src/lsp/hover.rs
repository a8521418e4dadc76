//! Hover: the documentation of the identifier under the cursor.
//!
//! The whole `sys.readFile`-style chain under the cursor is looked up in
//! the builtin table first, then the bare identifier; failing both, the
//! document's own symbol of that name (with its declared or inferred
//! type).

use crate::lsp::builtins::{find_by_label, first_with_label, spec_all_builtins, Builtin};
use crate::lsp::completion::{
    chain_before_cursor, first_symbol, spec_chain, trailing_ident_cont, ParsedDoc,
};
use crate::lsp::symbols::{opt_string_view, spec_kind_label, symbols_view, SymbolV};
use crate::lsp::types::{CompletionItemKind, Hover, Position, Range};
use crate::text::{chars_of, join, owned, spec_is_ident_cont, is_ident_cont, string_from_chars, strings_view};
use vstd::prelude::*;

verus! {

broadcast use vstd::std_specs::vec::group_vec_axioms;

/// Number of identifier characters at the start of `s`.
pub open spec fn leading_ident_cont(s: Seq<char>) -> nat
    decreases s.len(),
{
    if s.len() > 0 && spec_is_ident_cont(s[0]) {
        1 + leading_ident_cont(s.drop_first())
    } else {
        0
    }
}

pub proof fn lemma_trailing_cont_bound(s: Seq<char>)
    ensures
        trailing_ident_cont(s) <= s.len(),
    decreases s.len(),
{
    if s.len() > 0 {
        lemma_trailing_cont_bound(s.drop_last());
    }
}

pub proof fn lemma_leading_cont_bound(s: Seq<char>)
    ensures
        leading_ident_cont(s) <= s.len(),
    decreases s.len(),
{
    if s.len() > 0 {
        lemma_leading_cont_bound(s.drop_first());
    }
}

/// The identifier characters at the end of `before`.
pub open spec fn ident_prefix(before: Seq<char>) -> Seq<char> {
    before.subrange(before.len() - trailing_ident_cont(before), before.len() as int)
}

/// The identifier characters at the start of `after`.
pub open spec fn ident_suffix(after: Seq<char>) -> Seq<char> {
    after.subrange(0, leading_ident_cont(after) as int)
}

/// The identifier the cursor is in: its part before the cursor and its
/// part after.
pub open spec fn spec_identifier_at(before: Seq<char>, after: Seq<char>) -> Option<Seq<char>> {
    let w = ident_prefix(before) + ident_suffix(after);
    if w.len() == 0 {
        None
    } else {
        Some(w)
    }
}

/// The chain under the cursor: the `name.` segments before it and the
/// identifier being typed, joined by `.`, followed by the rest of the
/// identifier after the cursor.
pub open spec fn spec_chain_label(before: Seq<char>, after: Seq<char>) -> Option<Seq<char>> {
    let (segs, partial) = spec_chain(before);
    let all = match partial {
        Some(p) => segs.push(p),
        None => segs,
    };
    let w = join(all, "."@) + ident_suffix(after);
    if w.len() == 0 {
        None
    } else {
        Some(w)
    }
}

fn leading_ident_len(cs: &Vec<char>) -> (n: usize)
    ensures
        n == leading_ident_cont(cs@),
        n <= cs@.len(),
{
    let mut n: usize = 0;
    while n < cs.len() && is_ident_cont(cs[n])
        invariant
            n <= cs@.len(),
            forall|j: int| 0 <= j < n ==> spec_is_ident_cont(#[trigger] cs@[j]),
        decreases cs@.len() - n,
    {
        n += 1;
    }
    proof {
        lemma_leading(cs@, n as int);
    }
    n
}

proof fn lemma_leading(s: Seq<char>, n: int)
    requires
        0 <= n <= s.len(),
        forall|j: int| 0 <= j < n ==> spec_is_ident_cont(#[trigger] s[j]),
        n == s.len() || !spec_is_ident_cont(s[n]),
    ensures
        leading_ident_cont(s) == n,
    decreases n,
{
    if n > 0 {
        assert forall|j: int| 0 <= j < n - 1 implies spec_is_ident_cont(#[trigger] s.drop_first()[j]) by {
            assert(s.drop_first()[j] == s[j + 1]);
        }
        if n < s.len() {
            assert(s.drop_first()[n - 1] == s[n]);
        }
        lemma_leading(s.drop_first(), n - 1);
    }
}

fn trailing_ident_len(cs: &Vec<char>) -> (n: usize)
    ensures
        n == trailing_ident_cont(cs@),
        n <= cs@.len(),
{
    let mut i = cs.len();
    while i > 0 && is_ident_cont(cs[i - 1])
        invariant
            i <= cs@.len(),
            forall|j: int| i <= j < cs@.len() ==> spec_is_ident_cont(#[trigger] cs@[j]),
        decreases i,
    {
        i -= 1;
    }
    proof {
        lemma_trailing(cs@, i as int);
    }
    cs.len() - i
}

proof fn lemma_trailing(s: Seq<char>, i: int)
    requires
        0 <= i <= s.len(),
        forall|j: int| i <= j < s.len() ==> spec_is_ident_cont(#[trigger] s[j]),
        i == 0 || !spec_is_ident_cont(s[i - 1]),
    ensures
        trailing_ident_cont(s) == s.len() - i,
    decreases s.len() - i,
{
    if i < s.len() {
        assert forall|j: int| i <= j < s.drop_last().len() implies spec_is_ident_cont(
            #[trigger] s.drop_last()[j],
        ) by {
            assert(s.drop_last()[j] == s[j]);
        }
        if i > 0 {
            assert(s.drop_last()[i - 1] == s[i - 1]);
        }
        lemma_trailing(s.drop_last(), i);
    }
}

/// The identifier under the cursor, if the cursor touches one.
pub fn identifier_at(before: &str, after: &str) -> (r: Option<String>)
    ensures
        opt_string_view(r) == spec_identifier_at(before@, after@),
{
    let b = chars_of(before);
    let a = chars_of(after);
    let p = trailing_ident_len(&b);
    let s = leading_ident_len(&a);
    let mut w = string_from_chars(&b.as_slice()[b.len() - p..b.len()]);
    let suffix = string_from_chars(&a.as_slice()[0..s]);
    w.append(suffix.as_str());
    proof {
        assert(b@.subrange(b@.len() - p, b@.len() as int) =~= ident_prefix(before@));
        assert(a@.subrange(0, s as int) =~= ident_suffix(after@));
    }
    if w.as_str().is_empty() {
        None
    } else {
        Some(w)
    }
}

/// The whole chain under the cursor, e.g. `sys.readFile` with the cursor
/// inside `readFile`.
pub fn chain_label_at(before: &str, after: &str) -> (r: Option<String>)
    ensures
        opt_string_view(r) == spec_chain_label(before@, after@),
{
    let (mut segs, partial) = chain_before_cursor(before);
    let ghost sv = strings_view(segs@);
    match partial {
        Some(p) => {
            segs.push(p);
            proof {
                assert(strings_view(segs@) =~= sv.push(p@));
            }
        },
        None => {},
    }
    let mut w = crate::text::join_strings(&segs, ".");
    let a = chars_of(after);
    let s = leading_ident_len(&a);
    let suffix = string_from_chars(&a.as_slice()[0..s]);
    w.append(suffix.as_str());
    proof {
        assert(a@.subrange(0, s as int) =~= ident_suffix(after@));
    }
    if w.as_str().is_empty() {
        None
    } else {
        Some(w)
    }
}

/// Number of `\n` in `s`.
pub open spec fn newline_count(s: Seq<char>) -> nat
    decreases s.len(),
{
    if s.len() == 0 {
        0
    } else {
        newline_count(s.drop_last()) + if s.last() == '\n' {
            1nat
        } else {
            0nat
        }
    }
}

/// The text after the last `\n` of `s` (all of `s` without one).
pub open spec fn last_line(s: Seq<char>) -> Seq<char>
    decreases s.len(),
{
    if s.len() == 0 {
        s
    } else if s.last() == '\n' {
        Seq::empty()
    } else {
        last_line(s.drop_last()).push(s.last())
    }
}

/// The range of the identifier under the cursor, on the cursor's line:
/// from the start of its part before the cursor (counted in characters
/// from the line start) to the end of its part after.
pub open spec fn spec_identifier_range(before: Seq<char>, after: Seq<char>) -> Range {
    let line = last_line(before);
    let p = trailing_ident_cont(line);
    let start = line.len() - p;
    Range {
        start: Position { line: newline_count(before) as u32, character: start as u32 },
        end: Position {
            line: newline_count(before) as u32,
            character: (start + p + leading_ident_cont(after)) as u32,
        },
    }
}

proof fn lemma_last_line_bound(s: Seq<char>)
    ensures
        last_line(s).len() <= s.len(),
        newline_count(s) <= s.len(),
    decreases s.len(),
{
    if s.len() > 0 {
        lemma_last_line_bound(s.drop_last());
    }
}

/// The range of the identifier under the cursor.
pub fn identifier_range(before: &str, after: &str) -> (r: Range)
    requires
        before@.len() + after@.len() <= usize::MAX,
    ensures
        r == spec_identifier_range(before@, after@),
{
    let b = chars_of(before);
    let a = chars_of(after);
    let mut lines: usize = 0;
    let mut line_start: usize = 0;
    let mut i: usize = 0;
    while i < b.len()
        invariant
            i <= b@.len(),
            line_start <= i,
            lines == newline_count(b@.take(i as int)),
            last_line(b@.take(i as int)) == b@.subrange(line_start as int, i as int),
        decreases b@.len() - i,
    {
        proof {
            assert(b@.take(i + 1).drop_last() =~= b@.take(i as int));
            lemma_last_line_bound(b@.take(i as int));
        }
        if b[i] == '\n' {
            lines = lines + 1;
            line_start = i + 1;
            proof {
                assert(b@.subrange(line_start as int, i + 1) =~= Seq::<char>::empty());
            }
        } else {
            proof {
                assert(b@.subrange(line_start as int, i + 1) =~= b@.subrange(line_start as int, i as int).push(b@[i as int]));
            }
        }
        i += 1;
    }
    proof {
        assert(b@.take(b@.len() as int) =~= b@);
    }
    let mut line_chars: Vec<char> = Vec::new();
    let mut k = line_start;
    while k < b.len()
        invariant
            line_start <= k <= b@.len(),
            line_chars@ == b@.subrange(line_start as int, k as int),
        decreases b@.len() - k,
    {
        line_chars.push(b[k]);
        k += 1;
        proof {
            assert(line_chars@ =~= b@.subrange(line_start as int, k as int));
        }
    }
    let p = trailing_ident_len(&line_chars);
    let s = leading_ident_len(&a);
    let start = line_chars.len() - p;
    assert(line_chars@ =~= last_line(before@));
    let end = start + p + s;
    let l = lines as u32;
    Range {
        start: Position { line: l, character: start as u32 },
        end: Position { line: l, character: end as u32 },
    }
}

/// The panel header for a builtin's kind.
pub open spec fn spec_kind_name(k: CompletionItemKind) -> Seq<char> {
    match k {
        CompletionItemKind::Function => "function"@,
        CompletionItemKind::Method => "method"@,
        CompletionItemKind::Property => "property"@,
        CompletionItemKind::Keyword => "keyword"@,
        CompletionItemKind::Module => "module"@,
        _ => "builtin"@,
    }
}

pub fn kind_label(k: CompletionItemKind) -> (r: &'static str)
    ensures
        r@ == spec_kind_name(k),
{
    match k {
        CompletionItemKind::Function => "function",
        CompletionItemKind::Method => "method",
        CompletionItemKind::Property => "property",
        CompletionItemKind::Keyword => "keyword",
        CompletionItemKind::Module => "module",
        _ => "builtin",
    }
}

/// Hover text of a builtin: its signature in a code block, its kind in
/// italics, its documentation.
pub open spec fn builtin_body(b: Builtin) -> Seq<char> {
    "```arcis\n"@ + b.detail@ + "\n```\n\n_"@ + spec_kind_name(b.kind) + "_\n\n"@ + b.documentation@
}

/// Hover text of a document symbol: its signature or typed binding in a
/// code block, its kind in italics.
pub open spec fn symbol_body(s: SymbolV) -> Seq<char> {
    "```arcis\n"@ + s.detail + "\n```\n\n_"@ + spec_kind_label(s.kind) + "_"@
}

/// The hover text for the cursor between `before` and `after` (on its
/// line), in the parsed document `doc`: the builtin named by the chain
/// under the cursor, else the builtin named by the identifier, else the
/// document's first symbol of that name.
pub open spec fn spec_hover_body(before: Seq<char>, after: Seq<char>, doc: ParsedDoc) -> Option<Seq<char>> {
    match spec_identifier_at(before, after) {
        None => None,
        Some(ident) => {
            let label = match spec_chain_label(before, after) {
                Some(l) => l,
                None => ident,
            };
            match first_with_label(spec_all_builtins(), label) {
                Some(b) => Some(builtin_body(b)),
                None => match first_with_label(spec_all_builtins(), ident) {
                    Some(b) => Some(builtin_body(b)),
                    None => match first_symbol(symbols_view(doc.symbols@), ident) {
                        Some(s) => Some(symbol_body(s)),
                        None => None,
                    },
                },
            }
        },
    }
}

/// The hover for the cursor in the parsed document `doc`.
pub fn hover_in(before: &str, after: &str, doc: &ParsedDoc) -> (r: Option<Hover>)
    requires
        before@.len() + after@.len() <= usize::MAX,
    ensures
        match r {
            Some(h) => spec_hover_body(before@, after@, *doc) == Some(h.contents@) && h.range == Some(
                spec_identifier_range(before@, after@),
            ),
            None => spec_hover_body(before@, after@, *doc) is None,
        },
{
    let ident = identifier_at(before, after)?;
    let label = match chain_label_at(before, after) {
        Some(l) => l,
        None => ident.clone(),
    };
    let found = match find_by_label(label.as_str()) {
        Some(b) => Some(b),
        None => find_by_label(ident.as_str()),
    };
    let body = match found {
        Some(b) => {
            let mut s = owned("```arcis\n");
            s.append(b.detail);
            s.append("\n```\n\n_");
            s.append(kind_label(b.kind));
            s.append("_\n\n");
            s.append(b.documentation);
            s
        },
        None => {
            let i = crate::lsp::completion::find_symbol(&doc.symbols, ident.as_str())?;
            let sym = &doc.symbols[i];
            let mut s = owned("```arcis\n");
            s.append(sym.detail.as_str());
            s.append("\n```\n\n_");
            s.append(sym.kind.label());
            s.append("_");
            s
        },
    };
    Some(Hover { contents: body, range: Some(identifier_range(before, after)) })
}

/// The hover for the identifier under the cursor. `full_text` is the
/// whole document (parsed leniently for its symbols); `before` is the
/// text before the cursor (its own line, or the whole document up to it:
/// the range counts the line breaks in it), `after` the rest of the
/// cursor's line.
pub fn hover_at(full_text: &str, before: &str, after: &str) -> (r: Option<Hover>)
    requires
        before@.len() + after@.len() <= usize::MAX,
    ensures
        exists|doc: ParsedDoc|
            doc.consistent() && #[trigger] hover_result(r, before@, after@, doc),
{
    let doc = ParsedDoc::from_text(full_text);
    let r = hover_in(before, after, &doc);
    assert(hover_result(r, before@, after@, doc));
    r
}

/// `r` is the hover for the cursor between `before` and `after` in `doc`.
pub open spec fn hover_result(r: Option<Hover>, before: Seq<char>, after: Seq<char>, doc: ParsedDoc) -> bool {
    match r {
        Some(h) => spec_hover_body(before, after, doc) == Some(h.contents@) && h.range == Some(
            spec_identifier_range(before, after),
        ),
        None => spec_hover_body(before, after, doc) is None,
    }
}

} // verus!
