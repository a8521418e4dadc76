//! Completion: the candidates to offer at a cursor, chosen by the
//! `.name` chain just before it.
//!
//! | chain before the cursor | offered |
//! |---|---|
//! | none | every symbol of the document, the exports of `from x import *` modules, keywords, top-level builtins |
//! | `sys` | the `sys` namespaces and the top-level builtins |
//! | `sys.<ns>` (a known namespace) | the methods of `<ns>` |
//! | `<enum>` | the enum's variants |
//! | `<ns>` (a known namespace) | the top-level builtins |
//! | `<name>` | the members its type has (object fields, array or string methods, nothing for a number), a namespace import's exports, or else array and string methods |
//! | anything else | nothing |
//!
//! A candidate whose label an earlier one has is dropped, so local
//! definitions and enum variants, which come first, win over builtins.

use crate::lsp::builtins::{
    array_methods, keywords, ns_methods, spec_array_methods, spec_keywords, spec_ns_methods,
    spec_string_methods, spec_sys_namespaces, spec_top_level_builtins, string_methods,
    sys_namespaces, top_level_builtins, Builtin,
};
use crate::lsp::shapes::{collect_named_shapes, named_shape, shape_view, FieldV, NamedShapes};
use crate::lsp::symbols::{
    collect_symbols, opt_string_view, parse_lenient, program_symbols, spec_completion_kind,
    symbols_view, type_label, type_label_of, Symbol, SymbolKind, SymbolV,
};
use crate::lsp::types::{CompletionItem, CompletionItemKind};
use crate::syntax::ast::{fields_view, Program, Stmt, Type, TypeV};
use crate::text::{
    chars_of, i64_decimal, int_decimal, owned, spec_is_ident_cont, spec_is_ident_start,
    is_ident_cont, is_ident_start, str_eq, string_from_chars, strings_view,
};
use vstd::prelude::*;

verus! {

broadcast use vstd::std_specs::vec::group_vec_axioms;

// ── Items ────────────────────────────────────────────────────────────────

/// Mathematical value of a [`CompletionItem`].
pub struct ItemV {
    pub label: Seq<char>,
    pub kind: Option<CompletionItemKind>,
    pub detail: Option<Seq<char>>,
    pub documentation: Option<Seq<char>>,
    pub insert_text: Option<Seq<char>>,
    pub insert_text_plain: Option<bool>,
    pub filter_text: Option<Seq<char>>,
    pub sort_text: Option<Seq<char>>,
}

impl View for CompletionItem {
    type V = ItemV;

    open spec fn view(&self) -> ItemV {
        ItemV {
            label: self.label@,
            kind: self.kind,
            detail: opt_string_view(self.detail),
            documentation: opt_string_view(self.documentation),
            insert_text: opt_string_view(self.insert_text),
            insert_text_plain: self.insert_text_plain,
            filter_text: opt_string_view(self.filter_text),
            sort_text: opt_string_view(self.sort_text),
        }
    }
}

pub open spec fn items_view(s: Seq<CompletionItem>) -> Seq<ItemV> {
    s.map_values(|i: CompletionItem| i@)
}

/// The item offered for a builtin: a function or method inserts its name
/// and the opening parenthesis, anything else its name, as plain text.
pub open spec fn builtin_item(b: Builtin) -> ItemV {
    ItemV {
        label: b.label@,
        kind: Some(b.kind),
        detail: Some(b.detail@),
        documentation: Some(b.documentation@),
        insert_text: Some(
            if b.kind == CompletionItemKind::Function || b.kind == CompletionItemKind::Method {
                b.label@ + "("@
            } else {
                b.label@
            },
        ),
        insert_text_plain: Some(true),
        filter_text: Some(b.label@),
        sort_text: Some(b.label@),
    }
}

pub open spec fn builtin_items(s: Seq<Builtin>) -> Seq<ItemV> {
    s.map_values(|b: Builtin| builtin_item(b))
}

/// The item offered for a symbol of a document.
pub open spec fn symbol_item(s: SymbolV) -> ItemV {
    ItemV {
        label: s.name,
        kind: Some(spec_completion_kind(s.kind)),
        detail: Some(s.detail),
        documentation: None,
        insert_text: None,
        insert_text_plain: None,
        filter_text: Some(s.name),
        sort_text: Some(s.name),
    }
}

pub open spec fn symbol_items(s: Seq<SymbolV>) -> Seq<ItemV> {
    s.map_values(|x: SymbolV| symbol_item(x))
}

/// The item offered for a field of an object shape.
pub open spec fn field_item(f: FieldV) -> ItemV {
    ItemV {
        label: f.0,
        kind: Some(CompletionItemKind::Field),
        detail: Some(type_label_of(f.1)),
        documentation: None,
        insert_text: None,
        insert_text_plain: None,
        filter_text: Some(f.0),
        sort_text: Some(f.0),
    }
}

pub open spec fn field_items(s: Seq<FieldV>) -> Seq<ItemV> {
    s.map_values(|f: FieldV| field_item(f))
}

/// The item offered for a variant of the enum `name`: `Name.Variant = value`.
pub open spec fn variant_item(name: Seq<char>, v: (Seq<char>, i64)) -> ItemV {
    ItemV {
        label: v.0,
        kind: Some(CompletionItemKind::EnumMember),
        detail: Some(name + "."@ + v.0 + " = "@ + int_decimal(v.1 as int)),
        documentation: None,
        insert_text: None,
        insert_text_plain: None,
        filter_text: Some(v.0),
        sort_text: Some(v.0),
    }
}

pub open spec fn variant_items(name: Seq<char>, vs: Seq<(Seq<char>, i64)>) -> Seq<ItemV> {
    vs.map_values(|v: (Seq<char>, i64)| variant_item(name, v))
}

/// Whether one of `d` has the label `label`.
pub open spec fn has_label(d: Seq<ItemV>, label: Seq<char>) -> bool {
    exists|j: int| 0 <= j < d.len() && (#[trigger] d[j]).label == label
}

/// `s` with each item dropped whose label an earlier item has: the first
/// candidate for a label wins.
pub open spec fn dedup_labels(s: Seq<ItemV>) -> Seq<ItemV>
    decreases s.len(),
{
    if s.len() == 0 {
        Seq::empty()
    } else {
        let d = dedup_labels(s.drop_last());
        if has_label(d, s.last().label) {
            d
        } else {
            d.push(s.last())
        }
    }
}

/// Earlier candidates win: whatever survives of a first group of
/// candidates survives, in the same places, whatever follows it (so a
/// document's own symbol beats a builtin with its label).
pub proof fn lemma_dedup_keeps_earlier(a: Seq<ItemV>, b: Seq<ItemV>)
    ensures
        dedup_labels(a).len() <= dedup_labels(a + b).len(),
        forall|i: int| 0 <= i < dedup_labels(a).len() ==> #[trigger] dedup_labels(a + b)[i] == dedup_labels(a)[i],
    decreases b.len(),
{
    if b.len() == 0 {
        assert(a + b =~= a);
    } else {
        assert((a + b).drop_last() =~= a + b.drop_last());
        assert((a + b).last() == b.last());
        lemma_dedup_keeps_earlier(a, b.drop_last());
    }
}

/// Completion never offers one label twice.
pub proof fn lemma_dedup_distinct(s: Seq<ItemV>)
    ensures
        forall|i: int, j: int|
            0 <= i < j < dedup_labels(s).len() ==> (#[trigger] dedup_labels(s)[i]).label != (#[trigger] dedup_labels(
                s,
            )[j]).label,
    decreases s.len(),
{
    if s.len() > 0 {
        let p = s.drop_last();
        lemma_dedup_distinct(p);
        let d = dedup_labels(p);
        if !has_label(d, s.last().label) {
            let e = d.push(s.last());
            assert forall|i: int, j: int| 0 <= i < j < e.len() implies (#[trigger] e[i]).label != (
            #[trigger] e[j]).label by {
                if j == d.len() {
                    assert(e[i] == d[i]);
                    if d[i].label == s.last().label {
                        assert(has_label(d, s.last().label));
                    }
                } else {
                    assert(e[i] == d[i] && e[j] == d[j]);
                }
            }
        }
    }
}

/// Every label among the completion candidates is still offered.
pub proof fn lemma_dedup_keeps_labels(s: Seq<ItemV>)
    ensures
        forall|k: int| 0 <= k < s.len() ==> has_label(dedup_labels(s), (#[trigger] s[k]).label),
    decreases s.len(),
{
    if s.len() > 0 {
        let p = s.drop_last();
        lemma_dedup_keeps_labels(p);
        let d = dedup_labels(p);
        let e = dedup_labels(s);
        assert forall|k: int| 0 <= k < s.len() implies has_label(e, (#[trigger] s[k]).label) by {
            if k < s.len() - 1 {
                assert(s[k] == p[k]);
                assert(has_label(d, p[k].label));
                let i = choose|i: int| 0 <= i < d.len() && (#[trigger] d[i]).label == p[k].label;
                assert(e[i] == d[i]);
            } else if !has_label(d, s.last().label) {
                assert(e[d.len() as int] == s.last());
            }
        }
    }
}

/// Each item offered is the first candidate with its label.
pub proof fn lemma_dedup_first_wins(s: Seq<ItemV>)
    ensures
        forall|i: int|
            0 <= i < dedup_labels(s).len() ==> exists|k: int|
                0 <= k < s.len() && s[k] == #[trigger] dedup_labels(s)[i] && !has_label(
                    s.take(k),
                    s[k].label,
                ),
    decreases s.len(),
{
    if s.len() > 0 {
        let p = s.drop_last();
        lemma_dedup_first_wins(p);
        lemma_dedup_keeps_labels(p);
        let d = dedup_labels(p);
        let e = dedup_labels(s);
        assert forall|i: int| 0 <= i < e.len() implies exists|k: int|
            0 <= k < s.len() && s[k] == #[trigger] e[i] && !has_label(s.take(k), s[k].label) by {
            if i < d.len() {
                assert(e[i] == d[i]);
                let k = choose|k: int| 0 <= k < p.len() && p[k] == #[trigger] d[i] && !has_label(p.take(k), p[k].label);
                assert(s[k] == p[k]);
                assert(s.take(k) =~= p.take(k));
            } else {
                let k = s.len() - 1;
                assert(e[i] == s[k]);
                assert(s.take(k) =~= p);
                if has_label(p, s[k].label) {
                    let m = choose|m: int| 0 <= m < p.len() && (#[trigger] p[m]).label == s[k].label;
                    assert(has_label(d, p[m].label));
                }
            }
        }
    }
}

fn to_item(b: &Builtin) -> (r: CompletionItem)
    ensures
        r@ == builtin_item(*b),
{
    let insert = if b.kind == CompletionItemKind::Function || b.kind == CompletionItemKind::Method {
        let mut s = owned(b.label);
        s.append("(");
        s
    } else {
        owned(b.label)
    };
    CompletionItem {
        label: owned(b.label),
        kind: Some(b.kind),
        detail: Some(owned(b.detail)),
        documentation: Some(owned(b.documentation)),
        insert_text: Some(insert),
        insert_text_plain: Some(true),
        filter_text: Some(owned(b.label)),
        sort_text: Some(owned(b.label)),
    }
}

fn to_symbol_item(s: &Symbol) -> (r: CompletionItem)
    ensures
        r@ == symbol_item(s@),
{
    CompletionItem {
        label: s.name.clone(),
        kind: Some(s.kind.completion_kind()),
        detail: Some(s.detail.clone()),
        documentation: None,
        insert_text: None,
        insert_text_plain: None,
        filter_text: Some(s.name.clone()),
        sort_text: Some(s.name.clone()),
    }
}

fn push_builtin_items(out: &mut Vec<CompletionItem>, v: &Vec<Builtin>)
    ensures
        items_view(final(out)@) == items_view(old(out)@) + builtin_items(v@),
{
    let ghost start = items_view(out@);
    let mut i: usize = 0;
    while i < v.len()
        invariant
            i <= v@.len(),
            items_view(out@) == start + builtin_items(v@.take(i as int)),
        decreases v@.len() - i,
    {
        let it = to_item(&v[i]);
        let ghost before = out@;
        out.push(it);
        proof {
            assert(items_view(out@) =~= items_view(before).push(it@));
            assert(builtin_items(v@.take(i + 1)) =~= builtin_items(v@.take(i as int)).push(builtin_item(v@[i as int])));
        }
        i += 1;
    }
    assert(v@.take(v@.len() as int) =~= v@);
}

fn push_symbol_items(out: &mut Vec<CompletionItem>, v: &Vec<Symbol>)
    ensures
        items_view(final(out)@) == items_view(old(out)@) + symbol_items(symbols_view(v@)),
{
    let ghost start = items_view(out@);
    let mut i: usize = 0;
    while i < v.len()
        invariant
            i <= v@.len(),
            items_view(out@) == start + symbol_items(symbols_view(v@.take(i as int))),
        decreases v@.len() - i,
    {
        let it = to_symbol_item(&v[i]);
        let ghost before = out@;
        out.push(it);
        proof {
            assert(items_view(out@) =~= items_view(before).push(it@));
            assert(symbol_items(symbols_view(v@.take(i + 1))) =~= symbol_items(symbols_view(v@.take(i as int))).push(
                symbol_item(v@[i as int]@),
            ));
        }
        i += 1;
    }
    assert(v@.take(v@.len() as int) =~= v@);
}

fn field_item_of(name: &String, ty: &Type) -> (r: CompletionItem)
    ensures
        r@ == field_item((name@, ty@, false)),
{
    CompletionItem {
        label: name.clone(),
        kind: Some(CompletionItemKind::Field),
        detail: Some(type_label(ty)),
        documentation: None,
        insert_text: None,
        insert_text_plain: None,
        filter_text: Some(name.clone()),
        sort_text: Some(name.clone()),
    }
}

/// Items for the fields of a resolved shape.
fn shape_field_items(v: &Vec<(String, Type, bool)>) -> (r: Vec<CompletionItem>)
    ensures
        items_view(r@) == field_items(shape_view(v@)),
{
    let mut out: Vec<CompletionItem> = Vec::new();
    let mut i: usize = 0;
    while i < v.len()
        invariant
            i <= v@.len(),
            items_view(out@) == field_items(shape_view(v@.take(i as int))),
        decreases v@.len() - i,
    {
        let it = field_item_of(&v[i].0, &v[i].1);
        let ghost before = out@;
        out.push(it);
        proof {
            assert(items_view(out@) =~= items_view(before).push(it@));
            assert(field_items(shape_view(v@.take(i + 1))) =~= field_items(shape_view(v@.take(i as int))).push(
                field_item((v@[i as int].0@, v@[i as int].1@, v@[i as int].2)),
            ));
        }
        i += 1;
    }
    assert(v@.take(v@.len() as int) =~= v@);
    out
}

/// Items for the fields of an inline object type.
fn object_field_items(v: &Vec<(String, Box<Type>, bool)>) -> (r: Vec<CompletionItem>)
    ensures
        items_view(r@) == field_items(fields_view(v@)),
{
    let mut out: Vec<CompletionItem> = Vec::new();
    let mut i: usize = 0;
    proof {
        crate::syntax::ast::lemma_fields_view(v@);
    }
    while i < v.len()
        invariant
            i <= v@.len(),
            fields_view(v@).len() == v@.len(),
            forall|j: int| 0 <= j < v@.len() ==> #[trigger] fields_view(v@)[j] == (v@[j].0@, (*v@[j].1)@, v@[j].2),
            items_view(out@) == field_items(fields_view(v@).take(i as int)),
        decreases v@.len() - i,
    {
        let it = field_item_of(&v[i].0, &v[i].1);
        let ghost before = out@;
        out.push(it);
        proof {
            assert(items_view(out@) =~= items_view(before).push(it@));
            assert(field_items(fields_view(v@).take(i + 1)) =~= field_items(fields_view(v@).take(i as int)).push(
                field_item(fields_view(v@)[i as int]),
            ));
        }
        i += 1;
    }
    assert(fields_view(v@).take(v@.len() as int) =~= fields_view(v@));
    out
}

// ── The chain before the cursor ──────────────────────────────────────────

/// Number of identifier characters (`[A-Za-z0-9_]`) at the end of `s`.
pub open spec fn trailing_ident_cont(s: Seq<char>) -> nat
    decreases s.len(),
{
    if s.len() > 0 && spec_is_ident_cont(s.last()) {
        1 + trailing_ident_cont(s.drop_last())
    } else {
        0
    }
}

/// Number of identifier-start characters (`[A-Za-z_]`) at the end of `s`.
pub open spec fn trailing_ident_start(s: Seq<char>) -> nat
    decreases s.len(),
{
    if s.len() > 0 && spec_is_ident_start(s.last()) {
        1 + trailing_ident_start(s.drop_last())
    } else {
        0
    }
}

/// The `name.` segments that `s` ends with, left to right: each segment
/// is a run of `[A-Za-z_]` followed by a `.`; the walk stops at the first
/// place that does not fit.
pub open spec fn chain_segments(s: Seq<char>) -> Seq<Seq<char>>
    decreases s.len(),
{
    if s.len() > 0 && s.last() == '.' {
        let body = s.drop_last();
        let n = trailing_ident_start(body);
        proof {
            lemma_trailing_start_bound(body);
        }
        if n == 0 {
            Seq::empty()
        } else {
            chain_segments(body.subrange(0, body.len() - n)).push(
                body.subrange(body.len() - n, body.len() as int),
            )
        }
    } else {
        Seq::empty()
    }
}

pub proof fn lemma_trailing_start_bound(s: Seq<char>)
    ensures
        trailing_ident_start(s) <= s.len(),
    decreases s.len(),
{
    if s.len() > 0 {
        lemma_trailing_start_bound(s.drop_last());
    }
}

/// `(segments, partial)`: the partial identifier being typed at the end of
/// `text` (if any) and the `name.` segments before it.
pub open spec fn spec_chain(text: Seq<char>) -> (Seq<Seq<char>>, Option<Seq<char>>) {
    let n = trailing_ident_cont(text);
    let rest = text.subrange(0, text.len() - n);
    (
        chain_segments(rest),
        if n > 0 {
            Some(text.subrange(text.len() - n, text.len() as int))
        } else {
            None
        },
    )
}

proof fn lemma_trailing_cont(s: Seq<char>, i: int)
    requires
        0 <= i <= s.len(),
        forall|j: int| i <= j < s.len() ==> spec_is_ident_cont(#[trigger] s[j]),
        i == 0 || !spec_is_ident_cont(s[i - 1]),
    ensures
        trailing_ident_cont(s) == s.len() - i,
    decreases s.len() - i,
{
    if i < s.len() {
        assert(s.drop_last().len() == s.len() - 1);
        assert forall|j: int| i <= j < s.drop_last().len() implies spec_is_ident_cont(
            #[trigger] s.drop_last()[j],
        ) by {
            assert(s.drop_last()[j] == s[j]);
        }
        if i > 0 {
            assert(s.drop_last()[i - 1] == s[i - 1]);
        }
        lemma_trailing_cont(s.drop_last(), i);
    }
}

proof fn lemma_trailing_start(s: Seq<char>, i: int)
    requires
        0 <= i <= s.len(),
        forall|j: int| i <= j < s.len() ==> spec_is_ident_start(#[trigger] s[j]),
        i == 0 || !spec_is_ident_start(s[i - 1]),
    ensures
        trailing_ident_start(s) == s.len() - i,
    decreases s.len() - i,
{
    if i < s.len() {
        assert forall|j: int| i <= j < s.drop_last().len() implies spec_is_ident_start(
            #[trigger] s.drop_last()[j],
        ) by {
            assert(s.drop_last()[j] == s[j]);
        }
        if i > 0 {
            assert(s.drop_last()[i - 1] == s[i - 1]);
        }
        lemma_trailing_start(s.drop_last(), i);
    }
}

/// Walks back from the end of `text` over the identifier being typed and
/// the `name.` segments before it.
///
/// `"pri"` gives `([], Some("pri"))`, `"sys."` gives `(["sys"], None)`,
/// `"sys.env.g"` gives `(["sys", "env"], Some("g"))`.
#[verifier::loop_isolation(false)]
pub fn chain_before_cursor(text: &str) -> (r: (Vec<String>, Option<String>))
    ensures
        strings_view(r.0@) == spec_chain(text@).0,
        opt_string_view(r.1) == spec_chain(text@).1,
{
    let cs = chars_of(text);
    let len = cs.len();
    let mut i = len;
    while i > 0 && is_ident_cont(cs[i - 1])
        invariant
            cs@ == text@,
            i <= len == cs@.len(),
            forall|j: int| i <= j < len ==> spec_is_ident_cont(#[trigger] cs@[j]),
        decreases i,
    {
        i -= 1;
    }
    proof {
        lemma_trailing_cont(cs@, i as int);
    }
    let partial = if i < len {
        Some(string_from_chars(&cs.as_slice()[i..len]))
    } else {
        None
    };
    proof {
        if i < len {
            assert(cs@.subrange(i as int, len as int) =~= text@.subrange(
                text@.len() - trailing_ident_cont(text@),
                text@.len() as int,
            ));
        }
    }
    let ghost rest = cs@.subrange(0, i as int);
    let mut rev: Vec<String> = Vec::new();
    assert(chain_segments(rest) =~= chain_segments(cs@.subrange(0, i as int)) + strings_view(rev@).reverse());
    loop
        invariant
            cs@ == text@,
            i <= cs@.len(),
            chain_segments(rest) == chain_segments(cs@.subrange(0, i as int)) + strings_view(rev@).reverse(),
        decreases i,
    {
        if i == 0 || cs[i - 1] != '.' {
            proof {
                let pre = cs@.subrange(0, i as int);
                assert(!(pre.len() > 0 && pre.last() == '.'));
                assert(chain_segments(pre) =~= Seq::<Seq<char>>::empty());
            }
            break;
        }
        let dot = i - 1;
        let mut j = dot;
        while j > 0 && is_ident_start(cs[j - 1])
            invariant
                j <= dot < cs@.len(),
                forall|k: int| j <= k < dot ==> spec_is_ident_start(#[trigger] cs@[k]),
            decreases j,
        {
            j -= 1;
        }
        let ghost pre = cs@.subrange(0, i as int);
        let ghost body = pre.drop_last();
        proof {
            assert(body =~= cs@.subrange(0, dot as int));
            lemma_trailing_start(body, j as int);
        }
        if j == dot {
            proof {
                assert(chain_segments(pre) =~= Seq::<Seq<char>>::empty());
            }
            break;
        }
        let seg = string_from_chars(&cs.as_slice()[j..dot]);
        proof {
            assert(body.subrange(0, body.len() - trailing_ident_start(body)) =~= cs@.subrange(0, j as int));
            assert(body.subrange(body.len() - trailing_ident_start(body), body.len() as int) =~= seg@);
            assert(chain_segments(pre) == chain_segments(cs@.subrange(0, j as int)).push(seg@));
            let old_rev = strings_view(rev@);
            assert(strings_view(rev@.push(seg)) =~= old_rev.push(seg@));
            assert(old_rev.push(seg@).reverse() =~= seq![seg@] + old_rev.reverse());
            let a = chain_segments(cs@.subrange(0, j as int));
            assert(a.push(seg@) + old_rev.reverse() =~= a + (seq![seg@] + old_rev.reverse()));
        }
        rev.push(seg);
        i = j;
    }
    let mut chain: Vec<String> = Vec::new();
    let mut k = rev.len();
    while k > 0
        invariant
            k <= rev@.len(),
            strings_view(chain@) == strings_view(rev@).reverse().take(rev@.len() - k),
        decreases k,
    {
        let ghost before = chain@;
        chain.push(rev[k - 1].clone());
        proof {
            assert(strings_view(chain@) =~= strings_view(before).push(rev@[k - 1]@));
            assert(strings_view(rev@).reverse().take(rev@.len() - k + 1) =~= strings_view(rev@).reverse().take(
                rev@.len() - k,
            ).push(rev@[k - 1]@));
        }
        k -= 1;
    }
    proof {
        assert(strings_view(rev@).reverse().take(rev@.len() as int) =~= strings_view(rev@).reverse());
        assert(rest =~= text@.subrange(0, text@.len() - trailing_ident_cont(text@)));
        assert(chain_segments(rest) =~= strings_view(rev@).reverse());
    }
    (chain, partial)
}

// ── Dispatch ─────────────────────────────────────────────────────────────

/// The namespaces under `sys.`.
pub open spec fn spec_is_known_ns(n: Seq<char>) -> bool {
    n == "env"@ || n == "os"@ || n == "memory"@ || n == "cpu"@ || n == "gpu"@ || n == "disk"@ || n
        == "net"@ || n == "process"@ || n == "fs"@ || n == "path"@ || n == "proc_env"@
}

pub fn is_known_ns(n: &str) -> (r: bool)
    ensures
        r == spec_is_known_ns(n@),
{
    str_eq(n, "env") || str_eq(n, "os") || str_eq(n, "memory") || str_eq(n, "cpu") || str_eq(n, "gpu")
        || str_eq(n, "disk") || str_eq(n, "net") || str_eq(n, "process") || str_eq(n, "fs") || str_eq(
        n,
        "path",
    ) || str_eq(n, "proc_env")
}

/// The first symbol called `name`.
pub open spec fn first_symbol(s: Seq<SymbolV>, name: Seq<char>) -> Option<SymbolV>
    decreases s.len(),
{
    if s.len() == 0 {
        None
    } else if s[0].name == name {
        Some(s[0])
    } else {
        first_symbol(s.drop_first(), name)
    }
}

/// The first enum called `name`.
pub open spec fn first_enum(s: Seq<SymbolV>, name: Seq<char>) -> Option<SymbolV>
    decreases s.len(),
{
    if s.len() == 0 {
        None
    } else if s[0].name == name && s[0].kind == SymbolKind::Enum {
        Some(s[0])
    } else {
        first_enum(s.drop_first(), name)
    }
}

/// The exported symbols of each module the editor could read, by module
/// path.
pub struct ModuleExports {
    pub modules: Vec<(Vec<String>, Vec<Symbol>)>,
}

pub open spec fn exports_view(x: ModuleExports) -> Seq<(Seq<Seq<char>>, Seq<SymbolV>)> {
    x.modules@.map_values(|m: (Vec<String>, Vec<Symbol>)| (strings_view(m.0@), symbols_view(m.1@)))
}

/// The exported symbols of `module`: those of its first entry, none if
/// there is no entry.
pub open spec fn module_symbols(x: Seq<(Seq<Seq<char>>, Seq<SymbolV>)>, module: Seq<Seq<char>>) -> Seq<SymbolV>
    decreases x.len(),
{
    if x.len() == 0 {
        Seq::empty()
    } else if x[0].0 == module {
        x[0].1
    } else {
        module_symbols(x.drop_first(), module)
    }
}

/// What one parse of the document yields: its symbols, its interface and
/// alias shapes, and the modules of its `from x import *` statements.
pub struct ParsedDoc {
    pub symbols: Vec<Symbol>,
    pub named_shapes: NamedShapes,
    pub wildcard_imports: Vec<Vec<String>>,
}

/// The modules of the top-level `from x import *` statements, in order.
pub open spec fn wildcard_modules(ss: Seq<Stmt>) -> Seq<Seq<Seq<char>>>
    decreases ss.len(),
{
    if ss.len() == 0 {
        Seq::empty()
    } else {
        let rest = wildcard_modules(ss.drop_last());
        match ss.last() {
            Stmt::FromImport { module, wildcard, .. } => if wildcard {
                rest.push(strings_view(module@))
            } else {
                rest
            },
            _ => rest,
        }
    }
}

pub open spec fn wildcards_view(v: Seq<Vec<String>>) -> Seq<Seq<Seq<char>>> {
    v.map_values(|m: Vec<String>| strings_view(m@))
}

impl ParsedDoc {
    /// The three parts come from one program (or the document did not
    /// parse and all three are empty).
    pub open spec fn of_program(&self, p: Program) -> bool {
        &&& symbols_view(self.symbols@) == program_symbols(p)
        &&& forall|n: Seq<char>| #[trigger] self.named_shapes.spec_get(n) == named_shape(p, n)
        &&& wildcards_view(self.wildcard_imports@) == wildcard_modules(p.stmts@)
    }

    pub open spec fn is_empty(&self) -> bool {
        &&& self.symbols@.len() == 0
        &&& forall|n: Seq<char>| #[trigger] self.named_shapes.spec_get(n) is None
        &&& self.wildcard_imports@.len() == 0
    }

    pub open spec fn consistent(&self) -> bool {
        self.is_empty() || exists|p: Program| self.of_program(p)
    }

    /// Parses `full_text` leniently (see [`parse_lenient`]) and derives
    /// what completion needs; a document that does not parse gives empty
    /// parts.
    pub fn from_text(full_text: &str) -> (r: ParsedDoc)
        ensures
            r.consistent(),
            crate::syntax::lexer::lex_from(full_text@, 0, 1, 1) is Err ==> r.symbols@.len() == 0
                && r.wildcard_imports@.len() == 0,
    {
        match parse_lenient(full_text) {
            Some(program) => {
                let d = ParsedDoc {
                    symbols: collect_symbols(&program),
                    named_shapes: collect_named_shapes(&program),
                    wildcard_imports: wildcard_import_modules(&program),
                };
                assert(d.of_program(program));
                d
            },
            None => ParsedDoc {
                symbols: Vec::new(),
                named_shapes: NamedShapes::empty(),
                wildcard_imports: Vec::new(),
            },
        }
    }
}

/// The modules of the top-level `from x import *` statements.
pub fn wildcard_import_modules(program: &Program) -> (r: Vec<Vec<String>>)
    ensures
        wildcards_view(r@) == wildcard_modules(program.stmts@),
{
    let mut out: Vec<Vec<String>> = Vec::new();
    let mut i: usize = 0;
    while i < program.stmts.len()
        invariant
            i <= program.stmts@.len(),
            wildcards_view(out@) == wildcard_modules(program.stmts@.take(i as int)),
        decreases program.stmts@.len() - i,
    {
        proof {
            assert(program.stmts@.take(i + 1).drop_last() =~= program.stmts@.take(i as int));
        }
        let ghost before = out@;
        if let Stmt::FromImport { module, wildcard, .. } = &program.stmts[i] {
            if *wildcard {
                let m = crate::syntax::ast::clone_strings(module);
                out.push(m);
                proof {
                    assert(strings_view(m@) =~= strings_view(module@));
                    assert(wildcards_view(out@) =~= wildcards_view(before).push(strings_view(m@)));
                }
            }
        }
        i += 1;
    }
    assert(program.stmts@.take(program.stmts@.len() as int) =~= program.stmts@);
    out
}

/// The modules the top-level `import` and `from ... import` statements
/// name, in order.
pub open spec fn imported_modules(ss: Seq<Stmt>) -> Seq<Seq<Seq<char>>>
    decreases ss.len(),
{
    if ss.len() == 0 {
        Seq::empty()
    } else {
        let rest = imported_modules(ss.drop_last());
        match ss.last() {
            Stmt::Import { module, .. } => rest.push(strings_view(module@)),
            Stmt::FromImport { module, .. } => rest.push(strings_view(module@)),
            _ => rest,
        }
    }
}

/// The modules the top-level imports of `program` name, in order.
pub fn import_modules(program: &Program) -> (r: Vec<Vec<String>>)
    ensures
        wildcards_view(r@) == imported_modules(program.stmts@),
{
    let mut out: Vec<Vec<String>> = Vec::new();
    let mut i: usize = 0;
    while i < program.stmts.len()
        invariant
            i <= program.stmts@.len(),
            wildcards_view(out@) == imported_modules(program.stmts@.take(i as int)),
        decreases program.stmts@.len() - i,
    {
        proof {
            assert(program.stmts@.take(i + 1).drop_last() =~= program.stmts@.take(i as int));
        }
        let ghost before = out@;
        match &program.stmts[i] {
            Stmt::Import { module, .. } | Stmt::FromImport { module, .. } => {
                let m = crate::syntax::ast::clone_strings(module);
                out.push(m);
                proof {
                    assert(strings_view(m@) =~= strings_view(module@));
                    assert(wildcards_view(out@) =~= wildcards_view(before).push(strings_view(m@)));
                }
            },
            _ => {},
        }
        i += 1;
    }
    assert(program.stmts@.take(program.stmts@.len() as int) =~= program.stmts@);
    out
}

/// What a type offers after `.`: a `string` the string methods, an array
/// the array methods, a `number`, `boolean` or `void` nothing at all.
pub proof fn law_members_by_kind(elem: TypeV, shapes: NamedShapes)
    ensures
        type_members(TypeV::Primitive("string"@), shapes) == Some(builtin_items(spec_string_methods())),
        type_members(TypeV::Array(Box::new(elem)), shapes) == Some(builtin_items(spec_array_methods())),
        type_members(TypeV::Primitive("number"@), shapes) == Some(Seq::<ItemV>::empty()),
        type_members(TypeV::Primitive("boolean"@), shapes) == Some(Seq::<ItemV>::empty()),
        type_members(TypeV::Primitive("void"@), shapes) == Some(Seq::<ItemV>::empty()),
{
    reveal_strlit("string");
    reveal_strlit("number");
    reveal_strlit("boolean");
    reveal_strlit("void");
    assert("number"@[0] != "string"@[0] && "boolean"@[0] != "string"@[0] && "void"@[0] != "string"@[0]);
}

/// A possibly-missing value offers the members of the value it may
/// hold: `T?` has the members of `T` (a `string?` the string methods).
pub proof fn law_optional_offers_inner_members(t: TypeV, shapes: NamedShapes)
    ensures
        type_members(TypeV::Optional(Box::new(t)), shapes) == type_members(t, shapes),
        type_members(TypeV::Optional(Box::new(TypeV::Primitive("string"@))), shapes) == Some(
            builtin_items(spec_string_methods()),
        ),
{
    assert(type_members(TypeV::Primitive("string"@), shapes) == Some(builtin_items(spec_string_methods())));
}

/// Members offered for a value of type `t`: an object's fields (a named
/// shape resolved in `shapes`), array methods, string methods, nothing for
/// `number` / `boolean` / `void`, the inner type's for `T?`. `None` where
/// the type does not tell (`any`, unions, functions, unknown names).
pub open spec fn type_members(t: TypeV, shapes: NamedShapes) -> Option<Seq<ItemV>>
    decreases t,
{
    match t {
        TypeV::Optional(inner) => type_members(*inner, shapes),
        TypeV::Object { fields, .. } => Some(field_items(fields)),
        TypeV::Named(n) => match shapes.spec_get(n) {
            Some(fs) => Some(field_items(fs)),
            None => None,
        },
        TypeV::Array(_) => Some(builtin_items(spec_array_methods())),
        TypeV::Primitive(p) => if p == "string"@ {
            Some(builtin_items(spec_string_methods()))
        } else if p == "number"@ || p == "boolean"@ || p == "void"@ {
            Some(Seq::empty())
        } else {
            None
        },
        _ => None,
    }
}

/// Members offered after `name.`: for a namespace import, the imported
/// module's exports (when modules can be read at all); otherwise those of
/// the symbol's type. `None` when nothing pins them down.
pub open spec fn name_members(
    name: Seq<char>,
    doc: ParsedDoc,
    exports: Option<Seq<(Seq<Seq<char>>, Seq<SymbolV>)>>,
) -> Option<Seq<ItemV>> {
    match first_symbol(symbols_view(doc.symbols@), name) {
        None => None,
        Some(sym) => if sym.kind == SymbolKind::Module {
            match (sym.import, exports) {
                (Some((module, _)), Some(x)) => Some(symbol_items(exported(module_symbols(x, module)))),
                _ => None,
            }
        } else {
            match sym.ty {
                Some(t) => type_members(t, doc.named_shapes),
                None => None,
            }
        },
    }
}

/// The exported symbols among `s`.
pub open spec fn exported(s: Seq<SymbolV>) -> Seq<SymbolV> {
    s.filter(|x: SymbolV| x.exported)
}

/// The items offered by the exports of each module in `mods`.
pub open spec fn wildcard_items(mods: Seq<Seq<Seq<char>>>, x: Seq<(Seq<Seq<char>>, Seq<SymbolV>)>) -> Seq<ItemV>
    decreases mods.len(),
{
    if mods.len() == 0 {
        Seq::empty()
    } else {
        wildcard_items(mods.drop_last(), x) + symbol_items(exported(module_symbols(x, mods.last())))
    }
}

/// The candidates for a chain, before duplicates are dropped.
pub open spec fn spec_candidates(
    chain: Seq<Seq<char>>,
    doc: ParsedDoc,
    exports: Option<Seq<(Seq<Seq<char>>, Seq<SymbolV>)>>,
) -> Seq<ItemV> {
    if chain.len() == 0 {
        symbol_items(symbols_view(doc.symbols@)) + match exports {
            Some(x) => wildcard_items(wildcards_view(doc.wildcard_imports@), x),
            None => Seq::empty(),
        } + builtin_items(spec_keywords()) + builtin_items(spec_top_level_builtins())
    } else if chain.len() == 1 && chain[0] == "sys"@ {
        builtin_items(spec_sys_namespaces()) + builtin_items(spec_top_level_builtins())
    } else if chain.len() == 2 && chain[0] == "sys"@ && spec_is_known_ns(chain[1]) {
        builtin_items(spec_ns_methods(chain[1]))
    } else if chain.len() == 1 && first_enum(symbols_view(doc.symbols@), chain[0]) is Some {
        variant_items(chain[0], first_enum(symbols_view(doc.symbols@), chain[0]).unwrap().enum_variants)
    } else if chain.len() == 1 && spec_is_known_ns(chain[0]) {
        builtin_items(spec_top_level_builtins())
    } else if chain.len() == 1 {
        match name_members(chain[0], doc, exports) {
            Some(items) => items,
            None => builtin_items(spec_array_methods()) + builtin_items(spec_string_methods()),
        }
    } else {
        Seq::empty()
    }
}

pub fn find_symbol(syms: &Vec<Symbol>, name: &str) -> (r: Option<usize>)
    ensures
        match r {
            Some(i) => i < syms@.len() && first_symbol(symbols_view(syms@), name@) == Some(syms@[i as int]@),
            None => first_symbol(symbols_view(syms@), name@) is None,
        },
{
    let ghost sv = symbols_view(syms@);
    let mut i: usize = 0;
    assert(sv.skip(0) =~= sv);
    while i < syms.len()
        invariant
            i <= syms@.len(),
            sv == symbols_view(syms@),
            first_symbol(sv, name@) == first_symbol(sv.skip(i as int), name@),
        decreases syms@.len() - i,
    {
        proof {
            assert(sv.skip(i as int)[0] == syms@[i as int]@);
            assert(sv.skip(i as int).drop_first() =~= sv.skip(i + 1));
        }
        if str_eq(syms[i].name.as_str(), name) {
            return Some(i);
        }
        i += 1;
    }
    None
}

fn enum_variants(syms: &Vec<Symbol>, name: &str) -> (r: Option<usize>)
    ensures
        match r {
            Some(i) => i < syms@.len() && first_enum(symbols_view(syms@), name@) == Some(syms@[i as int]@),
            None => first_enum(symbols_view(syms@), name@) is None,
        },
{
    let ghost sv = symbols_view(syms@);
    let mut i: usize = 0;
    assert(sv.skip(0) =~= sv);
    while i < syms.len()
        invariant
            i <= syms@.len(),
            sv == symbols_view(syms@),
            first_enum(sv, name@) == first_enum(sv.skip(i as int), name@),
        decreases syms@.len() - i,
    {
        proof {
            assert(sv.skip(i as int)[0] == syms@[i as int]@);
            assert(sv.skip(i as int).drop_first() =~= sv.skip(i + 1));
        }
        if syms[i].kind == SymbolKind::Enum && str_eq(syms[i].name.as_str(), name) {
            return Some(i);
        }
        i += 1;
    }
    None
}

/// Items for the variants of the enum `name`.
fn variant_items_of(name: &str, vs: &Vec<(String, i64)>) -> (r: Vec<CompletionItem>)
    ensures
        items_view(r@) == variant_items(name@, crate::lsp::symbols::variants_view(vs@)),
{
    let ghost vv = crate::lsp::symbols::variants_view(vs@);
    let mut out: Vec<CompletionItem> = Vec::new();
    let mut i: usize = 0;
    while i < vs.len()
        invariant
            i <= vs@.len(),
            vv == crate::lsp::symbols::variants_view(vs@),
            items_view(out@) == variant_items(name@, vv.take(i as int)),
        decreases vs@.len() - i,
    {
        let mut detail = owned(name);
        detail.append(".");
        detail.append(vs[i].0.as_str());
        detail.append(" = ");
        detail.append(i64_decimal(vs[i].1).as_str());
        let it = CompletionItem {
            label: vs[i].0.clone(),
            kind: Some(CompletionItemKind::EnumMember),
            detail: Some(detail),
            documentation: None,
            insert_text: None,
            insert_text_plain: None,
            filter_text: Some(vs[i].0.clone()),
            sort_text: Some(vs[i].0.clone()),
        };
        let ghost before = out@;
        out.push(it);
        proof {
            assert(vv[i as int] == (vs@[i as int].0@, vs@[i as int].1));
            assert(it@ == variant_item(name@, vv[i as int]));
            assert(items_view(out@) =~= items_view(before).push(it@));
            assert(variant_items(name@, vv.take(i + 1)) =~= variant_items(name@, vv.take(i as int)).push(
                variant_item(name@, vv[i as int]),
            ));
        }
        i += 1;
    }
    assert(vv.take(vs@.len() as int) =~= vv);
    out
}

/// Members of a value of type `ty` (see [`type_members`]).
fn member_completions_for_type(ty: &Type, shapes: &NamedShapes) -> (r: Option<Vec<CompletionItem>>)
    ensures
        match r {
            Some(v) => type_members(ty@, *shapes) == Some(items_view(v@)),
            None => type_members(ty@, *shapes) is None,
        },
    decreases ty,
{
    match ty {
        Type::Optional(inner) => member_completions_for_type(inner, shapes),
        Type::Object { fields, .. } => Some(object_field_items(fields)),
        Type::Named(n) => match shapes.get(n.as_str()) {
            Some(fs) => Some(shape_field_items(&fs)),
            None => None,
        },
        Type::Array(_) => {
            let mut out: Vec<CompletionItem> = Vec::new();
            push_builtin_items(&mut out, &array_methods());
            Some(out)
        },
        Type::Primitive(p) => {
            if str_eq(p.as_str(), "string") {
                let mut out: Vec<CompletionItem> = Vec::new();
                push_builtin_items(&mut out, &string_methods());
                Some(out)
            } else if str_eq(p.as_str(), "number") || str_eq(p.as_str(), "boolean") || str_eq(p.as_str(), "void") {
                let out: Vec<CompletionItem> = Vec::new();
                assert(items_view(out@) =~= Seq::<ItemV>::empty());
                Some(out)
            } else {
                None
            }
        },
        _ => None,
    }
}

/// The first entry of `exports` for `module`.
fn find_module<'a>(exports: &'a ModuleExports, module: &Vec<String>) -> (r: Option<&'a Vec<Symbol>>)
    ensures
        match r {
            Some(v) => symbols_view(v@) == module_symbols(exports_view(*exports), strings_view(module@)),
            None => module_symbols(exports_view(*exports), strings_view(module@)) == Seq::<SymbolV>::empty(),
        },
{
    let ghost x = exports_view(*exports);
    let ghost m = strings_view(module@);
    let mut i: usize = 0;
    assert(x.skip(0) =~= x);
    while i < exports.modules.len()
        invariant
            i <= exports.modules@.len(),
            x == exports_view(*exports),
            m == strings_view(module@),
            module_symbols(x, m) == module_symbols(x.skip(i as int), m),
        decreases exports.modules@.len() - i,
    {
        proof {
            assert(x.skip(i as int)[0] == (strings_view(exports.modules@[i as int].0@), symbols_view(exports.modules@[i as int].1@)));
            assert(x.skip(i as int).drop_first() =~= x.skip(i + 1));
        }
        if same_path(&exports.modules[i].0, module) {
            return Some(&exports.modules[i].1);
        }
        i += 1;
    }
    None
}

/// Two module paths are equal segment by segment.
fn same_path(a: &Vec<String>, b: &Vec<String>) -> (r: bool)
    ensures
        r == (strings_view(a@) == strings_view(b@)),
{
    if a.len() != b.len() {
        assert(strings_view(a@).len() != strings_view(b@).len());
        return false;
    }
    let mut i: usize = 0;
    while i < a.len()
        invariant
            a@.len() == b@.len(),
            i <= a@.len(),
            forall|j: int| 0 <= j < i ==> (#[trigger] a@[j])@ == b@[j]@,
        decreases a@.len() - i,
    {
        if !str_eq(a[i].as_str(), b[i].as_str()) {
            assert(strings_view(a@)[i as int] != strings_view(b@)[i as int]);
            return false;
        }
        i += 1;
    }
    assert(strings_view(a@) =~= strings_view(b@));
    true
}

/// Items for the exported symbols of `module`.
fn cross_module_completions(exports: &ModuleExports, module: &Vec<String>) -> (r: Vec<CompletionItem>)
    ensures
        items_view(r@) == symbol_items(exported(module_symbols(exports_view(*exports), strings_view(module@)))),
{
    let mut out: Vec<CompletionItem> = Vec::new();
    match find_module(exports, module) {
        Some(syms) => {
            let ghost sv = symbols_view(syms@);
            let mut i: usize = 0;
            while i < syms.len()
                invariant
                    i <= syms@.len(),
                    sv == symbols_view(syms@),
                    items_view(out@) == symbol_items(exported(sv.take(i as int))),
                decreases syms@.len() - i,
            {
                proof {
                    assert(sv.take(i + 1).drop_last() =~= sv.take(i as int));
                    assert(sv.take(i + 1).last() == syms@[i as int]@);
                    reveal_with_fuel(Seq::filter, 1);
                }
                if syms[i].exported {
                    let it = to_symbol_item(&syms[i]);
                    let ghost before = out@;
                    out.push(it);
                    proof {
                        assert(items_view(out@) =~= items_view(before).push(it@));
                        assert(exported(sv.take(i + 1)) =~= exported(sv.take(i as int)).push(syms@[i as int]@));
                        assert(symbol_items(exported(sv.take(i + 1))) =~= symbol_items(exported(sv.take(i as int))).push(
                            symbol_item(syms@[i as int]@),
                        ));
                    }
                } else {
                    proof {
                        assert(exported(sv.take(i + 1)) =~= exported(sv.take(i as int)));
                    }
                }
                i += 1;
            }
            assert(sv.take(syms@.len() as int) =~= sv);
        },
        None => {
            assert(items_view(out@) =~= symbol_items(exported(Seq::<SymbolV>::empty())));
        },
    }
    out
}

/// Members after `name.` (see [`name_members`]).
fn member_completions(name: &str, doc: &ParsedDoc, exports: Option<&ModuleExports>) -> (r: Option<
    Vec<CompletionItem>,
>)
    ensures
        match r {
            Some(v) => name_members(
                name@,
                *doc,
                match exports {
                    Some(x) => Some(exports_view(*x)),
                    None => None,
                },
            ) == Some(items_view(v@)),
            None => name_members(
                name@,
                *doc,
                match exports {
                    Some(x) => Some(exports_view(*x)),
                    None => None,
                },
            ) is None,
        },
{
    let i = find_symbol(&doc.symbols, name)?;
    let sym = &doc.symbols[i];
    if sym.kind == SymbolKind::Module {
        match (&sym.import, exports) {
            (Some((module, _)), Some(x)) => Some(cross_module_completions(x, module)),
            _ => None,
        }
    } else {
        match &sym.ty {
            Some(t) => member_completions_for_type(t, &doc.named_shapes),
            None => None,
        }
    }
}

/// Whether one of `items` has the label `label`.
fn has_label_exec(items: &Vec<CompletionItem>, label: &String) -> (r: bool)
    ensures
        r == has_label(items_view(items@), label@),
{
    let mut i: usize = 0;
    while i < items.len()
        invariant
            i <= items@.len(),
            forall|j: int| 0 <= j < i ==> (#[trigger] items_view(items@)[j]).label != label@,
        decreases items@.len() - i,
    {
        if label_eq(&items[i].label, label) {
            assert(items_view(items@)[i as int].label == label@);
            return true;
        }
        i += 1;
    }
    false
}

/// Drops each item whose label an item kept before it has.
fn dedup_by_label(items: Vec<CompletionItem>) -> (r: Vec<CompletionItem>)
    ensures
        items_view(r@) == dedup_labels(items_view(items@)),
{
    let ghost all = items_view(items@);
    let mut out: Vec<CompletionItem> = Vec::new();
    let mut rest = items;
    let ghost mut k: int = 0;
    while rest.len() > 0
        invariant
            0 <= k <= all.len(),
            items_view(rest@) == all.subrange(k, all.len() as int),
            items_view(out@) == dedup_labels(all.take(k)),
        decreases rest@.len(),
    {
        let ghost old_rest = rest@;
        let it = rest.remove(0);
        let ghost before = out@;
        proof {
            assert(rest@ =~= old_rest.subrange(1, old_rest.len() as int));
            assert(it == old_rest[0]);
            assert(items_view(old_rest).len() == old_rest.len());
            assert(k < all.len());
            assert(all.subrange(k, all.len() as int)[0] == all[k]);
            assert(items_view(old_rest)[0] == all[k]);
            assert(items_view(rest@) =~= all.subrange(k + 1, all.len() as int)) by {
                assert forall|j: int| 0 <= j < rest@.len() implies #[trigger] items_view(rest@)[j] == all[k + 1 + j] by {
                    assert(rest@[j] == old_rest[j + 1]);
                    assert(all.subrange(k, all.len() as int)[j + 1] == all[k + 1 + j]);
                    assert(items_view(old_rest)[j + 1] == all[k + 1 + j]);
                }
            }
            assert(it@ == all[k]);
            assert(all.take(k + 1).drop_last() =~= all.take(k));
        }
        let dup = has_label_exec(&out, &it.label);
        if !dup {
            out.push(it);
            proof {
                assert(items_view(out@) =~= items_view(before).push(it@));
            }
        }
        proof {
            k = k + 1;
        }
    }
    assert(all.take(all.len() as int) =~= all);
    out
}

fn label_eq(a: &String, b: &String) -> (r: bool)
    ensures
        r == (a@ == b@),
{
    str_eq(a.as_str(), b.as_str())
}

/// The completion items for the chain ending `text_before_cursor`, in the
/// parsed document `doc`, with the exports of the modules the editor could
/// read (`None`: no cross-file lookups at all).
pub fn completions_in(text_before_cursor: &str, doc: &ParsedDoc, exports: Option<&ModuleExports>) -> (r: Vec<
    CompletionItem,
>)
    ensures
        items_view(r@) == dedup_labels(
            spec_candidates(
                spec_chain(text_before_cursor@).0,
                *doc,
                match exports {
                    Some(x) => Some(exports_view(*x)),
                    None => None,
                },
            ),
        ),
{
    let (chain, _partial) = chain_before_cursor(text_before_cursor);
    let ghost cv = strings_view(chain@);
    let ghost xv = match exports {
        Some(x) => Some(exports_view(*x)),
        None => None,
    };
    let mut items: Vec<CompletionItem> = Vec::new();
    if chain.len() == 0 {
        push_symbol_items(&mut items, &doc.symbols);
        if let Some(x) = exports {
            let ghost mods = wildcards_view(doc.wildcard_imports@);
            let ghost base = items_view(items@);
            let mut k: usize = 0;
            while k < doc.wildcard_imports.len()
                invariant
                    k <= doc.wildcard_imports@.len(),
                    mods == wildcards_view(doc.wildcard_imports@),
                    items_view(items@) == base + wildcard_items(mods.take(k as int), exports_view(*x)),
                decreases doc.wildcard_imports@.len() - k,
            {
                let mut more = cross_module_completions(x, &doc.wildcard_imports[k]);
                let ghost before = items@;
                let ghost added = more@;
                items.append(&mut more);
                proof {
                    assert(items_view(items@) =~= items_view(before) + items_view(added));
                    assert(mods.take(k + 1).drop_last() =~= mods.take(k as int));
                    assert(mods.take(k + 1).last() == strings_view(doc.wildcard_imports@[k as int]@));
                }
                k += 1;
            }
            assert(mods.take(mods.len() as int) =~= mods);
        }
        push_builtin_items(&mut items, &keywords());
        push_builtin_items(&mut items, &top_level_builtins());
    } else if chain.len() == 1 && str_eq(chain[0].as_str(), "sys") {
        push_builtin_items(&mut items, &sys_namespaces());
        push_builtin_items(&mut items, &top_level_builtins());
    } else if chain.len() == 2 && str_eq(chain[0].as_str(), "sys") && is_known_ns(chain[1].as_str()) {
        push_builtin_items(&mut items, &ns_methods(chain[1].as_str()));
    } else if chain.len() == 1 && enum_variants(&doc.symbols, chain[0].as_str()).is_some() {
        let i = enum_variants(&doc.symbols, chain[0].as_str()).unwrap();
        items = variant_items_of(chain[0].as_str(), &doc.symbols[i].enum_variants);
    } else if chain.len() == 1 && is_known_ns(chain[0].as_str()) {
        push_builtin_items(&mut items, &top_level_builtins());
    } else if chain.len() == 1 {
        match member_completions(chain[0].as_str(), doc, exports) {
            Some(v) => {
                items = v;
            },
            None => {
                push_builtin_items(&mut items, &array_methods());
                push_builtin_items(&mut items, &string_methods());
            },
        }
    }
    proof {
        if cv.len() == 0 {
            assert(items_view(items@) =~= spec_candidates(cv, *doc, xv));
        } else {
            assert(items_view(items@) =~= spec_candidates(cv, *doc, xv));
        }
    }
    dedup_by_label(items)
}

/// The texts of the modules the editor could read, by module path.
pub struct ModuleSources {
    pub modules: Vec<(Vec<String>, String)>,
}

/// The exports of each readable module: the exported symbols of its text
/// parsed leniently, none when it does not parse.
pub fn module_exports(sources: &ModuleSources) -> (r: ModuleExports)
    ensures
        r.modules@.len() == sources.modules@.len(),
        forall|i: int|
            0 <= i < sources.modules@.len() ==> strings_view((#[trigger] r.modules@[i]).0@) == strings_view(
                sources.modules@[i].0@,
            ) && forall|k: int| 0 <= k < r.modules@[i].1@.len() ==> (#[trigger] r.modules@[i].1@[k]).exported,
{
    let mut out: Vec<(Vec<String>, Vec<Symbol>)> = Vec::new();
    let mut i: usize = 0;
    while i < sources.modules.len()
        invariant
            i <= sources.modules@.len(),
            out@.len() == i,
            forall|j: int|
                0 <= j < i ==> strings_view((#[trigger] out@[j]).0@) == strings_view(sources.modules@[j].0@)
                    && forall|k: int| 0 <= k < out@[j].1@.len() ==> (#[trigger] out@[j].1@[k]).exported,
        decreases sources.modules@.len() - i,
    {
        let mut syms: Vec<Symbol> = Vec::new();
        if let Some(program) = parse_lenient(sources.modules[i].1.as_str()) {
            let all = collect_symbols(&program);
            let mut k: usize = 0;
            while k < all.len()
                invariant
                    k <= all@.len(),
                    forall|j: int| 0 <= j < syms@.len() ==> (#[trigger] syms@[j]).exported,
                decreases all@.len() - k,
            {
                if all[k].exported {
                    syms.push(crate::lsp::symbols::clone_symbol(&all[k]));
                }
                k += 1;
            }
        }
        let path = crate::syntax::ast::clone_strings(&sources.modules[i].0);
        proof {
            assert(strings_view(path@) =~= strings_view(sources.modules@[i as int].0@));
        }
        out.push((path, syms));
        i += 1;
    }
    ModuleExports { modules: out }
}

/// The exports in mathematical form, if any.
pub open spec fn exports_opt(x: Option<ModuleExports>) -> Option<Seq<(Seq<Seq<char>>, Seq<SymbolV>)>> {
    match x {
        Some(m) => Some(exports_view(m)),
        None => None,
    }
}

/// `items` are the completion items for the chain ending `prefix`, in the
/// document `doc`, with the module exports `x`.
pub open spec fn completes(items: Seq<ItemV>, prefix: Seq<char>, doc: ParsedDoc, x: Option<ModuleExports>) -> bool {
    items == dedup_labels(spec_candidates(spec_chain(prefix).0, doc, exports_opt(x)))
}

/// The identifier being typed never changes the items: after a text that
/// ends outside an identifier, typing identifier characters leaves the
/// chain, and so the items offered for one document, as they were
/// (filtering by the typed prefix is the editor's).
pub proof fn law_typed_identifier_keeps_items(
    t: Seq<char>,
    p: Seq<char>,
    doc: ParsedDoc,
    x: Option<ModuleExports>,
    items: Seq<ItemV>,
)
    requires
        t.len() == 0 || !spec_is_ident_cont(t.last()),
        forall|j: int| 0 <= j < p.len() ==> spec_is_ident_cont(#[trigger] p[j]),
    ensures
        spec_chain(t + p).0 == spec_chain(t).0,
        completes(items, t + p, doc, x) == completes(items, t, doc, x),
{
    let s = t + p;
    assert forall|j: int| t.len() <= j < s.len() implies spec_is_ident_cont(#[trigger] s[j]) by {
        assert(s[j] == p[j - t.len()]);
    }
    if t.len() > 0 {
        assert(s[t.len() - 1] == t.last());
    }
    lemma_trailing_cont(s, t.len() as int);
    lemma_trailing_cont(t, t.len() as int);
    assert(s.subrange(0, t.len() as int) =~= t);
    assert(t.subrange(0, t.len() as int) =~= t);
}

/// The completion items to offer at the cursor. `text_before_cursor` is
/// the document up to the cursor, `full_text` the whole document (parsed
/// leniently for its symbols, shapes and wildcard imports), `modules` the
/// texts of the modules it imports as far as they could be read (`None`
/// skips every cross-file lookup).
pub fn completions_at(text_before_cursor: &str, full_text: &str, modules: Option<&ModuleSources>) -> (r: Vec<
    CompletionItem,
>)
    ensures
        exists|doc: ParsedDoc, x: Option<ModuleExports>|
            doc.consistent() && (x is Some <==> modules is Some) && #[trigger] completes(
                items_view(r@),
                text_before_cursor@,
                doc,
                x,
            ),
{
    let doc = ParsedDoc::from_text(full_text);
    match modules {
        Some(src) => {
            let x = module_exports(src);
            let r = completions_in(text_before_cursor, &doc, Some(&x));
            assert(completes(items_view(r@), text_before_cursor@, doc, Some(x)));
            r
        },
        None => {
            let r = completions_in(text_before_cursor, &doc, None);
            assert(completes(items_view(r@), text_before_cursor@, doc, None));
            r
        },
    }
}

} // verus!
