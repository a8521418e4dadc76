//! Lexer: `.tsr` source text to a token stream ending in `Eof`.
//!
//! Whitespace and `//` / `/* */` comments separate tokens. Numbers are
//! `digits ('.' digits)?` and keep their canonical decimal text (no leading
//! zeros, no trailing fractional zeros, as a number prints). Strings use
//! `"` or `'` with the escapes `\n \t \r \\ \" \'`.

use crate::syntax::token::{keyword_kind, keyword_of, well_formed_tokens, Token, TokenKind};
use crate::text::{
    is_digit, is_ident_cont, is_ident_start, owned, push_char, spec_is_digit, spec_is_ident_cont,
    spec_is_ident_start, string_from_chars,
};
use vstd::prelude::*;

verus! {

/// A lexical error at a 1-based line / column.
#[derive(Debug, Clone)]
pub struct LexError {
    pub line: usize,
    pub col: usize,
    pub msg: String,
}

impl LexError {
    /// `lex error at <line>:<col>: <msg>`
    pub fn message(&self) -> (r: String)
        ensures
            r@ == "lex error at "@ + crate::text::nat_digits(self.line as nat) + ":"@
                + crate::text::nat_digits(self.col as nat) + ": "@ + self.msg@,
    {
        let mut s = owned("lex error at ");
        s.append(crate::text::usize_decimal(self.line).as_str());
        s.append(":");
        s.append(crate::text::usize_decimal(self.col).as_str());
        s.append(": ");
        s.append(self.msg.as_str());
        s
    }
}

/// `ds` without its leading zeros.
pub open spec fn strip_leading_zeros(ds: Seq<char>) -> Seq<char>
    decreases ds.len(),
{
    if ds.len() > 0 && ds[0] == '0' {
        strip_leading_zeros(ds.drop_first())
    } else {
        ds
    }
}

/// `ds` without its trailing zeros.
pub open spec fn strip_trailing_zeros(ds: Seq<char>) -> Seq<char>
    decreases ds.len(),
{
    if ds.len() > 0 && ds.last() == '0' {
        strip_trailing_zeros(ds.drop_last())
    } else {
        ds
    }
}

/// The canonical text of the number `int.frac`: no leading zeros (but at
/// least one digit before the point), no trailing fractional zeros, no
/// point when the fraction is zero.
pub open spec fn canonical_number(whole: Seq<char>, frac: Seq<char>) -> Seq<char> {
    let i = strip_leading_zeros(whole);
    let f = strip_trailing_zeros(frac);
    let ip = if i.len() == 0 {
        seq!['0']
    } else {
        i
    };
    if f.len() == 0 {
        ip
    } else {
        ip + seq!['.'] + f
    }
}

/// The canonical text of the number `int.frac`.
pub fn canonical_number_text(whole: &[char], frac: &[char]) -> (r: String)
    ensures
        r@ == canonical_number(whole@, frac@),
{
    let mut a: usize = 0;
    assert(whole@.skip(0) =~= whole@);
    while a < whole.len() && whole[a] == '0'
        invariant
            a <= whole@.len(),
            strip_leading_zeros(whole@) == strip_leading_zeros(whole@.skip(a as int)),
        decreases whole@.len() - a,
    {
        assert(whole@.skip(a as int).drop_first() =~= whole@.skip(a + 1));
        a += 1;
    }
    let mut b: usize = frac.len();
    assert(frac@.take(frac@.len() as int) =~= frac@);
    while b > 0 && frac[b - 1] == '0'
        invariant
            b <= frac@.len(),
            strip_trailing_zeros(frac@) == strip_trailing_zeros(frac@.take(b as int)),
        decreases b,
    {
        assert(frac@.take(b as int).drop_last() =~= frac@.take(b - 1));
        b -= 1;
    }
    let ghost istr = whole@.skip(a as int);
    let ghost fstr = frac@.take(b as int);
    assert(strip_leading_zeros(istr) == istr);
    assert(strip_trailing_zeros(fstr) == fstr);
    let mut out = String::new();
    if a == whole.len() {
        push_char(&mut out, '0');
        assert(istr.len() == 0);
    } else {
        let mut k = a;
        while k < whole.len()
            invariant
                a <= k <= whole@.len(),
                out@ == whole@.subrange(a as int, k as int),
            decreases whole@.len() - k,
        {
            push_char(&mut out, whole[k]);
            k += 1;
            assert(out@ =~= whole@.subrange(a as int, k as int));
        }
        assert(whole@.subrange(a as int, whole@.len() as int) =~= istr);
    }
    let ghost ip = out@;
    if b > 0 {
        push_char(&mut out, '.');
        let mut k: usize = 0;
        while k < b
            invariant
                k <= b <= frac@.len(),
                out@ == ip + seq!['.'] + frac@.subrange(0, k as int),
            decreases b - k,
        {
            push_char(&mut out, frac[k]);
            k += 1;
            assert(out@ =~= ip + seq!['.'] + frac@.subrange(0, k as int));
        }
        assert(frac@.subrange(0, b as int) =~= fstr);
    } else {
        assert(fstr.len() == 0);
    }
    out
}

fn token(kind: TokenKind, text: String, line: usize, col: usize) -> (t: Token)
    ensures
        t.kind == kind,
        t.text@ == text@,
        t.line == line,
        t.col == col,
{
    Token { kind, text, line, col }
}

fn lex_error(line: usize, col: usize, msg: &str) -> (e: LexError)
    ensures
        e.line == line,
        e.col == col,
        e.msg@ == msg@,
{
    LexError { line, col, msg: owned(msg) }
}

/// A token as a value: kind, text, line, column.
pub type TokV = (TokenKind, Seq<char>, int, int);

/// The value of a token.
pub open spec fn tok_v(t: Token) -> TokV {
    (t.kind, t.text@, t.line as int, t.col as int)
}

/// The values of a token stream.
pub open spec fn toks_v(ts: Seq<Token>) -> Seq<TokV> {
    ts.map_values(|t: Token| tok_v(t))
}

/// The value of a lexing result: the tokens, or the error's line,
/// column and message.
pub open spec fn lex_result_v(r: Result<Vec<Token>, LexError>) -> Result<Seq<TokV>, (int, int, Seq<char>)> {
    match r {
        Ok(ts) => Ok(toks_v(ts@)),
        Err(e) => Err((e.line as int, e.col as int, e.msg@)),
    }
}

/// `t` in front of the tokens of `r`.
pub open spec fn prepend(t: TokV, r: Result<Seq<TokV>, (int, int, Seq<char>)>) -> Result<
    Seq<TokV>,
    (int, int, Seq<char>),
> {
    match r {
        Ok(ts) => Ok(seq![t] + ts),
        Err(e) => Err(e),
    }
}

/// `p` in front of the tokens of `r`.
pub open spec fn glue(p: Seq<TokV>, r: Result<Seq<TokV>, (int, int, Seq<char>)>) -> Result<
    Seq<TokV>,
    (int, int, Seq<char>),
> {
    match r {
        Ok(ts) => Ok(p + ts),
        Err(e) => Err(e),
    }
}

/// The character at `k`, or `'\0'` past the end.
pub open spec fn char_at(cs: Seq<char>, k: int) -> char {
    if 0 <= k < cs.len() {
        cs[k]
    } else {
        '\0'
    }
}

/// The first index from `k` holding a line break, or the end.
pub open spec fn line_end(cs: Seq<char>, k: int) -> int
    decreases cs.len() - k,
{
    if 0 <= k < cs.len() && cs[k] != '\n' {
        line_end(cs, k + 1)
    } else {
        k
    }
}

/// The first index from `k` that is not a digit.
pub open spec fn digits_end(cs: Seq<char>, k: int) -> int
    decreases cs.len() - k,
{
    if 0 <= k < cs.len() && spec_is_digit(cs[k]) {
        digits_end(cs, k + 1)
    } else {
        k
    }
}

/// The first index from `k` that cannot continue an identifier.
pub open spec fn ident_end(cs: Seq<char>, k: int) -> int
    decreases cs.len() - k,
{
    if 0 <= k < cs.len() && spec_is_ident_cont(cs[k]) {
        ident_end(cs, k + 1)
    } else {
        k
    }
}

/// The end of a block comment whose body starts at `k` (at `line`,
/// `col`): the index, line and column just after `*/`; `None` when the
/// text ends first.
pub open spec fn block_end(cs: Seq<char>, k: int, line: int, col: int) -> Option<(int, int, int)>
    decreases cs.len() - k,
{
    if !(0 <= k < cs.len()) {
        None
    } else if cs[k] == '*' && k + 1 < cs.len() && cs[k + 1] == '/' {
        Some((k + 2, line, col + 2))
    } else if cs[k] == '\n' {
        block_end(cs, k + 1, line + 1, 1)
    } else {
        block_end(cs, k + 1, line, col + 1)
    }
}

/// The character an escape `\\e` stands for.
pub open spec fn unescape(e: char) -> char {
    if e == 'n' {
        '\n'
    } else if e == 't' {
        '\t'
    } else if e == 'r' {
        '\r'
    } else {
        e
    }
}

/// The rest of a string literal from `k` (at column `col`, with `value`
/// read so far), closed by `quote`: the index and column just after the
/// closing quote and the value; `None` when a line break or the end of
/// the text comes first.
pub open spec fn string_scan(cs: Seq<char>, k: int, quote: char, col: int, value: Seq<char>) -> Option<
    (int, int, Seq<char>),
>
    decreases cs.len() - k,
{
    if !(0 <= k < cs.len()) {
        None
    } else if cs[k] == quote {
        Some((k + 1, col + 1, value))
    } else if cs[k] == '\n' {
        None
    } else if cs[k] == '\\' && k + 1 < cs.len() {
        string_scan(cs, k + 2, quote, col + 2, value.push(unescape(cs[k + 1])))
    } else {
        string_scan(cs, k + 1, quote, col + 1, value.push(cs[k]))
    }
}

/// The operator or punctuation starting with `c`, followed by `n1` and
/// `n2`: its kind and length.
pub open spec fn punct(c: char, n1: char, n2: char) -> Option<(TokenKind, usize)> {
    if c == '.' && n1 == '.' && n2 == '.' {
        Some((TokenKind::DotDotDot, 3))
    } else if c == '=' && n1 == '=' {
        Some((TokenKind::EqEq, 2))
    } else if c == '!' && n1 == '=' {
        Some((TokenKind::NotEq, 2))
    } else if c == '<' && n1 == '=' {
        Some((TokenKind::LtEq, 2))
    } else if c == '>' && n1 == '=' {
        Some((TokenKind::GtEq, 2))
    } else if c == '&' && n1 == '&' {
        Some((TokenKind::And, 2))
    } else if c == '|' && n1 == '|' {
        Some((TokenKind::Or, 2))
    } else if c == '?' && n1 == '?' {
        Some((TokenKind::QuestionQuestion, 2))
    } else if c == '=' && n1 == '>' {
        Some((TokenKind::FatArrow, 2))
    } else if c == ':' && n1 == ':' {
        Some((TokenKind::ColonColon, 2))
    } else if c == '+' {
        Some((TokenKind::Plus, 1))
    } else if c == '-' {
        Some((TokenKind::Minus, 1))
    } else if c == '*' {
        Some((TokenKind::Star, 1))
    } else if c == '/' {
        Some((TokenKind::Slash, 1))
    } else if c == '%' {
        Some((TokenKind::Percent, 1))
    } else if c == '=' {
        Some((TokenKind::Eq, 1))
    } else if c == '<' {
        Some((TokenKind::Lt, 1))
    } else if c == '>' {
        Some((TokenKind::Gt, 1))
    } else if c == '!' {
        Some((TokenKind::Bang, 1))
    } else if c == '?' {
        Some((TokenKind::Question, 1))
    } else if c == '|' {
        Some((TokenKind::Bar, 1))
    } else if c == '&' {
        Some((TokenKind::Ampersand, 1))
    } else if c == '(' {
        Some((TokenKind::LParen, 1))
    } else if c == ')' {
        Some((TokenKind::RParen, 1))
    } else if c == '{' {
        Some((TokenKind::LBrace, 1))
    } else if c == '}' {
        Some((TokenKind::RBrace, 1))
    } else if c == '[' {
        Some((TokenKind::LBracket, 1))
    } else if c == ']' {
        Some((TokenKind::RBracket, 1))
    } else if c == ';' {
        Some((TokenKind::Semi, 1))
    } else if c == ',' {
        Some((TokenKind::Comma, 1))
    } else if c == ':' {
        Some((TokenKind::Colon, 1))
    } else if c == '.' {
        Some((TokenKind::Dot, 1))
    } else {
        None
    }
}

pub proof fn lemma_ends(cs: Seq<char>, k: int)
    requires
        0 <= k <= cs.len(),
    ensures
        k <= line_end(cs, k) <= cs.len(),
        k <= digits_end(cs, k) <= cs.len(),
        k <= ident_end(cs, k) <= cs.len(),
    decreases cs.len() - k,
{
    if k < cs.len() {
        lemma_ends(cs, k + 1);
    }
}

pub proof fn lemma_block_end(cs: Seq<char>, k: int, line: int, col: int)
    requires
        0 <= k,
    ensures
        block_end(cs, k, line, col) matches Some(e) ==> k < e.0 <= cs.len(),
    decreases cs.len() - k,
{
    if 0 <= k < cs.len() {
        lemma_block_end(cs, k + 1, line + 1, 1);
        lemma_block_end(cs, k + 1, line, col + 1);
    }
}

pub proof fn lemma_string_scan(cs: Seq<char>, k: int, quote: char, col: int, value: Seq<char>)
    requires
        0 <= k,
    ensures
        string_scan(cs, k, quote, col, value) matches Some(e) ==> k < e.0 <= cs.len(),
    decreases cs.len() - k,
{
    if 0 <= k < cs.len() {
        if cs[k] == '\\' && k + 1 < cs.len() {
            lemma_string_scan(cs, k + 2, quote, col + 2, value.push(unescape(cs[k + 1])));
        }
        lemma_string_scan(cs, k + 1, quote, col + 1, value.push(cs[k]));
    }
}

/// The tokens of `cs` from index `i`, at `line` and `col`, ending with
/// `Eof`; or the first error (its line, column and message).
/// Whitespace and comments separate tokens; a number is its digits with an
/// optional fraction, kept in canonical text; an identifier that spells a
/// reserved word is that keyword; a string literal holds its unescaped
/// value.
pub open spec fn lex_from(cs: Seq<char>, i: int, line: int, col: int) -> Result<Seq<TokV>, (int, int, Seq<char>)>
    decreases cs.len() - i,
{
    if !(0 <= i < cs.len()) {
        Ok(seq![(TokenKind::Eof, Seq::<char>::empty(), line, col)])
    } else {
        let c = cs[i];
        if c == '\n' {
            lex_from(cs, i + 1, line + 1, 1)
        } else if c == ' ' || c == '\t' || c == '\r' {
            lex_from(cs, i + 1, line, col + 1)
        } else if c == '/' && i + 1 < cs.len() && cs[i + 1] == '/' {
            let j = line_end(cs, i + 2);
            proof {
                lemma_ends(cs, i + 2);
            }
            lex_from(cs, j, line, col + (j - i))
        } else if c == '/' && i + 1 < cs.len() && cs[i + 1] == '*' {
            proof {
                lemma_block_end(cs, i + 2, line, col + 2);
            }
            match block_end(cs, i + 2, line, col + 2) {
                Some(e) => lex_from(cs, e.0, e.1, e.2),
                None => Err((line, col, "unterminated block comment"@)),
            }
        } else if spec_is_digit(c) {
            let e = digits_end(cs, i + 1);
            proof {
                lemma_ends(cs, i + 1);
            }
            let frac = e + 1 < cs.len() && cs[e] == '.' && spec_is_digit(cs[e + 1]);
            let fs = if frac {
                e + 1
            } else {
                e
            };
            let j = if frac {
                digits_end(cs, e + 1)
            } else {
                e
            };
            proof {
                if frac {
                    lemma_ends(cs, e + 1);
                }
            }
            prepend(
                (TokenKind::Number, canonical_number(cs.subrange(i, e), cs.subrange(fs, j)), line, col),
                lex_from(cs, j, line, col + (j - i)),
            )
        } else if spec_is_ident_start(c) {
            let e = ident_end(cs, i + 1);
            proof {
                lemma_ends(cs, i + 1);
            }
            let word = cs.subrange(i, e);
            let t = match keyword_kind(word) {
                Some(k) => (k, Seq::<char>::empty(), line, col),
                None => (TokenKind::Ident, word, line, col),
            };
            prepend(t, lex_from(cs, e, line, col + (e - i)))
        } else if c == '"' || c == '\'' {
            proof {
                lemma_string_scan(cs, i + 1, c, col + 1, Seq::empty());
            }
            match string_scan(cs, i + 1, c, col + 1, Seq::empty()) {
                Some(e) => prepend((TokenKind::Str, e.2, line, col), lex_from(cs, e.0, line, e.1)),
                None => Err((line, col, "unterminated string literal"@)),
            }
        } else {
            match punct(c, char_at(cs, i + 1), char_at(cs, i + 2)) {
                Some(p) => prepend((p.0, Seq::<char>::empty(), line, col), lex_from(cs, i + p.1, line, col + p.1)),
                None => Err((line, col, "unexpected character"@)),
            }
        }
    }
}

proof fn lemma_glue_prepend(p: Seq<TokV>, t: TokV, r: Result<Seq<TokV>, (int, int, Seq<char>)>)
    ensures
        glue(p, prepend(t, r)) == glue(p.push(t), r),
{
    if let Ok(ts) = r {
        assert(p + (seq![t] + ts) =~= p.push(t) + ts);
    }
}

fn punct_of(c: char, n1: char, n2: char) -> (r: Option<(TokenKind, usize)>)
    ensures
        r == punct(c, n1, n2),
{
    if c == '.' && n1 == '.' && n2 == '.' {
        Some((TokenKind::DotDotDot, 3))
    } else if c == '=' && n1 == '=' {
        Some((TokenKind::EqEq, 2))
    } else if c == '!' && n1 == '=' {
        Some((TokenKind::NotEq, 2))
    } else if c == '<' && n1 == '=' {
        Some((TokenKind::LtEq, 2))
    } else if c == '>' && n1 == '=' {
        Some((TokenKind::GtEq, 2))
    } else if c == '&' && n1 == '&' {
        Some((TokenKind::And, 2))
    } else if c == '|' && n1 == '|' {
        Some((TokenKind::Or, 2))
    } else if c == '?' && n1 == '?' {
        Some((TokenKind::QuestionQuestion, 2))
    } else if c == '=' && n1 == '>' {
        Some((TokenKind::FatArrow, 2))
    } else if c == ':' && n1 == ':' {
        Some((TokenKind::ColonColon, 2))
    } else if c == '+' {
        Some((TokenKind::Plus, 1))
    } else if c == '-' {
        Some((TokenKind::Minus, 1))
    } else if c == '*' {
        Some((TokenKind::Star, 1))
    } else if c == '/' {
        Some((TokenKind::Slash, 1))
    } else if c == '%' {
        Some((TokenKind::Percent, 1))
    } else if c == '=' {
        Some((TokenKind::Eq, 1))
    } else if c == '<' {
        Some((TokenKind::Lt, 1))
    } else if c == '>' {
        Some((TokenKind::Gt, 1))
    } else if c == '!' {
        Some((TokenKind::Bang, 1))
    } else if c == '?' {
        Some((TokenKind::Question, 1))
    } else if c == '|' {
        Some((TokenKind::Bar, 1))
    } else if c == '&' {
        Some((TokenKind::Ampersand, 1))
    } else if c == '(' {
        Some((TokenKind::LParen, 1))
    } else if c == ')' {
        Some((TokenKind::RParen, 1))
    } else if c == '{' {
        Some((TokenKind::LBrace, 1))
    } else if c == '}' {
        Some((TokenKind::RBrace, 1))
    } else if c == '[' {
        Some((TokenKind::LBracket, 1))
    } else if c == ']' {
        Some((TokenKind::RBracket, 1))
    } else if c == ';' {
        Some((TokenKind::Semi, 1))
    } else if c == ',' {
        Some((TokenKind::Comma, 1))
    } else if c == ':' {
        Some((TokenKind::Colon, 1))
    } else if c == '.' {
        Some((TokenKind::Dot, 1))
    } else {
        None
    }
}

/// Tokens that are never `Eof` and carry positions from 1.
spec fn lexed_prefix(ts: Seq<Token>) -> bool {
    forall|i: int|
        0 <= i < ts.len() ==> (#[trigger] ts[i]).kind != TokenKind::Eof && ts[i].line >= 1 && ts[i].col >= 1
            && (ts[i].kind == TokenKind::Ident ==> keyword_kind(ts[i].text@) is None && ts[i].text@.len() > 0)
}

/// Splits `source` into tokens: exactly the tokens or the error of
/// `lex_from` from the start of the text, at line 1, column 1. The stream
/// always ends with the single `Eof` token; every position is 1-based; an
/// identifier is never a reserved word.
pub fn lex(source: &str) -> (r: Result<Vec<Token>, LexError>)
    requires
        source@.len() < usize::MAX - 4,
    ensures
        lex_result_v(r) == lex_from(source@, 0, 1, 1),
        match r {
            Ok(ts) => {
                &&& well_formed_tokens(ts@)
                &&& forall|i: int| 0 <= i < ts@.len() ==> (#[trigger] ts@[i]).line >= 1 && ts@[i].col >= 1
                &&& forall|i: int|
                    0 <= i < ts@.len() && (#[trigger] ts@[i]).kind == TokenKind::Ident ==> keyword_kind(
                        ts@[i].text@,
                    ) is None && ts@[i].text@.len() > 0
            },
            Err(e) => e.line >= 1 && e.col >= 1,
        },
{
    let cs = crate::text::chars_of(source);
    let n = cs.len();
    let mut out: Vec<Token> = Vec::new();
    let mut i: usize = 0;
    let mut line: usize = 1;
    let mut col: usize = 1;
    assert(toks_v(out@) =~= Seq::<TokV>::empty());
    assert(glue(Seq::<TokV>::empty(), lex_from(cs@, 0, 1, 1)) == lex_from(cs@, 0, 1, 1)) by {
        if let Ok(ts) = lex_from(cs@, 0, 1, 1) {
            assert(Seq::<TokV>::empty() + ts =~= ts);
        }
    }
    while i < n
        invariant
            n == cs@.len(),
            cs@ == source@,
            n < usize::MAX - 4,
            i <= n,
            1 <= line <= i + 1,
            1 <= col <= i + 1,
            lexed_prefix(out@),
            lex_from(cs@, 0, 1, 1) == glue(toks_v(out@), lex_from(cs@, i as int, line as int, col as int)),
        decreases n - i,
    {
        let c = cs[i];
        let s0 = i;
        let start_line = line;
        let start_col = col;
        let ghost before = out@;
        if c == '\n' {
            i += 1;
            line += 1;
            col = 1;
        } else if c == ' ' || c == '\t' || c == '\r' {
            i += 1;
            col += 1;
        } else if c == '/' && i + 1 < n && cs[i + 1] == '/' {
            i += 2;
            col += 2;
            proof {
                lemma_ends(cs@, i as int);
            }
            while i < n && cs[i] != '\n'
                invariant
                    n == cs@.len(),
                    n < usize::MAX - 4,
                    s0 < i <= n,
                    col == start_col + (i - s0),
                    1 <= col <= i + 1,
                    1 <= line <= i + 1,
                    line_end(cs@, i as int) == line_end(cs@, s0 + 2),
                decreases n - i,
            {
                i += 1;
                col += 1;
            }
        } else if c == '/' && i + 1 < n && cs[i + 1] == '*' {
            i += 2;
            col += 2;
            let mut closed = false;
            let ghost target = block_end(cs@, s0 + 2, start_line as int, start_col + 2);
            while i < n && !closed
                invariant
                    n == cs@.len(),
                    n < usize::MAX - 4,
                    s0 < i <= n,
                    1 <= col <= i + 1,
                    1 <= line <= i + 1,
                    !closed ==> block_end(cs@, i as int, line as int, col as int) == target,
                    closed ==> target == Some((i as int, line as int, col as int)),
                decreases n - i,
            {
                if cs[i] == '*' && i + 1 < n && cs[i + 1] == '/' {
                    i += 2;
                    col += 2;
                    closed = true;
                } else if cs[i] == '\n' {
                    i += 1;
                    line += 1;
                    col = 1;
                } else {
                    i += 1;
                    col += 1;
                }
            }
            if !closed {
                return Err(lex_error(start_line, start_col, "unterminated block comment"));
            }
        } else if is_digit(c) {
            let s = i;
            i += 1;
            while i < n && is_digit(cs[i])
                invariant
                    n == cs@.len(),
                    s < i <= n,
                    digits_end(cs@, i as int) == digits_end(cs@, s + 1),
                decreases n - i,
            {
                i += 1;
            }
            let e = i;
            let mut fs = i;
            let mut fe = i;
            if i + 1 < n && cs[i] == '.' && is_digit(cs[i + 1]) {
                i += 1;
                fs = i;
                while i < n && is_digit(cs[i])
                    invariant
                        n == cs@.len(),
                        fs <= i <= n,
                        digits_end(cs@, i as int) == digits_end(cs@, fs as int),
                    decreases n - i,
                {
                    i += 1;
                }
                fe = i;
            }
            let whole = &cs.as_slice()[s..e];
            let frac = &cs.as_slice()[fs..fe];
            assert(whole@ == cs@.subrange(s as int, e as int));
            assert(frac@ == cs@.subrange(fs as int, fe as int));
            let text = canonical_number_text(whole, frac);
            col = col + (i - s);
            out.push(token(TokenKind::Number, text, start_line, start_col));
            proof {
                lemma_glue_prepend(toks_v(before), tok_v(out@.last()), lex_from(cs@, i as int, line as int, col as int));
            }
        } else if is_ident_start(c) {
            let s = i;
            i += 1;
            while i < n && is_ident_cont(cs[i])
                invariant
                    n == cs@.len(),
                    s < i <= n,
                    ident_end(cs@, i as int) == ident_end(cs@, s + 1),
                decreases n - i,
            {
                i += 1;
            }
            let word = string_from_chars(&cs.as_slice()[s..i]);
            assert(word@ == cs@.subrange(s as int, i as int));
            col = col + (i - s);
            match keyword_of(word.as_str()) {
                Some(k) => out.push(token(k, String::new(), start_line, start_col)),
                None => {
                    out.push(token(TokenKind::Ident, word, start_line, start_col));
                },
            }
            proof {
                lemma_glue_prepend(toks_v(before), tok_v(out@.last()), lex_from(cs@, i as int, line as int, col as int));
            }
        } else if c == '"' || c == '\'' {
            let quote = c;
            i += 1;
            col += 1;
            let mut value = String::new();
            let mut done = false;
            let ghost target = string_scan(cs@, s0 + 1, quote, start_col + 1, Seq::empty());
            while i < n && !done
                invariant
                    start_line >= 1,
                    start_col >= 1,
                    n == cs@.len(),
                    n < usize::MAX - 4,
                    s0 < i <= n,
                    1 <= col <= i + 1,
                    1 <= line <= i + 1,
                    line == start_line,
                    s0 < n,
                    cs@ == source@,
                    cs@[s0 as int] == quote,
                    quote == '"' || quote == '\'',
                    target == string_scan(cs@, s0 + 1, quote, start_col + 1, Seq::empty()),
                    lex_from(cs@, 0, 1, 1) == glue(
                        toks_v(out@),
                        lex_from(cs@, s0 as int, start_line as int, start_col as int),
                    ),
                    !done ==> string_scan(cs@, i as int, quote, col as int, value@) == target,
                    done ==> target == Some((i as int, col as int, value@)),
                decreases n - i,
            {
                let d = cs[i];
                if d == quote {
                    i += 1;
                    col += 1;
                    done = true;
                } else if d == '\n' {
                    assert(string_scan(cs@, i as int, quote, col as int, value@) is None);
                    assert(lex_from(cs@, s0 as int, start_line as int, start_col as int) == Err::<Seq<TokV>, _>(
                        (start_line as int, start_col as int, "unterminated string literal"@),
                    ));
                    return Err(lex_error(start_line, start_col, "unterminated string literal"));
                } else if d == '\\' && i + 1 < n {
                    let e = cs[i + 1];
                    let v = if e == 'n' {
                        '\n'
                    } else if e == 't' {
                        '\t'
                    } else if e == 'r' {
                        '\r'
                    } else {
                        e
                    };
                    push_char(&mut value, v);
                    i += 2;
                    col += 2;
                } else {
                    push_char(&mut value, d);
                    i += 1;
                    col += 1;
                }
            }
            if !done {
                return Err(lex_error(start_line, start_col, "unterminated string literal"));
            }
            out.push(token(TokenKind::Str, value, start_line, start_col));
            proof {
                lemma_glue_prepend(toks_v(before), tok_v(out@.last()), lex_from(cs@, i as int, line as int, col as int));
            }
        } else {
            let next = if i + 1 < n {
                cs[i + 1]
            } else {
                '\0'
            };
            let next2 = if i + 2 < n {
                cs[i + 2]
            } else {
                '\0'
            };
            assert(next == char_at(cs@, i + 1));
            assert(next2 == char_at(cs@, i + 2));
            match punct_of(c, next, next2) {
                Some((k, len)) => {
                    i += len;
                    col += len;
                    out.push(token(k, String::new(), start_line, start_col));
                    proof {
                        lemma_glue_prepend(
                            toks_v(before),
                            tok_v(out@.last()),
                            lex_from(cs@, i as int, line as int, col as int),
                        );
                    }
                },
                None => {
                    return Err(lex_error(start_line, start_col, "unexpected character"));
                },
            }
        }
        proof {
            assert(toks_v(out@) =~= toks_v(before) || toks_v(out@) =~= toks_v(before).push(tok_v(out@.last())));
        }
    }
    let ghost before = out@;
    out.push(token(TokenKind::Eof, String::new(), line, col));
    assert(toks_v(out@) =~= toks_v(before).push(tok_v(out@.last())));
    assert(tok_v(out@.last()) == (TokenKind::Eof, Seq::<char>::empty(), line as int, col as int));
    assert(lex_from(cs@, i as int, line as int, col as int) == Ok::<Seq<TokV>, (int, int, Seq<char>)>(
        seq![(TokenKind::Eof, Seq::<char>::empty(), line as int, col as int)],
    ));
    assert(toks_v(before) + seq![(TokenKind::Eof, Seq::<char>::empty(), line as int, col as int)] =~= toks_v(out@));
    assert(forall|k: int| 0 <= k < before.len() ==> out@[k] == before[k]);
    assert forall|k: int| 0 <= k < out@.len() - 1 implies (#[trigger] out@[k]).kind != TokenKind::Eof by {
        assert(before[k] == out@[k]);
    }
    assert forall|k: int| 0 <= k < out@.len() implies (#[trigger] out@[k]).line >= 1 && out@[k].col >= 1 by {
        if k < before.len() {
            assert(before[k] == out@[k]);
        }
    }
    assert forall|k: int|
        0 <= k < out@.len() && (#[trigger] out@[k]).kind == TokenKind::Ident implies keyword_kind(out@[k].text@) is None
            && out@[k].text@.len() > 0 by {
        if k < before.len() {
            assert(before[k] == out@[k]);
        }
    }
    Ok(out)
}

} // verus!
