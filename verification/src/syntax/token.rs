//! Tokens of the `.tsr` language. Each token carries its 1-based line and
//! column in the source, for compiler-style error locations.

use crate::text::str_eq;
use vstd::prelude::*;

verus! {

#[derive(Debug, Clone, Copy, PartialEq, Eq, Structural)]
pub enum TokenKind {
    // Literals (the value is in `Token::text`)
    Number,
    Str,
    True,
    False,
    Null,
    Undefined,
    Ident,
    // Keywords
    Let,
    Const,
    Function,
    Return,
    If,
    Else,
    While,
    For,
    Of,
    Break,
    Continue,
    Import,
    Export,
    From,
    Default,
    As,
    Type,
    Interface,
    Enum,
    Extends,
    Switch,
    Case,
    Try,
    Catch,
    Throw,
    Typeof,
    // Primitive type names
    TypeString,
    TypeNumber,
    TypeBoolean,
    TypeVoid,
    TypeAny,
    // Operators
    Plus,
    Minus,
    Star,
    Slash,
    Percent,
    Eq,
    EqEq,
    NotEq,
    Lt,
    Gt,
    LtEq,
    GtEq,
    And,
    Or,
    Bang,
    Question,
    QuestionQuestion,
    Bar,
    Ampersand,
    FatArrow,
    DotDotDot,
    // Punctuation
    LParen,
    RParen,
    LBrace,
    RBrace,
    LBracket,
    RBracket,
    Semi,
    Comma,
    Colon,
    ColonColon,
    Dot,
    Eof,
}

/// The reserved words of the compiler's grammar: declarations, control
/// flow, modules and the primitive type names.
pub open spec fn spec_is_keyword(k: TokenKind) -> bool {
    matches!(
        k,
        TokenKind::Let | TokenKind::Const | TokenKind::Function | TokenKind::Return | TokenKind::If | TokenKind::Else
            | TokenKind::While | TokenKind::For | TokenKind::Of | TokenKind::Break | TokenKind::Continue
            | TokenKind::Import | TokenKind::Export | TokenKind::From | TokenKind::Default | TokenKind::As
            | TokenKind::TypeString | TokenKind::TypeNumber | TokenKind::TypeBoolean | TokenKind::TypeVoid
    )
}

impl TokenKind {
    /// Whether the token is one of the compiler's reserved words.
    pub fn is_keyword(&self) -> (r: bool)
        ensures
            r == spec_is_keyword(*self),
    {
        match self {
            TokenKind::Let | TokenKind::Const | TokenKind::Function | TokenKind::Return | TokenKind::If
            | TokenKind::Else | TokenKind::While | TokenKind::For | TokenKind::Of | TokenKind::Break
            | TokenKind::Continue | TokenKind::Import | TokenKind::Export | TokenKind::From | TokenKind::Default
            | TokenKind::As | TokenKind::TypeString | TokenKind::TypeNumber | TokenKind::TypeBoolean
            | TokenKind::TypeVoid => true,
            _ => false,
        }
    }
}

/// A token: its kind, its value (identifier name, string contents,
/// canonical number text; empty otherwise) and its position.
#[derive(Debug)]
pub struct Token {
    pub kind: TokenKind,
    pub text: String,
    pub line: usize,
    pub col: usize,
}

impl Clone for Token {
    fn clone(&self) -> (r: Self)
        ensures
            r.kind == self.kind,
            r.text@ == self.text@,
            r.line == self.line,
            r.col == self.col,
    {
        Token { kind: self.kind, text: self.text.clone(), line: self.line, col: self.col }
    }
}

/// A token stream the parser can walk: it ends with the only `Eof`.
pub open spec fn well_formed_tokens(ts: Seq<Token>) -> bool {
    &&& ts.len() > 0
    &&& ts.last().kind == TokenKind::Eof
    &&& forall|i: int| 0 <= i < ts.len() - 1 ==> (#[trigger] ts[i]).kind != TokenKind::Eof
}

/// The keyword spelled `w`, if `w` is reserved.
pub open spec fn keyword_kind(w: Seq<char>) -> Option<TokenKind> {
    if w == "let"@ {
        Some(TokenKind::Let)
    } else if w == "const"@ {
        Some(TokenKind::Const)
    } else if w == "function"@ {
        Some(TokenKind::Function)
    } else if w == "return"@ {
        Some(TokenKind::Return)
    } else if w == "if"@ {
        Some(TokenKind::If)
    } else if w == "else"@ {
        Some(TokenKind::Else)
    } else if w == "while"@ {
        Some(TokenKind::While)
    } else if w == "for"@ {
        Some(TokenKind::For)
    } else if w == "of"@ {
        Some(TokenKind::Of)
    } else if w == "break"@ {
        Some(TokenKind::Break)
    } else if w == "continue"@ {
        Some(TokenKind::Continue)
    } else if w == "import"@ {
        Some(TokenKind::Import)
    } else if w == "export"@ {
        Some(TokenKind::Export)
    } else if w == "from"@ {
        Some(TokenKind::From)
    } else if w == "default"@ {
        Some(TokenKind::Default)
    } else if w == "as"@ {
        Some(TokenKind::As)
    } else if w == "type"@ {
        Some(TokenKind::Type)
    } else if w == "interface"@ {
        Some(TokenKind::Interface)
    } else if w == "enum"@ {
        Some(TokenKind::Enum)
    } else if w == "extends"@ {
        Some(TokenKind::Extends)
    } else if w == "switch"@ {
        Some(TokenKind::Switch)
    } else if w == "case"@ {
        Some(TokenKind::Case)
    } else if w == "try"@ {
        Some(TokenKind::Try)
    } else if w == "catch"@ {
        Some(TokenKind::Catch)
    } else if w == "throw"@ {
        Some(TokenKind::Throw)
    } else if w == "typeof"@ {
        Some(TokenKind::Typeof)
    } else if w == "string"@ {
        Some(TokenKind::TypeString)
    } else if w == "number"@ {
        Some(TokenKind::TypeNumber)
    } else if w == "boolean"@ {
        Some(TokenKind::TypeBoolean)
    } else if w == "void"@ {
        Some(TokenKind::TypeVoid)
    } else if w == "any"@ {
        Some(TokenKind::TypeAny)
    } else if w == "true"@ {
        Some(TokenKind::True)
    } else if w == "false"@ {
        Some(TokenKind::False)
    } else if w == "null"@ {
        Some(TokenKind::Null)
    } else if w == "undefined"@ {
        Some(TokenKind::Undefined)
    } else {
        None
    }
}

/// The keyword spelled `w`, if `w` is reserved.
pub fn keyword_of(w: &str) -> (r: Option<TokenKind>)
    ensures
        r == keyword_kind(w@),
{
    if str_eq(w, "let") {
        Some(TokenKind::Let)
    } else if str_eq(w, "const") {
        Some(TokenKind::Const)
    } else if str_eq(w, "function") {
        Some(TokenKind::Function)
    } else if str_eq(w, "return") {
        Some(TokenKind::Return)
    } else if str_eq(w, "if") {
        Some(TokenKind::If)
    } else if str_eq(w, "else") {
        Some(TokenKind::Else)
    } else if str_eq(w, "while") {
        Some(TokenKind::While)
    } else if str_eq(w, "for") {
        Some(TokenKind::For)
    } else if str_eq(w, "of") {
        Some(TokenKind::Of)
    } else if str_eq(w, "break") {
        Some(TokenKind::Break)
    } else if str_eq(w, "continue") {
        Some(TokenKind::Continue)
    } else if str_eq(w, "import") {
        Some(TokenKind::Import)
    } else if str_eq(w, "export") {
        Some(TokenKind::Export)
    } else if str_eq(w, "from") {
        Some(TokenKind::From)
    } else if str_eq(w, "default") {
        Some(TokenKind::Default)
    } else if str_eq(w, "as") {
        Some(TokenKind::As)
    } else if str_eq(w, "type") {
        Some(TokenKind::Type)
    } else if str_eq(w, "interface") {
        Some(TokenKind::Interface)
    } else if str_eq(w, "enum") {
        Some(TokenKind::Enum)
    } else if str_eq(w, "extends") {
        Some(TokenKind::Extends)
    } else if str_eq(w, "switch") {
        Some(TokenKind::Switch)
    } else if str_eq(w, "case") {
        Some(TokenKind::Case)
    } else if str_eq(w, "try") {
        Some(TokenKind::Try)
    } else if str_eq(w, "catch") {
        Some(TokenKind::Catch)
    } else if str_eq(w, "throw") {
        Some(TokenKind::Throw)
    } else if str_eq(w, "typeof") {
        Some(TokenKind::Typeof)
    } else if str_eq(w, "string") {
        Some(TokenKind::TypeString)
    } else if str_eq(w, "number") {
        Some(TokenKind::TypeNumber)
    } else if str_eq(w, "boolean") {
        Some(TokenKind::TypeBoolean)
    } else if str_eq(w, "void") {
        Some(TokenKind::TypeVoid)
    } else if str_eq(w, "any") {
        Some(TokenKind::TypeAny)
    } else if str_eq(w, "true") {
        Some(TokenKind::True)
    } else if str_eq(w, "false") {
        Some(TokenKind::False)
    } else if str_eq(w, "null") {
        Some(TokenKind::Null)
    } else if str_eq(w, "undefined") {
        Some(TokenKind::Undefined)
    } else {
        None
    }
}

/// How a token kind is named in error messages.
pub open spec fn spec_describe_kind(k: TokenKind) -> Seq<char> {
    match k {
        TokenKind::Number => "a number"@,
        TokenKind::Str => "a string"@,
        TokenKind::True => "`true`"@,
        TokenKind::False => "`false`"@,
        TokenKind::Null => "`null`"@,
        TokenKind::Undefined => "`undefined`"@,
        TokenKind::Ident => "an identifier"@,
        TokenKind::Let => "`let`"@,
        TokenKind::Const => "`const`"@,
        TokenKind::Function => "`function`"@,
        TokenKind::Return => "`return`"@,
        TokenKind::If => "`if`"@,
        TokenKind::Else => "`else`"@,
        TokenKind::While => "`while`"@,
        TokenKind::For => "`for`"@,
        TokenKind::Of => "`of`"@,
        TokenKind::Break => "`break`"@,
        TokenKind::Continue => "`continue`"@,
        TokenKind::Import => "`import`"@,
        TokenKind::Export => "`export`"@,
        TokenKind::From => "`from`"@,
        TokenKind::Default => "`default`"@,
        TokenKind::As => "`as`"@,
        TokenKind::Type => "`type`"@,
        TokenKind::Interface => "`interface`"@,
        TokenKind::Enum => "`enum`"@,
        TokenKind::Extends => "`extends`"@,
        TokenKind::Switch => "`switch`"@,
        TokenKind::Case => "`case`"@,
        TokenKind::Try => "`try`"@,
        TokenKind::Catch => "`catch`"@,
        TokenKind::Throw => "`throw`"@,
        TokenKind::Typeof => "`typeof`"@,
        TokenKind::TypeString => "`string`"@,
        TokenKind::TypeNumber => "`number`"@,
        TokenKind::TypeBoolean => "`boolean`"@,
        TokenKind::TypeVoid => "`void`"@,
        TokenKind::TypeAny => "`any`"@,
        TokenKind::Plus => "`+`"@,
        TokenKind::Minus => "`-`"@,
        TokenKind::Star => "`*`"@,
        TokenKind::Slash => "`/`"@,
        TokenKind::Percent => "`%`"@,
        TokenKind::Eq => "`=`"@,
        TokenKind::EqEq => "`==`"@,
        TokenKind::NotEq => "`!=`"@,
        TokenKind::Lt => "`<`"@,
        TokenKind::Gt => "`>`"@,
        TokenKind::LtEq => "`<=`"@,
        TokenKind::GtEq => "`>=`"@,
        TokenKind::And => "`&&`"@,
        TokenKind::Or => "`||`"@,
        TokenKind::Bang => "`!`"@,
        TokenKind::Question => "`?`"@,
        TokenKind::QuestionQuestion => "`??`"@,
        TokenKind::Bar => "`|`"@,
        TokenKind::Ampersand => "`&`"@,
        TokenKind::FatArrow => "`=>`"@,
        TokenKind::DotDotDot => "`...`"@,
        TokenKind::LParen => "`(`"@,
        TokenKind::RParen => "`)`"@,
        TokenKind::LBrace => "`{`"@,
        TokenKind::RBrace => "`}`"@,
        TokenKind::LBracket => "`[`"@,
        TokenKind::RBracket => "`]`"@,
        TokenKind::Semi => "`;`"@,
        TokenKind::Comma => "`,`"@,
        TokenKind::Colon => "`:`"@,
        TokenKind::ColonColon => "`::`"@,
        TokenKind::Dot => "`.`"@,
        TokenKind::Eof => "end of file"@,
    }
}

/// How a token kind is named in error messages.
pub fn describe_kind(k: TokenKind) -> (r: &'static str)
    ensures
        r@ == spec_describe_kind(k),
{
    match k {
        TokenKind::Number => "a number",
        TokenKind::Str => "a string",
        TokenKind::True => "`true`",
        TokenKind::False => "`false`",
        TokenKind::Null => "`null`",
        TokenKind::Undefined => "`undefined`",
        TokenKind::Ident => "an identifier",
        TokenKind::Let => "`let`",
        TokenKind::Const => "`const`",
        TokenKind::Function => "`function`",
        TokenKind::Return => "`return`",
        TokenKind::If => "`if`",
        TokenKind::Else => "`else`",
        TokenKind::While => "`while`",
        TokenKind::For => "`for`",
        TokenKind::Of => "`of`",
        TokenKind::Break => "`break`",
        TokenKind::Continue => "`continue`",
        TokenKind::Import => "`import`",
        TokenKind::Export => "`export`",
        TokenKind::From => "`from`",
        TokenKind::Default => "`default`",
        TokenKind::As => "`as`",
        TokenKind::Type => "`type`",
        TokenKind::Interface => "`interface`",
        TokenKind::Enum => "`enum`",
        TokenKind::Extends => "`extends`",
        TokenKind::Switch => "`switch`",
        TokenKind::Case => "`case`",
        TokenKind::Try => "`try`",
        TokenKind::Catch => "`catch`",
        TokenKind::Throw => "`throw`",
        TokenKind::Typeof => "`typeof`",
        TokenKind::TypeString => "`string`",
        TokenKind::TypeNumber => "`number`",
        TokenKind::TypeBoolean => "`boolean`",
        TokenKind::TypeVoid => "`void`",
        TokenKind::TypeAny => "`any`",
        TokenKind::Plus => "`+`",
        TokenKind::Minus => "`-`",
        TokenKind::Star => "`*`",
        TokenKind::Slash => "`/`",
        TokenKind::Percent => "`%`",
        TokenKind::Eq => "`=`",
        TokenKind::EqEq => "`==`",
        TokenKind::NotEq => "`!=`",
        TokenKind::Lt => "`<`",
        TokenKind::Gt => "`>`",
        TokenKind::LtEq => "`<=`",
        TokenKind::GtEq => "`>=`",
        TokenKind::And => "`&&`",
        TokenKind::Or => "`||`",
        TokenKind::Bang => "`!`",
        TokenKind::Question => "`?`",
        TokenKind::QuestionQuestion => "`??`",
        TokenKind::Bar => "`|`",
        TokenKind::Ampersand => "`&`",
        TokenKind::FatArrow => "`=>`",
        TokenKind::DotDotDot => "`...`",
        TokenKind::LParen => "`(`",
        TokenKind::RParen => "`)`",
        TokenKind::LBrace => "`{`",
        TokenKind::RBrace => "`}`",
        TokenKind::LBracket => "`[`",
        TokenKind::RBracket => "`]`",
        TokenKind::Semi => "`;`",
        TokenKind::Comma => "`,`",
        TokenKind::Colon => "`:`",
        TokenKind::ColonColon => "`::`",
        TokenKind::Dot => "`.`",
        TokenKind::Eof => "end of file",
    }
}

} // verus!
