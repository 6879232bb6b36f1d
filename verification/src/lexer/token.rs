//! The lexemes and the tokens that carry them.

use vstd::prelude::*;
use crate::lexer::location::Location;
verus! {

/// The reserved words.
#[derive(Debug, Clone, Copy, PartialEq, Eq, Structural)]
pub enum Keyword {
    /// `object`
    Object,
    /// `code`
    Code,
    /// `function`
    Function,
    /// `let`
    Let,
    /// `if`
    If,
    /// `switch`
    Switch,
    /// `case`
    Case,
    /// `default`
    Default,
    /// `for`
    For,
    /// `break`
    Break,
    /// `continue`
    Continue,
    /// `leave`
    Leave,
    /// `true`
    True,
    /// `false`
    False,
}

/// The operators and brackets.
#[derive(Debug, Clone, Copy, PartialEq, Eq, Structural)]
pub enum Symbol {
    /// `:=`
    Assignment,
    /// `->`
    Arrow,
    /// `{`
    BracketCurlyLeft,
    /// `}`
    BracketCurlyRight,
    /// `(`
    ParenthesisLeft,
    /// `)`
    ParenthesisRight,
    /// `,`
    Comma,
    /// `:`
    Colon,
}

/// A literal as it stands in the source.
#[derive(Debug, Clone, PartialEq, Eq)]
pub enum Literal {
    /// A decimal or `0x`-prefixed hexadecimal integer, with its prefix.
    Integer(String),
    /// A string, with its quotes.
    String(String),
}

/// The model of a [`Literal`].
pub enum LiteralView {
    Integer(Seq<char>),
    String(Seq<char>),
}

impl View for Literal {
    type V = LiteralView;

    open spec fn view(&self) -> LiteralView {
        match self {
            Literal::Integer(text) => LiteralView::Integer(text@),
            Literal::String(text) => LiteralView::String(text@),
        }
    }
}

impl LiteralView {
    /// The source text of the literal.
    pub open spec fn text(self) -> Seq<char> {
        match self {
            LiteralView::Integer(text) => text,
            LiteralView::String(text) => text,
        }
    }
}

impl Literal {
    /// The source text of the literal.
    pub fn text(&self) -> (text: String)
        ensures
            text@ == self@.text(),
    {
        match self {
            Literal::Integer(text) => text.clone(),
            Literal::String(text) => text.clone(),
        }
    }

    /// A copy of the literal.
    pub fn duplicate(&self) -> (copy: Literal)
        ensures
            copy@ == self@,
    {
        match self {
            Literal::Integer(text) => Literal::Integer(text.clone()),
            Literal::String(text) => Literal::String(text.clone()),
        }
    }
}

/// The smallest meaningful unit of the source.
#[derive(Debug, Clone, PartialEq, Eq)]
pub enum Lexeme {
    /// A reserved word.
    Keyword(Keyword),
    /// An operator or a bracket.
    Symbol(Symbol),
    /// A name that is not reserved.
    Identifier(String),
    /// A literal.
    Literal(Literal),
    /// A comment. The lexer skips comments and never hands one out.
    Comment,
    /// The end of the source.
    EndOfFile,
}

/// The model of a [`Lexeme`].
pub enum LexemeView {
    Keyword(Keyword),
    Symbol(Symbol),
    Identifier(Seq<char>),
    Literal(LiteralView),
    Comment,
    EndOfFile,
}

impl View for Lexeme {
    type V = LexemeView;

    open spec fn view(&self) -> LexemeView {
        match self {
            Lexeme::Keyword(keyword) => LexemeView::Keyword(*keyword),
            Lexeme::Symbol(symbol) => LexemeView::Symbol(*symbol),
            Lexeme::Identifier(name) => LexemeView::Identifier(name@),
            Lexeme::Literal(literal) => LexemeView::Literal(literal@),
            Lexeme::Comment => LexemeView::Comment,
            Lexeme::EndOfFile => LexemeView::EndOfFile,
        }
    }
}

impl Lexeme {
    /// Tells whether the lexeme is the symbol `symbol`.
    pub fn is_symbol(&self, symbol: Symbol) -> (same: bool)
        ensures
            same == (self@ == LexemeView::Symbol(symbol)),
    {
        match self {
            Lexeme::Symbol(found) => *found == symbol,
            _ => false,
        }
    }

    /// Tells whether the lexeme is the keyword `keyword`.
    pub fn is_keyword(&self, keyword: Keyword) -> (same: bool)
        ensures
            same == (self@ == LexemeView::Keyword(keyword)),
    {
        match self {
            Lexeme::Keyword(found) => *found == keyword,
            _ => false,
        }
    }

    /// A copy of the lexeme.
    pub fn duplicate(&self) -> (copy: Lexeme)
        ensures
            copy@ == self@,
    {
        match self {
            Lexeme::Keyword(keyword) => Lexeme::Keyword(*keyword),
            Lexeme::Symbol(symbol) => Lexeme::Symbol(*symbol),
            Lexeme::Identifier(name) => Lexeme::Identifier(name.clone()),
            Lexeme::Literal(literal) => Lexeme::Literal(literal.duplicate()),
            Lexeme::Comment => Lexeme::Comment,
            Lexeme::EndOfFile => Lexeme::EndOfFile,
        }
    }
}

/// A lexeme with its place in the source.
#[derive(Debug, Clone, PartialEq, Eq)]
pub struct Token {
    /// Where the lexeme starts.
    pub location: Location,
    /// The lexeme.
    pub lexeme: Lexeme,
    /// The number of characters that the lexeme takes in the source.
    pub length: usize,
}

/// The model of a [`Token`].
pub struct TokenView {
    pub location: Location,
    pub lexeme: LexemeView,
    pub length: nat,
}

impl View for Token {
    type V = TokenView;

    open spec fn view(&self) -> TokenView {
        TokenView { location: self.location, lexeme: self.lexeme@, length: self.length as nat }
    }
}

impl Token {
    /// Puts a lexeme at its place.
    pub fn new(location: Location, lexeme: Lexeme, length: usize) -> (token: Token)
        ensures
            token.location == location,
            token.lexeme == lexeme,
            token.length == length,
    {
        Token { location, lexeme, length }
    }

    /// A copy of the token.
    pub fn duplicate(&self) -> (copy: Token)
        ensures
            copy@ == self@,
    {
        Token { location: self.location, lexeme: self.lexeme.duplicate(), length: self.length }
    }
}

impl TokenView {
    /// The token that marks the end of the source at `location`.
    pub open spec fn end_of_file(location: Location) -> TokenView {
        TokenView { location, lexeme: LexemeView::EndOfFile, length: 0 }
    }
}

} // verus!
