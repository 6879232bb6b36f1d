//! The literal.

use vstd::prelude::*;
use crate::lexer::token::Keyword;
use crate::lexer::token::Lexeme;
use crate::parser::grammar::literal_text;
verus! {

/// A literal: `value` holds it as the source writes it, an integer with its
/// prefix, a string with its quotes, a boolean as `true` or `false`.
#[derive(Debug, Clone, PartialEq, Eq)]
pub struct Literal {
    /// The source text of the literal.
    pub value: String,
}

impl View for Literal {
    type V = Seq<char>;

    open spec fn view(&self) -> Seq<char> {
        self.value@
    }
}

impl Literal {
    /// The literal that `lexeme` is, if it is one: an integer or a string
    /// literal, `true` or `false`.
    pub fn from_lexeme(lexeme: &Lexeme) -> (found: Option<Literal>)
        ensures
            match literal_text(lexeme@) {
                Some(text) => found matches Some(literal) && literal@ == text,
                None => found is None,
            },
    {
        match lexeme {
            Lexeme::Literal(literal) => Some(Literal { value: literal.text() }),
            Lexeme::Keyword(Keyword::True) => Some(Literal { value: Keyword::True.text() }),
            Lexeme::Keyword(Keyword::False) => Some(Literal { value: Keyword::False.text() }),
            _ => None,
        }
    }
}

} // verus!
