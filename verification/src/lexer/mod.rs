//! The lexical scanner.

pub mod error;
pub mod location;
pub mod scan;
pub mod shift;
pub mod stream;
pub mod token;

use vstd::prelude::*;
use crate::lexer::error::Error;
use crate::lexer::error::ErrorView;
use crate::lexer::location::Location;
use crate::lexer::scan::Class;
use crate::lexer::scan::find_comment_end;
use crate::lexer::scan::scan_lexeme;
use crate::lexer::scan::scan_run;
use crate::lexer::scan::slice_text;
use crate::lexer::stream::Stream;
use crate::lexer::stream::lex;
use crate::lexer::stream::lex_from;
use crate::lexer::token::Lexeme;
use crate::lexer::token::Token;
use crate::lexer::token::TokenView;
verus! {

/// The characters of `text`, in order.
pub fn characters(text: &str) -> (chars: Vec<char>)
    ensures
        chars@ == text@,
{
    let mut chars: Vec<char> = Vec::new();
    for c in it: text.chars()
        invariant
            chars@ == it.seq().take(it.index() as int),
            it.seq() == text@,
    {
        chars.push(c);
    }
    chars
}

/// The result of a read, as the stream gives it.
pub open spec fn read_view(read: Result<Token, Error>) -> Result<TokenView, ErrorView> {
    match read {
        Ok(token) => Ok(token@),
        Err(error) => Err(error@),
    }
}

/// The lexer: it hands out the tokens of a source text one by one, and can
/// show the next one without taking it.
pub struct Lexer {
    /// The source text, with a line feed after it.
    input: Vec<char>,
    /// The number of characters read so far.
    offset: usize,
    /// The location of the next character.
    location: Location,
    /// The token that was shown and not taken yet.
    peeked: Option<Token>,
}

impl View for Lexer {
    type V = Stream;

    /// What is left to read.
    closed spec fn view(&self) -> Stream {
        let rest = lex_from(self.input@, self.offset as int, self.location);
        match self.peeked {
            Some(token) => rest.prepend(token@),
            None => rest,
        }
    }
}

impl Lexer {
    /// The invariant of the lexer: it has not read beyond the text, and
    /// the token that it has shown is no comment.
    #[verifier::type_invariant]
    closed spec fn well_formed(&self) -> bool {
        &&& self.offset <= self.input@.len()
        &&& self.peeked matches Some(token) ==> !(token.lexeme is Comment)
    }

    /// Creates the lexer of a source text.
    pub fn new(input: String) -> (lexer: Lexer)
        ensures
            lexer@ == lex(input@),
    {
        let mut chars = characters(input.as_str());
        chars.push('\n');
        Lexer { input: chars, offset: 0, location: Location::new(), peeked: None }
    }

    /// Reads the next token from the text, past what was shown.
    fn scan(&mut self) -> (read: Result<Token, Error>)
        requires
            old(self).peeked is None,
        ensures
            final(self).peeked is None,
            read_view(read) == old(self)@.head(),
            final(self)@ == old(self)@.tail(),
            read matches Ok(token) ==> !(token.lexeme is Comment),
            read matches Ok(token) ==> (token.lexeme is EndOfFile ==> final(self)@ == old(self)@),
    {
        proof {
            use_type_invariant(&*self);
        }
        let ghost before = self@;
        while self.offset < self.input.len()
            invariant
                self.offset <= self.input@.len(),
                self.peeked is None,
                self.input == old(self).input,
                before == old(self)@,
                lex_from(self.input@, self.offset as int, self.location) == before,
            decreases self.input@.len() - self.offset,
        {
            let c = self.input[self.offset];
            if Class::Whitespace.contains(c) {
                let mut location = self.location;
                location.step(c);
                self.location = location;
                self.offset = self.offset + 1;
                continue ;
            }
            if let Some(end) = find_comment_end(&self.input, self.offset) {
                let mut location = self.location;
                location.advance(&self.input, self.offset, end);
                self.location = location;
                self.offset = end;
                continue ;
            }
            if let Some((lexeme, length)) = scan_lexeme(&self.input, self.offset) {
                let token = Token::new(self.location, lexeme, length);
                let mut location = self.location;
                location.shift_right(length);
                proof {
                    let rest = lex_from(self.input@, self.offset + length, location);
                    assert(before == rest.prepend(token@));
                    rest.lemma_prepend(token@);
                }
                self.location = location;
                self.offset = self.offset + length;
                return Ok(token);
            }
            let end = scan_run(&self.input, self.offset, Class::Visible);
            let sequence = slice_text(&self.input, self.offset, end);
            assert(before.tail() == before) by {
                assert(before.tail().tokens =~= before.tokens);
            }
            return Err(Error::InvalidLexeme { location: self.location, sequence });
        }
        assert(before.tail() == before) by {
            assert(before.tail().tokens =~= before.tokens);
        }
        Ok(Token::new(self.location, Lexeme::EndOfFile, 0))
    }

    /// Advances the lexer, returning the next token: the head of what was
    /// left. After the last token every call gives the end of the source, or
    /// the error that stopped the scanner, again.
    pub fn next(&mut self) -> (read: Result<Token, Error>)
        ensures
            read_view(read) == old(self)@.head(),
            final(self)@ == old(self)@.tail(),
            read matches Ok(token) ==> !(token.lexeme is Comment),
    {
        proof {
            use_type_invariant(&*self);
        }
        let shown = match &self.peeked {
            Some(token) => Some(token.duplicate()),
            None => None,
        };
        match shown {
            Some(token) => {
                proof {
                    lex_from(self.input@, self.offset as int, self.location).lemma_prepend(token@);
                }
                self.peeked = None;
                Ok(token)
            },
            None => self.scan(),
        }
    }

    /// Peeks the next token without advancing: what is left stays the same.
    pub fn peek(&mut self) -> (read: Result<Token, Error>)
        ensures
            read_view(read) == old(self)@.head(),
            final(self)@ == old(self)@,
    {
        proof {
            use_type_invariant(&*self);
        }
        match &self.peeked {
            Some(token) => {
                proof {
                    lex_from(self.input@, self.offset as int, self.location).lemma_prepend(token@);
                }
                Ok(token.duplicate())
            },
            None => {
                let ghost before = self@;
                let read = self.scan();
                proof {
                    if before.len() > 0 {
                        before.lemma_head_tail();
                    } else {
                        before.lemma_tail_at_end();
                    }
                }
                match read {
                    Ok(token) => {
                        match token.lexeme {
                            Lexeme::EndOfFile => Ok(token),
                            _ => {
                                let copy = token.duplicate();
                                proof {
                                    use_type_invariant(&*self);
                                    lex_from(
                                        self.input@,
                                        self.offset as int,
                                        self.location,
                                    ).lemma_prepend(token@);
                                }
                                self.peeked = Some(token);
                                Ok(copy)
                            },
                        }
                    },
                    Err(error) => Err(error),
                }
            },
        }
    }
}

} // verus!
