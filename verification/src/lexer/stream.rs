//! The tokens of a text, as the lexer hands them out one by one.

use vstd::prelude::*;
use crate::lexer::error::ErrorView;
use crate::lexer::location::Location;
use crate::lexer::scan::Class;
use crate::lexer::scan::block_comment_end;
use crate::lexer::scan::comment_end;
use crate::lexer::scan::lemma_run_end_bounds;
use crate::lexer::scan::lexeme_at;
use crate::lexer::scan::line_end;
use crate::lexer::scan::run_end;
use crate::lexer::scan::string_end;
use crate::lexer::token::LexemeView;
use crate::lexer::token::TokenView;
verus! {

/// What is left to read: the tokens in order, and what follows the last of
/// them for ever after: the end of the source at a location, or the lexical
/// error that stopped the scanner.
pub struct Stream {
    pub tokens: Seq<TokenView>,
    pub end: Result<Location, ErrorView>,
}

impl Stream {
    /// What the next read gives.
    pub open spec fn head(self) -> Result<TokenView, ErrorView> {
        if self.tokens.len() > 0 {
            Ok(self.tokens[0])
        } else {
            match self.end {
                Ok(location) => Ok(TokenView::end_of_file(location)),
                Err(error) => Err(error),
            }
        }
    }

    /// What is left after `count` reads.
    pub open spec fn skip(self, count: nat) -> Stream {
        if count >= self.tokens.len() {
            Stream { tokens: Seq::empty(), end: self.end }
        } else {
            Stream { tokens: self.tokens.subrange(count as int, self.tokens.len() as int), end: self.end }
        }
    }

    /// What is left after one read.
    pub open spec fn tail(self) -> Stream {
        self.skip(1)
    }

    /// The stream that gives `token` first and then `self`.
    pub open spec fn prepend(self, token: TokenView) -> Stream {
        Stream { tokens: seq![token] + self.tokens, end: self.end }
    }

    /// The number of tokens before the end.
    pub open spec fn len(self) -> nat {
        self.tokens.len()
    }

    /// Reading `first` and then `more` is reading `first + more`.
    pub broadcast proof fn lemma_skip_skip(self, first: nat, more: nat)
        ensures
            #[trigger] self.skip(first).skip(more) == self.skip(first + more),
    {
        assert(self.skip(first).skip(more).tokens =~= self.skip(first + more).tokens);
    }

    /// Reading nothing leaves the stream as it is.
    pub broadcast proof fn lemma_skip_nothing(self)
        ensures
            #[trigger] self.skip(0) == self,
    {
        assert(self.skip(0).tokens =~= self.tokens);
    }

    /// A stream with a token left is that token put in front of the rest.
    pub proof fn lemma_head_tail(self)
        requires
            self.len() > 0,
        ensures
            self.tail().prepend(self.tokens[0]) == self,
            self.tail().len() + 1 == self.len(),
    {
        assert(self.tail().prepend(self.tokens[0]).tokens =~= self.tokens);
    }

    /// After the last token nothing changes any more.
    pub proof fn lemma_tail_at_end(self)
        requires
            self.len() == 0,
        ensures
            self.tail() == self,
    {
        assert(self.tail().tokens =~= self.tokens);
    }

    /// A token put in front is the head, and the rest follows it.
    pub proof fn lemma_prepend(self, token: TokenView)
        ensures
            self.prepend(token).head() == Ok::<TokenView, ErrorView>(token),
            self.prepend(token).tail() == self,
            self.prepend(token).len() == self.len() + 1,
    {
        assert(self.prepend(token).tail().tokens =~= self.tokens);
    }
}

/// The end of a block comment lies after its two closing characters, within the text.
pub proof fn lemma_block_comment_end(text: Seq<char>, from: int)
    ensures
        block_comment_end(text, from) matches Some(end) ==> from + 2 <= end <= text.len(),
    decreases text.len() - from,
{
    if from < 0 || from + 1 >= text.len() {
    } else if text[from] == '*' && text[from + 1] == '/' {
    } else {
        lemma_block_comment_end(text, from + 1);
    }
}

/// The end of a line lies at or after the place the search starts from, within the text.
pub proof fn lemma_line_end(text: Seq<char>, from: int)
    ensures
        0 <= from <= text.len() ==> from <= line_end(text, from) <= text.len(),
    decreases text.len() - from,
{
    if from < 0 || from >= text.len() {
    } else if text[from] == '\n' {
    } else {
        lemma_line_end(text, from + 1);
    }
}

/// A comment takes at least two characters and ends within the text.
pub proof fn lemma_comment_end(text: Seq<char>, from: int)
    ensures
        comment_end(text, from) matches Some(end) ==> from + 2 <= end <= text.len(),
{
    lemma_block_comment_end(text, from + 2);
    lemma_line_end(text, from + 2);
}

/// A string literal ends after the place its body starts at, within the text.
pub proof fn lemma_string_end(text: Seq<char>, from: int)
    ensures
        string_end(text, from) matches Some(end) ==> from < end <= text.len(),
    decreases text.len() - from,
{
    if from < 0 || from >= text.len() {
    } else if text[from] == '"' {
    } else if text[from] == '\\' {
        if from + 1 < text.len() {
            lemma_string_end(text, from + 2);
        }
    } else {
        lemma_string_end(text, from + 1);
    }
}

/// A lexeme takes at least one character and ends within the text.
pub proof fn lemma_lexeme_at(text: Seq<char>, from: int)
    ensures
        lexeme_at(text, from) matches Some((_, length)) ==> 0 <= from && 0 < length && from
            + length <= text.len(),
{
    if 0 <= from < text.len() {
        lemma_string_end(text, from + 1);
        lemma_run_end_bounds(text, from + 2, Class::HexDigit);
        lemma_run_end_bounds(text, from + 1, Class::Digit);
        lemma_run_end_bounds(text, from + 1, Class::IdentifierPart);
    }
}

/// The tokens of `text` from `offset` on, the first of them read at
/// `location`. At each place the first rule that applies is taken:
/// whitespace is passed over, then a comment; then comes a lexeme; else the
/// text is refused from there up to the next whitespace.
pub open spec fn lex_from(text: Seq<char>, offset: int, location: Location) -> Stream
    decreases text.len() - offset,
{
    if offset < 0 || offset >= text.len() {
        Stream { tokens: Seq::empty(), end: Ok(location) }
    } else if Class::Whitespace.holds(text[offset]) {
        lex_from(text, offset + 1, location.after(text[offset]))
    } else if let Some(end) = comment_end(text, offset) {
        proof {
            lemma_comment_end(text, offset);
        }
        lex_from(text, end, location.along(text, offset, end))
    } else if let Some((lexeme, length)) = lexeme_at(text, offset) {
        proof {
            lemma_lexeme_at(text, offset);
        }
        lex_from(text, offset + length, location.right(length)).prepend(
            TokenView { location, lexeme, length },
        )
    } else {
        Stream {
            tokens: Seq::empty(),
            end: Err(
                ErrorView::InvalidLexeme {
                    location,
                    sequence: text.subrange(offset, run_end(text, offset, Class::Visible)),
                },
            ),
        }
    }
}

/// The lexer hands out neither a comment nor, before the end, the end of
/// the source: no token of a text holds one of them.
pub proof fn lemma_lex_from_lexemes(text: Seq<char>, offset: int, location: Location)
    ensures
        forall|i: int|
            0 <= i < lex_from(text, offset, location).tokens.len() ==> {
                let lexeme = (#[trigger] lex_from(text, offset, location).tokens[i]).lexeme;
                !(lexeme is EndOfFile) && !(lexeme is Comment)
            },
    decreases text.len() - offset,
{
    if offset < 0 || offset >= text.len() {
    } else if Class::Whitespace.holds(text[offset]) {
        lemma_lex_from_lexemes(text, offset + 1, location.after(text[offset]));
    } else if let Some(end) = comment_end(text, offset) {
        lemma_comment_end(text, offset);
        lemma_lex_from_lexemes(text, end, location.along(text, offset, end));
    } else if let Some((lexeme, length)) = lexeme_at(text, offset) {
        lemma_lexeme_at(text, offset);
        lemma_lex_from_lexemes(text, offset + length, location.right(length));
    } else {
    }
}

/// The lexemes of `tokens`, in order.
pub open spec fn lexemes(tokens: Seq<TokenView>) -> Seq<LexemeView> {
    Seq::new(tokens.len(), |i: int| tokens[i].lexeme)
}

/// The tokens of a source text. A line feed is put after the text before it is read.
pub open spec fn lex(source: Seq<char>) -> Stream {
    lex_from(source.push('\n'), 0, Location::start())
}

} // verus!
