//! What the lexer reads does not depend on what stands before it: the
//! lexemes of the end of a text are those of that end read alone.

use vstd::prelude::*;
use crate::lexer::location::Location;
use crate::lexer::scan::Class;
use crate::lexer::scan::block_comment_end;
use crate::lexer::scan::comment_end;
use crate::lexer::scan::lemma_run_end_bounds;
use crate::lexer::scan::lexeme_at;
use crate::lexer::scan::line_end;
use crate::lexer::scan::run_end;
use crate::lexer::scan::string_end;
use crate::lexer::stream::Stream;
use crate::lexer::stream::lemma_comment_end;
use crate::lexer::stream::lemma_lexeme_at;
use crate::lexer::stream::lemma_string_end;
use crate::lexer::stream::lex;
use crate::lexer::stream::lex_from;
use crate::lexer::token::TokenView;
verus! {

/// Whether two streams give the same lexemes, and both end with the end of
/// the source or both with a lexical error. The locations may differ.
pub open spec fn same_lexemes(a: Stream, b: Stream) -> bool {
    &&& a.tokens.len() == b.tokens.len()
    &&& forall|i: int|
        0 <= i < a.tokens.len() ==> (#[trigger] a.tokens[i]).lexeme == b.tokens[i].lexeme
    &&& (a.end is Ok) == (b.end is Ok)
}

/// Whether `short` is what `long` holds from the place `shift` on.
pub open spec fn ends_with(long: Seq<char>, short: Seq<char>, shift: int) -> bool {
    &&& 0 <= shift
    &&& long.len() == short.len() + shift
    &&& forall|i: int| 0 <= i < short.len() ==> long[shift + i] == #[trigger] short[i]
}

/// The place `shift` further on, where there is one.
pub open spec fn shifted(place: Option<int>, shift: int) -> Option<int> {
    match place {
        Some(place) => Some(place + shift),
        None => None,
    }
}

/// A run ends at the same character wherever the text starts.
pub proof fn lemma_run_end_shift(long: Seq<char>, short: Seq<char>, shift: int, from: int, class: Class)
    requires
        ends_with(long, short, shift),
        0 <= from,
    ensures
        run_end(long, shift + from, class) == run_end(short, from, class) + shift,
    decreases short.len() - from,
{
    if from < short.len() && class.holds(short[from]) {
        lemma_run_end_shift(long, short, shift, from + 1, class);
    }
}

/// A block comment ends at the same character wherever the text starts.
pub proof fn lemma_block_comment_end_shift(long: Seq<char>, short: Seq<char>, shift: int, from: int)
    requires
        ends_with(long, short, shift),
        0 <= from,
    ensures
        block_comment_end(long, shift + from) == shifted(block_comment_end(short, from), shift),
    decreases short.len() - from,
{
    if from + 1 >= short.len() {
    } else if short[from] == '*' && short[from + 1] == '/' {
    } else {
        lemma_block_comment_end_shift(long, short, shift, from + 1);
    }
}

/// A line ends at the same character wherever the text starts.
pub proof fn lemma_line_end_shift(long: Seq<char>, short: Seq<char>, shift: int, from: int)
    requires
        ends_with(long, short, shift),
        0 <= from,
    ensures
        line_end(long, shift + from) == line_end(short, from) + shift,
    decreases short.len() - from,
{
    if from >= short.len() {
    } else if short[from] == '\n' {
    } else {
        lemma_line_end_shift(long, short, shift, from + 1);
    }
}

/// A comment ends at the same character wherever the text starts.
pub proof fn lemma_comment_end_shift(long: Seq<char>, short: Seq<char>, shift: int, from: int)
    requires
        ends_with(long, short, shift),
        0 <= from,
    ensures
        comment_end(long, shift + from) == shifted(comment_end(short, from), shift),
{
    if from + 1 < short.len() {
        assert(long[shift + from] == short[from]);
        assert(long[shift + (from + 1)] == short[from + 1]);
    }
    lemma_block_comment_end_shift(long, short, shift, from + 2);
    lemma_line_end_shift(long, short, shift, from + 2);
}

/// A string literal ends at the same character wherever the text starts.
pub proof fn lemma_string_end_shift(long: Seq<char>, short: Seq<char>, shift: int, from: int)
    requires
        ends_with(long, short, shift),
        0 <= from,
    ensures
        string_end(long, shift + from) == shifted(string_end(short, from), shift),
    decreases short.len() - from,
{
    if from >= short.len() {
    } else if short[from] == '"' {
    } else if short[from] == '\\' {
        if from + 1 < short.len() {
            lemma_string_end_shift(long, short, shift, from + 2);
        }
    } else {
        lemma_string_end_shift(long, short, shift, from + 1);
    }
}

/// A piece of the end of a text is the same piece of the text, further on.
pub proof fn lemma_subrange_shift(long: Seq<char>, short: Seq<char>, shift: int, from: int, to: int)
    requires
        ends_with(long, short, shift),
        0 <= from <= to <= short.len(),
    ensures
        long.subrange(shift + from, shift + to) == short.subrange(from, to),
{
    assert(long.subrange(shift + from, shift + to) =~= short.subrange(from, to));
}

/// The same lexeme starts at the same character wherever the text starts.
pub proof fn lemma_lexeme_at_shift(long: Seq<char>, short: Seq<char>, shift: int, from: int)
    requires
        ends_with(long, short, shift),
        0 <= from,
    ensures
        lexeme_at(long, shift + from) == lexeme_at(short, from),
{
    if from < short.len() {
        assert(long[shift + from] == short[from]);
        if from + 1 < short.len() {
            assert(long[shift + (from + 1)] == short[from + 1]);
        }
        lemma_string_end_shift(long, short, shift, from + 1);
        lemma_string_end(short, from + 1);
        lemma_run_end_shift(long, short, shift, from + 2, Class::HexDigit);
        lemma_run_end_shift(long, short, shift, from + 1, Class::Digit);
        lemma_run_end_shift(long, short, shift, from, Class::Digit);
        lemma_run_end_shift(long, short, shift, from + 1, Class::IdentifierPart);
        lemma_run_end_bounds(short, from + 2, Class::HexDigit);
        lemma_run_end_bounds(short, from + 1, Class::Digit);
        lemma_run_end_bounds(short, from, Class::Digit);
        lemma_run_end_bounds(short, from + 1, Class::IdentifierPart);
        if short[from] == '"' && string_end(short, from + 1) is Some {
            lemma_subrange_shift(long, short, shift, from, string_end(short, from + 1)->0);
        }
        if from + 2 <= short.len() {
            lemma_subrange_shift(
                long,
                short,
                shift,
                from,
                run_end(short, from + 2, Class::HexDigit),
            );
        }
        lemma_subrange_shift(long, short, shift, from, run_end(short, from, Class::Digit));
        lemma_subrange_shift(
            long,
            short,
            shift,
            from,
            run_end(short, from + 1, Class::IdentifierPart),
        );
    }
}

impl Stream {
    /// Streams that give the same lexemes still do so with tokens of the
    /// same lexeme put in front.
    pub proof fn lemma_same_prepend(self, other: Stream, first: TokenView, second: TokenView)
        requires
            same_lexemes(self, other),
            first.lexeme == second.lexeme,
        ensures
            same_lexemes(self.prepend(first), other.prepend(second)),
    {
        let a = self.prepend(first);
        let b = other.prepend(second);
        assert forall|i: int| 0 <= i < a.tokens.len() implies (#[trigger] a.tokens[i]).lexeme
            == b.tokens[i].lexeme by {
            if i > 0 {
                assert(a.tokens[i] == self.tokens[i - 1]);
                assert(b.tokens[i] == other.tokens[i - 1]);
            }
        }
    }
}

/// The lexemes of the end of a text are those of that end read alone,
/// whatever the locations that the two readings start at.
pub proof fn lemma_lex_from_shift(
    long: Seq<char>,
    short: Seq<char>,
    shift: int,
    from: int,
    there: Location,
    here: Location,
)
    requires
        ends_with(long, short, shift),
        0 <= from,
    ensures
        same_lexemes(lex_from(long, shift + from, there), lex_from(short, from, here)),
    decreases short.len() - from,
{
    if from >= short.len() {
    } else {
        assert(long[shift + from] == short[from]);
        lemma_comment_end_shift(long, short, shift, from);
        lemma_lexeme_at_shift(long, short, shift, from);
        if Class::Whitespace.holds(short[from]) {
            lemma_lex_from_shift(
                long,
                short,
                shift,
                from + 1,
                there.after(long[shift + from]),
                here.after(short[from]),
            );
        } else if let Some(end) = comment_end(short, from) {
            lemma_comment_end(short, from);
            lemma_lex_from_shift(
                long,
                short,
                shift,
                end,
                there.along(long, shift + from, shift + end),
                here.along(short, from, end),
            );
        } else if let Some((lexeme, length)) = lexeme_at(short, from) {
            lemma_lexeme_at(short, from);
            lemma_lex_from_shift(
                long,
                short,
                shift,
                from + length,
                there.right(length),
                here.right(length),
            );
            lex_from(long, shift + from + length, there.right(length)).lemma_same_prepend(
                lex_from(short, from + length, here.right(length)),
                TokenView { location: there, lexeme, length },
                TokenView { location: here, lexeme, length },
            );
        } else {
        }
    }
}

/// Whether `body` can stand in a block comment: `*/` does not stand in it.
pub open spec fn comment_body(body: Seq<char>) -> bool {
    forall|i: int|
        0 <= i && i + 1 < body.len() ==> !(#[trigger] body[i] == '*' && body[i + 1] == '/')
}

/// The text that holds `body` as a block comment and `source` behind it.
pub open spec fn commented(body: Seq<char>, source: Seq<char>) -> Seq<char> {
    seq!['/', '*'] + body + seq!['*', '/'] + source
}

/// A block comment ends behind its body.
proof fn lemma_comment_body_end(text: Seq<char>, body: Seq<char>, from: int)
    requires
        comment_body(body),
        2 <= from <= body.len() + 2,
        text.len() >= body.len() + 4,
        forall|i: int| 0 <= i < body.len() ==> text[i + 2] == #[trigger] body[i],
        text[body.len() as int + 2] == '*',
        text[body.len() as int + 3] == '/',
    ensures
        block_comment_end(text, from) == Some(body.len() as int + 4),
    decreases body.len() + 2 - from,
{
    if from < body.len() + 2 {
        assert(text[from] == body[from - 2]);
        if from + 1 < body.len() + 2 {
            assert(text[from + 1] == body[from + 1 - 2]);
        }
        lemma_comment_body_end(text, body, from + 1);
    }
}

/// A comment before a source is not seen in the lexemes: the source with
/// the comment has the lexemes of the source without it.
pub proof fn lemma_comment_skipped(body: Seq<char>, source: Seq<char>)
    requires
        comment_body(body),
    ensures
        same_lexemes(lex(commented(body, source)), lex(source)),
{
    let long = commented(body, source).push('\n');
    let short = source.push('\n');
    let shift = body.len() + 4;
    assert(ends_with(long, short, shift as int));
    lemma_comment_body_end(long, body, 2);
    assert(long[0] == '/');
    assert(long[1] == '*');
    assert(comment_end(long, 0) == Some(shift as int));
    lemma_lex_from_shift(
        long,
        short,
        shift as int,
        0,
        Location::start().along(long, 0, shift as int),
        Location::start(),
    );
}

} // verus!
