use yul_compiler::error::Error;
use yul_compiler::lexer::error::Error as LexerError;
use yul_compiler::lexer::location::Location;
use yul_compiler::lexer::token::Keyword;
use yul_compiler::lexer::token::Lexeme;
use yul_compiler::lexer::token::Literal;
use yul_compiler::lexer::token::Symbol;
use yul_compiler::lexer::token::Token;
use yul_compiler::lexer::Lexer;

fn token(line: usize, column: usize, lexeme: Lexeme, length: usize) -> Token {
    Token {
        location: Location { line, column },
        lexeme,
        length,
    }
}

#[test]
fn tokens_carry_their_locations_and_lengths() {
    let mut lexer = Lexer::new("{\n  x := 0x1f\n}".to_owned());
    assert_eq!(
        lexer.next(),
        Ok(token(1, 1, Lexeme::Symbol(Symbol::BracketCurlyLeft), 1))
    );
    assert_eq!(
        lexer.next(),
        Ok(token(2, 3, Lexeme::Identifier("x".to_owned()), 1))
    );
    assert_eq!(
        lexer.next(),
        Ok(token(2, 5, Lexeme::Symbol(Symbol::Assignment), 2))
    );
    assert_eq!(
        lexer.next(),
        Ok(token(
            2,
            8,
            Lexeme::Literal(Literal::Integer("0x1f".to_owned())),
            4
        ))
    );
    assert_eq!(
        lexer.next(),
        Ok(token(3, 1, Lexeme::Symbol(Symbol::BracketCurlyRight), 1))
    );
}

#[test]
fn end_of_file_is_a_token_and_comes_again() {
    let mut lexer = Lexer::new("x".to_owned());
    assert_eq!(
        lexer.next(),
        Ok(token(1, 1, Lexeme::Identifier("x".to_owned()), 1))
    );
    assert_eq!(lexer.next(), Ok(token(2, 1, Lexeme::EndOfFile, 0)));
    assert_eq!(lexer.peek(), Ok(token(2, 1, Lexeme::EndOfFile, 0)));
    assert_eq!(lexer.next(), Ok(token(2, 1, Lexeme::EndOfFile, 0)));
}

#[test]
fn peek_shows_the_next_token_without_taking_it() {
    let mut lexer = Lexer::new("let x".to_owned());
    let shown = lexer.peek();
    assert_eq!(shown, Ok(token(1, 1, Lexeme::Keyword(Keyword::Let), 3)));
    assert_eq!(lexer.peek(), shown);
    assert_eq!(lexer.next(), shown);
    assert_eq!(
        lexer.next(),
        Ok(token(1, 5, Lexeme::Identifier("x".to_owned()), 1))
    );
}

#[test]
fn carriage_return_takes_no_column() {
    let mut lexer = Lexer::new("\r\n\r x".to_owned());
    assert_eq!(
        lexer.next(),
        Ok(token(2, 2, Lexeme::Identifier("x".to_owned()), 1))
    );
}

#[test]
fn comments_are_skipped_and_move_the_location() {
    let mut lexer = Lexer::new("/* one\n two */ a // rest\nb".to_owned());
    assert_eq!(
        lexer.next(),
        Ok(token(2, 9, Lexeme::Identifier("a".to_owned()), 1))
    );
    assert_eq!(
        lexer.next(),
        Ok(token(3, 1, Lexeme::Identifier("b".to_owned()), 1))
    );
    assert_eq!(lexer.next(), Ok(token(4, 1, Lexeme::EndOfFile, 0)));
}

#[test]
fn invalid_lexeme_reports_the_place_and_the_sequence() {
    let mut lexer = Lexer::new("{ #$% }".to_owned());
    lexer.next().expect("a bracket");
    let expected = LexerError::InvalidLexeme {
        location: Location { line: 1, column: 3 },
        sequence: "#$%".to_owned(),
    };
    assert_eq!(lexer.next(), Err(expected.clone()));
    assert_eq!(lexer.peek(), Err(expected.clone()));
    assert_eq!(lexer.next(), Err(expected));
}

#[test]
fn unterminated_comment_and_string_are_invalid() {
    assert_eq!(
        yul_compiler::tokenize("/* xxx yyy"),
        Err(Error::Lexer(LexerError::InvalidLexeme {
            location: Location { line: 1, column: 1 },
            sequence: "/*".to_owned(),
        }))
    );
    assert_eq!(
        yul_compiler::tokenize("a \"bc"),
        Err(Error::Lexer(LexerError::InvalidLexeme {
            location: Location { line: 1, column: 3 },
            sequence: "\"bc".to_owned(),
        }))
    );
}

#[test]
fn string_literals_keep_their_quotes_and_escapes() {
    assert_eq!(
        yul_compiler::tokenize("\"a\\\"b\" c"),
        Ok(vec![
            Lexeme::Literal(Literal::String("\"a\\\"b\"".to_owned())),
            Lexeme::Identifier("c".to_owned()),
        ])
    );
}

#[test]
fn integers_may_exceed_the_machine_width() {
    assert_eq!(
        yul_compiler::tokenize("1234567890123456789012345678 0xffffffffffffffffffffffffffffffffff"),
        Ok(vec![
            Lexeme::Literal(Literal::Integer("1234567890123456789012345678".to_owned())),
            Lexeme::Literal(Literal::Integer(
                "0xffffffffffffffffffffffffffffffffff".to_owned()
            )),
        ])
    );
}

#[test]
fn hexadecimal_prefix_needs_a_digit() {
    assert_eq!(
        yul_compiler::tokenize("0x 0xg"),
        Ok(vec![
            Lexeme::Literal(Literal::Integer("0".to_owned())),
            Lexeme::Identifier("x".to_owned()),
            Lexeme::Literal(Literal::Integer("0".to_owned())),
            Lexeme::Identifier("xg".to_owned()),
        ])
    );
}

#[test]
fn keywords_are_reserved_and_longer_words_are_not() {
    assert_eq!(
        yul_compiler::tokenize("break breaker leave_ for$ object code true false"),
        Ok(vec![
            Lexeme::Keyword(Keyword::Break),
            Lexeme::Identifier("breaker".to_owned()),
            Lexeme::Identifier("leave_".to_owned()),
            Lexeme::Identifier("for$".to_owned()),
            Lexeme::Keyword(Keyword::Object),
            Lexeme::Keyword(Keyword::Code),
            Lexeme::Keyword(Keyword::True),
            Lexeme::Keyword(Keyword::False),
        ])
    );
}

#[test]
fn symbols_are_read_longest_first() {
    assert_eq!(
        yul_compiler::tokenize(":=:->(),{}"),
        Ok(vec![
            Lexeme::Symbol(Symbol::Assignment),
            Lexeme::Symbol(Symbol::Colon),
            Lexeme::Symbol(Symbol::Arrow),
            Lexeme::Symbol(Symbol::ParenthesisLeft),
            Lexeme::Symbol(Symbol::ParenthesisRight),
            Lexeme::Symbol(Symbol::Comma),
            Lexeme::Symbol(Symbol::BracketCurlyLeft),
            Lexeme::Symbol(Symbol::BracketCurlyRight),
        ])
    );
}

#[test]
fn tokenize_of_nothing_is_empty() {
    assert_eq!(yul_compiler::tokenize(""), Ok(vec![]));
    assert_eq!(yul_compiler::tokenize(" \t\n // only a comment"), Ok(vec![]));
}

#[test]
fn location_shifts() {
    let mut location = Location::new();
    assert_eq!(location, Location { line: 1, column: 1 });
    location.shift_right(4);
    assert_eq!(location, Location { line: 1, column: 5 });
    location.shift_down(2, 3);
    assert_eq!(location, Location { line: 3, column: 4 });
    location.shift_down(0, 3);
    assert_eq!(location, Location { line: 3, column: 7 });
    location.shift_right(usize::MAX);
    assert_eq!(
        location,
        Location {
            line: 3,
            column: usize::MAX
        }
    );
}
