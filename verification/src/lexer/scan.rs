//! The shapes of the lexemes, over a text given as a sequence of characters.

use vstd::prelude::*;
use crate::lexer::token::Keyword;
use crate::lexer::token::Lexeme;
use crate::lexer::token::LexemeView;
use crate::lexer::token::Literal;
use crate::lexer::token::LiteralView;
use crate::lexer::token::Symbol;
verus! {

/// The classes of characters that lexemes are made of.
#[derive(Debug, Clone, Copy, PartialEq, Eq, Structural)]
pub enum Class {
    /// `0` to `9`.
    Digit,
    /// `0` to `9`, `a` to `f`, `A` to `F`.
    HexDigit,
    /// A letter, `_` or `$`.
    IdentifierStart,
    /// A letter, a digit, `_`, `$` or `.`.
    IdentifierPart,
    /// A space, a tab, a line feed, a form feed or a carriage return.
    Whitespace,
    /// Anything but whitespace.
    Visible,
}

impl Class {
    /// Whether `c` belongs to the class.
    pub open spec fn holds(self, c: char) -> bool {
        match self {
            Class::Digit => '0' <= c <= '9',
            Class::HexDigit => '0' <= c <= '9' || 'a' <= c <= 'f' || 'A' <= c <= 'F',
            Class::IdentifierStart => 'a' <= c <= 'z' || 'A' <= c <= 'Z' || c == '_' || c == '$',
            Class::IdentifierPart => 'a' <= c <= 'z' || 'A' <= c <= 'Z' || '0' <= c <= '9' || c
                == '_' || c == '$' || c == '.',
            Class::Whitespace => c == ' ' || c == '\t' || c == '\n' || c == '\x0C' || c == '\r',
            Class::Visible => !(c == ' ' || c == '\t' || c == '\n' || c == '\x0C' || c == '\r'),
        }
    }

    /// Tells whether `c` belongs to the class.
    pub fn contains(self, c: char) -> (found: bool)
        ensures
            found == self.holds(c),
    {
        match self {
            Class::Digit => '0' <= c && c <= '9',
            Class::HexDigit => ('0' <= c && c <= '9') || ('a' <= c && c <= 'f') || ('A' <= c && c
                <= 'F'),
            Class::IdentifierStart => ('a' <= c && c <= 'z') || ('A' <= c && c <= 'Z') || c == '_'
                || c == '$',
            Class::IdentifierPart => ('a' <= c && c <= 'z') || ('A' <= c && c <= 'Z') || ('0' <= c
                && c <= '9') || c == '_' || c == '$' || c == '.',
            Class::Whitespace => c == ' ' || c == '\t' || c == '\n' || c == '\x0C' || c == '\r',
            Class::Visible => !(c == ' ' || c == '\t' || c == '\n' || c == '\x0C' || c == '\r'),
        }
    }
}

/// The end of the longest run of characters of `class` that starts at `from`.
pub open spec fn run_end(text: Seq<char>, from: int, class: Class) -> int
    decreases text.len() - from,
{
    if 0 <= from < text.len() && class.holds(text[from]) {
        run_end(text, from + 1, class)
    } else {
        from
    }
}

/// A run ends at or after its start, and within the text if it starts there.
pub proof fn lemma_run_end_bounds(text: Seq<char>, from: int, class: Class)
    ensures
        from <= run_end(text, from, class),
        from <= text.len() ==> run_end(text, from, class) <= text.len(),
    decreases text.len() - from,
{
    if 0 <= from < text.len() && class.holds(text[from]) {
        lemma_run_end_bounds(text, from + 1, class);
    }
}

/// Finds the end of the longest run of characters of `class` that starts at `from`.
pub fn scan_run(text: &Vec<char>, from: usize, class: Class) -> (end: usize)
    requires
        from <= text.len(),
    ensures
        end == run_end(text@, from as int, class),
        from <= end <= text.len(),
{
    let mut end: usize = from;
    while end < text.len() && class.contains(text[end])
        invariant
            from <= end <= text.len(),
            run_end(text@, end as int, class) == run_end(text@, from as int, class),
        decreases text.len() - end,
    {
        end = end + 1;
    }
    end
}

impl Keyword {
    /// How the keyword is written.
    pub open spec fn spelling(self) -> Seq<char> {
        match self {
            Keyword::Object => seq!['o', 'b', 'j', 'e', 'c', 't'],
            Keyword::Code => seq!['c', 'o', 'd', 'e'],
            Keyword::Function => seq!['f', 'u', 'n', 'c', 't', 'i', 'o', 'n'],
            Keyword::Let => seq!['l', 'e', 't'],
            Keyword::If => seq!['i', 'f'],
            Keyword::Switch => seq!['s', 'w', 'i', 't', 'c', 'h'],
            Keyword::Case => seq!['c', 'a', 's', 'e'],
            Keyword::Default => seq!['d', 'e', 'f', 'a', 'u', 'l', 't'],
            Keyword::For => seq!['f', 'o', 'r'],
            Keyword::Break => seq!['b', 'r', 'e', 'a', 'k'],
            Keyword::Continue => seq!['c', 'o', 'n', 't', 'i', 'n', 'u', 'e'],
            Keyword::Leave => seq!['l', 'e', 'a', 'v', 'e'],
            Keyword::True => seq!['t', 'r', 'u', 'e'],
            Keyword::False => seq!['f', 'a', 'l', 's', 'e'],
        }
    }

    /// The characters of the keyword.
    pub fn letters(self) -> (letters: Vec<char>)
        ensures
            letters@ == self.spelling(),
    {
        match self {
            Keyword::Object => vec!['o', 'b', 'j', 'e', 'c', 't'],
            Keyword::Code => vec!['c', 'o', 'd', 'e'],
            Keyword::Function => vec!['f', 'u', 'n', 'c', 't', 'i', 'o', 'n'],
            Keyword::Let => vec!['l', 'e', 't'],
            Keyword::If => vec!['i', 'f'],
            Keyword::Switch => vec!['s', 'w', 'i', 't', 'c', 'h'],
            Keyword::Case => vec!['c', 'a', 's', 'e'],
            Keyword::Default => vec!['d', 'e', 'f', 'a', 'u', 'l', 't'],
            Keyword::For => vec!['f', 'o', 'r'],
            Keyword::Break => vec!['b', 'r', 'e', 'a', 'k'],
            Keyword::Continue => vec!['c', 'o', 'n', 't', 'i', 'n', 'u', 'e'],
            Keyword::Leave => vec!['l', 'e', 'a', 'v', 'e'],
            Keyword::True => vec!['t', 'r', 'u', 'e'],
            Keyword::False => vec!['f', 'a', 'l', 's', 'e'],
        }
    }
}

/// The keyword that `word` spells, if it spells one.
pub open spec fn keyword_of(word: Seq<char>) -> Option<Keyword> {
    if word == Keyword::Object.spelling() {
        Some(Keyword::Object)
    }     else if word == Keyword::Code.spelling() {
        Some(Keyword::Code)
    }     else if word == Keyword::Function.spelling() {
        Some(Keyword::Function)
    }     else if word == Keyword::Let.spelling() {
        Some(Keyword::Let)
    }     else if word == Keyword::If.spelling() {
        Some(Keyword::If)
    }     else if word == Keyword::Switch.spelling() {
        Some(Keyword::Switch)
    }     else if word == Keyword::Case.spelling() {
        Some(Keyword::Case)
    }     else if word == Keyword::Default.spelling() {
        Some(Keyword::Default)
    }     else if word == Keyword::For.spelling() {
        Some(Keyword::For)
    }     else if word == Keyword::Break.spelling() {
        Some(Keyword::Break)
    }     else if word == Keyword::Continue.spelling() {
        Some(Keyword::Continue)
    }     else if word == Keyword::Leave.spelling() {
        Some(Keyword::Leave)
    }     else if word == Keyword::True.spelling() {
        Some(Keyword::True)
    }     else if word == Keyword::False.spelling() {
        Some(Keyword::False)
    } else {
        None
    }
}

/// Tells whether the characters of `text` from `from` up to `to` are those of `word`.
pub fn spelled(text: &Vec<char>, from: usize, to: usize, word: &Vec<char>) -> (same: bool)
    requires
        from <= to <= text.len(),
    ensures
        same == (text@.subrange(from as int, to as int) == word@),
{
    if to - from != word.len() {
        return false;
    }
    let mut index: usize = 0;
    while index < word.len()
        invariant
            from <= to <= text.len(),
            to - from == word.len(),
            index <= word.len(),
            text@.subrange(from as int, from + index) == word@.subrange(0, index as int),
        decreases word.len() - index,
    {
        if text[from + index] != word[index] {
            assert(text@.subrange(from as int, to as int)[index as int] != word@[index as int]);
            return false;
        }
        assert(text@.subrange(from as int, from + index + 1) =~= text@.subrange(
            from as int,
            from + index,
        ).push(text@[from + index]));
        assert(word@.subrange(0, index + 1) =~= word@.subrange(0, index as int).push(
            word@[index as int],
        ));
        index = index + 1;
    }
    assert(word@.subrange(0, index as int) =~= word@);
    true
}

/// Finds the keyword that the characters of `text` from `from` up to `to` spell.
pub fn find_keyword(text: &Vec<char>, from: usize, to: usize) -> (found: Option<Keyword>)
    requires
        from <= to <= text.len(),
    ensures
        found == keyword_of(text@.subrange(from as int, to as int)),
{
    if spelled(text, from, to, &Keyword::Object.letters()) {
        Some(Keyword::Object)
    }     else if spelled(text, from, to, &Keyword::Code.letters()) {
        Some(Keyword::Code)
    }     else if spelled(text, from, to, &Keyword::Function.letters()) {
        Some(Keyword::Function)
    }     else if spelled(text, from, to, &Keyword::Let.letters()) {
        Some(Keyword::Let)
    }     else if spelled(text, from, to, &Keyword::If.letters()) {
        Some(Keyword::If)
    }     else if spelled(text, from, to, &Keyword::Switch.letters()) {
        Some(Keyword::Switch)
    }     else if spelled(text, from, to, &Keyword::Case.letters()) {
        Some(Keyword::Case)
    }     else if spelled(text, from, to, &Keyword::Default.letters()) {
        Some(Keyword::Default)
    }     else if spelled(text, from, to, &Keyword::For.letters()) {
        Some(Keyword::For)
    }     else if spelled(text, from, to, &Keyword::Break.letters()) {
        Some(Keyword::Break)
    }     else if spelled(text, from, to, &Keyword::Continue.letters()) {
        Some(Keyword::Continue)
    }     else if spelled(text, from, to, &Keyword::Leave.letters()) {
        Some(Keyword::Leave)
    }     else if spelled(text, from, to, &Keyword::True.letters()) {
        Some(Keyword::True)
    }     else if spelled(text, from, to, &Keyword::False.letters()) {
        Some(Keyword::False)
    } else {
        None
    }
}

/// The symbol that starts at `from`, with its length.
pub open spec fn symbol_at(text: Seq<char>, from: int) -> Option<(Symbol, nat)> {
    if from < 0 || from >= text.len() {
        None
    } else if text[from] == ':' && from + 1 < text.len() && text[from + 1] == '=' {
        Some((Symbol::Assignment, 2))
    } else if text[from] == '-' && from + 1 < text.len() && text[from + 1] == '>' {
        Some((Symbol::Arrow, 2))
    } else if text[from] == '{' {
        Some((Symbol::BracketCurlyLeft, 1))
    } else if text[from] == '}' {
        Some((Symbol::BracketCurlyRight, 1))
    } else if text[from] == '(' {
        Some((Symbol::ParenthesisLeft, 1))
    } else if text[from] == ')' {
        Some((Symbol::ParenthesisRight, 1))
    } else if text[from] == ',' {
        Some((Symbol::Comma, 1))
    } else if text[from] == ':' {
        Some((Symbol::Colon, 1))
    } else {
        None
    }
}

/// Finds the symbol that starts at `from`, with its length.
pub fn find_symbol(text: &Vec<char>, from: usize) -> (found: Option<(Symbol, usize)>)
    requires
        from <= text.len(),
    ensures
        match symbol_at(text@, from as int) {
            Some((symbol, length)) => found == Some((symbol, length as usize)) && from + length
                <= text.len(),
            None => found is None,
        },
{
    if from >= text.len() {
        return None;
    }
    let c = text[from];
    let paired = from + 1 < text.len();
    if c == ':' && paired && text[from + 1] == '=' {
        Some((Symbol::Assignment, 2))
    } else if c == '-' && paired && text[from + 1] == '>' {
        Some((Symbol::Arrow, 2))
    } else if c == '{' {
        Some((Symbol::BracketCurlyLeft, 1))
    } else if c == '}' {
        Some((Symbol::BracketCurlyRight, 1))
    } else if c == '(' {
        Some((Symbol::ParenthesisLeft, 1))
    } else if c == ')' {
        Some((Symbol::ParenthesisRight, 1))
    } else if c == ',' {
        Some((Symbol::Comma, 1))
    } else if c == ':' {
        Some((Symbol::Colon, 1))
    } else {
        None
    }
}

/// The end of the block comment whose body starts at `from`: the place after
/// the first `*/` at or after `from`.
pub open spec fn block_comment_end(text: Seq<char>, from: int) -> Option<int>
    decreases text.len() - from,
{
    if from < 0 || from + 1 >= text.len() {
        None
    } else if text[from] == '*' && text[from + 1] == '/' {
        Some(from + 2)
    } else {
        block_comment_end(text, from + 1)
    }
}

/// The place of the first line feed at or after `from`, or the end of the text.
pub open spec fn line_end(text: Seq<char>, from: int) -> int
    decreases text.len() - from,
{
    if from < 0 || from >= text.len() {
        text.len() as int
    } else if text[from] == '\n' {
        from
    } else {
        line_end(text, from + 1)
    }
}

/// The end of the comment that starts at `from`, if one starts there: a block
/// comment runs from `/*` to the first `*/` after it, a line comment from `//`
/// to the end of the line.
pub open spec fn comment_end(text: Seq<char>, from: int) -> Option<int> {
    if 0 <= from && from + 1 < text.len() && text[from] == '/' && text[from + 1] == '*' {
        block_comment_end(text, from + 2)
    } else if 0 <= from && from + 1 < text.len() && text[from] == '/' && text[from + 1] == '/' {
        Some(line_end(text, from + 2))
    } else {
        None
    }
}

/// Finds the end of the comment that starts at `from`.
pub fn find_comment_end(text: &Vec<char>, from: usize) -> (found: Option<usize>)
    requires
        from <= text.len(),
    ensures
        match comment_end(text@, from as int) {
            Some(end) => found == Some(end as usize) && from + 2 <= end <= text.len(),
            None => found is None,
        },
{
    if from >= text.len() || text.len() - from < 2 || text[from] != '/' {
        return None;
    }
    if text[from + 1] == '*' {
        let mut at: usize = from + 2;
        while text.len() - at >= 2
            invariant
                from + 2 <= at <= text.len(),
                comment_end(text@, from as int) == block_comment_end(text@, at as int),
            decreases text.len() - at,
        {
            if text[at] == '*' && text[at + 1] == '/' {
                return Some(at + 2);
            }
            at = at + 1;
        }
        None
    } else if text[from + 1] == '/' {
        let mut at: usize = from + 2;
        while at < text.len() && text[at] != '\n'
            invariant
                from + 2 <= at <= text.len(),
                line_end(text@, at as int) == line_end(text@, from + 2),
            decreases text.len() - at,
        {
            at = at + 1;
        }
        Some(at)
    } else {
        None
    }
}

/// The end of the string literal whose body starts at `from`: the place after
/// the first `"` that no backslash precedes.
pub open spec fn string_end(text: Seq<char>, from: int) -> Option<int>
    decreases text.len() - from,
{
    if from < 0 || from >= text.len() {
        None
    } else if text[from] == '"' {
        Some(from + 1)
    } else if text[from] == '\\' {
        if from + 1 < text.len() {
            string_end(text, from + 2)
        } else {
            None
        }
    } else {
        string_end(text, from + 1)
    }
}

/// Finds the end of the string literal whose body starts at `from`.
pub fn find_string_end(text: &Vec<char>, from: usize) -> (found: Option<usize>)
    requires
        from <= text.len(),
    ensures
        match string_end(text@, from as int) {
            Some(end) => found == Some(end as usize) && from < end <= text.len(),
            None => found is None,
        },
{
    let mut at: usize = from;
    while at < text.len()
        invariant
            from <= at <= text.len(),
            string_end(text@, at as int) == string_end(text@, from as int),
        decreases text.len() - at,
    {
        if text[at] == '"' {
            return Some(at + 1);
        } else if text[at] == '\\' {
            if text.len() - at < 2 {
                return None;
            }
            at = at + 2;
        } else {
            at = at + 1;
        }
    }
    None
}

/// The lexeme that starts at `from`, with its length: a string literal, else
/// an integer literal, else a keyword or an identifier, else a symbol.
pub open spec fn lexeme_at(text: Seq<char>, from: int) -> Option<(LexemeView, nat)> {
    if from < 0 || from >= text.len() {
        None
    } else if text[from] == '"' && string_end(text, from + 1) is Some {
        let end = string_end(text, from + 1)->0;
        Some(
            (
                LexemeView::Literal(LiteralView::String(text.subrange(from, end))),
                (end - from) as nat,
            ),
        )
    } else if text[from] == '0' && from + 1 < text.len() && text[from + 1] == 'x'
        && run_end(text, from + 2, Class::HexDigit) > from + 2 {
        let end = run_end(text, from + 2, Class::HexDigit);
        Some(
            (
                LexemeView::Literal(LiteralView::Integer(text.subrange(from, end))),
                (end - from) as nat,
            ),
        )
    } else if Class::Digit.holds(text[from]) {
        let end = run_end(text, from, Class::Digit);
        Some(
            (
                LexemeView::Literal(LiteralView::Integer(text.subrange(from, end))),
                (end - from) as nat,
            ),
        )
    } else if Class::IdentifierStart.holds(text[from]) {
        let end = run_end(text, from + 1, Class::IdentifierPart);
        let word = text.subrange(from, end);
        match keyword_of(word) {
            Some(keyword) => Some((LexemeView::Keyword(keyword), (end - from) as nat)),
            None => Some((LexemeView::Identifier(word), (end - from) as nat)),
        }
    } else {
        match symbol_at(text, from) {
            Some((symbol, length)) => Some((LexemeView::Symbol(symbol), length)),
            None => None,
        }
    }
}

/// Appends `c` to `text`. This is `String::push` of the standard library,
/// which puts the character at the end of the string and leaves the rest.
#[verifier::external_body]
fn push_char(text: &mut String, c: char)
    ensures
        final(text)@ == old(text)@.push(c),
{
    text.push(c);
}

/// The characters of `text` from `from` up to `to`, as a string.
pub fn slice_text(text: &Vec<char>, from: usize, to: usize) -> (slice: String)
    requires
        from <= to <= text.len(),
    ensures
        slice@ == text@.subrange(from as int, to as int),
{
    let mut slice = String::new();
    let mut at: usize = from;
    while at < to
        invariant
            from <= at <= to <= text.len(),
            slice@ == text@.subrange(from as int, at as int),
        decreases to - at,
    {
        push_char(&mut slice, text[at]);
        assert(text@.subrange(from as int, at + 1) =~= text@.subrange(from as int, at as int).push(
            text@[at as int],
        ));
        at = at + 1;
    }
    slice
}

impl Keyword {
    /// The keyword as a string.
    pub fn text(self) -> (text: String)
        ensures
            text@ == self.spelling(),
    {
        let letters = self.letters();
        let text = slice_text(&letters, 0, letters.len());
        assert(letters@.subrange(0, letters@.len() as int) =~= letters@);
        text
    }
}

/// Reads the lexeme that starts at `from`, with its length.
pub fn scan_lexeme(text: &Vec<char>, from: usize) -> (found: Option<(Lexeme, usize)>)
    requires
        from <= text.len(),
    ensures
        match lexeme_at(text@, from as int) {
            Some((lexeme, length)) => found matches Some((read, taken)) && read@ == lexeme
                && taken == length && 0 < length && from + length <= text.len(),
            None => found is None,
        },
{
    if from >= text.len() {
        return None;
    }
    let c = text[from];
    if c == '"' {
        if let Some(end) = find_string_end(text, from + 1) {
            return Some((Lexeme::Literal(Literal::String(slice_text(text, from, end))), end - from));
        }
    }
    if c == '0' && text.len() - from >= 2 && text[from + 1] == 'x' {
        let end = scan_run(text, from + 2, Class::HexDigit);
        if end > from + 2 {
            return Some(
                (Lexeme::Literal(Literal::Integer(slice_text(text, from, end))), end - from),
            );
        }
    }
    if Class::Digit.contains(c) {
        let end = scan_run(text, from + 1, Class::Digit);
        Some((Lexeme::Literal(Literal::Integer(slice_text(text, from, end))), end - from))
    } else if Class::IdentifierStart.contains(c) {
        let end = scan_run(text, from + 1, Class::IdentifierPart);
        match find_keyword(text, from, end) {
            Some(keyword) => Some((Lexeme::Keyword(keyword), end - from)),
            None => Some((Lexeme::Identifier(slice_text(text, from, end)), end - from)),
        }
    } else {
        match find_symbol(text, from) {
            Some((symbol, length)) => Some((Lexeme::Symbol(symbol), length)),
            None => None,
        }
    }
}

/// The keywords are reserved: a word that spells a keyword is read as that
/// keyword, never as an identifier.
pub proof fn lemma_keywords_reserved(text: Seq<char>, from: int)
    ensures
        lexeme_at(text, from) matches Some((LexemeView::Identifier(word), _)) ==> keyword_of(word)
            is None,
{
}

} // verus!
