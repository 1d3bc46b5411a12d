//! Tokens and the tokenizer.

use vstd::prelude::*;

verus! {

/// One lexical unit of the language.
#[derive(Debug, PartialEq)]
pub enum Token {
    Number(i64),
    String(String),
    Other(String),
    Bool(bool),
    Plus,
    Dash,
    Star,
    Slash,
    LeftParen,
    RightParen,
    LeftBracket,
    RightBracket,
    Dot,
    Semicolon,
    Equal,
    EqualEqual,
    NotEqual,
    More,
    Less,
    EqualMore,
    EqualLess,
    While,
    For,
    Repeat,
    If,
    Elseif,
    Else,
    Eof,
}

/// The mathematical value of a [`Token`]: text is a sequence of characters.
pub enum SpecToken {
    Number(i64),
    String(Seq<char>),
    Other(Seq<char>),
    Bool(bool),
    Plus,
    Dash,
    Star,
    Slash,
    LeftParen,
    RightParen,
    LeftBracket,
    RightBracket,
    Dot,
    Semicolon,
    Equal,
    EqualEqual,
    NotEqual,
    More,
    Less,
    EqualMore,
    EqualLess,
    While,
    For,
    Repeat,
    If,
    Elseif,
    Else,
    Eof,
}

impl View for Token {
    type V = SpecToken;

    open spec fn view(&self) -> SpecToken {
        match self {
            Token::Number(n) => SpecToken::Number(*n),
            Token::String(s) => SpecToken::String(s@),
            Token::Other(s) => SpecToken::Other(s@),
            Token::Bool(b) => SpecToken::Bool(*b),
            Token::Plus => SpecToken::Plus,
            Token::Dash => SpecToken::Dash,
            Token::Star => SpecToken::Star,
            Token::Slash => SpecToken::Slash,
            Token::LeftParen => SpecToken::LeftParen,
            Token::RightParen => SpecToken::RightParen,
            Token::LeftBracket => SpecToken::LeftBracket,
            Token::RightBracket => SpecToken::RightBracket,
            Token::Dot => SpecToken::Dot,
            Token::Semicolon => SpecToken::Semicolon,
            Token::Equal => SpecToken::Equal,
            Token::EqualEqual => SpecToken::EqualEqual,
            Token::NotEqual => SpecToken::NotEqual,
            Token::More => SpecToken::More,
            Token::Less => SpecToken::Less,
            Token::EqualMore => SpecToken::EqualMore,
            Token::EqualLess => SpecToken::EqualLess,
            Token::While => SpecToken::While,
            Token::For => SpecToken::For,
            Token::Repeat => SpecToken::Repeat,
            Token::If => SpecToken::If,
            Token::Elseif => SpecToken::Elseif,
            Token::Else => SpecToken::Else,
            Token::Eof => SpecToken::Eof,
        }
    }
}

/// A token together with the 1-based source line it came from.
#[derive(Debug, PartialEq)]
pub struct Tokens {
    pub token: Token,
    pub line: u64,
}

/// The mathematical value of a [`Tokens`].
pub struct SpecTokens {
    pub token: SpecToken,
    pub line: u64,
}

impl View for Tokens {
    type V = SpecTokens;

    open spec fn view(&self) -> SpecTokens {
        SpecTokens { token: self.token@, line: self.line }
    }
}

impl Clone for Token {
    fn clone(&self) -> (copy: Self)
        ensures
            copy@ == self@,
    {
        match self {
            Token::Number(n) => Token::Number(*n),
            Token::String(text) => Token::String(text.clone()),
            Token::Other(text) => Token::Other(text.clone()),
            Token::Bool(b) => Token::Bool(*b),
            Token::Plus => Token::Plus,
            Token::Dash => Token::Dash,
            Token::Star => Token::Star,
            Token::Slash => Token::Slash,
            Token::LeftParen => Token::LeftParen,
            Token::RightParen => Token::RightParen,
            Token::LeftBracket => Token::LeftBracket,
            Token::RightBracket => Token::RightBracket,
            Token::Dot => Token::Dot,
            Token::Semicolon => Token::Semicolon,
            Token::Equal => Token::Equal,
            Token::EqualEqual => Token::EqualEqual,
            Token::NotEqual => Token::NotEqual,
            Token::More => Token::More,
            Token::Less => Token::Less,
            Token::EqualMore => Token::EqualMore,
            Token::EqualLess => Token::EqualLess,
            Token::While => Token::While,
            Token::For => Token::For,
            Token::Repeat => Token::Repeat,
            Token::If => Token::If,
            Token::Elseif => Token::Elseif,
            Token::Else => Token::Else,
            Token::Eof => Token::Eof,
        }
    }
}

impl Clone for Tokens {
    fn clone(&self) -> (copy: Self)
        ensures
            copy@ == self@,
    {
        Tokens { token: self.token.clone(), line: self.line }
    }
}

impl Tokens {
    /// The token `token` on line `line`.
    pub fn new(token: Token, line: u64) -> (tokens: Self)
        ensures
            tokens.token == token,
            tokens.line == line,
    {
        Self { token, line }
    }
}

/// The view of a token vector, element by element.
pub open spec fn stream_view(tokens: Seq<Tokens>) -> Seq<SpecTokens> {
    tokens.map_values(|t: Tokens| t@)
}

/// The reserved characters: punctuation, in its ASCII and its full-width forms, the
/// double quote, the space and the line break.
pub open spec fn is_reserved_char(ch: char) -> bool {
    ch == '(' || ch == ')' || ch == '+' || ch == '-' || ch == '*' || ch == '/' || ch == '"'
        || ch == ' ' || ch == '\n' || ch == '.' || ch == ';' || ch == '=' || ch == '；'
        || ch == '。' || ch == '、' || ch == '”' || ch == '’' || ch == '{' || ch == '}'
}

/// The characters with the Unicode property White_Space.
pub open spec fn is_whitespace_char(ch: char) -> bool {
    let code = ch as int;
    (0x09 <= code <= 0x0D) || code == 0x20 || code == 0x85 || code == 0xA0 || code == 0x1680
        || (0x2000 <= code <= 0x200A) || code == 0x2028 || code == 0x2029 || code == 0x202F
        || code == 0x205F || code == 0x3000
}

/// The ASCII decimal digits.
pub open spec fn is_digit_char(ch: char) -> bool {
    '0' <= ch <= '9'
}

/// The token of a character that is a token by itself.
pub open spec fn single_char_token(ch: char) -> Option<SpecToken> {
    if ch == '(' {
        Some(SpecToken::LeftParen)
    } else if ch == ')' {
        Some(SpecToken::RightParen)
    } else if ch == '{' {
        Some(SpecToken::LeftBracket)
    } else if ch == '}' {
        Some(SpecToken::RightBracket)
    } else if ch == '+' {
        Some(SpecToken::Plus)
    } else if ch == '-' {
        Some(SpecToken::Dash)
    } else if ch == '*' {
        Some(SpecToken::Star)
    } else if ch == '/' {
        Some(SpecToken::Slash)
    } else if ch == '。' || ch == '.' {
        Some(SpecToken::Dot)
    } else if ch == ';' || ch == '；' {
        Some(SpecToken::Semicolon)
    } else if ch == '=' {
        Some(SpecToken::Equal)
    } else {
        None
    }
}

/// The token of an identifier run: a keyword, a boolean literal, or the run itself.
pub open spec fn word_token(word: Seq<char>) -> SpecToken {
    if word == "true"@ {
        SpecToken::Bool(true)
    } else if word == "false"@ {
        SpecToken::Bool(false)
    } else if word == "while"@ {
        SpecToken::While
    } else if word == "repeat"@ {
        SpecToken::Repeat
    } else if word == "if"@ {
        SpecToken::If
    } else if word == "else"@ {
        SpecToken::Else
    } else {
        SpecToken::Other(word)
    }
}

/// The number that a sequence of decimal digits denotes.
pub open spec fn decimal_value(digits: Seq<char>) -> nat
    decreases digits.len(),
{
    if digits.len() == 0 {
        0
    } else {
        (decimal_value(digits.drop_last()) * 10 + (digits.last() as int - '0' as int)) as nat
    }
}

/// The first position at or after `pos` that holds no digit.
pub open spec fn digits_end(text: Seq<char>, pos: int) -> int
    decreases text.len() - pos,
{
    if 0 <= pos < text.len() && is_digit_char(text[pos]) {
        digits_end(text, pos + 1)
    } else {
        pos
    }
}

/// The first position at or after `pos` that holds a double quote.
pub open spec fn quote_end(text: Seq<char>, pos: int) -> int
    decreases text.len() - pos,
{
    if 0 <= pos < text.len() && text[pos] != '"' {
        quote_end(text, pos + 1)
    } else {
        pos
    }
}

/// The first position at or after `pos` that holds a reserved character or white
/// space.
pub open spec fn word_end(text: Seq<char>, pos: int) -> int
    decreases text.len() - pos,
{
    if 0 <= pos < text.len() && !is_reserved_char(text[pos]) && !is_whitespace_char(text[pos]) {
        word_end(text, pos + 1)
    } else {
        pos
    }
}

/// The line that stands `newlines` line breaks after `line`; the counter stays at its
/// largest value once there.
pub open spec fn line_after(line: u64, newlines: nat) -> u64 {
    if line + newlines <= u64::MAX {
        (line + newlines) as u64
    } else {
        u64::MAX
    }
}

/// The line after `line`.
pub open spec fn next_line(line: u64) -> u64 {
    line_after(line, 1)
}

/// How many line breaks stand in `text` from `from` up to `to`.
pub open spec fn newlines_between(text: Seq<char>, from: int, to: int) -> nat
    decreases to - from,
{
    if from < 0 || from >= to || to > text.len() {
        0
    } else {
        newlines_between(text, from, to - 1) + if text[to - 1] == '\n' {
            1nat
        } else {
            0nat
        }
    }
}

/// `prefix` followed by the tokens of `rest`, where there are any.
pub open spec fn followed_by(
    prefix: Seq<SpecTokens>,
    rest: Option<Seq<SpecTokens>>,
) -> Option<Seq<SpecTokens>> {
    match rest {
        Some(tokens) => Some(prefix + tokens),
        None => None,
    }
}

/// `token` on `line`, followed by the tokens of `rest`.
pub open spec fn emit(
    token: SpecToken,
    line: u64,
    rest: Option<Seq<SpecTokens>>,
) -> Option<Seq<SpecTokens>> {
    followed_by(seq![SpecTokens { token, line }], rest)
}

/// The tokens of `text` from `pos` on, where `pos` stands on `line`; `None` where a
/// number literal does not fit in 64 bits.
///
/// A line break starts the next line, other white space is passed over, and a
/// character that is a token by itself gives that token. A digit from `1` to `9`
/// starts a number literal, which goes on as far as digits follow. A double quote
/// starts a string literal, which goes on up to the next double quote or the end of
/// the text and may hold line breaks. Anything else starts an identifier run, which
/// goes on up to the next reserved character or white space. Each token is on the
/// line on which it starts.
pub open spec fn lex_from(text: Seq<char>, pos: int, line: u64) -> Option<Seq<SpecTokens>>
    decreases text.len() - pos,
    via lex_from_terminates
{
    if pos < 0 || pos >= text.len() {
        Some(seq![SpecTokens { token: SpecToken::Eof, line }])
    } else {
        let ch = text[pos];
        if ch == '\n' {
            lex_from(text, pos + 1, next_line(line))
        } else if is_whitespace_char(ch) {
            lex_from(text, pos + 1, line)
        } else if single_char_token(ch) is Some {
            emit(single_char_token(ch)->0, line, lex_from(text, pos + 1, line))
        } else if '1' <= ch <= '9' {
            let end = digits_end(text, pos + 1);
            let value = decimal_value(text.subrange(pos, end));
            if value <= i64::MAX {
                emit(SpecToken::Number(value as i64), line, lex_from(text, end, line))
            } else {
                None
            }
        } else if ch == '"' {
            let end = quote_end(text, pos + 1);
            let after = if end < text.len() {
                end + 1
            } else {
                end
            };
            emit(
                SpecToken::String(text.subrange(pos + 1, end)),
                line,
                lex_from(text, after, line_after(line, newlines_between(text, pos + 1, end))),
            )
        } else {
            let end = word_end(text, pos + 1);
            emit(word_token(text.subrange(pos, end)), line, lex_from(text, end, line))
        }
    }
}

#[via_fn]
proof fn lex_from_terminates(text: Seq<char>, pos: int, line: u64) {
    if 0 <= pos < text.len() {
        lemma_ends_in_range(text, pos + 1);
    }
}

/// The token stream of `text`: its tokens in order, each with its line, closed by one
/// end-of-input token.
pub open spec fn tokenize_spec(text: Seq<char>) -> Option<Seq<SpecTokens>> {
    lex_from(text, 0, 1)
}

/// Every position from `pos` up to a run's end lies inside the text.
proof fn lemma_ends_in_range(text: Seq<char>, pos: int)
    requires
        0 <= pos <= text.len(),
    ensures
        pos <= digits_end(text, pos) <= text.len(),
        pos <= quote_end(text, pos) <= text.len(),
        pos <= word_end(text, pos) <= text.len(),
    decreases text.len() - pos,
{
    if pos < text.len() {
        lemma_ends_in_range(text, pos + 1);
    }
}

/// The characters of a string slice, in order.
fn chars_of(input: &str) -> (chars: Vec<char>)
    ensures
        chars@ == input@,
{
    let mut chars: Vec<char> = Vec::new();
    for c in it: input.chars()
        invariant
            chars@ == it.seq().take(it.index()),
    {
        chars.push(c);
    }
    chars
}

/// Whether `ch` is a reserved character.
pub fn is_reserved(ch: char) -> (reserved: bool)
    ensures
        reserved == is_reserved_char(ch),
{
    ch == '(' || ch == ')' || ch == '+' || ch == '-' || ch == '*' || ch == '/' || ch == '"'
        || ch == ' ' || ch == '\n' || ch == '.' || ch == ';' || ch == '=' || ch == '；'
        || ch == '。' || ch == '、' || ch == '”' || ch == '’' || ch == '{' || ch == '}'
}

/// Whether `ch` is white space.
fn is_whitespace(ch: char) -> (white: bool)
    ensures
        white == is_whitespace_char(ch),
{
    let code: u32 = ch as u32;
    (0x09 <= code && code <= 0x0D) || code == 0x20 || code == 0x85 || code == 0xA0 || code
        == 0x1680 || (0x2000 <= code && code <= 0x200A) || code == 0x2028 || code == 0x2029
        || code == 0x202F || code == 0x205F || code == 0x3000
}

/// Whether `ch` is a decimal digit.
fn is_digit(ch: char) -> (digit: bool)
    ensures
        digit == is_digit_char(ch),
{
    ch >= '0' && ch <= '9'
}

/// Whether `word` reads `literal`.
pub(crate) fn reads(word: &String, literal: &str) -> (same: bool)
    ensures
        same == (word@ == literal@),
{
    let other = literal.to_owned();
    *word == other
}

/// The token of an identifier run.
fn classify_word(word: String) -> (token: Token)
    ensures
        token@ == word_token(word@),
{
    if reads(&word, "true") {
        Token::Bool(true)
    } else if reads(&word, "false") {
        Token::Bool(false)
    } else if reads(&word, "while") {
        Token::While
    } else if reads(&word, "repeat") {
        Token::Repeat
    } else if reads(&word, "if") {
        Token::If
    } else if reads(&word, "else") {
        Token::Else
    } else {
        Token::Other(word)
    }
}

/// The token of a character that is a token by itself.
fn classify_char(ch: char) -> (token: Option<Token>)
    ensures
        match token {
            Some(t) => single_char_token(ch) == Some(t@),
            None => single_char_token(ch) is None,
        },
{
    if ch == '(' {
        Some(Token::LeftParen)
    } else if ch == ')' {
        Some(Token::RightParen)
    } else if ch == '{' {
        Some(Token::LeftBracket)
    } else if ch == '}' {
        Some(Token::RightBracket)
    } else if ch == '+' {
        Some(Token::Plus)
    } else if ch == '-' {
        Some(Token::Dash)
    } else if ch == '*' {
        Some(Token::Star)
    } else if ch == '/' {
        Some(Token::Slash)
    } else if ch == '。' || ch == '.' {
        Some(Token::Dot)
    } else if ch == ';' || ch == '；' {
        Some(Token::Semicolon)
    } else if ch == '=' {
        Some(Token::Equal)
    } else {
        None
    }
}

/// A run of digits is made of digits.
proof fn lemma_digits_run(text: Seq<char>, pos: int)
    requires
        0 <= pos <= text.len(),
    ensures
        forall|k: int| pos <= k < digits_end(text, pos) ==> is_digit_char(#[trigger] text[k]),
    decreases text.len() - pos,
{
    if pos < text.len() && is_digit_char(text[pos]) {
        lemma_digits_run(text, pos + 1);
    }
}

/// One more digit multiplies the value by ten and adds the digit.
proof fn lemma_decimal_step(text: Seq<char>, start: int, end: int)
    requires
        0 <= start <= end < text.len(),
    ensures
        decimal_value(text.subrange(start, end + 1)) == (decimal_value(text.subrange(start, end))
            * 10 + (text[end] as int - '0' as int)) as nat,
{
    assert(text.subrange(start, end + 1).drop_last() =~= text.subrange(start, end));
}

/// A longer run of digits denotes a number that is no smaller.
proof fn lemma_decimal_grows(text: Seq<char>, start: int, mid: int, end: int)
    requires
        0 <= start <= mid <= end <= text.len(),
        forall|k: int| start <= k < end ==> is_digit_char(#[trigger] text[k]),
    ensures
        decimal_value(text.subrange(start, mid)) <= decimal_value(text.subrange(start, end)),
    decreases end - mid,
{
    if mid < end {
        lemma_decimal_grows(text, start, mid, end - 1);
        lemma_decimal_step(text, start, end - 1);
        assert(is_digit_char(text[end - 1]));
    }
}

/// Reads the number literal whose first digit stands at `start`: its value, where it
/// fits, and the position after its last digit.
fn scan_number(chars: &Vec<char>, start: usize) -> (found: Option<(i64, usize)>)
    requires
        start < chars.len(),
        '1' <= chars[start as int] <= '9',
    ensures
        match found {
            Some((value, end)) => {
                &&& end == digits_end(chars@, start + 1)
                &&& start < end <= chars.len()
                &&& value == decimal_value(chars@.subrange(start as int, end as int))
            },
            None => decimal_value(
                chars@.subrange(start as int, digits_end(chars@, start + 1)),
            ) > i64::MAX,
        },
{
    let mut value: i64 = 0;
    let mut end: usize = start;
    proof {
        lemma_ends_in_range(chars@, start + 1);
        lemma_digits_run(chars@, start + 1);
    }
    while end < chars.len() && is_digit(chars[end])
        invariant
            start <= end <= chars.len(),
            start < chars.len(),
            '1' <= chars[start as int] <= '9',
            0 <= value,
            value == decimal_value(chars@.subrange(start as int, end as int)),
            digits_end(chars@, start + 1) <= chars.len(),
            digits_end(chars@, end as int) == digits_end(chars@, start + 1),
            forall|k: int|
                start + 1 <= k < digits_end(chars@, start + 1) ==> is_digit_char(
                    #[trigger] chars@[k],
                ),
        decreases chars.len() - end,
    {
        let digit: i128 = (chars[end] as u32 - '0' as u32) as i128;
        let wide: i128 = value as i128 * 10 + digit;
        proof {
            lemma_decimal_step(chars@, start as int, end as int);
            lemma_ends_in_range(chars@, end + 1);
        }
        if wide > i64::MAX as i128 {
            proof {
                lemma_decimal_grows(
                    chars@,
                    start as int,
                    end + 1,
                    digits_end(chars@, start + 1),
                );
            }
            return None;
        }
        value = wide as i64;
        end = end + 1;
    }
    Some((value, end))
}

/// The position of the first double quote at or after `start`, and the line that
/// stands there where `start` stands on `line`.
fn scan_quote(chars: &Vec<char>, start: usize, line: u64) -> (found: (usize, u64))
    requires
        start <= chars.len(),
    ensures
        found.0 == quote_end(chars@, start as int),
        start <= found.0 <= chars.len(),
        found.1 == line_after(line, newlines_between(chars@, start as int, found.0 as int)),
{
    let mut end: usize = start;
    let mut now: u64 = line;
    while end < chars.len() && chars[end] != '"'
        invariant
            start <= end <= chars.len(),
            quote_end(chars@, end as int) == quote_end(chars@, start as int),
            now == line_after(line, newlines_between(chars@, start as int, end as int)),
        decreases chars.len() - end,
    {
        if chars[end] == '\n' && now < u64::MAX {
            now = now + 1;
        }
        end = end + 1;
    }
    (end, now)
}

/// The position of the first reserved character or white space at or after `start`.
fn scan_word(chars: &Vec<char>, start: usize) -> (end: usize)
    requires
        start <= chars.len(),
    ensures
        end == word_end(chars@, start as int),
        start <= end <= chars.len(),
{
    let mut end: usize = start;
    while end < chars.len() && !is_reserved(chars[end]) && !is_whitespace(chars[end])
        invariant
            start <= end <= chars.len(),
            word_end(chars@, end as int) == word_end(chars@, start as int),
        decreases chars.len() - end,
    {
        end = end + 1;
    }
    end
}

/// Adds `token` on `line` to the stream.
fn push_token(tokens: &mut Vec<Tokens>, token: Token, line: u64)
    ensures
        stream_view(final(tokens)@) == stream_view(old(tokens)@).push(
            SpecTokens { token: token@, line },
        ),
{
    tokens.push(Tokens::new(token, line));
    assert(stream_view(tokens@) =~= stream_view(old(tokens)@).push(
        SpecTokens { token: token@, line },
    ));
}

/// A token moves from the front of what follows to the end of what came before.
proof fn lemma_followed_by_push(
    prefix: Seq<SpecTokens>,
    token: SpecTokens,
    rest: Option<Seq<SpecTokens>>,
)
    ensures
        followed_by(prefix.push(token), rest) == followed_by(
            prefix,
            followed_by(seq![token], rest),
        ),
{
    if let Some(tokens) = rest {
        assert(prefix.push(token) + tokens =~= prefix + (seq![token] + tokens));
    }
}

/// The characters of `text` from `from` up to `to`, as a string. Text that is all
/// ASCII is cut at byte positions; other text is walked from its start.
fn slice_text(text: &str, ascii: bool, from: usize, to: usize) -> (piece: String)
    requires
        from <= to <= text@.len(),
        ascii ==> text.is_ascii(),
    ensures
        piece@ == text@.subrange(from as int, to as int),
{
    if ascii {
        text.substring_ascii(from, to).to_owned()
    } else {
        text.substring_char(from, to).to_owned()
    }
}

/// Turns source text into its token stream, or `None` where a number literal does not
/// fit in 64 bits.
pub fn try_tokenizer(input: String) -> (tokens: Option<Vec<Tokens>>)
    ensures
        match tokens {
            Some(stream) => tokenize_spec(input@) == Some(stream_view(stream@)),
            None => tokenize_spec(input@) is None,
        },
{
    let text = input.as_str();
    let chars = chars_of(text);
    let ascii = text.is_ascii();
    let mut tokens: Vec<Tokens> = Vec::new();
    let mut pos: usize = 0;
    let mut line: u64 = 1;
    assert(stream_view(tokens@) + lex_from(chars@, 0, 1)->0 =~= lex_from(chars@, 0, 1)->0);
    while pos < chars.len()
        invariant
            chars@ == input@,
            text@ == input@,
            ascii ==> text.is_ascii(),
            pos <= chars.len(),
            lex_from(chars@, 0, 1) == followed_by(
                stream_view(tokens@),
                lex_from(chars@, pos as int, line),
            ),
        decreases chars.len() - pos,
    {
        let ch = chars[pos];
        let ghost before = stream_view(tokens@);
        proof {
            lemma_ends_in_range(chars@, pos + 1);
        }
        if ch == '\n' {
            if line < u64::MAX {
                line = line + 1;
            }
            pos = pos + 1;
        } else if is_whitespace(ch) {
            pos = pos + 1;
        } else if let Some(token) = classify_char(ch) {
            proof {
                lemma_followed_by_push(
                    before,
                    SpecTokens { token: token@, line },
                    lex_from(chars@, pos + 1, line),
                );
            }
            push_token(&mut tokens, token, line);
            pos = pos + 1;
        } else if ch >= '1' && ch <= '9' {
            match scan_number(&chars, pos) {
                Some((value, end)) => {
                    proof {
                        lemma_followed_by_push(
                            before,
                            SpecTokens { token: SpecToken::Number(value), line },
                            lex_from(chars@, end as int, line),
                        );
                    }
                    push_token(&mut tokens, Token::Number(value), line);
                    pos = end;
                },
                None => {
                    return None;
                },
            }
        } else if ch == '"' {
            let (end, line_behind) = scan_quote(&chars, pos + 1, line);
            let content = slice_text(text, ascii, pos + 1, end);
            let after = if end < chars.len() {
                end + 1
            } else {
                end
            };
            proof {
                lemma_followed_by_push(
                    before,
                    SpecTokens { token: SpecToken::String(content@), line },
                    lex_from(chars@, after as int, line_behind),
                );
            }
            push_token(&mut tokens, Token::String(content), line);
            line = line_behind;
            pos = after;
        } else {
            let end = scan_word(&chars, pos + 1);
            let word = slice_text(text, ascii, pos, end);
            let token = classify_word(word);
            proof {
                lemma_followed_by_push(
                    before,
                    SpecTokens { token: token@, line },
                    lex_from(chars@, end as int, line),
                );
            }
            push_token(&mut tokens, token, line);
            pos = end;
        }
    }
    push_token(&mut tokens, Token::Eof, line);
    Some(tokens)
}

/// Turns source text into its token stream: the tokens in order, each with the line it
/// stands on, closed by one end-of-input token.
pub fn tokenizer(input: String) -> (tokens: Vec<Tokens>)
    requires
        tokenize_spec(input@) is Some,
    ensures
        tokenize_spec(input@) == Some(stream_view(tokens@)),
{
    match try_tokenizer(input) {
        Some(tokens) => tokens,
        None => vstd::pervasive::unreached(),
    }
}

/// Whether a token stream ends with its one end-of-input token, and its lines start
/// at `first_line` or later and never go back.
pub open spec fn well_formed_stream(tokens: Seq<SpecTokens>, first_line: u64) -> bool {
    &&& tokens.len() >= 1
    &&& tokens.last().token is Eof
    &&& forall|i: int| 0 <= i < tokens.len() - 1 ==> !((#[trigger] tokens[i]).token is Eof)
    &&& forall|i: int| 0 <= i < tokens.len() ==> first_line <= (#[trigger] tokens[i]).line
    &&& forall|i: int, j: int|
        0 <= i <= j < tokens.len() ==> (#[trigger] tokens[i]).line <= (#[trigger] tokens[j]).line
}

/// A token that is not the end of input, on a line that is not later than any of a
/// well-formed stream, stands in front of it in a well-formed stream.
proof fn lemma_emit_shape(token: SpecToken, line: u64, rest: Seq<SpecTokens>)
    requires
        !(token is Eof),
        well_formed_stream(rest, line),
    ensures
        well_formed_stream(seq![SpecTokens { token, line }] + rest, line),
{
    let first = SpecTokens { token, line };
    let all = seq![first] + rest;
    assert(all.last() == rest.last());
    assert forall|i: int| 0 <= i < all.len() - 1 implies !((#[trigger] all[i]).token is Eof) by {
        if i > 0 {
            assert(all[i] == rest[i - 1]);
        }
    }
    assert forall|i: int| 0 <= i < all.len() implies line <= (#[trigger] all[i]).line by {
        if i > 0 {
            assert(all[i] == rest[i - 1]);
        }
    }
    assert forall|i: int, j: int| 0 <= i <= j < all.len() implies (#[trigger] all[i]).line <= (
    #[trigger] all[j]).line by {
        if i > 0 {
            assert(all[i] == rest[i - 1]);
            assert(all[j] == rest[j - 1]);
        } else if j > 0 {
            assert(all[j] == rest[j - 1]);
        }
    }
}

/// The tokens from a position on make a well-formed stream.
proof fn lemma_lex_from_shape(text: Seq<char>, pos: int, line: u64)
    ensures
        lex_from(text, pos, line) matches Some(tokens) ==> well_formed_stream(tokens, line),
    decreases text.len() - pos,
{
    if 0 <= pos < text.len() {
        let ch = text[pos];
        lemma_ends_in_range(text, pos + 1);
        if ch == '\n' {
            lemma_lex_from_shape(text, pos + 1, next_line(line));
        } else if is_whitespace_char(ch) {
            lemma_lex_from_shape(text, pos + 1, line);
        } else if single_char_token(ch) is Some {
            lemma_lex_from_shape(text, pos + 1, line);
            if let Some(rest) = lex_from(text, pos + 1, line) {
                lemma_emit_shape(single_char_token(ch)->0, line, rest);
            }
        } else if '1' <= ch <= '9' {
            let end = digits_end(text, pos + 1);
            let value = decimal_value(text.subrange(pos, end));
            lemma_lex_from_shape(text, end, line);
            if let Some(rest) = lex_from(text, end, line) {
                if value <= i64::MAX {
                    lemma_emit_shape(SpecToken::Number(value as i64), line, rest);
                }
            }
        } else if ch == '"' {
            let end = quote_end(text, pos + 1);
            let after = if end < text.len() {
                end + 1
            } else {
                end
            };
            let behind = line_after(line, newlines_between(text, pos + 1, end));
            lemma_lex_from_shape(text, after, behind);
            if let Some(rest) = lex_from(text, after, behind) {
                lemma_emit_shape(SpecToken::String(text.subrange(pos + 1, end)), line, rest);
            }
        } else {
            let end = word_end(text, pos + 1);
            lemma_lex_from_shape(text, end, line);
            if let Some(rest) = lex_from(text, end, line) {
                lemma_emit_shape(word_token(text.subrange(pos, end)), line, rest);
            }
        }
    }
}

/// The token stream of any text ends with its one end-of-input token, and its lines
/// start at 1 and never go back.
pub proof fn token_stream_shape(text: Seq<char>)
    ensures
        tokenize_spec(text) matches Some(tokens) ==> well_formed_stream(tokens, 1),
{
    lemma_lex_from_shape(text, 0, 1);
}

/// The character of a decimal digit.
pub open spec fn digit_char(digit: nat) -> char {
    if digit == 0 {
        '0'
    } else if digit == 1 {
        '1'
    } else if digit == 2 {
        '2'
    } else if digit == 3 {
        '3'
    } else if digit == 4 {
        '4'
    } else if digit == 5 {
        '5'
    } else if digit == 6 {
        '6'
    } else if digit == 7 {
        '7'
    } else if digit == 8 {
        '8'
    } else {
        '9'
    }
}

/// The decimal text of a number, without leading zeros.
pub open spec fn decimal_text(n: nat) -> Seq<char>
    decreases n,
{
    if n < 10 {
        seq![digit_char(n)]
    } else {
        decimal_text(n / 10).push(digit_char(n % 10))
    }
}

/// A number's decimal text is made of digits, starts with none but `1` to `9` unless
/// the number is zero, and denotes the number.
pub proof fn lemma_decimal_text(n: nat)
    ensures
        decimal_text(n).len() >= 1,
        forall|i: int| 0 <= i < decimal_text(n).len() ==> is_digit_char(#[trigger] decimal_text(n)[i]),
        n >= 1 ==> '1' <= decimal_text(n)[0] <= '9',
        decimal_value(decimal_text(n)) == n,
    decreases n,
{
    if n < 10 {
        assert(decimal_text(n).drop_last() =~= Seq::<char>::empty());
        assert(decimal_value(decimal_text(n).drop_last()) == 0);
        assert(decimal_text(n).last() == digit_char(n));
    } else {
        lemma_decimal_text(n / 10);
        assert(decimal_text(n).drop_last() =~= decimal_text(n / 10));
        assert(decimal_text(n).last() == digit_char(n % 10));
        assert(decimal_text(n)[0] == decimal_text(n / 10)[0]);
    }
}

/// The decimal text of an integer: a minus sign in front of a negative one.
pub open spec fn signed_decimal_text(n: int) -> Seq<char> {
    if n < 0 {
        seq!['-'] + decimal_text((-n) as nat)
    } else {
        decimal_text(n as nat)
    }
}

/// The text of one decimal digit.
fn digit_text(digit: u64) -> (text: &'static str)
    requires
        digit < 10,
    ensures
        text@ == seq![digit_char(digit as nat)],
{
    proof {
        reveal_strlit("0");
        reveal_strlit("1");
        reveal_strlit("2");
        reveal_strlit("3");
        reveal_strlit("4");
        reveal_strlit("5");
        reveal_strlit("6");
        reveal_strlit("7");
        reveal_strlit("8");
        reveal_strlit("9");
    }
    let text = if digit == 0 {
        "0"
    } else if digit == 1 {
        "1"
    } else if digit == 2 {
        "2"
    } else if digit == 3 {
        "3"
    } else if digit == 4 {
        "4"
    } else if digit == 5 {
        "5"
    } else if digit == 6 {
        "6"
    } else if digit == 7 {
        "7"
    } else if digit == 8 {
        "8"
    } else {
        "9"
    };
    assert(text@ =~= seq![digit_char(digit as nat)]);
    text
}

/// Writes an integer in decimal.
pub fn decimal_string(n: i64) -> (text: String)
    ensures
        text@ == signed_decimal_text(n as int),
{
    let magnitude: u64 = if n < 0 {
        (-(n as i128)) as u64
    } else {
        n as u64
    };
    let mut text = String::new();
    let mut rest: u64 = magnitude;
    if rest == 0 {
        return digit_text(0).to_owned();
    }
    assert(decimal_text(rest as nat) + text@ =~= decimal_text(rest as nat));
    while rest > 0
        invariant
            rest > 0 ==> decimal_text(magnitude as nat) == decimal_text(rest as nat) + text@,
            rest == 0 ==> decimal_text(magnitude as nat) == text@,
        decreases rest,
    {
        let digit = digit_text(rest % 10);
        let ghost before = text@;
        text = digit.to_owned().concat(text.as_str());
        proof {
            if rest >= 10 {
                assert(decimal_text((rest / 10) as nat).push(digit_char((rest % 10) as nat)) + before
                    =~= decimal_text((rest / 10) as nat) + text@);
            }
        }
        rest = rest / 10;
    }
    if n < 0 {
        proof {
            reveal_strlit("-");
            assert("-"@ =~= seq!['-']);
        }
        text = "-".to_owned().concat(text.as_str());
    }
    text
}

/// The line that describes a token: a literal with its kind and its value, every
/// other token by its spelling, the end of input in words.
pub open spec fn token_text(token: SpecToken) -> Seq<char> {
    match token {
        SpecToken::Number(n) => "Number: "@ + signed_decimal_text(n as int),
        SpecToken::String(text) => "String: "@ + text,
        SpecToken::Other(text) => "Other: "@ + text,
        SpecToken::Bool(b) => "Bool: "@ + (if b {
            "true"@
        } else {
            "false"@
        }),
        SpecToken::Plus => "+"@,
        SpecToken::Dash => "-"@,
        SpecToken::Star => "*"@,
        SpecToken::Slash => "/"@,
        SpecToken::LeftParen => "("@,
        SpecToken::RightParen => ")"@,
        SpecToken::LeftBracket => "{"@,
        SpecToken::RightBracket => "}"@,
        SpecToken::Dot => "."@,
        SpecToken::Semicolon => ";"@,
        SpecToken::Equal => "="@,
        SpecToken::EqualEqual => "=="@,
        SpecToken::NotEqual => "!="@,
        SpecToken::More => ">"@,
        SpecToken::Less => "<"@,
        SpecToken::EqualMore => ">="@,
        SpecToken::EqualLess => "<="@,
        SpecToken::While => "while"@,
        SpecToken::For => "for"@,
        SpecToken::Repeat => "repeat"@,
        SpecToken::If => "if"@,
        SpecToken::Elseif => "elseif"@,
        SpecToken::Else => "else"@,
        SpecToken::Eof => "End of file"@,
    }
}

/// Describes a token in one line.
pub fn describe_token(token: &Token) -> (text: String)
    ensures
        text@ == token_text(token@),
{
    match token {
        Token::Number(n) => "Number: ".to_owned().concat(decimal_string(*n).as_str()),
        Token::String(text) => "String: ".to_owned().concat(text.as_str()),
        Token::Other(text) => "Other: ".to_owned().concat(text.as_str()),
        Token::Bool(b) => "Bool: ".to_owned().concat(
            if *b {
                "true"
            } else {
                "false"
            },
        ),
        Token::Plus => "+".to_owned(),
        Token::Dash => "-".to_owned(),
        Token::Star => "*".to_owned(),
        Token::Slash => "/".to_owned(),
        Token::LeftParen => "(".to_owned(),
        Token::RightParen => ")".to_owned(),
        Token::LeftBracket => "{".to_owned(),
        Token::RightBracket => "}".to_owned(),
        Token::Dot => ".".to_owned(),
        Token::Semicolon => ";".to_owned(),
        Token::Equal => "=".to_owned(),
        Token::EqualEqual => "==".to_owned(),
        Token::NotEqual => "!=".to_owned(),
        Token::More => ">".to_owned(),
        Token::Less => "<".to_owned(),
        Token::EqualMore => ">=".to_owned(),
        Token::EqualLess => "<=".to_owned(),
        Token::While => "while".to_owned(),
        Token::For => "for".to_owned(),
        Token::Repeat => "repeat".to_owned(),
        Token::If => "if".to_owned(),
        Token::Elseif => "elseif".to_owned(),
        Token::Else => "else".to_owned(),
        Token::Eof => "End of file".to_owned(),
    }
}

/// The lines that describe a token stream, one for each token, in order.
pub fn dump_lines(tokens: &Vec<Tokens>) -> (lines: Vec<String>)
    ensures
        lines.len() == tokens.len(),
        forall|i: int| 0 <= i < tokens.len() ==> (#[trigger] lines@[i])@ == token_text(tokens@[i].token@),
{
    let mut lines: Vec<String> = Vec::new();
    let mut i: usize = 0;
    while i < tokens.len()
        invariant
            i <= tokens.len(),
            lines.len() == i,
            forall|j: int| 0 <= j < i ==> (#[trigger] lines@[j])@ == token_text(tokens@[j].token@),
        decreases tokens.len() - i,
    {
        lines.push(describe_token(&tokens[i].token));
        i = i + 1;
    }
    lines
}

} // verus!
