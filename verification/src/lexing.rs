//! What the tokens of a text are: the rules of scanning, as functions on the
//! text.

use vstd::prelude::*;
use crate::scanner::is_alphanumeric;
use crate::token::{Message, Token, TokenType};

verus! {

/// The character at `pos`, or the terminator `'\0'` outside the text.
pub open spec fn char_at(src: Seq<char>, pos: int) -> char {
    if 0 <= pos < src.len() {
        src[pos]
    } else {
        '\0'
    }
}

/// Input ends at the terminator, wherever it stands, and behind the text.
pub open spec fn at_end(src: Seq<char>, pos: int) -> bool {
    char_at(src, pos) == '\0'
}

/// A decimal digit.
pub open spec fn is_digit(c: char) -> bool {
    '0' <= c <= '9'
}

/// A character that can start an identifier.
pub open spec fn is_alpha(c: char) -> bool {
    ||| 'a' <= c <= 'z'
    ||| 'A' <= c <= 'Z'
    ||| c == '_'
}

/// A letter or a digit of ASCII.
pub open spec fn is_ascii_alphanumeric(c: char) -> bool {
    ||| 'a' <= c <= 'z'
    ||| 'A' <= c <= 'Z'
    ||| is_digit(c)
}

/// A character that continues an identifier: a letter or a digit. Within
/// ASCII these are spelled out; beyond it, std decides.
pub open spec fn is_identifier_part(c: char) -> bool {
    if c <= '\x7f' {
        is_ascii_alphanumeric(c)
    } else {
        is_alphanumeric(c)
    }
}

/// A character that separates tokens and is no token itself.
pub open spec fn is_blank(c: char) -> bool {
    c == ' ' || c == '\t' || c == '\r' || c == '\n'
}

/// The kinds of maximal runs that the scanner consumes.
pub enum Run {
    Digits,
    Alphanumerics,
    StringBody,
    CommentBody,
}

/// Whether `c` continues a run of the given kind.
pub open spec fn in_run(kind: Run, c: char) -> bool {
    match kind {
        Run::Digits => is_digit(c),
        Run::Alphanumerics => is_identifier_part(c),
        Run::StringBody => c != '"',
        Run::CommentBody => c != '\n',
    }
}

/// The first position at or after `pos` that ends the input or does not
/// continue the run.
pub open spec fn run_end(src: Seq<char>, pos: int, kind: Run) -> int
    decreases src.len() - pos,
{
    if pos < 0 || at_end(src, pos) || !in_run(kind, char_at(src, pos)) {
        pos
    } else {
        run_end(src, pos + 1, kind)
    }
}

/// How many newlines lie in `src[from..to]`.
pub open spec fn newlines(src: Seq<char>, from: int, to: int) -> nat
    decreases to - from,
{
    if from >= to {
        0
    } else {
        newlines(src, from, to - 1) + if char_at(src, to - 1) == '\n' {
            1nat
        } else {
            0nat
        }
    }
}

/// A run ends in the text, everything before its end continues it, and what
/// stands at its end does not.
pub proof fn lemma_run_end_bounds(src: Seq<char>, pos: int, kind: Run)
    requires
        0 <= pos <= src.len(),
    ensures
        pos <= run_end(src, pos, kind) <= src.len(),
        at_end(src, run_end(src, pos, kind)) || !in_run(kind, char_at(src, run_end(src, pos, kind))),
        forall|i: int|
            pos <= i < run_end(src, pos, kind) ==> !at_end(src, i) && in_run(kind, #[trigger] src[i]),
    decreases src.len() - pos,
{
    if at_end(src, pos) || !in_run(kind, char_at(src, pos)) {
    } else {
        lemma_run_end_bounds(src, pos + 1, kind);
    }
}

/// The position behind the blanks and line comments that start at `pos`.
pub open spec fn blank_end(src: Seq<char>, pos: int) -> int
    decreases src.len() - pos,
{
    let c = char_at(src, pos);
    if pos < 0 || c == '\0' {
        pos
    } else if is_blank(c) {
        blank_end(src, pos + 1)
    } else if c == '/' && char_at(src, pos + 1) == '/' {
        proof {
            lemma_run_end_bounds(src, pos + 1, Run::CommentBody);
        }
        blank_end(src, run_end(src, pos, Run::CommentBody))
    } else {
        pos
    }
}

/// Blanks and comments end in the text, and hold no more newlines than
/// characters.
pub proof fn lemma_blank_end_bounds(src: Seq<char>, pos: int)
    requires
        0 <= pos <= src.len(),
    ensures
        pos <= blank_end(src, pos) <= src.len(),
        newlines(src, pos, blank_end(src, pos)) <= blank_end(src, pos) - pos,
    decreases src.len() - pos,
{
    let c = char_at(src, pos);
    let e = blank_end(src, pos);
    if c == '\0' {
    } else if is_blank(c) {
        lemma_blank_end_bounds(src, pos + 1);
        lemma_newlines_bound(src, pos, e);
    } else if c == '/' && char_at(src, pos + 1) == '/' {
        lemma_run_end_bounds(src, pos + 1, Run::CommentBody);
        lemma_blank_end_bounds(src, run_end(src, pos, Run::CommentBody));
        lemma_newlines_bound(src, pos, e);
    } else {
    }
}

/// A stretch of text holds no more newlines than characters.
pub proof fn lemma_newlines_bound(src: Seq<char>, from: int, to: int)
    ensures
        from <= to ==> newlines(src, from, to) <= to - from,
        from >= to ==> newlines(src, from, to) == 0,
    decreases to - from,
{
    if from < to {
        lemma_newlines_bound(src, from, to - 1);
    }
}

/// The token kind that an identifier's text stands for: a keyword's own kind,
/// or `IDENTIFIER`.
pub open spec fn keyword_type(text: Seq<char>) -> TokenType {
    if text == "and"@ {
        TokenType::AND
    } else if text == "class"@ {
        TokenType::CLASS
    } else if text == "else"@ {
        TokenType::ELSE
    } else if text == "false"@ {
        TokenType::FALSE
    } else if text == "for"@ {
        TokenType::FOR
    } else if text == "fun"@ {
        TokenType::FUN
    } else if text == "if"@ {
        TokenType::IF
    } else if text == "nil"@ {
        TokenType::NIL
    } else if text == "or"@ {
        TokenType::OR
    } else if text == "print"@ {
        TokenType::PRINT
    } else if text == "return"@ {
        TokenType::RETURN
    } else if text == "super"@ {
        TokenType::SUPER
    } else if text == "this"@ {
        TokenType::THIS
    } else if text == "true"@ {
        TokenType::TRUE
    } else if text == "var"@ {
        TokenType::VAR
    } else if text == "while"@ {
        TokenType::WHILE
    } else {
        TokenType::IDENTIFIER
    }
}

/// The kind of the punctuation token that starts with `c`, where `followed`
/// says whether an `=` comes directly behind it.
pub open spec fn symbol_type(c: char, followed: bool) -> Option<TokenType> {
    if c == '(' {
        Some(TokenType::LEFT_PAREN)
    } else if c == ')' {
        Some(TokenType::RIGHT_PAREN)
    } else if c == '{' {
        Some(TokenType::LEFT_BRACE)
    } else if c == '}' {
        Some(TokenType::RIGHT_BRACE)
    } else if c == ';' {
        Some(TokenType::SEMICOLON)
    } else if c == ',' {
        Some(TokenType::COMMA)
    } else if c == '.' {
        Some(TokenType::DOT)
    } else if c == '-' {
        Some(TokenType::MINUS)
    } else if c == '+' {
        Some(TokenType::PLUS)
    } else if c == '/' {
        Some(TokenType::SLASH)
    } else if c == '*' {
        Some(TokenType::STAR)
    } else if c == '%' {
        Some(TokenType::MOD)
    } else if c == '!' {
        Some(if followed { TokenType::BANG_EQUAL } else { TokenType::BANG })
    } else if c == '=' {
        Some(if followed { TokenType::EQUAL_EQUAL } else { TokenType::EQUAL })
    } else if c == '<' {
        Some(if followed { TokenType::LESS_EQUAL } else { TokenType::LESS })
    } else if c == '>' {
        Some(if followed { TokenType::GREATER_EQUAL } else { TokenType::GREATER })
    } else {
        None
    }
}

/// Whether `c` starts one of the operators that a following `=` extends.
pub open spec fn takes_equal(c: char) -> bool {
    c == '!' || c == '=' || c == '<' || c == '>'
}

/// Where the number that starts at `pos` ends: behind its digits, and behind
/// a fraction where a dot with a digit after it follows them.
pub open spec fn number_end(src: Seq<char>, pos: int) -> int {
    let whole = run_end(src, pos, Run::Digits);
    if char_at(src, whole) == '.' && is_digit(char_at(src, whole + 1)) {
        run_end(src, whole + 1, Run::Digits)
    } else {
        whole
    }
}

/// The first `whole` characters are digits, and either nothing follows or a
/// dot and at least one digit, and nothing else.
pub open spec fn splits_as_decimal(text: Seq<char>, whole: int) -> bool {
    &&& 0 < whole <= text.len()
    &&& forall|i: int| 0 <= i < whole ==> is_digit(#[trigger] text[i])
    &&& whole < text.len() ==> {
        &&& text[whole] == '.'
        &&& whole + 1 < text.len()
        &&& forall|i: int| whole < i < text.len() ==> is_digit(#[trigger] text[i])
    }
}

/// Digits, and optionally a dot with more digits behind it.
pub open spec fn is_decimal_literal(text: Seq<char>) -> bool {
    exists|whole: int| splits_as_decimal(text, whole)
}

/// A token as the scanner builds it, from positions in the text.
pub open spec fn token_at(
    token_type: TokenType,
    start: int,
    end: int,
    line: int,
    message: Option<Message>,
) -> Token {
    Token { token_type, start: start as usize, length: (end - start) as usize, line: line as u64, message }
}

/// One step of scanning: the token found, and the position and line behind it.
pub struct Scan {
    pub token: Token,
    pub pos: int,
    pub line: int,
}

/// The token that starts at or after `pos`, where `line` is the line of `pos`.
///
/// Blanks and line comments before it are passed over. The token's line is
/// the one on which its first character stands.
#[verifier::opaque]
pub open spec fn scan(src: Seq<char>, pos: int, line: int) -> Scan {
    let p = blank_end(src, pos);
    let l = line + newlines(src, pos, p);
    let c = char_at(src, p);
    if c == '\0' {
        Scan { token: token_at(TokenType::EOF, p, p, l, None), pos: p, line: l }
    } else if c == '"' {
        let q = run_end(src, p + 1, Run::StringBody);
        let after = l + newlines(src, p + 1, q);
        if at_end(src, q) {
            Scan {
                token: token_at(TokenType::ERROR, p, q, l, Some(Message::UnterminatedString)),
                pos: q,
                line: after,
            }
        } else {
            Scan { token: token_at(TokenType::STRING, p, q + 1, l, None), pos: q + 1, line: after }
        }
    } else if is_digit(c) {
        let q = number_end(src, p + 1);
        Scan { token: token_at(TokenType::NUMBER, p, q, l, None), pos: q, line: l }
    } else if is_alpha(c) {
        let q = run_end(src, p + 1, Run::Alphanumerics);
        Scan { token: token_at(keyword_type(src.subrange(p, q)), p, q, l, None), pos: q, line: l }
    } else {
        let followed = takes_equal(c) && char_at(src, p + 1) == '=';
        let q = if followed { p + 2 } else { p + 1 };
        match symbol_type(c, followed) {
            Some(token_type) => Scan { token: token_at(token_type, p, q, l, None), pos: q, line: l },
            None => Scan {
                token: token_at(TokenType::ERROR, p, q, l, Some(Message::UnexpectedCharacter)),
                pos: q,
                line: l,
            },
        }
    }
}

/// The text that a token covers.
pub open spec fn lexeme(src: Seq<char>, token: Token) -> Seq<char> {
    src.subrange(token.start as int, token.start + token.length)
}

/// What every scanned token satisfies: it lies inside the text and covers no
/// terminator, scanning moves forward, only the end-of-input token is empty,
/// and a number's text is a decimal literal.
pub proof fn lemma_scan_shape(src: Seq<char>, pos: int, line: int)
    requires
        0 <= pos <= src.len(),
        0 <= line,
        src.len() <= usize::MAX,
        line <= pos,
    ensures
        ({
            let r = scan(src, pos, line);
            &&& pos <= r.token.start <= r.token.start + r.token.length == r.pos <= src.len()
            &&& line <= r.token.line <= r.line <= r.pos
            &&& r.line - line <= r.pos - pos
            &&& r.token.token_type != TokenType::EOF ==> r.token.length > 0
            &&& r.token.token_type == TokenType::EOF ==> at_end(src, r.pos)
            &&& r.token.token_type == TokenType::NUMBER ==> is_decimal_literal(lexeme(src, r.token))
            &&& r.token.message is Some <==> r.token.token_type == TokenType::ERROR
            &&& forall|i: int|
                r.token.start <= i < r.token.start + r.token.length ==> #[trigger] src[i] != '\0'
        }),
{
    reveal(scan);
    let p = blank_end(src, pos);
    let l = line + newlines(src, pos, p);
    let c = char_at(src, p);
    lemma_blank_end_bounds(src, pos);
    let r = scan(src, pos, line);
    if c == '\0' {
    } else if c == '"' {
        lemma_run_end_bounds(src, p + 1, Run::StringBody);
        lemma_newlines_bound(src, p + 1, run_end(src, p + 1, Run::StringBody));
    } else if is_digit(c) {
        let whole = run_end(src, p + 1, Run::Digits);
        lemma_run_end_bounds(src, p + 1, Run::Digits);
        let q = number_end(src, p + 1);
        let text = lexeme(src, r.token);
        if q != whole {
            lemma_run_end_bounds(src, whole + 1, Run::Digits);
            assert(whole + 1 < q) by {
                assert(is_digit(char_at(src, whole + 1)));
            }
        }
        assert(text.len() == q - p);
        assert forall|i: int| 0 <= i < whole - p implies is_digit(#[trigger] text[i]) by {
            assert(text[i] == src[p + i]);
        }
        if whole - p < text.len() {
            assert(text[whole - p] == src[whole]);
            assert forall|i: int| whole - p < i < text.len() implies is_digit(#[trigger] text[i]) by {
                assert(text[i] == src[p + i]);
            }
        }
        assert(splits_as_decimal(text, whole - p));
    } else if is_alpha(c) {
        lemma_run_end_bounds(src, p + 1, Run::Alphanumerics);
        lemma_keyword_is_no_symbol(src.subrange(p, run_end(src, p + 1, Run::Alphanumerics)));
    } else {
    }
}

/// No identifier or keyword is of a kind that stands for anything else.
pub proof fn lemma_keyword_is_no_symbol(text: Seq<char>)
    ensures
        keyword_type(text) != TokenType::EOF,
        keyword_type(text) != TokenType::ERROR,
        keyword_type(text) != TokenType::NUMBER,
{
}

/// The position and line at which a fresh scanner stands before it reads
/// its token number `n`, counted from 0.
pub open spec fn scan_state(src: Seq<char>, n: nat) -> (int, int)
    decreases n,
{
    if n == 0 {
        (0, 0)
    } else {
        let (pos, line) = scan_state(src, (n - 1) as nat);
        let r = scan(src, pos, line);
        (r.pos, r.line)
    }
}

/// Token number `n` of the text, counted from 0. Behind the end of input
/// every token is the end-of-input token again.
pub open spec fn nth_token(src: Seq<char>, n: nat) -> Token {
    let (pos, line) = scan_state(src, n);
    scan(src, pos, line).token
}

/// Every state that scanning reaches lies inside the text.
pub proof fn lemma_scan_state_bounds(src: Seq<char>, n: nat)
    requires
        src.len() <= usize::MAX,
    ensures
        0 <= scan_state(src, n).1 <= scan_state(src, n).0 <= src.len(),
    decreases n,
{
    if n > 0 {
        lemma_scan_state_bounds(src, (n - 1) as nat);
        let (pos, line) = scan_state(src, (n - 1) as nat);
        lemma_scan_shape(src, pos, line);
    }
}

} // verus!
