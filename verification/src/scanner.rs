//! The scanner: source text in, one token per call out.

use vstd::prelude::*;
use crate::lexing::{
    at_end, blank_end, char_at, is_alpha, is_ascii_alphanumeric, is_digit, keyword_type,
    lemma_blank_end_bounds, lemma_run_end_bounds, newlines, nth_token, Run, run_end, Scan, scan,
    scan_state, token_at,
};
use crate::token::{Message, Token, TokenType};

verus! {

/// What `char::is_alphanumeric` answers for `c`.
pub uninterp spec fn is_alphanumeric(c: char) -> bool;

/// Asks `char::is_alphanumeric` of std: whether the character has the
/// Unicode property Alphabetic or one of the general categories for numbers.
/// Claimed: the answer is the same for the same character, and among the
/// characters of ASCII, where Unicode is fixed, it is yes for the letters
/// and the digits and for no other.
#[verifier::external_body]
fn char_is_alphanumeric(c: char) -> (r: bool)
    ensures
        r == is_alphanumeric(c),
        c <= '\x7f' ==> r == is_ascii_alphanumeric(c),
{
    c.is_alphanumeric()
}

/// The characters of `text`, one by one.
pub fn characters(text: &str) -> (chars: Vec<char>)
    ensures
        chars@ == text@,
{
    let mut chars: Vec<char> = Vec::new();
    for c in it: text.chars()
        invariant
            it.seq() == text@,
            chars@ == it.seq().take(it.index() as int),
    {
        chars.push(c);
    }
    chars
}

/// Reads the source and converts it into tokens, one per call.
pub struct Scanner {
    start: usize,
    current: usize,
    source_vec: Vec<char>,
    line: u64,
    start_line: u64,
}

impl Scanner {
    /// The text being scanned.
    pub closed spec fn source(&self) -> Seq<char> {
        self.source_vec@
    }

    /// Where the next call starts to read.
    pub closed spec fn position(&self) -> int {
        self.current as int
    }

    /// The line on which `position` stands, counted from 0.
    pub closed spec fn line_number(&self) -> int {
        self.line as int
    }

    /// The position lies inside the text or directly behind it, and no more
    /// lines were counted than characters read.
    pub closed spec fn wf(&self) -> bool {
        &&& self.start <= self.current <= self.source_vec.len()
        &&& self.start_line <= self.line <= self.current
    }

    /// What the next call of `scan_token` finds.
    pub open spec fn next(&self) -> Scan {
        scan(self.source(), self.position(), self.line_number())
    }

    /// A scanner at the start of `source`.
    pub fn new(source: &str) -> (scanner: Self)
        ensures
            scanner.wf(),
            scanner.source() == source@,
            scanner.position() == 0,
            scanner.line_number() == 0,
            scanner.has_read(0),
    {
        Self { start: 0, current: 0, source_vec: characters(source), line: 0, start_line: 0 }
    }

    /// Whether the input ends at the current position.
    fn is_end(&self) -> (end: bool)
        requires
            self.wf(),
        ensures
            end == at_end(self.source(), self.position()),
    {
        if self.current >= self.source_vec.len() {
            return true;
        }
        return self.source_vec[self.current] == '\0';
    }

    /// The character at the current position.
    fn peek(&self) -> (c: char)
        requires
            self.wf(),
        ensures
            c == char_at(self.source(), self.position()),
    {
        if self.current >= self.source_vec.len() {
            return '\0';
        }
        self.source_vec[self.current]
    }

    /// The character behind the current one.
    fn peek_next(&self) -> (c: char)
        requires
            self.wf(),
        ensures
            c == if at_end(self.source(), self.position()) {
                '\0'
            } else {
                char_at(self.source(), self.position() + 1)
            },
    {
        if self.is_end() {
            return '\0';
        }
        if self.current + 1 >= self.source_vec.len() {
            return '\0';
        }
        self.source_vec[self.current + 1]
    }

    /// Passes over the current character if it is the expected one.
    fn match_char(&mut self, expected: char) -> (matched: bool)
        requires
            old(self).wf(),
            expected != '\0',
        ensures
            final(self).wf(),
            matched == (char_at(old(self).source(), old(self).position()) == expected),
            final(self).source() == old(self).source(),
            final(self).position() == old(self).position() + if matched { 1int } else { 0 },
            final(self).line == old(self).line,
            final(self).start == old(self).start,
            final(self).start_line == old(self).start_line,
    {
        if self.is_end() {
            return false;
        }
        if self.source_vec[self.current] != expected {
            return false;
        }
        self.current += 1;
        return true;
    }

    /// Passes over one character and returns it.
    fn advance(&mut self) -> (c: char)
        requires
            old(self).wf(),
            old(self).position() < old(self).source().len(),
        ensures
            final(self).wf(),
            c == old(self).source()[old(self).position()],
            final(self).source() == old(self).source(),
            final(self).position() == old(self).position() + 1,
            final(self).line == old(self).line,
            final(self).start == old(self).start,
            final(self).start_line == old(self).start_line,
    {
        self.current += 1;
        self.source_vec[self.current - 1]
    }

    /// Passes over blanks and line comments, counting the lines.
    fn skip_whitespace(&mut self)
        requires
            old(self).wf(),
        ensures
            final(self).wf(),
            final(self).source() == old(self).source(),
            final(self).position() == blank_end(old(self).source(), old(self).position()),
            final(self).line_number() == old(self).line_number() + newlines(
                old(self).source(),
                old(self).position(),
                final(self).position(),
            ),
            final(self).start == old(self).start,
            final(self).start_line == old(self).start_line,
    {
        let ghost src = self.source();
        let ghost from = self.position();
        let ghost line = self.line_number();
        proof {
            lemma_blank_end_bounds(src, from);
        }
        loop
            invariant
                self.wf(),
                self.source() == src,
                from <= self.position(),
                blank_end(src, self.position()) == blank_end(src, from),
                self.line_number() == line + newlines(src, from, self.position()),
                self.start == old(self).start,
                self.start_line == old(self).start_line,
            ensures
                self.wf(),
                self.source() == src,
                self.position() == blank_end(src, from),
                self.line_number() == line + newlines(src, from, self.position()),
                self.start == old(self).start,
                self.start_line == old(self).start_line,
            decreases src.len() - self.position(),
        {
            if self.is_end() {
                break;
            }
            let c = self.peek();
            if c == ' ' || c == '\t' || c == '\r' {
                self.advance();
            } else if c == '\n' {
                self.advance();
                self.line += 1;
            } else if c == '/' {
                if self.peek_next() == '/' {
                    let ghost comment = self.position();
                    while !self.is_end() && self.peek() != '\n'
                        invariant
                            self.wf(),
                            self.source() == src,
                            comment <= self.position(),
                            run_end(src, self.position(), Run::CommentBody) == run_end(
                                src,
                                comment,
                                Run::CommentBody,
                            ),
                            self.line_number() == line + newlines(src, from, self.position()),
                            self.start == old(self).start,
                            self.start_line == old(self).start_line,
                        decreases src.len() - self.position(),
                    {
                        self.advance();
                    }
                    proof {
                        lemma_run_end_bounds(src, comment + 1, Run::CommentBody);
                    }
                } else {
                    break;
                }
            } else {
                break;
            }
        }
    }

    /// The token of the given kind over the text from `start` to `current`.
    fn generate_token(&self, token_type: TokenType) -> (token: Token)
        requires
            self.wf(),
        ensures
            token == token_at(
                token_type,
                self.start as int,
                self.position(),
                self.start_line as int,
                None,
            ),
    {
        Token {
            token_type,
            start: self.start,
            length: self.current - self.start,
            line: self.start_line,
            message: None,
        }
    }

    /// The error token over the text from `start` to `current`.
    fn error_token(&self, message: Message) -> (token: Token)
        requires
            self.wf(),
        ensures
            token == token_at(
                TokenType::ERROR,
                self.start as int,
                self.position(),
                self.start_line as int,
                Some(message),
            ),
    {
        Token {
            token_type: TokenType::ERROR,
            start: self.start,
            length: self.current - self.start,
            line: self.start_line,
            message: Some(message),
        }
    }

    /// Scans a string, its opening quote being read already.
    fn handle_string(&mut self) -> (token: Token)
        requires
            old(self).wf(),
            old(self).start + 1 == old(self).current,
            old(self).start_line == old(self).line,
            old(self).source()[old(self).start as int] == '"',
        ensures
            final(self).wf(),
            final(self).source() == old(self).source(),
            ({
                let r = scan(old(self).source(), old(self).start as int, old(self).start_line as int);
                &&& token == r.token
                &&& final(self).position() == r.pos
                &&& final(self).line_number() == r.line
            }),
    {
        let ghost src = self.source();
        let ghost p = self.start as int;
        let ghost l = self.start_line as int;
        while !self.is_end() && self.peek() != '"'
            invariant
                self.wf(),
                self.source() == src,
                self.start == p,
                self.start_line == l,
                p + 1 <= self.position(),
                run_end(src, self.position(), Run::StringBody) == run_end(src, p + 1, Run::StringBody),
                self.line_number() == l + newlines(src, p + 1, self.position()),
            decreases src.len() - self.position(),
        {
            let c = self.advance();
            if c == '\n' {
                self.line += 1;
            }
        }
        proof {
            reveal(scan);
            assert(blank_end(src, p) == p);
            assert(newlines(src, p, p) == 0);
        }
        if self.is_end() {
            return self.error_token(Message::UnterminatedString);
        }
        self.advance();
        self.generate_token(TokenType::STRING)
    }

    /// Scans a number, its first digit being read already.
    fn handle_number(&mut self) -> (token: Token)
        requires
            old(self).wf(),
            old(self).start + 1 == old(self).current,
            old(self).start_line == old(self).line,
            is_digit(old(self).source()[old(self).start as int]),
        ensures
            final(self).wf(),
            final(self).source() == old(self).source(),
            ({
                let r = scan(old(self).source(), old(self).start as int, old(self).start_line as int);
                &&& token == r.token
                &&& final(self).position() == r.pos
                &&& final(self).line_number() == r.line
            }),
    {
        let ghost src = self.source();
        let ghost p = self.start as int;
        while Self::is_digit_char(self.peek())
            invariant
                self.wf(),
                self.source() == src,
                self.start == p,
                self.start_line == old(self).start_line,
                self.line == old(self).line,
                p + 1 <= self.position(),
                run_end(src, self.position(), Run::Digits) == run_end(src, p + 1, Run::Digits),
            decreases src.len() - self.position(),
        {
            self.advance();
        }
        let ghost whole = self.position();
        if self.peek() == '.' && Self::is_digit_char(self.peek_next()) {
            self.advance();
            while Self::is_digit_char(self.peek())
                invariant
                    self.wf(),
                    self.source() == src,
                    self.start == p,
                    self.start_line == old(self).start_line,
                    self.line == old(self).line,
                    whole + 1 <= self.position(),
                    run_end(src, self.position(), Run::Digits) == run_end(src, whole + 1, Run::Digits),
                decreases src.len() - self.position(),
            {
                self.advance();
            }
        }
        proof {
            reveal(scan);
            assert(blank_end(src, p) == p);
            assert(newlines(src, p, p) == 0);
        }
        self.generate_token(TokenType::NUMBER)
    }

    fn is_digit_char(c: char) -> (digit: bool)
        ensures
            digit == is_digit(c),
    {
        '0' <= c && c <= '9'
    }

    fn is_alpha_char(c: char) -> (alpha: bool)
        ensures
            alpha == is_alpha(c),
    {
        ('a' <= c && c <= 'z') || ('A' <= c && c <= 'Z') || c == '_'
    }

    /// The text of the token being scanned.
    pub closed spec fn pending(&self) -> Seq<char> {
        self.source_vec@.subrange(self.start as int, self.current as int)
    }

    /// Scans an identifier or keyword, its first character being read already.
    fn handle_identifier(&mut self) -> (token: Token)
        requires
            old(self).wf(),
            old(self).start + 1 == old(self).current,
            old(self).start_line == old(self).line,
            is_alpha(old(self).source()[old(self).start as int]),
        ensures
            final(self).wf(),
            final(self).source() == old(self).source(),
            ({
                let r = scan(old(self).source(), old(self).start as int, old(self).start_line as int);
                &&& token == r.token
                &&& final(self).position() == r.pos
                &&& final(self).line_number() == r.line
            }),
    {
        let ghost src = self.source();
        let ghost p = self.start as int;
        while char_is_alphanumeric(self.peek())
            invariant
                self.wf(),
                self.source() == src,
                self.start == p,
                self.start_line == old(self).start_line,
                self.line == old(self).line,
                p + 1 <= self.position(),
                run_end(src, self.position(), Run::Alphanumerics) == run_end(
                    src,
                    p + 1,
                    Run::Alphanumerics,
                ),
            decreases src.len() - self.position(),
        {
            self.advance();
        }
        proof {
            reveal(scan);
            assert(blank_end(src, p) == p);
            assert(newlines(src, p, p) == 0);
            assert(!is_digit(src[p]));
        }
        let token_type = self.get_identifier_type();
        self.generate_token(token_type)
    }

    /// Tells a keyword from an identifier by the pending text.
    fn get_identifier_type(&self) -> (token_type: TokenType)
        requires
            self.wf(),
            self.start < self.current,
        ensures
            token_type == keyword_type(self.pending()),
    {
        let ghost text = self.pending();
        proof {
            reveal_strlit("and");
            reveal_strlit("class");
            reveal_strlit("else");
            reveal_strlit("false");
            reveal_strlit("for");
            reveal_strlit("fun");
            reveal_strlit("if");
            reveal_strlit("nil");
            reveal_strlit("or");
            reveal_strlit("print");
            reveal_strlit("return");
            reveal_strlit("super");
            reveal_strlit("this");
            reveal_strlit("true");
            reveal_strlit("var");
            reveal_strlit("while");
            reveal_strlit("nd");
            reveal_strlit("lass");
            reveal_strlit("lse");
            reveal_strlit("f");
            reveal_strlit("il");
            reveal_strlit("r");
            reveal_strlit("rint");
            reveal_strlit("eturn");
            reveal_strlit("uper");
            reveal_strlit("ar");
            reveal_strlit("hile");
            reveal_strlit("n");
            reveal_strlit("is");
            reveal_strlit("ue");
            assert(text[0] == self.source_vec@[self.start as int]);
        }
        let c = self.source_vec[self.start];
        if c == 'a' {
            proof {
                lemma_keyword_tail(text, "and"@, "nd"@, 1);
            }
            self.check_keyword(1, 2, "nd", TokenType::AND)
        } else if c == 'c' {
            proof {
                lemma_keyword_tail(text, "class"@, "lass"@, 1);
            }
            self.check_keyword(1, 4, "lass", TokenType::CLASS)
        } else if c == 'e' {
            proof {
                lemma_keyword_tail(text, "else"@, "lse"@, 1);
            }
            self.check_keyword(1, 3, "lse", TokenType::ELSE)
        } else if c == 'i' {
            proof {
                lemma_keyword_tail(text, "if"@, "f"@, 1);
            }
            self.check_keyword(1, 1, "f", TokenType::IF)
        } else if c == 'n' {
            proof {
                lemma_keyword_tail(text, "nil"@, "il"@, 1);
            }
            self.check_keyword(1, 2, "il", TokenType::NIL)
        } else if c == 'o' {
            proof {
                lemma_keyword_tail(text, "or"@, "r"@, 1);
            }
            self.check_keyword(1, 1, "r", TokenType::OR)
        } else if c == 'p' {
            proof {
                lemma_keyword_tail(text, "print"@, "rint"@, 1);
            }
            self.check_keyword(1, 4, "rint", TokenType::PRINT)
        } else if c == 'r' {
            proof {
                lemma_keyword_tail(text, "return"@, "eturn"@, 1);
            }
            self.check_keyword(1, 5, "eturn", TokenType::RETURN)
        } else if c == 's' {
            proof {
                lemma_keyword_tail(text, "super"@, "uper"@, 1);
            }
            self.check_keyword(1, 4, "uper", TokenType::SUPER)
        } else if c == 'v' {
            proof {
                lemma_keyword_tail(text, "var"@, "ar"@, 1);
            }
            self.check_keyword(1, 2, "ar", TokenType::VAR)
        } else if c == 'w' {
            proof {
                lemma_keyword_tail(text, "while"@, "hile"@, 1);
            }
            self.check_keyword(1, 4, "hile", TokenType::WHILE)
        } else if c == 'f' {
            if self.current - self.start > 1 {
                proof {
                    assert(text[1] == self.source_vec@[self.start + 1]);
                }
                let d = self.source_vec[self.start + 1];
                if d == 'a' {
                    proof {
                        lemma_keyword_tail(text, "false"@, "lse"@, 2);
                    }
                    self.check_keyword(2, 3, "lse", TokenType::FALSE)
                } else if d == 'o' {
                    proof {
                        lemma_keyword_tail(text, "for"@, "r"@, 2);
                    }
                    self.check_keyword(2, 1, "r", TokenType::FOR)
                } else if d == 'u' {
                    proof {
                        lemma_keyword_tail(text, "fun"@, "n"@, 2);
                    }
                    self.check_keyword(2, 1, "n", TokenType::FUN)
                } else {
                    proof {
                        assert("false"@[1] == 'a' && "for"@[1] == 'o' && "fun"@[1] == 'u');
                    }
                    return TokenType::IDENTIFIER;
                }
            } else {
                proof {
                    assert(text.len() == 1);
                    assert("false"@.len() == 5 && "for"@.len() == 3 && "fun"@.len() == 3);
                }
                return TokenType::IDENTIFIER;
            }
        } else if c == 't' {
            if self.current - self.start > 1 {
                proof {
                    assert(text[1] == self.source_vec@[self.start + 1]);
                }
                let d = self.source_vec[self.start + 1];
                if d == 'h' {
                    proof {
                        lemma_keyword_tail(text, "this"@, "is"@, 2);
                    }
                    self.check_keyword(2, 2, "is", TokenType::THIS)
                } else if d == 'r' {
                    proof {
                        lemma_keyword_tail(text, "true"@, "ue"@, 2);
                    }
                    self.check_keyword(2, 2, "ue", TokenType::TRUE)
                } else {
                    proof {
                        assert("this"@[1] == 'h' && "true"@[1] == 'r');
                    }
                    return TokenType::IDENTIFIER;
                }
            } else {
                proof {
                    assert(text.len() == 1);
                    assert("this"@.len() == 4 && "true"@.len() == 4);
                }
                return TokenType::IDENTIFIER;
            }
        } else {
            return TokenType::IDENTIFIER;
        }
    }

    /// Tells whether the pending text, behind its first `start` characters,
    /// is exactly `rest`.
    fn check_keyword(&self, start: usize, length: usize, rest: &str, token_type: TokenType) -> (found:
        TokenType)
        requires
            self.wf(),
            rest@.len() == length,
            start + length <= usize::MAX,
        ensures
            found == if ends_with_at(self.pending(), start as int, rest@) {
                token_type
            } else {
                TokenType::IDENTIFIER
            },
    {
        let ghost text = self.pending();
        if self.current - self.start == start + length {
            let mut index: usize = 0;
            while index < length
                invariant
                    self.wf(),
                    index <= length,
                    rest@.len() == length,
                    text == self.pending(),
                    text.len() == start + length,
                    start + length <= usize::MAX,
                    forall|i: int| 0 <= i < index ==> text[start + i] == #[trigger] rest@[i],
                decreases length - index,
            {
                let at = self.start + start + index;
                proof {
                    assert(text[start + index] == self.source_vec@[at as int]);
                }
                if self.source_vec[at] != rest.get_char(index) {
                    proof {
                        assert(text.subrange(start as int, text.len() as int)[index as int] == text[start
                            + index]);
                    }
                    return TokenType::IDENTIFIER;
                }
                index += 1;
            }
            proof {
                assert(text.subrange(start as int, text.len() as int) =~= rest@);
            }
            return token_type;
        }
        return TokenType::IDENTIFIER;
    }

    /// Scans the next token. A scanner that has read `n` tokens has read
    /// `n + 1` then.
    pub fn scan_token(&mut self) -> (token: Token)
        requires
            old(self).wf(),
        ensures
            final(self).wf(),
            final(self).source() == old(self).source(),
            token == old(self).next().token,
            final(self).position() == old(self).next().pos,
            final(self).line_number() == old(self).next().line,
            forall|n: nat| old(self).has_read(n) ==> final(self).has_read(n + 1),
    {
        let ghost src = self.source();
        proof {
            reveal(scan);
        }
        self.skip_whitespace();
        self.start = self.current;
        self.start_line = self.line;
        if self.is_end() {
            return self.generate_token(TokenType::EOF);
        }
        let c = self.advance();
        match c {
            '(' => self.generate_token(TokenType::LEFT_PAREN),
            ')' => self.generate_token(TokenType::RIGHT_PAREN),
            '{' => self.generate_token(TokenType::LEFT_BRACE),
            '}' => self.generate_token(TokenType::RIGHT_BRACE),
            ';' => self.generate_token(TokenType::SEMICOLON),
            ',' => self.generate_token(TokenType::COMMA),
            '.' => self.generate_token(TokenType::DOT),
            '-' => self.generate_token(TokenType::MINUS),
            '+' => self.generate_token(TokenType::PLUS),
            '/' => self.generate_token(TokenType::SLASH),
            '*' => self.generate_token(TokenType::STAR),
            '%' => self.generate_token(TokenType::MOD),
            '!' => {
                let token = if self.match_char('=') {
                    TokenType::BANG_EQUAL
                } else {
                    TokenType::BANG
                };
                self.generate_token(token)
            },
            '=' => {
                let token = if self.match_char('=') {
                    TokenType::EQUAL_EQUAL
                } else {
                    TokenType::EQUAL
                };
                self.generate_token(token)
            },
            '<' => {
                let token = if self.match_char('=') {
                    TokenType::LESS_EQUAL
                } else {
                    TokenType::LESS
                };
                self.generate_token(token)
            },
            '>' => {
                let token = if self.match_char('=') {
                    TokenType::GREATER_EQUAL
                } else {
                    TokenType::GREATER
                };
                self.generate_token(token)
            },
            '"' => self.handle_string(),
            _ => {
                if Self::is_digit_char(c) {
                    self.handle_number()
                } else if Self::is_alpha_char(c) {
                    self.handle_identifier()
                } else {
                    self.error_token(Message::UnexpectedCharacter)
                }
            },
        }
    }
}

/// Whether `text`, behind its first `start` characters, is exactly `rest`.
pub open spec fn ends_with_at(text: Seq<char>, start: int, rest: Seq<char>) -> bool {
    text.len() == start + rest.len() && text.subrange(start, text.len() as int) == rest
}

/// A text whose first `k` characters are those of `word` is `word` exactly
/// when the remainder of `word` follows them and nothing else.
proof fn lemma_keyword_tail(text: Seq<char>, word: Seq<char>, rest: Seq<char>, k: int)
    requires
        0 < k <= word.len(),
        rest.len() == word.len() - k,
        forall|i: int| 0 <= i < rest.len() ==> #[trigger] rest[i] == word[k + i],
    ensures
        (text.len() >= k && forall|i: int| 0 <= i < k ==> #[trigger] text[i] == word[i]) ==> (
        ends_with_at(text, k, rest) <==> text == word),
{
    if text.len() >= k && forall|i: int| 0 <= i < k ==> #[trigger] text[i] == word[i] {
        if ends_with_at(text, k, rest) {
            assert forall|i: int| 0 <= i < text.len() implies text[i] == word[i] by {
                if i >= k {
                    assert(text.subrange(k, text.len() as int)[i - k] == text[i]);
                }
            }
            assert(text =~= word);
        }
        if text == word {
            assert(text.subrange(k, text.len() as int) =~= rest);
        }
    }
}

impl Scanner {
    /// The scanner stands where a fresh one stands after `n` tokens.
    pub open spec fn has_read(&self, n: nat) -> bool {
        (self.position(), self.line_number()) == scan_state(self.source(), n)
    }
}

/// Scanning the same text again from a fresh scanner gives the same tokens:
/// two scanners over one text that have read equally many tokens find the
/// same token next and stand at the same place behind it, and a scanner that
/// has read `n` tokens finds token number `n` of its text.
pub proof fn lemma_rescan_is_identical(a: Scanner, b: Scanner, n: nat)
    requires
        a.source() == b.source(),
        a.has_read(n),
        b.has_read(n),
    ensures
        a.next() == b.next(),
        a.next().token == nth_token(a.source(), n),
        (a.next().pos, a.next().line) == scan_state(a.source(), n + 1),
{
}

} // verus!
