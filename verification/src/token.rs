//! Tokens: what the scanner hands to the compiler.

use vstd::prelude::*;

verus! {

/// The closed set of token kinds.
#[allow(non_camel_case_types)]
#[derive(Clone, Copy, Debug, PartialEq, Eq, Structural)]
pub enum TokenType {
    LEFT_PAREN,
    RIGHT_PAREN,
    LEFT_BRACE,
    RIGHT_BRACE,
    COMMA,
    DOT,
    MINUS,
    PLUS,
    SEMICOLON,
    SLASH,
    STAR,
    MOD,
    BANG,
    BANG_EQUAL,
    EQUAL,
    EQUAL_EQUAL,
    GREATER,
    GREATER_EQUAL,
    LESS,
    LESS_EQUAL,
    IDENTIFIER,
    STRING,
    NUMBER,
    AND,
    CLASS,
    ELSE,
    FALSE,
    FOR,
    FUN,
    IF,
    NIL,
    OR,
    PRINT,
    RETURN,
    SUPER,
    THIS,
    TRUE,
    VAR,
    WHILE,
    ERROR,
    EOF,
}

/// How many token kinds there are; also the length of the rule table.
pub const TOKEN_TYPE_COUNT: usize = 41;

impl TokenType {
    /// The position of this kind in declaration order.
    pub open spec fn ordinal(self) -> nat {
        match self {
            TokenType::LEFT_PAREN => 0,
            TokenType::RIGHT_PAREN => 1,
            TokenType::LEFT_BRACE => 2,
            TokenType::RIGHT_BRACE => 3,
            TokenType::COMMA => 4,
            TokenType::DOT => 5,
            TokenType::MINUS => 6,
            TokenType::PLUS => 7,
            TokenType::SEMICOLON => 8,
            TokenType::SLASH => 9,
            TokenType::STAR => 10,
            TokenType::MOD => 11,
            TokenType::BANG => 12,
            TokenType::BANG_EQUAL => 13,
            TokenType::EQUAL => 14,
            TokenType::EQUAL_EQUAL => 15,
            TokenType::GREATER => 16,
            TokenType::GREATER_EQUAL => 17,
            TokenType::LESS => 18,
            TokenType::LESS_EQUAL => 19,
            TokenType::IDENTIFIER => 20,
            TokenType::STRING => 21,
            TokenType::NUMBER => 22,
            TokenType::AND => 23,
            TokenType::CLASS => 24,
            TokenType::ELSE => 25,
            TokenType::FALSE => 26,
            TokenType::FOR => 27,
            TokenType::FUN => 28,
            TokenType::IF => 29,
            TokenType::NIL => 30,
            TokenType::OR => 31,
            TokenType::PRINT => 32,
            TokenType::RETURN => 33,
            TokenType::SUPER => 34,
            TokenType::THIS => 35,
            TokenType::TRUE => 36,
            TokenType::VAR => 37,
            TokenType::WHILE => 38,
            TokenType::ERROR => 39,
            TokenType::EOF => 40,
        }
    }

    /// The slot of this kind in a table with one entry per kind.
    pub fn index(self) -> (i: usize)
        ensures
            i == self.ordinal(),
            i < TOKEN_TYPE_COUNT,
    {
        match self {
            TokenType::LEFT_PAREN => 0,
            TokenType::RIGHT_PAREN => 1,
            TokenType::LEFT_BRACE => 2,
            TokenType::RIGHT_BRACE => 3,
            TokenType::COMMA => 4,
            TokenType::DOT => 5,
            TokenType::MINUS => 6,
            TokenType::PLUS => 7,
            TokenType::SEMICOLON => 8,
            TokenType::SLASH => 9,
            TokenType::STAR => 10,
            TokenType::MOD => 11,
            TokenType::BANG => 12,
            TokenType::BANG_EQUAL => 13,
            TokenType::EQUAL => 14,
            TokenType::EQUAL_EQUAL => 15,
            TokenType::GREATER => 16,
            TokenType::GREATER_EQUAL => 17,
            TokenType::LESS => 18,
            TokenType::LESS_EQUAL => 19,
            TokenType::IDENTIFIER => 20,
            TokenType::STRING => 21,
            TokenType::NUMBER => 22,
            TokenType::AND => 23,
            TokenType::CLASS => 24,
            TokenType::ELSE => 25,
            TokenType::FALSE => 26,
            TokenType::FOR => 27,
            TokenType::FUN => 28,
            TokenType::IF => 29,
            TokenType::NIL => 30,
            TokenType::OR => 31,
            TokenType::PRINT => 32,
            TokenType::RETURN => 33,
            TokenType::SUPER => 34,
            TokenType::THIS => 35,
            TokenType::TRUE => 36,
            TokenType::VAR => 37,
            TokenType::WHILE => 38,
            TokenType::ERROR => 39,
            TokenType::EOF => 40,
        }
    }
}

/// The fixed diagnostic texts that a token or a report can carry.
#[derive(Clone, Copy, Debug, PartialEq, Eq, Structural)]
pub enum Message {
    UnexpectedCharacter,
    UnterminatedString,
    ExpectedEndOfExpression,
    ExpectedRightParen,
    ExpectedExpression,
    InvalidNumber,
    TooManyConstants,
}

impl Message {
    /// The wording of this diagnostic.
    pub open spec fn wording(self) -> Seq<char> {
        match self {
            Message::UnexpectedCharacter => "Unexpected character"@,
            Message::UnterminatedString => "Unterminated string"@,
            Message::ExpectedEndOfExpression => "Expected end of expression"@,
            Message::ExpectedRightParen => "Expected ')' after expression"@,
            Message::ExpectedExpression => "Expected expression"@,
            Message::InvalidNumber => "Invalid number"@,
            Message::TooManyConstants => "Too many constants in one chunk"@,
        }
    }

    /// The wording of this diagnostic, as text.
    pub fn text(self) -> (s: &'static str)
        ensures
            s@ == self.wording(),
    {
        match self {
            Message::UnexpectedCharacter => "Unexpected character",
            Message::UnterminatedString => "Unterminated string",
            Message::ExpectedEndOfExpression => "Expected end of expression",
            Message::ExpectedRightParen => "Expected ')' after expression",
            Message::ExpectedExpression => "Expected expression",
            Message::InvalidNumber => "Invalid number",
            Message::TooManyConstants => "Too many constants in one chunk",
        }
    }
}

/// One lexical unit: its kind, where it lies in the source, the line on which
/// it starts, and a diagnostic where the kind is `ERROR` or a check on it failed.
#[derive(Clone, Copy, Debug, PartialEq, Eq, Structural)]
pub struct Token {
    pub token_type: TokenType,
    pub start: usize,
    pub length: usize,
    pub line: u64,
    pub message: Option<Message>,
}

} // verus!
