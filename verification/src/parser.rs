//! The parser's state and its table of rules: for every token kind a prefix
//! handler, an infix handler and a binding power.

use vstd::prelude::*;
use crate::token::{Token, TOKEN_TYPE_COUNT, TokenType};

verus! {

/// What the compiler remembers between tokens.
pub struct Parser {
    pub current: Token,
    pub previous: Token,
    pub had_error: bool,
    pub panic_mode: bool,
    pub parse_rules: Vec<ParseRule>,
}

impl Parser {
    /// The token that stands in `current` and `previous` before anything is read.
    pub open spec fn blank_token() -> Token {
        Token { token_type: TokenType::NIL, start: 0, length: 0, line: 0, message: None }
    }

    /// The table holds the rule of every token kind, in the kind's slot.
    pub open spec fn wf(&self) -> bool {
        is_rule_table(self.parse_rules@)
    }

    /// A parser that has read nothing, with the table of rules.
    pub fn new() -> (parser: Self)
        ensures
            parser.wf(),
            parser.current == Parser::blank_token(),
            parser.previous == Parser::blank_token(),
            !parser.had_error,
            !parser.panic_mode,
    {
        Self {
            current: Token {
                token_type: TokenType::NIL,
                start: 0,
                length: 0,
                line: 0,
                message: None,
            },
            previous: Token {
                token_type: TokenType::NIL,
                start: 0,
                length: 0,
                line: 0,
                message: None,
            },
            had_error: false,
            panic_mode: false,
            parse_rules: get_rule_array(),
        }
    }
}

/// Binding powers, from the loosest to the tightest.
#[allow(non_camel_case_types)]
#[derive(Copy, Clone, Debug, PartialEq, Eq, Structural)]
pub enum Precedence {
    NONE,
    ASSIGNMENT,  // =
    OR,  // or
    AND,  // and
    EQUALITY,  // == !=
    COMPARISON,  // < > <= >=
    TERM,  // + -
    FACTOR,  // * /
    UNARY,  // ! -
    CALL,  // . ()
    PRIMARY,
}

impl Precedence {
    /// The place of this binding power in the order, from 0 for `NONE`.
    pub open spec fn level(self) -> nat {
        match self {
            Precedence::NONE => 0,
            Precedence::ASSIGNMENT => 1,
            Precedence::OR => 2,
            Precedence::AND => 3,
            Precedence::EQUALITY => 4,
            Precedence::COMPARISON => 5,
            Precedence::TERM => 6,
            Precedence::FACTOR => 7,
            Precedence::UNARY => 8,
            Precedence::CALL => 9,
            Precedence::PRIMARY => 10,
        }
    }

    /// The next tighter binding power; `PRIMARY` is its own successor.
    pub open spec fn successor(self) -> Precedence {
        match self {
            Precedence::NONE => Precedence::ASSIGNMENT,
            Precedence::ASSIGNMENT => Precedence::OR,
            Precedence::OR => Precedence::AND,
            Precedence::AND => Precedence::EQUALITY,
            Precedence::EQUALITY => Precedence::COMPARISON,
            Precedence::COMPARISON => Precedence::TERM,
            Precedence::TERM => Precedence::FACTOR,
            Precedence::FACTOR => Precedence::UNARY,
            Precedence::UNARY => Precedence::CALL,
            Precedence::CALL => Precedence::PRIMARY,
            Precedence::PRIMARY => Precedence::PRIMARY,
        }
    }

    /// The place of this binding power in the order.
    pub fn rank(self) -> (rank: u8)
        ensures
            rank == self.level(),
    {
        match self {
            Precedence::NONE => 0,
            Precedence::ASSIGNMENT => 1,
            Precedence::OR => 2,
            Precedence::AND => 3,
            Precedence::EQUALITY => 4,
            Precedence::COMPARISON => 5,
            Precedence::TERM => 6,
            Precedence::FACTOR => 7,
            Precedence::UNARY => 8,
            Precedence::CALL => 9,
            Precedence::PRIMARY => 10,
        }
    }

    /// One level higher, saturating at the top.
    pub fn next(self) -> (higher: Precedence)
        ensures
            higher == self.successor(),
            higher.level() == if self == Precedence::PRIMARY {
                self.level()
            } else {
                self.level() + 1
            },
    {
        match self {
            Precedence::NONE => Precedence::ASSIGNMENT,
            Precedence::ASSIGNMENT => Precedence::OR,
            Precedence::OR => Precedence::AND,
            Precedence::AND => Precedence::EQUALITY,
            Precedence::EQUALITY => Precedence::COMPARISON,
            Precedence::COMPARISON => Precedence::TERM,
            Precedence::TERM => Precedence::FACTOR,
            Precedence::FACTOR => Precedence::UNARY,
            Precedence::UNARY => Precedence::CALL,
            Precedence::CALL => Precedence::PRIMARY,
            Precedence::PRIMARY => Precedence::PRIMARY,
        }
    }

    /// Whether this binding power is no tighter than `other`.
    pub fn at_most(self, other: Precedence) -> (le: bool)
        ensures
            le == (self.level() <= other.level()),
    {
        self.rank() <= other.rank()
    }
}

/// The handlers that a rule can name.
#[derive(Copy, Clone, Debug, PartialEq, Eq, Structural)]
pub enum ParseFunctions {
    Grouping,
    Unary,
    Binary,
    Number,
    Null,
}

/// What the parser does with a token kind: at the start of an expression,
/// between two operands, and how tightly it binds there.
#[derive(Copy, Clone, Debug, PartialEq, Eq, Structural)]
pub struct ParseRule {
    pub prefix: ParseFunctions,
    pub infix: ParseFunctions,
    pub precedence: Precedence,
}

impl ParseRule {
    /// The rule with these parts.
    pub fn new(prefix: ParseFunctions, infix: ParseFunctions, precedence: Precedence) -> (rule: Self)
        ensures
            rule == (ParseRule { prefix, infix, precedence }),
    {
        Self { prefix, infix, precedence }
    }

    /// The rule without handlers.
    pub fn empty() -> (rule: Self)
        ensures
            rule == ParseRule::none(),
    {
        Self {
            prefix: ParseFunctions::Null,
            infix: ParseFunctions::Null,
            precedence: Precedence::NONE,
        }
    }

    /// The rule of a token kind that starts nothing and joins nothing.
    pub open spec fn none() -> ParseRule {
        ParseRule { prefix: ParseFunctions::Null, infix: ParseFunctions::Null, precedence: Precedence::NONE }
    }
}

/// The rule of each token kind: `(` opens a group; `-` negates and
/// subtracts; `+` adds; `/`, `*` and `%` bind one level tighter; a number is
/// a literal. No other kind takes part in an expression.
pub open spec fn rule_of(token_type: TokenType) -> ParseRule {
    match token_type {
        TokenType::LEFT_PAREN => ParseRule {
            prefix: ParseFunctions::Grouping,
            infix: ParseFunctions::Null,
            precedence: Precedence::NONE,
        },
        TokenType::MINUS => ParseRule {
            prefix: ParseFunctions::Unary,
            infix: ParseFunctions::Binary,
            precedence: Precedence::TERM,
        },
        TokenType::PLUS => ParseRule {
            prefix: ParseFunctions::Null,
            infix: ParseFunctions::Binary,
            precedence: Precedence::TERM,
        },
        TokenType::SLASH | TokenType::STAR | TokenType::MOD => ParseRule {
            prefix: ParseFunctions::Null,
            infix: ParseFunctions::Binary,
            precedence: Precedence::FACTOR,
        },
        TokenType::NUMBER => ParseRule {
            prefix: ParseFunctions::Number,
            infix: ParseFunctions::Null,
            precedence: Precedence::NONE,
        },
        _ => ParseRule::none(),
    }
}

/// Whether `rules` has one slot per token kind, each with that kind's rule.
pub open spec fn is_rule_table(rules: Seq<ParseRule>) -> bool {
    &&& rules.len() == TOKEN_TYPE_COUNT
    &&& forall|token_type: TokenType| #[trigger] rules[token_type.ordinal() as int] == rule_of(token_type)
}

/// Builds the table of rules.
pub fn get_rule_array() -> (rules: Vec<ParseRule>)
    ensures
        is_rule_table(rules@),
{
    let mut rules: Vec<ParseRule> = Vec::new();
    while rules.len() < TOKEN_TYPE_COUNT
        invariant
            rules.len() <= TOKEN_TYPE_COUNT,
            forall|i: int| 0 <= i < rules.len() ==> #[trigger] rules[i] == ParseRule::none(),
        decreases TOKEN_TYPE_COUNT - rules.len(),
    {
        rules.push(ParseRule::empty());
    }
    rules.set(TokenType::LEFT_PAREN.index(), ParseRule::new(ParseFunctions::Grouping, ParseFunctions::Null, Precedence::NONE));
    rules.set(TokenType::RIGHT_PAREN.index(), ParseRule::new(ParseFunctions::Null, ParseFunctions::Null, Precedence::NONE));
    rules.set(TokenType::LEFT_BRACE.index(), ParseRule::new(ParseFunctions::Null, ParseFunctions::Null, Precedence::NONE));
    rules.set(TokenType::RIGHT_BRACE.index(), ParseRule::new(ParseFunctions::Null, ParseFunctions::Null, Precedence::NONE));
    rules.set(TokenType::COMMA.index(), ParseRule::new(ParseFunctions::Null, ParseFunctions::Null, Precedence::NONE));
    rules.set(TokenType::DOT.index(), ParseRule::new(ParseFunctions::Null, ParseFunctions::Null, Precedence::NONE));
    rules.set(TokenType::MINUS.index(), ParseRule::new(ParseFunctions::Unary, ParseFunctions::Binary, Precedence::TERM));
    rules.set(TokenType::PLUS.index(), ParseRule::new(ParseFunctions::Null, ParseFunctions::Binary, Precedence::TERM));
    rules.set(TokenType::SEMICOLON.index(), ParseRule::new(ParseFunctions::Null, ParseFunctions::Null, Precedence::NONE));
    rules.set(TokenType::SLASH.index(), ParseRule::new(ParseFunctions::Null, ParseFunctions::Binary, Precedence::FACTOR));
    rules.set(TokenType::STAR.index(), ParseRule::new(ParseFunctions::Null, ParseFunctions::Binary, Precedence::FACTOR));
    rules.set(TokenType::MOD.index(), ParseRule::new(ParseFunctions::Null, ParseFunctions::Binary, Precedence::FACTOR));
    rules.set(TokenType::BANG.index(), ParseRule::new(ParseFunctions::Null, ParseFunctions::Null, Precedence::NONE));
    rules.set(TokenType::BANG_EQUAL.index(), ParseRule::new(ParseFunctions::Null, ParseFunctions::Null, Precedence::NONE));
    rules.set(TokenType::EQUAL.index(), ParseRule::new(ParseFunctions::Null, ParseFunctions::Null, Precedence::NONE));
    rules.set(TokenType::EQUAL_EQUAL.index(), ParseRule::new(ParseFunctions::Null, ParseFunctions::Null, Precedence::NONE));
    rules.set(TokenType::GREATER.index(), ParseRule::new(ParseFunctions::Null, ParseFunctions::Null, Precedence::NONE));
    rules.set(TokenType::GREATER_EQUAL.index(), ParseRule::new(ParseFunctions::Null, ParseFunctions::Null, Precedence::NONE));
    rules.set(TokenType::LESS.index(), ParseRule::new(ParseFunctions::Null, ParseFunctions::Null, Precedence::NONE));
    rules.set(TokenType::LESS_EQUAL.index(), ParseRule::new(ParseFunctions::Null, ParseFunctions::Null, Precedence::NONE));
    rules.set(TokenType::IDENTIFIER.index(), ParseRule::new(ParseFunctions::Null, ParseFunctions::Null, Precedence::NONE));
    rules.set(TokenType::STRING.index(), ParseRule::new(ParseFunctions::Null, ParseFunctions::Null, Precedence::NONE));
    rules.set(TokenType::NUMBER.index(), ParseRule::new(ParseFunctions::Number, ParseFunctions::Null, Precedence::NONE));
    rules.set(TokenType::AND.index(), ParseRule::new(ParseFunctions::Null, ParseFunctions::Null, Precedence::NONE));
    rules.set(TokenType::CLASS.index(), ParseRule::new(ParseFunctions::Null, ParseFunctions::Null, Precedence::NONE));
    rules.set(TokenType::ELSE.index(), ParseRule::new(ParseFunctions::Null, ParseFunctions::Null, Precedence::NONE));
    rules.set(TokenType::FALSE.index(), ParseRule::new(ParseFunctions::Null, ParseFunctions::Null, Precedence::NONE));
    rules.set(TokenType::FOR.index(), ParseRule::new(ParseFunctions::Null, ParseFunctions::Null, Precedence::NONE));
    rules.set(TokenType::FUN.index(), ParseRule::new(ParseFunctions::Null, ParseFunctions::Null, Precedence::NONE));
    rules.set(TokenType::IF.index(), ParseRule::new(ParseFunctions::Null, ParseFunctions::Null, Precedence::NONE));
    rules.set(TokenType::NIL.index(), ParseRule::new(ParseFunctions::Null, ParseFunctions::Null, Precedence::NONE));
    rules.set(TokenType::OR.index(), ParseRule::new(ParseFunctions::Null, ParseFunctions::Null, Precedence::NONE));
    rules.set(TokenType::PRINT.index(), ParseRule::new(ParseFunctions::Null, ParseFunctions::Null, Precedence::NONE));
    rules.set(TokenType::RETURN.index(), ParseRule::new(ParseFunctions::Null, ParseFunctions::Null, Precedence::NONE));
    rules.set(TokenType::SUPER.index(), ParseRule::new(ParseFunctions::Null, ParseFunctions::Null, Precedence::NONE));
    rules.set(TokenType::THIS.index(), ParseRule::new(ParseFunctions::Null, ParseFunctions::Null, Precedence::NONE));
    rules.set(TokenType::TRUE.index(), ParseRule::new(ParseFunctions::Null, ParseFunctions::Null, Precedence::NONE));
    rules.set(TokenType::VAR.index(), ParseRule::new(ParseFunctions::Null, ParseFunctions::Null, Precedence::NONE));
    rules.set(TokenType::WHILE.index(), ParseRule::new(ParseFunctions::Null, ParseFunctions::Null, Precedence::NONE));
    rules.set(TokenType::ERROR.index(), ParseRule::new(ParseFunctions::Null, ParseFunctions::Null, Precedence::NONE));
    rules.set(TokenType::EOF.index(), ParseRule::new(ParseFunctions::Null, ParseFunctions::Null, Precedence::NONE));

    rules
}

} // verus!
