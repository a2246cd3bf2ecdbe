//! What a compilation does, as functions on a `State`: a single pass over
//! the tokens that parses by binding power and writes bytecode as it goes.

use vstd::prelude::*;
use crate::chunk::MAX_CONSTANTS;
use crate::diagnostic::{Diagnostic, Location};
use crate::lexing::{at_end, is_decimal_literal, lemma_scan_shape, lexeme, scan};
use crate::number::literal_of;
use crate::opcode::OpCode;
use crate::parser::{ParseFunctions, Parser, Precedence, rule_of};
use crate::token::{Message, Token, TokenType};

verus! {

/// Everything that a compilation has reached: how far the source is read,
/// the two tokens in hand, the error flags, the chunk written so far and the
/// reports made.
pub struct State {
    pub pos: int,
    pub line: int,
    pub current: Token,
    pub previous: Token,
    pub had_error: bool,
    pub panic_mode: bool,
    pub code: Seq<u8>,
    pub lines: Seq<u64>,
    pub constants: Seq<u64>,
    pub diagnostics: Seq<Diagnostic>,
}

impl State {
    /// The state before the first token is read, over a chunk that may
    /// already hold something.
    pub open spec fn initial(code: Seq<u8>, lines: Seq<u64>, constants: Seq<u64>) -> State {
        State {
            pos: 0,
            line: 0,
            current: Parser::blank_token(),
            previous: Parser::blank_token(),
            had_error: false,
            panic_mode: false,
            code,
            lines,
            constants,
            diagnostics: Seq::empty(),
        }
    }

    /// The read position lies in the source.
    pub open spec fn inv(self, src: Seq<char>) -> bool {
        0 <= self.line <= self.pos <= src.len() <= usize::MAX
    }

    /// What is left to read: it shrinks with every token taken in hand, and
    /// once more when the end-of-input token is.
    pub open spec fn left(self, src: Seq<char>) -> int {
        2 * (src.len() - self.pos) + if self.current.token_type == TokenType::EOF {
            0int
        } else {
            1int
        }
    }
}

/// Where a report about `token` points.
pub open spec fn location_of(token: Token) -> Location {
    match token.token_type {
        TokenType::EOF => Location::AtEnd,
        TokenType::ERROR => Location::AtEnd,
        _ => Location::At(token.start),
    }
}

/// Reports an error at `token` with the message that the token carries,
/// unless one was reported before: the first report latches panic mode,
/// which silences the later ones.
pub open spec fn report_at(s: State, token: Token) -> State {
    if s.panic_mode {
        s
    } else {
        State {
            panic_mode: true,
            had_error: true,
            diagnostics: s.diagnostics.push(
                Diagnostic { line: token.line, location: location_of(token), message: token.message },
            ),
            ..s
        }
    }
}

/// Reports an error at the current token.
pub open spec fn report(s: State) -> State {
    report_at(s, s.current)
}

/// Reports `message` at the token taken last: it cannot stand where it
/// stands.
pub open spec fn reject(s: State, message: Message) -> State {
    report_at(s, Token { message: Some(message), ..s.previous })
}

/// Reads on until a token that is no error is in hand, reporting each error
/// token on the way.
pub open spec fn read_token(src: Seq<char>, s: State) -> State
    decreases src.len() - s.pos,
    when s.inv(src)
{
    let r = scan(src, s.pos, s.line);
    let read = State { pos: r.pos, line: r.line, current: r.token, ..s };
    if r.token.token_type != TokenType::ERROR {
        read
    } else {
        proof {
            lemma_scan_shape(src, s.pos, s.line);
        }
        read_token(src, report(read))
    }
}

/// Shifts the current token into `previous` and takes the next one in hand.
pub open spec fn advance(src: Seq<char>, s: State) -> State {
    read_token(src, State { previous: s.current, ..s })
}

/// Takes the expected token, or reports `message` at the token found instead.
pub open spec fn consume(src: Seq<char>, s: State, token_type: TokenType, message: Message) -> State {
    if s.current.token_type == token_type {
        advance(src, s)
    } else {
        report(State { current: Token { message: Some(message), ..s.current }, ..s })
    }
}

/// Writes one byte, tagged with the line of the previous token.
pub open spec fn emit_byte(s: State, byte: u8) -> State {
    State { code: s.code.push(byte), lines: s.lines.push(s.previous.line), ..s }
}

/// Adds a constant to the pool and writes the instruction that loads it.
/// A constant beyond the 256 that an operand byte can address is reported,
/// and the instruction loads constant 0 instead.
pub open spec fn emit_constant(s: State, value: u64) -> State {
    let index = s.constants.len();
    let added = State { constants: s.constants.push(value), ..s };
    let operand = if index >= MAX_CONSTANTS {
        0u8
    } else {
        index as u8
    };
    let noted = if index >= MAX_CONSTANTS {
        State {
            diagnostics: added.diagnostics.push(
                Diagnostic {
                    line: s.previous.line,
                    location: Location::InChunk,
                    message: Some(Message::TooManyConstants),
                },
            ),
            ..added
        }
    } else {
        added
    };
    emit_byte(emit_byte(noted, OpCode::OpConstant.byte()), operand)
}

/// A number literal: the double that the previous token's text denotes
/// becomes a constant. A text that denotes none is rejected: of the number
/// tokens, those that are longer than a literal may be.
pub open spec fn number(src: Seq<char>, s: State) -> State {
    match literal_of(lexeme(src, s.previous)) {
        Some(value) => emit_constant(s, value),
        None => reject(s, Message::InvalidNumber),
    }
}

/// The instruction of a binary operator.
pub open spec fn binary_opcode(token_type: TokenType) -> Option<OpCode> {
    match token_type {
        TokenType::PLUS => Some(OpCode::OpAdd),
        TokenType::MINUS => Some(OpCode::OpSub),
        TokenType::STAR => Some(OpCode::OpMult),
        TokenType::SLASH => Some(OpCode::OpDiv),
        TokenType::MOD => Some(OpCode::OpMod),
        _ => None,
    }
}

/// A group: an expression, then the closing parenthesis.
pub open spec fn grouping(src: Seq<char>, s: State) -> State
    decreases s.left(src), 3int,
    when s.inv(src)
{
    consume(src, expression(src, s), TokenType::RIGHT_PAREN, Message::ExpectedRightParen)
}

/// An expression: anything that binds at least as tightly as assignment.
pub open spec fn expression(src: Seq<char>, s: State) -> State
    decreases s.left(src), 2int,
    when s.inv(src)
{
    parse_precedence(src, s, Precedence::ASSIGNMENT)
}

/// A prefix operator: its operand, which binds at least as tightly as a
/// unary operator, then the operator's instruction.
pub open spec fn unary(src: Seq<char>, s: State) -> State
    decreases s.left(src), 2int,
    when s.inv(src)
{
    let operand = parse_precedence(src, s, Precedence::UNARY);
    match s.previous.token_type {
        TokenType::MINUS => emit_byte(operand, OpCode::OpNegate.byte()),
        _ => operand,
    }
}

/// An infix operator, the left operand being written already: the right
/// operand, which binds tighter than the operator, then the operator's
/// instruction.
pub open spec fn binary(src: Seq<char>, s: State) -> State
    decreases s.left(src), 2int,
    when s.inv(src)
{
    let operator = s.previous.token_type;
    let operand = parse_precedence(src, s, rule_of(operator).precedence.successor());
    match binary_opcode(operator) {
        Some(opcode) => emit_byte(operand, opcode.byte()),
        None => operand,
    }
}

/// Runs the handler that a rule names.
pub open spec fn handle(src: Seq<char>, s: State, handler: ParseFunctions) -> State
    decreases s.left(src), 4int,
    when s.inv(src)
{
    match handler {
        ParseFunctions::Binary => binary(src, s),
        ParseFunctions::Unary => unary(src, s),
        ParseFunctions::Number => number(src, s),
        ParseFunctions::Grouping => grouping(src, s),
        ParseFunctions::Null => s,
    }
}

/// Parses what binds at least as tightly as `precedence`: takes one token
/// and runs its prefix handler, then takes infix operators as long as the
/// token in hand binds tightly enough. A token that cannot start an
/// expression is rejected, and the step ends where it stands.
pub open spec fn parse_precedence(src: Seq<char>, s: State, precedence: Precedence) -> State
    decreases s.left(src), 1int,
    when s.inv(src)
{
    let taken = advance(src, s);
    let prefix = rule_of(taken.previous.token_type).prefix;
    if prefix == ParseFunctions::Null {
        reject(taken, Message::ExpectedExpression)
    } else {
        proof {
            lemma_advance_shrinks(src, s);
        }
        let operand = handle(src, taken, prefix);
        // a handler only reads on (`safety::lemma_handle_follows`); the test
        // makes the definition well-founded
        if operand.inv(src) && operand.left(src) <= taken.left(src) {
            infix(src, operand, precedence)
        } else {
            operand
        }
    }
}

/// The loop of `parse_precedence` behind the prefix part.
pub open spec fn infix(src: Seq<char>, s: State, precedence: Precedence) -> State
    decreases s.left(src), 0int,
    when s.inv(src)
{
    if precedence.level() <= rule_of(s.current.token_type).precedence.level() {
        let taken = advance(src, s);
        let handler = rule_of(taken.previous.token_type).infix;
        if handler == ParseFunctions::Null {
            taken
        } else {
            proof {
                lemma_advance_shrinks(src, s);
            }
            let operand = handle(src, taken, handler);
            // a handler only reads on (`safety::lemma_handle_follows`); the
            // test makes the definition well-founded
            if operand.inv(src) && operand.left(src) <= taken.left(src) {
                infix(src, operand, precedence)
            } else {
                operand
            }
        }
    } else {
        s
    }
}

/// A whole compilation: one expression, the end of input, and the
/// instruction that returns the expression's value.
pub open spec fn compilation(src: Seq<char>, s: State) -> State {
    let parsed = expression(src, advance(src, s));
    let ended = consume(src, parsed, TokenType::EOF, Message::ExpectedEndOfExpression);
    emit_byte(ended, OpCode::OpReturn.byte())
}

/// Reading on keeps the state in the source and the chunk as it is, and
/// never leaves an error token in hand.
pub proof fn lemma_read_token(src: Seq<char>, s: State)
    requires
        s.inv(src),
    ensures
        ({
            let t = read_token(src, s);
            &&& t.inv(src)
            &&& t.pos >= s.pos
            &&& t.current.token_type != TokenType::EOF ==> t.pos > s.pos
            &&& t.current.token_type != TokenType::ERROR
            &&& t.current.token_type == TokenType::EOF ==> at_end(src, t.pos)
            &&& token_fits(src, t.current)
            &&& t.previous == s.previous
            &&& t.code == s.code
            &&& t.lines == s.lines
            &&& t.constants == s.constants
        }),
    decreases src.len() - s.pos,
{
    lemma_scan_shape(src, s.pos, s.line);
    let r = scan(src, s.pos, s.line);
    let read = State { pos: r.pos, line: r.line, current: r.token, ..s };
    if r.token.token_type == TokenType::ERROR {
        lemma_read_token(src, report(read));
    }
}

/// Taking a token in hand leaves less to read, unless the end of input was
/// in hand already.
pub proof fn lemma_advance_shrinks(src: Seq<char>, s: State)
    requires
        s.inv(src),
    ensures
        advance(src, s).inv(src),
        advance(src, s).left(src) <= s.left(src),
        s.current.token_type != TokenType::EOF ==> advance(src, s).left(src) < s.left(src),
        advance(src, s).previous == s.current,
{
    lemma_read_token(src, State { previous: s.current, ..s });
}

/// The token lies in the source, and where it is a number its text is a
/// decimal literal.
pub open spec fn token_fits(src: Seq<char>, token: Token) -> bool {
    &&& token.start + token.length <= src.len()
    &&& token.token_type == TokenType::NUMBER ==> is_decimal_literal(lexeme(src, token))
}

} // verus!
