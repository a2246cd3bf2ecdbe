//! What every compilation keeps: the code stays sound, the reports stay in
//! order, and a compilation without an error writes a chunk that is safe to
//! run.

use vstd::prelude::*;
use crate::chunk::{decodes, depth_after, lemma_decodes_append, lemma_depth_append, MAX_CONSTANTS};
use crate::compilation::{
    advance, binary_opcode, compilation, consume, emit_byte, emit_constant, expression, handle,
    infix, lemma_advance_shrinks, lemma_read_token, location_of, number, parse_precedence,
    read_token, report, report_at, State,
};
use crate::diagnostic::{Diagnostic, Location};
use crate::lexing::{lemma_scan_shape, lexeme, scan};
use crate::number::literal_of;
use crate::opcode::OpCode;
use crate::parser::{ParseFunctions, Precedence, rule_of};
use crate::token::{Message, Token, TokenType};

verus! {

impl State {
    /// The code written so far is made of whole instructions, and every
    /// constant that one of them loads is in the pool.
    pub open spec fn sound(self) -> bool {
        decodes(self.code, self.constants.len(), 0)
    }
}

/// Writing a whole instruction keeps the code sound.
pub proof fn lemma_emit_keeps_sound(s: State, opcode: OpCode)
    requires
        s.sound(),
        opcode != OpCode::OpConstant,
    ensures
        emit_byte(s, opcode.byte()).sound(),
{
    let more = seq![opcode.byte()];
    assert(decodes(more, s.constants.len(), 0)) by {
        assert(decodes(more, s.constants.len(), 1));
    }
    lemma_decodes_append(s.code, s.constants.len(), 0, more, s.constants.len());
    assert(s.code + more =~= s.code.push(opcode.byte()));
}

/// Writing a constant and its load keeps the code sound.
pub proof fn lemma_emit_constant_keeps_sound(s: State, value: u64)
    requires
        s.sound(),
    ensures
        emit_constant(s, value).sound(),
{
    let t = emit_constant(s, value);
    let operand = t.code[s.code.len() as int + 1];
    let more = seq![OpCode::OpConstant.byte(), operand];
    assert(decodes(more, t.constants.len(), 0)) by {
        assert(decodes(more, t.constants.len(), 2));
    }
    lemma_decodes_append(s.code, s.constants.len(), 0, more, t.constants.len());
    assert(s.code + more =~= t.code);
}

/// How many of the reports point at a token or at the end of input.
pub open spec fn token_reports(reports: Seq<Diagnostic>) -> nat
    decreases reports.len(),
{
    if reports.len() == 0 {
        0
    } else {
        token_reports(reports.drop_last()) + if reports.last().location == Location::InChunk {
            0nat
        } else {
            1nat
        }
    }
}

impl State {
    /// What holds between the steps of a compilation: the code is sound,
    /// every byte has its line, the error flag is set exactly if panic mode
    /// is on, and then exactly one report points at a token.
    pub open spec fn settled(self) -> bool {
        &&& self.sound()
        &&& self.lines.len() == self.code.len()
        &&& self.had_error == self.panic_mode
        &&& token_reports(self.diagnostics) == if self.panic_mode {
            1nat
        } else {
            0nat
        }
    }

    /// `self` comes after `before` in a compilation: it lies in the source,
    /// has no more left to read, keeps an error that was reported, and is
    /// settled if `before` was.
    pub open spec fn follows(self, src: Seq<char>, before: State) -> bool {
        &&& self.inv(src)
        &&& self.left(src) <= before.left(src)
        &&& before.had_error ==> self.had_error
        &&& before.settled() ==> self.settled()
    }
}

/// A report keeps the state settled, and sets the error flag where the
/// state was settled.
pub proof fn lemma_report_settles(s: State, token: Token)
    ensures
        s.settled() ==> report_at(s, token).settled() && report_at(s, token).had_error,
        s.had_error ==> report_at(s, token).had_error,
{
    if !s.panic_mode {
        let report = Diagnostic { line: token.line, location: location_of(token), message: token.message };
        assert(s.diagnostics.push(report).drop_last() =~= s.diagnostics);
    }
}

/// Reading on keeps the state settled.
pub proof fn lemma_read_token_settles(src: Seq<char>, s: State)
    requires
        s.inv(src),
    ensures
        s.settled() ==> read_token(src, s).settled(),
        s.had_error ==> read_token(src, s).had_error,
    decreases src.len() - s.pos,
{
    lemma_scan_shape(src, s.pos, s.line);
    let r = scan(src, s.pos, s.line);
    let read = State { pos: r.pos, line: r.line, current: r.token, ..s };
    if r.token.token_type == TokenType::ERROR {
        lemma_report_settles(read, read.current);
        lemma_read_token_settles(src, report(read));
    }
}

/// The state with the next token in hand follows the state before.
pub proof fn lemma_advance_follows(src: Seq<char>, s: State)
    requires
        s.inv(src),
    ensures
        advance(src, s).follows(src, s),
        s.current.token_type != TokenType::EOF ==> advance(src, s).left(src) < s.left(src),
        advance(src, s).previous == s.current,
        advance(src, s).code == s.code,
        advance(src, s).constants == s.constants,
{
    lemma_advance_shrinks(src, s);
    lemma_read_token(src, State { previous: s.current, ..s });
    lemma_read_token_settles(src, State { previous: s.current, ..s });
}

/// The state behind an expected token, or behind the report that it is
/// missing, follows the state before.
pub proof fn lemma_consume_follows(src: Seq<char>, s: State, token_type: TokenType, message: Message)
    requires
        s.inv(src),
    ensures
        consume(src, s, token_type, message).follows(src, s),
        consume(src, s, token_type, message).code == s.code,
        consume(src, s, token_type, message).constants == s.constants,
{
    if s.current.token_type == token_type {
        lemma_advance_follows(src, s);
    } else {
        let marked = State { current: Token { message: Some(message), ..s.current }, ..s };
        lemma_report_settles(marked, marked.current);
    }
}

/// Writing an instruction without operand keeps the state settled.
pub proof fn lemma_emit_settles(s: State, opcode: OpCode)
    requires
        opcode != OpCode::OpConstant,
    ensures
        s.settled() ==> emit_byte(s, opcode.byte()).settled(),
{
    if s.settled() {
        lemma_emit_keeps_sound(s, opcode);
    }
}

/// Compiling a literal keeps the state settled.
pub proof fn lemma_number_settles(src: Seq<char>, s: State)
    ensures
        s.settled() ==> number(src, s).settled(),
        s.had_error ==> number(src, s).had_error,
{
    match literal_of(lexeme(src, s.previous)) {
        Some(value) => {
            if s.settled() {
                lemma_emit_constant_keeps_sound(s, value);
            }
            if s.constants.len() >= MAX_CONSTANTS {
                let report = Diagnostic {
                    line: s.previous.line,
                    location: Location::InChunk,
                    message: Some(Message::TooManyConstants),
                };
                assert(s.diagnostics.push(report).drop_last() =~= s.diagnostics);
            }
        },
        None => {
            lemma_report_settles(s, Token { message: Some(Message::InvalidNumber), ..s.previous });
        },
    }
}

/// The state behind a step of parsing follows the state before it.
pub proof fn lemma_parse_precedence_follows(src: Seq<char>, s: State, precedence: Precedence)
    requires
        s.inv(src),
    ensures
        parse_precedence(src, s, precedence).follows(src, s),
    decreases s.left(src), 1int,
{
    lemma_advance_follows(src, s);
    let taken = advance(src, s);
    let prefix = rule_of(taken.previous.token_type).prefix;
    if prefix != ParseFunctions::Null {
        lemma_handle_follows(src, taken, prefix);
        lemma_infix_follows(src, handle(src, taken, prefix), precedence);
    } else {
        lemma_report_settles(taken, Token { message: Some(Message::ExpectedExpression), ..taken.previous });
    }
}

/// The state behind the infix operators follows the state before them.
pub proof fn lemma_infix_follows(src: Seq<char>, s: State, precedence: Precedence)
    requires
        s.inv(src),
    ensures
        infix(src, s, precedence).follows(src, s),
    decreases s.left(src), 0int,
{
    if precedence.level() <= rule_of(s.current.token_type).precedence.level() {
        lemma_advance_follows(src, s);
        let taken = advance(src, s);
        let handler = rule_of(taken.previous.token_type).infix;
        if handler != ParseFunctions::Null {
            lemma_handle_follows(src, taken, handler);
            lemma_infix_follows(src, handle(src, taken, handler), precedence);
        }
    }
}

/// The state behind a handler follows the state before it: a handler only
/// reads on.
pub proof fn lemma_handle_follows(src: Seq<char>, s: State, handler: ParseFunctions)
    requires
        s.inv(src),
    ensures
        handle(src, s, handler).follows(src, s),
    decreases s.left(src), 4int,
{
    match handler {
        ParseFunctions::Binary => {
            let operator = s.previous.token_type;
            lemma_parse_precedence_follows(src, s, rule_of(operator).precedence.successor());
            let operand = parse_precedence(src, s, rule_of(operator).precedence.successor());
            match binary_opcode(operator) {
                Some(opcode) => lemma_emit_settles(operand, opcode),
                None => {},
            }
        },
        ParseFunctions::Unary => {
            lemma_parse_precedence_follows(src, s, Precedence::UNARY);
            let operand = parse_precedence(src, s, Precedence::UNARY);
            if s.previous.token_type == TokenType::MINUS {
                lemma_emit_settles(operand, OpCode::OpNegate);
            }
        },
        ParseFunctions::Number => {
            lemma_number_settles(src, s);
        },
        ParseFunctions::Grouping => {
            lemma_parse_precedence_follows(src, s, Precedence::ASSIGNMENT);
            lemma_consume_follows(
                src,
                expression(src, s),
                TokenType::RIGHT_PAREN,
                Message::ExpectedRightParen,
            );
        },
        ParseFunctions::Null => {},
    }
}

impl State {
    /// How many values the code written so far leaves on a stack that was
    /// empty, if it runs through without a fault.
    pub open spec fn height(self) -> Option<nat> {
        depth_after(self.code, self.constants.len(), 0, 0)
    }

    /// The chunk is safe to run: its code ends with a return instruction,
    /// and what stands before that runs through without a fault, from an
    /// empty stack, and leaves exactly one value for the return to take.
    pub open spec fn safe(self) -> bool {
        &&& self.code.len() >= 1
        &&& self.code.last() == OpCode::OpReturn.byte()
        &&& depth_after(self.code.drop_last(), self.constants.len(), 0, 0) == Some(1nat)
    }
}

/// Negation keeps the height, and a binary instruction lowers it by one,
/// where the stack holds what the instruction takes.
pub proof fn lemma_emit_height(s: State, opcode: OpCode, height: nat)
    requires
        s.height() == Some(height),
        opcode != OpCode::OpConstant,
        opcode != OpCode::OpReturn,
        height >= if opcode == OpCode::OpNegate {
            1nat
        } else {
            2nat
        },
    ensures
        emit_byte(s, opcode.byte()).height() == Some(
            if opcode == OpCode::OpNegate {
                height
            } else {
                (height - 1) as nat
            },
        ),
{
    let pool = s.constants.len();
    let more = seq![opcode.byte()];
    lemma_depth_append(s.code, pool, 0, 0, more, pool);
    assert(s.code + more =~= s.code.push(opcode.byte()));
    assert(depth_after(more, pool, 1, height) == Some(height));
    if opcode != OpCode::OpNegate {
        assert(depth_after(more, pool, 1, (height - 1) as nat) == Some((height - 1) as nat));
    }
}

/// A constant load raises the height by one.
pub proof fn lemma_emit_constant_height(s: State, value: u64, height: nat)
    requires
        s.height() == Some(height),
    ensures
        emit_constant(s, value).height() == Some(height + 1),
{
    let t = emit_constant(s, value);
    let operand = t.code[s.code.len() as int + 1];
    let more = seq![OpCode::OpConstant.byte(), operand];
    let pool = t.constants.len();
    lemma_depth_append(s.code, s.constants.len(), 0, 0, more, pool);
    assert(s.code + more =~= t.code);
    assert(depth_after(more, pool, 2, height + 1) == Some(height + 1));
}

/// A step of parsing that ends without an error has written code that
/// leaves one value more on the stack.
pub proof fn lemma_parse_precedence_pushes(src: Seq<char>, s: State, precedence: Precedence, height: nat)
    requires
        s.inv(src),
        s.settled(),
        precedence.level() >= 1,
        s.height() == Some(height),
    ensures
        parse_precedence(src, s, precedence).had_error || parse_precedence(src, s, precedence).height()
            == Some(height + 1),
    decreases s.left(src), 1int,
{
    lemma_advance_follows(src, s);
    let taken = advance(src, s);
    let prefix = rule_of(taken.previous.token_type).prefix;
    if prefix == ParseFunctions::Null {
        lemma_report_settles(taken, Token { message: Some(Message::ExpectedExpression), ..taken.previous });
    } else {
        lemma_prefix_pushes(src, taken, prefix, height);
        lemma_handle_follows(src, taken, prefix);
        let operand = handle(src, taken, prefix);
        lemma_infix_follows(src, operand, precedence);
        if !operand.had_error {
            lemma_infix_keeps_height(src, operand, precedence, height + 1);
        }
    }
}

/// The infix operators behind an operand, where they end without an error,
/// have written code that leaves the stack as high as it was.
pub proof fn lemma_infix_keeps_height(src: Seq<char>, s: State, precedence: Precedence, height: nat)
    requires
        s.inv(src),
        s.settled(),
        precedence.level() >= 1,
        height >= 1,
        s.height() == Some(height),
    ensures
        infix(src, s, precedence).had_error || infix(src, s, precedence).height() == Some(height),
    decreases s.left(src), 0int,
{
    if precedence.level() <= rule_of(s.current.token_type).precedence.level() {
        lemma_advance_follows(src, s);
        let taken = advance(src, s);
        let handler = rule_of(taken.previous.token_type).infix;
        assert(handler == ParseFunctions::Binary);
        lemma_binary_keeps_height(src, taken, height);
        lemma_handle_follows(src, taken, handler);
        let operand = handle(src, taken, handler);
        lemma_infix_follows(src, operand, precedence);
        if !operand.had_error {
            lemma_infix_keeps_height(src, operand, precedence, height);
        }
    }
}

/// A prefix handler that ends without an error has written code that
/// leaves one value more on the stack.
pub proof fn lemma_prefix_pushes(src: Seq<char>, s: State, handler: ParseFunctions, height: nat)
    requires
        s.inv(src),
        s.settled(),
        s.height() == Some(height),
        handler == ParseFunctions::Number || handler == ParseFunctions::Grouping || handler
            == ParseFunctions::Unary,
    ensures
        handle(src, s, handler).had_error || handle(src, s, handler).height() == Some(height + 1),
    decreases s.left(src), 4int,
{
    match handler {
        ParseFunctions::Number => {
            match literal_of(lexeme(src, s.previous)) {
                Some(value) => lemma_emit_constant_height(s, value, height),
                None => lemma_report_settles(
                    s,
                    Token { message: Some(Message::InvalidNumber), ..s.previous },
                ),
            }
        },
        ParseFunctions::Grouping => {
            lemma_parse_precedence_pushes(src, s, Precedence::ASSIGNMENT, height);
            lemma_parse_precedence_follows(src, s, Precedence::ASSIGNMENT);
            lemma_consume_follows(
                src,
                expression(src, s),
                TokenType::RIGHT_PAREN,
                Message::ExpectedRightParen,
            );
        },
        ParseFunctions::Unary => {
            lemma_parse_precedence_pushes(src, s, Precedence::UNARY, height);
            let operand = parse_precedence(src, s, Precedence::UNARY);
            if s.previous.token_type == TokenType::MINUS && !operand.had_error {
                lemma_emit_height(operand, OpCode::OpNegate, height + 1);
            }
        },
        _ => {},
    }
}

/// The handler of a binary operator, where it ends without an error, has
/// written code that leaves the stack as high as it was: one value for the
/// right operand, and the instruction makes one of two.
pub proof fn lemma_binary_keeps_height(src: Seq<char>, s: State, height: nat)
    requires
        s.inv(src),
        s.settled(),
        height >= 1,
        s.height() == Some(height),
        binary_opcode(s.previous.token_type) is Some,
    ensures
        handle(src, s, ParseFunctions::Binary).had_error || handle(
            src,
            s,
            ParseFunctions::Binary,
        ).height() == Some(height),
    decreases s.left(src), 4int,
{
    let tighter = rule_of(s.previous.token_type).precedence.successor();
    lemma_parse_precedence_pushes(src, s, tighter, height);
    let operand = parse_precedence(src, s, tighter);
    if !operand.had_error {
        lemma_emit_height(operand, binary_opcode(s.previous.token_type)->0, height + 1);
    }
}

/// A compilation without an error, into a chunk that was empty or left the
/// stack empty, has written a chunk that is safe to run.
pub proof fn lemma_compilation_is_safe(src: Seq<char>, s: State)
    requires
        s.inv(src),
        s.settled(),
        s.height() == Some(0nat),
    ensures
        !compilation(src, s).had_error ==> compilation(src, s).safe(),
{
    lemma_advance_follows(src, s);
    let first = advance(src, s);
    lemma_parse_precedence_follows(src, first, Precedence::ASSIGNMENT);
    lemma_parse_precedence_pushes(src, first, Precedence::ASSIGNMENT, 0);
    let parsed = expression(src, first);
    lemma_consume_follows(src, parsed, TokenType::EOF, Message::ExpectedEndOfExpression);
    let ended = consume(src, parsed, TokenType::EOF, Message::ExpectedEndOfExpression);
    assert(emit_byte(ended, OpCode::OpReturn.byte()).code.drop_last() =~= ended.code);
}

/// A compilation that starts settled ends settled, and the code it wrote
/// ends with the return instruction.
pub proof fn lemma_compilation_settles(src: Seq<char>, s: State)
    requires
        s.inv(src),
        s.settled(),
    ensures
        compilation(src, s).settled(),
        compilation(src, s).code.len() >= 1,
        compilation(src, s).code.last() == OpCode::OpReturn.byte(),
        decodes(compilation(src, s).code.drop_last(), compilation(src, s).constants.len(), 0),
{
    lemma_advance_follows(src, s);
    let first = advance(src, s);
    lemma_parse_precedence_follows(src, first, Precedence::ASSIGNMENT);
    let parsed = expression(src, first);
    lemma_consume_follows(src, parsed, TokenType::EOF, Message::ExpectedEndOfExpression);
    let ended = consume(src, parsed, TokenType::EOF, Message::ExpectedEndOfExpression);
    lemma_emit_settles(ended, OpCode::OpReturn);
    assert(emit_byte(ended, OpCode::OpReturn.byte()).code.drop_last() =~= ended.code);
}

} // verus!
