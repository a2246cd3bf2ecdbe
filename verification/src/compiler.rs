//! The compiler: computes, over a scanner and a chunk, exactly what
//! `compilation` defines.

use vstd::prelude::*;
use vstd::string::StringExecFns;
use crate::chunk::{Chunk, MAX_CONSTANTS};
use crate::compilation::{
    advance, binary, compilation, consume, emit_byte, emit_constant, expression, grouping, handle,
    infix, lemma_advance_shrinks, number, parse_precedence, read_token, reject, report, report_at,
    State, token_fits, unary,
};
use crate::diagnostic::{Diagnostic, Location};
use crate::lexing::lemma_scan_shape;
use crate::number::{literal_value, MAX_LITERAL_LENGTH};
use crate::opcode::OpCode;
use crate::parser::{ParseFunctions, Parser, ParseRule, Precedence, rule_of};
use crate::safety::{lemma_compilation_is_safe, lemma_compilation_settles};
use crate::scanner::{characters, Scanner};
use crate::token::{Message, Token, TokenType};

verus! {

/// Compiles one source text into one chunk.
pub struct Compiler {
    scanner: Scanner,
    parser: Parser,
    chunk: Chunk,
    source: Vec<char>,
    diagnostics: Vec<Diagnostic>,
}

impl View for Compiler {
    type V = State;

    closed spec fn view(&self) -> State {
        State {
            pos: self.scanner.position(),
            line: self.scanner.line_number(),
            current: self.parser.current,
            previous: self.parser.previous,
            had_error: self.parser.had_error,
            panic_mode: self.parser.panic_mode,
            code: self.chunk.code@,
            lines: self.chunk.lines@,
            constants: self.chunk.constants@,
            diagnostics: self.diagnostics@,
        }
    }
}

impl Compiler {
    /// The text being compiled.
    pub closed spec fn source(&self) -> Seq<char> {
        self.source@
    }

    /// The parts fit together: scanner and compiler read the same text, the
    /// rule table is the standard one, every byte of code has its line, and
    /// the tokens in hand lie in the text.
    pub closed spec fn wf(&self) -> bool {
        &&& self.scanner.wf()
        &&& self.parser.wf()
        &&& self.chunk.wf()
        &&& self.scanner.source() == self.source@
        &&& self@.inv(self.source@)
        &&& token_fits(self.source@, self.parser.current)
        &&& token_fits(self.source@, self.parser.previous)
    }

    /// A compiler over `source` that appends to `chunk`.
    pub fn from_source(source: String, chunk: Chunk) -> (compiler: Self)
        requires
            chunk.wf(),
        ensures
            compiler.wf(),
            compiler.source() == source@,
            compiler@ == State::initial(chunk.code@, chunk.lines@, chunk.constants@),
            source@.len() <= usize::MAX,
    {
        let compiler = Self {
            scanner: Scanner::new(source.as_str()),
            parser: Parser::new(),
            chunk: chunk,
            source: characters(source.as_str()),
            diagnostics: Vec::new(),
        };
        proof {
            assert(compiler.source.len() == compiler.source@.len());
        }
        compiler
    }

    /// Compiles the source. `true` means that no error at a token was
    /// reported, and then, where the chunk was empty before, that the chunk
    /// is safe to run. A full constant pool is reported and is no such error.
    pub fn compile(&mut self) -> (ok: bool)
        requires
            old(self).wf(),
        ensures
            final(self).wf(),
            final(self).source() == old(self).source(),
            final(self)@ == compilation(old(self).source(), old(self)@),
            ok == !final(self)@.had_error,
            old(self)@.settled() ==> final(self)@.settled(),
            ok && old(self)@.settled() && old(self)@.height() == Some(0nat) ==> final(self)@.safe(),
    {
        proof {
            if self@.settled() {
                lemma_compilation_settles(self.source(), self@);
                if self@.height() == Some(0nat) {
                    lemma_compilation_is_safe(self.source(), self@);
                }
            }
        }
        self.advance();
        self.expression();
        self.consume(TokenType::EOF, Message::ExpectedEndOfExpression);
        self.end_compile();

        return !self.parser.had_error;
    }

    /// The chunk written so far.
    pub fn chunk(&self) -> (chunk: &Chunk)
        requires
            self.wf(),
        ensures
            chunk.wf(),
            chunk.code@ == self@.code,
            chunk.lines@ == self@.lines,
            chunk.constants@ == self@.constants,
    {
        &self.chunk
    }

    /// Gives up the compiler for its chunk and its reports.
    pub fn finish(self) -> (parts: (Chunk, Vec<Diagnostic>))
        requires
            self.wf(),
        ensures
            parts.0.wf(),
            parts.0.code@ == self@.code,
            parts.0.lines@ == self@.lines,
            parts.0.constants@ == self@.constants,
            parts.1@ == self@.diagnostics,
    {
        (self.chunk, self.diagnostics)
    }

    /// The reports made so far, in the order in which they were made.
    pub fn diagnostics(&self) -> (reports: &Vec<Diagnostic>)
        ensures
            reports@ == self@.diagnostics,
    {
        &self.diagnostics
    }

    /// Whether an error at a token was reported.
    pub fn had_error(&self) -> (had: bool)
        ensures
            had == self@.had_error,
    {
        self.parser.had_error
    }

    /// Shifts the current token into `previous` and reads the next one that
    /// is no error.
    fn advance(&mut self)
        requires
            old(self).wf(),
        ensures
            final(self).wf(),
            final(self).source() == old(self).source(),
            final(self)@ == advance(old(self).source(), old(self)@),
            final(self)@.left(old(self).source()) <= old(self)@.left(old(self).source()),
            old(self)@.current.token_type != TokenType::EOF ==> final(self)@.left(old(self).source())
                < old(self)@.left(old(self).source()),
            final(self)@.previous == old(self)@.current,
    {
        let ghost src = self.source();
        self.parser.previous = self.parser.current;
        let ghost shifted = self@;
        proof {
            lemma_advance_shrinks(src, old(self)@);
        }

        loop
            invariant_except_break
                read_token(src, self@) == read_token(src, shifted),
            invariant
                self.scanner.wf(),
                self.parser.wf(),
                self.chunk.wf(),
                self.scanner.source() == src,
                self.source@ == src,
                self@.inv(src),
                token_fits(src, self.parser.previous),
            ensures
                self.wf(),
                self.source() == src,
                self@ == read_token(src, shifted),
            decreases src.len() - self@.pos,
        {
            proof {
                lemma_scan_shape(src, self@.pos, self@.line);
            }
            self.parser.current = self.scanner.scan_token();
            // an error token is reported and passed over
            match self.parser.current.token_type {
                TokenType::ERROR => {},
                _ => {
                    break ;
                },
            }

            self.error_at_current();
        }
    }

    /// Compiles an expression.
    fn expression(&mut self)
        requires
            old(self).wf(),
        ensures
            final(self).wf(),
            final(self).source() == old(self).source(),
            final(self)@ == expression(old(self).source(), old(self)@),
            final(self)@.left(old(self).source()) <= old(self)@.left(old(self).source()),
        decreases old(self)@.left(old(self).source()), 2int,
    {
        self.parse_precedence(Precedence::ASSIGNMENT);
    }

    /// Takes the expected token, or reports `message`.
    fn consume(&mut self, token_type: TokenType, message: Message)
        requires
            old(self).wf(),
        ensures
            final(self).wf(),
            final(self).source() == old(self).source(),
            final(self)@ == consume(old(self).source(), old(self)@, token_type, message),
            final(self)@.left(old(self).source()) <= old(self)@.left(old(self).source()),
    {
        if self.parser.current.token_type == token_type {
            self.advance();
            return ;
        }
        self.parser.current.message = Some(message);
        self.error_at_current()
    }

    /// Writes one byte, with the line of the previous token.
    fn emit_byte(&mut self, byte: u8)
        requires
            old(self).wf(),
        ensures
            final(self).wf(),
            final(self).source() == old(self).source(),
            final(self)@ == emit_byte(old(self)@, byte),
    {
        self.chunk.write_chunk(byte, self.parser.previous.line);
    }

    /// Writes two bytes.
    fn emit_two_bytes(&mut self, byte1: u8, byte2: u8)
        requires
            old(self).wf(),
        ensures
            final(self).wf(),
            final(self).source() == old(self).source(),
            final(self)@ == emit_byte(emit_byte(old(self)@, byte1), byte2),
    {
        self.emit_byte(byte1);
        self.emit_byte(byte2);
    }

    /// Ends the chunk.
    fn end_compile(&mut self)
        requires
            old(self).wf(),
        ensures
            final(self).wf(),
            final(self).source() == old(self).source(),
            final(self)@ == emit_byte(old(self)@, OpCode::OpReturn.byte()),
    {
        self.emit_return();
    }

    /// Writes the return instruction.
    fn emit_return(&mut self)
        requires
            old(self).wf(),
        ensures
            final(self).wf(),
            final(self).source() == old(self).source(),
            final(self)@ == emit_byte(old(self)@, OpCode::OpReturn.byte()),
    {
        self.emit_byte(OpCode::OpReturn.to_byte());
    }

    /// Adds a constant and writes the instruction that loads it.
    fn emit_constant(&mut self, value: u64)
        requires
            old(self).wf(),
        ensures
            final(self).wf(),
            final(self).source() == old(self).source(),
            final(self)@ == emit_constant(old(self)@, value),
    {
        let byte2 = self.make_constant(value);
        self.emit_two_bytes(OpCode::OpConstant.to_byte(), byte2)
    }

    /// Adds a constant and returns the operand that names it: 0, with a
    /// report, where the pool is full.
    fn make_constant(&mut self, value: u64) -> (index: u8)
        requires
            old(self).wf(),
        ensures
            final(self).wf(),
            final(self).source() == old(self).source(),
            emit_byte(emit_byte(final(self)@, OpCode::OpConstant.byte()), index) == emit_constant(
                old(self)@,
                value,
            ),
    {
        let constant = self.chunk.add_constant(value);
        if constant >= MAX_CONSTANTS {
            self.diagnostics.push(
                Diagnostic {
                    line: self.parser.previous.line,
                    location: Location::InChunk,
                    message: Some(Message::TooManyConstants),
                },
            );
            return 0;
        }
        return constant as u8;
    }

    /// Compiles the number literal in `previous`.
    fn handle_number(&mut self)
        requires
            old(self).wf(),
        ensures
            final(self).wf(),
            final(self).source() == old(self).source(),
            final(self)@ == number(old(self).source(), old(self)@),
            final(self)@.left(old(self).source()) <= old(self)@.left(old(self).source()),
    {
        let mut string: Vec<char> = Vec::new();
        let start = self.parser.previous.start;
        let end = start + self.parser.previous.length;
        let mut i = start;
        while i < end
            invariant
                start <= i <= end <= self.source@.len(),
                string@ == self.source@.subrange(start as int, i as int),
            decreases end - i,
        {
            string.push(self.source[i]);
            i += 1;
        }

        match literal_value(&string) {
            Some(value) => self.emit_constant(value),
            None => {
                // of the number tokens, only one that is too long is not read
                assert(self.parser.previous.token_type == TokenType::NUMBER
                    ==> self.parser.previous.length > MAX_LITERAL_LENGTH);
                self.error_at_previous(Message::InvalidNumber)
            },
        }
    }

    /// Compiles a group, its opening parenthesis being in `previous`.
    fn handle_grouping(&mut self)
        requires
            old(self).wf(),
        ensures
            final(self).wf(),
            final(self).source() == old(self).source(),
            final(self)@ == grouping(old(self).source(), old(self)@),
            final(self)@.left(old(self).source()) <= old(self)@.left(old(self).source()),
        decreases old(self)@.left(old(self).source()), 3int,
    {
        self.expression();
        self.consume(TokenType::RIGHT_PAREN, Message::ExpectedRightParen);
    }

    /// Compiles a prefix operator's operand and the operator, which is in
    /// `previous`.
    fn handle_unary(&mut self)
        requires
            old(self).wf(),
        ensures
            final(self).wf(),
            final(self).source() == old(self).source(),
            final(self)@ == unary(old(self).source(), old(self)@),
            final(self)@.left(old(self).source()) <= old(self)@.left(old(self).source()),
        decreases old(self)@.left(old(self).source()), 2int,
    {
        let token_type = self.parser.previous.token_type;
        self.parse_precedence(Precedence::UNARY);

        match token_type {
            TokenType::MINUS => self.emit_byte(OpCode::OpNegate.to_byte()),
            _ => {
                return
            },
        }
    }

    /// Compiles an infix operator's right operand and the operator, which is
    /// in `previous`.
    fn handle_binary(&mut self)
        requires
            old(self).wf(),
        ensures
            final(self).wf(),
            final(self).source() == old(self).source(),
            final(self)@ == binary(old(self).source(), old(self)@),
            final(self)@.left(old(self).source()) <= old(self)@.left(old(self).source()),
        decreases old(self)@.left(old(self).source()), 2int,
    {
        let operator_type = self.parser.previous.token_type;
        let rule = self.get_rule(operator_type);

        let precedence = rule.precedence.next();

        self.parse_precedence(precedence);

        match operator_type {
            TokenType::PLUS => self.emit_byte(OpCode::OpAdd.to_byte()),
            TokenType::MINUS => self.emit_byte(OpCode::OpSub.to_byte()),
            TokenType::STAR => self.emit_byte(OpCode::OpMult.to_byte()),
            TokenType::SLASH => self.emit_byte(OpCode::OpDiv.to_byte()),
            TokenType::MOD => self.emit_byte(OpCode::OpMod.to_byte()),
            _ => {
                return
            },
        }
    }

    /// Compiles what binds at least as tightly as `precedence`.
    fn parse_precedence(&mut self, precedence: Precedence)
        requires
            old(self).wf(),
        ensures
            final(self).wf(),
            final(self).source() == old(self).source(),
            final(self)@ == parse_precedence(old(self).source(), old(self)@, precedence),
            final(self)@.left(old(self).source()) <= old(self)@.left(old(self).source()),
        decreases old(self)@.left(old(self).source()), 1int,
    {
        let ghost src = self.source();
        self.advance();

        let token_type = self.parser.previous.token_type;
        let rule = self.get_rule(token_type);

        if rule.prefix == ParseFunctions::Null {
            self.error_at_previous(Message::ExpectedExpression);
            return ;
        }
        self.dispatch(rule.prefix);

        while precedence.at_most(self.get_rule(self.parser.current.token_type).precedence)
            invariant
                self.wf(),
                self.source() == src,
                src == old(self).source(),
                old(self)@.inv(src),
                infix(src, self@, precedence) == parse_precedence(src, old(self)@, precedence),
                self@.left(src) < old(self)@.left(src),
            decreases self@.left(src),
        {
            self.advance();
            let prev_token_type = self.parser.previous.token_type;
            let infix_rule = self.get_rule(prev_token_type);
            if infix_rule.infix == ParseFunctions::Null {
                return ;
            }
            self.dispatch(infix_rule.infix);
        }
    }

    /// Runs the handler that a rule names.
    fn dispatch(&mut self, handler: ParseFunctions)
        requires
            old(self).wf(),
        ensures
            final(self).wf(),
            final(self).source() == old(self).source(),
            final(self)@ == handle(old(self).source(), old(self)@, handler),
            final(self)@.left(old(self).source()) <= old(self)@.left(old(self).source()),
        decreases old(self)@.left(old(self).source()), 4int,
    {
        match handler {
            ParseFunctions::Binary => self.handle_binary(),
            ParseFunctions::Unary => self.handle_unary(),
            ParseFunctions::Number => self.handle_number(),
            ParseFunctions::Grouping => self.handle_grouping(),
            _ => {},
        }
    }

    /// The rule of a token kind.
    fn get_rule(&self, token_type: TokenType) -> (rule: ParseRule)
        requires
            self.wf(),
        ensures
            rule == rule_of(token_type),
    {
        self.parser.parse_rules[token_type.index()]
    }

    /// Reports an error at the current token, unless panic mode is on.
    fn error_at_current(&mut self)
        ensures
            final(self)@ == report(old(self)@),
            final(self).scanner == old(self).scanner,
            final(self).parser.parse_rules == old(self).parser.parse_rules,
            final(self).chunk == old(self).chunk,
            final(self).source == old(self).source,
    {
        let token = self.parser.current;
        self.error_at(token)
    }

    /// Reports `message` at the previous token, unless panic mode is on.
    fn error_at_previous(&mut self, message: Message)
        requires
            old(self).wf(),
        ensures
            final(self).wf(),
            final(self).source() == old(self).source(),
            final(self)@ == reject(old(self)@, message),
            final(self)@.left(old(self).source()) == old(self)@.left(old(self).source()),
    {
        let mut token = self.parser.previous;
        token.message = Some(message);
        self.error_at(token)
    }

    /// Reports an error at `token`, unless panic mode is on.
    fn error_at(&mut self, token: Token)
        ensures
            final(self)@ == report_at(old(self)@, token),
            final(self).scanner == old(self).scanner,
            final(self).parser.parse_rules == old(self).parser.parse_rules,
            final(self).parser.current == old(self).parser.current,
            final(self).parser.previous == old(self).parser.previous,
            final(self).chunk == old(self).chunk,
            final(self).source == old(self).source,
    {
        if self.parser.panic_mode {
            return ;
        }
        self.parser.panic_mode = true;

        let location = match token.token_type {
            TokenType::EOF => Location::AtEnd,
            TokenType::ERROR => Location::AtEnd,
            _ => Location::At(token.start),
        };
        self.diagnostics.push(Diagnostic { line: token.line, location, message: token.message });

        self.parser.had_error = true;
    }
}

} // verus!
