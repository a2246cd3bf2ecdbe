//! The proof that compiling the text of an expression and running the result
//! computes the value of the expression.

use vstd::prelude::*;
use crate::{compiled, executed};
use crate::chunk::{decodes, lemma_decodes_append};
use crate::compilation::{
    advance, binary, binary_opcode, emit_byte, emit_constant, expression, grouping, handle, infix,
    number, parse_precedence, State, unary,
};
use crate::diagnostic::Diagnostic;
use crate::expression::{Expr, Operator};
use crate::lexing::{
    blank_end, lemma_scan_shape, lemma_scan_state_bounds, newlines, nth_token, scan, scan_state,
};
use crate::opcode::OpCode;
use crate::parser::{ParseFunctions, Precedence, rule_of};
use crate::token::TokenType;
use crate::vm::{Machine, Outcome, run, Step, step};

verus! {

/// The code of an expression has two bytes for each literal and one for
/// each operator.
pub proof fn lemma_code_length(e: Expr, base: nat)
    ensures
        e.code(base).len() >= 2 * e.literals().len(),
        e.code(base).len() >= 2,
        e.literals().len() >= 1,
        e.width() >= 1,
    decreases e,
{
    match e {
        Expr::Number(_) => {},
        Expr::Group(inner) => {
            lemma_code_length(*inner, base);
        },
        Expr::Negate(operand) => {
            lemma_code_length(*operand, base);
        },
        Expr::Binary(_, left, right) => {
            lemma_code_length(*left, base);
            lemma_code_length(*right, base + left.literals().len());
        },
    }
}

/// Running the code of an expression pushes the expression's value and
/// leaves the machine behind the code, whatever stands around the code and
/// below on the stack.
pub proof fn lemma_run_expression(
    code: Seq<u8>,
    constants: Seq<u64>,
    e: Expr,
    base: nat,
    at: int,
    stack: Seq<u64>,
)
    requires
        0 <= at,
        at + e.code(base).len() <= code.len(),
        code.subrange(at, at + e.code(base).len()) == e.code(base),
        base + e.literals().len() <= 256,
        base + e.literals().len() <= constants.len(),
        constants.subrange(base as int, base as int + e.literals().len()) == e.literals(),
    ensures
        run(code, constants, Machine { pc: at, stack }) == run(
            code,
            constants,
            Machine { pc: at + e.code(base).len(), stack: stack.push(e.value()) },
        ),
    decreases e,
{
    let own = e.code(base);
    let pool = e.literals();
    assert forall|k: int| 0 <= k < own.len() implies code[at + k] == own[k] by {
        assert(code.subrange(at, at + own.len())[k] == code[at + k]);
    }
    assert forall|k: int| 0 <= k < pool.len() implies constants[base + k] == pool[k] by {
        assert(constants.subrange(base as int, base as int + pool.len())[k] == constants[base + k]);
    }
    match e {
        Expr::Number(value) => {
            assert(code[at] == own[0]);
            assert(code[at + 1] == own[1]);
            assert(constants[base as int + 0] == pool[0]);
        },
        Expr::Group(inner) => {
            lemma_run_expression(code, constants, *inner, base, at, stack);
        },
        Expr::Negate(operand) => {
            let inner = operand.code(base);
            assert(code.subrange(at, at + inner.len()) =~= inner);
            lemma_run_expression(code, constants, *operand, base, at, stack);
            let m = Machine { pc: at + inner.len(), stack: stack.push(operand.value()) };
            assert(code[at + inner.len()] == own[inner.len() as int]);
            assert(m.stack.drop_last() =~= stack);
            assert(step(code, constants, m) == Step::Next(
                Machine { pc: m.pc + 1, stack: stack.push(e.value()) },
            ));
        },
        Expr::Binary(operator, left, right) => {
            let lc = left.code(base);
            let second = base + left.literals().len();
            let rc = right.code(second);
            lemma_code_length(*left, base);
            lemma_code_length(*right, second);
            assert(own.len() == lc.len() + rc.len() + 1);
            assert(code.subrange(at, at + lc.len()) =~= lc) by {
                assert forall|k: int| 0 <= k < lc.len() implies code[at + k] == lc[k] by {
                    assert(own[k] == lc[k]);
                }
            }
            assert(code.subrange(at + lc.len(), at + lc.len() + rc.len()) =~= rc) by {
                assert forall|k: int| 0 <= k < rc.len() implies code[at + lc.len() + k] == rc[k] by {
                    assert(own[lc.len() + k] == rc[k]);
                }
            }
            assert(constants.subrange(base as int, base as int + left.literals().len())
                =~= left.literals()) by {
                assert forall|k: int| 0 <= k < left.literals().len() implies constants[base + k]
                    == left.literals()[k] by {
                    assert(pool[k] == left.literals()[k]);
                }
            }
            assert(constants.subrange(second as int, second as int + right.literals().len())
                =~= right.literals()) by {
                assert forall|k: int| 0 <= k < right.literals().len() implies constants[second + k]
                    == right.literals()[k] by {
                    assert(pool[left.literals().len() + k] == right.literals()[k]);
                }
            }
            lemma_run_expression(code, constants, *left, base, at, stack);
            let pushed = stack.push(left.value());
            lemma_run_expression(code, constants, *right, second, at + lc.len(), pushed);
            let m = Machine { pc: at + lc.len() + rc.len(), stack: pushed.push(right.value()) };
            assert(code[at + lc.len() + rc.len()] == own[lc.len() as int + rc.len()]);
            assert(m.stack.take(m.stack.len() - 2) =~= stack);
            assert(step(code, constants, m) == Step::Next(
                Machine { pc: m.pc + 1, stack: stack.push(e.value()) },
            ));
        },
    }
}

/// The compiler has token number `index` of the text in hand, and the
/// scanner stands behind that token.
pub open spec fn at_token(src: Seq<char>, s: State, index: nat) -> bool {
    &&& s.current == nth_token(src, index)
    &&& (s.pos, s.line) == scan_state(src, index + 1)
}

/// The state that compiling `e` leads to from `s`, where `e` is spelled
/// from token number `first` on: the token behind `e` is in hand, the code
/// and lines of `e` are written, and its literals are in the pool.
pub open spec fn after(src: Seq<char>, s: State, e: Expr, first: nat) -> State {
    let end = first + e.width();
    State {
        pos: scan_state(src, end + 1).0,
        line: scan_state(src, end + 1).1,
        current: nth_token(src, end),
        previous: nth_token(src, (end - 1) as nat),
        code: s.code + e.code(s.constants.len()),
        lines: s.lines + e.lines(src, first),
        constants: s.constants + e.literals(),
        ..s
    }
}

/// The scanner only moves forward.
pub proof fn lemma_scan_state_monotone(src: Seq<char>, i: nat, j: nat)
    requires
        src.len() <= usize::MAX,
        i <= j,
    ensures
        scan_state(src, i).0 <= scan_state(src, j).0,
    decreases j - i,
{
    if i < j {
        lemma_scan_state_monotone(src, i, (j - 1) as nat);
        lemma_scan_state_bounds(src, (j - 1) as nat);
        let (pos, line) = scan_state(src, (j - 1) as nat);
        lemma_scan_shape(src, pos, line);
    }
}

/// Behind the end-of-input token comes the end-of-input token again.
pub proof fn lemma_end_stays(src: Seq<char>, i: nat)
    requires
        src.len() <= usize::MAX,
        nth_token(src, i).token_type == TokenType::EOF,
    ensures
        nth_token(src, i + 1).token_type == TokenType::EOF,
        nth_token(src, i + 1).line == nth_token(src, i).line,
        scan_state(src, i + 2) == scan_state(src, i + 1),
{
    reveal(scan);
    lemma_scan_state_bounds(src, i);
    let (pos, line) = scan_state(src, i);
    lemma_scan_shape(src, pos, line);
    let r = scan(src, pos, line);
    assert(scan_state(src, i + 1) == (r.pos, r.line));
    assert(blank_end(src, r.pos) == r.pos);
    assert(newlines(src, r.pos, r.pos) == 0);
    let again = scan(src, r.pos, r.line);
    assert(again.pos == r.pos && again.line == r.line);
    assert(scan_state(src, i + 2) == (again.pos, again.line));
}

/// Every token that spells part of an expression is a token of an
/// expression: none is an error or the end of input.
pub proof fn lemma_spelled_tokens(src: Seq<char>, e: Expr, first: nat, k: nat)
    requires
        e.spelled(src, first),
        k < e.width(),
    ensures
        nth_token(src, first + k).token_type != TokenType::ERROR,
        nth_token(src, first + k).token_type != TokenType::EOF,
        k == 0 ==> rule_of(nth_token(src, first).token_type).prefix != ParseFunctions::Null,
    decreases e,
{
    match e {
        Expr::Number(_) => {},
        Expr::Group(inner) => {
            if 1 <= k <= inner.width() {
                lemma_spelled_tokens(src, *inner, first + 1, (k - 1) as nat);
            }
        },
        Expr::Negate(operand) => {
            if 1 <= k {
                lemma_spelled_tokens(src, *operand, first + 1, (k - 1) as nat);
            }
        },
        Expr::Binary(_, left, right) => {
            lemma_code_length(*left, 0);
            if k < left.width() {
                lemma_spelled_tokens(src, *left, first, k);
            } else if k > left.width() {
                lemma_spelled_tokens(src, *right, first + left.width() + 1, (k - left.width() - 1) as nat);
            }
            if k != 0 {
                lemma_spelled_tokens(src, *left, first, 0);
            }
        },
    }
}

/// Taking the next token in hand, where it is no error: the token moves
/// into `previous` and its successor into `current`.
pub proof fn lemma_advance_at(src: Seq<char>, s: State, index: nat)
    requires
        src.len() <= usize::MAX,
        at_token(src, s, index),
        nth_token(src, index + 1).token_type != TokenType::ERROR,
    ensures
        s.inv(src),
        advance(src, s) == (State {
            previous: s.current,
            current: nth_token(src, index + 1),
            pos: scan_state(src, index + 2).0,
            line: scan_state(src, index + 2).1,
            ..s
        }),
        at_token(src, advance(src, s), index + 1),
        advance(src, s).inv(src),
{
    lemma_scan_state_bounds(src, index + 1);
    lemma_scan_state_bounds(src, index + 2);
    let shifted = State { previous: s.current, ..s };
    assert(shifted.inv(src));
    let r = scan(src, s.pos, s.line);
    assert(r.token == nth_token(src, index + 1));
    assert(scan_state(src, index + 2) == (r.pos, r.line));
}

/// What is left to read does not grow from one token to a later one.
pub proof fn lemma_left_shrinks(src: Seq<char>, s: State, i: nat, t: State, j: nat)
    requires
        src.len() <= usize::MAX,
        at_token(src, s, i),
        at_token(src, t, j),
        i <= j,
        s.current.token_type != TokenType::EOF,
    ensures
        t.inv(src),
        t.left(src) <= s.left(src),
{
    lemma_scan_state_monotone(src, i + 1, j + 1);
    lemma_scan_state_bounds(src, j + 1);
}

/// What the parser needs to know of an expression and of the token behind
/// it, to parse the expression at binding power `min` from state `s`.
pub open spec fn parses(src: Seq<char>, s: State, e: Expr, first: nat, min: Precedence) -> bool {
    let follow = nth_token(src, first + e.width());
    &&& src.len() <= usize::MAX
    &&& at_token(src, s, first)
    &&& e.grammatical()
    &&& e.spelled(src, first)
    &&& 1 <= min.level() <= e.binding()
    &&& follow.token_type != TokenType::ERROR
    &&& rule_of(follow.token_type).precedence.level() <= e.binding()
    &&& s.constants.len() + e.literals().len() <= 256
}

/// No token binds as tightly as a unary operator does.
pub proof fn lemma_rule_levels(token_type: TokenType)
    ensures
        rule_of(token_type).precedence.level() < Precedence::UNARY.level(),
{
}

/// The rule of an operator's token: it is an infix operator of the
/// operator's binding power, and its right operand binds one level tighter.
pub proof fn lemma_operator_rule(operator: Operator)
    ensures
        rule_of(operator.token()).infix == ParseFunctions::Binary,
        rule_of(operator.token()).precedence.level() == operator.binding(),
        rule_of(operator.token()).precedence.successor().level() == operator.binding() + 1,
        binary_opcode(operator.token()) == Some(operator.opcode()),
        operator.opcode() != OpCode::OpConstant,
{
}

/// The first step of parsing: the expression's first token moves into
/// `previous`, and its prefix handler decides the rest.
pub proof fn lemma_parse_start(src: Seq<char>, s: State, e: Expr, first: nat, min: Precedence)
    requires
        parses(src, s, e, first, min),
    ensures
        s.inv(src),
        at_token(src, after(src, s, e, first), first + e.width()),
        after(src, s, e, first).inv(src),
        at_token(src, advance(src, s), first + 1),
        advance(src, s).inv(src),
        advance(src, s) == (State {
            previous: nth_token(src, first),
            current: nth_token(src, first + 1),
            pos: scan_state(src, first + 2).0,
            line: scan_state(src, first + 2).1,
            ..s
        }),
        e.width() > 1 ==> nth_token(src, first + 1).token_type != TokenType::EOF,
        ({
            let taken = advance(src, s);
            let prefix = rule_of(nth_token(src, first).token_type).prefix;
            let operand = handle(src, taken, prefix);
            &&& prefix != ParseFunctions::Null
            &&& parse_precedence(src, s, min) == if operand.inv(src) && operand.left(src) <= taken.left(
                src,
            ) {
                infix(src, operand, min)
            } else {
                operand
            }
        }),
{
    let end = first + e.width();
    lemma_scan_state_bounds(src, first + 1);
    lemma_scan_state_bounds(src, end + 1);
    lemma_spelled_tokens(src, e, first, 0);
    if e.width() > 1 {
        lemma_spelled_tokens(src, e, first, 1);
    }
    lemma_advance_at(src, s, first);
}

/// One turn of the infix loop, where an operator that binds tightly enough
/// is in hand and a token that is no error follows it.
pub proof fn lemma_infix_turn(src: Seq<char>, s: State, index: nat, min: Precedence)
    requires
        src.len() <= usize::MAX,
        at_token(src, s, index),
        nth_token(src, index + 1).token_type != TokenType::ERROR,
        min.level() <= rule_of(s.current.token_type).precedence.level(),
        rule_of(s.current.token_type).infix != ParseFunctions::Null,
    ensures
        ({
            let taken = advance(src, s);
            let operand = handle(src, taken, rule_of(s.current.token_type).infix);
            infix(src, s, min) == if operand.inv(src) && operand.left(src) <= taken.left(src) {
                infix(src, operand, min)
            } else {
                operand
            }
        }),
{
    lemma_advance_at(src, s, index);
}

/// Parsing a grammatical expression at a binding power that it reaches is
/// compiling the expression and then going on with the infix operators
/// behind it.
pub proof fn lemma_parse(src: Seq<char>, s: State, e: Expr, first: nat, min: Precedence)
    requires
        parses(src, s, e, first, min),
    ensures
        s.inv(src),
        at_token(src, after(src, s, e, first), first + e.width()),
        after(src, s, e, first).inv(src),
        parse_precedence(src, s, min) == infix(src, after(src, s, e, first), min),
    decreases e, 1nat,
{
    match e {
        Expr::Number(_) => lemma_parse_number(src, s, e, first, min),
        Expr::Group(_) => lemma_parse_group(src, s, e, first, min),
        Expr::Negate(_) => lemma_parse_negate(src, s, e, first, min),
        Expr::Binary(_, _, _) => lemma_parse_binary(src, s, e, first, min),
    }
}

proof fn lemma_parse_number(src: Seq<char>, s: State, e: Expr, first: nat, min: Precedence)
    requires
        parses(src, s, e, first, min),
        e is Number,
    ensures
        s.inv(src),
        at_token(src, after(src, s, e, first), first + e.width()),
        after(src, s, e, first).inv(src),
        parse_precedence(src, s, min) == infix(src, after(src, s, e, first), min),
{
    let done = after(src, s, e, first);
    lemma_parse_start(src, s, e, first, min);
    let taken = advance(src, s);
    let value = e->Number_0;
    let operand = handle(src, taken, ParseFunctions::Number);
    assert(operand == number(src, taken));
    assert(operand == emit_constant(taken, value));
    assert(operand.code =~= done.code);
    assert(operand.lines =~= done.lines);
    assert(operand.constants =~= done.constants);
    assert(operand == done);
}

proof fn lemma_parse_group(src: Seq<char>, s: State, e: Expr, first: nat, min: Precedence)
    requires
        parses(src, s, e, first, min),
        e is Group,
    ensures
        s.inv(src),
        at_token(src, after(src, s, e, first), first + e.width()),
        after(src, s, e, first).inv(src),
        parse_precedence(src, s, min) == infix(src, after(src, s, e, first), min),
    decreases e, 0nat,
{
    let done = after(src, s, e, first);
    let inner = *e->Group_0;
    lemma_parse_start(src, s, e, first, min);
    let taken = advance(src, s);
    lemma_code_length(inner, 0);
    lemma_parse_whole(src, taken, inner, first + 1, Precedence::ASSIGNMENT);
    let parsed = after(src, taken, inner, first + 1);
    assert(expression(src, taken) == parsed);
    lemma_advance_at(src, parsed, first + 1 + inner.width());
    let closed = advance(src, parsed);
    assert(grouping(src, taken) == closed);
    assert(handle(src, taken, ParseFunctions::Grouping) == closed);
    assert(closed.code =~= done.code);
    assert(closed.lines =~= done.lines);
    assert(closed.constants =~= done.constants);
    assert(closed == done);
    lemma_left_shrinks(src, taken, first + 1, done, first + e.width());
}

proof fn lemma_parse_negate(src: Seq<char>, s: State, e: Expr, first: nat, min: Precedence)
    requires
        parses(src, s, e, first, min),
        e is Negate,
    ensures
        s.inv(src),
        at_token(src, after(src, s, e, first), first + e.width()),
        after(src, s, e, first).inv(src),
        parse_precedence(src, s, min) == infix(src, after(src, s, e, first), min),
    decreases e, 0nat,
{
    let done = after(src, s, e, first);
    let operand = *e->Negate_0;
    lemma_parse_start(src, s, e, first, min);
    let taken = advance(src, s);
    lemma_code_length(operand, 0);
    lemma_rule_levels(nth_token(src, first + e.width()).token_type);
    assert(parses(src, taken, operand, first + 1, Precedence::UNARY));
    lemma_parse_whole(src, taken, operand, first + 1, Precedence::UNARY);
    let parsed = after(src, taken, operand, first + 1);
    let negated = emit_byte(parsed, OpCode::OpNegate.byte());
    assert(unary(src, taken) == negated);
    assert(handle(src, taken, ParseFunctions::Unary) == negated);
    assert(negated.code =~= done.code);
    assert(negated.lines =~= done.lines);
    assert(negated.constants =~= done.constants);
    assert(negated == done);
    lemma_left_shrinks(src, taken, first + 1, done, first + e.width());
}

proof fn lemma_parse_binary(src: Seq<char>, s: State, e: Expr, first: nat, min: Precedence)
    requires
        parses(src, s, e, first, min),
        e is Binary,
    ensures
        s.inv(src),
        at_token(src, after(src, s, e, first), first + e.width()),
        after(src, s, e, first).inv(src),
        parse_precedence(src, s, min) == infix(src, after(src, s, e, first), min),
    decreases e, 0nat,
{
    let done = after(src, s, e, first);
    let operator = e->Binary_0;
    let left = *e->Binary_1;
    let right = *e->Binary_2;
    lemma_code_length(left, s.constants.len());
    lemma_code_length(right, s.constants.len() + left.literals().len());
    lemma_operator_rule(operator);
    let middle = first + left.width();
    assert(parses(src, s, left, first, min));
    lemma_parse(src, s, left, first, min);
    let lhs = after(src, s, left, first);
    lemma_spelled_tokens(src, right, middle + 1, 0);
    lemma_infix_turn(src, lhs, middle, min);
    lemma_advance_at(src, lhs, middle);
    let joined = advance(src, lhs);
    let tighter = rule_of(operator.token()).precedence.successor();
    assert(joined.previous.token_type == operator.token());
    assert(parses(src, joined, right, middle + 1, tighter));
    lemma_parse_whole(src, joined, right, middle + 1, tighter);
    let rhs = after(src, joined, right, middle + 1);
    let applied = emit_byte(rhs, operator.opcode().byte());
    assert(binary(src, joined) == applied);
    assert(handle(src, joined, ParseFunctions::Binary) == applied);
    assert(applied.code =~= done.code);
    assert(applied.lines =~= done.lines);
    assert(applied.constants =~= done.constants);
    assert(applied == done);
    lemma_left_shrinks(src, joined, middle + 1, done, first + e.width());
}

/// Parsing a grammatical expression, where the token behind it binds less
/// tightly than asked, is compiling the expression.
pub proof fn lemma_parse_whole(src: Seq<char>, s: State, e: Expr, first: nat, min: Precedence)
    requires
        parses(src, s, e, first, min),
        rule_of(nth_token(src, first + e.width()).token_type).precedence.level() < min.level(),
    ensures
        s.inv(src),
        at_token(src, after(src, s, e, first), first + e.width()),
        after(src, s, e, first).inv(src),
        parse_precedence(src, s, min) == after(src, s, e, first),
    decreases e, 2nat,
{
    lemma_parse(src, s, e, first, min);
}

/// Compiling the text of a grammatical expression and running the chunk
/// gives the value of the expression: the value that its tree has under the
/// arithmetic of doubles, with conventional precedence.
///
/// In full: where the tokens of `src` spell `e`, the end of input follows
/// them and `e` has no more than 256 literals, the compilation reports
/// nothing, the chunk holds the postfix code of `e` and the return
/// instruction, the literals of `e` as its constants and a line for every
/// byte, and running it returns `e.value()`.
pub proof fn lemma_compile_then_run(src: Seq<char>, e: Expr)
    requires
        src.len() <= usize::MAX,
        e.grammatical(),
        e.spelled(src, 0),
        nth_token(src, e.width()).token_type == TokenType::EOF,
        e.literals().len() <= 256,
    ensures
        !compiled(src).had_error,
        compiled(src).diagnostics == Seq::<Diagnostic>::empty(),
        compiled(src).code == e.code(0).push(OpCode::OpReturn.byte()),
        compiled(src).constants == e.literals(),
        compiled(src).lines == e.lines(src, 0).push(nth_token(src, e.width()).line),
        compiled(src).sound(),
        executed(compiled(src)) == Outcome::Returned(e.value()),
{
    let start = State::initial(Seq::empty(), Seq::empty(), Seq::empty());
    let width = e.width();
    lemma_code_length(e, 0);
    lemma_spelled_tokens(src, e, 0, 0);
    lemma_scan_state_bounds(src, 1);
    let first = advance(src, start);
    assert(first == (State {
        current: nth_token(src, 0),
        pos: scan_state(src, 1).0,
        line: scan_state(src, 1).1,
        ..start
    })) by {
        let shifted = State { previous: start.current, ..start };
        assert(shifted == start);
        assert(start.inv(src));
        assert(scan_state(src, 0) == (0int, 0int));
        let r = scan(src, 0, 0);
        assert(r.token == nth_token(src, 0));
        assert(scan_state(src, 1) == (r.pos, r.line));
    }
    lemma_parse_whole(src, first, e, 0, Precedence::ASSIGNMENT);
    let parsed = after(src, first, e, 0);
    assert(expression(src, first) == parsed);
    lemma_end_stays(src, width);
    lemma_advance_at(src, parsed, width);
    let ended = advance(src, parsed);
    let last = emit_byte(ended, OpCode::OpReturn.byte());
    assert(compiled(src) == last);
    let code = e.code(0).push(OpCode::OpReturn.byte());
    assert(last.code =~= code);
    assert(last.constants =~= e.literals());
    assert(last.lines =~= e.lines(src, 0).push(nth_token(src, width).line));
    assert(last.diagnostics =~= Seq::<Diagnostic>::empty());

    let empty = Seq::<u64>::empty();
    assert(code.subrange(0, e.code(0).len() as int) =~= e.code(0));
    assert(last.constants.subrange(0, e.literals().len() as int) =~= e.literals());
    lemma_run_expression(code, last.constants, e, 0, 0, empty);
    let m = Machine { pc: e.code(0).len() as int, stack: empty.push(e.value()) };
    assert(code[m.pc] == OpCode::OpReturn.byte());
    assert(step(code, last.constants, m) == Step::Halt(
        Machine { pc: m.pc + 1, stack: m.stack.drop_last() },
        Outcome::Returned(e.value()),
    ));
    let pool = last.constants.len();
    let ret = seq![OpCode::OpReturn.byte()];
    lemma_code_sound(e, 0, pool);
    assert(decodes(ret, pool, 0)) by {
        assert(decodes(ret, pool, 1));
    }
    lemma_decodes_append(e.code(0), pool, 0, ret, pool);
    assert(e.code(0) + ret =~= code);
}

/// The code of an expression is made of whole instructions, and its
/// constants are in any pool that holds its literals from `base` on.
pub proof fn lemma_code_sound(e: Expr, base: nat, pool: nat)
    requires
        base + e.literals().len() <= pool,
        base + e.literals().len() <= 256,
    ensures
        decodes(e.code(base), pool, 0),
    decreases e,
{
    match e {
        Expr::Number(_) => {
            assert(decodes(e.code(base), pool, 2));
        },
        Expr::Group(inner) => {
            lemma_code_sound(*inner, base, pool);
        },
        Expr::Negate(operand) => {
            lemma_code_sound(*operand, base, pool);
            let op = seq![OpCode::OpNegate.byte()];
            assert(decodes(op, pool, 0)) by {
                assert(decodes(op, pool, 1));
            }
            lemma_decodes_append(operand.code(base), pool, 0, op, pool);
            assert(operand.code(base) + op =~= e.code(base));
        },
        Expr::Binary(operator, left, right) => {
            let second = base + left.literals().len();
            lemma_code_sound(*left, base, pool);
            lemma_code_sound(*right, second, pool);
            lemma_decodes_append(left.code(base), pool, 0, right.code(second), pool);
            let op = seq![operator.opcode().byte()];
            assert(decodes(op, pool, 0)) by {
                assert(decodes(op, pool, 1));
            }
            lemma_decodes_append(left.code(base) + right.code(second), pool, 0, op, pool);
            assert((left.code(base) + right.code(second)) + op =~= e.code(base));
        },
    }
}

} // verus!
