//! Expressions as trees, and what they mean: their tokens, their bytecode and
//! their value.

use vstd::prelude::*;
use crate::lexing::{lexeme, nth_token};
use crate::number::{literal_of, negation_of, result_of};
use crate::opcode::OpCode;
use crate::parser::Precedence;
use crate::token::TokenType;

verus! {

/// The binary operators.
pub enum Operator {
    Add,
    Subtract,
    Multiply,
    Divide,
    Remainder,
}

impl Operator {
    /// The token that spells the operator.
    pub open spec fn token(self) -> TokenType {
        match self {
            Operator::Add => TokenType::PLUS,
            Operator::Subtract => TokenType::MINUS,
            Operator::Multiply => TokenType::STAR,
            Operator::Divide => TokenType::SLASH,
            Operator::Remainder => TokenType::MOD,
        }
    }

    /// The instruction that computes the operator.
    pub open spec fn opcode(self) -> OpCode {
        match self {
            Operator::Add => OpCode::OpAdd,
            Operator::Subtract => OpCode::OpSub,
            Operator::Multiply => OpCode::OpMult,
            Operator::Divide => OpCode::OpDiv,
            Operator::Remainder => OpCode::OpMod,
        }
    }

    /// How tightly the operator binds: `+` and `-` as terms, the others as
    /// factors.
    pub open spec fn binding(self) -> nat {
        match self {
            Operator::Add | Operator::Subtract => Precedence::TERM.level(),
            _ => Precedence::FACTOR.level(),
        }
    }
}

/// An expression, as the conventional grammar reads it.
pub enum Expr {
    /// A literal, with the double that its text denotes.
    Number(u64),
    /// An expression in parentheses.
    Group(Box<Expr>),
    /// A unary minus and its operand.
    Negate(Box<Expr>),
    /// A binary operator with its left and right operand.
    Binary(Operator, Box<Expr>, Box<Expr>),
}

impl Expr {
    /// How many tokens spell the expression.
    pub open spec fn width(self) -> nat
        decreases self,
    {
        match self {
            Expr::Number(_) => 1,
            Expr::Group(inner) => inner.width() + 2,
            Expr::Negate(operand) => operand.width() + 1,
            Expr::Binary(_, left, right) => left.width() + 1 + right.width(),
        }
    }

    /// How tightly the outermost construct binds.
    pub open spec fn binding(self) -> nat {
        match self {
            Expr::Number(_) => Precedence::PRIMARY.level(),
            Expr::Group(_) => Precedence::PRIMARY.level(),
            Expr::Negate(_) => Precedence::UNARY.level(),
            Expr::Binary(operator, _, _) => operator.binding(),
        }
    }

    /// The tree is the one that conventional precedence gives its tokens:
    /// unary minus binds tightest, then `*`, `/` and `%`, then `+` and `-`,
    /// and operators of one level group from the left. So an operand of a
    /// unary minus binds at least as tightly as it, a left operand at least
    /// as tightly as its operator, and a right operand tighter.
    pub open spec fn grammatical(self) -> bool
        decreases self,
    {
        match self {
            Expr::Number(_) => true,
            Expr::Group(inner) => inner.grammatical(),
            Expr::Negate(operand) => operand.grammatical() && operand.binding() >= Precedence::UNARY.level(),
            Expr::Binary(operator, left, right) => {
                &&& left.grammatical()
                &&& right.grammatical()
                &&& left.binding() >= operator.binding()
                &&& right.binding() > operator.binding()
            },
        }
    }

    /// The tokens of `src` from number `first` on spell the expression, and
    /// each literal's text denotes the literal's double; so none is longer
    /// than a literal may be.
    pub open spec fn spelled(self, src: Seq<char>, first: nat) -> bool
        decreases self,
    {
        match self {
            Expr::Number(value) => {
                &&& nth_token(src, first).token_type == TokenType::NUMBER
                &&& literal_of(lexeme(src, nth_token(src, first))) == Some(value)
            },
            Expr::Group(inner) => {
                &&& nth_token(src, first).token_type == TokenType::LEFT_PAREN
                &&& inner.spelled(src, first + 1)
                &&& nth_token(src, first + 1 + inner.width()).token_type == TokenType::RIGHT_PAREN
            },
            Expr::Negate(operand) => {
                &&& nth_token(src, first).token_type == TokenType::MINUS
                &&& operand.spelled(src, first + 1)
            },
            Expr::Binary(operator, left, right) => {
                &&& left.spelled(src, first)
                &&& nth_token(src, first + left.width()).token_type == operator.token()
                &&& right.spelled(src, first + left.width() + 1)
            },
        }
    }

    /// The literals of the expression, from left to right.
    pub open spec fn literals(self) -> Seq<u64>
        decreases self,
    {
        match self {
            Expr::Number(value) => seq![value],
            Expr::Group(inner) => inner.literals(),
            Expr::Negate(operand) => operand.literals(),
            Expr::Binary(_, left, right) => left.literals() + right.literals(),
        }
    }

    /// The value of the expression.
    pub open spec fn value(self) -> u64
        decreases self,
    {
        match self {
            Expr::Number(value) => value,
            Expr::Group(inner) => inner.value(),
            Expr::Negate(operand) => negation_of(operand.value()),
            Expr::Binary(operator, left, right) => result_of(operator.opcode(), left.value(), right.value()),
        }
    }

    /// The bytecode of the expression, in postfix order, where its first
    /// literal is constant number `base` of the pool.
    pub open spec fn code(self, base: nat) -> Seq<u8>
        decreases self,
    {
        match self {
            Expr::Number(_) => seq![OpCode::OpConstant.byte(), base as u8],
            Expr::Group(inner) => inner.code(base),
            Expr::Negate(operand) => operand.code(base).push(OpCode::OpNegate.byte()),
            Expr::Binary(operator, left, right) => (left.code(base) + right.code(
                base + left.literals().len(),
            )).push(operator.opcode().byte()),
        }
    }

    /// The line of each byte of `code`: that of the last token read when the
    /// byte was written.
    pub open spec fn lines(self, src: Seq<char>, first: nat) -> Seq<u64>
        decreases self,
    {
        match self {
            Expr::Number(_) => seq![nth_token(src, first).line, nth_token(src, first).line],
            Expr::Group(inner) => inner.lines(src, first + 1),
            Expr::Negate(operand) => operand.lines(src, first + 1).push(
                nth_token(src, first + operand.width()).line,
            ),
            Expr::Binary(_, left, right) => (left.lines(src, first) + right.lines(
                src,
                first + left.width() + 1,
            )).push(nth_token(src, (first + left.width() + right.width()) as nat).line),
        }
    }
}

} // verus!
