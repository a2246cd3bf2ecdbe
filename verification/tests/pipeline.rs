use lox_vm::diagnostic::Location;
use lox_vm::interpret;
use lox_vm::token::Message;
use lox_vm::vm::InterpretResult;

fn value_of(source: &str) -> f64 {
    let outcome = interpret(format!("{}\0", source));
    assert_eq!(outcome.result, InterpretResult::InterpretOk);
    assert!(outcome.diagnostics.is_empty());
    f64::from_bits(outcome.value.unwrap())
}

#[test]
fn literal_runs_to_itself() {
    assert_eq!(value_of("1.2"), 1.2);
    assert_eq!(value_of("0"), 0.0);
    assert_eq!(value_of("42"), 42.0);
}

#[test]
fn product_binds_tighter_than_sum() {
    assert_eq!(value_of("2 + 3 * 4"), 14.0);
    assert_eq!(value_of("(2 + 3) * 4"), 20.0);
    assert_eq!(value_of("2 * 3 + 4"), 10.0);
}

#[test]
fn subtraction_associates_to_the_left() {
    assert_eq!(value_of("10 - 2 - 3"), 5.0);
    assert_eq!(value_of("10 - 2 * 3 - 3"), 1.0);
    assert_eq!(value_of("100 / 10 / 5"), 2.0);
    assert_eq!(value_of("17 % 10 % 4"), 3.0);
}

#[test]
fn unary_minus_binds_tightest() {
    assert_eq!(value_of("-2 * 3"), -6.0);
    assert_eq!(value_of("-(2 + 3)"), -5.0);
    assert_eq!(value_of("--2"), 2.0);
    assert_eq!(value_of("3 - -2"), 5.0);
    assert_eq!(value_of("-2 - -3"), 1.0);
}

#[test]
fn division_by_zero_is_no_error() {
    assert_eq!(value_of("1 / 0"), f64::INFINITY);
    assert_eq!(value_of("-1 / 0"), f64::NEG_INFINITY);
    assert!(value_of("0 / 0").is_nan());
    assert!(value_of("5 % 0").is_nan());
}

#[test]
fn expressions_evaluate_as_doubles_do() {
    assert_eq!(value_of("0.1 + 0.2"), 0.1 + 0.2);
    assert_eq!(value_of("1 / 3 * 3"), 1.0 / 3.0 * 3.0);
    assert_eq!(value_of("7.5 % 2"), 7.5 % 2.0);
    assert_eq!(value_of("-7.5 % 2"), -7.5 % 2.0);
    assert_eq!(
        value_of("(1.5 + 2.25) * (3 - 0.125) / -4 % 1.1 - -6"),
        (1.5 + 2.25) * (3.0 - 0.125) / -4.0 % 1.1 - -6.0
    );
    assert_eq!(
        value_of("1 - 2 - 3 * 4 / 5 % 6 + 7 * -8 - (9 - 10 - 11)"),
        1.0 - 2.0 - 3.0 * 4.0 / 5.0 % 6.0 + 7.0 * -8.0 - (9.0 - 10.0 - 11.0)
    );
    assert_eq!(value_of("((((1))))"), 1.0);
    assert_eq!(value_of("2 // two\n * // times\n 3"), 6.0);
}

#[test]
fn unclosed_parenthesis_is_not_run() {
    let outcome = interpret(String::from("(1 + 2\0"));
    assert_eq!(outcome.result, InterpretResult::InterpretCompileError);
    assert_eq!(outcome.value, None);
    assert_eq!(outcome.diagnostics.len(), 1);
    assert_eq!(outcome.diagnostics[0].location, Location::AtEnd);
    assert_eq!(outcome.diagnostics[0].message, Some(Message::ExpectedRightParen));
}

#[test]
fn lexical_error_is_not_run() {
    let outcome = interpret(String::from("1 + $\0"));
    assert_eq!(outcome.result, InterpretResult::InterpretCompileError);
    assert_eq!(outcome.value, None);
    assert_eq!(outcome.diagnostics[0].message, Some(Message::UnexpectedCharacter));
}

#[test]
fn missing_operand_is_not_run() {
    for source in ["1 +\0", "\0", "", "+\0", "()\0", "2 * -\0", "(1 + 2) *\0"] {
        let outcome = interpret(String::from(source));
        assert_eq!(outcome.result, InterpretResult::InterpretCompileError, "{:?}", source);
        assert_eq!(outcome.value, None);
        assert_eq!(outcome.diagnostics.len(), 1);
        assert_eq!(outcome.diagnostics[0].message, Some(Message::ExpectedExpression));
    }
}

#[test]
fn no_source_ends_in_a_runtime_error() {
    let pieces = ["1", "2.5", "+", "-", "*", "/", "%", "(", ")", " ", "x", "@", "\n"];
    let mut sources = vec![String::new()];
    for _ in 0..4 {
        let mut longer = Vec::new();
        for source in &sources {
            for piece in pieces {
                longer.push(format!("{}{}", source, piece));
            }
        }
        for source in &longer {
            let outcome = interpret(format!("{}\0", source));
            assert_ne!(outcome.result, InterpretResult::InterpretRuntimeError, "{:?}", source);
            assert_eq!(outcome.result == InterpretResult::InterpretOk, outcome.value.is_some());
            assert_eq!(
                outcome.result == InterpretResult::InterpretCompileError,
                outcome.diagnostics.len() == 1
            );
        }
        sources = longer;
    }
}

fn sum_of_literals(count: usize) -> String {
    let terms: Vec<String> = (0..count).map(|n| n.to_string()).collect();
    format!("{}\0", terms.join(" + "))
}

#[test]
fn sum_of_256_literals_is_computed() {
    let outcome = interpret(sum_of_literals(256));
    assert_eq!(outcome.result, InterpretResult::InterpretOk);
    assert!(outcome.diagnostics.is_empty());
    assert_eq!(outcome.value, Some(32640.0f64.to_bits()));
}

#[test]
fn literal_257_takes_the_capacity_path() {
    let outcome = interpret(sum_of_literals(257));
    assert_eq!(outcome.result, InterpretResult::InterpretOk);
    assert_eq!(outcome.diagnostics.len(), 1);
    assert_eq!(outcome.diagnostics[0].location, Location::InChunk);
    assert_eq!(outcome.diagnostics[0].message, Some(Message::TooManyConstants));
    assert_eq!(outcome.value, Some(32640.0f64.to_bits()));
}

#[test]
fn source_without_terminator_is_interpreted_too() {
    let outcome = interpret(String::from("2 * 21"));
    assert_eq!(outcome.result, InterpretResult::InterpretOk);
    assert_eq!(outcome.value, Some(42.0f64.to_bits()));
}

#[test]
fn longer_literal_is_not_run() {
    let source = format!("{} * 2\0", "1".repeat(lox_vm::number::MAX_LITERAL_LENGTH + 1));
    let outcome = interpret(source);
    assert_eq!(outcome.result, InterpretResult::InterpretCompileError);
    assert_eq!(outcome.value, None);
    assert_eq!(outcome.diagnostics.len(), 1);
    assert_eq!(outcome.diagnostics[0].message, Some(Message::InvalidNumber));
    assert_eq!(outcome.diagnostics[0].location, Location::At(0));
}
