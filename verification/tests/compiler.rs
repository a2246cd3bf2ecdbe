use lox_vm::chunk::Chunk;
use lox_vm::compiler::Compiler;
use lox_vm::diagnostic::{Diagnostic, Location};
use lox_vm::number::MAX_LITERAL_LENGTH;
use lox_vm::token::Message;

fn compile(source: &str) -> (bool, Chunk, Vec<Diagnostic>) {
    let mut compiler = Compiler::from_source(format!("{}\0", source), Chunk::new());
    let ok = compiler.compile();
    assert_eq!(ok, !compiler.had_error());
    let (chunk, diagnostics) = compiler.finish();
    assert_eq!(chunk.lines.len(), chunk.code.len());
    (ok, chunk, diagnostics)
}

fn bits(values: &[f64]) -> Vec<u64> {
    values.iter().map(|value| value.to_bits()).collect()
}

const CONSTANT: u8 = 0;
const ADD: u8 = 1;
const SUB: u8 = 2;
const MULT: u8 = 3;
const DIV: u8 = 4;
const MOD: u8 = 5;
const NEGATE: u8 = 6;
const RETURN: u8 = 7;

#[test]
fn literal_compiles_to_a_constant_load() {
    let (ok, chunk, diagnostics) = compile("1.2");
    assert!(ok);
    assert!(diagnostics.is_empty());
    assert_eq!(chunk.code, vec![CONSTANT, 0, RETURN]);
    assert_eq!(chunk.constants, bits(&[1.2]));
    assert_eq!(chunk.lines, vec![0, 0, 0]);
}

#[test]
fn literals_are_read_as_decimals() {
    let (_, chunk, _) = compile("0 + 007 + 3.25 + 1000000 + 0.1 + 123456789012345678901234567890");
    assert_eq!(
        chunk.constants,
        bits(&[0.0, 7.0, 3.25, 1000000.0, 0.1, 123456789012345678901234567890.0])
    );
}

#[test]
fn binary_operators_compile_to_postfix() {
    let (ok, chunk, _) = compile("1 + 2");
    assert!(ok);
    assert_eq!(chunk.code, vec![CONSTANT, 0, CONSTANT, 1, ADD, RETURN]);
    assert_eq!(chunk.constants, bits(&[1.0, 2.0]));
    assert_eq!(compile("1 - 2").1.code, vec![CONSTANT, 0, CONSTANT, 1, SUB, RETURN]);
    assert_eq!(compile("1 * 2").1.code, vec![CONSTANT, 0, CONSTANT, 1, MULT, RETURN]);
    assert_eq!(compile("1 / 2").1.code, vec![CONSTANT, 0, CONSTANT, 1, DIV, RETURN]);
    assert_eq!(compile("1 % 2").1.code, vec![CONSTANT, 0, CONSTANT, 1, MOD, RETURN]);
}

#[test]
fn factors_bind_tighter_than_terms() {
    assert_eq!(
        compile("2 + 3 * 4").1.code,
        vec![CONSTANT, 0, CONSTANT, 1, CONSTANT, 2, MULT, ADD, RETURN]
    );
    assert_eq!(
        compile("2 * 3 + 4").1.code,
        vec![CONSTANT, 0, CONSTANT, 1, MULT, CONSTANT, 2, ADD, RETURN]
    );
    assert_eq!(
        compile("(2 + 3) * 4").1.code,
        vec![CONSTANT, 0, CONSTANT, 1, ADD, CONSTANT, 2, MULT, RETURN]
    );
}

#[test]
fn operators_of_one_level_group_from_the_left() {
    assert_eq!(
        compile("10 - 2 - 3").1.code,
        vec![CONSTANT, 0, CONSTANT, 1, SUB, CONSTANT, 2, SUB, RETURN]
    );
    assert_eq!(
        compile("1 + 2 * 3 - 4").1.code,
        vec![CONSTANT, 0, CONSTANT, 1, CONSTANT, 2, MULT, ADD, CONSTANT, 3, SUB, RETURN]
    );
    assert_eq!(
        compile("8 / 4 % 3 * 2").1.code,
        vec![CONSTANT, 0, CONSTANT, 1, DIV, CONSTANT, 2, MOD, CONSTANT, 3, MULT, RETURN]
    );
}

#[test]
fn unary_minus_binds_tighter_than_any_binary_operator() {
    assert_eq!(compile("-2 * 3").1.code, vec![CONSTANT, 0, NEGATE, CONSTANT, 1, MULT, RETURN]);
    assert_eq!(compile("-(2 + 3)").1.code, vec![CONSTANT, 0, CONSTANT, 1, ADD, NEGATE, RETURN]);
    assert_eq!(compile("--1").1.code, vec![CONSTANT, 0, NEGATE, NEGATE, RETURN]);
    assert_eq!(compile("1 - -2").1.code, vec![CONSTANT, 0, CONSTANT, 1, NEGATE, SUB, RETURN]);
}

#[test]
fn every_byte_carries_the_line_of_the_token_before_it() {
    let (ok, chunk, _) = compile("1\n+\n2 *\n\n3");
    assert!(ok);
    assert_eq!(chunk.code, vec![CONSTANT, 0, CONSTANT, 1, CONSTANT, 2, MULT, ADD, RETURN]);
    assert_eq!(chunk.lines, vec![0, 0, 2, 2, 4, 4, 4, 4, 4]);
    let (_, chunk, _) = compile("-(1\n)\n");
    assert_eq!(chunk.code, vec![CONSTANT, 0, NEGATE, RETURN]);
    assert_eq!(chunk.lines, vec![0, 0, 1, 2]);
}

#[test]
fn compiling_appends_to_the_chunk_given() {
    let mut chunk = Chunk::new();
    let index = chunk.add_constant(9.0f64.to_bits());
    assert_eq!(index, 0);
    chunk.write_chunk(CONSTANT, 40);
    chunk.write_chunk(0, 41);
    let mut compiler = Compiler::from_source(String::from("5\0"), chunk);
    assert!(compiler.compile());
    assert_eq!(compiler.chunk().code, vec![CONSTANT, 0, CONSTANT, 1, RETURN]);
    assert_eq!(compiler.chunk().lines, vec![40, 41, 0, 0, 0]);
    assert_eq!(compiler.chunk().constants, bits(&[9.0, 5.0]));
    assert!(compiler.diagnostics().is_empty());
}

#[test]
fn unclosed_parenthesis_is_an_error() {
    let (ok, chunk, diagnostics) = compile("(1 + 2");
    assert!(!ok);
    assert_eq!(
        diagnostics,
        vec![Diagnostic {
            line: 0,
            location: Location::AtEnd,
            message: Some(Message::ExpectedRightParen),
        }]
    );
    assert_eq!(diagnostics[0].text(), "0: Error  at end\n Expected ')' after expression");
    assert_eq!(chunk.code, vec![CONSTANT, 0, CONSTANT, 1, ADD, RETURN]);
}

#[test]
fn token_behind_the_expression_is_an_error() {
    let (ok, _, diagnostics) = compile("1\n2");
    assert!(!ok);
    assert_eq!(
        diagnostics,
        vec![Diagnostic {
            line: 1,
            location: Location::At(2),
            message: Some(Message::ExpectedEndOfExpression),
        }]
    );
    assert_eq!(diagnostics[0].text(), "1: Error at 2\n Expected end of expression");
    assert!(!compile("1)").0);
    assert!(!compile("1 2").0);
    assert!(!compile("1 x").0);
}

#[test]
fn lexical_errors_are_reported_once() {
    let (ok, chunk, diagnostics) = compile("1 + @ # 2");
    assert!(!ok);
    assert_eq!(
        diagnostics,
        vec![Diagnostic {
            line: 0,
            location: Location::AtEnd,
            message: Some(Message::UnexpectedCharacter),
        }]
    );
    assert_eq!(diagnostics[0].text(), "0: Error  at end\n Unexpected character");
    assert_eq!(chunk.code, vec![CONSTANT, 0, CONSTANT, 1, ADD, RETURN]);
}

#[test]
fn unterminated_string_is_reported() {
    let (ok, _, diagnostics) = compile("1 +\n \"abc");
    assert!(!ok);
    assert_eq!(
        diagnostics,
        vec![Diagnostic {
            line: 1,
            location: Location::AtEnd,
            message: Some(Message::UnterminatedString),
        }]
    );
    assert_eq!(diagnostics[0].text(), "1: Error  at end\n Unterminated string");
}

#[test]
fn panic_mode_silences_later_errors() {
    let (ok, _, diagnostics) = compile("(1 @ + 2 3");
    assert!(!ok);
    assert_eq!(diagnostics.len(), 1);
    assert_eq!(diagnostics[0].message, Some(Message::UnexpectedCharacter));
}

fn missing_expression(line: u64, location: Location) -> Vec<Diagnostic> {
    vec![Diagnostic { line, location, message: Some(Message::ExpectedExpression) }]
}

#[test]
fn empty_source_is_an_error() {
    let (ok, chunk, diagnostics) = compile("");
    assert!(!ok);
    assert_eq!(diagnostics, missing_expression(0, Location::AtEnd));
    assert_eq!(diagnostics[0].text(), "0: Error  at end\n Expected expression");
    assert_eq!(chunk.code, vec![RETURN]);
    assert!(chunk.constants.is_empty());
    assert!(!compile("  \n // nothing\n").0);
}

#[test]
fn missing_right_operand_is_an_error() {
    let (ok, chunk, diagnostics) = compile("1 +");
    assert!(!ok);
    assert_eq!(diagnostics, missing_expression(0, Location::AtEnd));
    assert_eq!(chunk.code, vec![CONSTANT, 0, ADD, RETURN]);

    let (ok, _, diagnostics) = compile("1 +\n\n* 2");
    assert!(!ok);
    assert_eq!(diagnostics, missing_expression(2, Location::At(5)));
    assert_eq!(diagnostics[0].text(), "2: Error at 5\n Expected expression");

    assert!(!compile("-").0);
    assert!(!compile("(1 + )").0);
    assert!(!compile("2 * (3 -").0);
}

#[test]
fn token_that_starts_no_expression_is_an_error() {
    let (ok, chunk, diagnostics) = compile("+ 1");
    assert!(!ok);
    assert_eq!(diagnostics, missing_expression(0, Location::At(0)));
    assert_eq!(chunk.code, vec![RETURN]);

    let (ok, chunk, diagnostics) = compile("()");
    assert!(!ok);
    assert_eq!(diagnostics, missing_expression(0, Location::At(1)));
    assert_eq!(chunk.code, vec![RETURN]);

    for source in ["*", "x", "\"text\"", "while", ")", "1 + ;", "= 1", "1 * / 2"] {
        let (ok, _, diagnostics) = compile(source);
        assert!(!ok, "{}", source);
        assert_eq!(diagnostics.len(), 1, "{}", source);
        assert_eq!(diagnostics[0].message, Some(Message::ExpectedExpression), "{}", source);
    }
}

fn sum_of_literals(count: usize) -> String {
    let terms: Vec<String> = (0..count).map(|n| n.to_string()).collect();
    terms.join(" + ")
}

#[test]
fn pool_holds_256_literals() {
    let (ok, chunk, diagnostics) = compile(&sum_of_literals(256));
    assert!(ok);
    assert!(diagnostics.is_empty());
    assert_eq!(chunk.constants.len(), 256);
    assert_eq!(chunk.code.len(), 2 * 256 + 255 + 1);
    for n in 0..256 {
        assert_eq!(chunk.constants[n], (n as f64).to_bits());
    }
    assert_eq!(&chunk.code[chunk.code.len() - 4..], &[CONSTANT, 255, ADD, RETURN]);
}

#[test]
fn literal_257_is_reported_and_loads_constant_0() {
    let (ok, chunk, diagnostics) = compile(&sum_of_literals(257));
    assert!(ok);
    assert_eq!(
        diagnostics,
        vec![Diagnostic {
            line: 0,
            location: Location::InChunk,
            message: Some(Message::TooManyConstants),
        }]
    );
    assert_eq!(diagnostics[0].text(), "Too many constants in one chunk");
    assert_eq!(chunk.constants.len(), 257);
    assert_eq!(&chunk.code[chunk.code.len() - 7..], &[CONSTANT, 255, ADD, CONSTANT, 0, ADD, RETURN]);

    let (_, _, diagnostics) = compile(&sum_of_literals(259));
    assert_eq!(diagnostics.len(), 3);
}

#[test]
fn reports_render_lines_and_positions_in_decimal() {
    let report = Diagnostic {
        line: 18446744073709551615,
        location: Location::At(1234567890),
        message: None,
    };
    assert_eq!(report.text(), "18446744073709551615: Error at 1234567890");
    let report = Diagnostic { line: 10, location: Location::AtEnd, message: None };
    assert_eq!(report.text(), "10: Error  at end");
    let report = Diagnostic { line: 10, location: Location::InChunk, message: None };
    assert_eq!(report.text(), "");
    let report = Diagnostic {
        line: 100,
        location: Location::At(0),
        message: Some(Message::ExpectedEndOfExpression),
    };
    assert_eq!(report.text(), "100: Error at 0\n Expected end of expression");
}

#[test]
fn literal_of_the_greatest_length_compiles() {
    let source = format!("1 + {}", "9".repeat(MAX_LITERAL_LENGTH));
    let (ok, chunk, diagnostics) = compile(&source);
    assert!(ok);
    assert!(diagnostics.is_empty());
    assert_eq!(chunk.code, vec![CONSTANT, 0, CONSTANT, 1, ADD, RETURN]);
    assert_eq!(chunk.constants, bits(&[1.0, f64::INFINITY]));
}

#[test]
fn longer_literal_is_an_error() {
    let source = format!("1 +\n {}", "9".repeat(MAX_LITERAL_LENGTH + 1));
    let (ok, chunk, diagnostics) = compile(&source);
    assert!(!ok);
    assert_eq!(
        diagnostics,
        vec![Diagnostic { line: 1, location: Location::At(5), message: Some(Message::InvalidNumber) }]
    );
    assert_eq!(diagnostics[0].text(), "1: Error at 5\n Invalid number");
    assert_eq!(chunk.code, vec![CONSTANT, 0, ADD, RETURN]);
    assert_eq!(chunk.constants, bits(&[1.0]));

    let source = format!("0.{}", "0".repeat(MAX_LITERAL_LENGTH));
    let (ok, _, diagnostics) = compile(&source);
    assert!(!ok);
    assert_eq!(diagnostics[0].message, Some(Message::InvalidNumber));
}
