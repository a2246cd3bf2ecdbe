use lox_vm::chunk::Chunk;
use lox_vm::number::{binary_result, is_decimal, literal_value, negate, MAX_LITERAL_LENGTH, SIGN_BIT};
use lox_vm::opcode::OpCode;
use lox_vm::vm::{Fault, InterpretResult, VM};

fn chunk_of(code: &[u8], constants: &[f64]) -> Chunk {
    let mut chunk = Chunk::new();
    for byte in code {
        chunk.write_chunk(*byte, 1);
    }
    for constant in constants {
        chunk.add_constant(constant.to_bits());
    }
    chunk
}

fn run(code: &[u8], constants: &[f64]) -> VM {
    let mut vm = VM::new(chunk_of(code, constants));
    vm.interpret();
    vm
}

fn returned(code: &[u8], constants: &[f64]) -> f64 {
    let mut vm = VM::new(chunk_of(code, constants));
    assert_eq!(vm.interpret(), InterpretResult::InterpretOk);
    assert_eq!(vm.fault(), None);
    f64::from_bits(vm.output().unwrap())
}

fn fault_of(code: &[u8], constants: &[f64]) -> Fault {
    let mut vm = VM::new(chunk_of(code, constants));
    assert_eq!(vm.interpret(), InterpretResult::InterpretRuntimeError);
    assert_eq!(vm.output(), None);
    vm.fault().unwrap()
}

#[test]
fn new_machine_stands_at_the_start() {
    let vm = VM::new(chunk_of(&[7], &[]));
    assert_eq!(vm.program_counter(), 0);
    assert!(vm.stack().is_empty());
    assert_eq!(vm.output(), None);
    assert_eq!(vm.fault(), None);
    assert!(vm.is_tracing());
    assert_eq!(vm.chunk.code, vec![7]);
}

#[test]
fn constant_load_pushes_the_constant() {
    assert_eq!(returned(&[0, 1, 7], &[1.5, 2.5]), 2.5);
}

#[test]
fn binary_instructions_take_the_right_operand_from_the_top() {
    assert_eq!(returned(&[0, 0, 0, 1, 1, 7], &[7.5, 2.0]), 9.5);
    assert_eq!(returned(&[0, 0, 0, 1, 2, 7], &[7.5, 2.0]), 5.5);
    assert_eq!(returned(&[0, 0, 0, 1, 3, 7], &[7.5, 2.0]), 15.0);
    assert_eq!(returned(&[0, 0, 0, 1, 4, 7], &[7.5, 2.0]), 3.75);
    assert_eq!(returned(&[0, 0, 0, 1, 5, 7], &[7.5, 2.0]), 1.5);
}

#[test]
fn negate_replaces_the_top() {
    assert_eq!(returned(&[0, 0, 6, 7], &[7.5]), -7.5);
    assert_eq!(returned(&[0, 0, 0, 1, 6, 1, 7], &[7.5, 2.0]), 5.5);
    assert!(returned(&[0, 0, 6, 7], &[0.0]).is_sign_negative());
}

#[test]
fn return_takes_one_value_and_ends_the_run() {
    let vm = run(&[0, 0, 0, 1, 7, 1, 7], &[1.0, 2.0]);
    assert_eq!(vm.output(), Some(2.0f64.to_bits()));
    assert_eq!(vm.program_counter(), 5);
    assert_eq!(*vm.stack(), vec![1.0f64.to_bits()]);
}

#[test]
fn division_and_remainder_by_zero_follow_the_doubles() {
    assert_eq!(returned(&[0, 0, 0, 1, 4, 7], &[1.0, 0.0]), f64::INFINITY);
    assert_eq!(returned(&[0, 0, 0, 1, 4, 7], &[-1.0, 0.0]), f64::NEG_INFINITY);
    assert!(returned(&[0, 0, 0, 1, 4, 7], &[0.0, 0.0]).is_nan());
    assert!(returned(&[0, 0, 0, 1, 5, 7], &[1.0, 0.0]).is_nan());
}

#[test]
fn empty_stack_is_a_fault() {
    assert_eq!(fault_of(&[7], &[]), Fault::EmptyStack);
    assert_eq!(fault_of(&[6, 7], &[]), Fault::EmptyStack);
    assert_eq!(fault_of(&[1, 7], &[]), Fault::EmptyStack);
    assert_eq!(fault_of(&[0, 0, 1, 7], &[1.0]), Fault::EmptyStack);
    let vm = run(&[0, 0, 3, 7], &[1.0]);
    assert_eq!(*vm.stack(), vec![1.0f64.to_bits()]);
    assert_eq!(vm.program_counter(), 3);
}

#[test]
fn unknown_opcode_is_a_fault() {
    assert_eq!(fault_of(&[8], &[]), Fault::UnknownOpcode(8));
    assert_eq!(fault_of(&[0, 0, 255, 7], &[1.0]), Fault::UnknownOpcode(255));
}

#[test]
fn end_of_code_is_a_fault() {
    assert_eq!(fault_of(&[], &[]), Fault::EndOfCode);
    assert_eq!(fault_of(&[0, 0], &[1.0]), Fault::EndOfCode);
    assert_eq!(fault_of(&[0], &[1.0]), Fault::EndOfCode);
}

#[test]
fn missing_constant_is_a_fault() {
    assert_eq!(fault_of(&[0, 1, 7], &[1.0]), Fault::NoSuchConstant(1));
    assert_eq!(fault_of(&[0, 0, 7], &[]), Fault::NoSuchConstant(0));
}

#[test]
fn steps_execute_one_instruction_each() {
    let mut vm = VM::new(chunk_of(&[0, 0, 0, 1, 2, 7], &[5.0, 3.0]));
    assert_eq!(vm.step(), None);
    assert_eq!(vm.program_counter(), 2);
    assert_eq!(*vm.stack(), vec![5.0f64.to_bits()]);
    assert_eq!(vm.step(), None);
    assert_eq!(vm.program_counter(), 4);
    assert_eq!(*vm.stack(), vec![5.0f64.to_bits(), 3.0f64.to_bits()]);
    assert_eq!(vm.step(), None);
    assert_eq!(vm.program_counter(), 5);
    assert_eq!(*vm.stack(), vec![2.0f64.to_bits()]);
    assert_eq!(vm.output(), None);
    assert_eq!(vm.step(), Some(InterpretResult::InterpretOk));
    assert_eq!(vm.program_counter(), 6);
    assert!(vm.stack().is_empty());
    assert_eq!(vm.output(), Some(2.0f64.to_bits()));
    assert_eq!(vm.step(), Some(InterpretResult::InterpretRuntimeError));
    assert_eq!(vm.fault(), Some(Fault::EndOfCode));
    assert_eq!(vm.program_counter(), 6);
}

#[test]
fn update_chunk_keeps_the_machine_where_it_stands() {
    let mut vm = VM::new(chunk_of(&[0, 0], &[5.0]));
    assert_eq!(vm.step(), None);
    vm.update_chunk(chunk_of(&[0, 0, 6, 7], &[1.0]));
    assert_eq!(vm.program_counter(), 2);
    assert_eq!(vm.interpret(), InterpretResult::InterpretOk);
    assert_eq!(vm.output(), Some((-5.0f64).to_bits()));
}

#[test]
fn tracing_can_be_switched() {
    let mut vm = VM::new(chunk_of(&[7], &[]));
    vm.set_tracing(false);
    assert!(!vm.is_tracing());
    vm.set_tracing(true);
    assert!(vm.is_tracing());
}

fn apply(op: OpCode, a: f64, b: f64) -> f64 {
    f64::from_bits(binary_result(op, a.to_bits(), b.to_bits()))
}

fn same(left: f64, right: f64) -> bool {
    left.to_bits() == right.to_bits() || (left.is_nan() && right.is_nan())
}

#[test]
fn arithmetic_is_that_of_doubles() {
    let samples = [
        0.0,
        -0.0,
        1.0,
        -1.0,
        0.1,
        0.2,
        3.0,
        -7.5,
        1e308,
        -1e308,
        5e-324,
        2.2250738585072014e-308,
        123456789.125,
        f64::INFINITY,
        f64::NEG_INFINITY,
        f64::NAN,
        f64::MAX,
        f64::MIN_POSITIVE,
        1.0e16,
        9007199254740993.0,
    ];
    for a in samples {
        for b in samples {
            assert!(same(apply(OpCode::OpAdd, a, b), a + b), "{} + {}", a, b);
            assert!(same(apply(OpCode::OpSub, a, b), a - b), "{} - {}", a, b);
            assert!(same(apply(OpCode::OpMult, a, b), a * b), "{} * {}", a, b);
            assert!(same(apply(OpCode::OpDiv, a, b), a / b), "{} / {}", a, b);
            assert!(same(apply(OpCode::OpMod, a, b), a % b), "{} % {}", a, b);
        }
    }
}

#[test]
fn exact_values_of_each_operation() {
    assert_eq!(apply(OpCode::OpAdd, 0.1, 0.2), 0.30000000000000004);
    assert_eq!(apply(OpCode::OpSub, 0.3, 0.1), 0.19999999999999998);
    assert_eq!(apply(OpCode::OpMult, 1.1, 1.1), 1.2100000000000002);
    assert_eq!(apply(OpCode::OpDiv, 1.0, 3.0), 0.3333333333333333);
    assert_eq!(apply(OpCode::OpMod, 7.5, -2.0), 1.5);
    assert_eq!(apply(OpCode::OpMod, -7.5, 2.0), -1.5);
    assert_eq!(apply(OpCode::OpAdd, 2.0, 3.0), 5.0);
}

#[test]
fn instruction_that_is_not_binary_leaves_the_left_operand() {
    assert_eq!(apply(OpCode::OpNegate, 2.0, 3.0), 2.0);
    assert_eq!(apply(OpCode::OpReturn, 2.0, 3.0), 2.0);
    assert_eq!(apply(OpCode::OpConstant, 2.0, 3.0), 2.0);
}

#[test]
fn negation_flips_the_sign_bit() {
    assert_eq!(SIGN_BIT, 1u64 << 63);
    for value in [0.0, -0.0, 1.5, -2.25, f64::INFINITY, f64::MAX, 5e-324] {
        assert_eq!(negate(value.to_bits()), (-value).to_bits());
    }
    assert_eq!(negate(f64::NAN.to_bits()), (-f64::NAN).to_bits());
    assert_eq!(negate(negate(12345)), 12345);
}

fn chars(text: &str) -> Vec<char> {
    text.chars().collect()
}

#[test]
fn decimal_literals_are_digits_with_an_optional_fraction() {
    for text in ["0", "7", "007", "12345678901234567890", "1.5", "0.0", "10.25", "3.14159"] {
        assert!(is_decimal(&chars(text)), "{}", text);
    }
    for text in [
        "", ".", "1.", ".5", "1..5", "1.2.3", "1.5.", "a", "1a", "a1", "1.a", "1.5a", "-1", "+1",
        "1e5", "1 ", " 1", "1,5", "inf", "nan", "0x10", "١", "1.٥", "1\0",
    ] {
        assert!(!is_decimal(&chars(text)), "{:?}", text);
    }
}

#[test]
fn literals_denote_the_nearest_double() {
    for text in [
        "0",
        "1",
        "1.2",
        "0.1",
        "3.25",
        "007",
        "1000000",
        "0.30000000000000004",
        "9007199254740993",
        "123456789012345678901234567890",
        "0.000000000000000000000000000001",
        "179769313486231580793728971405303415079934132710037826936173778980444968292764750946649017977587207096330286416692887910946555547851940402630657488671505820681908902000708383676273854845817711531764475730270069855571366959622842914819860834936475292719074168444365510704342711559699508093042880177904174497791",
        "0.000000000000000000000000000000000000000000000000000000000000000000000000000000000000000000000000000000000000000000000000000000000000000000000000000000000000000000000000000000000000000000000000000000000000000000000000000000000000000000000000000000000000000000000000000000000000000000000000000000000000000000000000000000000000000004940656458412465",
        "2.2250738585072011",
        "4.35",
        "0.5",
    ] {
        let native: f64 = text.parse().unwrap();
        assert_eq!(literal_value(&chars(text)), Some(native.to_bits()), "{}", text);
    }
}

#[test]
fn texts_that_are_no_literal_denote_nothing() {
    for text in ["", ".", "1.", ".5", "1e5", "inf", "nan", "0x10", "-1", "1.2.3", " 1", "abc"] {
        assert_eq!(literal_value(&chars(text)), None, "{:?}", text);
    }
}

#[test]
fn literal_of_the_greatest_length_is_read() {
    assert_eq!(MAX_LITERAL_LENGTH, 1048576);
    let nines = vec!['9'; MAX_LITERAL_LENGTH];
    assert_eq!(literal_value(&nines), Some(f64::INFINITY.to_bits()));
    let mut zeros = vec!['0'; MAX_LITERAL_LENGTH];
    zeros[1] = '.';
    assert!(is_decimal(&zeros));
    assert_eq!(literal_value(&zeros), Some(0.0f64.to_bits()));
}

#[test]
fn longer_literal_is_not_read() {
    let nines = vec!['9'; MAX_LITERAL_LENGTH + 1];
    assert!(is_decimal(&nines));
    assert_eq!(literal_value(&nines), None);
    let mut zeros = vec!['0'; MAX_LITERAL_LENGTH + 2];
    zeros[1] = '.';
    assert_eq!(literal_value(&zeros), None);
}
