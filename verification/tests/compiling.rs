use px2::compiler::{
    compile, get_code_at_line, parse_i64, CompileError, CompileErrorKind, CompilerContext,
    IntParseError,
};
use px2::scanner::{Token, TokenType};
use px2::vm::{DataType, Op, Value, VM};

fn ops_of(vm: &VM) -> Vec<Op> {
    let mut ops: Vec<Op> = Vec::new();
    let mut i = 0;
    while i < vm.op_count() {
        ops.push(vm.op_at(i));
        i += 1;
    }
    ops
}

#[test]
fn compiles_sum_and_print() {
    let vm = compile(b"3 4 + println".to_vec()).unwrap();
    assert_eq!(
        ops_of(&vm),
        vec![
            Op::Push(Value::Int(3)),
            Op::Push(Value::Int(4)),
            Op::Add,
            Op::PrintLn,
        ]
    );
}

#[test]
fn one_instruction_per_token() {
    let vm = compile(b"1 2 3 rot swap over drop dup * - + println".to_vec()).unwrap();
    assert_eq!(vm.op_count(), 12);
}

#[test]
fn unhandled_data_is_rejected() {
    let err = compile(b"true false println".to_vec()).unwrap_err();
    assert_eq!(err, CompileError::UnhandledData { count: 1 });
}

#[test]
fn addition_needs_two_operands() {
    let err = compile(b"1 +".to_vec()).unwrap_err();
    assert_eq!(
        err,
        CompileError::AtToken {
            token: Token {
                token_type: TokenType::Plus,
                start: 2,
                length: 1,
                line: 1,
                column: 3,
            },
            kind: CompileErrorKind::TooFewOperands { needed: 2, found: 1 },
        }
    );
}

#[test]
fn addition_rejects_boolean_on_top() {
    let err = compile(b"5 true +".to_vec()).unwrap_err();
    assert_eq!(
        err,
        CompileError::AtToken {
            token: Token {
                token_type: TokenType::Plus,
                start: 7,
                length: 1,
                line: 1,
                column: 8,
            },
            kind: CompileErrorKind::OperandNotInt { depth: 0, found: DataType::Bool },
        }
    );
}

#[test]
fn addition_rejects_boolean_below_top() {
    let err = compile(b"true 5 +".to_vec()).unwrap_err();
    assert!(matches!(
        err,
        CompileError::AtToken {
            kind: CompileErrorKind::OperandNotInt { depth: 1, found: DataType::Bool },
            ..
        }
    ));
}

#[test]
fn dup_on_empty_stack_is_a_compile_error() {
    let err = compile(b"dup".to_vec()).unwrap_err();
    assert!(matches!(
        err,
        CompileError::AtToken {
            kind: CompileErrorKind::TooFewOperands { needed: 1, found: 0 },
            ..
        }
    ));
}

#[test]
fn rot_needs_three_operands() {
    let err = compile(b"1 2 rot".to_vec()).unwrap_err();
    assert!(matches!(
        err,
        CompileError::AtToken {
            kind: CompileErrorKind::TooFewOperands { needed: 3, found: 2 },
            ..
        }
    ));
}

#[test]
fn over_and_swap_need_two_operands() {
    let e1 = compile(b"1 over".to_vec()).unwrap_err();
    assert!(matches!(
        e1,
        CompileError::AtToken {
            kind: CompileErrorKind::TooFewOperands { needed: 2, found: 1 },
            ..
        }
    ));
    let e2 = compile(b"1 swap".to_vec()).unwrap_err();
    assert!(matches!(
        e2,
        CompileError::AtToken {
            kind: CompileErrorKind::TooFewOperands { needed: 2, found: 1 },
            ..
        }
    ));
}

#[test]
fn identifiers_are_unsupported() {
    let err = compile(b"foo".to_vec()).unwrap_err();
    assert!(matches!(
        err,
        CompileError::AtToken { kind: CompileErrorKind::UnsupportedIdentifier, .. }
    ));
}

#[test]
fn invalid_characters_are_reported() {
    let err = compile(b"1 @".to_vec()).unwrap_err();
    assert!(matches!(
        err,
        CompileError::AtToken {
            token: Token { token_type: TokenType::Error, line: 1, column: 3, .. },
            kind: CompileErrorKind::InvalidToken,
        }
    ));
}

#[test]
fn largest_literal_compiles_and_next_overflows() {
    let vm = compile(b"9223372036854775807 drop".to_vec()).unwrap();
    assert_eq!(ops_of(&vm), vec![Op::Push(Value::Int(i64::MAX)), Op::Drop]);
    let err = compile(b"9223372036854775808 drop".to_vec()).unwrap_err();
    assert!(matches!(
        err,
        CompileError::AtToken {
            kind: CompileErrorKind::IntParse(IntParseError::PosOverflow),
            ..
        }
    ));
}

#[test]
fn parse_i64_handles_all_error_kinds() {
    assert_eq!(parse_i64(&Vec::new()), Err(IntParseError::Empty));
    assert_eq!(parse_i64(&b"12a".to_vec()), Err(IntParseError::InvalidDigit));
    assert_eq!(
        parse_i64(&b"99999999999999999999".to_vec()),
        Err(IntParseError::PosOverflow)
    );
    assert_eq!(parse_i64(&b"0".to_vec()), Ok(0));
    assert_eq!(parse_i64(&b"0042".to_vec()), Ok(42));
    assert_eq!(parse_i64(&b"9223372036854775807".to_vec()), Ok(i64::MAX));
}

#[test]
fn empty_source_compiles_to_empty_program() {
    let vm = compile(b"  \r\n \n ".to_vec()).unwrap();
    assert_eq!(vm.op_count(), 0);
}

#[test]
fn compilation_stops_at_the_first_error() {
    let err = compile(b"dup 1 2 +".to_vec()).unwrap_err();
    assert!(matches!(
        err,
        CompileError::AtToken {
            token: Token { token_type: TokenType::Dup, .. },
            kind: CompileErrorKind::TooFewOperands { needed: 1, found: 0 },
        }
    ));
}

#[test]
fn push_op_tracks_the_type_stack() {
    let mut ctx = CompilerContext { stack: Vec::new(), vm: VM::new() };
    ctx.push_op(Op::Push(Value::Int(1)));
    ctx.push_op(Op::Push(Value::Bool(true)));
    assert_eq!(ctx.stack, vec![DataType::Int, DataType::Bool]);
    ctx.push_op(Op::Swap);
    assert_eq!(ctx.stack, vec![DataType::Bool, DataType::Int]);
    ctx.push_op(Op::Dup);
    assert_eq!(ctx.stack, vec![DataType::Bool, DataType::Int, DataType::Int]);
    assert_eq!(ctx.vm.op_count(), 4);
}

#[test]
fn code_at_line_reproduces_the_source_line() {
    let source = b"1 2 +\nprintln\nlast".to_vec();
    assert_eq!(get_code_at_line(1, &source), b"1 2 +".to_vec());
    assert_eq!(get_code_at_line(2, &source), b"println".to_vec());
    assert_eq!(get_code_at_line(3, &source), b"last".to_vec());
    assert_eq!(get_code_at_line(4, &source), Vec::<u8>::new());
}
