use px2::compiler::compile;
use px2::vm::{DataType, Op, RunError, Value, VM};

fn run_source(source: &[u8]) -> Result<Vec<Value>, RunError> {
    let vm: VM = compile(source.to_vec()).unwrap();
    let out = vm.run()?;
    assert!(out.stack.is_empty());
    Ok(out.output)
}

fn printed_text(source: &[u8]) -> String {
    let mut text = String::new();
    for v in run_source(source).unwrap() {
        text.push_str(core::str::from_utf8(&v.render()).unwrap());
        text.push('\n');
    }
    text
}

#[test]
fn addition_prints_the_sum() {
    assert_eq!(printed_text(b"3 4 + println"), "7\n");
    assert_eq!(printed_text(b"1 2 + println"), "3\n");
}

#[test]
fn division_prints_the_quotient() {
    assert_eq!(printed_text(b"10 2 / println"), "5\n");
    assert_eq!(printed_text(b"7 2 / println"), "3\n");
}

#[test]
fn division_truncates_toward_zero() {
    assert_eq!(printed_text(b"0 7 - 2 / println"), "-3\n");
}

#[test]
fn swap_reorders_the_operands() {
    assert_eq!(printed_text(b"1 2 swap - println"), "1\n");
}

#[test]
fn rot_moves_the_third_value_on_top() {
    assert_eq!(printed_text(b"1 2 3 rot - * println"), "4\n");
}

#[test]
fn over_copies_the_second_value() {
    assert_eq!(printed_text(b"2 5 over + * println"), "14\n");
}

#[test]
fn dup_and_drop() {
    assert_eq!(printed_text(b"6 dup * println"), "36\n");
    assert_eq!(printed_text(b"1 2 drop println"), "1\n");
}

#[test]
fn booleans_print_their_words() {
    assert_eq!(printed_text(b"true println false println"), "true\nfalse\n");
}

#[test]
fn each_print_pops_one_value() {
    assert_eq!(
        run_source(b"1 2 + println 4 5 * println").unwrap(),
        vec![Value::Int(3), Value::Int(20)]
    );
}

#[test]
fn division_by_zero_faults_at_run_time() {
    let vm = compile(b"1 0 / println".to_vec()).unwrap();
    assert_eq!(vm.run().unwrap_err(), RunError::DivisionByZero);
}

#[test]
fn addition_overflow_faults_at_run_time() {
    let vm = compile(b"9223372036854775807 1 + println".to_vec()).unwrap();
    assert_eq!(vm.run().unwrap_err(), RunError::Overflow);
}

#[test]
fn multiplication_overflow_faults_at_run_time() {
    let vm = compile(b"9223372036854775807 2 * println".to_vec()).unwrap();
    assert_eq!(vm.run().unwrap_err(), RunError::Overflow);
}

#[test]
fn an_accepted_program_leaves_an_empty_stack() {
    let vm = compile(b"1 2 over rot rot + - println".to_vec()).unwrap();
    let out = vm.run().unwrap();
    assert!(out.stack.is_empty());
}

#[test]
fn values_render_like_their_literals() {
    assert_eq!(Value::Int(0).render(), b"0".to_vec());
    assert_eq!(Value::Int(12345).render(), b"12345".to_vec());
    assert_eq!(Value::Int(-1).render(), b"-1".to_vec());
    assert_eq!(Value::Int(i64::MAX).render(), b"9223372036854775807".to_vec());
    assert_eq!(
        Value::Int(i64::MIN).render(),
        b"-9223372036854775808".to_vec()
    );
    assert_eq!(Value::Bool(true).render(), b"true".to_vec());
    assert_eq!(Value::Bool(false).render(), b"false".to_vec());
}

#[test]
fn values_carry_their_types() {
    assert_eq!(Value::from_int(7), Value::Int(7));
    assert_eq!(Value::from_bool(true), Value::Bool(true));
    assert_eq!(Value::from_int(7).data_type(), DataType::Int);
    assert_eq!(Value::from_bool(false).data_type(), DataType::Bool);
}

#[test]
fn subtraction_overflow_faults_at_run_time() {
    let vm = compile(b"0 9223372036854775807 - 2 - println".to_vec()).unwrap();
    assert_eq!(vm.run().unwrap_err(), RunError::Overflow);
}

#[test]
fn a_hand_built_program_can_underflow() {
    let mut vm = VM::new();
    vm.push_op(Op::Add);
    assert_eq!(vm.run().unwrap_err(), RunError::StackUnderflow);
}

#[test]
fn a_hand_built_program_can_mismatch_types() {
    let mut vm = VM::new();
    vm.push_op(Op::Push(Value::Bool(true)));
    vm.push_op(Op::Push(Value::Bool(false)));
    vm.push_op(Op::Add);
    assert_eq!(vm.run().unwrap_err(), RunError::TypeMismatch);
}

#[test]
fn a_machine_runs_the_ops_it_was_given() {
    let mut vm = VM::new();
    assert_eq!(vm.op_count(), 0);
    vm.push_op(Op::Push(Value::Int(2)));
    vm.push_op(Op::Push(Value::Int(3)));
    vm.push_op(Op::Multiply);
    assert_eq!(vm.op_count(), 3);
    assert_eq!(vm.op_at(2), Op::Multiply);
    let out = vm.run().unwrap();
    assert_eq!(out.stack, vec![Value::Int(6)]);
    assert_eq!(out.output, Vec::<Value>::new());
}
