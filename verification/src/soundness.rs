//! The guarantees that tie the compiler's static checks to the machine's
//! runtime behaviour: a program the compiler accepted can never under-run
//! its stack or meet a wrongly-typed operand, and the instruction count of
//! an accepted program equals the source's token count.

use vstd::prelude::*;

use crate::compiler::{
    flow, flow_ok, spec_check, spec_compile, spec_compile_from, spec_token_count,
    CompileError,
};
use crate::scanner::{lemma_scan_bounds, pos_wf, spec_scan, ScanPos, TokenType};
use crate::vm::{
    spec_run, spec_run_from, spec_step, types_of, val_type, DataType, Op, RunError, RunState,
    Value,
};

verus! {

/// Replaying a program's stack effects over a type stack from instruction
/// `i` on: the final type stack, or nothing if some instruction's static
/// precondition fails.
pub open spec fn typecheck_from(ops: Seq<Op>, i: int, stack: Seq<DataType>) -> Option<
    Seq<DataType>,
>
    decreases ops.len() - i,
{
    if i < ops.len() {
        if flow_ok(stack, ops[i]) {
            typecheck_from(ops, i + 1, flow(stack, ops[i]))
        } else {
            None
        }
    } else {
        Some(stack)
    }
}

/// A whole program checks out from an empty type stack and ends on one.
pub open spec fn well_typed(ops: Seq<Op>) -> bool {
    typecheck_from(ops, 0, Seq::empty()) == Some(Seq::<DataType>::empty())
}

/// An accepted token's instruction has its static precondition met and its
/// declared effect on the type stack.
proof fn lemma_check_flow(code: Seq<u8>, r: crate::scanner::ScanResult, stack: Seq<DataType>)
    requires
        spec_check(code, r, stack) is Ok,
    ensures
        flow_ok(stack, spec_check(code, r, stack)->Ok_0.0),
        spec_check(code, r, stack)->Ok_0.1 == flow(stack, spec_check(code, r, stack)->Ok_0.0),
{
}

/// A successful pass leaves a well-typed program behind: whatever it
/// appended to `ops` replays over the type stack to an empty one, and it
/// appended exactly one instruction per remaining token.
proof fn lemma_compile_well_typed(
    code: Seq<u8>,
    p: ScanPos,
    stack: Seq<DataType>,
    ops: Seq<Op>,
    all: Seq<Op>,
)
    requires
        pos_wf(code, p),
        spec_compile_from(code, p, stack, ops) == Ok::<Seq<Op>, CompileError>(all),
    ensures
        ops.len() <= all.len(),
        all.take(ops.len() as int) == ops,
        typecheck_from(all, ops.len() as int, stack) == Some(Seq::<DataType>::empty()),
        all.len() == ops.len() + spec_token_count(code, p),
    decreases code.len() - p.cur,
{
    lemma_scan_bounds(code, p);
    let r = spec_scan(code, p);
    if r.token_type == TokenType::EndOfFile {
        assert(all.take(ops.len() as int) =~= ops);
    } else {
        let step = spec_check(code, r, stack)->Ok_0;
        lemma_check_flow(code, r, stack);
        lemma_compile_well_typed(code, r.end, step.1, ops.push(step.0), all);
        assert(all[ops.len() as int] == ops.push(step.0)[ops.len() as int]);
        assert(all.take(ops.len() as int) =~= ops) by {
            assert forall|j: int| 0 <= j < ops.len() implies all.take(ops.len() as int)[j]
                == ops[j] by {
                assert(all.take(ops.len() as int + 1)[j] == ops.push(step.0)[j]);
            }
        }
    }
}

/// One checked instruction is safe to execute: it cannot under-run the
/// stack or meet a wrongly-typed operand, and when it does not fault on
/// arithmetic, the new stack's types are the instruction's declared effect.
proof fn lemma_step_preserves_types(vstack: Seq<Value>, tstack: Seq<DataType>, op: Op)
    requires
        types_of(vstack) == tstack,
        flow_ok(tstack, op),
    ensures
        ({
            match spec_step(vstack, op) {
                Ok(s) => types_of(s.stack) == flow(tstack, op),
                Err(e) => e == RunError::Overflow || e == RunError::DivisionByZero,
            }
        }),
{
    assert(tstack.len() == vstack.len());
    assert(forall|j: int|
        0 <= j < vstack.len() ==> tstack[j] == val_type(#[trigger] vstack[j]));
    match op {
        Op::Push(v) => {
            assert(types_of(vstack.push(v)) =~= tstack.push(val_type(v)));
        },
        Op::Add | Op::Subtract | Op::Multiply | Op::Divide => {
            let x = vstack[vstack.len() - 2];
            let y = vstack[vstack.len() - 1];
            assert(val_type(x) == DataType::Int && val_type(y) == DataType::Int);
            match spec_step(vstack, op) {
                Ok(s) => {
                    assert(types_of(s.stack) =~= flow(tstack, op));
                },
                Err(_) => {},
            }
        },
        Op::Dup => {
            assert(types_of(vstack.push(vstack.last())) =~= tstack.push(tstack.last()));
        },
        Op::Drop => {
            assert(types_of(vstack.drop_last()) =~= tstack.drop_last());
        },
        Op::PrintLn => {
            assert(types_of(vstack.drop_last()) =~= tstack.drop_last());
        },
        Op::Over => {
            assert(types_of(vstack.push(vstack[vstack.len() - 2])) =~= tstack.push(
                tstack[tstack.len() - 2],
            ));
        },
        Op::Swap => {
            assert(types_of(
                vstack.drop_last().drop_last().push(vstack[vstack.len() - 1]).push(
                    vstack[vstack.len() - 2],
                ),
            ) =~= tstack.drop_last().drop_last().push(tstack[tstack.len() - 1]).push(
                tstack[tstack.len() - 2],
            ));
        },
        Op::Rot => {
            assert(types_of(
                vstack.take(vstack.len() - 3).push(vstack[vstack.len() - 2]).push(
                    vstack[vstack.len() - 1],
                ).push(vstack[vstack.len() - 3]),
            ) =~= tstack.take(tstack.len() - 3).push(tstack[tstack.len() - 2]).push(
                tstack[tstack.len() - 1],
            ).push(tstack[tstack.len() - 3]));
        },
    }
}

/// Running a program whose remaining instructions replay cleanly over the
/// types of the current stack: the only faults left are arithmetic ones,
/// and a completed run's stack has exactly the replayed types.
proof fn lemma_typed_run_from(ops: Seq<Op>, i: int, st: RunState, tstack: Seq<DataType>)
    requires
        0 <= i <= ops.len(),
        types_of(st.stack) == tstack,
        typecheck_from(ops, i, tstack) is Some,
    ensures
        ({
            let tfinal = typecheck_from(ops, i, tstack)->Some_0;
            match spec_run_from(ops, i, st) {
                Ok(fin) => types_of(fin.stack) == tfinal,
                Err(e) => e == RunError::Overflow || e == RunError::DivisionByZero,
            }
        }),
    decreases ops.len() - i,
{
    if i < ops.len() {
        let op = ops[i];
        lemma_step_preserves_types(st.stack, tstack, op);
        match spec_step(st.stack, op) {
            Ok(s) => {
                let st2 = RunState {
                    stack: s.stack,
                    output: match s.printed {
                        Some(v) => st.output.push(v),
                        None => st.output,
                    },
                };
                lemma_typed_run_from(ops, i + 1, st2, flow(tstack, op));
            },
            Err(_) => {},
        }
    }
}

/// Soundness of the stack-effect checker. A program the compiler accepted
/// is well typed; running it can never under-run the stack or meet a
/// wrongly-typed operand, the only faults left being the arithmetic ones;
/// and a run that completes leaves the value stack empty, exactly as the
/// empty final compile-time type stack promised.
pub proof fn theorem_compile_sound(code: Seq<u8>)
    requires
        spec_compile(code) is Ok,
    ensures
        ({
            let ops = spec_compile(code)->Ok_0;
            &&& well_typed(ops)
            &&& (spec_run(ops) matches Err(e) ==> e == RunError::Overflow || e
                == RunError::DivisionByZero)
            &&& (spec_run(ops) matches Ok(fin) ==> fin.stack == Seq::<Value>::empty())
        }),
{
    let ops = spec_compile(code)->Ok_0;
    let p0 = ScanPos { cur: 0, line: 1, col: 1 };
    lemma_compile_well_typed(code, p0, Seq::empty(), Seq::empty(), ops);
    let st0 = RunState { stack: Seq::empty(), output: Seq::empty() };
    assert(types_of(st0.stack) =~= Seq::<DataType>::empty());
    lemma_typed_run_from(ops, 0, st0, Seq::empty());
    match spec_run(ops) {
        Ok(fin) => {
            assert(types_of(fin.stack).len() == 0);
            assert(fin.stack =~= Seq::<Value>::empty());
        },
        Err(_) => {},
    }
}

/// One instruction per token: a program that compiles without error holds
/// exactly as many instructions as the scanner yields tokens for the
/// buffer.
pub proof fn theorem_ops_count(code: Seq<u8>)
    requires
        spec_compile(code) is Ok,
    ensures
        spec_compile(code)->Ok_0.len() == spec_token_count(
            code,
            ScanPos { cur: 0, line: 1, col: 1 },
        ),
{
    let ops = spec_compile(code)->Ok_0;
    let p0 = ScanPos { cur: 0, line: 1, col: 1 };
    lemma_compile_well_typed(code, p0, Seq::empty(), Seq::empty(), ops);
}

/// The round trip of pushing two constants, adding and printing: the run
/// prints exactly the sum and leaves the stack empty.
pub proof fn lemma_add_print_round_trip(a: i64, b: i64)
    requires
        i64::MIN <= a + b <= i64::MAX,
    ensures
        spec_run(
            seq![
                Op::Push(Value::Int(a)),
                Op::Push(Value::Int(b)),
                Op::Add,
                Op::PrintLn,
            ],
        ) == Ok::<RunState, RunError>(
            RunState {
                stack: Seq::empty(),
                output: seq![Value::Int((a + b) as i64)],
            },
        ),
{
    let ops = seq![
        Op::Push(Value::Int(a)),
        Op::Push(Value::Int(b)),
        Op::Add,
        Op::PrintLn,
    ];
    let va = Value::Int(a);
    let vb = Value::Int(b);
    let vs = Value::Int((a + b) as i64);
    let e = Seq::<Value>::empty();
    let s1 = e.push(va);
    let s2 = s1.push(vb);
    assert(ops[0] == Op::Push(va) && ops[1] == Op::Push(vb) && ops[2] == Op::Add && ops[3]
        == Op::PrintLn);
    assert(spec_step(e, ops[0]) == Ok::<crate::vm::StepOk, RunError>(
        crate::vm::StepOk { stack: s1, printed: None },
    ));
    assert(spec_step(s1, ops[1]) == Ok::<crate::vm::StepOk, RunError>(
        crate::vm::StepOk { stack: s2, printed: None },
    ));
    assert(s2.len() == 2 && s2[0] == va && s2[1] == vb);
    assert(s2.drop_last().drop_last().push(vs) =~= e.push(vs));
    assert(spec_step(s2, ops[2]) == Ok::<crate::vm::StepOk, RunError>(
        crate::vm::StepOk { stack: e.push(vs), printed: None },
    ));
    assert(e.push(vs).drop_last() =~= e);
    assert(spec_step(e.push(vs), ops[3]) == Ok::<crate::vm::StepOk, RunError>(
        crate::vm::StepOk { stack: e, printed: Some(vs) },
    ));
    assert(spec_run(ops) == Ok::<RunState, RunError>(
        RunState { stack: e, output: Seq::<Value>::empty().push(vs) },
    )) by {
        reveal_with_fuel(spec_run_from, 6);
    }
    assert(Seq::<Value>::empty().push(vs) =~= seq![vs]);
}

} // verus!
