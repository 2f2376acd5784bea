//! The virtual machine: runtime values, bytecode operations, and the stack
//! machine that executes a finished program in one linear pass.

use vstd::prelude::*;

verus! {

/// The shape of a stack entry, known at compile time: the compiler verifies
/// every operation against a stack of these before the program ever runs.
#[derive(Clone, Copy, Debug, PartialEq, Eq, Structural)]
pub enum DataType {
    Bool,
    Int,
}

/// A runtime datum: a discriminated union over a 64-bit signed integer and a
/// boolean. Values are plain `Copy` data; no variant is ever read as another.
#[derive(Clone, Copy, Debug, PartialEq, Eq, Structural)]
pub enum Value {
    Bool(bool),
    Int(i64),
}

/// The compile-time type of a runtime value.
pub open spec fn val_type(v: Value) -> DataType {
    match v {
        Value::Bool(_) => DataType::Bool,
        Value::Int(_) => DataType::Int,
    }
}

/// The type sequence of a value stack, bottom first.
pub open spec fn types_of(stack: Seq<Value>) -> Seq<DataType> {
    stack.map_values(|v: Value| val_type(v))
}

impl Value {
    pub fn from_int(value: i64) -> (r: Self)
        ensures
            r == Value::Int(value),
    {
        Value::Int(value)
    }

    pub fn from_bool(value: bool) -> (r: Self)
        ensures
            r == Value::Bool(value),
    {
        Value::Bool(value)
    }

    pub fn data_type(&self) -> (t: DataType)
        ensures
            t == val_type(*self),
    {
        match self {
            Value::Bool(_) => DataType::Bool,
            Value::Int(_) => DataType::Int,
        }
    }

    /// `self + other`, faulting on a non-integer operand or a sum outside
    /// the 64-bit signed range.
    pub fn add(self, other: Self) -> (r: Result<Value, RunError>)
        ensures
            r == val_arith(Op::Add, self, other),
    {
        match (self, other) {
            (Value::Int(a), Value::Int(b)) => {
                let s: i128 = a as i128 + b as i128;
                if s < i64::MIN as i128 || s > i64::MAX as i128 {
                    Err(RunError::Overflow)
                } else {
                    Ok(Value::Int(s as i64))
                }
            },
            _ => Err(RunError::TypeMismatch),
        }
    }

    /// `self - other`, faulting like `add`.
    pub fn sub(self, other: Self) -> (r: Result<Value, RunError>)
        ensures
            r == val_arith(Op::Subtract, self, other),
    {
        match (self, other) {
            (Value::Int(a), Value::Int(b)) => {
                let s: i128 = a as i128 - b as i128;
                if s < i64::MIN as i128 || s > i64::MAX as i128 {
                    Err(RunError::Overflow)
                } else {
                    Ok(Value::Int(s as i64))
                }
            },
            _ => Err(RunError::TypeMismatch),
        }
    }

    /// `self * other`, faulting like `add`.
    pub fn mul(self, other: Self) -> (r: Result<Value, RunError>)
        ensures
            r == val_arith(Op::Multiply, self, other),
    {
        match (self, other) {
            (Value::Int(a), Value::Int(b)) => {
                proof {
                    assert(i128::MIN <= (a as int) * (b as int) <= i128::MAX)
                        by (nonlinear_arith)
                        requires
                            i64::MIN <= a as int <= i64::MAX,
                            i64::MIN <= b as int <= i64::MAX,
                    ;
                }
                let s: i128 = a as i128 * b as i128;
                if s < i64::MIN as i128 || s > i64::MAX as i128 {
                    Err(RunError::Overflow)
                } else {
                    Ok(Value::Int(s as i64))
                }
            },
            _ => Err(RunError::TypeMismatch),
        }
    }

    /// `self / other`, truncating toward zero; faults on a non-integer
    /// operand, on a zero divisor, and on the one overflowing quotient.
    pub fn div(self, other: Self) -> (r: Result<Value, RunError>)
        ensures
            r == val_arith(Op::Divide, self, other),
    {
        match (self, other) {
            (Value::Int(a), Value::Int(b)) => {
                if b == 0 {
                    Err(RunError::DivisionByZero)
                } else if a == i64::MIN && b == -1 {
                    Err(RunError::Overflow)
                } else {
                    let ua: u64 = if a >= 0 {
                        a as u64
                    } else if a == i64::MIN {
                        9223372036854775808u64
                    } else {
                        (-a) as u64
                    };
                    let ub: u64 = if b >= 0 {
                        b as u64
                    } else if b == i64::MIN {
                        9223372036854775808u64
                    } else {
                        (-b) as u64
                    };
                    proof {
                        assert(ua == abs_int(a as int));
                        assert(ub == abs_int(b as int));
                        vstd::arithmetic::div_mod::lemma_div_nonincreasing(
                            ua as int,
                            ub as int,
                        );
                        if ub >= 2 && ua > 0 {
                            vstd::arithmetic::div_mod::lemma_div_decreases(
                                ua as int,
                                ub as int,
                            );
                        }
                    }
                    let uq: u64 = ua / ub;
                    if (a < 0) != (b < 0) {
                        if uq == 9223372036854775808u64 {
                            Ok(Value::Int(i64::MIN))
                        } else {
                            Ok(Value::Int(-(uq as i64)))
                        }
                    } else {
                        Ok(Value::Int(uq as i64))
                    }
                }
            },
            _ => Err(RunError::TypeMismatch),
        }
    }

    /// The value's textual representation as bytes: what `PrintLn` writes,
    /// without the trailing line break.
    pub fn render(&self) -> (b: Vec<u8>)
        ensures
            b@ == render_spec(*self),
    {
        match self {
            Value::Bool(true) => {
                let mut b: Vec<u8> = Vec::new();
                b.push(116);
                b.push(114);
                b.push(117);
                b.push(101);
                proof {
                    assert(b@ =~= render_spec(Value::Bool(true)));
                }
                b
            },
            Value::Bool(false) => {
                let mut b: Vec<u8> = Vec::new();
                b.push(102);
                b.push(97);
                b.push(108);
                b.push(115);
                b.push(101);
                proof {
                    assert(b@ =~= render_spec(Value::Bool(false)));
                }
                b
            },
            Value::Int(v) => {
                let neg: bool = *v < 0;
                let mut mag: u64 = if *v >= 0 {
                    *v as u64
                } else if *v == i64::MIN {
                    9223372036854775808u64
                } else {
                    (-*v) as u64
                };
                let ghost m0 = mag as nat;
                let mut rev: Vec<u8> = Vec::new();
                if mag == 0 {
                    rev.push(48);
                    proof {
                        assert(dec_digits(m0) =~= rev@.reverse());
                    }
                } else {
                    proof {
                        assert(dec_digits(m0) =~= dec_digits(m0) + rev@.reverse());
                    }
                    while mag > 0
                        invariant
                            mag > 0 ==> dec_digits(m0) == dec_digits(mag as nat)
                                + rev@.reverse(),
                            mag == 0 ==> dec_digits(m0) == rev@.reverse(),
                        decreases mag,
                    {
                        let ghost pre = rev@;
                        let ghost pm = mag as nat;
                        let d: u8 = (mag % 10) as u8;
                        rev.push(48 + d);
                        mag = mag / 10;
                        proof {
                            assert(rev@.reverse() =~= seq![(48 + pm % 10) as u8]
                                + pre.reverse());
                            if pm < 10 {
                                vstd::arithmetic::div_mod::lemma_basic_div(pm as int, 10);
                                vstd::arithmetic::div_mod::lemma_small_mod(pm, 10);
                                assert(dec_digits(pm) =~= seq![(48 + pm % 10) as u8]);
                                assert(dec_digits(m0) =~= rev@.reverse());
                            } else {
                                assert(dec_digits(pm) == dec_digits(pm / 10).push(
                                    (48 + pm % 10) as u8,
                                ));
                                assert(dec_digits(pm / 10) + rev@.reverse() =~= dec_digits(
                                    pm,
                                ) + pre.reverse());
                                assert(dec_digits(m0) == dec_digits(mag as nat)
                                    + rev@.reverse());
                            }
                        }
                    }
                }
                let mut b: Vec<u8> = Vec::new();
                let ghost prefix: Seq<u8> = if neg {
                    seq![45u8]
                } else {
                    Seq::empty()
                };
                if neg {
                    b.push(45);
                }
                proof {
                    assert(b@ =~= prefix);
                }
                let k: usize = rev.len();
                let mut j: usize = 0;
                while j < k
                    invariant
                        j <= k,
                        k == rev@.len(),
                        b@ == prefix + rev@.reverse().take(j as int),
                        dec_digits(m0) == rev@.reverse(),
                        prefix == (if neg {
                            seq![45u8]
                        } else {
                            Seq::<u8>::empty()
                        }),
                    decreases k - j,
                {
                    b.push(rev[k - 1 - j]);
                    proof {
                        assert(rev@.reverse()[j as int] == rev@[k - 1 - j]);
                        assert(b@ =~= prefix + rev@.reverse().take(j as int + 1));
                    }
                    j = j + 1;
                }
                proof {
                    assert(rev@.reverse().take(k as int) =~= rev@.reverse());
                    assert(b@ =~= prefix + dec_digits(m0));
                    assert(b@ =~= render_spec(*self));
                }
                b
            },
        }
    }
}

/// The decimal digits of a natural number, most significant first.
pub open spec fn dec_digits(n: nat) -> Seq<u8>
    decreases n,
{
    if n < 10 {
        seq![(48 + n) as u8]
    } else {
        dec_digits(n / 10).push((48 + n % 10) as u8)
    }
}

/// The textual representation of a value: integers in decimal with a
/// leading minus sign when negative, booleans as the words spelled
/// `true` and `false`.
pub open spec fn render_spec(v: Value) -> Seq<u8> {
    match v {
        Value::Bool(true) => seq![116u8, 114u8, 117u8, 101u8],
        Value::Bool(false) => seq![102u8, 97u8, 108u8, 115u8, 101u8],
        Value::Int(i) => if i >= 0 {
            dec_digits(i as nat)
        } else {
            seq![45u8] + dec_digits((-(i as int)) as nat)
        },
    }
}

/// The absolute value of an integer.
pub open spec fn abs_int(a: int) -> int {
    if a >= 0 {
        a
    } else {
        -a
    }
}

/// Division truncating toward zero, the semantics of the machine's `Divide`.
pub open spec fn trunc_div(a: int, b: int) -> int
    recommends
        b != 0,
{
    let q = abs_int(a) / abs_int(b);
    if (a < 0) != (b < 0) {
        -q
    } else {
        q
    }
}

/// One bytecode instruction. A program is an append-only sequence of these,
/// built by the compiler and then read-only during execution.
#[derive(Clone, Copy, Debug, PartialEq, Eq, Structural)]
pub enum Op {
    Add,
    Divide,
    Drop,
    Dup,
    Multiply,
    Over,
    Push(Value),
    PrintLn,
    Rot,
    Subtract,
    Swap,
}

/// A fault during execution. Stack faults (`StackUnderflow`, `TypeMismatch`)
/// can never arise from a program the compiler accepted; arithmetic faults
/// (`DivisionByZero`, `Overflow`) depend on runtime values and abort the run.
#[derive(Clone, Copy, Debug, PartialEq, Eq, Structural)]
pub enum RunError {
    DivisionByZero,
    Overflow,
    StackUnderflow,
    TypeMismatch,
}

/// What one of the four arithmetic instructions yields on two integer
/// operands, `a` the deeper one. Sums, differences and products that leave
/// the 64-bit signed range fault, as does dividing the smallest integer by
/// minus one; dividing by zero faults with its own error.
pub open spec fn spec_arith(op: Op, a: i64, b: i64) -> Result<i64, RunError> {
    match op {
        Op::Add => if i64::MIN <= a + b <= i64::MAX {
            Ok((a + b) as i64)
        } else {
            Err(RunError::Overflow)
        },
        Op::Subtract => if i64::MIN <= a - b <= i64::MAX {
            Ok((a - b) as i64)
        } else {
            Err(RunError::Overflow)
        },
        Op::Multiply => if i64::MIN <= a * b <= i64::MAX {
            Ok((a * b) as i64)
        } else {
            Err(RunError::Overflow)
        },
        Op::Divide => if b == 0 {
            Err(RunError::DivisionByZero)
        } else if a == i64::MIN && b == -1 {
            Err(RunError::Overflow)
        } else {
            Ok(trunc_div(a as int, b as int) as i64)
        },
        _ => Err(RunError::TypeMismatch),
    }
}

/// The same, lifted to values: both operands must be integers.
pub open spec fn val_arith(op: Op, x: Value, y: Value) -> Result<Value, RunError> {
    match (x, y) {
        (Value::Int(a), Value::Int(b)) => match spec_arith(op, a, b) {
            Ok(v) => Ok(Value::Int(v)),
            Err(e) => Err(e),
        },
        _ => Err(RunError::TypeMismatch),
    }
}

/// What one step of execution leaves behind: the new stack and, for
/// `PrintLn`, the value printed.
pub ghost struct StepOk {
    pub stack: Seq<Value>,
    pub printed: Option<Value>,
}

/// A running machine's state: the value stack and the values printed so far.
pub ghost struct RunState {
    pub stack: Seq<Value>,
    pub output: Seq<Value>,
}

/// The effect of one arithmetic instruction on the stack: the top two values
/// are replaced by the result, the deeper one being the left operand.
pub open spec fn spec_step_arith(stack: Seq<Value>, op: Op) -> Result<StepOk, RunError> {
    if stack.len() < 2 {
        Err(RunError::StackUnderflow)
    } else {
        match val_arith(op, stack[stack.len() - 2], stack[stack.len() - 1]) {
            Ok(v) => Ok(
                StepOk { stack: stack.drop_last().drop_last().push(v), printed: None },
            ),
            Err(e) => Err(e),
        }
    }
}

/// The effect of one instruction on the stack.
pub open spec fn spec_step(stack: Seq<Value>, op: Op) -> Result<StepOk, RunError> {
    match op {
        Op::Push(v) => Ok(StepOk { stack: stack.push(v), printed: None }),
        Op::Add => spec_step_arith(stack, op),
        Op::Subtract => spec_step_arith(stack, op),
        Op::Multiply => spec_step_arith(stack, op),
        Op::Divide => spec_step_arith(stack, op),
        Op::Dup => if stack.len() < 1 {
            Err(RunError::StackUnderflow)
        } else {
            Ok(StepOk { stack: stack.push(stack.last()), printed: None })
        },
        Op::Drop => if stack.len() < 1 {
            Err(RunError::StackUnderflow)
        } else {
            Ok(StepOk { stack: stack.drop_last(), printed: None })
        },
        Op::Over => if stack.len() < 2 {
            Err(RunError::StackUnderflow)
        } else {
            Ok(StepOk { stack: stack.push(stack[stack.len() - 2]), printed: None })
        },
        Op::Rot => if stack.len() < 3 {
            Err(RunError::StackUnderflow)
        } else {
            Ok(
                StepOk {
                    stack: stack.take(stack.len() - 3).push(stack[stack.len() - 2]).push(
                        stack[stack.len() - 1],
                    ).push(stack[stack.len() - 3]),
                    printed: None,
                },
            )
        },
        Op::Swap => if stack.len() < 2 {
            Err(RunError::StackUnderflow)
        } else {
            Ok(
                StepOk {
                    stack: stack.drop_last().drop_last().push(stack[stack.len() - 1]).push(
                        stack[stack.len() - 2],
                    ),
                    printed: None,
                },
            )
        },
        Op::PrintLn => if stack.len() < 1 {
            Err(RunError::StackUnderflow)
        } else {
            Ok(StepOk { stack: stack.drop_last(), printed: Some(stack.last()) })
        },
    }
}

/// Executing the instructions from `i` on, starting from state `st`: the
/// final state, or the first fault.
pub open spec fn spec_run_from(ops: Seq<Op>, i: int, st: RunState) -> Result<
    RunState,
    RunError,
>
    decreases ops.len() - i,
{
    if i < ops.len() {
        match spec_step(st.stack, ops[i]) {
            Ok(s) => spec_run_from(
                ops,
                i + 1,
                RunState {
                    stack: s.stack,
                    output: match s.printed {
                        Some(v) => st.output.push(v),
                        None => st.output,
                    },
                },
            ),
            Err(e) => Err(e),
        }
    } else {
        Ok(st)
    }
}

/// Executing a whole program from an empty stack.
pub open spec fn spec_run(ops: Seq<Op>) -> Result<RunState, RunError> {
    spec_run_from(ops, 0, RunState { stack: Seq::empty(), output: Seq::empty() })
}

/// Everything a finished run produced: the final value stack and the values
/// printed by `PrintLn`, in order. Turning each printed value into text is the
/// caller's concern.
#[derive(Debug)]
pub struct RunOutput {
    pub stack: Vec<Value>,
    pub output: Vec<Value>,
}

/// The virtual machine: owns the bytecode program.
#[derive(Debug)]
pub struct VM {
    op_list: Vec<Op>,
}

impl View for VM {
    type V = Seq<Op>;

    closed spec fn view(&self) -> Seq<Op> {
        self.op_list@
    }
}

impl VM {
    pub fn new() -> (vm: Self)
        ensures
            vm@ == Seq::<Op>::empty(),
    {
        VM { op_list: Vec::new() }
    }

    pub fn push_op(&mut self, op: Op)
        ensures
            final(self)@ == old(self)@.push(op),
    {
        self.op_list.push(op);
    }

    pub fn op_count(&self) -> (n: usize)
        ensures
            n == self@.len(),
    {
        self.op_list.len()
    }

    pub fn op_at(&self, i: usize) -> (op: Op)
        requires
            i < self@.len(),
        ensures
            op == self@[i as int],
    {
        self.op_list[i]
    }

    /// Executes the program in one linear pass over an initially empty value
    /// stack: exactly `spec_run` of the program. The caller prints each
    /// output value; a fault aborts the run and is returned instead.
    pub fn run(&self) -> (r: Result<RunOutput, RunError>)
        ensures
            ({
                let s = spec_run(self@);
                &&& (s is Ok <==> r is Ok)
                &&& (r matches Ok(out) ==> s matches Ok(st) && out.stack@ == st.stack
                    && out.output@ == st.output)
                &&& (r matches Err(e) ==> s == Err::<RunState, RunError>(e))
            }),
    {
        let mut stack: Vec<Value> = Vec::new();
        let mut output: Vec<Value> = Vec::new();
        let n: usize = self.op_list.len();
        let mut i: usize = 0;
        while i < n
            invariant
                n == self@.len(),
                i <= n,
                spec_run(self@) == spec_run_from(
                    self@,
                    i as int,
                    RunState { stack: stack@, output: output@ },
                ),
            decreases n - i,
        {
            let ghost pre = RunState { stack: stack@, output: output@ };
            let op: Op = self.op_list[i];
            match op {
                Op::Push(v) => {
                    stack.push(v);
                },
                Op::Add => {
                    if stack.len() < 2 {
                        return Err(RunError::StackUnderflow);
                    }
                    let v1: Value = stack.pop().unwrap();
                    let v2: Value = stack.pop().unwrap();
                    proof {
                        assert(stack@ =~= pre.stack.drop_last().drop_last());
                    }
                    match v2.add(v1) {
                        Ok(v) => stack.push(v),
                        Err(e) => {
                            return Err(e);
                        },
                    }
                },
                Op::Subtract => {
                    if stack.len() < 2 {
                        return Err(RunError::StackUnderflow);
                    }
                    let v1: Value = stack.pop().unwrap();
                    let v2: Value = stack.pop().unwrap();
                    proof {
                        assert(stack@ =~= pre.stack.drop_last().drop_last());
                    }
                    match v2.sub(v1) {
                        Ok(v) => stack.push(v),
                        Err(e) => {
                            return Err(e);
                        },
                    }
                },
                Op::Multiply => {
                    if stack.len() < 2 {
                        return Err(RunError::StackUnderflow);
                    }
                    let v1: Value = stack.pop().unwrap();
                    let v2: Value = stack.pop().unwrap();
                    proof {
                        assert(stack@ =~= pre.stack.drop_last().drop_last());
                    }
                    match v2.mul(v1) {
                        Ok(v) => stack.push(v),
                        Err(e) => {
                            return Err(e);
                        },
                    }
                },
                Op::Divide => {
                    if stack.len() < 2 {
                        return Err(RunError::StackUnderflow);
                    }
                    let v1: Value = stack.pop().unwrap();
                    let v2: Value = stack.pop().unwrap();
                    proof {
                        assert(stack@ =~= pre.stack.drop_last().drop_last());
                    }
                    match v2.div(v1) {
                        Ok(v) => stack.push(v),
                        Err(e) => {
                            return Err(e);
                        },
                    }
                },
                Op::Dup => {
                    if stack.len() < 1 {
                        return Err(RunError::StackUnderflow);
                    }
                    let v: Value = stack[stack.len() - 1];
                    stack.push(v);
                },
                Op::Drop => {
                    if stack.len() < 1 {
                        return Err(RunError::StackUnderflow);
                    }
                    let _ = stack.pop().unwrap();
                    proof {
                        assert(stack@ =~= pre.stack.drop_last());
                    }
                },
                Op::Over => {
                    if stack.len() < 2 {
                        return Err(RunError::StackUnderflow);
                    }
                    let v: Value = stack[stack.len() - 2];
                    stack.push(v);
                },
                Op::Rot => {
                    if stack.len() < 3 {
                        return Err(RunError::StackUnderflow);
                    }
                    let len: usize = stack.len();
                    let a: Value = stack[len - 3];
                    let b: Value = stack[len - 2];
                    let c: Value = stack[len - 1];
                    stack.set(len - 3, b);
                    stack.set(len - 2, c);
                    stack.set(len - 1, a);
                    proof {
                        assert(stack@ =~= pre.stack.take(pre.stack.len() - 3).push(b).push(
                            c,
                        ).push(a));
                    }
                },
                Op::Swap => {
                    if stack.len() < 2 {
                        return Err(RunError::StackUnderflow);
                    }
                    let len: usize = stack.len();
                    let x: Value = stack[len - 2];
                    let y: Value = stack[len - 1];
                    stack.set(len - 2, y);
                    stack.set(len - 1, x);
                    proof {
                        assert(stack@ =~= pre.stack.drop_last().drop_last().push(y).push(x));
                    }
                },
                Op::PrintLn => {
                    if stack.len() < 1 {
                        return Err(RunError::StackUnderflow);
                    }
                    let v: Value = stack.pop().unwrap();
                    proof {
                        assert(stack@ =~= pre.stack.drop_last());
                    }
                    output.push(v);
                },
            }
            i = i + 1;
        }
        Ok(RunOutput { stack, output })
    }
}

} // verus!
