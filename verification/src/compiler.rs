//! The compiler: drives the scanner token by token, verifies every operation
//! against a compile-time model of the stack (types only, no values), and
//! emits a bytecode program. It fails fast on the first invalid construct,
//! and a program whose type stack is not empty at the end is rejected before
//! it can run.

use vstd::prelude::*;

use crate::scanner::{
    is_digit_byte, is_line_break, lemma_scan_bounds, pos_wf, spec_scan, token_of, ScanPos,
    ScanResult, Scanner, Token, TokenType,
};
use crate::vm::{val_type, DataType, Op, Value, VM};

verus! {

/// Why an integer literal failed to parse.
#[derive(Clone, Copy, Debug, PartialEq, Eq, Structural)]
pub enum IntParseError {
    Empty,
    InvalidDigit,
    PosOverflow,
}

/// What was wrong at a particular token.
#[derive(Clone, Copy, Debug, PartialEq, Eq, Structural)]
#[allow(inconsistent_fields)]
pub enum CompileErrorKind {
    /// An unrecognized character.
    InvalidToken,
    /// Identifiers are reserved for future variable or function support and
    /// are always rejected.
    UnsupportedIdentifier,
    /// An integer literal that does not denote a 64-bit signed integer.
    IntParse(IntParseError),
    /// The operation needs `needed` operands but the stack holds `found`.
    TooFewOperands { needed: usize, found: usize },
    /// The operand `depth` entries below the top (0 is the top itself) must
    /// be an integer but is `found`.
    OperandNotInt { depth: usize, found: DataType },
}

/// The first error of a compilation pass: either a diagnostic attached to
/// the offending token, or data left on the type stack after the last token.
#[derive(Clone, Copy, Debug, PartialEq, Eq, Structural)]
pub enum CompileError {
    AtToken { token: Token, kind: CompileErrorKind },
    UnhandledData { count: usize },
}

/// Every byte is an ASCII decimal digit.
pub open spec fn all_digits(s: Seq<u8>) -> bool {
    forall|i: int| 0 <= i < s.len() ==> is_digit_byte(#[trigger] s[i])
}

/// The number a digit string denotes in decimal.
pub open spec fn digits_val(s: Seq<u8>) -> int
    decreases s.len(),
{
    if s.len() == 0 {
        0
    } else {
        digits_val(s.drop_last()) * 10 + (s.last() - 48)
    }
}

/// Parsing digits left to right with a running value `acc`: the first
/// non-digit stops the parse, as does the first step whose value leaves the
/// 64-bit signed range.
pub open spec fn spec_parse_digits(s: Seq<u8>, i: int, acc: int) -> Result<i64, IntParseError>
    decreases s.len() - i,
{
    if i < s.len() {
        if !is_digit_byte(s[i]) {
            Err(IntParseError::InvalidDigit)
        } else if acc * 10 + (s[i] - 48) > i64::MAX {
            Err(IntParseError::PosOverflow)
        } else {
            spec_parse_digits(s, i + 1, acc * 10 + (s[i] - 48))
        }
    } else {
        Ok(acc as i64)
    }
}

/// What parsing a whole lexeme as a 64-bit signed integer yields.
pub open spec fn spec_parse_int(s: Seq<u8>) -> Result<i64, IntParseError> {
    if s.len() == 0 {
        Err(IntParseError::Empty)
    } else {
        spec_parse_digits(s, 0, 0)
    }
}

proof fn lemma_digits_val_nonneg(s: Seq<u8>)
    requires
        all_digits(s),
    ensures
        digits_val(s) >= 0,
    decreases s.len(),
{
    if s.len() > 0 {
        assert(all_digits(s.drop_last()));
        lemma_digits_val_nonneg(s.drop_last());
    }
}

/// A digit string's value only grows as more digits are taken.
proof fn lemma_digits_val_take_le(s: Seq<u8>, i: int)
    requires
        all_digits(s),
        0 <= i <= s.len(),
    ensures
        digits_val(s.take(i)) <= digits_val(s),
    decreases s.len() - i,
{
    if i < s.len() {
        assert(s.take(i + 1).drop_last() =~= s.take(i));
        assert(s.take(i + 1).last() == s[i]);
        assert(all_digits(s.take(i)));
        lemma_digits_val_nonneg(s.take(i));
        lemma_digits_val_take_le(s, i + 1);
    } else {
        assert(s.take(i) =~= s);
    }
}

/// Parses a string of bytes as a decimal 64-bit signed integer: exactly
/// `spec_parse_int`, and on an all-digit string it succeeds if and only if
/// the denoted number fits, yielding that number.
pub fn parse_i64(digits: &Vec<u8>) -> (r: Result<i64, IntParseError>)
    ensures
        r == spec_parse_int(digits@),
        r matches Ok(v) ==> all_digits(digits@) && v == digits_val(digits@),
        all_digits(digits@) && digits@.len() >= 1 && digits_val(digits@) <= i64::MAX ==> r
            is Ok,
{
    let n: usize = digits.len();
    if n == 0 {
        return Err(IntParseError::Empty);
    }
    let mut acc: i64 = 0;
    let mut i: usize = 0;
    while i < n
        invariant
            n == digits@.len(),
            0 < n,
            i <= n,
            0 <= acc <= i64::MAX,
            acc == digits_val(digits@.take(i as int)),
            all_digits(digits@.take(i as int)),
            spec_parse_digits(digits@, 0, 0) == spec_parse_digits(digits@, i as int, acc as int),
        decreases n - i,
    {
        let b: u8 = digits[i];
        if !(48 <= b && b <= 57) {
            return Err(IntParseError::InvalidDigit);
        }
        let next: u128 = (acc as u128) * 10 + ((b - 48) as u128);
        proof {
            assert(next == acc * 10 + (b - 48));
            assert(digits@.take(i as int + 1).drop_last() =~= digits@.take(i as int));
            assert(digits@.take(i as int + 1).last() == digits@[i as int]);
        }
        if next > i64::MAX as u128 {
            proof {
                if all_digits(digits@) {
                    lemma_digits_val_take_le(digits@, i as int + 1);
                }
            }
            return Err(IntParseError::PosOverflow);
        }
        acc = next as i64;
        i = i + 1;
    }
    proof {
        assert(digits@.take(n as int) =~= digits@);
    }
    Ok(acc)
}

/// Whether an instruction's static precondition holds of a type stack.
pub open spec fn flow_ok(stack: Seq<DataType>, op: Op) -> bool {
    match op {
        Op::Push(_) => true,
        Op::Add => arith_flow_ok(stack),
        Op::Subtract => arith_flow_ok(stack),
        Op::Multiply => arith_flow_ok(stack),
        Op::Divide => arith_flow_ok(stack),
        Op::Dup => stack.len() >= 1,
        Op::Drop => stack.len() >= 1,
        Op::PrintLn => stack.len() >= 1,
        Op::Over => stack.len() >= 2,
        Op::Swap => stack.len() >= 2,
        Op::Rot => stack.len() >= 3,
    }
}

/// The static precondition of the four arithmetic instructions: two
/// operands, both integers.
pub open spec fn arith_flow_ok(stack: Seq<DataType>) -> bool {
    &&& stack.len() >= 2
    &&& stack[stack.len() - 1] == DataType::Int
    &&& stack[stack.len() - 2] == DataType::Int
}

/// An instruction's effect on the type stack, the exact shape of its effect
/// on the value stack at run time.
pub open spec fn flow(stack: Seq<DataType>, op: Op) -> Seq<DataType>
    recommends
        flow_ok(stack, op),
{
    match op {
        Op::Push(v) => stack.push(val_type(v)),
        Op::Add => stack.drop_last().drop_last().push(DataType::Int),
        Op::Subtract => stack.drop_last().drop_last().push(DataType::Int),
        Op::Multiply => stack.drop_last().drop_last().push(DataType::Int),
        Op::Divide => stack.drop_last().drop_last().push(DataType::Int),
        Op::Dup => stack.push(stack.last()),
        Op::Drop => stack.drop_last(),
        Op::PrintLn => stack.drop_last(),
        Op::Over => stack.push(stack[stack.len() - 2]),
        Op::Swap => stack.drop_last().drop_last().push(stack[stack.len() - 1]).push(
            stack[stack.len() - 2],
        ),
        Op::Rot => stack.take(stack.len() - 3).push(stack[stack.len() - 2]).push(
            stack[stack.len() - 1],
        ).push(stack[stack.len() - 3]),
    }
}

/// The error when an operation wants `needed` operands of a stack of
/// `found`.
pub open spec fn too_few(t: Token, needed: usize, found: nat) -> CompileError {
    CompileError::AtToken {
        token: t,
        kind: CompileErrorKind::TooFewOperands { needed, found: found as usize },
    }
}

/// The check an arithmetic token performs: two operands, both integers,
/// examined from the top down; on success the operands make way for an
/// integer result.
pub open spec fn spec_check_arith(t: Token, stack: Seq<DataType>) -> Result<
    Seq<DataType>,
    CompileError,
> {
    if stack.len() < 2 {
        Err(too_few(t, 2, stack.len()))
    } else if stack[stack.len() - 1] != DataType::Int {
        Err(
            CompileError::AtToken {
                token: t,
                kind: CompileErrorKind::OperandNotInt {
                    depth: 0,
                    found: stack[stack.len() - 1],
                },
            },
        )
    } else if stack[stack.len() - 2] != DataType::Int {
        Err(
            CompileError::AtToken {
                token: t,
                kind: CompileErrorKind::OperandNotInt {
                    depth: 1,
                    found: stack[stack.len() - 2],
                },
            },
        )
    } else {
        Ok(stack.drop_last().drop_last().push(DataType::Int))
    }
}

/// What the compiler does with one scanned token: the instruction emitted
/// and the new type stack, or the diagnostic that aborts the pass.
pub open spec fn spec_check(code: Seq<u8>, r: ScanResult, stack: Seq<DataType>) -> Result<
    (Op, Seq<DataType>),
    CompileError,
> {
    let t = token_of(r);
    match r.token_type {
        TokenType::Dup => if stack.len() < 1 {
            Err(too_few(t, 1, stack.len()))
        } else {
            Ok((Op::Dup, flow(stack, Op::Dup)))
        },
        TokenType::Drop => if stack.len() < 1 {
            Err(too_few(t, 1, stack.len()))
        } else {
            Ok((Op::Drop, flow(stack, Op::Drop)))
        },
        TokenType::PrintLn => if stack.len() < 1 {
            Err(too_few(t, 1, stack.len()))
        } else {
            Ok((Op::PrintLn, flow(stack, Op::PrintLn)))
        },
        TokenType::Over => if stack.len() < 2 {
            Err(too_few(t, 2, stack.len()))
        } else {
            Ok((Op::Over, flow(stack, Op::Over)))
        },
        TokenType::Swap => if stack.len() < 2 {
            Err(too_few(t, 2, stack.len()))
        } else {
            Ok((Op::Swap, flow(stack, Op::Swap)))
        },
        TokenType::Rot => if stack.len() < 3 {
            Err(too_few(t, 3, stack.len()))
        } else {
            Ok((Op::Rot, flow(stack, Op::Rot)))
        },
        TokenType::Plus => match spec_check_arith(t, stack) {
            Ok(s2) => Ok((Op::Add, s2)),
            Err(e) => Err(e),
        },
        TokenType::Minus => match spec_check_arith(t, stack) {
            Ok(s2) => Ok((Op::Subtract, s2)),
            Err(e) => Err(e),
        },
        TokenType::Star => match spec_check_arith(t, stack) {
            Ok(s2) => Ok((Op::Multiply, s2)),
            Err(e) => Err(e),
        },
        TokenType::Slash => match spec_check_arith(t, stack) {
            Ok(s2) => Ok((Op::Divide, s2)),
            Err(e) => Err(e),
        },
        TokenType::True => Ok(
            (Op::Push(Value::Bool(true)), flow(stack, Op::Push(Value::Bool(true)))),
        ),
        TokenType::False => Ok(
            (Op::Push(Value::Bool(false)), flow(stack, Op::Push(Value::Bool(false)))),
        ),
        TokenType::Int => match spec_parse_int(code.subrange(r.start, r.start + r.length)) {
            Ok(v) => Ok((Op::Push(Value::Int(v)), flow(stack, Op::Push(Value::Int(v))))),
            Err(e) => Err(
                CompileError::AtToken { token: t, kind: CompileErrorKind::IntParse(e) },
            ),
        },
        TokenType::Identifier => Err(
            CompileError::AtToken { token: t, kind: CompileErrorKind::UnsupportedIdentifier },
        ),
        TokenType::Error => Err(
            CompileError::AtToken { token: t, kind: CompileErrorKind::InvalidToken },
        ),
        TokenType::EndOfFile => Err(
            CompileError::AtToken { token: t, kind: CompileErrorKind::InvalidToken },
        ),
    }
}

/// The whole pass from position `p` with type stack `stack` and the program
/// built so far: the finished program, or the first error. The pass ends at
/// the end-of-input token, which demands an empty type stack.
pub open spec fn spec_compile_from(
    code: Seq<u8>,
    p: ScanPos,
    stack: Seq<DataType>,
    ops: Seq<Op>,
) -> Result<Seq<Op>, CompileError>
    decreases code.len() - p.cur,
        when pos_wf(code, p)
{
    let r = spec_scan(code, p);
    if r.token_type == TokenType::EndOfFile {
        if stack.len() == 0 {
            Ok(ops)
        } else {
            Err(CompileError::UnhandledData { count: stack.len() as usize })
        }
    } else {
        match spec_check(code, r, stack) {
            Ok(step) => {
                proof {
                    lemma_scan_bounds(code, p);
                }
                spec_compile_from(code, r.end, step.1, ops.push(step.0))
            },
            Err(e) => Err(e),
        }
    }
}

/// Compiling a whole buffer from the starting position.
pub open spec fn spec_compile(code: Seq<u8>) -> Result<Seq<Op>, CompileError> {
    spec_compile_from(
        code,
        ScanPos { cur: 0, line: 1, col: 1 },
        Seq::empty(),
        Seq::empty(),
    )
}

/// How many tokens the scanner yields from position `p` before end of input.
pub open spec fn spec_token_count(code: Seq<u8>, p: ScanPos) -> nat
    decreases code.len() - p.cur,
        when pos_wf(code, p)
{
    let r = spec_scan(code, p);
    if r.token_type == TokenType::EndOfFile {
        0
    } else {
        proof {
            lemma_scan_bounds(code, p);
        }
        1 + spec_token_count(code, r.end)
    }
}

/// The compiler's working state: the compile-time type stack and the machine
/// whose program is being built. The type stack is mutated in lock-step with
/// every emitted instruction.
pub struct CompilerContext {
    pub stack: Vec<DataType>,
    pub vm: VM,
}

impl CompilerContext {
    /// Applies an instruction's stack effect to the type stack and appends
    /// the instruction to the program. The caller has already checked the
    /// instruction's static precondition.
    #[verifier::rlimit(60)]
    pub fn push_op(&mut self, op: Op)
        requires
            flow_ok(old(self).stack@, op),
        ensures
            final(self).stack@ == flow(old(self).stack@, op),
            final(self).vm@ == old(self).vm@.push(op),
    {
        let ghost pre = self.stack@;
        match op {
            Op::Add => {
                let _ = self.stack.pop().unwrap();
                proof {
                    assert(self.stack@ =~= flow(pre, Op::Add));
                }
            },
            Op::Divide => {
                let _ = self.stack.pop().unwrap();
                proof {
                    assert(self.stack@ =~= flow(pre, Op::Divide));
                }
            },
            Op::Subtract => {
                let _ = self.stack.pop().unwrap();
                proof {
                    assert(self.stack@ =~= flow(pre, Op::Subtract));
                }
            },
            Op::Multiply => {
                let _ = self.stack.pop().unwrap();
                proof {
                    assert(self.stack@ =~= flow(pre, Op::Multiply));
                }
            },
            Op::Drop => {
                let _ = self.stack.pop().unwrap();
                proof {
                    assert(self.stack@ =~= flow(pre, Op::Drop));
                }
            },
            Op::PrintLn => {
                let _ = self.stack.pop().unwrap();
                proof {
                    assert(self.stack@ =~= flow(pre, Op::PrintLn));
                }
            },
            Op::Dup => {
                let v: DataType = self.stack[self.stack.len() - 1];
                self.stack.push(v);
            },
            Op::Over => {
                let v: DataType = self.stack[self.stack.len() - 2];
                self.stack.push(v);
            },
            Op::Push(value) => {
                self.stack.push(value.data_type());
            },
            Op::Rot => {
                let len: usize = self.stack.len();
                let a: DataType = self.stack[len - 3];
                let b: DataType = self.stack[len - 2];
                let c: DataType = self.stack[len - 1];
                self.stack.set(len - 3, b);
                self.stack.set(len - 2, c);
                self.stack.set(len - 1, a);
                proof {
                    assert(self.stack@ =~= flow(pre, op));
                }
            },
            Op::Swap => {
                let len: usize = self.stack.len();
                let x: DataType = self.stack[len - 2];
                let y: DataType = self.stack[len - 1];
                self.stack.set(len - 2, y);
                self.stack.set(len - 1, x);
                proof {
                    assert(self.stack@ =~= flow(pre, op));
                }
            },
        }
        self.vm.push_op(op);
    }

    /// Emits the addition instruction after checking for two integer
    /// operands: exactly `spec_check_arith`.
    pub fn add(&mut self, token: Token) -> (res: Result<(), CompileError>)
        ensures
            ({
                match spec_check_arith(token, old(self).stack@) {
                    Ok(s2) => res is Ok && final(self).stack@ == s2 && final(self).vm@
                        == old(self).vm@.push(Op::Add),
                    Err(e) => res == Err::<(), CompileError>(e) && final(self).stack@ == old(self).stack@ && final(self).vm@ == old(self).vm@,
                }
            }),
    {
        let len: usize = self.stack.len();
        if len < 2 {
            return Err(
                CompileError::AtToken {
                    token,
                    kind: CompileErrorKind::TooFewOperands { needed: 2, found: len },
                },
            );
        }
        if self.stack[len - 1] != DataType::Int {
            return Err(
                CompileError::AtToken {
                    token,
                    kind: CompileErrorKind::OperandNotInt {
                        depth: 0,
                        found: self.stack[len - 1],
                    },
                },
            );
        }
        if self.stack[len - 2] != DataType::Int {
            return Err(
                CompileError::AtToken {
                    token,
                    kind: CompileErrorKind::OperandNotInt {
                        depth: 1,
                        found: self.stack[len - 2],
                    },
                },
            );
        }
        self.push_op(Op::Add);
        Ok(())
    }

    /// Emits the subtraction instruction after the same checks as `add`.
    pub fn subtract(&mut self, token: Token) -> (res: Result<(), CompileError>)
        ensures
            ({
                match spec_check_arith(token, old(self).stack@) {
                    Ok(s2) => res is Ok && final(self).stack@ == s2 && final(self).vm@
                        == old(self).vm@.push(Op::Subtract),
                    Err(e) => res == Err::<(), CompileError>(e) && final(self).stack@ == old(self).stack@ && final(self).vm@ == old(self).vm@,
                }
            }),
    {
        let len: usize = self.stack.len();
        if len < 2 {
            return Err(
                CompileError::AtToken {
                    token,
                    kind: CompileErrorKind::TooFewOperands { needed: 2, found: len },
                },
            );
        }
        if self.stack[len - 1] != DataType::Int {
            return Err(
                CompileError::AtToken {
                    token,
                    kind: CompileErrorKind::OperandNotInt {
                        depth: 0,
                        found: self.stack[len - 1],
                    },
                },
            );
        }
        if self.stack[len - 2] != DataType::Int {
            return Err(
                CompileError::AtToken {
                    token,
                    kind: CompileErrorKind::OperandNotInt {
                        depth: 1,
                        found: self.stack[len - 2],
                    },
                },
            );
        }
        self.push_op(Op::Subtract);
        Ok(())
    }

    /// Emits the multiplication instruction after the same checks as `add`.
    pub fn multiply(&mut self, token: Token) -> (res: Result<(), CompileError>)
        ensures
            ({
                match spec_check_arith(token, old(self).stack@) {
                    Ok(s2) => res is Ok && final(self).stack@ == s2 && final(self).vm@
                        == old(self).vm@.push(Op::Multiply),
                    Err(e) => res == Err::<(), CompileError>(e) && final(self).stack@ == old(self).stack@ && final(self).vm@ == old(self).vm@,
                }
            }),
    {
        let len: usize = self.stack.len();
        if len < 2 {
            return Err(
                CompileError::AtToken {
                    token,
                    kind: CompileErrorKind::TooFewOperands { needed: 2, found: len },
                },
            );
        }
        if self.stack[len - 1] != DataType::Int {
            return Err(
                CompileError::AtToken {
                    token,
                    kind: CompileErrorKind::OperandNotInt {
                        depth: 0,
                        found: self.stack[len - 1],
                    },
                },
            );
        }
        if self.stack[len - 2] != DataType::Int {
            return Err(
                CompileError::AtToken {
                    token,
                    kind: CompileErrorKind::OperandNotInt {
                        depth: 1,
                        found: self.stack[len - 2],
                    },
                },
            );
        }
        self.push_op(Op::Multiply);
        Ok(())
    }

    /// Emits the division instruction after the same checks as `add`.
    pub fn divide(&mut self, token: Token) -> (res: Result<(), CompileError>)
        ensures
            ({
                match spec_check_arith(token, old(self).stack@) {
                    Ok(s2) => res is Ok && final(self).stack@ == s2 && final(self).vm@
                        == old(self).vm@.push(Op::Divide),
                    Err(e) => res == Err::<(), CompileError>(e) && final(self).stack@ == old(self).stack@ && final(self).vm@ == old(self).vm@,
                }
            }),
    {
        let len: usize = self.stack.len();
        if len < 2 {
            return Err(
                CompileError::AtToken {
                    token,
                    kind: CompileErrorKind::TooFewOperands { needed: 2, found: len },
                },
            );
        }
        if self.stack[len - 1] != DataType::Int {
            return Err(
                CompileError::AtToken {
                    token,
                    kind: CompileErrorKind::OperandNotInt {
                        depth: 0,
                        found: self.stack[len - 1],
                    },
                },
            );
        }
        if self.stack[len - 2] != DataType::Int {
            return Err(
                CompileError::AtToken {
                    token,
                    kind: CompileErrorKind::OperandNotInt {
                        depth: 1,
                        found: self.stack[len - 2],
                    },
                },
            );
        }
        self.push_op(Op::Divide);
        Ok(())
    }

    /// Parses an integer token's digits and emits the instruction that
    /// pushes the constant.
    pub fn int_literal(&mut self, token: Token, digits: &Vec<u8>) -> (res: Result<
        (),
        CompileError,
    >)
        ensures
            ({
                match spec_parse_int(digits@) {
                    Ok(v) => res is Ok && final(self).stack@ == old(self).stack@.push(
                        DataType::Int,
                    ) && final(self).vm@ == old(self).vm@.push(Op::Push(Value::Int(v))),
                    Err(e) => res == Err::<(), CompileError>(
                        CompileError::AtToken { token, kind: CompileErrorKind::IntParse(e) },
                    ) && final(self).stack@ == old(self).stack@ && final(self).vm@ == old(self).vm@,
                }
            }),
    {
        match parse_i64(digits) {
            Ok(v) => {
                self.push_op(Op::Push(Value::from_int(v)));
                Ok(())
            },
            Err(e) => Err(CompileError::AtToken { token, kind: CompileErrorKind::IntParse(e) }),
        }
    }

    /// Emits the print instruction, which consumes the top of the stack.
    pub fn print_line(&mut self, token: Token) -> (res: Result<(), CompileError>)
        ensures
            ({
                if old(self).stack@.len() < 1 {
                    res == Err::<(), CompileError>(too_few(token, 1, old(self).stack@.len()))
                        && final(self).stack@ == old(self).stack@ && final(self).vm@ == old(self).vm@
                } else {
                    res is Ok && final(self).stack@ == old(self).stack@.drop_last() && final(self).vm@ == old(self).vm@.push(Op::PrintLn)
                }
            }),
    {
        if self.stack.len() < 1 {
            return Err(
                CompileError::AtToken {
                    token,
                    kind: CompileErrorKind::TooFewOperands {
                        needed: 1,
                        found: self.stack.len(),
                    },
                },
            );
        }
        self.push_op(Op::PrintLn);
        Ok(())
    }
}

/// Compiles a whole source buffer: scans token by token, checks each against
/// the compile-time type stack, and builds the program, aborting on the
/// first error. Exactly `spec_compile` of the buffer: the machine holding
/// the program on success, the first diagnostic otherwise.
pub fn compile(source: Vec<u8>) -> (r: Result<VM, CompileError>)
    requires
        source@.len() < usize::MAX,
    ensures
        ({
            let c = spec_compile(source@);
            &&& (c is Ok <==> r is Ok)
            &&& (r matches Ok(vm) ==> vm@ == c->Ok_0)
            &&& (r matches Err(e) ==> c == Err::<Seq<Op>, CompileError>(e))
        }),
{
    let ghost code = source@;
    let mut scanner = Scanner::new(source);
    let mut ctx = CompilerContext { stack: Vec::new(), vm: VM::new() };
    loop
        invariant
            code == source@,
            scanner.wf(),
            scanner@.code == code,
            spec_compile(code) == spec_compile_from(code, scanner@.pos, ctx.stack@, ctx.vm@),
        decreases code.len() - scanner@.pos.cur,
    {
        proof {
            lemma_scan_bounds(code, scanner@.pos);
        }
        let ghost p = scanner@.pos;
        let ghost r = spec_scan(code, p);
        let ghost pre_stack = ctx.stack@;
        let ghost pre_ops = ctx.vm@;
        let token: Token = scanner.scan_token();
        proof {
            assert(token == token_of(r));
            assert(spec_compile_from(code, p, pre_stack, pre_ops) == (
            if r.token_type == TokenType::EndOfFile {
                if pre_stack.len() == 0 {
                    Ok::<Seq<Op>, CompileError>(pre_ops)
                } else {
                    Err::<Seq<Op>, CompileError>(
                        CompileError::UnhandledData { count: pre_stack.len() as usize },
                    )
                }
            } else {
                match spec_check(code, r, pre_stack) {
                    Ok(step) => spec_compile_from(code, r.end, step.1, pre_ops.push(step.0)),
                    Err(e) => Err(e),
                }
            }));
        }
        match token.token_type {
            TokenType::EndOfFile => {
                if ctx.stack.len() > 0 {
                    return Err(CompileError::UnhandledData { count: ctx.stack.len() });
                }
                return Ok(ctx.vm);
            },
            TokenType::Dup => {
                if ctx.stack.len() < 1 {
                    return Err(
                        CompileError::AtToken {
                            token,
                            kind: CompileErrorKind::TooFewOperands {
                                needed: 1,
                                found: ctx.stack.len(),
                            },
                        },
                    );
                }
                ctx.push_op(Op::Dup);
            },
            TokenType::Drop => {
                if ctx.stack.len() < 1 {
                    return Err(
                        CompileError::AtToken {
                            token,
                            kind: CompileErrorKind::TooFewOperands {
                                needed: 1,
                                found: ctx.stack.len(),
                            },
                        },
                    );
                }
                ctx.push_op(Op::Drop);
            },
            TokenType::Over => {
                if ctx.stack.len() < 2 {
                    return Err(
                        CompileError::AtToken {
                            token,
                            kind: CompileErrorKind::TooFewOperands {
                                needed: 2,
                                found: ctx.stack.len(),
                            },
                        },
                    );
                }
                ctx.push_op(Op::Over);
            },
            TokenType::Swap => {
                if ctx.stack.len() < 2 {
                    return Err(
                        CompileError::AtToken {
                            token,
                            kind: CompileErrorKind::TooFewOperands {
                                needed: 2,
                                found: ctx.stack.len(),
                            },
                        },
                    );
                }
                ctx.push_op(Op::Swap);
            },
            TokenType::Rot => {
                if ctx.stack.len() < 3 {
                    return Err(
                        CompileError::AtToken {
                            token,
                            kind: CompileErrorKind::TooFewOperands {
                                needed: 3,
                                found: ctx.stack.len(),
                            },
                        },
                    );
                }
                ctx.push_op(Op::Rot);
            },
            TokenType::True => {
                ctx.push_op(Op::Push(Value::from_bool(true)));
            },
            TokenType::False => {
                ctx.push_op(Op::Push(Value::from_bool(false)));
            },
            TokenType::Int => {
                let lex: Vec<u8> = scanner.lexeme(&token);
                match ctx.int_literal(token, &lex) {
                    Ok(_) => {},
                    Err(e) => {
                        return Err(e);
                    },
                }
            },
            TokenType::Plus => {
                match ctx.add(token) {
                    Ok(_) => {},
                    Err(e) => {
                        return Err(e);
                    },
                }
            },
            TokenType::Minus => {
                match ctx.subtract(token) {
                    Ok(_) => {},
                    Err(e) => {
                        return Err(e);
                    },
                }
            },
            TokenType::Star => {
                match ctx.multiply(token) {
                    Ok(_) => {},
                    Err(e) => {
                        return Err(e);
                    },
                }
            },
            TokenType::Slash => {
                match ctx.divide(token) {
                    Ok(_) => {},
                    Err(e) => {
                        return Err(e);
                    },
                }
            },
            TokenType::PrintLn => {
                match ctx.print_line(token) {
                    Ok(_) => {},
                    Err(e) => {
                        return Err(e);
                    },
                }
            },
            TokenType::Identifier => {
                return Err(
                    CompileError::AtToken {
                        token,
                        kind: CompileErrorKind::UnsupportedIdentifier,
                    },
                );
            },
            TokenType::Error => {
                return Err(
                    CompileError::AtToken { token, kind: CompileErrorKind::InvalidToken },
                );
            },
        }
        proof {
            assert(spec_compile_from(code, p, pre_stack, pre_ops) == spec_compile_from(
                code,
                r.end,
                ctx.stack@,
                ctx.vm@,
            ));
        }
    }
}

/// The first index of the 1-based line `n`, scanning from index `i`, which
/// starts a line; the buffer's end if there is no such line.
pub open spec fn spec_line_start(code: Seq<u8>, i: int, n: int) -> int
    decreases code.len() - i,
{
    if n <= 1 || i >= code.len() {
        i
    } else if is_line_break(code[i]) {
        spec_line_start(code, i + 1, n - 1)
    } else {
        spec_line_start(code, i + 1, n)
    }
}

/// The end of the line starting at `i`: the next line break, or the
/// buffer's end.
pub open spec fn spec_line_end(code: Seq<u8>, i: int) -> int
    decreases code.len() - i,
{
    if i < code.len() && !is_line_break(code[i]) {
        spec_line_end(code, i + 1)
    } else {
        i
    }
}

/// The verbatim text of the 1-based line `line` of a buffer, empty where
/// the buffer has no such line: what a diagnostic reproduces under the
/// file path, line and column.
pub fn get_code_at_line(line: usize, source: &Vec<u8>) -> (b: Vec<u8>)
    ensures
        b@ == ({
            let s = spec_line_start(source@, 0, line as int);
            source@.subrange(s, spec_line_end(source@, s))
        }),
{
    let n: usize = source.len();
    let mut i: usize = 0;
    let mut remaining: usize = line;
    while remaining > 1 && i < n
        invariant
            i <= n,
            n == source@.len(),
            spec_line_start(source@, 0, line as int) == spec_line_start(
                source@,
                i as int,
                remaining as int,
            ),
        decreases n - i,
    {
        if source[i] == 10 {
            remaining = remaining - 1;
        }
        i = i + 1;
    }
    let ghost s = i as int;
    let mut b: Vec<u8> = Vec::new();
    while i < n && source[i] != 10
        invariant
            0 <= s <= i <= n,
            n == source@.len(),
            spec_line_start(source@, 0, line as int) == s,
            spec_line_end(source@, s) == spec_line_end(source@, i as int),
            b@ == source@.subrange(s, i as int),
        decreases n - i,
    {
        b.push(source[i]);
        proof {
            assert(b@ =~= source@.subrange(s, i as int + 1));
        }
        i = i + 1;
    }
    b
}

} // verus!
