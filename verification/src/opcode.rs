use vstd::prelude::*;

use crate::ExecError;
use crate::program::Program;
use crate::program::ProgramState;
use crate::program::operand;
use crate::program::operands_in_bounds;
use crate::program::stores_value;
use crate::program::lemma_operands_in_bounds;

verus! {

/// An operation of the instruction table, selected by the opcode number.
#[derive(Clone, Copy, PartialEq, Eq, Structural, Debug)]
pub enum Op {
    NoOp,
    Add,
    Multiply,
    Input,
    Output,
    JumpNonZero,
    JumpZero,
    LessThan,
    Equal,
    AddRelativeBase,
}

/// An entry of the instruction table: the operation an opcode word selects
/// and the number of operands it takes.
#[derive(Clone, Copy, PartialEq, Eq, Structural, Debug)]
pub struct Instruction {
    /// The operation to perform.
    pub op: Op,
    /// The number of operands this instruction takes.
    pub num_of_params: usize,
}

/// The opcode number of an instruction word: its two low-order decimal
/// digits, with the sign of the word (as Rust's `%` computes it).
pub open spec fn opcode_num(word: i64) -> int {
    if word >= 0 {
        (word as int) % 100
    } else {
        -((-(word as int)) % 100)
    }
}

/// The operation an opcode number selects, if any. The halt word 99 is
/// handled by the engine directly and never appears in the table.
pub open spec fn op_of_num(n: int) -> Option<Op> {
    if n == 0 {
        Some(Op::NoOp)
    } else if n == 1 {
        Some(Op::Add)
    } else if n == 2 {
        Some(Op::Multiply)
    } else if n == 3 {
        Some(Op::Input)
    } else if n == 4 {
        Some(Op::Output)
    } else if n == 5 {
        Some(Op::JumpNonZero)
    } else if n == 6 {
        Some(Op::JumpZero)
    } else if n == 7 {
        Some(Op::LessThan)
    } else if n == 8 {
        Some(Op::Equal)
    } else if n == 9 {
        Some(Op::AddRelativeBase)
    } else {
        None
    }
}

/// The operand arity of each operation of the table.
pub open spec fn arity_of(op: Op) -> int {
    match op {
        Op::NoOp => 0,
        Op::Add => 3,
        Op::Multiply => 3,
        Op::Input => 1,
        Op::Output => 1,
        Op::JumpNonZero => 2,
        Op::JumpZero => 2,
        Op::LessThan => 3,
        Op::Equal => 3,
        Op::AddRelativeBase => 1,
    }
}

impl Instruction {
    /// Looks an opcode word up in the instruction table. Returns the entry
    /// whose opcode number the word carries, or `InvalidOpcode` exactly when
    /// that number selects no operation.
    pub fn new(opcode: i64) -> (r: Result<Instruction, ExecError>)
        ensures
            match r {
                Ok(ins) => op_of_num(opcode_num(opcode)) == Some(ins.op)
                    && ins.num_of_params == arity_of(ins.op),
                Err(e) => e == ExecError::InvalidOpcode && op_of_num(opcode_num(opcode)) is None,
            },
    {
        let opcode_number = opcode % 100;
        let op = match opcode_number {
            0 => Op::NoOp,
            1 => Op::Add,
            2 => Op::Multiply,
            3 => Op::Input,
            4 => Op::Output,
            5 => Op::JumpNonZero,
            6 => Op::JumpZero,
            7 => Op::LessThan,
            8 => Op::Equal,
            9 => Op::AddRelativeBase,
            _ => {
                return Err(ExecError::InvalidOpcode);
            },
        };
        let num_of_params: usize = match op {
            Op::NoOp => 0,
            Op::Add => 3,
            Op::Multiply => 3,
            Op::Input => 1,
            Op::Output => 1,
            Op::JumpNonZero => 2,
            Op::JumpZero => 2,
            Op::LessThan => 3,
            Op::Equal => 3,
            Op::AddRelativeBase => 1,
        };
        Ok(Instruction { op, num_of_params })
    }
}

/// Does nothing.
pub fn no_op(p: &mut Program)
    ensures
        final(p)@ == old(p)@,
{
}

/// Adds two numbers together and stores the result in the third parameter.
pub fn add(p: &mut Program)
    requires
        operands_in_bounds(old(p)@, 3),
        i64::MIN <= operand(old(p)@, 0) + operand(old(p)@, 1) <= i64::MAX,
    ensures
        stores_value(old(p)@, final(p)@, 2, (operand(old(p)@, 0) + operand(old(p)@, 1)) as i64),
{
    proof {
        lemma_operands_in_bounds(p@, 3);
    }
    let i0 = p.param_indices[0];
    let i1 = p.param_indices[1];
    let i2 = p.param_indices[2];
    let v = p.code[i0] + p.code[i1];
    p.code.set(i2, v);
}

/// Multiplies two numbers together and stores the result in the third
/// parameter.
pub fn multiply(p: &mut Program)
    requires
        operands_in_bounds(old(p)@, 3),
        i64::MIN <= operand(old(p)@, 0) * operand(old(p)@, 1) <= i64::MAX,
    ensures
        stores_value(old(p)@, final(p)@, 2, (operand(old(p)@, 0) * operand(old(p)@, 1)) as i64),
{
    proof {
        lemma_operands_in_bounds(p@, 3);
    }
    let i0 = p.param_indices[0];
    let i1 = p.param_indices[1];
    let i2 = p.param_indices[2];
    let v = p.code[i0] * p.code[i1];
    p.code.set(i2, v);
}

/// Stores the value read from the input channel in the first parameter.
/// The reading itself is the caller's affair: the value arrives here as an
/// argument.
pub fn input(p: &mut Program, value: i64)
    requires
        operands_in_bounds(old(p)@, 1),
    ensures
        stores_value(old(p)@, final(p)@, 0, value),
{
    proof {
        lemma_operands_in_bounds(p@, 1);
    }
    let i0 = p.param_indices[0];
    p.code.set(i0, value);
}

/// Returns the number of the first parameter, for the caller to emit to
/// the output channel.
pub fn output(p: &Program) -> (v: i64)
    requires
        operands_in_bounds(p@, 1),
    ensures
        v == operand(p@, 0),
{
    proof {
        lemma_operands_in_bounds(p@, 1);
    }
    p.code[p.param_indices[0]]
}

/// Jumps to the position of the second parameter if the first parameter is
/// non-zero. The automatic advance of the instruction pointer is suppressed
/// exactly when the jump is taken.
pub fn jump_non_zero(p: &mut Program)
    requires
        operands_in_bounds(old(p)@, 2),
        operand(old(p)@, 0) != 0 ==> 0 <= operand(old(p)@, 1) <= usize::MAX,
    ensures
        operand(old(p)@, 0) != 0 ==> final(p)@ == (ProgramState {
            ip: operand(old(p)@, 1) as int,
            move_ip: false,
            ..old(p)@
        }),
        operand(old(p)@, 0) == 0 ==> final(p)@ == old(p)@,
{
    proof {
        lemma_operands_in_bounds(p@, 2);
    }
    let i0 = p.param_indices[0];
    if int_to_bool(p.code[i0]) {
        let i1 = p.param_indices[1];
        p.ip = p.code[i1] as usize;
        p.move_ip = false;
    }
}

/// Jumps to the position of the second parameter if the first parameter is
/// zero. The automatic advance of the instruction pointer is suppressed
/// exactly when the jump is taken.
pub fn jump_zero(p: &mut Program)
    requires
        operands_in_bounds(old(p)@, 2),
        operand(old(p)@, 0) == 0 ==> 0 <= operand(old(p)@, 1) <= usize::MAX,
    ensures
        operand(old(p)@, 0) == 0 ==> final(p)@ == (ProgramState {
            ip: operand(old(p)@, 1) as int,
            move_ip: false,
            ..old(p)@
        }),
        operand(old(p)@, 0) != 0 ==> final(p)@ == old(p)@,
{
    proof {
        lemma_operands_in_bounds(p@, 2);
    }
    let i0 = p.param_indices[0];
    if !int_to_bool(p.code[i0]) {
        let i1 = p.param_indices[1];
        p.ip = p.code[i1] as usize;
        p.move_ip = false;
    }
}

/// Writes 1 to the third parameter if the first parameter is less than the
/// second parameter. Otherwise writes 0.
pub fn less_than(p: &mut Program)
    requires
        operands_in_bounds(old(p)@, 3),
    ensures
        stores_value(
            old(p)@,
            final(p)@,
            2,
            if operand(old(p)@, 0) < operand(old(p)@, 1) {
                1i64
            } else {
                0i64
            },
        ),
{
    proof {
        lemma_operands_in_bounds(p@, 3);
    }
    let i0 = p.param_indices[0];
    let i1 = p.param_indices[1];
    let i2 = p.param_indices[2];
    let v = bool_to_int(p.code[i0] < p.code[i1]);
    p.code.set(i2, v);
}

/// Writes 1 to the third parameter if the first parameter is equal to the
/// second parameter. Otherwise writes 0.
pub fn equal(p: &mut Program)
    requires
        operands_in_bounds(old(p)@, 3),
    ensures
        stores_value(
            old(p)@,
            final(p)@,
            2,
            if operand(old(p)@, 0) == operand(old(p)@, 1) {
                1i64
            } else {
                0i64
            },
        ),
{
    proof {
        lemma_operands_in_bounds(p@, 3);
    }
    let i0 = p.param_indices[0];
    let i1 = p.param_indices[1];
    let i2 = p.param_indices[2];
    let v = bool_to_int(p.code[i0] == p.code[i1]);
    p.code.set(i2, v);
}

/// Adds the first parameter to the relative base register of the program.
pub fn add_relative_base(p: &mut Program)
    requires
        operands_in_bounds(old(p)@, 1),
        i64::MIN <= old(p)@.rel_base + operand(old(p)@, 0) <= i64::MAX,
    ensures
        final(p)@ == (ProgramState {
            rel_base: old(p)@.rel_base + operand(old(p)@, 0),
            ..old(p)@
        }),
{
    proof {
        lemma_operands_in_bounds(p@, 1);
    }
    let i0 = p.param_indices[0];
    p.rel_base = p.rel_base + p.code[i0];
}

/// Converts a bool to an integer. If b is true returns 1, otherwise 0.
pub fn bool_to_int(b: bool) -> (r: i64)
    ensures
        r == if b {
            1i64
        } else {
            0i64
        },
{
    if b {
        1
    } else {
        0
    }
}

/// Converts an integer into a bool. If i == 0 returns false, otherwise true.
pub fn int_to_bool(i: i64) -> (r: bool)
    ensures
        r == (i != 0),
{
    if i == 0 {
        false
    } else {
        true
    }
}

} // verus!
