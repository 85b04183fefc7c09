use vstd::prelude::*;

use crate::ExecError;
use crate::program::MAX_INDEX;
use crate::program::Program;

verus! {

/// A mode of a parameter: how its raw value is turned into a memory index.
#[derive(Clone, Copy, PartialEq, Eq, Structural, Debug)]
pub enum Mode {
    /// The operand cell's value is the address.
    Position,
    /// The operand cell's own slot is the address, so the handler reads the
    /// value directly.
    Immediate,
    /// The operand cell's value plus the relative base register is the
    /// address.
    RelativeBase,
}

/// The mode a single digit of the instruction word encodes, if any.
pub open spec fn mode_of_digit(d: int) -> Option<Mode> {
    if d == 0 {
        Some(Mode::Position)
    } else if d == 1 {
        Some(Mode::Immediate)
    } else if d == 2 {
        Some(Mode::RelativeBase)
    } else {
        None
    }
}

/// Ten to the power k.
pub open spec fn pow10(k: nat) -> int
    decreases k,
{
    if k == 0 {
        1
    } else {
        10 * pow10((k - 1) as nat)
    }
}

pub proof fn lemma_pow10_pos(k: nat)
    ensures
        pow10(k) >= 1,
    decreases k,
{
    if k > 0 {
        lemma_pow10_pos((k - 1) as nat);
    }
}

/// The mode digit for the operand at 0-based position k: the word with its
/// two-digit opcode stripped, then digit k from the low end. A missing
/// digit is 0 and so defaults to position mode.
pub open spec fn mode_digit(word: i64, k: int) -> int
    recommends
        word >= 0,
        k >= 0,
{
    ((word as int) / 100) / pow10(k as nat) % 10
}

/// All of the first n mode digits of the word encode a mode.
pub open spec fn modes_valid(word: i64, n: int) -> bool {
    forall|k: int| 0 <= k < n ==> mode_of_digit(#[trigger] mode_digit(word, k)) is Some
}

/// The first n modes the word encodes, one per operand position.
pub open spec fn modes_of(word: i64, n: int) -> Seq<Mode>
    recommends
        modes_valid(word, n),
{
    Seq::new(n as nat, |k: int| mode_of_digit(mode_digit(word, k)).unwrap())
}

/// The memory index an operand resolves to: a pure function of the tape,
/// the relative base register and the operand's slot on the tape.
pub open spec fn resolved_index(code: Seq<i64>, rel_base: int, mode: Mode, slot: int) -> int
    recommends
        0 <= slot < code.len(),
{
    match mode {
        Mode::Position => code[slot] as int,
        Mode::Immediate => slot,
        Mode::RelativeBase => code[slot] + rel_base,
    }
}

/// Addressing-mode resolution is pure: the index an operand resolves to is
/// a function of the tape, the relative base and the operand slot alone,
/// so identical states resolve the same slot to the same index.
pub proof fn lemma_resolution_pure(
    code1: Seq<i64>,
    rel_base1: int,
    code2: Seq<i64>,
    rel_base2: int,
    mode: Mode,
    slot: int,
)
    requires
        code1 == code2,
        rel_base1 == rel_base2,
    ensures
        resolved_index(code1, rel_base1, mode, slot) == resolved_index(
            code2,
            rel_base2,
            mode,
            slot,
        ),
{
}

/// Calculates the index of the parameter in position mode: the value of the
/// cell at the given slot is the address. The value must name an index the
/// tape can hold, so a negative value or one beyond `MAX_INDEX` is refused.
pub fn position(program: &Program, index: usize) -> (r: Result<usize, ExecError>)
    requires
        index < program@.code.len(),
    ensures
        ({
            let v = resolved_index(program@.code, program@.rel_base, Mode::Position, index as int);
            match r {
                Ok(u) => 0 <= v <= MAX_INDEX && u == v,
                Err(e) => (e == ExecError::NegativeAddress && v < 0) || (e
                    == ExecError::AddressOverflow && v > MAX_INDEX),
            }
        }),
{
    let v = program.code[index];
    if v < 0 {
        Err(ExecError::NegativeAddress)
    } else if v as u64 > MAX_INDEX as u64 {
        Err(ExecError::AddressOverflow)
    } else {
        Ok(v as usize)
    }
}

/// Calculates the index of the parameter in immediate mode: the slot itself
/// is the address, so the handler reads the operand cell's value directly.
pub fn immediate(_program: &Program, index: usize) -> (r: usize)
    ensures
        r == index,
{
    index
}

/// Calculates the index of the parameter in relative base mode: the value
/// of the cell at the given slot plus the relative base register is the
/// address. A sum that is negative or beyond `MAX_INDEX` is refused.
pub fn relative_base(program: &Program, index: usize) -> (r: Result<usize, ExecError>)
    requires
        index < program@.code.len(),
    ensures
        ({
            let v = resolved_index(
                program@.code,
                program@.rel_base,
                Mode::RelativeBase,
                index as int,
            );
            match r {
                Ok(u) => 0 <= v <= MAX_INDEX && u == v,
                Err(e) => (e == ExecError::NegativeAddress && v < 0) || (e
                    == ExecError::AddressOverflow && v > MAX_INDEX),
            }
        }),
{
    let sum: i128 = program.code[index] as i128 + program.rel_base as i128;
    if sum < 0 {
        Err(ExecError::NegativeAddress)
    } else if sum > MAX_INDEX as i128 {
        Err(ExecError::AddressOverflow)
    } else {
        Ok(sum as usize)
    }
}

/// The modes of the operands of one instruction, in operand order.
#[derive(Debug)]
pub struct ModeList(pub Vec<Mode>);

impl ModeList {
    /// Decodes one mode per operand from the digits of the instruction word
    /// above its two-digit opcode. Returns `InvalidMode` exactly when one of
    /// those digits encodes no mode.
    pub fn new(modes: i64, num: usize) -> (r: Result<ModeList, ExecError>)
        requires
            modes >= 0 || num == 0,
        ensures
            match r {
                Ok(ml) => ml.0@.len() == num && modes_valid(modes, num as int) && ml.0@
                    == modes_of(modes, num as int),
                Err(e) => e == ExecError::InvalidMode && !modes_valid(modes, num as int),
            },
    {
        let mut mode_vec: Vec<Mode> = Vec::new();
        // Remove the two-digit opcode
        let mut rest: i64 = modes / 100;
        let mut i: usize = 0;
        while i < num
            invariant
                i <= num,
                num > 0 ==> modes >= 0,
                num > 0 ==> rest >= 0,
                num > 0 ==> rest as int == (modes as int) / 100 / pow10(i as nat),
                mode_vec@.len() == i,
                forall|k: int|
                    0 <= k < i ==> mode_of_digit(#[trigger] mode_digit(modes, k)) == Some(
                        mode_vec@[k],
                    ),
            decreases num - i,
        {
            // Extract the next digit by modulo, then shift the rest down by
            // division. A missing digit yields 0: position mode.
            let digit = rest % 10;
            let m = match digit {
                0 => Mode::Position,
                1 => Mode::Immediate,
                2 => Mode::RelativeBase,
                _ => {
                    proof {
                        assert(mode_of_digit(mode_digit(modes, i as int)) is None);
                        assert(!modes_valid(modes, num as int));
                    }
                    return Err(ExecError::InvalidMode);
                },
            };
            mode_vec.push(m);
            proof {
                lemma_pow10_pos(i as nat);
                vstd::arithmetic::div_mod::lemma_div_pos_is_pos((modes as int) / 100, pow10(
                    i as nat,
                ));
                vstd::arithmetic::div_mod::lemma_div_denominator(
                    (modes as int) / 100,
                    pow10(i as nat),
                    10,
                );
                assert(pow10((i + 1) as nat) == pow10(i as nat) * 10) by {
                    assert(pow10((i + 1) as nat) == 10 * pow10(i as nat));
                }
            }
            rest = rest / 10;
            i += 1;
        }
        proof {
            assert(mode_vec@ =~= modes_of(modes, num as int));
        }
        Ok(ModeList(mode_vec))
    }
}

} // verus!
