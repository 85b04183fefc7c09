//! A small virtual machine over a growable tape of signed 64-bit integers.
//!
//! A program is a flat sequence of instruction words. The two low-order
//! decimal digits of a word select the operation; the digits above them
//! give each operand an addressing mode: position (the operand cell names
//! the address), immediate (the operand cell's slot is the address) or
//! relative base (the operand cell plus the relative base register names
//! the address). The tape grows with zeros whenever an operand resolves
//! past its end, and never shrinks.
//!
//! The engine is a fetch-decode-resolve-execute-advance loop whose whole
//! behaviour is pinned by the spec functions `step_spec` and `run_spec`:
//! every cycle of `Program::step` and every bounded run of `Program::run`
//! is proved equal to its mathematical image. Input and output stay at the
//! edge: an input instruction consumes a value handed in by the caller,
//! an output instruction hands the emitted value back out.

use vstd::prelude::*;

pub mod mode;
pub mod opcode;
pub mod program;

verus! {

/// A fatal condition: any of these aborts the whole run at the point of
/// failure, with no partial recovery.
#[derive(Clone, Copy, PartialEq, Eq, Structural, Debug)]
pub enum ExecError {
    /// The opcode number (the two low-order decimal digits of the
    /// instruction word) selects no operation of the table.
    InvalidOpcode,
    /// A mode digit of the instruction word is not 0, 1 or 2.
    InvalidMode,
    /// An operand resolved to a negative memory index.
    NegativeAddress,
    /// An operand resolved to an index the tape can never grow to cover.
    AddressOverflow,
    /// The opcode word or one of its operand slots lies beyond the tape.
    IpOutOfRange,
    /// An input instruction ran with no input value left to read.
    InputExhausted,
    /// An add, multiply or relative-base update left the signed 64-bit range.
    Overflow,
    /// A bounded run used up its step budget before reaching the halt word.
    StepLimitReached,
}

/// What one fetch-execute cycle reported back to the driver of the loop.
#[derive(Clone, Copy, PartialEq, Eq, Structural, Debug)]
pub enum StepEvent {
    /// An ordinary instruction ran; nothing to do outside.
    Continue,
    /// An input instruction consumed the value handed to `step`.
    InputStored,
    /// An input instruction is due but no value was handed to `step`;
    /// nothing ran and the registers are unchanged.
    NeedInput,
    /// An output instruction emitted this value.
    Output(i64),
    /// The halt word was fetched; the program is finished.
    Halted,
}

} // verus!
