//! The instruction model: pure data describing registers, flags, addressing
//! modes and instruction variants. The assembler produces these and the
//! executor consumes them.

use vstd::prelude::*;

verus! {

/// The four condition flags, stored as single bits of the flag byte in the
/// layout `0b0000SPZC` (`Carry` is bit 0, `Zero` bit 1, `Parity` bit 2,
/// `Sign` bit 3). All other bits of the flag byte stay zero.
#[derive(Clone, Copy, Debug, PartialEq, Eq, Structural)]
pub enum Flag {
    Carry,
    Zero,
    Parity,
    Sign,
}

/// The five byte-wide registers. `Accumulator` is the target of arithmetic
/// and comparisons; `IndexX`/`IndexY` form the 16-bit address `X:Y` (X is
/// the high byte); `UtilityB`/`UtilityC` are general-purpose scratch.
#[derive(Clone, Copy, Debug, PartialEq, Eq, Structural)]
pub enum Register {
    Accumulator,
    IndexX,
    IndexY,
    UtilityB,
    UtilityC,
}

/// How an instruction names a byte operand.
#[derive(Clone, Copy, Debug, PartialEq, Eq, Structural)]
pub enum AddressingMode {
    /// The byte stored in the corresponding register
    Register(Register),
    /// The byte of the argument
    Immediate(u8),
    /// The byte located at the immediate pointer argument
    Indirect(u16),
    /// The byte located at X:Y
    Index,
    /// The byte located at X:Y plus an 8-bit offset (16-bit wrapping)
    IndexOffset(u8),
}

/// Unconditional, or conditioned on one flag: `Flag(f, true)` jumps when f
/// is set, `Flag(f, false)` when f is clear.
#[derive(Clone, Copy, Debug, PartialEq, Eq, Structural)]
pub enum JumpType {
    Unconditional,
    Flag(Flag, bool),
}

/// A call target: a resolved program-counter value, or the name of a
/// host-extension routine.
#[derive(Debug, PartialEq, Eq)]
pub enum CallType {
    Local(usize),
    Library(String),
}

impl Clone for CallType {
    fn clone(&self) -> (r: Self)
        ensures
            r == *self,
    {
        match self {
            CallType::Local(pc) => CallType::Local(*pc),
            CallType::Library(name) => CallType::Library(name.clone()),
        }
    }
}

/// One instruction of the machine. The variants whose names start with an
/// underscore are assembler-internal: label resolution rewrites them before
/// a program reaches the executor, except `_Assert`, which embedded tests
/// use to check machine state mid-run.
#[derive(Debug, PartialEq, Eq)]
pub enum Instruction {
    /// `ld[Ra] [Rb | N | I | XY]`
    /// - For `Rb`: Sets `Ra` to the value of `Rb`
    /// - For `N`: Sets `Ra` to `N`
    /// - For `I`: Sets `Ra` to the value located at the address `I`
    /// - For `XY`: Sets `Ra` to the value at the address indicated by `XY`
    ///
    /// **Flags affected:** None
    Load(Register, AddressingMode),
    /// `st[Ra] [I | XY]`
    /// - For `I`: Stores the contents of `Ra` to the address `I`
    /// - For `XY`: Stores the contents of `Ra` to the address indicated by `XY`
    ///
    /// **Flags affected:** None
    Store(Register, AddressingMode),
    /// `inc`: increments the accumulator, wrapping modulo 256.
    ///
    /// **Flags affected:**
    /// - `Z` sets if `A` wrapped to `0`, resets otherwise
    /// - `S` sets if the most significant bit of `A` is now `1`, resets otherwise
    /// - `P` sets if the least significant bit of `A` is now `1`, resets otherwise
    Increment,
    /// `dec`: decrements the accumulator, wrapping modulo 256.
    ///
    /// **Flags affected:** as for `Increment`, with `Z` set if `A` was `0`
    /// before the decrement (the wrapping case).
    Decrement,
    /// `add [Rb | N | I | XY]`: adds the operand byte to the accumulator,
    /// wrapping modulo 256.
    ///
    /// **Flags affected:**
    /// - `Z` sets if the accumulator is now `0`, resets otherwise
    /// - `S` sets if the most significant bit of the accumulator is now `1`, resets otherwise
    /// - `P` sets if the least significant bit of the accumulator is now `1`, resets otherwise
    /// - `C` sets if the addition carried out of bit 7, resets otherwise
    Add(AddressingMode),
    /// `add` on the 16-bit index pair `X:Y`: the operand byte is
    /// zero-extended to 16 bits and added to `X:Y`.
    ///
    /// **Flags affected:**
    /// - `Z` sets if `X:Y` is now `0`, resets otherwise
    /// - `P` sets if the least significant bit of `Y` is now `1`, resets otherwise
    /// - `C` sets if the addition carried out of bit 15, resets otherwise
    /// - `S` is untouched
    AddXY(AddressingMode),
    /// `sub [Rb | N | I | XY]`: subtracts the operand byte from the
    /// accumulator, wrapping modulo 256. Flags as for `Add`, with `C` set
    /// on unsigned underflow.
    Subtract(AddressingMode),
    /// `sub` on the 16-bit index pair `X:Y`. Flags as for `AddXY`, with `C`
    /// set on unsigned underflow.
    SubtractXY(AddressingMode),
    /// `cmp [Rb | N | I | XY]`
    /// - Let the value of the argument be represented by `x`.
    /// - `Z` sets if `A == x`, resets otherwise
    /// - `S` sets if `sgn(A) == sgn(x)`, resets otherwise
    /// - `P` sets if `A % 2 == x % 2`, resets otherwise
    /// - `C` sets if `A < x`, resets if `A >= x`
    Compare(AddressingMode),
    /// Transfers control to the given program index (see `JumpType`).
    Jump(JumpType, usize),
    /// Calls a subroutine (local address) or a host extension (by name).
    Call(CallType),
    /// Pops a big-endian return address off the stack and resumes there.
    Return,
    /// Pushes the named register onto the stack.
    Push(Register),
    /// Pops the top of the stack into the named register.
    Pop(Register),
    /// Does nothing.
    Nop,
    /// Assembler-internal: marks a label definition at this program index.
    _Label(String),
    /// Embedded-test helper: errs unless the operand resolves to the byte.
    _Assert(AddressingMode, u8),
    /// Assembler-internal: a jump whose target label is not yet resolved.
    _LabeledJump(JumpType, String),
    /// Assembler-internal: a call whose target label is not yet resolved.
    _LabeledCall(String),
}

impl Clone for Instruction {
    fn clone(&self) -> (r: Self)
        ensures
            r == *self,
    {
        match self {
            Instruction::Load(reg, mode) => Instruction::Load(*reg, *mode),
            Instruction::Store(reg, mode) => Instruction::Store(*reg, *mode),
            Instruction::Increment => Instruction::Increment,
            Instruction::Decrement => Instruction::Decrement,
            Instruction::Add(mode) => Instruction::Add(*mode),
            Instruction::AddXY(mode) => Instruction::AddXY(*mode),
            Instruction::Subtract(mode) => Instruction::Subtract(*mode),
            Instruction::SubtractXY(mode) => Instruction::SubtractXY(*mode),
            Instruction::Compare(mode) => Instruction::Compare(*mode),
            Instruction::Jump(jump_type, dest) => Instruction::Jump(*jump_type, *dest),
            Instruction::Call(call_type) => Instruction::Call(call_type.clone()),
            Instruction::Return => Instruction::Return,
            Instruction::Push(reg) => Instruction::Push(*reg),
            Instruction::Pop(reg) => Instruction::Pop(*reg),
            Instruction::Nop => Instruction::Nop,
            Instruction::_Label(name) => Instruction::_Label(name.clone()),
            Instruction::_Assert(mode, value) => Instruction::_Assert(*mode, *value),
            Instruction::_LabeledJump(jump_type, name) => Instruction::_LabeledJump(
                *jump_type,
                name.clone(),
            ),
            Instruction::_LabeledCall(name) => Instruction::_LabeledCall(name.clone()),
        }
    }
}

} // verus!
