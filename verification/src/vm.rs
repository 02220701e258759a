//! The virtual machine: a 64 KiB byte store, five byte registers, a four-bit
//! flag word, and the fetch-decode-execute loop.
//!
//! The whole machine is modelled by the ghost state [`VmModel`], and
//! [`spec_execute`] gives the meaning of every instruction as a function on
//! that state. The executor is proved to implement `spec_execute` exactly.

use vstd::prelude::*;
use crate::instructions::{AddressingMode, CallType, Flag, Instruction, JumpType, Register};
use crate::util::{build_u16, break_u16, spec_lsb, spec_msb, spec_word};
use std::collections::HashMap;
use std::io::Write;

verus! {

/// Size of the byte-addressable memory.
pub const MEMORY_SIZE: usize = 65536;

/// There are 16 bytes of memory-mapped I/O (MMIO). They are labeled as
/// (relative to the base MMIO address):
/// - `0`: MSB of the stack pointer
/// - `1`: LSB of the stack pointer
/// - `2`-`F`: Reserved
pub const MMIO: u16 = 0x0FF0;

pub const STACK_POINTER_MSB: u16 = MMIO + 0x0;

pub const STACK_POINTER_LSB: u16 = MMIO + 0x1;

/// The stack begins at 0x0F00 and grows down.
pub const INITIAL_STACK_POINTER: u16 = 0x0F00;

/// Ghost model of the machine: memory contents, the five registers, the
/// flag byte and the program counter.
#[verifier::ext_equal]
pub struct VmModel {
    pub mem: Seq<u8>,
    pub a: u8,
    pub x: u8,
    pub y: u8,
    pub b: u8,
    pub c: u8,
    pub flags: u8,
    pub pc: int,
}

/// A machine state is well formed when memory has its full size, the
/// reserved flag bits (4..7) are zero, and the program counter is not
/// negative.
pub open spec fn model_wf(s: VmModel) -> bool {
    &&& s.mem.len() == MEMORY_SIZE
    &&& s.flags < 16
    &&& 0 <= s.pc
}

/// The byte held by a register.
pub open spec fn spec_reg(s: VmModel, r: Register) -> u8 {
    match r {
        Register::Accumulator => s.a,
        Register::IndexX => s.x,
        Register::IndexY => s.y,
        Register::UtilityB => s.b,
        Register::UtilityC => s.c,
    }
}

/// The state after writing a byte to a register.
pub open spec fn spec_with_reg(s: VmModel, r: Register, v: u8) -> VmModel {
    match r {
        Register::Accumulator => VmModel { a: v, ..s },
        Register::IndexX => VmModel { x: v, ..s },
        Register::IndexY => VmModel { y: v, ..s },
        Register::UtilityB => VmModel { b: v, ..s },
        Register::UtilityC => VmModel { c: v, ..s },
    }
}

/// The 16-bit index address `X:Y` (X is the high byte).
pub open spec fn spec_index(s: VmModel) -> u16 {
    spec_word(s.x, s.y)
}

/// The stack pointer, as mirrored by the two MMIO cells.
pub open spec fn spec_sp(s: VmModel) -> u16 {
    spec_word(s.mem[STACK_POINTER_MSB as int], s.mem[STACK_POINTER_LSB as int])
}

/// 16-bit wrapping increment.
pub open spec fn spec_inc16(w: u16) -> u16 {
    if w == 0xFFFF {
        0
    } else {
        (w + 1) as u16
    }
}

/// 16-bit wrapping decrement.
pub open spec fn spec_dec16(w: u16) -> u16 {
    if w == 0 {
        0xFFFF
    } else {
        (w - 1) as u16
    }
}

/// 16-bit wrapping addition.
pub open spec fn spec_add16(w: u16, d: u16) -> u16 {
    ((w + d) % 0x10000) as u16
}

/// The bit position of a flag within the flag byte.
pub open spec fn spec_flag_bit(f: Flag) -> u8 {
    match f {
        Flag::Carry => 0,
        Flag::Zero => 1,
        Flag::Parity => 2,
        Flag::Sign => 3,
    }
}

/// Whether a flag is set in a flag byte.
pub open spec fn spec_flag_set(flags: u8, f: Flag) -> bool {
    flags >> spec_flag_bit(f) & 1 == 1
}

/// Flag byte after an 8-bit accumulator operation that rewrites Zero, Sign
/// and Parity and leaves Carry alone.
pub open spec fn spec_flags_keep_c(old_flags: u8, zero: bool, sign: bool, parity: bool) -> u8 {
    (old_flags & 1) | (if zero {
        2
    } else {
        0
    }) | (if parity {
        4
    } else {
        0
    }) | (if sign {
        8
    } else {
        0
    })
}

/// Flag byte after an operation that rewrites all four flags.
pub open spec fn spec_flags_all(zero: bool, sign: bool, parity: bool, carry: bool) -> u8 {
    (if carry {
        1u8
    } else {
        0u8
    }) | (if zero {
        2
    } else {
        0
    }) | (if parity {
        4
    } else {
        0
    }) | (if sign {
        8
    } else {
        0
    })
}

/// Flag byte after a 16-bit index operation: rewrites Zero, Parity and
/// Carry and leaves Sign alone.
pub open spec fn spec_flags_keep_s(old_flags: u8, zero: bool, parity: bool, carry: bool) -> u8 {
    (old_flags & 8) | (if carry {
        1u8
    } else {
        0u8
    }) | (if zero {
        2
    } else {
        0
    }) | (if parity {
        4
    } else {
        0
    })
}

/// The byte an addressing mode names, read from a machine state.
pub open spec fn spec_rvalue(s: VmModel, mode: AddressingMode) -> u8 {
    match mode {
        AddressingMode::Register(r) => spec_reg(s, r),
        AddressingMode::Immediate(v) => v,
        AddressingMode::Indirect(p) => s.mem[p as int],
        AddressingMode::Index => s.mem[spec_index(s) as int],
        AddressingMode::IndexOffset(o) => s.mem[spec_add16(spec_index(s), o as u16) as int],
    }
}

/// The address a store writes through, or `None` for modes a store rejects.
pub open spec fn spec_store_target(s: VmModel, mode: AddressingMode) -> Option<u16> {
    match mode {
        AddressingMode::Register(_) => None,
        AddressingMode::Immediate(_) => None,
        AddressingMode::Indirect(p) => Some(p),
        AddressingMode::Index => Some(spec_index(s)),
        AddressingMode::IndexOffset(o) => Some(spec_add16(spec_index(s), o as u16)),
    }
}

/// The state after pushing one byte: the stack pointer moves down one cell
/// (wrapping as 16-bit arithmetic), the byte is written there, and then the
/// MMIO stack-pointer cells are rewritten.
pub open spec fn spec_push(s: VmModel, v: u8) -> VmModel {
    let nsp = spec_dec16(spec_sp(s));
    VmModel {
        mem: s.mem.update(nsp as int, v).update(
            STACK_POINTER_MSB as int,
            spec_msb(nsp),
        ).update(STACK_POINTER_LSB as int, spec_lsb(nsp)),
        ..s
    }
}

/// The state after popping one byte: only the MMIO stack-pointer cells
/// change (the popped byte stays in memory).
pub open spec fn spec_pop_state(s: VmModel) -> VmModel {
    let nsp = spec_inc16(spec_sp(s));
    VmModel {
        mem: s.mem.update(STACK_POINTER_MSB as int, spec_msb(nsp)).update(
            STACK_POINTER_LSB as int,
            spec_lsb(nsp),
        ),
        ..s
    }
}

/// The byte a pop returns: read from the old stack-pointer position, after
/// the MMIO cells have been rewritten.
pub open spec fn spec_pop_value(s: VmModel) -> u8 {
    spec_pop_state(s).mem[spec_sp(s) as int]
}

/// Errors surfaced by the executor. `EndCode` marks normal termination
/// (the program counter walked past the last instruction) and is converted
/// to success by `run`; `AssertionFailed` reports an embedded-test
/// `_Assert` whose operand did not resolve to the expected byte.
#[derive(Copy, Clone, Debug, PartialEq, Eq, Structural)]
pub enum DevolaError {
    InvalidArgument,
    Unimplemented,
    EndCode,
    AssertionFailed,
    StepLimit,
}

/// The meaning of one instruction: the machine state it produces, or the
/// error it reports. The program counter is only assigned by `Jump`, `Call`
/// and `Return`; the uniform advance by one happens afterwards, in the
/// step relation. On an error the state is unchanged.
#[verifier::opaque]
pub open spec fn spec_execute(s: VmModel, inst: Instruction) -> Result<VmModel, DevolaError> {
    match inst {
        Instruction::Load(r, mode) => Ok(spec_with_reg(s, r, spec_rvalue(s, mode))),
        Instruction::Store(r, mode) => match spec_store_target(s, mode) {
            Some(dest) => Ok(VmModel { mem: s.mem.update(dest as int, spec_reg(s, r)), ..s }),
            None => Err(DevolaError::InvalidArgument),
        },
        Instruction::Increment => {
            let result = if s.a == 0xFF {
                0u8
            } else {
                (s.a + 1) as u8
            };
            Ok(
                VmModel {
                    a: result,
                    flags: spec_flags_keep_c(
                        s.flags,
                        s.a == 0xFF,
                        result & 0x80 == 0x80,
                        result % 2 == 1,
                    ),
                    ..s
                },
            )
        },
        Instruction::Decrement => {
            let result = if s.a == 0x00 {
                0xFFu8
            } else {
                (s.a - 1) as u8
            };
            Ok(
                VmModel {
                    a: result,
                    flags: spec_flags_keep_c(
                        s.flags,
                        s.a == 0x00,
                        result & 0x80 == 0x80,
                        result % 2 == 1,
                    ),
                    ..s
                },
            )
        },
        Instruction::Add(mode) => {
            let v = spec_rvalue(s, mode);
            let result = ((s.a + v) % 256) as u8;
            let carry = s.a + v > 255;
            Ok(
                VmModel {
                    a: result,
                    flags: spec_flags_all(
                        result == 0,
                        result & 0x80 == 0x80,
                        result % 2 == 1,
                        carry,
                    ),
                    ..s
                },
            )
        },
        Instruction::Subtract(mode) => {
            let v = spec_rvalue(s, mode);
            let result = ((s.a + 256 - v) % 256) as u8;
            let carry = s.a < v;
            Ok(
                VmModel {
                    a: result,
                    flags: spec_flags_all(
                        result == 0,
                        result & 0x80 == 0x80,
                        result % 2 == 1,
                        carry,
                    ),
                    ..s
                },
            )
        },
        Instruction::AddXY(mode) => {
            let v = spec_rvalue(s, mode);
            let index = spec_index(s);
            let result = ((index + v) % 0x10000) as u16;
            let carry = index + v > 0xFFFF;
            Ok(
                VmModel {
                    x: spec_msb(result),
                    y: spec_lsb(result),
                    flags: spec_flags_keep_s(s.flags, result == 0, result % 2 == 1, carry),
                    ..s
                },
            )
        },
        Instruction::SubtractXY(mode) => {
            let v = spec_rvalue(s, mode);
            let index = spec_index(s);
            let result = ((index + 0x10000 - v) % 0x10000) as u16;
            let carry = index < v;
            Ok(
                VmModel {
                    x: spec_msb(result),
                    y: spec_lsb(result),
                    flags: spec_flags_keep_s(s.flags, result == 0, result % 2 == 1, carry),
                    ..s
                },
            )
        },
        Instruction::Compare(mode) => {
            let v = spec_rvalue(s, mode);
            Ok(
                VmModel {
                    flags: spec_flags_all(
                        s.a == v,
                        s.a & 0x80 == v & 0x80,
                        s.a % 2 == v % 2,
                        s.a < v,
                    ),
                    ..s
                },
            )
        },
        Instruction::Jump(jump_type, dest) => {
            let taken = match jump_type {
                JumpType::Unconditional => true,
                JumpType::Flag(f, sense) => spec_flag_set(s.flags, f) == sense,
            };
            Ok(
                VmModel {
                    pc: if taken {
                        dest as int
                    } else {
                        s.pc
                    },
                    ..s
                },
            )
        },
        Instruction::Call(call_type) => match call_type {
            CallType::Local(dest) => {
                let pc16 = (s.pc % 0x10000) as u16;
                let pushed = spec_push(spec_push(s, spec_msb(pc16)), spec_lsb(pc16));
                Ok(VmModel { pc: dest as int, ..pushed })
            },
            CallType::Library(_) => Err(DevolaError::Unimplemented),
        },
        Instruction::Return => {
            let lsb = spec_pop_value(s);
            let s1 = spec_pop_state(s);
            let msb = spec_pop_value(s1);
            let s2 = spec_pop_state(s1);
            Ok(VmModel { pc: spec_word(msb, lsb) as int, ..s2 })
        },
        Instruction::Push(r) => Ok(spec_push(s, spec_reg(s, r))),
        Instruction::Pop(r) => Ok(spec_with_reg(spec_pop_state(s), r, spec_pop_value(s))),
        Instruction::Nop => Ok(s),
        Instruction::_Label(_) => Ok(s),
        Instruction::_LabeledJump(_, _) => Ok(s),
        Instruction::_LabeledCall(_) => Ok(s),
        Instruction::_Assert(mode, value) => if spec_rvalue(s, mode) == value {
            Ok(s)
        } else {
            Err(DevolaError::AssertionFailed)
        },
    }
}

/// One full step of the machine: terminate with `EndCode` past the end of
/// the program, otherwise execute the current instruction and advance the
/// program counter by one.
pub open spec fn spec_step(code: Seq<Instruction>, s: VmModel) -> Result<VmModel, DevolaError> {
    if s.pc < 0 || s.pc >= code.len() {
        Err(DevolaError::EndCode)
    } else {
        match spec_execute(s, code[s.pc]) {
            Ok(s2) => Ok(VmModel { pc: s2.pc + 1, ..s2 }),
            Err(e) => Err(e),
        }
    }
}

/// The state after `n` successful steps, or `None` if some step among them
/// reports an error (`EndCode` included).
pub open spec fn spec_steps(code: Seq<Instruction>, s: VmModel, n: nat) -> Option<VmModel>
    decreases n,
{
    if n == 0 {
        Some(s)
    } else {
        match spec_step(code, s) {
            Ok(s2) => spec_steps(code, s2, (n - 1) as nat),
            Err(_) => None,
        }
    }
}

/// Extending a successful run by one more successful step.
#[verifier::spinoff_prover]
#[verifier::rlimit(50)]
proof fn lemma_steps_snoc(code: Seq<Instruction>, s0: VmModel, n: nat, s1: VmModel, s2: VmModel)
    requires
        spec_steps(code, s0, n) == Some(s1),
        spec_step(code, s1) == Ok::<VmModel, DevolaError>(s2),
    ensures
        spec_steps(code, s0, n + 1) == Some(s2),
    decreases n,
{
    if n == 0 {
        assert(s0 == s1);
        assert(spec_steps(code, s0, 1) == spec_steps(code, s2, 0));
    } else {
        let s_mid = spec_step(code, s0)->Ok_0;
        lemma_steps_snoc(code, s_mid, (n - 1) as nat, s1, s2);
        assert(spec_steps(code, s_mid, n) == Some(s2));
        assert(spec_steps(code, s0, n + 1) == spec_steps(code, s_mid, n));
    }
}

/// The memory, register and flag state of the machine.
pub struct DevolaMemory {
    pub bytes: Vec<u8>,
    pub flags: u8,
    pub reg_a: u8,
    pub reg_x: u8,
    pub reg_y: u8,
    pub reg_b: u8,
    pub reg_c: u8,
}

impl DevolaMemory {
    /// Memory has its full size and the reserved flag bits are zero.
    pub open spec fn wf(&self) -> bool {
        &&& self.bytes@.len() == MEMORY_SIZE
        &&& self.flags < 16
    }

    /// Fresh memory: all bytes, registers and flags zero.
    pub fn new() -> (r: Self)
        ensures
            r.wf(),
            r.bytes@ =~= Seq::new(MEMORY_SIZE as nat, |i: int| 0u8),
            r.flags == 0,
            r.reg_a == 0 && r.reg_x == 0 && r.reg_y == 0 && r.reg_b == 0 && r.reg_c == 0,
    {
        let mut bytes: Vec<u8> = Vec::new();
        while bytes.len() < MEMORY_SIZE
            invariant
                bytes@.len() <= MEMORY_SIZE,
                forall|i: int| 0 <= i < bytes@.len() ==> bytes@[i] == 0u8,
            decreases MEMORY_SIZE - bytes@.len(),
        {
            bytes.push(0);
        }
        Self { bytes, flags: 0, reg_a: 0, reg_x: 0, reg_y: 0, reg_b: 0, reg_c: 0 }
    }

    /// Reads the byte at an address.
    pub fn read_mem(&self, addr: u16) -> (r: u8)
        requires
            self.wf(),
        ensures
            r == self.bytes@[addr as int],
    {
        self.bytes[addr as usize]
    }

    /// Writes the byte at an address.
    pub fn write_mem(&mut self, addr: u16, value: u8)
        requires
            old(self).wf(),
        ensures
            final(self).wf(),
            final(self).bytes@ == old(self).bytes@.update(addr as int, value),
            final(self).flags == old(self).flags,
            final(self).reg_a == old(self).reg_a,
            final(self).reg_x == old(self).reg_x,
            final(self).reg_y == old(self).reg_y,
            final(self).reg_b == old(self).reg_b,
            final(self).reg_c == old(self).reg_c,
    {
        self.bytes[addr as usize] = value;
    }

    /// Reads a register.
    pub fn read_register(&self, register: Register) -> (r: u8)
        ensures
            r == match register {
                Register::Accumulator => self.reg_a,
                Register::IndexX => self.reg_x,
                Register::IndexY => self.reg_y,
                Register::UtilityB => self.reg_b,
                Register::UtilityC => self.reg_c,
            },
    {
        match register {
            Register::Accumulator => self.reg_a,
            Register::IndexX => self.reg_x,
            Register::IndexY => self.reg_y,
            Register::UtilityB => self.reg_b,
            Register::UtilityC => self.reg_c,
        }
    }

    /// Writes a register.
    pub fn write_register(&mut self, register: Register, value: u8)
        ensures
            final(self).bytes == old(self).bytes,
            final(self).flags == old(self).flags,
            final(self).reg_a == if register is Accumulator {
                value
            } else {
                old(self).reg_a
            },
            final(self).reg_x == if register is IndexX {
                value
            } else {
                old(self).reg_x
            },
            final(self).reg_y == if register is IndexY {
                value
            } else {
                old(self).reg_y
            },
            final(self).reg_b == if register is UtilityB {
                value
            } else {
                old(self).reg_b
            },
            final(self).reg_c == if register is UtilityC {
                value
            } else {
                old(self).reg_c
            },
    {
        match register {
            Register::Accumulator => self.reg_a = value,
            Register::IndexX => self.reg_x = value,
            Register::IndexY => self.reg_y = value,
            Register::UtilityB => self.reg_b = value,
            Register::UtilityC => self.reg_c = value,
        }
    }

    /// Checks if the specified flag has been set.
    /// Flags are laid out as `0b0000SPZC`.
    pub fn flag(&self, flag: Flag) -> (r: bool)
        ensures
            r == spec_flag_set(self.flags, flag),
    {
        (self.flags >> match flag {
            Flag::Carry => 0u8,
            Flag::Zero => 1,
            Flag::Parity => 2,
            Flag::Sign => 3,
        } & 1) == 1
    }

    /// The flag byte with every bit set but the given flag's.
    fn flag_mask(flag: Flag) -> (r: u8)
        ensures
            r == !(1u8 << spec_flag_bit(flag)),
    {
        let r: u8 = match flag {
            Flag::Carry => 0b1111_1110,
            Flag::Zero => 0b1111_1101,
            Flag::Parity => 0b1111_1011,
            Flag::Sign => 0b1111_0111,
        };
        proof {
            let bit = spec_flag_bit(flag);
            assert(bit == 0 ==> !(1u8 << bit) == 0b1111_1110u8) by (bit_vector);
            assert(bit == 1 ==> !(1u8 << bit) == 0b1111_1101u8) by (bit_vector);
            assert(bit == 2 ==> !(1u8 << bit) == 0b1111_1011u8) by (bit_vector);
            assert(bit == 3 ==> !(1u8 << bit) == 0b1111_0111u8) by (bit_vector);
        }
        r
    }

    /// Clears the specified flag.
    pub fn clear_flag(&mut self, flag: Flag)
        ensures
            final(self).flags == old(self).flags & !(1u8 << spec_flag_bit(flag)),
            final(self).bytes == old(self).bytes,
            final(self).reg_a == old(self).reg_a,
            final(self).reg_x == old(self).reg_x,
            final(self).reg_y == old(self).reg_y,
            final(self).reg_b == old(self).reg_b,
            final(self).reg_c == old(self).reg_c,
    {
        self.flags = self.flags & Self::flag_mask(flag);
    }

    /// Sets the specified flag.
    pub fn set_flag(&mut self, flag: Flag)
        ensures
            final(self).flags == old(self).flags | (1u8 << spec_flag_bit(flag)),
            final(self).bytes == old(self).bytes,
            final(self).reg_a == old(self).reg_a,
            final(self).reg_x == old(self).reg_x,
            final(self).reg_y == old(self).reg_y,
            final(self).reg_b == old(self).reg_b,
            final(self).reg_c == old(self).reg_c,
    {
        let mask = Self::flag_mask(flag);
        proof {
            let bit = spec_flag_bit(flag);
            assert(!!(1u8 << bit) == 1u8 << bit) by (bit_vector);
        }
        self.flags = self.flags | !mask;
    }

    /// The 16-bit address formed by the index pair `X:Y`.
    pub fn get_index(&self) -> (r: u16)
        ensures
            r == spec_word(self.reg_x, self.reg_y),
    {
        build_u16(self.reg_x, self.reg_y)
    }
}

/// The virtual machine: memory plus a program, a program counter, an
/// optional symbol table for the debug trace, and the debug switch itself.
pub struct Devola {
    pub memory: DevolaMemory,
    pub code: Vec<Instruction>,
    pub pc: usize,
    pub debug: bool,
    pub call_stack: Vec<String>,
    pub symbol_table: Option<HashMap<usize, String>>,
}

impl View for Devola {
    type V = VmModel;

    open spec fn view(&self) -> VmModel {
        VmModel {
            mem: self.memory.bytes@,
            a: self.memory.reg_a,
            x: self.memory.reg_x,
            y: self.memory.reg_y,
            b: self.memory.reg_b,
            c: self.memory.reg_c,
            flags: self.memory.flags,
            pc: self.pc as int,
        }
    }
}

/// The memory contents a fresh machine starts from: all zero, except the
/// MMIO stack-pointer cells, which hold the initial stack pointer.
pub open spec fn spec_initial_memory() -> Seq<u8> {
    Seq::new(
        MEMORY_SIZE as nat,
        |i: int|
            if i == STACK_POINTER_MSB as int {
                spec_msb(INITIAL_STACK_POINTER)
            } else if i == STACK_POINTER_LSB as int {
                spec_lsb(INITIAL_STACK_POINTER)
            } else {
                0u8
            },
    )
}

/// The whole state a fresh machine starts from: the initial memory,
/// zeroed registers and flags, the program counter at the first
/// instruction.
pub open spec fn spec_initial_state() -> VmModel {
    VmModel {
        mem: spec_initial_memory(),
        a: 0,
        x: 0,
        y: 0,
        b: 0,
        c: 0,
        flags: 0,
        pc: 0,
    }
}

/// The parts of a machine that stepping never changes.
pub open spec fn same_program(pre: &Devola, post: &Devola) -> bool {
    &&& post.code == pre.code
    &&& post.symbol_table == pre.symbol_table
    &&& post.debug == pre.debug
}

impl Devola {
    pub open spec fn wf(&self) -> bool {
        self.memory.wf()
    }

    /// A machine around a program: zeroed memory and registers, the stack
    /// pointer cells initialized, the program counter at the first
    /// instruction.
    pub fn new(code: Vec<Instruction>, symbol_table: Option<HashMap<usize, String>>) -> (r: Self)
        ensures
            r.wf(),
            r@ =~= spec_initial_state(),
            r.code == code,
            r.symbol_table == symbol_table,
            r.debug == false,
    {
        let mut out = Self {
            memory: DevolaMemory::new(),
            code,
            pc: 0,
            debug: false,
            call_stack: Vec::new(),
            symbol_table,
        };
        let (msb, lsb) = break_u16(INITIAL_STACK_POINTER);
        out.memory.write_mem(STACK_POINTER_MSB, msb);
        out.memory.write_mem(STACK_POINTER_LSB, lsb);
        proof {
            assert(out@.mem =~= spec_initial_memory());
        }
        out
    }

    /// Turns the textual call/return trace on.
    pub fn enable_debug(&mut self)
        ensures
            final(self)@ == old(self)@,
            final(self).code == old(self).code,
            final(self).symbol_table == old(self).symbol_table,
            final(self).debug == true,
            final(self).wf() == old(self).wf(),
    {
        self.debug = true;
    }

    /// Turns the textual call/return trace off.
    pub fn disable_debug(&mut self)
        ensures
            final(self)@ == old(self)@,
            final(self).code == old(self).code,
            final(self).symbol_table == old(self).symbol_table,
            final(self).debug == false,
            final(self).wf() == old(self).wf(),
    {
        self.debug = false;
    }

    /// The stack pointer, read from its MMIO cells.
    pub fn get_stack_pointer(&self) -> (r: u16)
        requires
            self.wf(),
        ensures
            r == spec_sp(self@),
    {
        build_u16(
            self.memory.read_mem(STACK_POINTER_MSB),
            self.memory.read_mem(STACK_POINTER_LSB),
        )
    }

    /// Pushes one byte: moves the stack pointer down one cell (16-bit
    /// wrapping), writes the byte there, and rewrites the MMIO cells.
    pub fn push(&mut self, value: u8)
        requires
            old(self).wf(),
        ensures
            final(self).wf(),
            final(self)@ == spec_push(old(self)@, value),
            same_program(old(self), final(self)),
            final(self).call_stack == old(self).call_stack,
    {
        let sp = self.get_stack_pointer();
        let new_stack_pointer = if sp == 0 {
            0xFFFFu16
        } else {
            sp - 1
        };
        let (msb, lsb) = break_u16(new_stack_pointer);
        self.memory.write_mem(new_stack_pointer, value);
        self.memory.write_mem(STACK_POINTER_MSB, msb);
        self.memory.write_mem(STACK_POINTER_LSB, lsb);
    }

    /// Pops one byte: moves the stack pointer up one cell (16-bit
    /// wrapping), rewrites the MMIO cells, and returns the byte at the old
    /// stack-pointer position.
    pub fn pop(&mut self) -> (r: u8)
        requires
            old(self).wf(),
        ensures
            final(self).wf(),
            final(self)@ == spec_pop_state(old(self)@),
            r == spec_pop_value(old(self)@),
            same_program(old(self), final(self)),
            final(self).call_stack == old(self).call_stack,
    {
        let sp = self.get_stack_pointer();
        let new_stack_pointer = if sp == 0xFFFF {
            0u16
        } else {
            sp + 1
        };
        let (msb, lsb) = break_u16(new_stack_pointer);
        self.memory.write_mem(STACK_POINTER_MSB, msb);
        self.memory.write_mem(STACK_POINTER_LSB, lsb);
        self.memory.read_mem(sp)
    }

    /// Every jump and call target stored in the program is an in-range
    /// index into the program vector.
    pub open spec fn code_ok(&self) -> bool {
        code_targets_in_range(self.code@)
    }

    /// Resolves an addressing mode to the byte it names.
    pub fn resolve_rvalue(&self, addressing_mode: AddressingMode) -> (r: u8)
        requires
            self.wf(),
        ensures
            r == spec_rvalue(self@, addressing_mode),
    {
        match addressing_mode {
            AddressingMode::Register(register) => self.memory.read_register(register),
            AddressingMode::Immediate(value) => value,
            AddressingMode::Indirect(source) => self.memory.read_mem(source),
            AddressingMode::Index => self.memory.read_mem(self.memory.get_index()),
            AddressingMode::IndexOffset(offset) => {
                let index = self.memory.get_index();
                self.memory.read_mem(wrap_add16(index, offset as u16))
            },
        }
    }

    /// Loads the byte named by the addressing mode into a register.
    fn exec_load(&mut self, dest_register: Register, addressing_mode: AddressingMode)
        requires
            old(self).wf(),
        ensures
            final(self).wf(),
            same_program(old(self), final(self)),
            final(self).call_stack == old(self).call_stack,
            final(self).pc == old(self).pc,
            spec_execute(old(self)@, Instruction::Load(dest_register, addressing_mode))
                == Ok::<VmModel, DevolaError>(final(self)@),
    {
        proof {
            reveal(spec_execute);
        }
        let value = self.resolve_rvalue(addressing_mode);
        self.memory.write_register(dest_register, value);
    }

    /// Stores a register through `Indirect`, `Index` or `IndexOffset`;
    /// any other mode is an invalid argument.
    fn exec_store(&mut self, register: Register, addressing_mode: AddressingMode) -> (r: Result<
        (),
        DevolaError,
    >)
        requires
            old(self).wf(),
        ensures
            final(self).wf(),
            same_program(old(self), final(self)),
            final(self).call_stack == old(self).call_stack,
            final(self).pc == old(self).pc,
            match spec_execute(old(self)@, Instruction::Store(register, addressing_mode)) {
                Ok(s2) => r is Ok && final(self)@ == s2,
                Err(e) => r == Err::<(), DevolaError>(e) && final(self)@ == old(self)@,
            },
    {
        proof {
            reveal(spec_execute);
        }
        let dest_byte = match addressing_mode {
            AddressingMode::Register(_) | AddressingMode::Immediate(_) => {
                return Err(DevolaError::InvalidArgument);
            },
            AddressingMode::Indirect(pointer) => pointer,
            AddressingMode::Index => self.memory.get_index(),
            AddressingMode::IndexOffset(offset) => wrap_add16(
                self.memory.get_index(),
                offset as u16,
            ),
        };
        let value = self.memory.read_register(register);
        self.memory.write_mem(dest_byte, value);
        Ok(())
    }

    /// Increments the accumulator, wrapping, and rewrites Z, S and P.
    fn exec_increment(&mut self)
        requires
            old(self).wf(),
        ensures
            final(self).wf(),
            same_program(old(self), final(self)),
            final(self).call_stack == old(self).call_stack,
            final(self).pc == old(self).pc,
            spec_execute(old(self)@, Instruction::Increment) == Ok::<VmModel, DevolaError>(
                final(self)@,
            ),
    {
        proof {
            reveal(spec_execute);
        }
        let prev = self.memory.read_register(Register::Accumulator);
        let result: u8 = if prev == 0xFF {
            0
        } else {
            prev + 1
        };
        self.memory.write_register(Register::Accumulator, result);
        self.memory.flags = flags_keep_c(
            self.memory.flags,
            prev == 0xFF,
            result & 0x80 == 0x80,
            result % 2 == 1,
        );
    }

    /// Decrements the accumulator, wrapping, and rewrites Z, S and P.
    fn exec_decrement(&mut self)
        requires
            old(self).wf(),
        ensures
            final(self).wf(),
            same_program(old(self), final(self)),
            final(self).call_stack == old(self).call_stack,
            final(self).pc == old(self).pc,
            spec_execute(old(self)@, Instruction::Decrement) == Ok::<VmModel, DevolaError>(
                final(self)@,
            ),
    {
        proof {
            reveal(spec_execute);
        }
        let prev = self.memory.read_register(Register::Accumulator);
        let result: u8 = if prev == 0x00 {
            0xFF
        } else {
            prev - 1
        };
        self.memory.write_register(Register::Accumulator, result);
        self.memory.flags = flags_keep_c(
            self.memory.flags,
            prev == 0x00,
            result & 0x80 == 0x80,
            result % 2 == 1,
        );
    }

    /// Adds the operand byte to the accumulator, wrapping, and rewrites
    /// all four flags.
    fn exec_add(&mut self, addressing_mode: AddressingMode)
        requires
            old(self).wf(),
        ensures
            final(self).wf(),
            same_program(old(self), final(self)),
            final(self).call_stack == old(self).call_stack,
            final(self).pc == old(self).pc,
            spec_execute(old(self)@, Instruction::Add(addressing_mode)) == Ok::<
                VmModel,
                DevolaError,
            >(final(self)@),
    {
        proof {
            reveal(spec_execute);
        }
        let addand = self.resolve_rvalue(addressing_mode);
        let accumulator = self.memory.read_register(Register::Accumulator);
        let sum: u16 = accumulator as u16 + addand as u16;
        let result: u8 = (sum % 256) as u8;
        self.memory.write_register(Register::Accumulator, result);
        self.memory.flags = flags_all(
            result == 0,
            result & 0x80 == 0x80,
            result % 2 == 1,
            sum > 255,
        );
    }

    /// Subtracts the operand byte from the accumulator, wrapping, and
    /// rewrites all four flags.
    fn exec_subtract(&mut self, addressing_mode: AddressingMode)
        requires
            old(self).wf(),
        ensures
            final(self).wf(),
            same_program(old(self), final(self)),
            final(self).call_stack == old(self).call_stack,
            final(self).pc == old(self).pc,
            spec_execute(old(self)@, Instruction::Subtract(addressing_mode)) == Ok::<
                VmModel,
                DevolaError,
            >(final(self)@),
    {
        proof {
            reveal(spec_execute);
        }
        let addand = self.resolve_rvalue(addressing_mode);
        let accumulator = self.memory.read_register(Register::Accumulator);
        let diff: u16 = accumulator as u16 + 256 - addand as u16;
        let result: u8 = (diff % 256) as u8;
        self.memory.write_register(Register::Accumulator, result);
        self.memory.flags = flags_all(
            result == 0,
            result & 0x80 == 0x80,
            result % 2 == 1,
            accumulator < addand,
        );
    }

    /// Adds the zero-extended operand byte to `X:Y`, wrapping, and
    /// rewrites Z, P and C.
    fn exec_add_xy(&mut self, addressing_mode: AddressingMode)
        requires
            old(self).wf(),
        ensures
            final(self).wf(),
            same_program(old(self), final(self)),
            final(self).call_stack == old(self).call_stack,
            final(self).pc == old(self).pc,
            spec_execute(old(self)@, Instruction::AddXY(addressing_mode)) == Ok::<
                VmModel,
                DevolaError,
            >(final(self)@),
    {
        proof {
            reveal(spec_execute);
        }
        let addand = self.resolve_rvalue(addressing_mode);
        let index = self.memory.get_index();
        let sum: u32 = index as u32 + addand as u32;
        let result: u16 = (sum % 0x10000) as u16;
        let (msb, lsb) = break_u16(result);
        self.memory.write_register(Register::IndexX, msb);
        self.memory.write_register(Register::IndexY, lsb);
        self.memory.flags = flags_keep_s(
            self.memory.flags,
            result == 0,
            result % 2 == 1,
            sum > 0xFFFF,
        );
    }

    /// Subtracts the zero-extended operand byte from `X:Y`, wrapping, and
    /// rewrites Z, P and C.
    fn exec_subtract_xy(&mut self, addressing_mode: AddressingMode)
        requires
            old(self).wf(),
        ensures
            final(self).wf(),
            same_program(old(self), final(self)),
            final(self).call_stack == old(self).call_stack,
            final(self).pc == old(self).pc,
            spec_execute(old(self)@, Instruction::SubtractXY(addressing_mode)) == Ok::<
                VmModel,
                DevolaError,
            >(final(self)@),
    {
        proof {
            reveal(spec_execute);
        }
        let addand = self.resolve_rvalue(addressing_mode);
        let index = self.memory.get_index();
        let diff: u32 = index as u32 + 0x10000 - addand as u32;
        let result: u16 = (diff % 0x10000) as u16;
        let (msb, lsb) = break_u16(result);
        self.memory.write_register(Register::IndexX, msb);
        self.memory.write_register(Register::IndexY, lsb);
        self.memory.flags = flags_keep_s(
            self.memory.flags,
            result == 0,
            result % 2 == 1,
            index < addand as u16,
        );
    }

    /// Compares the operand byte with the accumulator: Z, S and P report
    /// agreement of value, sign bit and parity; C reports `A < x`.
    fn exec_compare(&mut self, addressing_mode: AddressingMode)
        requires
            old(self).wf(),
        ensures
            final(self).wf(),
            same_program(old(self), final(self)),
            final(self).call_stack == old(self).call_stack,
            final(self).pc == old(self).pc,
            spec_execute(old(self)@, Instruction::Compare(addressing_mode)) == Ok::<
                VmModel,
                DevolaError,
            >(final(self)@),
    {
        proof {
            reveal(spec_execute);
        }
        let comparator = self.resolve_rvalue(addressing_mode);
        let accumulator = self.memory.read_register(Register::Accumulator);
        self.memory.flags = flags_all(
            comparator == accumulator,
            (comparator & 0x80) == (accumulator & 0x80),
            (comparator % 2) == (accumulator % 2),
            accumulator < comparator,
        );
    }

    /// Assigns the program counter when the jump's condition holds.
    fn exec_jump(&mut self, jump_type: JumpType, destination: usize)
        requires
            old(self).wf(),
        ensures
            final(self).wf(),
            same_program(old(self), final(self)),
            final(self).call_stack == old(self).call_stack,
            final(self).pc == destination || final(self).pc == old(self).pc,
            spec_execute(old(self)@, Instruction::Jump(jump_type, destination)) == Ok::<
                VmModel,
                DevolaError,
            >(final(self)@),
    {
        proof {
            reveal(spec_execute);
        }
        let taken = match jump_type {
            JumpType::Unconditional => true,
            JumpType::Flag(flag, set) => self.memory.flag(flag) == set,
        };
        if taken {
            self.pc = destination;
        }
    }

    /// Pushes the current program counter big-endian (as a 16-bit word)
    /// and transfers control to the destination.
    #[verifier::spinoff_prover]
    #[verifier::rlimit(100)]
    fn exec_call_local(&mut self, dest: usize)
        requires
            old(self).wf(),
        ensures
            final(self).wf(),
            same_program(old(self), final(self)),
            final(self).call_stack == old(self).call_stack,
            final(self).pc == dest,
            spec_execute(old(self)@, Instruction::Call(CallType::Local(dest))) == Ok::<
                VmModel,
                DevolaError,
            >(final(self)@),
    {
        proof {
            reveal(spec_execute);
        }
        let pc16: u16 = #[verifier::truncate] (self.pc as u16);
        let (msb, lsb) = break_u16(pc16);
        self.push(msb);
        self.push(lsb);
        self.pc = dest;
        proof {
            let s0 = old(self)@;
            let pu: usize = old(self).pc;
            let pc16s = (s0.pc % 0x10000) as u16;
            assert((pu as u16) == ((pu % 0x10000) as u16)) by (bit_vector);
            assert(pc16 == pc16s);
            let pushed = spec_push(spec_push(s0, spec_msb(pc16s)), spec_lsb(pc16s));
            assert(self@ =~= (VmModel { pc: dest as int, ..pushed }));
        }
    }

    /// Pops a big-endian word off the stack (LSB first) and resumes there.
    fn exec_return(&mut self)
        requires
            old(self).wf(),
        ensures
            final(self).wf(),
            same_program(old(self), final(self)),
            final(self).call_stack == old(self).call_stack,
            final(self).pc <= 0xFFFF,
            spec_execute(old(self)@, Instruction::Return) == Ok::<VmModel, DevolaError>(
                final(self)@,
            ),
    {
        proof {
            reveal(spec_execute);
        }
        let lsb = self.pop();
        let msb = self.pop();
        self.pc = build_u16(msb, lsb) as usize;
    }

    /// Executes one instruction, mutating the machine exactly as
    /// [`spec_execute`] describes. The program counter is only assigned by
    /// `Jump`, `Call` and `Return`; on an error the machine is unchanged.
    pub fn execute_instruction(&mut self, instruction: Instruction) -> (r: Result<
        (),
        DevolaError,
    >)
        requires
            old(self).wf(),
        ensures
            final(self).wf(),
            same_program(old(self), final(self)),
            final(self).call_stack == old(self).call_stack,
            match spec_execute(old(self)@, instruction) {
                Ok(s2) => r is Ok && final(self)@ == s2,
                Err(e) => r == Err::<(), DevolaError>(e) && final(self)@ == old(self)@,
            },
            match instruction {
                Instruction::Jump(_, t) => final(self).pc == t || final(self).pc == old(self).pc,
                Instruction::Call(CallType::Local(t)) => final(self).pc == t || final(self).pc
                    == old(self).pc,
                Instruction::Return => final(self).pc <= 0xFFFF || final(self).pc == old(
                    self,
                ).pc,
                _ => final(self).pc == old(self).pc,
            },
    {
        match instruction {
            Instruction::Load(dest_register, addressing_mode) => {
                self.exec_load(dest_register, addressing_mode);
                Ok(())
            },
            Instruction::Store(register, addressing_mode) => self.exec_store(
                register,
                addressing_mode,
            ),
            Instruction::Increment => {
                self.exec_increment();
                Ok(())
            },
            Instruction::Decrement => {
                self.exec_decrement();
                Ok(())
            },
            Instruction::Add(addressing_mode) => {
                self.exec_add(addressing_mode);
                Ok(())
            },
            Instruction::Subtract(addressing_mode) => {
                self.exec_subtract(addressing_mode);
                Ok(())
            },
            Instruction::AddXY(addressing_mode) => {
                self.exec_add_xy(addressing_mode);
                Ok(())
            },
            Instruction::SubtractXY(addressing_mode) => {
                self.exec_subtract_xy(addressing_mode);
                Ok(())
            },
            Instruction::Compare(addressing_mode) => {
                self.exec_compare(addressing_mode);
                Ok(())
            },
            Instruction::Jump(jump_type, destination) => {
                self.exec_jump(jump_type, destination);
                Ok(())
            },
            Instruction::Call(call_type) => match call_type {
                CallType::Local(dest) => {
                    self.exec_call_local(dest);
                    Ok(())
                },
                CallType::Library(_) => {
                    proof {
                        reveal(spec_execute);
                    }
                    Err(DevolaError::Unimplemented)
                },
            },
            Instruction::Return => {
                self.exec_return();
                Ok(())
            },
            Instruction::Push(register) => {
                proof {
                    reveal(spec_execute);
                }
                let value = self.memory.read_register(register);
                self.push(value);
                Ok(())
            },
            Instruction::Pop(register) => {
                proof {
                    reveal(spec_execute);
                }
                let value = self.pop();
                self.memory.write_register(register, value);
                Ok(())
            },
            Instruction::Nop => {
                proof {
                    reveal(spec_execute);
                }
                Ok(())
            },
            Instruction::_Label(_) => {
                proof {
                    reveal(spec_execute);
                }
                Ok(())
            },
            Instruction::_LabeledJump(_, _) => {
                proof {
                    reveal(spec_execute);
                }
                Ok(())
            },
            Instruction::_LabeledCall(_) => {
                proof {
                    reveal(spec_execute);
                }
                Ok(())
            },
            Instruction::_Assert(addressing_mode, value) => {
                proof {
                    reveal(spec_execute);
                }
                if self.resolve_rvalue(addressing_mode) == value {
                    Ok(())
                } else {
                    Err(DevolaError::AssertionFailed)
                }
            },
        }
    }
    /// Performs one step: terminates with `EndCode` past the end of the
    /// program, otherwise executes the current instruction and advances the
    /// program counter by one. When the debug trace is on, calls and
    /// returns are reported on standard output.
    pub fn step(&mut self) -> (r: Result<(), DevolaError>)
        requires
            old(self).wf(),
            old(self).code_ok(),
        ensures
            final(self).wf(),
            same_program(old(self), final(self)),
            match spec_step(old(self).code@, old(self)@) {
                Ok(s2) => r is Ok && final(self)@ == s2,
                Err(e) => r == Err::<(), DevolaError>(e) && final(self)@ == old(self)@,
            },
    {
        if self.pc >= self.code.len() {
            return Err(DevolaError::EndCode);
        }
        let instruction = self.code[self.pc].clone();
        let debug_inst = instruction.clone();
        match self.execute_instruction(instruction) {
            Err(error) => {
                if self.debug {
                    trace_error(&error, self.pc);
                }
                return Err(error);
            },
            Ok(()) => {},
        }
        if self.debug {
            match debug_inst {
                Instruction::Call(CallType::Local(loc)) => {
                    let symbol: String = match &self.symbol_table {
                        Some(table) => match table.get(&loc) {
                            Some(s) => s.clone(),
                            None => "unknown".to_owned(),
                        },
                        None => loc.to_string(),
                    };
                    trace_call(symbol.as_str());
                    self.call_stack.push(symbol);
                },
                Instruction::Return => {
                    let name = match self.call_stack.pop() {
                        Some(n) => n,
                        None => "unknown".to_owned(),
                    };
                    trace_return(name.as_str(), self.memory.read_register(Register::UtilityB));
                },
                _ => {},
            }
        }
        proof {
            assert(old(self).code@[old(self).pc as int] matches Instruction::Jump(_, t) ==> t
                < old(self).code@.len());
            assert(old(self).code@[old(self).pc as int] matches Instruction::Call(
                CallType::Local(t),
            ) ==> t < old(self).code@.len());
            assert(self.pc < usize::MAX);
        }
        self.pc = self.pc + 1;
        Ok(())
    }

    /// Steps until the machine terminates. Normal termination (the program
    /// counter walking past the last instruction) is success; any other
    /// error is returned, with the machine left in the state that raised
    /// it. The final state is always reachable from the initial one by
    /// stepping. So that every call provably terminates, one `run` performs
    /// at most `u64::MAX` steps; a program still going then stops with
    /// `StepLimit` (at any realistic speed that takes centuries).
    pub fn run(&mut self) -> (r: Result<(), DevolaError>)
        requires
            old(self).wf(),
            old(self).code_ok(),
        ensures
            final(self).wf(),
            same_program(old(self), final(self)),
            exists|n: nat|
                spec_steps(old(self).code@, old(self)@, n) == Some(final(self)@),
            match r {
                Ok(()) => spec_step(final(self).code@, final(self)@) == Err::<
                    VmModel,
                    DevolaError,
                >(DevolaError::EndCode),
                Err(DevolaError::StepLimit) => spec_steps(
                    old(self).code@,
                    old(self)@,
                    u64::MAX as nat,
                ) == Some(final(self)@),
                Err(e) => e != DevolaError::EndCode && spec_step(final(self).code@, final(self)@)
                    == Err::<VmModel, DevolaError>(e),
            },
    {
        let mut fuel: u64 = u64::MAX;
        proof {
            assert(spec_steps(old(self).code@, old(self)@, 0) == Some(old(self)@));
        }
        while fuel > 0
            invariant
                self.wf(),
                self.code_ok(),
                same_program(old(self), self),
                spec_steps(old(self).code@, old(self)@, (u64::MAX - fuel) as nat) == Some(
                    self@,
                ),
            decreases fuel,
        {
            let ghost cur = *self;
            proof {
                lemma_step_no_steplimit(cur.code@, cur@);
            }
            match self.step() {
                Err(DevolaError::EndCode) => {
                    return Ok(());
                },
                Err(error) => {
                    return Err(error);
                },
                Ok(()) => {
                    proof {
                        lemma_steps_snoc(
                            old(self).code@,
                            old(self)@,
                            (u64::MAX - fuel) as nat,
                            cur@,
                            self@,
                        );
                    }
                },
            }
            fuel = fuel - 1;
        }
        Err(DevolaError::StepLimit)
    }
}

/// A step never reports `StepLimit`: that error belongs to `run`'s bound
/// alone.
#[verifier::spinoff_prover]
#[verifier::rlimit(50)]
proof fn lemma_step_no_steplimit(code: Seq<Instruction>, s: VmModel)
    ensures
        spec_step(code, s) != Err::<VmModel, DevolaError>(DevolaError::StepLimit),
{
    reveal(spec_execute);
}

/// Every jump and call target stored in a program is an in-range index
/// into the program vector (the documented invariant of resolved
/// programs); this keeps the step counter from overflowing.
pub open spec fn code_targets_in_range(code: Seq<Instruction>) -> bool {
    forall|i: int|
        0 <= i < code.len() ==> match #[trigger] code[i] {
            Instruction::Jump(_, t) => t < code.len(),
            Instruction::Call(CallType::Local(t)) => t < code.len(),
            _ => true,
        }
}

/// 16-bit wrapping addition.
fn wrap_add16(w: u16, d: u16) -> (r: u16)
    ensures
        r == spec_add16(w, d),
{
    ((w as u32 + d as u32) % 0x10000) as u16
}

/// Builds the flag byte for an 8-bit accumulator operation that rewrites
/// Zero, Sign and Parity and keeps Carry.
fn flags_keep_c(old_flags: u8, zero: bool, sign: bool, parity: bool) -> (r: u8)
    ensures
        r == spec_flags_keep_c(old_flags, zero, sign, parity),
        r < 16,
{
    let r: u8 = (old_flags & 1) | (if zero {
        2
    } else {
        0
    }) | (if parity {
        4
    } else {
        0
    }) | (if sign {
        8
    } else {
        0
    });
    proof {
        let fz: u8 = if zero {
            2
        } else {
            0
        };
        let fp: u8 = if parity {
            4
        } else {
            0
        };
        let fs: u8 = if sign {
            8
        } else {
            0
        };
        assert(fz <= 2 && fp <= 4 && fs <= 8 ==> ((old_flags & 1) | fz | fp | fs) < 16)
            by (bit_vector);
    }
    r
}

/// Builds the flag byte for an operation that rewrites all four flags.
fn flags_all(zero: bool, sign: bool, parity: bool, carry: bool) -> (r: u8)
    ensures
        r == spec_flags_all(zero, sign, parity, carry),
        r < 16,
{
    let r: u8 = (if carry {
        1u8
    } else {
        0u8
    }) | (if zero {
        2
    } else {
        0
    }) | (if parity {
        4
    } else {
        0
    }) | (if sign {
        8
    } else {
        0
    });
    proof {
        let fc: u8 = if carry {
            1
        } else {
            0
        };
        let fz: u8 = if zero {
            2
        } else {
            0
        };
        let fp: u8 = if parity {
            4
        } else {
            0
        };
        let fs: u8 = if sign {
            8
        } else {
            0
        };
        assert(fc <= 1 && fz <= 2 && fp <= 4 && fs <= 8 ==> (fc | fz | fp | fs) < 16)
            by (bit_vector);
    }
    r
}

/// Builds the flag byte for a 16-bit index operation that rewrites Zero,
/// Parity and Carry and keeps Sign.
fn flags_keep_s(old_flags: u8, zero: bool, parity: bool, carry: bool) -> (r: u8)
    ensures
        r == spec_flags_keep_s(old_flags, zero, parity, carry),
        r < 16,
{
    let r: u8 = (old_flags & 8) | (if carry {
        1u8
    } else {
        0u8
    }) | (if zero {
        2
    } else {
        0
    }) | (if parity {
        4
    } else {
        0
    });
    proof {
        let fc: u8 = if carry {
            1
        } else {
            0
        };
        let fz: u8 = if zero {
            2
        } else {
            0
        };
        let fp: u8 = if parity {
            4
        } else {
            0
        };
        assert(fc <= 1 && fz <= 2 && fp <= 4 ==> ((old_flags & 8) | fc | fz | fp) < 16)
            by (bit_vector);
    }
    r
}

/// Wrapping inverse pair: incrementing after decrementing a 16-bit word
/// gives the word back.
proof fn lemma_inc_of_dec16(w: u16)
    ensures
        spec_inc16(spec_dec16(w)) == w,
{
}

/// The flag byte built for an accumulator operation keeps the reserved
/// bits zero.
proof fn lemma_keep_c_bound(old_flags: u8, zero: bool, sign: bool, parity: bool)
    ensures
        spec_flags_keep_c(old_flags, zero, sign, parity) < 16,
{
    let z: u8 = if zero {
        2
    } else {
        0
    };
    let p: u8 = if parity {
        4
    } else {
        0
    };
    let sg: u8 = if sign {
        8
    } else {
        0
    };
    assert(z <= 2 && p <= 4 && sg <= 8 ==> ((old_flags & 1) | z | p | sg) < 16) by (bit_vector);
}

/// The flag byte built for an operation that rewrites all four flags keeps
/// the reserved bits zero.
proof fn lemma_all_bound(zero: bool, sign: bool, parity: bool, carry: bool)
    ensures
        spec_flags_all(zero, sign, parity, carry) < 16,
{
    let cy: u8 = if carry {
        1
    } else {
        0
    };
    let z: u8 = if zero {
        2
    } else {
        0
    };
    let p: u8 = if parity {
        4
    } else {
        0
    };
    let sg: u8 = if sign {
        8
    } else {
        0
    };
    assert(cy <= 1 && z <= 2 && p <= 4 && sg <= 8 ==> (cy | z | p | sg) < 16) by (bit_vector);
}

/// The flag byte built for a 16-bit index operation keeps the reserved
/// bits zero.
proof fn lemma_keep_s_bound(old_flags: u8, zero: bool, parity: bool, carry: bool)
    ensures
        spec_flags_keep_s(old_flags, zero, parity, carry) < 16,
{
    let cy: u8 = if carry {
        1
    } else {
        0
    };
    let z: u8 = if zero {
        2
    } else {
        0
    };
    let p: u8 = if parity {
        4
    } else {
        0
    };
    assert(cy <= 1 && z <= 2 && p <= 4 ==> ((old_flags & 8) | cy | z | p) < 16) by (bit_vector);
}

/// The reserved flag bits (4..7) are always zero: executing any
/// instruction in a well-formed state yields a well-formed state, so the
/// flag byte never leaves the range 0..16.
pub proof fn lemma_execute_preserves_wf(s: VmModel, inst: Instruction)
    requires
        model_wf(s),
        spec_execute(s, inst) is Ok,
    ensures
        model_wf(spec_execute(s, inst)->Ok_0),
        spec_execute(s, inst)->Ok_0.flags < 16,
    decreases 0int,
{
    reveal(spec_execute);
    match inst {
        Instruction::Increment => {
            let result = if s.a == 0xFF {
                0u8
            } else {
                (s.a + 1) as u8
            };
            lemma_keep_c_bound(s.flags, s.a == 0xFF, result & 0x80 == 0x80, result % 2 == 1);
        },
        Instruction::Decrement => {
            let result = if s.a == 0x00 {
                0xFFu8
            } else {
                (s.a - 1) as u8
            };
            lemma_keep_c_bound(s.flags, s.a == 0x00, result & 0x80 == 0x80, result % 2 == 1);
        },
        Instruction::Add(mode) => {
            let v = spec_rvalue(s, mode);
            let result = ((s.a + v) % 256) as u8;
            lemma_all_bound(result == 0, result & 0x80 == 0x80, result % 2 == 1, s.a + v > 255);
        },
        Instruction::Subtract(mode) => {
            let v = spec_rvalue(s, mode);
            let result = ((s.a + 256 - v) % 256) as u8;
            lemma_all_bound(result == 0, result & 0x80 == 0x80, result % 2 == 1, s.a < v);
        },
        Instruction::AddXY(mode) => {
            let v = spec_rvalue(s, mode);
            let index = spec_index(s);
            let result = ((index + v) % 0x10000) as u16;
            lemma_keep_s_bound(s.flags, result == 0, result % 2 == 1, index + v > 0xFFFF);
        },
        Instruction::SubtractXY(mode) => {
            let v = spec_rvalue(s, mode);
            let index = spec_index(s);
            let result = ((index + 0x10000 - v) % 0x10000) as u16;
            lemma_keep_s_bound(s.flags, result == 0, result % 2 == 1, index < v);
        },
        Instruction::Compare(mode) => {
            let v = spec_rvalue(s, mode);
            lemma_all_bound(s.a == v, s.a & 0x80 == v & 0x80, s.a % 2 == v % 2, s.a < v);
        },
        _ => {},
    }
}

/// The MMIO cells always mirror the logical stack pointer: a push moves
/// the pointer stored at `0x0FF0/0x0FF1` down by exactly one cell
/// (16-bit wrapping), whatever byte was pushed and wherever it landed.
pub proof fn lemma_push_tracks_stack_pointer(s: VmModel, v: u8)
    requires
        s.mem.len() == MEMORY_SIZE,
    ensures
        spec_sp(spec_push(s, v)) == spec_dec16(spec_sp(s)),
{
    let nsp = spec_dec16(spec_sp(s));
    crate::util::lemma_word_roundtrip(nsp, spec_msb(nsp), spec_lsb(nsp));
}

/// The MMIO cells always mirror the logical stack pointer: a pop moves
/// the pointer stored at `0x0FF0/0x0FF1` up by exactly one cell (16-bit
/// wrapping).
pub proof fn lemma_pop_tracks_stack_pointer(s: VmModel)
    requires
        s.mem.len() == MEMORY_SIZE,
    ensures
        spec_sp(spec_pop_state(s)) == spec_inc16(spec_sp(s)),
{
    let nsp = spec_inc16(spec_sp(s));
    crate::util::lemma_word_roundtrip(nsp, spec_msb(nsp), spec_lsb(nsp));
}

/// `Push` then `Pop` of register R leaves every register, the flags, the
/// program counter and the stack pointer unchanged; memory changes only at
/// the written cell, which keeps the pushed byte. The one proviso: the
/// cell pushed to must not itself be an MMIO stack-pointer cell (the stack
/// would have to wrap far out of its own region for that to happen).
#[verifier::spinoff_prover]
#[verifier::rlimit(100)]
pub proof fn lemma_push_then_pop(s: VmModel, r: Register)
    requires
        model_wf(s),
        spec_dec16(spec_sp(s)) != STACK_POINTER_MSB,
        spec_dec16(spec_sp(s)) != STACK_POINTER_LSB,
    ensures
        ({
            let s1 = spec_execute(s, Instruction::Push(r))->Ok_0;
            let s2 = spec_execute(s1, Instruction::Pop(r))->Ok_0;
            &&& spec_execute(s, Instruction::Push(r)) is Ok
            &&& spec_execute(s1, Instruction::Pop(r)) is Ok
            &&& s2.a == s.a && s2.x == s.x && s2.y == s.y && s2.b == s.b && s2.c == s.c
            &&& s2.flags == s.flags
            &&& s2.pc == s.pc
            &&& spec_sp(s2) == spec_sp(s)
            &&& s2.mem =~= s.mem.update(spec_dec16(spec_sp(s)) as int, spec_reg(s, r))
        }),
{
    reveal(spec_execute);
    let sp = spec_sp(s);
    let nsp = spec_dec16(sp);
    let v = spec_reg(s, r);
    let s1 = spec_push(s, v);
    lemma_push_tracks_stack_pointer(s, v);
    lemma_inc_of_dec16(sp);
    crate::util::lemma_word_roundtrip(nsp, spec_msb(nsp), spec_lsb(nsp));
    crate::util::lemma_word_roundtrip(sp, spec_msb(sp), spec_lsb(sp));
    assert(spec_pop_value(s1) == v);
    let s2 = spec_with_reg(spec_pop_state(s1), r, v);
    assert(s2.mem =~= s.mem.update(nsp as int, v));
    assert(spec_sp(s2) == sp);
}

/// The state a `Call` to a local target produces: the 16-bit program
/// counter pushed big-endian, control transferred to the target.
proof fn lemma_call_state(s: VmModel, t: usize)
    ensures
        ({
            let pc16 = (s.pc % 0x10000) as u16;
            spec_execute(s, Instruction::Call(CallType::Local(t))) == Ok::<VmModel, DevolaError>(
                VmModel {
                    pc: t as int,
                    ..spec_push(spec_push(s, spec_msb(pc16)), spec_lsb(pc16))
                },
            )
        }),
{
    reveal(spec_execute);
}

/// The state a `Return` produces: two bytes popped, reassembled little
/// pop first (LSB, then MSB), and assigned to the program counter.
proof fn lemma_return_state(s2: VmModel)
    ensures
        spec_execute(s2, Instruction::Return) == Ok::<VmModel, DevolaError>(
            VmModel {
                pc: spec_word(spec_pop_value(spec_pop_state(s2)), spec_pop_value(s2)) as int,
                ..spec_pop_state(spec_pop_state(s2))
            },
        ),
{
    reveal(spec_execute);
}

/// `Call` followed by `Return`, with no stack manipulation in between,
/// resumes exactly one instruction past the `Call`: pushing the return
/// address and popping it back are inverse, and the stack pointer comes
/// back to where it was. The provisos: the program counter of the `Call`
/// fits in 16 bits, and the two pushed cells are not themselves MMIO
/// stack-pointer cells.
#[verifier::spinoff_prover]
#[verifier::rlimit(100)]
pub proof fn lemma_call_then_return(code: Seq<Instruction>, s: VmModel, s2: VmModel, t: usize)
    requires
        model_wf(s),
        0 <= s.pc < code.len(),
        code[s.pc] == Instruction::Call(CallType::Local(t)),
        s.pc <= 0xFFFF,
        spec_dec16(spec_sp(s)) != STACK_POINTER_MSB,
        spec_dec16(spec_sp(s)) != STACK_POINTER_LSB,
        spec_dec16(spec_dec16(spec_sp(s))) != STACK_POINTER_MSB,
        spec_dec16(spec_dec16(spec_sp(s))) != STACK_POINTER_LSB,
        0 <= s2.pc < code.len(),
        code[s2.pc] == Instruction::Return,
        s2.mem == spec_step(code, s)->Ok_0.mem,
        s2.mem.len() == MEMORY_SIZE,
    ensures
        spec_step(code, s) is Ok,
        spec_step(code, s2) is Ok,
        spec_step(code, s2)->Ok_0.pc == s.pc + 1,
        spec_sp(spec_step(code, s2)->Ok_0) == spec_sp(s),
{
    let sp = spec_sp(s);
    let pc16 = (s.pc % 0x10000) as u16;
    assert(pc16 == s.pc);
    let hi = spec_msb(pc16);
    let lo = spec_lsb(pc16);
    let p1 = spec_push(s, hi);
    let p2 = spec_push(p1, lo);
    lemma_call_state(s, t);
    assert(spec_step(code, s) is Ok);
    assert(s2.mem == p2.mem);
    lemma_push_tracks_stack_pointer(s, hi);
    lemma_push_tracks_stack_pointer(p1, lo);
    let nsp1 = spec_dec16(sp);
    let nsp2 = spec_dec16(nsp1);
    crate::util::lemma_word_roundtrip(nsp1, spec_msb(nsp1), spec_lsb(nsp1));
    crate::util::lemma_word_roundtrip(nsp2, spec_msb(nsp2), spec_lsb(nsp2));
    crate::util::lemma_word_roundtrip(sp, spec_msb(sp), spec_lsb(sp));
    crate::util::lemma_word_roundtrip(pc16, hi, lo);
    // the stack pointer of the intermediate state is where the call left it
    assert(spec_sp(s2) == spec_sp(p2));
    assert(spec_sp(s2) == nsp2);
    // first pop: reads the low return-address byte
    assert(spec_pop_value(s2) == s2.mem[nsp2 as int]);
    assert(s2.mem[nsp2 as int] == lo);
    let q1 = spec_pop_state(s2);
    lemma_pop_tracks_stack_pointer(s2);
    lemma_inc_of_dec16(nsp1);
    assert(spec_sp(q1) == nsp1);
    // second pop: reads the high return-address byte
    assert(spec_pop_value(q1) == q1.mem[nsp1 as int]);
    assert(q1.mem[nsp1 as int] == s2.mem[nsp1 as int]);
    assert(s2.mem[nsp1 as int] == hi);
    let q2 = spec_pop_state(q1);
    lemma_pop_tracks_stack_pointer(q1);
    lemma_inc_of_dec16(sp);
    assert(spec_sp(q2) == sp);
    lemma_return_state(s2);
    assert(spec_step(code, s2) is Ok);
    assert(spec_step(code, s2)->Ok_0.pc == pc16 + 1);
}

/// Relies on writeln to standard output: reports a subroutine call in the
/// optional debug trace.
#[verifier::external_body]
fn trace_call(name: &str) {
    let _ = writeln!(std::io::stdout(), "Call {}", name);
}

/// Relies on writeln to standard output: reports a subroutine return and
/// the value of register B in the optional debug trace.
#[verifier::external_body]
fn trace_return(name: &str, value: u8) {
    let _ = writeln!(std::io::stdout(), "{} returned {}", name, value);
}

/// Relies on writeln to standard error: reports an execution error in the
/// optional debug trace.
#[verifier::external_body]
fn trace_error(error: &DevolaError, pc: usize) {
    let _ = writeln!(std::io::stderr(), "An error of type {:?} occurred at PC {}", error, pc);
}

} // verus!
