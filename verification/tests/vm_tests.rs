use devola::instructions::{AddressingMode, CallType, Flag, Instruction, JumpType, Register};
use devola::parser::process_labels;
use devola::vm::{Devola, DevolaError, INITIAL_STACK_POINTER};

/// Tests the equivalent of:
/// ```asm
/// lda 10   ; a = 10
/// sta 5    ; mem[5] = 10
/// ldx a    ; x = 10
/// ldx 0xF0 ; x = 0xF0
/// ldy 0x00 ; y = 0x00
/// stx xy   ; mem[0xF000] = 0xF0
/// ```
#[test]
fn vm_test_load_store() {
    let code: Vec<Instruction> = vec![
        Instruction::Load(Register::Accumulator, AddressingMode::Immediate(10)),
        Instruction::_Assert(AddressingMode::Register(Register::Accumulator), 10),
        Instruction::Store(Register::Accumulator, AddressingMode::Indirect(5)),
        Instruction::_Assert(AddressingMode::Indirect(5), 10),
        Instruction::Load(Register::IndexX, AddressingMode::Register(Register::Accumulator)),
        Instruction::_Assert(AddressingMode::Register(Register::IndexX), 10),
        Instruction::Load(Register::IndexX, AddressingMode::Immediate(0xF0)),
        Instruction::_Assert(AddressingMode::Register(Register::IndexX), 0xF0),
        Instruction::Load(Register::IndexY, AddressingMode::Immediate(0x00)),
        Instruction::_Assert(AddressingMode::Register(Register::IndexY), 0x00),
        Instruction::Store(Register::IndexX, AddressingMode::Index),
        Instruction::_Assert(AddressingMode::Indirect(0xF000), 0xF0),
    ];

    let mut devola = Devola::new(code, None);
    if let Err(_) = devola.run() {
        panic!();
    }
}

#[test]
fn test_16bit_arithmetic() {
    let code: Vec<Instruction> = vec![
        Instruction::Load(Register::Accumulator, AddressingMode::Immediate(17)),
        Instruction::Load(Register::IndexX, AddressingMode::Immediate(0)),
        Instruction::Load(Register::IndexY, AddressingMode::Immediate(0xFF)),
        Instruction::Store(Register::Accumulator, AddressingMode::Index),
        Instruction::SubtractXY(AddressingMode::Immediate(1)),
        Instruction::_Assert(AddressingMode::IndexOffset(1), 17),
        Instruction::AddXY(AddressingMode::Immediate(2)),
        Instruction::_Assert(AddressingMode::Register(Register::IndexX), 1),
        Instruction::_Assert(AddressingMode::Register(Register::IndexY), 0),
    ];

    let mut devola = Devola::new(code, None);
    if let Err(_) = devola.run() {
        panic!();
    }
}

/// Tests the equivalent of
/// ```asm
///     lda 0       ; i = 0
///     ldb 5       ; n = 5
///     ldc 0       ; square = 0
/// loop:           ; while true
///     cmp b       ; if i == n break
///     jz end_loop
///     push a      ; square += n
///     lda c
///     add b
///     ldc a
///     pop a
///     inc         ; i++
///     jmp loop
/// end_loop:
/// ```
#[test]
fn vm_test_square() {
    let (code, _) = process_labels(vec![
        Instruction::Load(Register::Accumulator, AddressingMode::Immediate(0)),
        Instruction::Load(Register::UtilityB, AddressingMode::Immediate(5)),
        Instruction::Load(Register::UtilityC, AddressingMode::Immediate(0)),
        Instruction::_Label(String::from("loop")),
        Instruction::Compare(AddressingMode::Register(Register::UtilityB)),
        Instruction::_LabeledJump(JumpType::Flag(Flag::Zero, true), String::from("end_loop")),
        Instruction::Push(Register::Accumulator),
        Instruction::Load(Register::Accumulator, AddressingMode::Register(Register::UtilityC)),
        Instruction::Add(AddressingMode::Register(Register::UtilityB)),
        Instruction::Load(Register::UtilityC, AddressingMode::Register(Register::Accumulator)),
        Instruction::Pop(Register::Accumulator),
        Instruction::Increment,
        Instruction::_LabeledJump(JumpType::Unconditional, String::from("loop")),
        Instruction::_Label(String::from("end_loop")),
        Instruction::_Assert(AddressingMode::Register(Register::UtilityC), 25),
    ])
    .unwrap();

    let mut devola = Devola::new(code, None);
    if let Err(_) = devola.run() {
        panic!();
    }
}

/// Tests the equivalent of
/// ```asm
///     jmp main
/// square:
///     push a
///     push c
///     lda 0
///     ldc 0
/// loop:
///     cmp b
///     jz end_loop
///     push a
///     lda c
///     add b
///     ldc a
///     pop a
///     inc
///     jmp loop
/// end_loop:
///     ldb c
///     pop c
///     pop a
///     ret
/// main:
///     ldb 13
///     call square
///     ldb 12
///     call square
///     ldb 3
///     call square
/// ```
#[test]
fn vm_test_subroutine_square() {
    let (code, _) = process_labels(vec![
        Instruction::_LabeledJump(JumpType::Unconditional, String::from("main")),
        Instruction::_Label(String::from("square")),
        Instruction::Push(Register::Accumulator),
        Instruction::Push(Register::UtilityC),
        Instruction::Load(Register::Accumulator, AddressingMode::Immediate(0)),
        Instruction::Load(Register::UtilityC, AddressingMode::Immediate(0)),
        Instruction::_Label(String::from("loop")),
        Instruction::Compare(AddressingMode::Register(Register::UtilityB)),
        Instruction::_LabeledJump(JumpType::Flag(Flag::Zero, true), String::from("end_loop")),
        Instruction::Push(Register::Accumulator),
        Instruction::Load(Register::Accumulator, AddressingMode::Register(Register::UtilityC)),
        Instruction::Add(AddressingMode::Register(Register::UtilityB)),
        Instruction::Load(Register::UtilityC, AddressingMode::Register(Register::Accumulator)),
        Instruction::Pop(Register::Accumulator),
        Instruction::Increment,
        Instruction::_LabeledJump(JumpType::Unconditional, String::from("loop")),
        Instruction::_Label(String::from("end_loop")),
        Instruction::Load(Register::UtilityB, AddressingMode::Register(Register::UtilityC)),
        Instruction::Pop(Register::UtilityC),
        Instruction::Pop(Register::Accumulator),
        Instruction::Return,
        Instruction::_Assert(AddressingMode::Immediate(0), 1), // unreachable
        Instruction::_Label(String::from("main")),
        Instruction::Load(Register::UtilityB, AddressingMode::Immediate(13)),
        Instruction::_LabeledCall(String::from("square")),
        Instruction::_Assert(AddressingMode::Register(Register::UtilityB), 13 * 13),
        Instruction::Load(Register::UtilityB, AddressingMode::Immediate(12)),
        Instruction::_LabeledCall(String::from("square")),
        Instruction::_Assert(AddressingMode::Register(Register::UtilityB), 12 * 12),
        Instruction::Load(Register::UtilityB, AddressingMode::Immediate(3)),
        Instruction::_LabeledCall(String::from("square")),
        Instruction::_Assert(AddressingMode::Register(Register::UtilityB), 3 * 3),
    ])
    .unwrap();

    let mut devola = Devola::new(code, None);
    if let Err(_) = devola.run() {
        panic!();
    }
}

#[test]
fn increment_wraps_and_sets_zero() {
    let code = vec![
        Instruction::Load(Register::Accumulator, AddressingMode::Immediate(0xFF)),
        Instruction::Increment,
    ];
    let mut devola = Devola::new(code, None);
    devola.run().unwrap();
    assert_eq!(devola.memory.read_register(Register::Accumulator), 0);
    assert!(devola.memory.flag(Flag::Zero));
}

#[test]
fn decrement_wraps_and_sets_zero() {
    let code = vec![
        Instruction::Load(Register::Accumulator, AddressingMode::Immediate(0x00)),
        Instruction::Decrement,
    ];
    let mut devola = Devola::new(code, None);
    devola.run().unwrap();
    assert_eq!(devola.memory.read_register(Register::Accumulator), 0xFF);
    assert!(devola.memory.flag(Flag::Zero));
}

#[test]
fn addition_carry_to_zero() {
    let code = vec![
        Instruction::Load(Register::Accumulator, AddressingMode::Immediate(0xFF)),
        Instruction::Add(AddressingMode::Immediate(0x01)),
    ];
    let mut devola = Devola::new(code, None);
    devola.run().unwrap();
    assert_eq!(devola.memory.read_register(Register::Accumulator), 0x00);
    assert!(devola.memory.flag(Flag::Carry));
    assert!(devola.memory.flag(Flag::Zero));
}

#[test]
fn index_addition_carry_to_zero() {
    let code = vec![
        Instruction::Load(Register::IndexX, AddressingMode::Immediate(0xFF)),
        Instruction::Load(Register::IndexY, AddressingMode::Immediate(0xFF)),
        Instruction::AddXY(AddressingMode::Immediate(0x01)),
    ];
    let mut devola = Devola::new(code, None);
    devola.run().unwrap();
    assert_eq!(devola.memory.read_register(Register::IndexX), 0x00);
    assert_eq!(devola.memory.read_register(Register::IndexY), 0x00);
    assert!(devola.memory.flag(Flag::Carry));
    assert!(devola.memory.flag(Flag::Zero));
}

#[test]
fn compare_agreement_semantics() {
    // A = 0x81 vs x = 0x03: signs differ, both odd, A > x.
    let code = vec![
        Instruction::Load(Register::Accumulator, AddressingMode::Immediate(0x81)),
        Instruction::Compare(AddressingMode::Immediate(0x03)),
    ];
    let mut devola = Devola::new(code, None);
    devola.run().unwrap();
    assert!(!devola.memory.flag(Flag::Zero));
    assert!(!devola.memory.flag(Flag::Sign));
    assert!(devola.memory.flag(Flag::Parity));
    assert!(!devola.memory.flag(Flag::Carry));
}

#[test]
fn stack_pointer_mirrors_mmio_cells() {
    let mut devola = Devola::new(vec![], None);
    assert_eq!(devola.get_stack_pointer(), INITIAL_STACK_POINTER);
    devola.push(7);
    assert_eq!(devola.get_stack_pointer(), 0x0EFF);
    assert_eq!(devola.memory.read_mem(0x0FF0), 0x0E);
    assert_eq!(devola.memory.read_mem(0x0FF1), 0xFF);
    let value = devola.pop();
    assert_eq!(value, 7);
    assert_eq!(devola.get_stack_pointer(), INITIAL_STACK_POINTER);
    // The written cell is not required to be cleared.
    assert_eq!(devola.memory.read_mem(0x0EFF), 7);
}

#[test]
fn push_pop_leaves_register_and_stack_pointer() {
    let code = vec![
        Instruction::Load(Register::UtilityB, AddressingMode::Immediate(99)),
        Instruction::Push(Register::UtilityB),
        Instruction::Pop(Register::UtilityB),
    ];
    let mut devola = Devola::new(code, None);
    devola.run().unwrap();
    assert_eq!(devola.memory.read_register(Register::UtilityB), 99);
    assert_eq!(devola.get_stack_pointer(), INITIAL_STACK_POINTER);
}

#[test]
fn call_return_resumes_past_call() {
    // The call at index 0 targets index 2, so execution lands one past it
    // at the load; the return then resumes one past the call, at the jump,
    // which leaves the program.
    let code = vec![
        Instruction::Call(CallType::Local(2)),
        Instruction::Jump(JumpType::Unconditional, 5),
        Instruction::Nop,
        Instruction::Load(Register::UtilityB, AddressingMode::Immediate(55)),
        Instruction::Return,
        Instruction::Nop,
    ];
    let mut devola = Devola::new(code, None);
    devola.run().unwrap();
    // the subroutine ran, and the return restored the stack pointer
    assert_eq!(devola.memory.read_register(Register::UtilityB), 55);
    assert_eq!(devola.get_stack_pointer(), INITIAL_STACK_POINTER);
}

#[test]
fn store_with_immediate_destination_is_invalid() {
    let code = vec![Instruction::Store(Register::Accumulator, AddressingMode::Immediate(5))];
    let mut devola = Devola::new(code, None);
    assert_eq!(devola.run(), Err(DevolaError::InvalidArgument));
}

#[test]
fn library_call_is_unimplemented() {
    let code = vec![Instruction::Call(CallType::Library(String::from("blit")))];
    let mut devola = Devola::new(code, None);
    assert_eq!(devola.run(), Err(DevolaError::Unimplemented));
}

#[test]
fn failing_assertion_aborts_the_run() {
    let code = vec![Instruction::_Assert(AddressingMode::Immediate(1), 2)];
    let mut devola = Devola::new(code, None);
    assert_eq!(devola.run(), Err(DevolaError::AssertionFailed));
}

#[test]
fn reserved_flag_bits_stay_zero() {
    let code = vec![
        Instruction::Load(Register::Accumulator, AddressingMode::Immediate(0xFF)),
        Instruction::Add(AddressingMode::Immediate(0xFF)),
        Instruction::Compare(AddressingMode::Immediate(0xFE)),
        Instruction::Increment,
        Instruction::Decrement,
        Instruction::SubtractXY(AddressingMode::Immediate(3)),
    ];
    let mut devola = Devola::new(code, None);
    assert!(devola.memory.flags < 16);
    devola.run().unwrap();
    assert!(devola.memory.flags < 16);
}

#[test]
fn stepping_past_the_end_reports_end_code() {
    let code = vec![Instruction::Nop];
    let mut devola = Devola::new(code, None);
    assert_eq!(devola.step(), Ok(()));
    assert_eq!(devola.step(), Err(DevolaError::EndCode));
    // the machine is unchanged by the failed step
    assert_eq!(devola.step(), Err(DevolaError::EndCode));
}
