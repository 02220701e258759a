use devola::instructions::{AddressingMode, Instruction, JumpType, Register};
use devola::parser::{
    compile, preprocess, process_labels, to_addressing_mode, ParseError, ParseErrorType,
};
use devola::vm::Devola;

const SQUARE_SRC: &str = "    lda 0       ; i = 0
    ldb 5       ; n = 5
    ldc 0       ; square = 0
loop:           ; while true
    cmp b       ; if i == n break
    jz end_loop
    push a      ; square += n
    lda c
    add b
    ldc a
    pop a
    inc         ; i++
    jmp loop
end_loop:
";

const LOAD_STORE_SRC: &str = "lda 10
sta #5
ldx a
ldx 0F0h
ldy 0
stx xy
";

#[test]
fn test_preprocess() {
    println!("{:?}", preprocess(SQUARE_SRC));
}

#[test]
fn test_compile_loadstore() {
    println!("{:?}", compile(LOAD_STORE_SRC.to_string()));
}

#[test]
fn test_compile_squares() {
    println!("{:?}", compile(SQUARE_SRC.to_string()));
}

#[test]
fn test_addressing_parse() {
    assert_eq!(to_addressing_mode("x"), Ok(AddressingMode::Register(Register::IndexX)));
    assert_eq!(to_addressing_mode("X"), Ok(AddressingMode::Register(Register::IndexX)));
    assert_eq!(to_addressing_mode("y"), Ok(AddressingMode::Register(Register::IndexY)));
    assert_eq!(to_addressing_mode("Y"), Ok(AddressingMode::Register(Register::IndexY)));
    assert_eq!(to_addressing_mode("a"), Ok(AddressingMode::Register(Register::Accumulator)));
    assert_eq!(to_addressing_mode("A"), Ok(AddressingMode::Register(Register::Accumulator)));
    assert_eq!(to_addressing_mode("b"), Ok(AddressingMode::Register(Register::UtilityB)));
    assert_eq!(to_addressing_mode("B"), Ok(AddressingMode::Register(Register::UtilityB)));
    assert_eq!(to_addressing_mode("c"), Ok(AddressingMode::Register(Register::UtilityC)));
    assert_eq!(to_addressing_mode("C"), Ok(AddressingMode::Register(Register::UtilityC)));

    assert_eq!(to_addressing_mode("xy"), Ok(AddressingMode::Index));
    assert_eq!(to_addressing_mode("xY"), Ok(AddressingMode::Index));
    assert_eq!(to_addressing_mode("Xy"), Ok(AddressingMode::Index));
    assert_eq!(to_addressing_mode("XY"), Ok(AddressingMode::Index));

    assert_eq!(to_addressing_mode("8"), Ok(AddressingMode::Immediate(8)));
    assert_eq!(to_addressing_mode("1000b"), Ok(AddressingMode::Immediate(0b1000)));
    assert_eq!(to_addressing_mode("10h"), Ok(AddressingMode::Immediate(0x10)));
    assert_eq!(to_addressing_mode("FFh"), Ok(AddressingMode::Immediate(0xFF)));
    assert_eq!(to_addressing_mode("#10h"), Ok(AddressingMode::Indirect(0x10)));
    assert_eq!(to_addressing_mode("#8"), Ok(AddressingMode::Indirect(8)));
    assert_eq!(to_addressing_mode("#FFFFh"), Ok(AddressingMode::Indirect(0xFFFF)));

    // Invalid numbers
    assert_eq!(
        to_addressing_mode("-"),
        Err(ParseError {
            error_type: ParseErrorType::InvalidNumericLiteral,
            location: 0,
            info: Some(String::from("-")),
        })
    );
    assert_eq!(
        to_addressing_mode("-100h"),
        Err(ParseError {
            error_type: ParseErrorType::InvalidNumericLiteral,
            location: 0,
            info: Some(String::from("-100H")),
        })
    );
    // Invalid base
    assert_eq!(
        to_addressing_mode("2b"),
        Err(ParseError {
            error_type: ParseErrorType::InvalidNumericLiteral,
            location: 0,
            info: Some(String::from("2B")),
        })
    );
    // Invalid range
    assert_eq!(
        to_addressing_mode("FFFFh"),
        Err(ParseError {
            error_type: ParseErrorType::InvalidNumericLiteral,
            location: 0,
            info: Some(0xFFFFu16.to_string()),
        })
    );
}

#[test]
fn test_processing() {
    let code: Vec<Instruction> = vec![
        Instruction::Load(Register::Accumulator, AddressingMode::Immediate(10)),
        Instruction::_LabeledJump(JumpType::Unconditional, String::from("label")),
        Instruction::_Assert(AddressingMode::Immediate(1), 0),
        Instruction::_Label(String::from("label")),
        Instruction::_Assert(AddressingMode::Register(Register::Accumulator), 10),
    ];
    let code = match process_labels(code) {
        Ok((processed, _)) => processed,
        Err(missing_labels) => {
            println!("Encountered the following missing labels:");
            for (label, line) in missing_labels {
                println!("{} (line {})", label, line + 1);
            }
            panic!();
        }
    };

    let mut devola = Devola::new(code, None);
    if let Err(_) = devola.run() {
        panic!();
    }
}

#[test]
fn test_missing_labels() {
    let code: Vec<Instruction> = vec![
        Instruction::_LabeledJump(JumpType::Unconditional, String::from("label")),
        Instruction::_LabeledJump(JumpType::Unconditional, String::from("label2")),
        Instruction::_Label(String::from("label2")),
    ];
    match process_labels(code) {
        Ok(_) => {
            panic!("Did not catch missing labels");
        }
        Err(missing_labels) => {
            assert_eq!(missing_labels.len(), 1);
        }
    };
}

#[test]
fn label_resolution_forward_jump() {
    let source = "    jmp end
    nop
    nop
end:
";
    let (program, symbols) = compile(source.to_string()).unwrap();
    assert_eq!(program[0], Instruction::Jump(JumpType::Unconditional, 3));
    assert_eq!(program[3], Instruction::Nop);
    assert_eq!(symbols.get(&3), Some(&String::from("end")));
}

#[test]
fn missing_label_diagnostic() {
    let errors = compile("jmp nowhere\n".to_string()).unwrap_err();
    assert_eq!(errors.len(), 1);
    assert_eq!(errors[0].error_type, ParseErrorType::InvalidLabel);
    assert_eq!(errors[0].location, 1);
    assert_eq!(errors[0].info, Some(String::from("nowhere")));
}

#[test]
fn invalid_instruction_diagnostic() {
    let errors = compile("   bogus line   ; what\n".to_string()).unwrap_err();
    assert_eq!(errors.len(), 1);
    assert_eq!(errors[0].error_type, ParseErrorType::InvalidInstruction);
    assert_eq!(errors[0].location, 1);
    assert_eq!(errors[0].info, Some(String::from("bogus line")));
}

#[test]
fn invalid_register_and_flag() {
    let reg_err = devola::parser::register_from_char('d').unwrap_err();
    assert_eq!(reg_err.error_type, ParseErrorType::InvalidRegister);
    assert_eq!(reg_err.info, Some(String::from("d")));
    let flag_err = devola::parser::flag_from_char('x').unwrap_err();
    assert_eq!(flag_err.error_type, ParseErrorType::InvalidFlag);
    assert_eq!(flag_err.info, Some(String::from("x")));
    assert_eq!(
        devola::parser::register_from_char('b').unwrap(),
        Register::UtilityB
    );
    assert_eq!(devola::parser::flag_from_char('z').unwrap(), devola::instructions::Flag::Zero);
}

#[test]
fn errors_are_collected_not_fail_fast() {
    let errors = compile("jmp 5\nadd zz\njmp nowhere\n".to_string()).unwrap_err();
    assert_eq!(errors.len(), 2);
    assert_eq!(errors[0].error_type, ParseErrorType::InvalidInstruction);
    assert_eq!(errors[0].location, 1);
    assert_eq!(errors[1].error_type, ParseErrorType::InvalidNumericLiteral);
    assert_eq!(errors[1].location, 2);
}

#[test]
fn preprocess_cleans_statements() {
    let cleaned = preprocess("   lda   10 ; load\n\n\t cmp\tb  \njunk;comment\n;only\n");
    assert_eq!(cleaned.len(), 3);
    assert_eq!(cleaned[0], (1, String::from("lda 10")));
    assert_eq!(cleaned[1], (3, String::from("cmp b")));
    assert_eq!(cleaned[2], (4, String::from("junk")));
}
