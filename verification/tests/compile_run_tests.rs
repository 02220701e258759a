use devola::instructions::{Flag, Register};
use devola::util::execute_source;

const SQUARE_SRC: &str = "    lda 0       ; i = 0
    ldb 5       ; n = 5
    ldc 0       ; square = 0
loop:           ; while true
    cmp b       ; if i == n break
    jz end_loop
    push a      ; square += n
    lda c
    add b
    ldc a
    pop a
    inc         ; i++
    jmp loop
end_loop:
";

const SQUARE_SUBROUTINES_SRC: &str = "    jmp main

; place number to square in b, square will be returned there
square:
    push a
    push c
    lda 0       ; i = 0
    ldc 0       ; square = 0
loop:           ; while true
    cmp b       ; if i == n break
    jz end_loop
    push a      ; square += n
    lda c
    add b
    ldc a
    pop a
    inc         ; i++
    jmp loop
end_loop:
    ldb c
    pop c
    pop a
    ret

main:
    ldb 13
    call square

    ldb 12
    call square

    ldb 3
    call square
";

const READ_WRITE_MEMORY_SRC: &str = "lda 10
sta #5
ldx a
ldx 0F0h
ldy 0
stx xy
";

#[test]
fn test_compile_run_from_source_squares() {
    execute_source(SQUARE_SRC.to_string()).unwrap();
}

#[test]
fn test_compile_run_from_source_squares_subroutines() {
    execute_source(SQUARE_SUBROUTINES_SRC.to_string()).unwrap();
}

#[test]
fn test_compile_run_from_source_rw() {
    execute_source(READ_WRITE_MEMORY_SRC.to_string()).unwrap();
}

#[test]
fn square_computes_twenty_five() {
    let devola = execute_source(SQUARE_SRC.to_string()).unwrap();
    assert_eq!(devola.memory.read_register(Register::UtilityC), 25);
    assert_eq!(devola.memory.read_register(Register::Accumulator), 5);
    assert_eq!(devola.memory.read_register(Register::UtilityB), 5);
    assert!(devola.memory.flag(Flag::Zero));
}

#[test]
fn subroutine_squares_preserve_registers() {
    let devola = execute_source(SQUARE_SUBROUTINES_SRC.to_string()).unwrap();
    // the last call squared 3, and every call restored A and C
    assert_eq!(devola.memory.read_register(Register::UtilityB), 9);
    assert_eq!(devola.memory.read_register(Register::Accumulator), 0);
    assert_eq!(devola.memory.read_register(Register::UtilityC), 0);
}

#[test]
fn load_store_across_addressing_modes() {
    let devola = execute_source(READ_WRITE_MEMORY_SRC.to_string()).unwrap();
    assert_eq!(devola.memory.read_register(Register::Accumulator), 10);
    assert_eq!(devola.memory.read_mem(5), 10);
    assert_eq!(devola.memory.read_register(Register::IndexX), 0xF0);
    assert_eq!(devola.memory.read_register(Register::IndexY), 0x00);
    assert_eq!(devola.memory.read_mem(0xF000), 0xF0);
}

#[test]
fn parse_failure_reports_through_execute() {
    let result = execute_source("jmp nowhere\n".to_string());
    match result {
        Err(devola::util::ExecuteError::Parse(errors)) => {
            assert_eq!(errors.len(), 1);
            assert_eq!(errors[0].error_type, devola::parser::ParseErrorType::InvalidLabel);
        }
        _ => panic!("expected a parse failure"),
    }
}
