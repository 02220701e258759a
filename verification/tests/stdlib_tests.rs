use devola::stdlib::{i_debug_println, i_memclear, i_memcpy, memclear, memcpy, memgetn, memset};
use devola::util::execute_source;
use devola::vm::{Devola, INITIAL_STACK_POINTER};

/// Loads the identity pattern into `mem[0..256]`: stores A at `X:Y`,
/// increments, and loops until the accumulator wraps.
const MEMGETN_SRC: &str = "    lda 0
    ldx 0
    ldy 0
loop:
    sta xy
    inc
    jz done
    ldy a
    jmp loop
done:
    nop
";

#[test]
fn test_memgetn_clear() {
    let mut devola = execute_source(MEMGETN_SRC.to_string()).unwrap();
    let range = memgetn(&mut devola, 0, 256);

    assert!((0..=255u8).all(|n| n == range[n as usize]));

    memclear(&mut devola, 0, 256);
    let range = memgetn(&mut devola, 0, 256);
    assert!((0..=255u8).all(|n| range[n as usize] == 0));
}

#[test]
fn test_memset() {
    let mut devola = execute_source(MEMGETN_SRC.to_string()).unwrap();
    let buffer: Vec<u8> = vec![3, 14, 1, 5];

    memset(&mut devola, buffer.as_slice(), 0, 4);
    let range = memgetn(&mut devola, 0, 4);
    assert!(buffer.iter().enumerate().all(|(i, n)| range[i] == *n));
}

#[test]
fn memcpy_moves_a_block() {
    let mut devola = Devola::new(vec![], None);
    let buffer: Vec<u8> = vec![9, 8, 7, 6];
    memset(&mut devola, buffer.as_slice(), 0x0200, 4);
    memcpy(&mut devola, 0x0200, 0x0300, 4);
    let source = memgetn(&mut devola, 0x0200, 4);
    let dest = memgetn(&mut devola, 0x0300, 4);
    assert_eq!(source, vec![9, 8, 7, 6]);
    assert_eq!(dest, vec![9, 8, 7, 6]);
}

#[test]
fn stack_shim_memclear() {
    let mut devola = Devola::new(vec![], None);
    let buffer: Vec<u8> = vec![1, 2, 3, 4, 5, 6, 7, 8];
    memset(&mut devola, buffer.as_slice(), 0x0200, 8);
    // memclear(start = 0x0202, size = 4): each word high byte first
    devola.push(0x02); // start hi
    devola.push(0x02); // start lo
    devola.push(0x00); // size hi
    devola.push(0x04); // size lo
    i_memclear(&mut devola);
    assert_eq!(devola.get_stack_pointer(), INITIAL_STACK_POINTER);
    let range = memgetn(&mut devola, 0x0200, 8);
    assert_eq!(range, vec![1, 2, 0, 0, 0, 0, 7, 8]);
}

#[test]
fn stack_shim_memcpy() {
    let mut devola = Devola::new(vec![], None);
    let buffer: Vec<u8> = vec![11, 22, 33];
    memset(&mut devola, buffer.as_slice(), 0x0400, 3);
    // memcpy(source = 0x0400, dest = 0x0500, size = 3)
    devola.push(0x04); // source hi
    devola.push(0x00); // source lo
    devola.push(0x05); // dest hi
    devola.push(0x00); // dest lo
    devola.push(0x00); // size hi
    devola.push(0x03); // size lo
    i_memcpy(&mut devola);
    assert_eq!(devola.get_stack_pointer(), INITIAL_STACK_POINTER);
    let dest = memgetn(&mut devola, 0x0500, 3);
    assert_eq!(dest, vec![11, 22, 33]);
}

#[test]
fn stack_shim_debug_println() {
    let mut devola = Devola::new(vec![], None);
    // debug_println(3, 14, 1) -- three bytes, then the count on top
    devola.push(3);
    devola.push(14);
    devola.push(1);
    devola.push(3); // argc
    i_debug_println(&mut devola);
    assert_eq!(devola.get_stack_pointer(), INITIAL_STACK_POINTER);
}
