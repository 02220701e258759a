//! Byte-block helpers over VM memory (get/clear/copy/set), and the
//! stack-argument shims that expose them to programs as host extensions:
//! every 16-bit argument occupies two stack bytes, high byte pushed first.

use vstd::prelude::*;
use crate::util::spec_word;
use crate::vm::{
    Devola, VmModel, MEMORY_SIZE, same_program, spec_pop_state, spec_pop_value,
};
use std::io::Write;

verus! {

/// Memory after clearing `size` bytes from `start`: zero inside the range,
/// untouched outside it.
pub open spec fn spec_cleared(m: Seq<u8>, start: int, size: int) -> Seq<u8> {
    Seq::new(
        m.len(),
        |i: int|
            if start <= i < start + size {
                0u8
            } else {
                m[i]
            },
    )
}

/// Memory after copying `size` bytes from `source` into `destination`:
/// the destination range holds the source range, the rest is untouched.
pub open spec fn spec_copied(m: Seq<u8>, source: int, destination: int, size: int) -> Seq<u8> {
    Seq::new(
        m.len(),
        |i: int|
            if destination <= i < destination + size {
                m[source + (i - destination)]
            } else {
                m[i]
            },
    )
}

/// Memory after writing a buffer prefix at `destination`.
pub open spec fn spec_written(m: Seq<u8>, data: Seq<u8>, destination: int, size: int) -> Seq<u8> {
    Seq::new(
        m.len(),
        |i: int|
            if destination <= i < destination + size {
                data[i - destination]
            } else {
                m[i]
            },
    )
}

/// Returns a copy of the memory range `[start, start + size)`. The
/// machine itself is untouched (the `&mut` borrow matches the other
/// block helpers; nothing is written through it).
pub fn memgetn(devola: &mut Devola, start: u16, size: u16) -> (r: Vec<u8>)
    requires
        old(devola).wf(),
        start + size <= MEMORY_SIZE,
    ensures
        *final(devola) == *old(devola),
        final(devola).wf(),
        final(devola)@ == old(devola)@,
        same_program(old(devola), final(devola)),
        final(devola).call_stack == old(devola).call_stack,
        r@ == old(devola)@.mem.subrange(start as int, start as int + size as int),
{
    let mut out: Vec<u8> = Vec::new();
    let mut i: usize = 0;
    while i < size as usize
        invariant
            devola.wf(),
            devola == old(devola),
            start + size <= MEMORY_SIZE,
            i <= size,
            out@ =~= devola@.mem.subrange(start as int, start as int + i as int),
        decreases size as int - i as int,
    {
        out.push(devola.memory.read_mem(start + i as u16));
        i = i + 1;
    }
    proof {
        assert(out@ =~= old(devola)@.mem.subrange(start as int, start as int + size as int));
    }
    out
}

/// Sets all bytes in the range to 0.
pub fn memclear(devola: &mut Devola, start: u16, size: u16)
    requires
        old(devola).wf(),
        start + size <= MEMORY_SIZE,
    ensures
        final(devola).wf(),
        final(devola)@ =~= (VmModel {
            mem: spec_cleared(old(devola)@.mem, start as int, size as int),
            ..old(devola)@
        }),
        same_program(old(devola), final(devola)),
        final(devola).call_stack == old(devola).call_stack,
{
    let mut i: usize = 0;
    while i < size as usize
        invariant
            devola.wf(),
            start + size <= MEMORY_SIZE,
            i <= size,
            same_program(old(devola), devola),
            devola.call_stack == old(devola).call_stack,
            devola@ =~= (VmModel {
                mem: spec_cleared(old(devola)@.mem, start as int, i as int),
                ..old(devola)@
            }),
        decreases size as int - i as int,
    {
        devola.memory.write_mem(start + i as u16, 0);
        proof {
            assert(devola@.mem =~= spec_cleared(old(devola)@.mem, start as int, i + 1));
        }
        i = i + 1;
    }
}

/// Copies `size` bytes from the source range to the destination range.
/// The two ranges may not overlap.
pub fn memcpy(devola: &mut Devola, source: u16, destination: u16, size: u16)
    requires
        old(devola).wf(),
        source + size <= MEMORY_SIZE,
        destination + size <= MEMORY_SIZE,
        source + size <= destination || destination + size <= source,
    ensures
        final(devola).wf(),
        final(devola)@ =~= (VmModel {
            mem: spec_copied(old(devola)@.mem, source as int, destination as int, size as int),
            ..old(devola)@
        }),
        same_program(old(devola), final(devola)),
        final(devola).call_stack == old(devola).call_stack,
{
    let mut i: usize = 0;
    while i < size as usize
        invariant
            devola.wf(),
            source + size <= MEMORY_SIZE,
            destination + size <= MEMORY_SIZE,
            source + size <= destination || destination + size <= source,
            i <= size,
            same_program(old(devola), devola),
            devola.call_stack == old(devola).call_stack,
            devola@ =~= (VmModel {
                mem: spec_copied(
                    old(devola)@.mem,
                    source as int,
                    destination as int,
                    i as int,
                ),
                ..old(devola)@
            }),
        decreases size as int - i as int,
    {
        let value = devola.memory.read_mem(source + i as u16);
        devola.memory.write_mem(destination + i as u16, value);
        proof {
            assert(devola@.mem =~= spec_copied(
                old(devola)@.mem,
                source as int,
                destination as int,
                i + 1,
            ));
        }
        i = i + 1;
    }
}

/// Copies `size` bytes from an external buffer to the destination range.
pub fn memset(devola: &mut Devola, source: &[u8], destination: u16, size: u16)
    requires
        old(devola).wf(),
        destination + size <= MEMORY_SIZE,
        size <= source@.len(),
    ensures
        final(devola).wf(),
        final(devola)@ =~= (VmModel {
            mem: spec_written(old(devola)@.mem, source@, destination as int, size as int),
            ..old(devola)@
        }),
        same_program(old(devola), final(devola)),
        final(devola).call_stack == old(devola).call_stack,
{
    let mut i: usize = 0;
    while i < size as usize
        invariant
            devola.wf(),
            destination + size <= MEMORY_SIZE,
            size <= source@.len(),
            i <= size,
            same_program(old(devola), devola),
            devola.call_stack == old(devola).call_stack,
            devola@ =~= (VmModel {
                mem: spec_written(old(devola)@.mem, source@, destination as int, i as int),
                ..old(devola)@
            }),
        decreases size as int - i as int,
    {
        devola.memory.write_mem(destination + i as u16, source[i]);
        proof {
            assert(devola@.mem =~= spec_written(
                old(devola)@.mem,
                source@,
                destination as int,
                i + 1,
            ));
        }
        i = i + 1;
    }
}

/// The four bytes on top of the stack, in pop order, and the state after
/// popping them.
pub open spec fn spec_pop4(s: VmModel) -> (VmModel, u8, u8, u8, u8) {
    let v0 = spec_pop_value(s);
    let s1 = spec_pop_state(s);
    let v1 = spec_pop_value(s1);
    let s2 = spec_pop_state(s1);
    let v2 = spec_pop_value(s2);
    let s3 = spec_pop_state(s2);
    let v3 = spec_pop_value(s3);
    let s4 = spec_pop_state(s3);
    (s4, v0, v1, v2, v3)
}

/// `memclear(start_hi, start_lo, size_hi, size_lo)`
///
/// Accepts arguments from the stack. Sets the specified range of `size`
/// bytes starting at `start` in memory to 0.
pub fn i_memclear(devola: &mut Devola)
    requires
        old(devola).wf(),
        ({
            let (s4, size_lo, size_hi, start_lo, start_hi) = spec_pop4(old(devola)@);
            spec_word(start_hi, start_lo) + spec_word(size_hi, size_lo) <= MEMORY_SIZE
        }),
    ensures
        final(devola).wf(),
        same_program(old(devola), final(devola)),
        ({
            let (s4, size_lo, size_hi, start_lo, start_hi) = spec_pop4(old(devola)@);
            final(devola)@ =~= (VmModel {
                mem: spec_cleared(
                    s4.mem,
                    spec_word(start_hi, start_lo) as int,
                    spec_word(size_hi, size_lo) as int,
                ),
                ..s4
            })
        }),
{
    let size_lo = devola.pop();
    let size_hi = devola.pop();
    let start_lo = devola.pop();
    let start_hi = devola.pop();
    let size = crate::util::build_u16(size_hi, size_lo);
    let start = crate::util::build_u16(start_hi, start_lo);
    memclear(devola, start, size);
}

/// The six bytes on top of the stack, in pop order, and the state after
/// popping them.
pub open spec fn spec_pop6(s: VmModel) -> (VmModel, u8, u8, u8, u8, u8, u8) {
    let (s4, v0, v1, v2, v3) = spec_pop4(s);
    let v4 = spec_pop_value(s4);
    let s5 = spec_pop_state(s4);
    let v5 = spec_pop_value(s5);
    let s6 = spec_pop_state(s5);
    (s6, v0, v1, v2, v3, v4, v5)
}

/// `memcpy(source_hi, source_lo, dest_hi, dest_lo, size_hi, size_lo)`
///
/// Accepts arguments from the stack. Copies `size` bytes starting from
/// `source` to the range starting at `dest`. The two ranges may not
/// overlap.
pub fn i_memcpy(devola: &mut Devola)
    requires
        old(devola).wf(),
        ({
            let (s6, size_lo, size_hi, dest_lo, dest_hi, source_lo, source_hi) = spec_pop6(
                old(devola)@,
            );
            let size = spec_word(size_hi, size_lo);
            let dest = spec_word(dest_hi, dest_lo);
            let source = spec_word(source_hi, source_lo);
            &&& source + size <= MEMORY_SIZE
            &&& dest + size <= MEMORY_SIZE
            &&& (source + size <= dest || dest + size <= source)
        }),
    ensures
        final(devola).wf(),
        same_program(old(devola), final(devola)),
        ({
            let (s6, size_lo, size_hi, dest_lo, dest_hi, source_lo, source_hi) = spec_pop6(
                old(devola)@,
            );
            final(devola)@ =~= (VmModel {
                mem: spec_copied(
                    s6.mem,
                    spec_word(source_hi, source_lo) as int,
                    spec_word(dest_hi, dest_lo) as int,
                    spec_word(size_hi, size_lo) as int,
                ),
                ..s6
            })
        }),
{
    let size_lo = devola.pop();
    let size_hi = devola.pop();
    let dest_lo = devola.pop();
    let dest_hi = devola.pop();
    let source_lo = devola.pop();
    let source_hi = devola.pop();
    let size = crate::util::build_u16(size_hi, size_lo);
    let destination = crate::util::build_u16(dest_hi, dest_lo);
    let source = crate::util::build_u16(source_hi, source_lo);
    memcpy(devola, source, destination, size);
}


/// The state after popping `n` bytes.
pub open spec fn spec_pop_n(s: VmModel, n: int) -> VmModel
    decreases n,
{
    if n <= 0 {
        s
    } else {
        spec_pop_n(spec_pop_state(s), n - 1)
    }
}

/// Popping once more after `k` pops is one pop of the `k`-pop state.
proof fn lemma_pop_n_snoc(s: VmModel, k: int)
    requires
        0 <= k,
    ensures
        spec_pop_n(s, k + 1) == spec_pop_state(spec_pop_n(s, k)),
    decreases k,
{
    if k == 0 {
        assert(spec_pop_n(s, 1) == spec_pop_n(spec_pop_state(s), 0));
        assert(spec_pop_n(spec_pop_state(s), 0) == spec_pop_state(s));
    } else {
        lemma_pop_n_snoc(spec_pop_state(s), k - 1);
        assert(spec_pop_n(s, k + 1) == spec_pop_n(spec_pop_state(s), k));
        assert(spec_pop_n(s, k) == spec_pop_n(spec_pop_state(s), k - 1));
    }
}

/// Relies on writeln to standard output: prints the argument bytes a
/// program handed to the debug-print extension.
#[verifier::external_body]
fn debug_print_bytes(values: &Vec<u8>) {
    let _ = writeln!(std::io::stdout(), "{:?}", values);
}

/// `debug_println(b1, ..., bn, argc)`
///
/// Accepts arguments from the stack: an argument count on top, then that
/// many bytes below it. Pops them all and prints the bytes in the order
/// they were pushed. Only the stack pointer's MMIO cells change.
pub fn i_debug_println(devola: &mut Devola)
    requires
        old(devola).wf(),
    ensures
        final(devola).wf(),
        same_program(old(devola), final(devola)),
        final(devola).call_stack == old(devola).call_stack,
        final(devola)@ == spec_pop_n(old(devola)@, 1 + spec_pop_value(old(devola)@) as int),
{
    let argc = devola.pop();
    proof {
        assert(spec_pop_n(old(devola)@, 1) == spec_pop_n(spec_pop_state(old(devola)@), 0));
        assert(devola@ == spec_pop_n(old(devola)@, 1));
    }
    let mut argv: Vec<u8> = Vec::new();
    let mut i: usize = 0;
    while i < argc as usize
        invariant
            devola.wf(),
            same_program(old(devola), devola),
            devola.call_stack == old(devola).call_stack,
            i <= argc,
            argv@.len() == i,
            devola@ == spec_pop_n(old(devola)@, 1 + i as int),
        decreases argc as int - i as int,
    {
        proof {
            lemma_pop_n_snoc(old(devola)@, 1 + i as int);
        }
        argv.push(devola.pop());
        i = i + 1;
    }
    let mut ordered: Vec<u8> = Vec::new();
    let mut j: usize = argv.len();
    while j > 0
        invariant
            j <= argv@.len(),
            ordered@.len() == argv@.len() - j,
        decreases j,
    {
        ordered.push(argv[j - 1]);
        j = j - 1;
    }
    debug_print_bytes(&ordered);
}

} // verus!
