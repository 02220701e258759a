//! Word packing helpers: 16-bit words are stored big-endian as a pair of
//! bytes whenever a pair of bytes stands for an address.

use vstd::prelude::*;
use crate::parser::{
    ParseError, spec_missing, spec_parse_errors, spec_parsed, spec_preprocess, spec_resolve_at,
};
use crate::parser::instr_model;
use crate::instructions::Instruction;
use crate::parser::InstrModel;
use crate::vm::{Devola, DevolaError, VmModel, spec_initial_state, spec_step, spec_steps};

verus! {

/// The 16-bit word formed from a most-significant and a least-significant byte.
pub open spec fn spec_word(msb: u8, lsb: u8) -> u16 {
    (msb as u16 * 256 + lsb as u16) as u16
}

/// The most-significant byte of a 16-bit word.
pub open spec fn spec_msb(word: u16) -> u8 {
    (word / 256) as u8
}

/// The least-significant byte of a 16-bit word.
pub open spec fn spec_lsb(word: u16) -> u8 {
    (word % 256) as u8
}

/// Packs a big-endian byte pair into a 16-bit word.
pub fn build_u16(msb: u8, lsb: u8) -> (r: u16)
    ensures
        r == spec_word(msb, lsb),
{
    assert(((msb as u16) << 8 | lsb as u16) == msb as u16 * 256 + lsb as u16) by (bit_vector);
    (msb as u16) << 8 | lsb as u16
}

/// Splits a 16-bit word into its big-endian byte pair.
pub fn break_u16(word: u16) -> (r: (u8, u8))
    ensures
        r.0 == spec_msb(word),
        r.1 == spec_lsb(word),
{
    assert((word >> 8) as u8 == (word / 256) as u8) by (bit_vector);
    assert((word & 0x00FF) as u8 == (word % 256) as u8) by (bit_vector);
    ((word >> 8) as u8, (word & 0x00FF) as u8)
}

/// Packing the byte pair of any 16-bit word yields the word again, and
/// splitting the packing of any byte pair yields the bytes: big-endian
/// byte order loses nothing.
pub proof fn lemma_word_roundtrip(word: u16, msb: u8, lsb: u8)
    ensures
        spec_word(spec_msb(word), spec_lsb(word)) == word,
        spec_msb(spec_word(msb, lsb)) == msb,
        spec_lsb(spec_word(msb, lsb)) == lsb,
{
}

/// Why a source program did not run to completion: it did not compile,
/// or the machine stopped with an error.
#[derive(Debug, Clone, PartialEq, Eq)]
pub enum ExecuteError {
    Parse(Vec<ParseError>),
    Runtime(DevolaError),
}

/// The resolved program a successful compile of the preprocessed,
/// parsed source yields: label resolution applied to the parsed
/// instruction models, index by index.
pub open spec fn spec_compiled_program(prog: Seq<Instruction>, parsed: Seq<InstrModel>) -> bool {
    &&& prog.len() == parsed.len()
    &&& forall|i: int|
        0 <= i < prog.len() ==> Some(instr_model(#[trigger] prog[i])) == spec_resolve_at(
            parsed,
            i,
        )
}

/// A run of a program that fails with error `e`: from the fresh machine
/// the state `m` is reached by stepping, and at `m` the run stops with
/// `e` -- either the next step reports `e`, or `e` is the step bound
/// being exhausted after `u64::MAX` steps.
pub open spec fn spec_failed_run(prog: Seq<Instruction>, e: DevolaError, m: VmModel) -> bool {
    &&& exists|n: nat| spec_steps(prog, spec_initial_state(), n) == Some(m)
    &&& (e == DevolaError::StepLimit ==> spec_steps(prog, spec_initial_state(), u64::MAX as nat)
        == Some(m))
    &&& (e != DevolaError::StepLimit ==> spec_step(prog, m) == Err::<VmModel, DevolaError>(e))
}

/// Compiles a source program, runs it with the debug trace on, and hands
/// the terminated machine back for inspection. Success is owed exactly
/// when the program compiles and its run terminates normally (the
/// program counter walking past the last instruction); a runtime error
/// result is the error that run of the compiled program failed with.
pub fn execute_source(code: String) -> (r: Result<Devola, ExecuteError>)
    ensures
        ({
            let pre = spec_preprocess(code@);
            let parsed = spec_parsed(pre);
            match r {
                Ok(d) => {
                    &&& spec_parse_errors(pre).len() == 0
                    &&& spec_missing(parsed).len() == 0
                    &&& d.wf()
                    &&& d.debug == true
                    &&& spec_compiled_program(d.code@, parsed)
                    &&& spec_step(d.code@, d@) == Err::<VmModel, DevolaError>(
                        DevolaError::EndCode,
                    )
                    &&& exists|n: nat| spec_steps(d.code@, spec_initial_state(), n) == Some(d@)
                },
                Err(ExecuteError::Parse(errs)) => {
                    &&& spec_parse_errors(pre).len() > 0 || spec_missing(parsed).len() > 0
                    &&& errs@.len() > 0
                },
                Err(ExecuteError::Runtime(e)) => {
                    &&& spec_parse_errors(pre).len() == 0
                    &&& spec_missing(parsed).len() == 0
                    &&& e != DevolaError::EndCode
                    &&& exists|prog: Seq<Instruction>, m: VmModel|
                        #![trigger spec_failed_run(prog, e, m)]
                        spec_compiled_program(prog, parsed) && spec_failed_run(prog, e, m)
                },
            }
        }),
{
    match crate::parser::compile(code) {
        Err(errors) => Err(ExecuteError::Parse(errors)),
        Ok((program, symbols)) => {
            let mut devola = Devola::new(program, Some(symbols));
            devola.enable_debug();
            match devola.run() {
                Ok(()) => Ok(devola),
                Err(error) => {
                    proof {
                        let prog = devola.code@;
                        let m = devola@;
                        let parsed = spec_parsed(spec_preprocess(code@));
                        assert(spec_compiled_program(prog, parsed));
                        let k = choose|n: nat|
                            spec_steps(prog, spec_initial_state(), n) == Some(m);
                        assert(spec_failed_run(prog, error, m));
                    }
                    Err(ExecuteError::Runtime(error))
                },
            }
        },
    }
}

} // verus!