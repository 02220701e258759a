//! The assembler front-end: lexical preprocessing, numeric literals,
//! addressing-mode and mnemonic parsing, and the label-resolution pass.
//!
//! A program is text, one statement per line; `;` introduces a comment.
//! Parsing never stops at the first error: every error of a compile is
//! collected and returned together.

use vstd::prelude::*;
use crate::instructions::{AddressingMode, CallType, Flag, Instruction, JumpType, Register};
use crate::vm::code_targets_in_range;
use std::collections::HashMap;

verus! {

/// The kinds of error the assembler reports.
#[derive(Debug, Copy, Clone, PartialEq, Eq, Structural)]
pub enum ParseErrorType {
    InvalidRegister,
    InvalidFlag,
    InvalidNumericLiteral,
    InvalidInstruction,
    InvalidLabel,
}

/// One assembler error: its kind, the 1-based source line it came from
/// (0 when the erring helper was called outside a compile), and the
/// offending text.
#[derive(Debug, Clone, PartialEq, Eq)]
pub struct ParseError {
    pub error_type: ParseErrorType,
    pub location: usize,
    pub info: Option<String>,
}

/// The symbol table a compile produces: program counter to label name.
pub type SymbolTable = HashMap<usize, String>;

/// Horizontal whitespace (and the carriage return of CRLF line endings).
pub open spec fn spec_is_space(c: char) -> bool {
    c == ' ' || c == '\t' || c == '\r'
}

/// ASCII uppercasing of one character.
pub open spec fn spec_upper(c: char) -> char {
    if 'a' <= c <= 'z' {
        ((c as u8) - 32) as char
    } else {
        c
    }
}

/// ASCII uppercasing of a character sequence.
pub open spec fn spec_upper_seq(s: Seq<char>) -> Seq<char> {
    s.map_values(|c: char| spec_upper(c))
}

/// The whitespace-separated tokens of the text, a comment (everything
/// from the first `;`) excluded; `cur` is the token being accumulated.
pub open spec fn spec_tokens_acc(s: Seq<char>, cur: Seq<char>) -> Seq<Seq<char>>
    decreases s.len(),
{
    if s.len() == 0 || s[0] == ';' {
        if cur.len() == 0 {
            Seq::empty()
        } else {
            seq![cur]
        }
    } else if spec_is_space(s[0]) {
        if cur.len() == 0 {
            spec_tokens_acc(s.drop_first(), Seq::empty())
        } else {
            seq![cur] + spec_tokens_acc(s.drop_first(), Seq::empty())
        }
    } else {
        spec_tokens_acc(s.drop_first(), cur.push(s[0]))
    }
}

/// The tokens of one source line: runs of non-whitespace characters, the
/// comment stripped.
pub open spec fn spec_tokens(s: Seq<char>) -> Seq<Seq<char>> {
    spec_tokens_acc(s, Seq::empty())
}

/// The characters of a string, as a vector.
fn chars_vec(s: &str) -> (r: Vec<char>)
    ensures
        r@ == s@,
{
    let len = s.unicode_len();
    let mut out: Vec<char> = Vec::new();
    let mut i: usize = 0;
    while i < len
        invariant
            len == s@.len(),
            i <= len,
            out@ =~= s@.subrange(0, i as int),
        decreases len - i,
    {
        out.push(s.get_char(i));
        i = i + 1;
    }
    proof {
        assert(out@ =~= s@);
    }
    out
}

/// Relies on collecting an iterator of chars into a String: the result
/// holds exactly the given characters.
#[verifier::external_body]
fn chars_to_string(chars: &Vec<char>) -> (r: String)
    ensures
        r@ == chars@,
{
    chars.iter().collect()
}

/// Splits a line into its tokens.
fn tokenize(line: &Vec<char>) -> (r: Vec<Vec<char>>)
    ensures
        r.deep_view() =~~= spec_tokens(line@),
{
    let mut out: Vec<Vec<char>> = Vec::new();
    let mut cur: Vec<char> = Vec::new();
    let mut i: usize = 0;
    let mut done = false;
    proof {
        assert(line@.subrange(0, line@.len() as int) =~= line@);
        assert(out.deep_view() =~~= Seq::<Seq<char>>::empty());
    }
    while i < line.len() && !done
        invariant
            i <= line@.len(),
            done ==> i < line@.len() && line@[i as int] == ';',
            spec_tokens(line@) =~~= out.deep_view() + spec_tokens_acc(
                line@.subrange(i as int, line@.len() as int),
                cur@,
            ),
        decreases line@.len() - i + (if done {
            0int
        } else {
            1int
        }),
    {
        let ghost rest = line@.subrange(i as int, line@.len() as int);
        proof {
            assert(rest[0] == line@[i as int]);
            assert(rest.drop_first() =~= line@.subrange(i + 1, line@.len() as int));
        }
        let c = line[i];
        if c == ';' {
            done = true;
        } else {
            if c == ' ' || c == '\t' || c == '\r' {
                if cur.len() > 0 {
                    let ghost out0 = out.deep_view();
                    let ghost cur0 = cur@;
                    out.push(cur);
                    proof {
                        assert(out.deep_view() =~~= out0 + seq![cur0]);
                        let rest2 = spec_tokens_acc(rest.drop_first(), Seq::<char>::empty());
                        assert(spec_tokens_acc(rest, cur0) =~~= seq![cur0] + rest2);
                        assert((out0 + seq![cur0]) + rest2 =~~= out0 + (seq![cur0] + rest2));
                    }
                    cur = Vec::new();
                    proof {
                        assert(cur@ =~= Seq::<char>::empty());
                    }
                } else {
                    proof {
                        assert(cur@ =~= Seq::<char>::empty());
                    }
                }
            } else {
                let ghost cur0 = cur@;
                cur.push(c);
                proof {
                    assert(spec_tokens_acc(rest, cur0) == spec_tokens_acc(
                        rest.drop_first(),
                        cur0.push(c),
                    ));
                }
            }
            i = i + 1;
            proof {
                assert(rest.drop_first() == line@.subrange(i as int, line@.len() as int));
                assert(spec_tokens(line@) =~~= out.deep_view() + spec_tokens_acc(
                    line@.subrange(i as int, line@.len() as int),
                    cur@,
                ));
            }
        }
    }
    proof {
        if !done {
            assert(line@.subrange(i as int, line@.len() as int) =~= Seq::<char>::empty());
        } else {
            let rest = line@.subrange(i as int, line@.len() as int);
            assert(rest[0] == ';');
        }
    }
    if cur.len() > 0 {
        let ghost out0 = out.deep_view();
        let ghost cur0 = cur@;
        out.push(cur);
        proof {
            assert(out.deep_view() =~~= out0 + seq![cur0]);
        }
    }
    out
}

/// The lines of the text, split on `\n`; `cur` is the line being
/// accumulated. A trailing newline yields a final empty line, which the
/// preprocessor drops anyway.
pub open spec fn spec_split_acc(s: Seq<char>, cur: Seq<char>) -> Seq<Seq<char>>
    decreases s.len(),
{
    if s.len() == 0 {
        seq![cur]
    } else if s[0] == '\n' {
        seq![cur] + spec_split_acc(s.drop_first(), Seq::empty())
    } else {
        spec_split_acc(s.drop_first(), cur.push(s[0]))
    }
}

/// The lines of the text.
pub open spec fn spec_lines(s: Seq<char>) -> Seq<Seq<char>> {
    spec_split_acc(s, Seq::empty())
}

/// The preprocessed program: each line that still holds a token after
/// comment stripping, paired with its 1-based line number. The kept text
/// is the cleaned statement: the comment removed, whitespace runs
/// collapsed to one space, both ends trimmed -- which is the line's
/// tokens joined back with single spaces.
pub open spec fn spec_clean(lines: Seq<Seq<char>>, lineno: int) -> Seq<(int, Seq<char>)>
    decreases lines.len(),
{
    if lines.len() == 0 {
        Seq::empty()
    } else {
        let rest = spec_clean(lines.drop_first(), lineno + 1);
        if spec_tokens(lines[0]).len() == 0 {
            rest
        } else {
            seq![(lineno, spec_join(spec_tokens(lines[0])))] + rest
        }
    }
}

/// The preprocessed program of a source text.
pub open spec fn spec_preprocess(text: Seq<char>) -> Seq<(int, Seq<char>)> {
    spec_clean(spec_lines(text), 1)
}

/// Splits the text into lines on `\n`.
fn split_lines(text: &str) -> (r: Vec<String>)
    ensures
        r.deep_view() =~~= spec_lines(text@),
{
    let len = text.unicode_len();
    let mut out: Vec<String> = Vec::new();
    let mut line_start: usize = 0;
    let mut i: usize = 0;
    proof {
        assert(text@.subrange(0, text@.len() as int) =~= text@);
        assert(text@.subrange(0, 0) =~= Seq::<char>::empty());
        assert(out.deep_view() =~~= Seq::<Seq<char>>::empty());
    }
    while i < len
        invariant
            len == text@.len(),
            line_start <= i <= len,
            spec_lines(text@) =~~= out.deep_view() + spec_split_acc(
                text@.subrange(i as int, text@.len() as int),
                text@.subrange(line_start as int, i as int),
            ),
        decreases len - i,
    {
        let ghost rest = text@.subrange(i as int, text@.len() as int);
        proof {
            assert(rest[0] == text@[i as int]);
            assert(rest.drop_first() =~= text@.subrange(i + 1, text@.len() as int));
        }
        let c = text.get_char(i);
        if c == '\n' {
            let line = text.substring_char(line_start, i).to_owned();
            let ghost out0 = out.deep_view();
            let ghost cur0 = text@.subrange(line_start as int, i as int);
            out.push(line);
            proof {
                assert(out.deep_view() =~~= out0 + seq![cur0]);
                let rest2 = spec_split_acc(rest.drop_first(), Seq::<char>::empty());
                assert(spec_split_acc(rest, cur0) =~~= seq![cur0] + rest2);
                assert((out0 + seq![cur0]) + rest2 =~~= out0 + (seq![cur0] + rest2));
                assert(text@.subrange(i + 1, i + 1) =~= Seq::<char>::empty());
            }
            line_start = i + 1;
        } else {
            proof {
                let cur0 = text@.subrange(line_start as int, i as int);
                assert(cur0.push(c) =~= text@.subrange(line_start as int, i + 1));
            }
        }
        i = i + 1;
    }
    let line = text.substring_char(line_start, len).to_owned();
    let ghost out0 = out.deep_view();
    let ghost cur0 = text@.subrange(line_start as int, len as int);
    out.push(line);
    proof {
        assert(text@.subrange(i as int, text@.len() as int) =~= Seq::<char>::empty());
        assert(out.deep_view() =~~= out0 + seq![cur0]);
    }
    out
}

/// Lexical preprocessing: for each line, the comment (everything from
/// the first `;`) is removed, whitespace runs are collapsed to one space
/// and both ends are trimmed; lines left empty are dropped, and each kept
/// statement is paired with its original 1-based line number.
pub fn preprocess(code: &str) -> (r: Vec<(usize, String)>)
    ensures
        r@.len() == spec_preprocess(code@).len(),
        forall|k: int|
            0 <= k < r@.len() ==> (#[trigger] r@[k]).0 as int == spec_preprocess(code@)[k].0
                && r@[k].1@ == spec_preprocess(code@)[k].1,
{
    let lines = split_lines(code);
    let ghost lv = lines.deep_view();
    let mut out: Vec<(usize, String)> = Vec::new();
    let mut k: usize = 0;
    proof {
        assert(lv.skip(0) =~~= lv);
    }
    while k < lines.len()
        invariant
            lv =~~= lines.deep_view(),
            lines@.len() == lv.len(),
            k <= lv.len(),
            forall|j: int| 0 <= j < lv.len() ==> (#[trigger] lines@[j])@ == lv[j],
            spec_preprocess(code@) =~~= spec_clean(lv, 1),
            out@.len() + spec_clean(lv.skip(k as int), k + 1).len() == spec_clean(lv, 1).len(),
            forall|j: int|
                0 <= j < out@.len() ==> (#[trigger] out@[j]).0 as int == spec_clean(lv, 1)[j].0
                    && out@[j].1@ == spec_clean(lv, 1)[j].1,
            spec_clean(lv, 1) =~~= out@.map_values(
                |p: (usize, String)| (p.0 as int, p.1@),
            ) + spec_clean(lv.skip(k as int), k + 1),
        decreases lv.len() - k,
    {
        let ghost restl = lv.skip(k as int);
        proof {
            assert(restl[0] == lv[k as int]);
            assert(restl.drop_first() =~~= lv.skip(k + 1));
        }
        let line_chars = chars_vec(lines[k].as_str());
        let tokens = tokenize(&line_chars);
        if tokens.len() > 0 {
            let ghost out0 = out@;
            let cleaned = join_tokens(&tokens);
            let ghost cleaned_s = spec_join(spec_tokens(lv[k as int]));
            out.push((k + 1, cleaned));
            proof {
                assert(out@.map_values(|p: (usize, String)| (p.0 as int, p.1@)) =~~= out0.map_values(
                    |p: (usize, String)| (p.0 as int, p.1@),
                ) + seq![((k + 1) as int, cleaned_s)]);
                let rest2 = spec_clean(lv.skip(k + 1), k + 2);
                assert(spec_clean(restl, k + 1) =~~= seq![((k + 1) as int, cleaned_s)]
                    + rest2);
            }
        } else {
            proof {
                assert(spec_clean(restl, k + 1) =~~= spec_clean(lv.skip(k + 1), k + 2));
            }
        }
        k = k + 1;
    }
    proof {
        assert(lv.skip(lv.len() as int) =~~= Seq::<Seq<char>>::empty());
    }
    out
}

/// The value of one digit character under a base (letters in either
/// case), or nothing when the character is no digit of that base.
pub open spec fn spec_digit(c: char, base: int) -> Option<int> {
    let u = c as int;
    if 48 <= u <= 57 {
        if u - 48 < base {
            Some(u - 48)
        } else {
            None
        }
    } else if base == 16 && 65 <= u <= 70 {
        Some(u - 55)
    } else if base == 16 && 97 <= u <= 102 {
        Some(u - 87)
    } else {
        None
    }
}

/// The value of a digit string under a base, most significant digit
/// first; nothing when any character is no digit of the base.
pub open spec fn spec_digits_val(ds: Seq<char>, base: int) -> Option<int>
    decreases ds.len(),
{
    if ds.len() == 0 {
        Some(0)
    } else {
        match (spec_digits_val(ds.drop_last(), base), spec_digit(ds.last(), base)) {
            (Some(v), Some(d)) => Some(v * base + d),
            _ => None,
        }
    }
}

/// The value of a numeral: an optional leading `+`, then at least one
/// digit of the base.
pub open spec fn spec_numeral(s: Seq<char>, base: int) -> Option<int> {
    let ds = if s.len() > 1 && s[0] == '+' {
        s.drop_first()
    } else {
        s
    };
    if ds.len() == 0 {
        None
    } else {
        spec_digits_val(ds, base)
    }
}

/// The value of a literal: decimal by default, hexadecimal with an
/// (uppercase) `H` suffix, binary with a `B` suffix; it must fit in 16
/// bits.
pub open spec fn spec_literal(arg: Seq<char>) -> Option<u16> {
    let base: int = if arg.len() > 0 && arg.last() == 'H' {
        16
    } else if arg.len() > 0 && arg.last() == 'B' {
        2
    } else {
        10
    };
    let digits = if base != 10 {
        arg.drop_last()
    } else {
        arg
    };
    match spec_numeral(digits, base) {
        Some(v) => if v <= 0xFFFF {
            Some(v as u16)
        } else {
            None
        },
        None => None,
    }
}

/// A digit string's value is not negative.
proof fn lemma_digits_val_nonneg(ds: Seq<char>, base: int)
    requires
        2 <= base,
        spec_digits_val(ds, base) is Some,
    ensures
        spec_digits_val(ds, base)->Some_0 >= 0,
    decreases ds.len(),
{
    if ds.len() > 0 {
        lemma_digits_val_nonneg(ds.drop_last(), base);
    }
}

/// A prefix of a valid digit string is valid and no larger.
proof fn lemma_digits_val_prefix(ds: Seq<char>, base: int, n: int)
    requires
        2 <= base,
        0 <= n <= ds.len(),
        spec_digits_val(ds, base) is Some,
    ensures
        spec_digits_val(ds.subrange(0, n), base) is Some,
        spec_digits_val(ds.subrange(0, n), base)->Some_0 <= spec_digits_val(ds, base)->Some_0,
    decreases ds.len(),
{
    lemma_digits_val_nonneg(ds, base);
    if n == ds.len() {
        assert(ds.subrange(0, n) =~= ds);
    } else {
        assert(ds.drop_last() =~= ds.subrange(0, ds.len() - 1));
        lemma_digits_val_prefix(ds.drop_last(), base, n);
        assert(ds.drop_last().subrange(0, n) =~= ds.subrange(0, n));
        lemma_digits_val_nonneg(ds.drop_last(), base);
        let v = spec_digits_val(ds.drop_last(), base)->Some_0;
        let d = spec_digit(ds.last(), base)->Some_0;
        assert(d >= 0);
        assert(v >= 0 && base >= 2 && d >= 0 ==> v <= v * base + d) by (nonlinear_arith);
    }
}

/// A digit string with an invalid character has no value.
proof fn lemma_digits_val_bad(ds: Seq<char>, base: int, i: int)
    requires
        0 <= i < ds.len(),
        spec_digit(ds[i], base) is None,
    ensures
        spec_digits_val(ds, base) is None,
    decreases ds.len(),
{
    if i == ds.len() - 1 {
    } else {
        assert(ds.drop_last()[i] == ds[i]);
        lemma_digits_val_bad(ds.drop_last(), base, i);
    }
}

/// The value of one digit character, or nothing.
fn digit_of(c: char, base: u32) -> (r: Option<u32>)
    ensures
        match r {
            Some(d) => spec_digit(c, base as int) == Some(d as int) && d < base,
            None => spec_digit(c, base as int) is None,
        },
{
    let u = c as u32;
    if u >= 48 && u <= 57 {
        if u - 48 < base {
            Some(u - 48)
        } else {
            None
        }
    } else if base == 16 && u >= 65 && u <= 70 {
        Some(u - 55)
    } else if base == 16 && u >= 97 && u <= 102 {
        Some(u - 87)
    } else {
        None
    }
}

/// Parses a numeric literal: decimal `42`, binary `1010b`, hexadecimal
/// `7Fh` (suffixes matched in uppercase, as the addressing-mode parser
/// hands its argument over uppercased). The value must fit in 16 bits;
/// otherwise an `InvalidNumericLiteral` error carrying the argument is
/// reported.
pub fn to_literal(arg: &str) -> (r: Result<u16, ParseError>)
    ensures
        match r {
            Ok(v) => spec_literal(arg@) == Some(v),
            Err(e) => {
                &&& spec_literal(arg@) is None
                &&& e.error_type == ParseErrorType::InvalidNumericLiteral
                &&& e.location == 0
                &&& e.info matches Some(s) && s@ == arg@
            },
        },
{
    let chars = chars_vec(arg);
    let n = chars.len();
    let base: u32 = if n > 0 && chars[n - 1] == 'H' {
        16
    } else if n > 0 && chars[n - 1] == 'B' {
        2
    } else {
        10
    };
    let dlen: usize = if base != 10 {
        n - 1
    } else {
        n
    };
    let ghost digits_all = if base != 10 {
        arg@.drop_last()
    } else {
        arg@
    };
    proof {
        assert(digits_all =~= chars@.subrange(0, dlen as int));
    }
    let start: usize = if dlen > 1 && chars[0] == '+' {
        1
    } else {
        0
    };
    let ghost ds = if dlen > 1 && arg@[0] == '+' {
        digits_all.drop_first()
    } else {
        digits_all
    };
    proof {
        assert(ds =~= chars@.subrange(start as int, dlen as int));
    }
    proof {
        assert(arg@.len() == n);
        if n > 0 {
            assert(arg@.last() == chars@[n - 1]);
        }
        if dlen >= 1 {
            assert(digits_all[0] == arg@[0]);
        }
        assert(digits_all.len() == dlen);
    }
    if dlen == start {
        proof {
            assert(ds.len() == 0);
        }
        return Err(
            ParseError {
                error_type: ParseErrorType::InvalidNumericLiteral,
                location: 0,
                info: Some(arg.to_owned()),
            },
        );
    }
    let mut acc: u32 = 0;
    let mut i: usize = start;
    proof {
        assert(spec_literal(arg@) == (match spec_digits_val(ds, base as int) {
            Some(v) => if v <= 0xFFFF {
                Some(v as u16)
            } else {
                None::<u16>
            },
            None => None::<u16>,
        }));
    }
    while i < dlen
        invariant
            start <= i <= dlen,
            dlen <= chars@.len(),
            chars@ == arg@,
            2 <= base <= 16,
            ds == chars@.subrange(start as int, dlen as int),
            acc <= 0xFFFF,
            spec_digits_val(ds.subrange(0, i - start), base as int) == Some(acc as int),
            spec_literal(arg@) == (match spec_digits_val(ds, base as int) {
                Some(v) => if v <= 0xFFFF {
                    Some(v as u16)
                } else {
                    None::<u16>
                },
                None => None::<u16>,
            }),
        decreases dlen - i,
    {
        let ghost prefix = ds.subrange(0, i - start);
        match digit_of(chars[i], base) {
            None => {
                proof {
                    assert(ds[i - start] == chars@[i as int]);
                    lemma_digits_val_bad(ds, base as int, i - start);
                    assert(spec_digits_val(ds, base as int) is None);
                    assert(spec_literal(arg@) is None);
                }
                return Err(
                    ParseError {
                        error_type: ParseErrorType::InvalidNumericLiteral,
                        location: 0,
                        info: Some(arg.to_owned()),
                    },
                );
            },
            Some(d) => {
                proof {
                    assert(acc <= 0xFFFF && base <= 16 ==> acc * base <= 0xFFFF * 16)
                        by (nonlinear_arith);
                }
                let acc2 = acc * base + d;
                proof {
                    let longer = ds.subrange(0, i - start + 1);
                    assert(longer.drop_last() =~= prefix);
                    assert(longer.last() == chars@[i as int]);
                    assert(spec_digits_val(longer, base as int) == Some(acc2 as int));
                }
                if acc2 > 0xFFFF {
                    proof {
                        if spec_digits_val(ds, base as int) is Some {
                            lemma_digits_val_prefix(ds, base as int, i - start + 1);
                        }
                        assert(spec_literal(arg@) is None);
                    }
                    return Err(
                        ParseError {
                            error_type: ParseErrorType::InvalidNumericLiteral,
                            location: 0,
                            info: Some(arg.to_owned()),
                        },
                    );
                }
                acc = acc2;
            },
        }
        i = i + 1;
    }
    proof {
        assert(ds.subrange(0, dlen - start) =~= ds);
    }
    Ok(acc as u16)
}


/// The decimal rendering of a non-negative number.
pub open spec fn spec_decimal(v: int) -> Seq<char>
    decreases v,
{
    if v < 10 {
        seq![((48 + v) as u8) as char]
    } else {
        spec_decimal(v / 10).push(((48 + v % 10) as u8) as char)
    }
}

/// Renders a number in decimal.
fn decimal_chars(v: u16) -> (r: Vec<char>)
    ensures
        r@ == spec_decimal(v as int),
    decreases v,
{
    if v < 10 {
        let c = ((48 + v) as u8) as char;
        let mut out: Vec<char> = Vec::new();
        out.push(c);
        proof {
            assert(out@ =~= seq![((48 + v as int) as u8) as char]);
        }
        out
    } else {
        let mut out = decimal_chars(v / 10);
        out.push(((48 + v % 10) as u8) as char);
        out
    }
}

/// ASCII uppercasing of one character.
fn upper_char(c: char) -> (r: char)
    ensures
        r == spec_upper(c),
{
    let u = c as u32;
    if u >= 97 && u <= 122 {
        ((c as u8) - 32) as char
    } else {
        c
    }
}

/// ASCII uppercasing of a character vector.
fn upper_chars(v: &Vec<char>) -> (r: Vec<char>)
    ensures
        r@ == spec_upper_seq(v@),
{
    let mut out: Vec<char> = Vec::new();
    let mut i: usize = 0;
    while i < v.len()
        invariant
            i <= v@.len(),
            out@.len() == i,
            forall|j: int| 0 <= j < i ==> out@[j] == spec_upper(v@[j]),
        decreases v@.len() - i,
    {
        out.push(upper_char(v[i]));
        i = i + 1;
    }
    proof {
        assert(out@ =~= spec_upper_seq(v@));
    }
    out
}

/// Whether an (uppercase) character names a register.
pub open spec fn spec_is_register_char(c: char) -> bool {
    c == 'A' || c == 'B' || c == 'C' || c == 'X' || c == 'Y'
}

/// The register an (uppercase) character names.
pub open spec fn spec_register_of(c: char) -> Register {
    if c == 'A' {
        Register::Accumulator
    } else if c == 'B' {
        Register::UtilityB
    } else if c == 'C' {
        Register::UtilityC
    } else if c == 'X' {
        Register::IndexX
    } else {
        Register::IndexY
    }
}

/// The register a letter names (`a`, `b`, `c`, `x` or `y`, either case),
/// or an `InvalidRegister` error.
pub fn register_from_char(c: char) -> (r: Result<Register, ParseError>)
    ensures
        match r {
            Ok(reg) => spec_is_register_char(spec_upper(c)) && reg == spec_register_of(
                spec_upper(c),
            ),
            Err(e) => {
                &&& !spec_is_register_char(spec_upper(c))
                &&& e.error_type == ParseErrorType::InvalidRegister
                &&& e.location == 0
                &&& e.info matches Some(s) && s@ == seq![c]
            },
        },
{
    let up = upper_char(c);
    if up == 'A' {
        Ok(Register::Accumulator)
    } else if up == 'B' {
        Ok(Register::UtilityB)
    } else if up == 'C' {
        Ok(Register::UtilityC)
    } else if up == 'X' {
        Ok(Register::IndexX)
    } else if up == 'Y' {
        Ok(Register::IndexY)
    } else {
        let mut info: Vec<char> = Vec::new();
        info.push(c);
        proof {
            assert(info@ =~= seq![c]);
        }
        Err(
            ParseError {
                error_type: ParseErrorType::InvalidRegister,
                location: 0,
                info: Some(chars_to_string(&info)),
            },
        )
    }
}

/// The flag a letter names (`c`, `z`, `p` or `s`, either case), or an
/// `InvalidFlag` error.
pub fn flag_from_char(c: char) -> (r: Result<Flag, ParseError>)
    ensures
        match r {
            Ok(f) => f == spec_flag_of(spec_upper(c)) && spec_is_flag_char(spec_upper(c)),
            Err(e) => {
                &&& !spec_is_flag_char(spec_upper(c))
                &&& e.error_type == ParseErrorType::InvalidFlag
                &&& e.location == 0
                &&& e.info matches Some(s) && s@ == seq![c]
            },
        },
{
    let up = upper_char(c);
    if up == 'C' {
        Ok(Flag::Carry)
    } else if up == 'Z' {
        Ok(Flag::Zero)
    } else if up == 'P' {
        Ok(Flag::Parity)
    } else if up == 'S' {
        Ok(Flag::Sign)
    } else {
        let mut info: Vec<char> = Vec::new();
        info.push(c);
        proof {
            assert(info@ =~= seq![c]);
        }
        Err(
            ParseError {
                error_type: ParseErrorType::InvalidFlag,
                location: 0,
                info: Some(chars_to_string(&info)),
            },
        )
    }
}

/// Whether an (uppercase) character names a flag.
pub open spec fn spec_is_flag_char(c: char) -> bool {
    c == 'C' || c == 'Z' || c == 'P' || c == 'S'
}

/// The flag an (uppercase) character names.
pub open spec fn spec_flag_of(c: char) -> Flag {
    if c == 'C' {
        Flag::Carry
    } else if c == 'Z' {
        Flag::Zero
    } else if c == 'P' {
        Flag::Parity
    } else {
        Flag::Sign
    }
}

/// The addressing mode an argument token names, or the text of the
/// `InvalidNumericLiteral` error it produces. The token is read
/// case-insensitively: `XY` is the index mode, a single register letter
/// the register mode, `#<literal>` the indirect mode, and a bare literal
/// (which must fit in one byte) the immediate mode.
pub open spec fn spec_to_addressing_mode(arg: Seq<char>) -> Result<AddressingMode, Seq<char>> {
    let up = spec_upper_seq(arg);
    if up.len() == 2 && up[0] == 'X' && up[1] == 'Y' {
        Ok(AddressingMode::Index)
    } else if up.len() == 1 && spec_is_register_char(up[0]) {
        Ok(AddressingMode::Register(spec_register_of(up[0])))
    } else if up.len() > 0 && up[0] == '#' {
        match spec_literal(up.drop_first()) {
            Some(v) => Ok(AddressingMode::Indirect(v)),
            None => Err(up.drop_first()),
        }
    } else {
        match spec_literal(up) {
            Some(v) => if v <= 255 {
                Ok(AddressingMode::Immediate(v as u8))
            } else {
                Err(spec_decimal(v as int))
            },
            None => Err(up),
        }
    }
}

/// Parses an addressing-mode argument (see [`spec_to_addressing_mode`]).
pub fn to_addressing_mode(arg: &str) -> (r: Result<AddressingMode, ParseError>)
    ensures
        match r {
            Ok(m) => spec_to_addressing_mode(arg@) == Ok::<AddressingMode, Seq<char>>(m),
            Err(e) => {
                &&& spec_to_addressing_mode(arg@) matches Err(info) && e.info matches Some(s)
                    && s@ == info
                &&& e.error_type == ParseErrorType::InvalidNumericLiteral
                &&& e.location == 0
            },
        },
{
    let chars = chars_vec(arg);
    let up = upper_chars(&chars);
    let n = up.len();
    if n == 2 && up[0] == 'X' && up[1] == 'Y' {
        Ok(AddressingMode::Index)
    } else if n == 1 && (up[0] == 'A' || up[0] == 'B' || up[0] == 'C' || up[0] == 'X' || up[0]
        == 'Y') {
        let c = up[0];
        if c == 'A' {
            Ok(AddressingMode::Register(Register::Accumulator))
        } else if c == 'B' {
            Ok(AddressingMode::Register(Register::UtilityB))
        } else if c == 'C' {
            Ok(AddressingMode::Register(Register::UtilityC))
        } else if c == 'X' {
            Ok(AddressingMode::Register(Register::IndexX))
        } else {
            Ok(AddressingMode::Register(Register::IndexY))
        }
    } else if n > 0 && up[0] == '#' {
        let mut tail: Vec<char> = Vec::new();
        let mut i: usize = 1;
        while i < n
            invariant
                1 <= i <= n,
                n == up@.len(),
                tail@ =~= up@.subrange(1, i as int),
            decreases n - i,
        {
            tail.push(up[i]);
            i = i + 1;
        }
        proof {
            assert(tail@ =~= spec_upper_seq(arg@).drop_first());
        }
        let text = chars_to_string(&tail);
        match to_literal(text.as_str()) {
            Ok(v) => Ok(AddressingMode::Indirect(v)),
            Err(e) => Err(e),
        }
    } else {
        let text = chars_to_string(&up);
        match to_literal(text.as_str()) {
            Ok(v) => {
                if v > 255 {
                    let dec = decimal_chars(v);
                    Err(
                        ParseError {
                            error_type: ParseErrorType::InvalidNumericLiteral,
                            location: 0,
                            info: Some(chars_to_string(&dec)),
                        },
                    )
                } else {
                    Ok(AddressingMode::Immediate(v as u8))
                }
            },
            Err(e) => Err(e),
        }
    }
}

/// Ghost mirror of [`Instruction`] with label names as character
/// sequences, so the grammar and the label-resolution pass can be stated
/// as spec functions.
pub enum InstrModel {
    Load(Register, AddressingMode),
    Store(Register, AddressingMode),
    Increment,
    Decrement,
    Add(AddressingMode),
    AddXY(AddressingMode),
    Subtract(AddressingMode),
    SubtractXY(AddressingMode),
    Compare(AddressingMode),
    Jump(JumpType, usize),
    CallLocal(usize),
    CallLibrary(Seq<char>),
    Return,
    Push(Register),
    Pop(Register),
    Nop,
    Label(Seq<char>),
    Assert(AddressingMode, u8),
    LabeledJump(JumpType, Seq<char>),
    LabeledCall(Seq<char>),
}

/// The ghost mirror of an instruction.
pub open spec fn instr_model(i: Instruction) -> InstrModel {
    match i {
        Instruction::Load(r, m) => InstrModel::Load(r, m),
        Instruction::Store(r, m) => InstrModel::Store(r, m),
        Instruction::Increment => InstrModel::Increment,
        Instruction::Decrement => InstrModel::Decrement,
        Instruction::Add(m) => InstrModel::Add(m),
        Instruction::AddXY(m) => InstrModel::AddXY(m),
        Instruction::Subtract(m) => InstrModel::Subtract(m),
        Instruction::SubtractXY(m) => InstrModel::SubtractXY(m),
        Instruction::Compare(m) => InstrModel::Compare(m),
        Instruction::Jump(t, d) => InstrModel::Jump(t, d),
        Instruction::Call(CallType::Local(d)) => InstrModel::CallLocal(d),
        Instruction::Call(CallType::Library(n)) => InstrModel::CallLibrary(n@),
        Instruction::Return => InstrModel::Return,
        Instruction::Push(r) => InstrModel::Push(r),
        Instruction::Pop(r) => InstrModel::Pop(r),
        Instruction::Nop => InstrModel::Nop,
        Instruction::_Label(n) => InstrModel::Label(n@),
        Instruction::_Assert(m, v) => InstrModel::Assert(m, v),
        Instruction::_LabeledJump(t, n) => InstrModel::LabeledJump(t, n@),
        Instruction::_LabeledCall(n) => InstrModel::LabeledCall(n@),
    }
}

/// A character a label may contain after its first: a letter, a digit or
/// an underscore.
pub open spec fn spec_is_word_char(c: char) -> bool {
    ('0' <= c && c <= '9') || ('A' <= c && c <= 'Z') || ('a' <= c && c <= 'z') || c == '_'
}

/// A label name as written at its definition: a lowercase letter, then
/// word characters.
pub open spec fn spec_is_label_def(s: Seq<char>) -> bool {
    s.len() >= 1 && 'a' <= s[0] && s[0] <= 'z' && (forall|i: int|
        1 <= i < s.len() ==> spec_is_word_char(#[trigger] s[i]))
}

/// A label name as referenced by a jump or call: a letter of either case,
/// then word characters.
pub open spec fn spec_is_label_ref(s: Seq<char>) -> bool {
    s.len() >= 1 && (('a' <= s[0] && s[0] <= 'z') || ('A' <= s[0] && s[0] <= 'Z')) && (forall|
        i: int,
    |
        1 <= i < s.len() ==> spec_is_word_char(#[trigger] s[i]))
}

/// The tokens joined back with single spaces: the cleaned statement, as
/// error messages report it.
pub open spec fn spec_join(ts: Seq<Seq<char>>) -> Seq<char>
    decreases ts.len(),
{
    if ts.len() == 0 {
        Seq::empty()
    } else if ts.len() == 1 {
        ts[0]
    } else {
        ts[0] + seq![' '] + spec_join(ts.drop_first())
    }
}

/// Appending one more token to a join appends a space and the token.
proof fn lemma_join_snoc(ts: Seq<Seq<char>>, t: Seq<char>)
    ensures
        spec_join(ts.push(t)) == if ts.len() == 0 {
            t
        } else {
            spec_join(ts) + seq![' '] + t
        },
    decreases ts.len(),
{
    if ts.len() == 0 {
        assert(ts.push(t)[0] =~= t);
        assert(spec_join(ts.push(t)) =~= t);
    } else {
        assert(ts.push(t).drop_first() =~= ts.drop_first().push(t));
        lemma_join_snoc(ts.drop_first(), t);
        if ts.len() == 1 {
            assert(spec_join(ts.push(t)) =~= ts[0] + seq![' '] + t);
            assert(spec_join(ts) =~= ts[0]);
        } else {
            assert(spec_join(ts.push(t)) =~= ts[0] + seq![' '] + spec_join(
                ts.drop_first().push(t),
            ));
            assert((ts[0] + seq![' ']) + (spec_join(ts.drop_first()) + seq![' '] + t) =~= ((ts[0]
                + seq![' ']) + spec_join(ts.drop_first())) + seq![' '] + t);
        }
    }
}

/// Three-letter word test, on an uppercased token.
pub open spec fn spec_word3(s: Seq<char>, a: char, b: char, c: char) -> bool {
    s.len() == 3 && s[0] == a && s[1] == b && s[2] == c
}

/// The instruction a statement's tokens describe, or the error kind and
/// offending text. Mnemonics are read case-insensitively; label names
/// keep their case.
pub open spec fn spec_to_instruction(line: Seq<char>) -> Result<
    InstrModel,
    (ParseErrorType, Seq<char>),
> {
    let ts = spec_tokens(line);
    if ts.len() == 1 {
        let t0 = spec_upper_seq(ts[0]);
        if spec_word3(t0, 'I', 'N', 'C') {
            Ok(InstrModel::Increment)
        } else if spec_word3(t0, 'D', 'E', 'C') {
            Ok(InstrModel::Decrement)
        } else if spec_word3(t0, 'N', 'O', 'P') {
            Ok(InstrModel::Nop)
        } else if spec_word3(t0, 'R', 'E', 'T') {
            Ok(InstrModel::Return)
        } else if ts[0].len() >= 2 && ts[0].last() == ':' && spec_is_label_def(
            ts[0].drop_last(),
        ) {
            Ok(InstrModel::Label(ts[0].drop_last()))
        } else {
            Err((ParseErrorType::InvalidInstruction, spec_join(ts)))
        }
    } else if ts.len() == 2 {
        let t0 = spec_upper_seq(ts[0]);
        let arg = ts[1];
        if spec_word3(t0, 'A', 'D', 'D') {
            match spec_to_addressing_mode(arg) {
                Ok(m) => Ok(InstrModel::Add(m)),
                Err(info) => Err((ParseErrorType::InvalidNumericLiteral, info)),
            }
        } else if spec_word3(t0, 'S', 'U', 'B') {
            match spec_to_addressing_mode(arg) {
                Ok(m) => Ok(InstrModel::Subtract(m)),
                Err(info) => Err((ParseErrorType::InvalidNumericLiteral, info)),
            }
        } else if spec_word3(t0, 'C', 'M', 'P') {
            match spec_to_addressing_mode(arg) {
                Ok(m) => Ok(InstrModel::Compare(m)),
                Err(info) => Err((ParseErrorType::InvalidNumericLiteral, info)),
            }
        } else if t0.len() == 3 && t0[0] == 'L' && t0[1] == 'D' && spec_is_register_char(t0[2]) {
            match spec_to_addressing_mode(arg) {
                Ok(m) => Ok(InstrModel::Load(spec_register_of(t0[2]), m)),
                Err(info) => Err((ParseErrorType::InvalidNumericLiteral, info)),
            }
        } else if t0.len() == 3 && t0[0] == 'S' && t0[1] == 'T' && spec_is_register_char(t0[2]) {
            let aup = spec_upper_seq(arg);
            if aup.len() == 2 && aup[0] == 'X' && aup[1] == 'Y' {
                Ok(InstrModel::Store(spec_register_of(t0[2]), AddressingMode::Index))
            } else if aup.len() > 0 && aup[0] == '#' {
                match spec_literal(aup.drop_first()) {
                    Some(v) => Ok(
                        InstrModel::Store(spec_register_of(t0[2]), AddressingMode::Indirect(v)),
                    ),
                    None => Err((ParseErrorType::InvalidNumericLiteral, aup.drop_first())),
                }
            } else {
                Err((ParseErrorType::InvalidInstruction, spec_join(ts)))
            }
        } else if spec_word3(t0, 'J', 'M', 'P') {
            if spec_is_label_ref(arg) {
                Ok(InstrModel::LabeledJump(JumpType::Unconditional, arg))
            } else {
                Err((ParseErrorType::InvalidInstruction, spec_join(ts)))
            }
        } else if t0.len() == 2 && t0[0] == 'J' && spec_is_flag_char(t0[1]) && spec_is_label_ref(
            arg,
        ) {
            Ok(InstrModel::LabeledJump(JumpType::Flag(spec_flag_of(t0[1]), true), arg))
        } else if t0.len() == 3 && t0[0] == 'J' && t0[1] == 'N' && spec_is_flag_char(t0[2])
            && spec_is_label_ref(arg) {
            Ok(InstrModel::LabeledJump(JumpType::Flag(spec_flag_of(t0[2]), false), arg))
        } else if t0.len() == 4 && t0[0] == 'C' && t0[1] == 'A' && t0[2] == 'L' && t0[3] == 'L' {
            if spec_is_label_ref(arg) {
                Ok(InstrModel::LabeledCall(arg))
            } else {
                Err((ParseErrorType::InvalidInstruction, spec_join(ts)))
            }
        } else if t0.len() == 4 && t0[0] == 'P' && t0[1] == 'U' && t0[2] == 'S' && t0[3] == 'H'
            && arg.len() == 1 && spec_is_register_char(spec_upper(arg[0])) {
            Ok(InstrModel::Push(spec_register_of(spec_upper(arg[0]))))
        } else if spec_word3(t0, 'P', 'O', 'P') && arg.len() == 1 && spec_is_register_char(
            spec_upper(arg[0]),
        ) {
            Ok(InstrModel::Pop(spec_register_of(spec_upper(arg[0]))))
        } else {
            Err((ParseErrorType::InvalidInstruction, spec_join(ts)))
        }
    } else {
        Err((ParseErrorType::InvalidInstruction, spec_join(ts)))
    }
}

/// Three-letter word test, on an uppercased token.
fn word3(t: &Vec<char>, a: char, b: char, c: char) -> (r: bool)
    ensures
        r == spec_word3(t@, a, b, c),
{
    t.len() == 3 && t[0] == a && t[1] == b && t[2] == c
}

/// Whether a token is a well-formed label definition name.
fn is_label_def(t: &Vec<char>, from: usize, to: usize) -> (r: bool)
    requires
        from <= to <= t@.len(),
    ensures
        r == spec_is_label_def(t@.subrange(from as int, to as int)),
{
    let ghost s = t@.subrange(from as int, to as int);
    if to == from {
        return false;
    }
    let c0 = t[from];
    if !('a' <= c0 && c0 <= 'z') {
        proof {
            assert(s[0] == t@[from as int]);
        }
        return false;
    }
    let mut i: usize = from + 1;
    while i < to
        invariant
            from + 1 <= i <= to,
            to <= t@.len(),
            s == t@.subrange(from as int, to as int),
            'a' <= s[0] && s[0] <= 'z',
            forall|j: int| 1 <= j < i - from ==> spec_is_word_char(#[trigger] s[j]),
        decreases to - i,
    {
        let c = t[i];
        let ok = ('0' <= c && c <= '9') || ('A' <= c && c <= 'Z') || ('a' <= c && c <= 'z') || c
            == '_';
        proof {
            assert(s[i - from] == t@[i as int]);
        }
        if !ok {
            return false;
        }
        i = i + 1;
    }
    true
}

/// Whether a token is a well-formed label reference.
fn is_label_ref(t: &Vec<char>) -> (r: bool)
    ensures
        r == spec_is_label_ref(t@),
{
    if t.len() == 0 {
        return false;
    }
    let c0 = t[0];
    if !(('a' <= c0 && c0 <= 'z') || ('A' <= c0 && c0 <= 'Z')) {
        return false;
    }
    let mut i: usize = 1;
    while i < t.len()
        invariant
            1 <= i <= t@.len(),
            ('a' <= t@[0] && t@[0] <= 'z') || ('A' <= t@[0] && t@[0] <= 'Z'),
            forall|j: int| 1 <= j < i ==> spec_is_word_char(#[trigger] t@[j]),
        decreases t@.len() - i,
    {
        let c = t[i];
        let ok = ('0' <= c && c <= '9') || ('A' <= c && c <= 'Z') || ('a' <= c && c <= 'z') || c
            == '_';
        if !ok {
            return false;
        }
        i = i + 1;
    }
    true
}

/// Joins tokens back with single spaces: the cleaned statement text.
fn join_tokens(ts: &Vec<Vec<char>>) -> (r: String)
    ensures
        r@ == spec_join(ts.deep_view()),
{
    let mut out: Vec<char> = Vec::new();
    let mut k: usize = 0;
    let ghost tv = ts.deep_view();
    proof {
        assert(tv.subrange(0, 0) =~~= Seq::<Seq<char>>::empty());
        assert(out@ =~= spec_join(tv.subrange(0, 0)));
    }
    while k < ts.len()
        invariant
            k <= tv.len(),
            tv =~~= ts.deep_view(),
            ts@.len() == tv.len(),
            forall|j: int| 0 <= j < tv.len() ==> (#[trigger] ts@[j])@ == tv[j],
            out@ == spec_join(tv.subrange(0, k as int)),
        decreases tv.len() - k,
    {
        let ghost out0 = out@;
        if k > 0 {
            out.push(' ');
        }
        let tok = &ts[k];
        let mut i: usize = 0;
        let ghost mid = out@;
        while i < tok.len()
            invariant
                i <= tok@.len(),
                tok@ == tv[k as int],
                out@ =~= mid + tok@.subrange(0, i as int),
            decreases tok@.len() - i,
        {
            out.push(tok[i]);
            i = i + 1;
        }
        proof {
            assert(out@ =~= mid + tv[k as int]);
            let pre = tv.subrange(0, k as int);
            assert(pre.push(tv[k as int]) =~~= tv.subrange(0, k + 1));
            lemma_join_snoc(pre, tv[k as int]);
            if k == 0 {
                assert(out@ =~= tv[0]);
                assert(out@ =~= spec_join(tv.subrange(0, 1)));
            } else {
                assert(out@ =~= (spec_join(pre) + seq![' ']) + tv[k as int]);
                assert((spec_join(pre) + seq![' ']) + tv[k as int] =~= spec_join(pre) + seq![' ']
                    + tv[k as int]);
            }
        }
        k = k + 1;
    }
    proof {
        assert(tv.subrange(0, tv.len() as int) =~~= tv);
    }
    chars_to_string(&out)
}

/// The register an uppercased register character names.
fn register_of(c: char) -> (r: Register)
    requires
        spec_is_register_char(c),
    ensures
        r == spec_register_of(c),
{
    if c == 'A' {
        Register::Accumulator
    } else if c == 'B' {
        Register::UtilityB
    } else if c == 'C' {
        Register::UtilityC
    } else if c == 'X' {
        Register::IndexX
    } else {
        Register::IndexY
    }
}

/// The flag an uppercased flag character names.
fn flag_of(c: char) -> (r: Flag)
    requires
        spec_is_flag_char(c),
    ensures
        r == spec_flag_of(c),
{
    if c == 'C' {
        Flag::Carry
    } else if c == 'Z' {
        Flag::Zero
    } else if c == 'P' {
        Flag::Parity
    } else {
        Flag::Sign
    }
}

/// Extracts a subrange of a token as a fresh vector.
fn token_slice(t: &Vec<char>, from: usize, to: usize) -> (r: Vec<char>)
    requires
        from <= to <= t@.len(),
    ensures
        r@ == t@.subrange(from as int, to as int),
{
    let mut out: Vec<char> = Vec::new();
    let mut i: usize = from;
    while i < to
        invariant
            from <= i <= to,
            to <= t@.len(),
            out@ =~= t@.subrange(from as int, i as int),
        decreases to - i,
    {
        out.push(t[i]);
        i = i + 1;
    }
    proof {
        assert(out@ =~= t@.subrange(from as int, to as int));
    }
    out
}

/// Parses one statement into an instruction (see [`spec_to_instruction`]).
/// The given location tags `InvalidInstruction` errors; errors from the
/// operand parsers keep their own location of 0, and the compiler retags
/// every error with the source line.
#[verifier::spinoff_prover]
#[verifier::rlimit(100)]
pub fn to_instruction(line: &str, location: usize) -> (r: Result<Instruction, ParseError>)
    ensures
        match r {
            Ok(inst) => spec_to_instruction(line@) == Ok::<InstrModel, (ParseErrorType, Seq<char>)>(
                instr_model(inst),
            ),
            Err(e) => {
                &&& spec_to_instruction(line@) matches Err((et, info)) && e.error_type == et && (
                e.info matches Some(s) && s@ == info)
                &&& e.location == (if e.error_type is InvalidInstruction {
                    location
                } else {
                    0
                })
            },
        },
{
    let chars = chars_vec(line);
    let tokens = tokenize(&chars);
    let ghost ts = spec_tokens(line@);
    proof {
        assert(tokens.deep_view() == ts);
        assert(forall|j: int|
            0 <= j < tokens@.len() ==> (#[trigger] tokens@[j])@ == tokens.deep_view()[j]);
    }
    if tokens.len() == 1 {
        let t0 = upper_chars(&tokens[0]);
        proof {
            assert(t0@ == spec_upper_seq(ts[0]));
        }
        if word3(&t0, 'I', 'N', 'C') {
            Ok(Instruction::Increment)
        } else if word3(&t0, 'D', 'E', 'C') {
            Ok(Instruction::Decrement)
        } else if word3(&t0, 'N', 'O', 'P') {
            Ok(Instruction::Nop)
        } else if word3(&t0, 'R', 'E', 'T') {
            Ok(Instruction::Return)
        } else {
            let tok = &tokens[0];
            let n = tok.len();
            if n >= 2 && tok[n - 1] == ':' && is_label_def(tok, 0, n - 1) {
                proof {
                    assert(ts[0].drop_last() =~= tok@.subrange(0, n - 1));
                    assert(ts[0].last() == tok@[n - 1]);
                }
                let name = token_slice(tok, 0, n - 1);
                Ok(Instruction::_Label(chars_to_string(&name)))
            } else {
                proof {
                    if n >= 2 && tok@.last() == ':' {
                        assert(ts[0].drop_last() =~= tok@.subrange(0, n - 1));
                    }
                }
                Err(
                    ParseError {
                        error_type: ParseErrorType::InvalidInstruction,
                        location,
                        info: Some(join_tokens(&tokens)),
                    },
                )
            }
        }
    } else if tokens.len() == 2 {
        let t0 = upper_chars(&tokens[0]);
        proof {
            assert(t0@ == spec_upper_seq(ts[0]));
            assert(tokens@[1]@ == ts[1]);
        }
        if word3(&t0, 'A', 'D', 'D') {
            let arg_string = chars_to_string(&tokens[1]);
            match to_addressing_mode(arg_string.as_str()) {
                Ok(m) => Ok(Instruction::Add(m)),
                Err(e) => Err(e),
            }
        } else if word3(&t0, 'S', 'U', 'B') {
            let arg_string = chars_to_string(&tokens[1]);
            match to_addressing_mode(arg_string.as_str()) {
                Ok(m) => Ok(Instruction::Subtract(m)),
                Err(e) => Err(e),
            }
        } else if word3(&t0, 'C', 'M', 'P') {
            let arg_string = chars_to_string(&tokens[1]);
            match to_addressing_mode(arg_string.as_str()) {
                Ok(m) => Ok(Instruction::Compare(m)),
                Err(e) => Err(e),
            }
        } else if t0.len() == 3 && t0[0] == 'L' && t0[1] == 'D' && (t0[2] == 'A' || t0[2] == 'B'
            || t0[2] == 'C' || t0[2] == 'X' || t0[2] == 'Y') {
            let reg = register_of(t0[2]);
            let arg_string = chars_to_string(&tokens[1]);
            match to_addressing_mode(arg_string.as_str()) {
                Ok(m) => Ok(Instruction::Load(reg, m)),
                Err(e) => Err(e),
            }
        } else if t0.len() == 3 && t0[0] == 'S' && t0[1] == 'T' && (t0[2] == 'A' || t0[2] == 'B'
            || t0[2] == 'C' || t0[2] == 'X' || t0[2] == 'Y') {
            let reg = register_of(t0[2]);
            let aup = upper_chars(&tokens[1]);
            proof {
                assert(aup@ == spec_upper_seq(ts[1]));
            }
            if aup.len() == 2 && aup[0] == 'X' && aup[1] == 'Y' {
                Ok(Instruction::Store(reg, AddressingMode::Index))
            } else if aup.len() > 0 && aup[0] == '#' {
                let tail = token_slice(&aup, 1, aup.len());
                proof {
                    assert(tail@ =~= aup@.drop_first());
                }
                let text = chars_to_string(&tail);
                match to_literal(text.as_str()) {
                    Ok(v) => Ok(Instruction::Store(reg, AddressingMode::Indirect(v))),
                    Err(e) => Err(e),
                }
            } else {
                Err(
                    ParseError {
                        error_type: ParseErrorType::InvalidInstruction,
                        location,
                        info: Some(join_tokens(&tokens)),
                    },
                )
            }
        } else if word3(&t0, 'J', 'M', 'P') {
            if is_label_ref(&tokens[1]) {
                Ok(
                    Instruction::_LabeledJump(
                        JumpType::Unconditional,
                        chars_to_string(&tokens[1]),
                    ),
                )
            } else {
                Err(
                    ParseError {
                        error_type: ParseErrorType::InvalidInstruction,
                        location,
                        info: Some(join_tokens(&tokens)),
                    },
                )
            }
        } else if t0.len() == 2 && t0[0] == 'J' && (t0[1] == 'C' || t0[1] == 'Z' || t0[1] == 'P'
            || t0[1] == 'S') && is_label_ref(&tokens[1]) {
            let f = flag_of(t0[1]);
            Ok(Instruction::_LabeledJump(JumpType::Flag(f, true), chars_to_string(&tokens[1])))
        } else if t0.len() == 3 && t0[0] == 'J' && t0[1] == 'N' && (t0[2] == 'C' || t0[2] == 'Z'
            || t0[2] == 'P' || t0[2] == 'S') && is_label_ref(&tokens[1]) {
            let f = flag_of(t0[2]);
            Ok(Instruction::_LabeledJump(JumpType::Flag(f, false), chars_to_string(&tokens[1])))
        } else if t0.len() == 4 && t0[0] == 'C' && t0[1] == 'A' && t0[2] == 'L' && t0[3] == 'L' {
            if is_label_ref(&tokens[1]) {
                Ok(Instruction::_LabeledCall(chars_to_string(&tokens[1])))
            } else {
                Err(
                    ParseError {
                        error_type: ParseErrorType::InvalidInstruction,
                        location,
                        info: Some(join_tokens(&tokens)),
                    },
                )
            }
        } else if t0.len() == 4 && t0[0] == 'P' && t0[1] == 'U' && t0[2] == 'S' && t0[3] == 'H'
            && tokens[1].len() == 1 && {
            let c = upper_char(tokens[1][0]);
            c == 'A' || c == 'B' || c == 'C' || c == 'X' || c == 'Y'
        } {
            let reg = register_of(upper_char(tokens[1][0]));
            Ok(Instruction::Push(reg))
        } else if word3(&t0, 'P', 'O', 'P') && tokens[1].len() == 1 && {
            let c = upper_char(tokens[1][0]);
            c == 'A' || c == 'B' || c == 'C' || c == 'X' || c == 'Y'
        } {
            let reg = register_of(upper_char(tokens[1][0]));
            Ok(Instruction::Pop(reg))
        } else {
            Err(
                ParseError {
                    error_type: ParseErrorType::InvalidInstruction,
                    location,
                    info: Some(join_tokens(&tokens)),
                },
            )
        }
    } else {
        Err(
            ParseError {
                error_type: ParseErrorType::InvalidInstruction,
                location,
                info: Some(join_tokens(&tokens)),
            },
        )
    }
}

/// The program index of the last `Label` with the given name, if any:
/// with duplicate labels, the later definition wins.
pub open spec fn spec_label_pc(code: Seq<InstrModel>, name: Seq<char>) -> Option<int>
    decreases code.len(),
{
    if code.len() == 0 {
        None
    } else {
        match code.last() {
            InstrModel::Label(n) => if n == name {
                Some(code.len() - 1)
            } else {
                spec_label_pc(code.drop_last(), name)
            },
            _ => spec_label_pc(code.drop_last(), name),
        }
    }
}

/// A found label index is in range.
proof fn lemma_label_pc_in_range(code: Seq<InstrModel>, name: Seq<char>)
    requires
        spec_label_pc(code, name) is Some,
    ensures
        0 <= spec_label_pc(code, name)->Some_0 < code.len(),
    decreases code.len(),
{
    if code.len() > 0 {
        match code.last() {
            InstrModel::Label(n) => {
                if n != name {
                    lemma_label_pc_in_range(code.drop_last(), name);
                }
            },
            _ => {
                lemma_label_pc_in_range(code.drop_last(), name);
            },
        }
    }
}

/// What label resolution makes of the instruction at one index: labelled
/// jumps and calls become resolved jumps and calls, a label definition
/// becomes `Nop` (so indices never shift), everything else stays; nothing
/// when the referenced label does not exist.
pub open spec fn spec_resolve_at(code: Seq<InstrModel>, i: int) -> Option<InstrModel> {
    match code[i] {
        InstrModel::LabeledJump(jt, name) => match spec_label_pc(code, name) {
            Some(pc) => Some(InstrModel::Jump(jt, pc as usize)),
            None => None,
        },
        InstrModel::LabeledCall(name) => match spec_label_pc(code, name) {
            Some(pc) => Some(InstrModel::CallLocal(pc as usize)),
            None => None,
        },
        InstrModel::Label(_) => Some(InstrModel::Nop),
        _ => Some(code[i]),
    }
}

/// The label a labelled jump or call references.
pub open spec fn spec_label_name_of(i: InstrModel) -> Seq<char> {
    match i {
        InstrModel::LabeledJump(_, name) => name,
        InstrModel::LabeledCall(name) => name,
        _ => Seq::empty(),
    }
}

/// The missing labels among the first `n` instructions, in program order,
/// each with the index of the instruction that references it.
pub open spec fn spec_missing_prefix(code: Seq<InstrModel>, n: int) -> Seq<(Seq<char>, int)>
    decreases n,
{
    if n <= 0 {
        Seq::empty()
    } else {
        spec_missing_prefix(code, n - 1) + (if spec_resolve_at(code, n - 1) is None {
            seq![(spec_label_name_of(code[n - 1]), n - 1)]
        } else {
            Seq::empty()
        })
    }
}

/// The missing labels of a program.
pub open spec fn spec_missing(code: Seq<InstrModel>) -> Seq<(Seq<char>, int)> {
    spec_missing_prefix(code, code.len() as int)
}

/// The ghost mirror of a program.
pub open spec fn spec_models(code: Seq<Instruction>) -> Seq<InstrModel> {
    code.map_values(|i: Instruction| instr_model(i))
}

/// Finds the last `_Label` definition with the given name.
fn last_label_pc(code: &Vec<Instruction>, name: &String) -> (r: Option<usize>)
    ensures
        match r {
            Some(pc) => spec_label_pc(spec_models(code@), name@) == Some(pc as int),
            None => spec_label_pc(spec_models(code@), name@) is None,
        },
{
    let ghost models = spec_models(code@);
    let mut i: usize = code.len();
    proof {
        assert(models.subrange(0, i as int) =~= models);
    }
    while i > 0
        invariant
            i <= code@.len(),
            models == spec_models(code@),
            models.len() == code@.len(),
            spec_label_pc(models, name@) == spec_label_pc(models.subrange(0, i as int), name@),
        decreases i,
    {
        let ghost prefix = models.subrange(0, i as int);
        proof {
            assert(prefix.last() == models[i - 1]);
            assert(models[i - 1] == instr_model(code@[i - 1]));
            assert(prefix.drop_last() =~= models.subrange(0, i - 1));
        }
        match &code[i - 1] {
            Instruction::_Label(label) => {
                proof {
                    assert(instr_model(code@[i - 1]) == InstrModel::Label(label@));
                    assert(prefix.last() == InstrModel::Label(label@));
                }
                if label.eq(name) {
                    proof {
                        assert(spec_label_pc(prefix, name@) == Some(i - 1));
                    }
                    return Some(i - 1);
                } else {
                    proof {
                        assert(spec_label_pc(prefix, name@) == spec_label_pc(
                            prefix.drop_last(),
                            name@,
                        ));
                    }
                }
            },
            _ => {
                proof {
                    assert(!(instr_model(code@[i - 1]) is Label));
                    assert(spec_label_pc(prefix, name@) == spec_label_pc(
                        prefix.drop_last(),
                        name@,
                    ));
                }
            },
        }
        i = i - 1;
    }
    proof {
        assert(models.subrange(0, 0) =~= Seq::<InstrModel>::empty());
    }
    None
}

/// Label resolution. Jumps and calls to labels become jumps and calls to
/// program indices (a label's index is that of the `Nop` that replaces
/// its definition); instruction indices never shift. On success the
/// resolved program comes with the symbol table (program counter to label
/// name, later duplicates winning at resolution, every definition listed
/// in the table); otherwise every missing label is reported, in program
/// order, with the index of the instruction that references it.
#[verifier::spinoff_prover]
#[verifier::rlimit(100)]
pub fn process_labels(code: Vec<Instruction>) -> (r: Result<
    (Vec<Instruction>, SymbolTable),
    Vec<(String, usize)>,
>)
    ensures
        ({
            let models = spec_models(code@);
            match r {
                Ok((out, table)) => {
                    &&& spec_missing(models).len() == 0
                    &&& out@.len() == code@.len()
                    &&& forall|i: int|
                        0 <= i < out@.len() ==> Some(instr_model(#[trigger] out@[i]))
                            == spec_resolve_at(models, i)
                    &&& code_targets_in_range(code@) ==> code_targets_in_range(out@)
                    &&& forall|pc: usize|
                        table@.contains_key(pc) <==> (pc < code@.len() && code@[pc as int]
                            is _Label)
                    &&& forall|pc: usize|
                        #[trigger] table@.contains_key(pc) ==> (code@[pc as int] matches
                        Instruction::_Label(n) && table@[pc] == n)
                },
                Err(missing) => {
                    &&& spec_missing(models).len() > 0
                    &&& missing@.map_values(|p: (String, usize)| (p.0@, p.1 as int))
                        =~~= spec_missing(models)
                },
            }
        }),
{
    broadcast use vstd::std_specs::hash::group_hash_axioms;

    let ghost models = spec_models(code@);
    let mut output: Vec<Instruction> = Vec::new();
    let mut missing: Vec<(String, usize)> = Vec::new();
    let mut i: usize = 0;
    while i < code.len()
        invariant
            i <= code@.len(),
            models == spec_models(code@),
            models.len() == code@.len(),
            output@.len() == i,
            forall|j: int|
                0 <= j < i && spec_resolve_at(models, j) is Some ==> Some(
                    instr_model(#[trigger] output@[j]),
                ) == spec_resolve_at(models, j),
            missing@.map_values(|p: (String, usize)| (p.0@, p.1 as int)) =~~= spec_missing_prefix(
                models,
                i as int,
            ),
        decreases code@.len() - i,
    {
        let ghost miss0 = missing@;
        proof {
            assert(models[i as int] == instr_model(code@[i as int]));
        }
        match &code[i] {
            Instruction::_LabeledJump(jump_type, label) => {
                match last_label_pc(&code, label) {
                    Some(pc) => {
                        output.push(Instruction::Jump(*jump_type, pc));
                    },
                    None => {
                        missing.push((label.clone(), i));
                        output.push(Instruction::Nop);
                    },
                }
            },
            Instruction::_LabeledCall(label) => {
                match last_label_pc(&code, label) {
                    Some(pc) => {
                        output.push(Instruction::Call(CallType::Local(pc)));
                    },
                    None => {
                        missing.push((label.clone(), i));
                        output.push(Instruction::Nop);
                    },
                }
            },
            Instruction::_Label(_) => {
                output.push(Instruction::Nop);
            },
            _ => {
                output.push(code[i].clone());
            },
        }
        proof {
            let f = |p: (String, usize)| (p.0@, p.1 as int);
            if spec_resolve_at(models, i as int) is None {
                assert(missing@ =~= miss0.push(missing@.last()));
                assert(missing@.map_values(f) =~~= miss0.map_values(f) + seq![
                    (spec_label_name_of(models[i as int]), i as int),
                ]);
            } else {
                assert(missing@.map_values(f) =~~= miss0.map_values(f));
            }
        }
        i = i + 1;
    }
    if missing.len() > 0 {
        proof {
            assert(spec_missing(models).len() > 0);
        }
        return Err(missing);
    }
    let mut table: SymbolTable = HashMap::new();
    let mut pc: usize = 0;
    while pc < code.len()
        invariant
            pc <= code@.len(),
            forall|k: usize|
                table@.contains_key(k) <==> (k < pc && code@[k as int] is _Label),
            forall|k: usize|
                #[trigger] table@.contains_key(k) ==> (code@[k as int] matches
                Instruction::_Label(n) && table@[k] == n),
        decreases code@.len() - pc,
    {
        broadcast use vstd::std_specs::hash::group_hash_axioms;

        match &code[pc] {
            Instruction::_Label(name) => {
                table.insert(pc, name.clone());
            },
            _ => {},
        }
        pc = pc + 1;
    }
    proof {
        assert forall|j: int| 0 <= j < models.len() implies spec_resolve_at(models, j)
            is Some by {
            lemma_missing_all_resolved(models, j);
        };
        if code_targets_in_range(code@) {
            assert forall|j: int|
                0 <= j < output@.len() implies match #[trigger] output@[j] {
                Instruction::Jump(_, t) => t < output@.len(),
                Instruction::Call(CallType::Local(t)) => t < output@.len(),
                _ => true,
            } by {
                lemma_missing_all_resolved(models, j);
                assert(Some(instr_model(output@[j])) == spec_resolve_at(models, j));
                assert(models[j] == instr_model(code@[j]));
                match models[j] {
                    InstrModel::LabeledJump(jt, name) => {
                        lemma_label_pc_in_range(models, name);
                    },
                    InstrModel::LabeledCall(name) => {
                        lemma_label_pc_in_range(models, name);
                    },
                    _ => {},
                }
            };
            assert(code_targets_in_range(output@));
        }
    }
    Ok((output, table))
}

/// When no labels are missing, every instruction resolves.
proof fn lemma_missing_all_resolved(models: Seq<InstrModel>, j: int)
    requires
        spec_missing(models).len() == 0,
        0 <= j < models.len(),
    ensures
        spec_resolve_at(models, j) is Some,
{
    lemma_missing_prefix_monotone(models, j + 1, models.len() as int);
    if spec_resolve_at(models, j) is None {
        assert(spec_missing_prefix(models, j + 1).len() > 0);
    }
}

/// The missing-label list only grows with the prefix length.
proof fn lemma_missing_prefix_monotone(models: Seq<InstrModel>, n: int, m: int)
    requires
        0 <= n <= m,
    ensures
        spec_missing_prefix(models, n).len() <= spec_missing_prefix(models, m).len(),
    decreases m - n,
{
    if n < m {
        lemma_missing_prefix_monotone(models, n, m - 1);
    }
}

/// The instruction models of the preprocessed lines (a line that fails to
/// parse stands as `Nop`; the error list decides whether that matters).
pub open spec fn spec_parsed(pre: Seq<(int, Seq<char>)>) -> Seq<InstrModel> {
    Seq::new(
        pre.len(),
        |k: int|
            match spec_to_instruction(pre[k].1) {
                Ok(m) => m,
                Err(_) => InstrModel::Nop,
            },
    )
}

/// The parse errors of the first `n` preprocessed lines, in order, each
/// tagged with its source line number.
pub open spec fn spec_parse_errors_prefix(pre: Seq<(int, Seq<char>)>, n: int) -> Seq<
    (ParseErrorType, int, Seq<char>),
>
    decreases n,
{
    if n <= 0 {
        Seq::empty()
    } else {
        spec_parse_errors_prefix(pre, n - 1) + (match spec_to_instruction(pre[n - 1].1) {
            Ok(_) => Seq::empty(),
            Err((et, info)) => seq![(et, pre[n - 1].0, info)],
        })
    }
}

/// All parse errors of a preprocessed program.
pub open spec fn spec_parse_errors(pre: Seq<(int, Seq<char>)>) -> Seq<
    (ParseErrorType, int, Seq<char>),
> {
    spec_parse_errors_prefix(pre, pre.len() as int)
}

/// The view of one compile error: kind, source line, offending text.
pub open spec fn spec_error_view(e: ParseError) -> (ParseErrorType, int, Seq<char>) {
    (e.error_type, e.location as int, e.info->Some_0@)
}

/// The grammar never yields an already-resolved jump or call: those only
/// come out of label resolution.
proof fn lemma_parse_never_resolved(line: Seq<char>)
    ensures
        spec_to_instruction(line) matches Ok(m) ==> !(m is Jump) && !(m is CallLocal),
{
}

/// The index of every missing-label report is in range.
proof fn lemma_missing_idx_bounds(models: Seq<InstrModel>, n: int)
    requires
        n <= models.len(),
    ensures
        forall|k: int|
            0 <= k < spec_missing_prefix(models, n).len() ==> 0 <= (
            #[trigger] spec_missing_prefix(models, n)[k]).1 < n,
    decreases n,
{
    if n > 0 {
        lemma_missing_idx_bounds(models, n - 1);
        let pm = spec_missing_prefix(models, n - 1);
        let whole = spec_missing_prefix(models, n);
        assert forall|k: int| 0 <= k < whole.len() implies 0 <= (#[trigger] whole[k]).1 < n by {
            if k < pm.len() {
                assert(whole[k] == pm[k]);
            } else {
                assert(whole[k].1 == n - 1);
            }
        };
    }
}

/// Compiles a program text. On success: the resolved instruction vector
/// (every labelled jump and call rewritten to its target index, every
/// label definition a `Nop` at its own index) and the symbol table. On
/// failure: every error of the whole compile, parse errors first
/// (label-resolution errors are only sought once every line parses), each
/// tagged with its 1-based source line and offending text.
#[verifier::spinoff_prover]
#[verifier::rlimit(100)]
pub fn compile(code: String) -> (r: Result<(Vec<Instruction>, SymbolTable), Vec<ParseError>>)
    ensures
        ({
            let pre = spec_preprocess(code@);
            let parsed = spec_parsed(pre);
            let perrs = spec_parse_errors(pre);
            match r {
                Ok((out, table)) => {
                    &&& perrs.len() == 0
                    &&& spec_missing(parsed).len() == 0
                    &&& out@.len() == pre.len()
                    &&& forall|i: int|
                        0 <= i < out@.len() ==> Some(instr_model(#[trigger] out@[i]))
                            == spec_resolve_at(parsed, i)
                    &&& code_targets_in_range(out@)
                    &&& forall|pc: usize|
                        table@.contains_key(pc) <==> (pc < parsed.len() && parsed[pc as int]
                            is Label)
                    &&& forall|pc: usize|
                        #[trigger] table@.contains_key(pc) ==> table@[pc]@ == parsed[pc as int]->Label_0
                },
                Err(errs) => {
                    &&& perrs.len() > 0 || spec_missing(parsed).len() > 0
                    &&& forall|k: int|
                        0 <= k < errs@.len() ==> (#[trigger] errs@[k]).info is Some
                    &&& if perrs.len() > 0 {
                        errs@.map_values(|e: ParseError| spec_error_view(e)) =~~= perrs
                    } else {
                        &&& errs@.len() == spec_missing(parsed).len()
                        &&& forall|k: int|
                            0 <= k < errs@.len() ==> {
                                let m = spec_missing(parsed)[k];
                                &&& (#[trigger] errs@[k]).error_type
                                    == ParseErrorType::InvalidLabel
                                &&& errs@[k].location as int == pre[m.1].0
                                &&& errs@[k].info->Some_0@ == m.0
                            }
                    }
                },
            }
        }),
{
    let pre = preprocess(code.as_str());
    let ghost pre_s = spec_preprocess(code@);
    let ghost parsed = spec_parsed(pre_s);
    let mut output: Vec<Instruction> = Vec::new();
    let mut parse_errors: Vec<ParseError> = Vec::new();
    let mut k: usize = 0;
    while k < pre.len()
        invariant
            pre@.len() == pre_s.len(),
            forall|j: int|
                0 <= j < pre@.len() ==> (#[trigger] pre@[j]).0 as int == pre_s[j].0
                    && pre@[j].1@ == pre_s[j].1,
            parsed == spec_parsed(pre_s),
            parsed.len() == pre_s.len(),
            k <= pre@.len(),
            output@.len() == k,
            forall|j: int|
                0 <= j < k ==> instr_model(#[trigger] output@[j]) == parsed[j],
            forall|j: int|
                0 <= j < k ==> match #[trigger] output@[j] {
                    Instruction::Jump(_, t) => false,
                    Instruction::Call(CallType::Local(t)) => false,
                    _ => true,
                },
            parse_errors@.map_values(|e: ParseError| spec_error_view(e))
                =~~= spec_parse_errors_prefix(pre_s, k as int),
            forall|j: int|
                0 <= j < parse_errors@.len() ==> (#[trigger] parse_errors@[j]).info is Some,
        decreases pre@.len() - k,
    {
        let ghost errs0 = parse_errors@;
        let location = pre[k].0;
        match to_instruction(pre[k].1.as_str(), location) {
            Ok(instruction) => {
                proof {
                    lemma_parse_never_resolved(pre_s[k as int].1);
                }
                output.push(instruction);
            },
            Err(e) => {
                let retagged = ParseError {
                    error_type: e.error_type,
                    location,
                    info: e.info,
                };
                parse_errors.push(retagged);
                output.push(Instruction::Nop);
                proof {
                    let f = |err: ParseError| spec_error_view(err);
                    assert(parse_errors@.map_values(f) =~~= errs0.map_values(f) + seq![
                        spec_error_view(parse_errors@.last()),
                    ]);
                }
            },
        }
        k = k + 1;
    }
    if parse_errors.len() > 0 {
        return Err(parse_errors);
    }
    proof {
        assert(spec_models(output@) =~= parsed);
        assert(code_targets_in_range(output@));
    }
    match process_labels(output) {
        Ok((resolved, table)) => {
            proof {
                assert(forall|pc: usize|
                    #[trigger] table@.contains_key(pc) ==> table@[pc]@ == parsed[pc as int]->Label_0);
            }
            Ok((resolved, table))
        },
        Err(missing) => {
            proof {
                lemma_missing_idx_bounds(parsed, parsed.len() as int);
                let f = |p: (String, usize)| (p.0@, p.1 as int);
                assert forall|j: int|
                    0 <= j < missing@.len() implies ((#[trigger] missing@[j]).1 as int)
                    < pre_s.len() by {
                    assert(missing@.map_values(f)[j] == f(missing@[j]));
                    assert(spec_missing(parsed)[j].1 < parsed.len());
                };
            }
            let mut errs: Vec<ParseError> = Vec::new();
            let mut m: usize = 0;
            while m < missing.len()
                invariant
                    missing@.map_values(|p: (String, usize)| (p.0@, p.1 as int)) =~~= spec_missing(
                        parsed,
                    ),
                    missing@.len() == spec_missing(parsed).len(),
                    pre@.len() == pre_s.len(),
                    forall|j: int|
                        0 <= j < pre@.len() ==> (#[trigger] pre@[j]).0 as int == pre_s[j].0
                            && pre@[j].1@ == pre_s[j].1,
                    forall|j: int|
                        0 <= j < missing@.len() ==> ((#[trigger] missing@[j]).1 as int)
                            < pre_s.len(),
                    m <= missing@.len(),
                    errs@.len() == m,
                    forall|j: int|
                        0 <= j < m ==> {
                            let mm = spec_missing(parsed)[j];
                            &&& (#[trigger] errs@[j]).error_type == ParseErrorType::InvalidLabel
                            &&& errs@[j].location as int == pre_s[mm.1].0
                            &&& errs@[j].info matches Some(s) && s@ == mm.0
                        },
                decreases missing@.len() - m,
            {
                let idx = missing[m].1;
                let label = missing[m].0.clone();
                let line_no = pre[idx].0;
                errs.push(
                    ParseError {
                        error_type: ParseErrorType::InvalidLabel,
                        location: line_no,
                        info: Some(label),
                    },
                );
                m = m + 1;
            }
            Err(errs)
        },
    }
}

} // verus!
