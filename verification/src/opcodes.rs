//! Condition codes of jumps, conditional moves and conditional sets, and the
//! `atomically` suffix.
use vstd::prelude::*;

use crate::place::lit;
use crate::program::{AsmError, Fail, quoting};
use crate::text::{bytes_eq, ends_with, spec_strip_suffix, spec_trim, strip_suffix, trim, matches_at_exec};

verus! {

/// The short (8-bit displacement) opcode of a conditional jump written `if /flag`.
pub open spec fn spec_jcc_short(c: Seq<u8>) -> Option<u8> {
    if c == lit("if /carry") {
        Some(0x72)
    } else if c == lit("if !/carry") {
        Some(0x73)
    } else if c == lit("if /parity") {
        Some(0x7a)
    } else if c == lit("if !/parity") {
        Some(0x7b)
    } else if c == lit("if /zero") {
        Some(0x74)
    } else if c == lit("if !/zero") {
        Some(0x75)
    } else if c == lit("if /sign") {
        Some(0x78)
    } else if c == lit("if !/sign") {
        Some(0x79)
    } else if c == lit("if /overflow") {
        Some(0x70)
    } else if c == lit("if !/overflow") {
        Some(0x71)
    } else if c == lit("if /less") {
        Some(0x7c)
    } else if c == lit("if !/less") {
        Some(0x7d)
    } else if c == lit("if /less_or_equal") {
        Some(0x7e)
    } else if c == lit("if !/less_or_equal") {
        Some(0x7f)
    } else if c == lit("if /carry_or_zero") {
        Some(0x76)
    } else if c == lit("if !/carry_or_zero") {
        Some(0x77)
    } else {
        None
    }
}

/// The short opcode of a conditional jump.
pub fn jcc_short(c: &[u8]) -> (r: Option<u8>)
    ensures
        r == spec_jcc_short(c@),
{
    if bytes_eq(c, "if /carry".as_bytes()) {
        Some(0x72)
    } else if bytes_eq(c, "if !/carry".as_bytes()) {
        Some(0x73)
    } else if bytes_eq(c, "if /parity".as_bytes()) {
        Some(0x7a)
    } else if bytes_eq(c, "if !/parity".as_bytes()) {
        Some(0x7b)
    } else if bytes_eq(c, "if /zero".as_bytes()) {
        Some(0x74)
    } else if bytes_eq(c, "if !/zero".as_bytes()) {
        Some(0x75)
    } else if bytes_eq(c, "if /sign".as_bytes()) {
        Some(0x78)
    } else if bytes_eq(c, "if !/sign".as_bytes()) {
        Some(0x79)
    } else if bytes_eq(c, "if /overflow".as_bytes()) {
        Some(0x70)
    } else if bytes_eq(c, "if !/overflow".as_bytes()) {
        Some(0x71)
    } else if bytes_eq(c, "if /less".as_bytes()) {
        Some(0x7c)
    } else if bytes_eq(c, "if !/less".as_bytes()) {
        Some(0x7d)
    } else if bytes_eq(c, "if /less_or_equal".as_bytes()) {
        Some(0x7e)
    } else if bytes_eq(c, "if !/less_or_equal".as_bytes()) {
        Some(0x7f)
    } else if bytes_eq(c, "if /carry_or_zero".as_bytes()) {
        Some(0x76)
    } else if bytes_eq(c, "if !/carry_or_zero".as_bytes()) {
        Some(0x77)
    } else {
        None
    }
}

/// The second opcode byte (after 0x0f) of a conditional move on `/flag`.
pub open spec fn spec_cmovcc_opcode(c: Seq<u8>) -> Option<u8> {
    if c == lit("/overflow") {
        Some(0x40)
    } else if c == lit("!/overflow") {
        Some(0x41)
    } else if c == lit("/carry") {
        Some(0x42)
    } else if c == lit("!/carry") {
        Some(0x43)
    } else if c == lit("/zero") {
        Some(0x44)
    } else if c == lit("!/zero") {
        Some(0x45)
    } else if c == lit("/carry_or_zero") {
        Some(0x46)
    } else if c == lit("!/carry_or_zero") {
        Some(0x47)
    } else if c == lit("/sign") {
        Some(0x48)
    } else if c == lit("!/sign") {
        Some(0x49)
    } else if c == lit("/parity") {
        Some(0x4a)
    } else if c == lit("!/parity") {
        Some(0x4b)
    } else if c == lit("/less") {
        Some(0x4c)
    } else if c == lit("!/less") {
        Some(0x4d)
    } else if c == lit("/less_or_equal") {
        Some(0x4e)
    } else if c == lit("!/less_or_equal") {
        Some(0x4f)
    } else {
        None
    }
}

/// The second opcode byte of a conditional move on `/flag`.
pub fn cmovcc_opcode(c: &[u8]) -> (r: Option<u8>)
    ensures
        r == spec_cmovcc_opcode(c@),
{
    if bytes_eq(c, "/overflow".as_bytes()) {
        Some(0x40)
    } else if bytes_eq(c, "!/overflow".as_bytes()) {
        Some(0x41)
    } else if bytes_eq(c, "/carry".as_bytes()) {
        Some(0x42)
    } else if bytes_eq(c, "!/carry".as_bytes()) {
        Some(0x43)
    } else if bytes_eq(c, "/zero".as_bytes()) {
        Some(0x44)
    } else if bytes_eq(c, "!/zero".as_bytes()) {
        Some(0x45)
    } else if bytes_eq(c, "/carry_or_zero".as_bytes()) {
        Some(0x46)
    } else if bytes_eq(c, "!/carry_or_zero".as_bytes()) {
        Some(0x47)
    } else if bytes_eq(c, "/sign".as_bytes()) {
        Some(0x48)
    } else if bytes_eq(c, "!/sign".as_bytes()) {
        Some(0x49)
    } else if bytes_eq(c, "/parity".as_bytes()) {
        Some(0x4a)
    } else if bytes_eq(c, "!/parity".as_bytes()) {
        Some(0x4b)
    } else if bytes_eq(c, "/less".as_bytes()) {
        Some(0x4c)
    } else if bytes_eq(c, "!/less".as_bytes()) {
        Some(0x4d)
    } else if bytes_eq(c, "/less_or_equal".as_bytes()) {
        Some(0x4e)
    } else if bytes_eq(c, "!/less_or_equal".as_bytes()) {
        Some(0x4f)
    } else {
        None
    }
}

/// The second opcode byte (after 0x0f) of a conditional set on `/flag`.
pub open spec fn spec_setcc_opcode(c: Seq<u8>) -> Option<u8> {
    if c == lit("/carry") {
        Some(0x92)
    } else if c == lit("!/carry") {
        Some(0x93)
    } else if c == lit("/parity") {
        Some(0x9a)
    } else if c == lit("!/parity") {
        Some(0x9b)
    } else if c == lit("/zero") {
        Some(0x94)
    } else if c == lit("!/zero") {
        Some(0x95)
    } else if c == lit("/sign") {
        Some(0x98)
    } else if c == lit("!/sign") {
        Some(0x99)
    } else if c == lit("/overflow") {
        Some(0x90)
    } else if c == lit("!/overflow") {
        Some(0x91)
    } else if c == lit("/less") {
        Some(0x9c)
    } else if c == lit("!/less") {
        Some(0x9d)
    } else if c == lit("/less_or_equal") {
        Some(0x9e)
    } else if c == lit("!/less_or_equal") {
        Some(0x9f)
    } else if c == lit("/carry_or_zero") {
        Some(0x96)
    } else if c == lit("!/carry_or_zero") {
        Some(0x97)
    } else {
        None
    }
}

/// The second opcode byte of a conditional set on `/flag`.
pub fn setcc_opcode(c: &[u8]) -> (r: Option<u8>)
    ensures
        r == spec_setcc_opcode(c@),
{
    if bytes_eq(c, "/carry".as_bytes()) {
        Some(0x92)
    } else if bytes_eq(c, "!/carry".as_bytes()) {
        Some(0x93)
    } else if bytes_eq(c, "/parity".as_bytes()) {
        Some(0x9a)
    } else if bytes_eq(c, "!/parity".as_bytes()) {
        Some(0x9b)
    } else if bytes_eq(c, "/zero".as_bytes()) {
        Some(0x94)
    } else if bytes_eq(c, "!/zero".as_bytes()) {
        Some(0x95)
    } else if bytes_eq(c, "/sign".as_bytes()) {
        Some(0x98)
    } else if bytes_eq(c, "!/sign".as_bytes()) {
        Some(0x99)
    } else if bytes_eq(c, "/overflow".as_bytes()) {
        Some(0x90)
    } else if bytes_eq(c, "!/overflow".as_bytes()) {
        Some(0x91)
    } else if bytes_eq(c, "/less".as_bytes()) {
        Some(0x9c)
    } else if bytes_eq(c, "!/less".as_bytes()) {
        Some(0x9d)
    } else if bytes_eq(c, "/less_or_equal".as_bytes()) {
        Some(0x9e)
    } else if bytes_eq(c, "!/less_or_equal".as_bytes()) {
        Some(0x9f)
    } else if bytes_eq(c, "/carry_or_zero".as_bytes()) {
        Some(0x96)
    } else if bytes_eq(c, "!/carry_or_zero".as_bytes()) {
        Some(0x97)
    } else {
        None
    }
}

/// The prefix and opcode of a jump under `condition` (empty for an unconditional jump),
/// with a 32-bit displacement when `is_32_bit` and an 8-bit one otherwise. `/rcx_zero` and
/// `/ecx_zero` (`jrcxz`, `jecxz`) exist only as 0xe3 with an 8-bit displacement, and are
/// refused for the 32-bit form; `/ecx_zero` takes the address-size prefix 0x67.
pub open spec fn spec_jmp_opcode(condition: Seq<u8>, is_32_bit: bool) -> Result<
    (Option<u8>, u8),
    (),
> {
    let opcode: Result<u8, ()> = if condition.len() == 0 {
        Ok(if is_32_bit { 0xe9u8 } else { 0xebu8 })
    } else if let Some(short) = spec_jcc_short(condition) {
        Ok(if is_32_bit { (short + 0x10) as u8 } else { short })
    } else if condition == lit("if /rcx_zero") || condition == lit("if /ecx_zero") {
        if is_32_bit {
            Err(())
        } else {
            Ok(0xe3u8)
        }
    } else {
        Err(())
    };
    match opcode {
        Ok(op) => {
            let prefix = if op == 0xe9 {
                None
            } else if condition == lit("if /ecx_zero") {
                Some(0x67u8)
            } else if is_32_bit {
                Some(0x0fu8)
            } else {
                None
            };
            Ok((prefix, op))
        },
        Err(_) => Err(()),
    }
}

/// The prefix and opcode of a jump (see `spec_jmp_opcode`).
pub fn jmp_opcode(condition: &[u8], is_32_bit: bool) -> (r: Result<(Option<u8>, u8), AsmError>)
    ensures
        match r {
            Ok(v) => spec_jmp_opcode(condition@, is_32_bit) == Ok::<(Option<u8>, u8), ()>(v),
            Err(e) => spec_jmp_opcode(condition@, is_32_bit) is Err && e.fail() == Fail::Invalid,
        },
{
    let opcode: u8 = if condition.len() == 0 {
        if is_32_bit {
            0xe9
        } else {
            0xeb
        }
    } else if let Some(short) = jcc_short(condition) {
        if is_32_bit {
            short + 0x10
        } else {
            short
        }
    } else if bytes_eq(condition, "if /rcx_zero".as_bytes()) || bytes_eq(
        condition,
        "if /ecx_zero".as_bytes(),
    ) {
        if is_32_bit {
            return Err(
                AsmError::Invalid(
                    "due to x86 limitations, the /ecx_zero and /rcx_zero conditions can only be used with 8-bit offsets, and the required offset would overflow; consider using a different instruction, or reorganizing your code to reduce the length of the jump",
                ),
            );
        } else {
            0xe3
        }
    } else {
        return Err(
            quoting(
                "unrecognized condition: ",
                condition,
                "; allowed values: if [/carry, !/carry, /parity, !/parity, /zero, !/zero, /sign, !/sign, /overflow, !/overflow, /less, !/less, /less_or_equal, !/less_or_equal, /carry_or_zero, !/carry_or_zero, /rcx_zero, /ecx_zero]",
            ),
        );
    };
    proof {
        if condition@.len() == 0 {
            assert(condition@ =~= Seq::<u8>::empty());
        }
    }
    let prefix = if opcode == 0xe9 {
        None
    } else if bytes_eq(condition, "if /ecx_zero".as_bytes()) {
        Some(0x67)
    } else if is_32_bit {
        Some(0x0f)
    } else {
        None
    };
    Ok((prefix, opcode))
}

/// The flag test whose x86 condition code is `cc`: overflow 0, carry 2, zero 4,
/// carry_or_zero 6, sign 8, parity 0xa, less 0xc, less_or_equal 0xe, and each negated with
/// `!` one more.
pub open spec fn condition_text(cc: u8) -> Seq<u8> {
    let base = if cc / 2 == 0 {
        lit("/overflow")
    } else if cc / 2 == 1 {
        lit("/carry")
    } else if cc / 2 == 2 {
        lit("/zero")
    } else if cc / 2 == 3 {
        lit("/carry_or_zero")
    } else if cc / 2 == 4 {
        lit("/sign")
    } else if cc / 2 == 5 {
        lit("/parity")
    } else if cc / 2 == 6 {
        lit("/less")
    } else {
        lit("/less_or_equal")
    };
    if cc % 2 == 0 {
        base
    } else {
        lit("!") + base
    }
}

/// The lengths of the flag tests, and which of them differ.
#[verifier::spinoff_prover]
#[verifier::rlimit(60)]
proof fn lemma_condition_texts()
    ensures
        lit("/overflow").len() == 9,
        lit("!/overflow").len() == 10,
        lit("/carry").len() == 6,
        lit("!/carry").len() == 7,
        lit("/zero").len() == 5,
        lit("!/zero").len() == 6,
        lit("/carry_or_zero").len() == 14,
        lit("!/carry_or_zero").len() == 15,
        lit("/sign").len() == 5,
        lit("!/sign").len() == 6,
        lit("/parity").len() == 7,
        lit("!/parity").len() == 8,
        lit("/less").len() == 5,
        lit("!/less").len() == 6,
        lit("/less_or_equal").len() == 14,
        lit("!/less_or_equal").len() == 15,
        lit("/carry") != lit("!/zero"),
        lit("/carry") != lit("!/sign"),
        lit("/carry") != lit("!/less"),
        lit("!/carry") != lit("/parity"),
        lit("/zero") != lit("/sign"),
        lit("/zero") != lit("/less"),
        lit("!/zero") != lit("!/sign"),
        lit("!/zero") != lit("!/less"),
        lit("/carry_or_zero") != lit("/less_or_equal"),
        lit("!/carry_or_zero") != lit("!/less_or_equal"),
        lit("/sign") != lit("/less"),
        lit("!/sign") != lit("!/less"),
{
    reveal_strlit("/overflow");
    vstd::string::is_ascii_spec_bytes("/overflow");
    reveal_strlit("!/overflow");
    vstd::string::is_ascii_spec_bytes("!/overflow");
    reveal_strlit("/carry");
    vstd::string::is_ascii_spec_bytes("/carry");
    reveal_strlit("!/carry");
    vstd::string::is_ascii_spec_bytes("!/carry");
    reveal_strlit("/zero");
    vstd::string::is_ascii_spec_bytes("/zero");
    reveal_strlit("!/zero");
    vstd::string::is_ascii_spec_bytes("!/zero");
    reveal_strlit("/carry_or_zero");
    vstd::string::is_ascii_spec_bytes("/carry_or_zero");
    reveal_strlit("!/carry_or_zero");
    vstd::string::is_ascii_spec_bytes("!/carry_or_zero");
    reveal_strlit("/sign");
    vstd::string::is_ascii_spec_bytes("/sign");
    reveal_strlit("!/sign");
    vstd::string::is_ascii_spec_bytes("!/sign");
    reveal_strlit("/parity");
    vstd::string::is_ascii_spec_bytes("/parity");
    reveal_strlit("!/parity");
    vstd::string::is_ascii_spec_bytes("!/parity");
    reveal_strlit("/less");
    vstd::string::is_ascii_spec_bytes("/less");
    reveal_strlit("!/less");
    vstd::string::is_ascii_spec_bytes("!/less");
    reveal_strlit("/less_or_equal");
    vstd::string::is_ascii_spec_bytes("/less_or_equal");
    reveal_strlit("!/less_or_equal");
    vstd::string::is_ascii_spec_bytes("!/less_or_equal");
    assert(lit("/carry")[0] != lit("!/zero")[0]);
    assert(lit("/carry")[0] != lit("!/sign")[0]);
    assert(lit("/carry")[0] != lit("!/less")[0]);
    assert(lit("!/carry")[0] != lit("/parity")[0]);
    assert(lit("/zero")[1] != lit("/sign")[1]);
    assert(lit("/zero")[1] != lit("/less")[1]);
    assert(lit("!/zero")[2] != lit("!/sign")[2]);
    assert(lit("!/zero")[2] != lit("!/less")[2]);
    assert(lit("/carry_or_zero")[1] != lit("/less_or_equal")[1]);
    assert(lit("!/carry_or_zero")[2] != lit("!/less_or_equal")[2]);
    assert(lit("/sign")[1] != lit("/less")[1]);
    assert(lit("!/sign")[2] != lit("!/less")[2]);
}

/// The lengths of the jump conditions, and which of them differ.
#[verifier::spinoff_prover]
#[verifier::rlimit(60)]
proof fn lemma_jump_condition_texts()
    ensures
        lit("if /overflow").len() == 12,
        lit("if !/overflow").len() == 13,
        lit("if /carry").len() == 9,
        lit("if !/carry").len() == 10,
        lit("if /zero").len() == 8,
        lit("if !/zero").len() == 9,
        lit("if /carry_or_zero").len() == 17,
        lit("if !/carry_or_zero").len() == 18,
        lit("if /sign").len() == 8,
        lit("if !/sign").len() == 9,
        lit("if /parity").len() == 10,
        lit("if !/parity").len() == 11,
        lit("if /less").len() == 8,
        lit("if !/less").len() == 9,
        lit("if /less_or_equal").len() == 17,
        lit("if !/less_or_equal").len() == 18,
        lit("if /carry") != lit("if !/zero"),
        lit("if /carry") != lit("if !/sign"),
        lit("if /carry") != lit("if !/less"),
        lit("if !/carry") != lit("if /parity"),
        lit("if /zero") != lit("if /sign"),
        lit("if /zero") != lit("if /less"),
        lit("if !/zero") != lit("if !/sign"),
        lit("if !/zero") != lit("if !/less"),
        lit("if /carry_or_zero") != lit("if /less_or_equal"),
        lit("if !/carry_or_zero") != lit("if !/less_or_equal"),
        lit("if /sign") != lit("if /less"),
        lit("if !/sign") != lit("if !/less"),
{
    reveal_strlit("if /overflow");
    vstd::string::is_ascii_spec_bytes("if /overflow");
    reveal_strlit("if !/overflow");
    vstd::string::is_ascii_spec_bytes("if !/overflow");
    reveal_strlit("if /carry");
    vstd::string::is_ascii_spec_bytes("if /carry");
    reveal_strlit("if !/carry");
    vstd::string::is_ascii_spec_bytes("if !/carry");
    reveal_strlit("if /zero");
    vstd::string::is_ascii_spec_bytes("if /zero");
    reveal_strlit("if !/zero");
    vstd::string::is_ascii_spec_bytes("if !/zero");
    reveal_strlit("if /carry_or_zero");
    vstd::string::is_ascii_spec_bytes("if /carry_or_zero");
    reveal_strlit("if !/carry_or_zero");
    vstd::string::is_ascii_spec_bytes("if !/carry_or_zero");
    reveal_strlit("if /sign");
    vstd::string::is_ascii_spec_bytes("if /sign");
    reveal_strlit("if !/sign");
    vstd::string::is_ascii_spec_bytes("if !/sign");
    reveal_strlit("if /parity");
    vstd::string::is_ascii_spec_bytes("if /parity");
    reveal_strlit("if !/parity");
    vstd::string::is_ascii_spec_bytes("if !/parity");
    reveal_strlit("if /less");
    vstd::string::is_ascii_spec_bytes("if /less");
    reveal_strlit("if !/less");
    vstd::string::is_ascii_spec_bytes("if !/less");
    reveal_strlit("if /less_or_equal");
    vstd::string::is_ascii_spec_bytes("if /less_or_equal");
    reveal_strlit("if !/less_or_equal");
    vstd::string::is_ascii_spec_bytes("if !/less_or_equal");
    assert(lit("if /carry")[3] != lit("if !/zero")[3]);
    assert(lit("if /carry")[3] != lit("if !/sign")[3]);
    assert(lit("if /carry")[3] != lit("if !/less")[3]);
    assert(lit("if !/carry")[3] != lit("if /parity")[3]);
    assert(lit("if /zero")[4] != lit("if /sign")[4]);
    assert(lit("if /zero")[4] != lit("if /less")[4]);
    assert(lit("if !/zero")[5] != lit("if !/sign")[5]);
    assert(lit("if !/zero")[5] != lit("if !/less")[5]);
    assert(lit("if /carry_or_zero")[4] != lit("if /less_or_equal")[4]);
    assert(lit("if !/carry_or_zero")[5] != lit("if !/less_or_equal")[5]);
    assert(lit("if /sign")[4] != lit("if /less")[4]);
    assert(lit("if !/sign")[5] != lit("if !/less")[5]);
}

/// The negated flag tests are the flag tests after `!`, and the jump conditions are the
/// flag tests after `if `.
#[verifier::spinoff_prover]
#[verifier::rlimit(60)]
proof fn lemma_condition_concat()
    ensures
        lit("!") + lit("/overflow") == lit("!/overflow"),
        lit("!") + lit("/carry") == lit("!/carry"),
        lit("!") + lit("/zero") == lit("!/zero"),
        lit("!") + lit("/carry_or_zero") == lit("!/carry_or_zero"),
        lit("!") + lit("/sign") == lit("!/sign"),
        lit("!") + lit("/parity") == lit("!/parity"),
        lit("!") + lit("/less") == lit("!/less"),
        lit("!") + lit("/less_or_equal") == lit("!/less_or_equal"),
        lit("if ") + lit("/overflow") == lit("if /overflow"),
        lit("if ") + lit("!/overflow") == lit("if !/overflow"),
        lit("if ") + lit("/carry") == lit("if /carry"),
        lit("if ") + lit("!/carry") == lit("if !/carry"),
        lit("if ") + lit("/zero") == lit("if /zero"),
        lit("if ") + lit("!/zero") == lit("if !/zero"),
        lit("if ") + lit("/carry_or_zero") == lit("if /carry_or_zero"),
        lit("if ") + lit("!/carry_or_zero") == lit("if !/carry_or_zero"),
        lit("if ") + lit("/sign") == lit("if /sign"),
        lit("if ") + lit("!/sign") == lit("if !/sign"),
        lit("if ") + lit("/parity") == lit("if /parity"),
        lit("if ") + lit("!/parity") == lit("if !/parity"),
        lit("if ") + lit("/less") == lit("if /less"),
        lit("if ") + lit("!/less") == lit("if !/less"),
        lit("if ") + lit("/less_or_equal") == lit("if /less_or_equal"),
        lit("if ") + lit("!/less_or_equal") == lit("if !/less_or_equal"),
{
    reveal_strlit("!");
    vstd::string::is_ascii_spec_bytes("!");
    reveal_strlit("!/carry");
    vstd::string::is_ascii_spec_bytes("!/carry");
    reveal_strlit("!/carry_or_zero");
    vstd::string::is_ascii_spec_bytes("!/carry_or_zero");
    reveal_strlit("!/less");
    vstd::string::is_ascii_spec_bytes("!/less");
    reveal_strlit("!/less_or_equal");
    vstd::string::is_ascii_spec_bytes("!/less_or_equal");
    reveal_strlit("!/overflow");
    vstd::string::is_ascii_spec_bytes("!/overflow");
    reveal_strlit("!/parity");
    vstd::string::is_ascii_spec_bytes("!/parity");
    reveal_strlit("!/sign");
    vstd::string::is_ascii_spec_bytes("!/sign");
    reveal_strlit("!/zero");
    vstd::string::is_ascii_spec_bytes("!/zero");
    reveal_strlit("/carry");
    vstd::string::is_ascii_spec_bytes("/carry");
    reveal_strlit("/carry_or_zero");
    vstd::string::is_ascii_spec_bytes("/carry_or_zero");
    reveal_strlit("/less");
    vstd::string::is_ascii_spec_bytes("/less");
    reveal_strlit("/less_or_equal");
    vstd::string::is_ascii_spec_bytes("/less_or_equal");
    reveal_strlit("/overflow");
    vstd::string::is_ascii_spec_bytes("/overflow");
    reveal_strlit("/parity");
    vstd::string::is_ascii_spec_bytes("/parity");
    reveal_strlit("/sign");
    vstd::string::is_ascii_spec_bytes("/sign");
    reveal_strlit("/zero");
    vstd::string::is_ascii_spec_bytes("/zero");
    reveal_strlit("if ");
    vstd::string::is_ascii_spec_bytes("if ");
    reveal_strlit("if !/carry");
    vstd::string::is_ascii_spec_bytes("if !/carry");
    reveal_strlit("if !/carry_or_zero");
    vstd::string::is_ascii_spec_bytes("if !/carry_or_zero");
    reveal_strlit("if !/less");
    vstd::string::is_ascii_spec_bytes("if !/less");
    reveal_strlit("if !/less_or_equal");
    vstd::string::is_ascii_spec_bytes("if !/less_or_equal");
    reveal_strlit("if !/overflow");
    vstd::string::is_ascii_spec_bytes("if !/overflow");
    reveal_strlit("if !/parity");
    vstd::string::is_ascii_spec_bytes("if !/parity");
    reveal_strlit("if !/sign");
    vstd::string::is_ascii_spec_bytes("if !/sign");
    reveal_strlit("if !/zero");
    vstd::string::is_ascii_spec_bytes("if !/zero");
    reveal_strlit("if /carry");
    vstd::string::is_ascii_spec_bytes("if /carry");
    reveal_strlit("if /carry_or_zero");
    vstd::string::is_ascii_spec_bytes("if /carry_or_zero");
    reveal_strlit("if /less");
    vstd::string::is_ascii_spec_bytes("if /less");
    reveal_strlit("if /less_or_equal");
    vstd::string::is_ascii_spec_bytes("if /less_or_equal");
    reveal_strlit("if /overflow");
    vstd::string::is_ascii_spec_bytes("if /overflow");
    reveal_strlit("if /parity");
    vstd::string::is_ascii_spec_bytes("if /parity");
    reveal_strlit("if /sign");
    vstd::string::is_ascii_spec_bytes("if /sign");
    reveal_strlit("if /zero");
    vstd::string::is_ascii_spec_bytes("if /zero");
    assert(lit("!") + lit("/overflow") =~= lit("!/overflow"));
    assert(lit("!") + lit("/carry") =~= lit("!/carry"));
    assert(lit("!") + lit("/zero") =~= lit("!/zero"));
    assert(lit("!") + lit("/carry_or_zero") =~= lit("!/carry_or_zero"));
    assert(lit("!") + lit("/sign") =~= lit("!/sign"));
    assert(lit("!") + lit("/parity") =~= lit("!/parity"));
    assert(lit("!") + lit("/less") =~= lit("!/less"));
    assert(lit("!") + lit("/less_or_equal") =~= lit("!/less_or_equal"));
    assert(lit("if ") + lit("/overflow") =~= lit("if /overflow"));
    assert(lit("if ") + lit("!/overflow") =~= lit("if !/overflow"));
    assert(lit("if ") + lit("/carry") =~= lit("if /carry"));
    assert(lit("if ") + lit("!/carry") =~= lit("if !/carry"));
    assert(lit("if ") + lit("/zero") =~= lit("if /zero"));
    assert(lit("if ") + lit("!/zero") =~= lit("if !/zero"));
    assert(lit("if ") + lit("/carry_or_zero") =~= lit("if /carry_or_zero"));
    assert(lit("if ") + lit("!/carry_or_zero") =~= lit("if !/carry_or_zero"));
    assert(lit("if ") + lit("/sign") =~= lit("if /sign"));
    assert(lit("if ") + lit("!/sign") =~= lit("if !/sign"));
    assert(lit("if ") + lit("/parity") =~= lit("if /parity"));
    assert(lit("if ") + lit("!/parity") =~= lit("if !/parity"));
    assert(lit("if ") + lit("/less") =~= lit("if /less"));
    assert(lit("if ") + lit("!/less") =~= lit("if !/less"));
    assert(lit("if ") + lit("/less_or_equal") =~= lit("if /less_or_equal"));
    assert(lit("if ") + lit("!/less_or_equal") =~= lit("if !/less_or_equal"));
}

/// Jumps, conditional sets and conditional moves follow the x86 numbering of conditions:
/// the flag test with condition code `cc` (see `condition_text`) gives the short jump
/// 0x70 + cc, the long jump 0x0f 0x80 + cc, the set 0x0f 0x90 + cc and the move
/// 0x0f 0x40 + cc; and every condition that any of them accepts is one of these tests.
#[verifier::spinoff_prover]
#[verifier::rlimit(80)]
pub proof fn lemma_condition_codes(cc: u8, c: Seq<u8>)
    requires
        cc < 16,
    ensures
        spec_jcc_short(lit("if ") + condition_text(cc)) == Some((0x70 + cc) as u8),
        spec_jmp_opcode(lit("if ") + condition_text(cc), true) == Ok::<(Option<u8>, u8), ()>(
            (Some(0x0fu8), (0x80 + cc) as u8),
        ),
        spec_setcc_opcode(condition_text(cc)) == Some((0x90 + cc) as u8),
        spec_cmovcc_opcode(condition_text(cc)) == Some((0x40 + cc) as u8),
        spec_setcc_opcode(c) matches Some(op) ==> 0x90 <= op < 0xa0 && c == condition_text((op - 0x90) as u8),
        spec_cmovcc_opcode(c) matches Some(op) ==> 0x40 <= op < 0x50 && c == condition_text((op - 0x40) as u8),
        spec_jcc_short(c) matches Some(op) ==> 0x70 <= op < 0x80 && c == lit("if ") + condition_text(
            (op - 0x70) as u8,
        ),
{
    lemma_condition_texts();
    lemma_jump_condition_texts();
    lemma_condition_concat();
    lemma_zero_conditions_distinct();
}

/// The forms of a jump: under one of the sixteen flag conditions, an 8-bit form 0x70..=0x7f
/// without prefix and a 32-bit form 0x0f followed by that opcode plus 0x10; without a
/// condition, 0xeb and 0xe9; under `/rcx_zero` and `/ecx_zero`, only the 8-bit form 0xe3;
/// under any other condition, no form at all.
pub proof fn lemma_jump_forms(c: Seq<u8>)
    ensures
        c.len() > 0 && spec_jcc_short(c) is Some ==> {
            let op = spec_jcc_short(c).unwrap();
            &&& 0x70 <= op <= 0x7f
            &&& spec_jmp_opcode(c, false) == Ok::<(Option<u8>, u8), ()>((None, op))
            &&& spec_jmp_opcode(c, true) == Ok::<(Option<u8>, u8), ()>((Some(0x0fu8), (op + 0x10) as u8))
        },
        spec_jmp_opcode(seq![], false) == Ok::<(Option<u8>, u8), ()>((None, 0xebu8)),
        spec_jmp_opcode(seq![], true) == Ok::<(Option<u8>, u8), ()>((None, 0xe9u8)),
        c == lit("if /rcx_zero") ==> spec_jmp_opcode(c, false) == Ok::<(Option<u8>, u8), ()>((None, 0xe3u8))
            && spec_jmp_opcode(c, true) is Err,
        c == lit("if /ecx_zero") ==> spec_jmp_opcode(c, false) == Ok::<(Option<u8>, u8), ()>(
            (Some(0x67u8), 0xe3u8),
        ) && spec_jmp_opcode(c, true) is Err,
        c.len() > 0 && spec_jcc_short(c) is None && c != lit("if /rcx_zero") && c != lit("if /ecx_zero")
            ==> spec_jmp_opcode(c, false) is Err && spec_jmp_opcode(c, true) is Err,
{
    lemma_zero_conditions_distinct();
}

/// `/rcx_zero` and `/ecx_zero` differ from each other and from the sixteen flag conditions.
#[verifier::spinoff_prover]
#[verifier::rlimit(60)]
proof fn lemma_zero_conditions_distinct()
    ensures
        lit("if /rcx_zero") != lit("if /ecx_zero"),
        spec_jcc_short(lit("if /rcx_zero")) is None,
        spec_jcc_short(lit("if /ecx_zero")) is None,
        lit("if /rcx_zero").len() > 0,
        lit("if /ecx_zero").len() > 0,
{
    reveal_strlit("if /rcx_zero");
    vstd::string::is_ascii_spec_bytes("if /rcx_zero");
    assert(lit("if /rcx_zero").len() == 12);
    reveal_strlit("if /ecx_zero");
    vstd::string::is_ascii_spec_bytes("if /ecx_zero");
    assert(lit("if /ecx_zero").len() == 12);
    reveal_strlit("if /carry");
    vstd::string::is_ascii_spec_bytes("if /carry");
    assert(lit("if /carry").len() == 9);
    reveal_strlit("if !/carry");
    vstd::string::is_ascii_spec_bytes("if !/carry");
    assert(lit("if !/carry").len() == 10);
    reveal_strlit("if /parity");
    vstd::string::is_ascii_spec_bytes("if /parity");
    assert(lit("if /parity").len() == 10);
    reveal_strlit("if !/parity");
    vstd::string::is_ascii_spec_bytes("if !/parity");
    assert(lit("if !/parity").len() == 11);
    reveal_strlit("if /zero");
    vstd::string::is_ascii_spec_bytes("if /zero");
    assert(lit("if /zero").len() == 8);
    reveal_strlit("if !/zero");
    vstd::string::is_ascii_spec_bytes("if !/zero");
    assert(lit("if !/zero").len() == 9);
    reveal_strlit("if /sign");
    vstd::string::is_ascii_spec_bytes("if /sign");
    assert(lit("if /sign").len() == 8);
    reveal_strlit("if !/sign");
    vstd::string::is_ascii_spec_bytes("if !/sign");
    assert(lit("if !/sign").len() == 9);
    reveal_strlit("if /overflow");
    vstd::string::is_ascii_spec_bytes("if /overflow");
    assert(lit("if /overflow").len() == 12);
    reveal_strlit("if !/overflow");
    vstd::string::is_ascii_spec_bytes("if !/overflow");
    assert(lit("if !/overflow").len() == 13);
    reveal_strlit("if /less");
    vstd::string::is_ascii_spec_bytes("if /less");
    assert(lit("if /less").len() == 8);
    reveal_strlit("if !/less");
    vstd::string::is_ascii_spec_bytes("if !/less");
    assert(lit("if !/less").len() == 9);
    reveal_strlit("if /less_or_equal");
    vstd::string::is_ascii_spec_bytes("if /less_or_equal");
    assert(lit("if /less_or_equal").len() == 17);
    reveal_strlit("if !/less_or_equal");
    vstd::string::is_ascii_spec_bytes("if !/less_or_equal");
    assert(lit("if !/less_or_equal").len() == 18);
    reveal_strlit("if /carry_or_zero");
    vstd::string::is_ascii_spec_bytes("if /carry_or_zero");
    assert(lit("if /carry_or_zero").len() == 17);
    reveal_strlit("if !/carry_or_zero");
    vstd::string::is_ascii_spec_bytes("if !/carry_or_zero");
    assert(lit("if !/carry_or_zero").len() == 18);
    assert(lit("if /rcx_zero")[4] != lit("if /overflow")[4]);
    assert(lit("if /rcx_zero")[4] != lit("if /ecx_zero")[4]);
    assert(lit("if /ecx_zero")[4] != lit("if /overflow")[4]);
}

/// Fails when the operation was asked to be atomic.
pub fn assert_not_atomic(atomic: bool) -> (r: Result<(), &'static str>)
    ensures
        r is Ok <==> !atomic,
{
    if atomic {
        Err("this operation cannot be performed atomically")
    } else {
        Ok(())
    }
}

/// Fails when the line ends with ` atomically`.
pub fn error_if_atomic(line: &[u8]) -> (r: Result<(), &'static str>)
    ensures
        r is Ok <==> !ends_with(line@, lit(" atomically")),
{
    let suffix = " atomically".as_bytes();
    if suffix.len() <= line.len() && matches_at_exec(line, suffix, line.len() - suffix.len()) {
        Err("this operation cannot be performed atomically")
    } else {
        Ok(())
    }
}

/// `s` without a trailing ` atomically` (then trimmed), and whether it was there.
pub open spec fn spec_extract_atomic_suffix(s: Seq<u8>) -> (Seq<u8>, bool) {
    match spec_strip_suffix(s, lit(" atomically")) {
        Some(rest) => (spec_trim(rest), true),
        None => (s, false),
    }
}

/// `s` without a trailing ` atomically` (then trimmed), and whether it was there.
pub fn extract_atomic_suffix(s: &[u8]) -> (r: (&[u8], bool))
    ensures
        spec_extract_atomic_suffix(s@) == (r.0@, r.1),
{
    match strip_suffix(s, " atomically".as_bytes()) {
        Some(rest) => (trim(rest), true),
        None => (s, false),
    }
}

} // verus!
