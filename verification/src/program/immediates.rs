//! Immediates (`42`, `0xff`, `"ab"`, `@len(name)`, ...) and address expressions
//! (`rax + rcx * 4 - 8`).
use vstd::prelude::*;
use vstd::string::StringSliceAdditionalSpecFns;

use crate::immediate::{Immediate, ImmediateModel, ImmediateOf, le_value, le_value_of};
use crate::place::{
    Displacement, EffectiveAddress, Scale, lit, parse_multiplier_and_register_bytes, spec_scaled_register,
};
use crate::program::{AsmError, Fail, Program, ProgramModel, find_text_from, invalid, quoting, quoting_because};
use crate::registers::Register;
use crate::strings::{parse_string_bytes, spec_parse_string};
use crate::text::{
    all_bytes, all_hex_digits, bytes_eq, find_either_from, hex_digit, hex_digit_value, is_hex_digit,
    is_decimal_syntax, parse_decimal, parse_hex, spec_decimal, spec_find_either_from, spec_hex,
    spec_split_once, spec_strip_prefix, spec_strip_suffix, spec_trim, split_once, strip_prefix,
    strip_suffix, trim,
};

verus! {

/// The immediate that a string literal's bytes make: an unsigned integer of 1, 2, 4 or 8
/// bytes read in little-endian order, or the raw bytes.
pub open spec fn bytes_imm(data: Seq<u8>) -> ImmediateModel {
    if data.len() == 1 {
        ImmediateOf::ImmU8(data[0])
    } else if data.len() == 2 {
        ImmediateOf::ImmU16(le_value(data) as u16)
    } else if data.len() == 4 {
        ImmediateOf::ImmU32(le_value(data) as u32)
    } else if data.len() == 8 {
        ImmediateOf::ImmU64(le_value(data) as u64)
    } else {
        ImmediateOf::Unsized(data)
    }
}

/// The smallest unsigned immediate that holds `v`.
pub open spec fn hex_imm(v: nat) -> ImmediateModel {
    if v <= u8::MAX {
        ImmediateOf::ImmU8(v as u8)
    } else if v <= u16::MAX {
        ImmediateOf::ImmU16(v as u16)
    } else if v <= u32::MAX {
        ImmediateOf::ImmU32(v as u32)
    } else {
        ImmediateOf::ImmU64(v as u64)
    }
}

/// The bytes written as an even number of hex digits, the last pair first.
pub open spec fn hex_le_bytes(s: Seq<u8>) -> Seq<u8> {
    Seq::new(
        s.len() / 2,
        |k: int|
            (hex_digit_value(s[s.len() - 2 - 2 * k]) * 16 + hex_digit_value(s[s.len() - 1 - 2 * k]))
                as u8,
    )
}

/// The smallest signed immediate that holds `n`, else an unsigned 64-bit one, else none.
pub open spec fn decimal_imm(n: int) -> Option<ImmediateModel> {
    if i8::MIN <= n <= i8::MAX {
        Some(ImmediateOf::Imm8(n as i8))
    } else if i16::MIN <= n <= i16::MAX {
        Some(ImmediateOf::Imm16(n as i16))
    } else if i32::MIN <= n <= i32::MAX {
        Some(ImmediateOf::Imm32(n as i32))
    } else if i64::MIN <= n <= i64::MAX {
        Some(ImmediateOf::Imm64(n as i64))
    } else if 0 <= n <= u64::MAX {
        Some(ImmediateOf::ImmU64(n as u64))
    } else {
        None
    }
}

/// The immediate written as `s0`, if it is one. After trimming: `@f64(text)`, `@f32(text)`
/// (with the bits given for `text`) and `@len(name)` (the size of a static); a string
/// literal; `0x` with hex digits (the smallest unsigned type that holds the value, or
/// raw bytes for longer literals with an even number of digits); a decimal integer.
/// Anything else is not an immediate; a malformed `@` form or hex literal is an error.
#[verifier::opaque]
pub open spec fn spec_try_resolve_imm(m: ProgramModel, s0: Seq<u8>) -> Result<
    Option<ImmediateModel>,
    Fail,
> {
    let s = spec_trim(s0);
    if let Some(rest) = spec_strip_prefix(s, lit("@")) {
        match spec_split_once(rest, lit("(")) {
            None => Err(Fail::Invalid),
            Some((name, r)) => match spec_strip_suffix(r, lit(")")) {
                None => Err(Fail::Invalid),
                Some(arg) => if name == lit("f64") {
                    match find_text_from(m.f64_bits, arg, 0) {
                        Some(i) => Ok(Some(ImmediateOf::ImmU64(m.f64_bits[i].1))),
                        None => Err(Fail::Invalid),
                    }
                } else if name == lit("f32") {
                    match find_text_from(m.f32_bits, arg, 0) {
                        Some(i) => Ok(Some(ImmediateOf::ImmU32(m.f32_bits[i].1))),
                        None => Err(Fail::Invalid),
                    }
                } else if name == lit("len") {
                    match m.global_index(arg) {
                        Some(i) => Ok(Some(ImmediateOf::ImmU64(m.globals[i].data.len() as u64))),
                        None => Err(Fail::Invalid),
                    }
                } else {
                    Err(Fail::Invalid)
                },
            },
        }
    } else if let Some(data) = spec_parse_string(s) {
        Ok(Some(bytes_imm(data)))
    } else if let Some(rest) = spec_strip_prefix(s, lit("0x")) {
        if spec_hex(rest) is Some && spec_hex(rest).unwrap() <= u64::MAX {
            Ok(Some(hex_imm(spec_hex(rest).unwrap())))
        } else if all_bytes(rest, |c: u8| is_hex_digit(c)) {
            if rest.len() % 2 == 1 {
                Err(Fail::Invalid)
            } else {
                Ok(Some(ImmediateOf::Unsized(hex_le_bytes(rest))))
            }
        } else {
            Err(Fail::Invalid)
        }
    } else {
        match spec_decimal(s) {
            Some(n) => Ok(decimal_imm(n)),
            None => Ok(None),
        }
    }
}

fn bytes_imm_exec(data: Vec<u8>) -> (r: Immediate)
    ensures
        r.model() == bytes_imm(data@),
{
    if data.len() == 1 {
        ImmediateOf::ImmU8(data[0])
    } else if data.len() == 2 {
        ImmediateOf::ImmU16(le_value_of(data.as_slice()) as u16)
    } else if data.len() == 4 {
        ImmediateOf::ImmU32(le_value_of(data.as_slice()) as u32)
    } else if data.len() == 8 {
        ImmediateOf::ImmU64(le_value_of(data.as_slice()))
    } else {
        ImmediateOf::Unsized(data)
    }
}

fn hex_le_bytes_exec(s: &[u8]) -> (r: Vec<u8>)
    requires
        all_bytes(s@, |c: u8| is_hex_digit(c)),
        s@.len() % 2 == 0,
    ensures
        r@ == hex_le_bytes(s@),
{
    let n = s.len() / 2;
    let mut out: Vec<u8> = Vec::new();
    let mut k: usize = 0;
    while k < n
        invariant
            n == s.len() / 2,
            s@.len() % 2 == 0,
            all_bytes(s@, |c: u8| is_hex_digit(c)),
            k <= n,
            out@.len() == k,
            forall|j: int| 0 <= j < k ==> out@[j] == #[trigger] hex_le_bytes(s@)[j],
        decreases n - k,
    {
        let hi = s[s.len() - 2 - 2 * k];
        let lo = s[s.len() - 1 - 2 * k];
        assert(is_hex_digit(s@[s.len() - 2 - 2 * k]));
        assert(is_hex_digit(s@[s.len() - 1 - 2 * k]));
        out.push(hex_digit(hi) * 16 + hex_digit(lo));
        k += 1;
    }
    assert(out@ =~= hex_le_bytes(s@));
    out
}

fn hex_imm_exec(v: u64) -> (r: Immediate)
    ensures
        r.model() == hex_imm(v as nat),
{
    if v <= u8::MAX as u64 {
        ImmediateOf::ImmU8(v as u8)
    } else if v <= u16::MAX as u64 {
        ImmediateOf::ImmU16(v as u16)
    } else if v <= u32::MAX as u64 {
        ImmediateOf::ImmU32(v as u32)
    } else {
        ImmediateOf::ImmU64(v)
    }
}

fn decimal_imm_exec(n: i128) -> (r: Option<Immediate>)
    ensures
        match r {
            Some(i) => decimal_imm(n as int) == Some(i.model()),
            None => decimal_imm(n as int) is None,
        },
{
    if i8::MIN as i128 <= n && n <= i8::MAX as i128 {
        Some(ImmediateOf::Imm8(n as i8))
    } else if i16::MIN as i128 <= n && n <= i16::MAX as i128 {
        Some(ImmediateOf::Imm16(n as i16))
    } else if i32::MIN as i128 <= n && n <= i32::MAX as i128 {
        Some(ImmediateOf::Imm32(n as i32))
    } else if i64::MIN as i128 <= n && n <= i64::MAX as i128 {
        Some(ImmediateOf::Imm64(n as i64))
    } else if 0 <= n && n <= u64::MAX as i128 {
        Some(ImmediateOf::ImmU64(n as u64))
    } else {
        None
    }
}

impl Program {
    fn find_f64(&self, text: &[u8]) -> (r: Option<usize>)
        ensures
            match r {
                Some(i) => find_text_from(self.model().f64_bits, text@, 0) == Some(i as int) && i
                    < self.f64_bits.len(),
                None => find_text_from(self.model().f64_bits, text@, 0) is None,
            },
    {
        proof {
            crate::program::lemma_find_text_bounds(self.model().f64_bits, text@, 0);
        }
        let ghost t = self.model().f64_bits;
        let mut i: usize = 0;
        while i < self.f64_bits.len()
            invariant
                i <= self.f64_bits.len(),
                t == self.model().f64_bits,
                find_text_from(t, text@, 0) == find_text_from(t, text@, i as int),
            decreases self.f64_bits.len() - i,
        {
            if bytes_eq(self.f64_bits[i].0.as_slice(), text) {
                return Some(i);
            }
            i += 1;
        }
        None
    }

    fn find_f32(&self, text: &[u8]) -> (r: Option<usize>)
        ensures
            match r {
                Some(i) => find_text_from(self.model().f32_bits, text@, 0) == Some(i as int) && i
                    < self.f32_bits.len(),
                None => find_text_from(self.model().f32_bits, text@, 0) is None,
            },
    {
        proof {
            crate::program::lemma_find_text_bounds(self.model().f32_bits, text@, 0);
        }
        let ghost t = self.model().f32_bits;
        let mut i: usize = 0;
        while i < self.f32_bits.len()
            invariant
                i <= self.f32_bits.len(),
                t == self.model().f32_bits,
                find_text_from(t, text@, 0) == find_text_from(t, text@, i as int),
            decreases self.f32_bits.len() - i,
        {
            if bytes_eq(self.f32_bits[i].0.as_slice(), text) {
                return Some(i);
            }
            i += 1;
        }
        None
    }

    fn resolve_builtin_imm(&self, rest: &[u8]) -> (r: Result<Option<Immediate>, AsmError>)
        ensures
            match r {
                Ok(v) => spec_builtin_imm(self.model(), rest@) == Ok::<Option<ImmediateModel>, Fail>(
                    match v {
                        Some(i) => Some(i.model()),
                        None => None,
                    },
                ),
                Err(e) => spec_builtin_imm(self.model(), rest@) == Err::<Option<ImmediateModel>, Fail>(
                    e.fail(),
                ),
            },
    {
        let (name, r) = match split_once(rest, "(".as_bytes()) {
            Some(v) => v,
            None => return Err(AsmError::Invalid("missing opening bracket")),
        };
        let arg = match strip_suffix(r, ")".as_bytes()) {
            Some(a) => a,
            None => return Err(AsmError::Invalid("missing closing bracket")),
        };
        if bytes_eq(name, "f64".as_bytes()) {
            match self.find_f64(arg) {
                Some(i) => Ok(Some(ImmediateOf::ImmU64(self.f64_bits[i].1))),
                None => Err(AsmError::Invalid("could not parse f64")),
            }
        } else if bytes_eq(name, "f32".as_bytes()) {
            match self.find_f32(arg) {
                Some(i) => Ok(Some(ImmediateOf::ImmU32(self.f32_bits[i].1))),
                None => Err(AsmError::Invalid("could not parse f32")),
            }
        } else if bytes_eq(name, "len".as_bytes()) {
            match self.global_index(arg) {
                Some(i) => Ok(Some(ImmediateOf::ImmU64(self.global_data_len(i) as u64))),
                None => Err(quoting("", arg, " is not defined as a static")),
            }
        } else {
            Err(AsmError::Invalid("invalid builtin; valid options here are @f64(), @f32(), or @len()"))
        }
    }

    /// The immediate written as `s`, if it is one (see `spec_try_resolve_imm`).
    pub fn try_resolve_imm(&self, s: &[u8]) -> (r: Result<Option<Immediate>, AsmError>)
        ensures
            match r {
                Ok(v) => spec_try_resolve_imm(self.model(), s@) == Ok::<Option<ImmediateModel>, Fail>(
                    match v {
                        Some(i) => Some(i.model()),
                        None => None,
                    },
                ),
                Err(e) => spec_try_resolve_imm(self.model(), s@) == Err::<Option<ImmediateModel>, Fail>(
                    e.fail(),
                ),
            },
    {
        proof {
            reveal(spec_try_resolve_imm);
        }
        let s = trim(s);
        if let Some(rest) = strip_prefix(s, "@".as_bytes()) {
            return self.resolve_builtin_imm(rest);
        }
        if let Ok(data) = parse_string_bytes(s) {
            return Ok(Some(bytes_imm_exec(data)));
        }
        if let Some(rest) = strip_prefix(s, "0x".as_bytes()) {
            if let Some(v) = parse_hex(rest) {
                return Ok(Some(hex_imm_exec(v)));
            } else if all_hex_digits(rest) {
                if rest.len() % 2 == 1 {
                    return Err(AsmError::Invalid("hex string must have an even number of digits"));
                }
                proof {
                    if spec_hex(rest@) is Some {
                        assert(spec_hex(rest@).unwrap() > u64::MAX);
                    }
                }
                return Ok(Some(ImmediateOf::Unsized(hex_le_bytes_exec(rest))));
            } else {
                return Err(AsmError::Invalid("invalid hex string"));
            }
        }
        match parse_decimal(s) {
            Some(n) => Ok(decimal_imm_exec(n)),
            None => Ok(None),
        }
    }
}

/// The immediate of an `@name(arg)` form (the text after `@`).
pub open spec fn spec_builtin_imm(m: ProgramModel, rest: Seq<u8>) -> Result<Option<ImmediateModel>, Fail> {
    match spec_split_once(rest, lit("(")) {
        None => Err(Fail::Invalid),
        Some((name, r)) => match spec_strip_suffix(r, lit(")")) {
            None => Err(Fail::Invalid),
            Some(arg) => if name == lit("f64") {
                match find_text_from(m.f64_bits, arg, 0) {
                    Some(i) => Ok(Some(ImmediateOf::ImmU64(m.f64_bits[i].1))),
                    None => Err(Fail::Invalid),
                }
            } else if name == lit("f32") {
                match find_text_from(m.f32_bits, arg, 0) {
                    Some(i) => Ok(Some(ImmediateOf::ImmU32(m.f32_bits[i].1))),
                    None => Err(Fail::Invalid),
                }
            } else if name == lit("len") {
                match m.global_index(arg) {
                    Some(i) => Ok(Some(ImmediateOf::ImmU64(m.globals[i].data.len() as u64))),
                    None => Err(Fail::Invalid),
                }
            } else {
                Err(Fail::Invalid)
            },
        },
    }
}


/// A scaled register of an address expression, with its scale.
pub type Term = Option<(Scale, Register)>;

/// `-v` with wrap-around for the most negative value.
pub open spec fn wrapping_neg8(v: i8) -> i8 {
    if v == i8::MIN {
        v
    } else {
        (-v) as i8
    }
}

/// `-v` with wrap-around for the most negative value.
pub open spec fn wrapping_neg32(v: i32) -> i32 {
    if v == i32::MIN {
        v
    } else {
        (-v) as i32
    }
}

/// The displacement of an immediate in an address expression: 8 bits when it fits, else
/// 32 bits, negated when `neg`; only one displacement is allowed.
pub open spec fn spec_ea_disp(imm: ImmediateModel, neg: bool, disp: Option<Displacement>) -> Result<
    Option<Displacement>,
    Fail,
> {
    if disp is Some {
        Err(Fail::Invalid)
    } else if let Some(v) = imm.spec_cast_i8() {
        Ok(Some(Displacement::Byte(if neg { wrapping_neg8(v) } else { v })))
    } else if let Some(v) = imm.spec_cast_i32() {
        Ok(Some(Displacement::Dword(if neg { wrapping_neg32(v) } else { v })))
    } else {
        Err(Fail::Invalid)
    }
}

/// One term `curr` of an address expression, preceded by `-` when `neg`: an immediate
/// becomes the displacement, a (scaled) register fills the first free register slot.
pub open spec fn spec_ea_term(
    m: ProgramModel,
    curr: Seq<u8>,
    neg: bool,
    t1: Term,
    t2: Term,
    disp: Option<Displacement>,
) -> Result<(Term, Term, Option<Displacement>), Fail> {
    match spec_try_resolve_imm(m, curr) {
        Err(f) => Err(f),
        Ok(Some(imm)) => match spec_ea_disp(imm, neg, disp) {
            Ok(d) => Ok((t1, t2, d)),
            Err(f) => Err(f),
        },
        Ok(None) => if neg {
            Err(Fail::Invalid)
        } else {
            match spec_scaled_register(curr) {
                Ok(t) => if t1 is None {
                    Ok((Some(t), t2, disp))
                } else if t2 is None {
                    Ok((t1, Some(t), disp))
                } else {
                    Err(Fail::Invalid)
                },
                Err(_) => Err(Fail::Invalid),
            }
        },
    }
}

/// The base and index that two register terms make: `rsp` can only be the base, and the
/// base is a register with scale one.
pub open spec fn spec_ea_finish(t1: Term, t2: Term, disp: Option<Displacement>) -> Result<
    EffectiveAddress,
    Fail,
> {
    let is_rsp = |t: Term| t matches Some((_, r)) && r == Register::Rsp;
    let plain = |t: Term| t matches Some((sc, _)) && sc == Scale::One;
    if t1 is None && t2 is None {
        Err(Fail::Invalid)
    } else if is_rsp(t1) && is_rsp(t2) {
        Err(Fail::Invalid)
    } else if is_rsp(t1) && plain(t1) {
        Ok(EffectiveAddress { base: Some(Register::Rsp), index: t2, disp })
    } else if is_rsp(t2) && plain(t2) {
        Ok(EffectiveAddress { base: Some(Register::Rsp), index: t1, disp })
    } else if is_rsp(t1) || is_rsp(t2) {
        Err(Fail::Invalid)
    } else if plain(t1) {
        Ok(EffectiveAddress { base: Some(t1.unwrap().1), index: t2, disp })
    } else if plain(t2) {
        Ok(EffectiveAddress { base: Some(t2.unwrap().1), index: t1, disp })
    } else if t1 is Some && t2 is None {
        Ok(EffectiveAddress { base: None, index: t1, disp })
    } else if t1 is None && t2 is Some {
        Ok(EffectiveAddress { base: None, index: t2, disp })
    } else {
        Err(Fail::Invalid)
    }
}

/// The rest `s` of an address expression, scanned term by term: a leading `-` flips the
/// sign of the next term, and each term ends at the next `+` or `-`.
pub open spec fn spec_ea_loop(
    m: ProgramModel,
    s: Seq<u8>,
    t1: Term,
    t2: Term,
    disp: Option<Displacement>,
    neg: bool,
) -> Result<EffectiveAddress, Fail>
    decreases s.len(),
{
    if s.len() == 0 {
        spec_ea_finish(t1, t2, disp)
    } else {
        let neg1 = if s[0] == 0x2d { !neg } else { neg };
        let s1 = if s[0] == 0x2d { spec_trim(s.drop_first()) } else { s };
        proof {
            crate::text::lemma_trim_len(s.drop_first());
        }
        match spec_find_either_from(s1, 0x2b, 0x2d, 0) {
            Some(i) => {
                proof {
                    crate::text::lemma_find_either_bounds(s1, 0x2b, 0x2d, 0);
                    crate::text::lemma_trim_len(s1.subrange(i + 1, s1.len() as int));
                }
                let curr = spec_trim(s1.subrange(0, i));
                let next = spec_trim(s1.subrange(i + 1, s1.len() as int));
                match spec_ea_term(m, curr, neg1, t1, t2, disp) {
                    Ok((a, b, d)) => spec_ea_loop(m, next, a, b, d, s1[i] == 0x2d),
                    Err(f) => Err(f),
                }
            },
            None => match spec_ea_term(m, spec_trim(s1), neg1, t1, t2, disp) {
                Ok((a, b, d)) => spec_ea_loop(m, seq![], a, b, d, false),
                Err(f) => Err(f),
            },
        }
    }
}

/// The memory operand written as an address expression such as `rax + rcx * 4 - 8`.
pub open spec fn spec_resolve_effective_address(m: ProgramModel, s: Seq<u8>) -> Result<
    EffectiveAddress,
    Fail,
> {
    spec_ea_loop(m, s, None, None, None, false)
}

fn ea_finish(t1: Term, t2: Term, disp: Option<Displacement>) -> (r: Result<EffectiveAddress, AsmError>)
    ensures
        match r {
            Ok(ea) => spec_ea_finish(t1, t2, disp) == Ok::<EffectiveAddress, Fail>(ea),
            Err(e) => spec_ea_finish(t1, t2, disp) == Err::<EffectiveAddress, Fail>(e.fail()),
        },
{
    let rsp1 = matches!(t1, Some((_, Register::Rsp)));
    let rsp2 = matches!(t2, Some((_, Register::Rsp)));
    let plain1 = matches!(t1, Some((Scale::One, _)));
    let plain2 = matches!(t2, Some((Scale::One, _)));
    if t1.is_none() && t2.is_none() {
        Err(AsmError::Invalid("at least one register must be specified"))
    } else if rsp1 && rsp2 {
        Err(AsmError::Invalid("rsp cannot be used twice"))
    } else if rsp1 && plain1 {
        Ok(EffectiveAddress { base: Some(Register::Rsp), index: t2, disp })
    } else if rsp2 && plain2 {
        Ok(EffectiveAddress { base: Some(Register::Rsp), index: t1, disp })
    } else if rsp1 || rsp2 {
        Err(AsmError::Invalid("rsp cannot be shifted or multiplied"))
    } else if plain1 {
        Ok(EffectiveAddress { base: Some(t1.unwrap().1), index: t2, disp })
    } else if plain2 {
        Ok(EffectiveAddress { base: Some(t2.unwrap().1), index: t1, disp })
    } else if t1.is_some() && t2.is_none() {
        Ok(EffectiveAddress { base: None, index: t1, disp })
    } else if t1.is_none() && t2.is_some() {
        Ok(EffectiveAddress { base: None, index: t2, disp })
    } else {
        Err(AsmError::Invalid("only one register can be scaled and multiplied"))
    }
}

fn ea_disp(imm: &Immediate, neg: bool, disp: Option<Displacement>) -> (r: Result<Option<Displacement>, AsmError>)
    ensures
        match r {
            Ok(d) => spec_ea_disp(imm.model(), neg, disp) == Ok::<Option<Displacement>, Fail>(d),
            Err(e) => spec_ea_disp(imm.model(), neg, disp) == Err::<Option<Displacement>, Fail>(e.fail()),
        },
{
    if disp.is_some() {
        Err(AsmError::Invalid("only one immediate is allowed in an expression"))
    } else if let Ok(v) = imm.cast_i8() {
        let d = if neg {
            if v == i8::MIN {
                v
            } else {
                -v
            }
        } else {
            v
        };
        Ok(Some(Displacement::Byte(d)))
    } else if let Ok(v) = imm.cast_i32() {
        let d = if neg {
            if v == i32::MIN {
                v
            } else {
                -v
            }
        } else {
            v
        };
        Ok(Some(Displacement::Dword(d)))
    } else {
        Err(AsmError::Invalid("immediate cannot be more than 32 bits"))
    }
}

impl Program {
    fn ea_term(&self, curr: &[u8], neg: bool, t1: Term, t2: Term, disp: Option<Displacement>) -> (r:
        Result<(Term, Term, Option<Displacement>), AsmError>)
        ensures
            match r {
                Ok(v) => spec_ea_term(self.model(), curr@, neg, t1, t2, disp) == Ok::<
                    (Term, Term, Option<Displacement>),
                    Fail,
                >(v),
                Err(e) => spec_ea_term(self.model(), curr@, neg, t1, t2, disp) == Err::<
                    (Term, Term, Option<Displacement>),
                    Fail,
                >(e.fail()),
            },
    {
        match self.try_resolve_imm(curr)? {
            Some(imm) => {
                let d = ea_disp(&imm, neg, disp)?;
                Ok((t1, t2, d))
            },
            None => {
                if neg {
                    return Err(AsmError::Invalid("the `-` symbol cannot be used with a register"));
                }
                match parse_multiplier_and_register_bytes(curr) {
                    Ok(t) => {
                        if t1.is_none() {
                            Ok((Some(t), t2, disp))
                        } else if t2.is_none() {
                            Ok((t1, Some(t), disp))
                        } else {
                            Err(AsmError::Invalid("only up to two registers are allowed"))
                        }
                    },
                    Err(e) => Err(quoting_because("could not parse `", curr, "`", e.as_bytes())),
                }
            },
        }
    }

    /// The memory operand written as an address expression (see
    /// `spec_resolve_effective_address`).
    pub fn resolve_effective_address_bytes(&self, s0: &[u8]) -> (r: Result<EffectiveAddress, AsmError>)
        ensures
            match r {
                Ok(ea) => spec_resolve_effective_address(self.model(), s0@) == Ok::<EffectiveAddress, Fail>(
                    ea,
                ),
                Err(e) => spec_resolve_effective_address(self.model(), s0@) == Err::<
                    EffectiveAddress,
                    Fail,
                >(e.fail()),
            },
    {
        let ghost m = self.model();
        let mut s = s0;
        let mut t1: Term = None;
        let mut t2: Term = None;
        let mut disp: Option<Displacement> = None;
        let mut neg = false;
        while s.len() > 0
            invariant
                m == self.model(),
                spec_resolve_effective_address(m, s0@) == spec_ea_loop(m, s@, t1, t2, disp, neg),
            decreases s.len(),
        {
            let ghost s_old = s@;
            if s[0] == 0x2d {
                neg = !neg;
                let tail = vstd::slice::slice_subrange(s, 1, s.len());
                assert(tail@ =~= s@.drop_first());
                s = trim(tail);
            }
            let ghost s1 = s@;
            let (curr, next_neg, rest): (&[u8], bool, &[u8]) = match find_either_from(s, 0x2b, 0x2d, 0) {
                Some(i) => {
                    proof {
                        crate::text::lemma_find_either_bounds(s@, 0x2b, 0x2d, 0);
                    }
                    (
                        trim(vstd::slice::slice_subrange(s, 0, i)),
                        s[i] == 0x2d,
                        trim(vstd::slice::slice_subrange(s, i + 1, s.len())),
                    )
                },
                None => {
                    let empty: &[u8] = &[];
                    assert(empty@ =~= seq![]);
                    (trim(s), false, empty)
                },
            };
            let (a, b, d) = self.ea_term(curr, neg, t1, t2, disp)?;
            t1 = a;
            t2 = b;
            disp = d;
            neg = next_neg;
            s = rest;
            proof {
                crate::text::lemma_trim_len(s_old.drop_first());
                crate::text::lemma_find_either_bounds(s1, 0x2b, 0x2d, 0);
                if let Some(i) = spec_find_either_from(s1, 0x2b, 0x2d, 0) {
                    crate::text::lemma_trim_len(s1.subrange(i + 1, s1.len() as int));
                }
            }
        }
        ea_finish(t1, t2, disp)
    }

    /// The memory operand written as an address expression such as `rax + rcx * 4 - 8`.
    pub fn resolve_effective_address(&self, s: &str) -> (r: Result<EffectiveAddress, AsmError>)
        ensures
            match r {
                Ok(ea) => spec_resolve_effective_address(self.model(), s.spec_bytes()) == Ok::<
                    EffectiveAddress,
                    Fail,
                >(ea),
                Err(e) => spec_resolve_effective_address(self.model(), s.spec_bytes()) == Err::<
                    EffectiveAddress,
                    Fail,
                >(e.fail()),
            },
    {
        self.resolve_effective_address_bytes(s.as_bytes())
    }
}

/// A register term of an address expression names a 64-bit register.
pub open spec fn term_is_64_bit(t: Term) -> bool {
    t matches Some((_, r)) ==> crate::registers::reg_bits(r) == 64
}

proof fn lemma_ea_term_64_bit(
    m: ProgramModel,
    curr: Seq<u8>,
    neg: bool,
    t1: Term,
    t2: Term,
    disp: Option<Displacement>,
)
    requires
        term_is_64_bit(t1),
        term_is_64_bit(t2),
    ensures
        spec_ea_term(m, curr, neg, t1, t2, disp) matches Ok((a, b, _)) ==> term_is_64_bit(a)
            && term_is_64_bit(b),
{
}

proof fn lemma_ea_loop_encodable(
    m: ProgramModel,
    s: Seq<u8>,
    t1: Term,
    t2: Term,
    disp: Option<Displacement>,
    neg: bool,
)
    requires
        term_is_64_bit(t1),
        term_is_64_bit(t2),
    ensures
        spec_ea_loop(m, s, t1, t2, disp, neg) matches Ok(ea) ==> crate::place::encodable_address(ea),
    decreases s.len(),
{
    if s.len() > 0 {
        let neg1 = if s[0] == 0x2d { !neg } else { neg };
        let s1 = if s[0] == 0x2d { spec_trim(s.drop_first()) } else { s };
        crate::text::lemma_trim_len(s.drop_first());
        match spec_find_either_from(s1, 0x2b, 0x2d, 0) {
            Some(i) => {
                crate::text::lemma_find_either_bounds(s1, 0x2b, 0x2d, 0);
                crate::text::lemma_trim_len(s1.subrange(i + 1, s1.len() as int));
                let curr = spec_trim(s1.subrange(0, i));
                let next = spec_trim(s1.subrange(i + 1, s1.len() as int));
                lemma_ea_term_64_bit(m, curr, neg1, t1, t2, disp);
                if let Ok((a, b, d)) = spec_ea_term(m, curr, neg1, t1, t2, disp) {
                    lemma_ea_loop_encodable(m, next, a, b, d, s1[i] == 0x2d);
                }
            },
            None => {
                lemma_ea_term_64_bit(m, spec_trim(s1), neg1, t1, t2, disp);
                if let Ok((a, b, d)) = spec_ea_term(m, spec_trim(s1), neg1, t1, t2, disp) {
                    lemma_ea_loop_encodable(m, seq![], a, b, d, false);
                }
            },
        }
    }
}

/// Every address expression that resolves gives an encodable address.
pub proof fn lemma_resolved_address_encodable(m: ProgramModel, s: Seq<u8>)
    ensures
        spec_resolve_effective_address(m, s) matches Ok(ea) ==> crate::place::encodable_address(ea),
{
    lemma_ea_loop_encodable(m, s, None, None, None, false);
}

} // verus!
