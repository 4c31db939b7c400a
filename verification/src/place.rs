use vstd::prelude::*;
use vstd::string::StringSliceAdditionalSpecFns;

use crate::immediate::{le_value, le_value_of};
use crate::registers::{Register, reg_bits, reg_name, spec_register_named};
use crate::strings::{parse_string_bytes, spec_parse_string};
use crate::text::{
    allowed_identifier, lemma_ascii_valid_utf8, parse_decimal, parse_hex, spec_allowed_identifier,
    spec_decimal, spec_hex, spec_split_once, spec_strip_prefix, spec_strip_suffix, spec_trim,
    split_once, str_from_utf8, strip_prefix, strip_suffix, trim, decimal_limit, is_alnum,
};

verus! {

/// The size of an operand.
#[derive(Clone, Copy, Debug, PartialEq, Eq, Structural)]
pub enum Size {
    Byte,
    Word,
    Dword,
    Qword,
}

impl Size {
    /// The operand width in bits.
    pub open spec fn spec_bits(self) -> usize {
        match self {
            Size::Byte => 8,
            Size::Word => 16,
            Size::Dword => 32,
            Size::Qword => 64,
        }
    }
}

/// The operand size that a register of `r`'s width holds.
pub open spec fn reg_size(r: Register) -> Size {
    if reg_bits(r) == 8 {
        Size::Byte
    } else if reg_bits(r) == 16 {
        Size::Word
    } else if reg_bits(r) == 32 {
        Size::Dword
    } else {
        Size::Qword
    }
}

/// The factor by which an index register is multiplied.
#[derive(Clone, Copy, Debug, PartialEq, Eq, Structural)]
pub enum Scale {
    One,
    Two,
    Four,
    Eight,
}

impl Scale {
    /// The two-bit scale field of the SIB byte.
    pub open spec fn spec_scale_bits(self) -> u8 {
        match self {
            Scale::One => 0b00,
            Scale::Two => 0b01,
            Scale::Four => 0b10,
            Scale::Eight => 0b11,
        }
    }

    /// The two-bit scale field of the SIB byte.
    pub fn bits(&self) -> (r: u8)
        ensures
            r == self.spec_scale_bits(),
    {
        match self {
            Scale::One => 0b00,
            Scale::Two => 0b01,
            Scale::Four => 0b10,
            Scale::Eight => 0b11,
        }
    }
}

/// A constant displacement of a memory operand, stored as 8 or 32 bits.
#[derive(Clone, Copy, Debug, PartialEq, Eq, Structural)]
pub enum Displacement {
    Byte(i8),
    Dword(i32),
}

/// A memory operand `base + index * scale + disp`.
#[derive(Clone, Copy, Debug)]
pub struct EffectiveAddress {
    pub base: Option<Register>,
    pub index: Option<(Scale, Register)>,
    pub disp: Option<Displacement>,
}

/// The bytes of a string literal in the source of this crate.
pub open spec fn lit(s: &str) -> Seq<u8> {
    s.spec_bytes()
}

/// An operand: a register at one of four widths, a memory operand with an optional
/// explicit size, or a memory operand relative to the instruction pointer that names a
/// static. `N` is how the static's name is held: a `&str` in parsed operands, its bytes
/// in specifications.
#[derive(Clone, Copy, Debug)]
pub enum PlaceOf<N> {
    Reg8(Register),
    Reg16(Register),
    Reg32(Register),
    Reg64(Register),
    Memory(EffectiveAddress, Option<Size>),
    RipRelative(N, Displacement, Option<Size>),
}

/// A parsed operand, borrowing the name of a static from the source line.
pub type Place<'a> = PlaceOf<&'a str>;

/// An operand as specifications see it: the static's name is its bytes.
pub type PlaceModel = PlaceOf<Seq<u8>>;

impl<N> PlaceOf<N> {
    /// The operand's size, when it has one.
    pub open spec fn spec_size(self) -> Option<Size> {
        match self {
            PlaceOf::Reg8(_) => Some(Size::Byte),
            PlaceOf::Reg16(_) => Some(Size::Word),
            PlaceOf::Reg32(_) => Some(Size::Dword),
            PlaceOf::Reg64(_) => Some(Size::Qword),
            PlaceOf::Memory(_, size) => size,
            PlaceOf::RipRelative(_, _, size) => size,
        }
    }

    /// The register, when the operand is one.
    pub open spec fn spec_register(self) -> Option<Register> {
        match self {
            PlaceOf::Reg8(r) => Some(r),
            PlaceOf::Reg16(r) => Some(r),
            PlaceOf::Reg32(r) => Some(r),
            PlaceOf::Reg64(r) => Some(r),
            _ => None,
        }
    }

    /// Whether the operand is in memory.
    pub open spec fn spec_is_memory(self) -> bool {
        self is Memory || self is RipRelative
    }
}

impl<'a> PlaceOf<&'a str> {
    /// The operand with the static's name taken as bytes.
    pub open spec fn model(self) -> PlaceModel {
        match self {
            PlaceOf::Reg8(r) => PlaceOf::Reg8(r),
            PlaceOf::Reg16(r) => PlaceOf::Reg16(r),
            PlaceOf::Reg32(r) => PlaceOf::Reg32(r),
            PlaceOf::Reg64(r) => PlaceOf::Reg64(r),
            PlaceOf::Memory(ea, size) => PlaceOf::Memory(ea, size),
            PlaceOf::RipRelative(name, disp, size) => PlaceOf::RipRelative(
                name.spec_bytes(),
                disp,
                size,
            ),
        }
    }

    /// The operand's size, when it has one (a memory operand may leave it open).
    pub fn size(&self) -> (r: Option<Size>)
        ensures
            r == self.spec_size(),
    {
        match self {
            PlaceOf::Reg8(_) => Some(Size::Byte),
            PlaceOf::Reg16(_) => Some(Size::Word),
            PlaceOf::Reg32(_) => Some(Size::Dword),
            PlaceOf::Reg64(_) => Some(Size::Qword),
            PlaceOf::Memory(_, size) => *size,
            PlaceOf::RipRelative(_, _, size) => *size,
        }
    }

    /// The size that two operands of one instruction share: they must agree where both
    /// have a size, and at least one must have one.
    pub fn coerce_size(&self, rhs: Place) -> (r: Result<Size, &'static str>)
        ensures
            r == spec_coerce_size(self.spec_size(), rhs.spec_size()),
    {
        match (self.size(), rhs.size()) {
            (Some(s1), Some(s2)) => if s1 != s2 {
                Err("place size mismatch")
            } else {
                Ok(s2)
            },
            (None, Some(s)) => Ok(s),
            (Some(s), None) => Ok(s),
            (None, None) => Err("memory-to-memory operations are not possible"),
        }
    }

    /// Whether the operand is a register.
    pub fn is_register(&self) -> (r: bool)
        ensures
            r == self.spec_register() is Some,
    {
        self.register().is_some()
    }

    /// The register, when the operand is one.
    pub fn register(&self) -> (r: Option<Register>)
        ensures
            r == self.spec_register(),
    {
        match *self {
            PlaceOf::Reg8(reg) => Some(reg),
            PlaceOf::Reg16(reg) => Some(reg),
            PlaceOf::Reg32(reg) => Some(reg),
            PlaceOf::Reg64(reg) => Some(reg),
            _ => None,
        }
    }

    /// The operand's size, which must be known.
    pub fn assert_size(&self) -> (r: Result<Size, &'static str>)
        ensures
            match r {
                Ok(s) => self.spec_size() == Some(s),
                Err(_) => self.spec_size() is None,
            },
    {
        match self.size() {
            Some(s) => Ok(s),
            None => Err("this place expression must have an explicit size"),
        }
    }

    /// Fails unless at least one of the two operands is in memory.
    pub fn assert_atomic_compatible(lhs: Self, rhs: Self) -> (r: Result<(), &'static str>)
        ensures
            r is Ok <==> lhs.spec_is_memory() || rhs.spec_is_memory(),
    {
        if matches!(lhs, PlaceOf::Memory(..) | PlaceOf::RipRelative(..)) || matches!(
            rhs,
            PlaceOf::Memory(..) | PlaceOf::RipRelative(..)
        ) {
            Ok(())
        } else {
            Err("atomic operations can only be performed when one operand accesses memory")
        }
    }

    /// Parses an operand: `rax`, `*rax`, `*name`, `rax[u8]`, `name[u32]`,
    /// `rax[rcx * 4 + 8]`, `name[16][u64]`, ...
    pub fn parse(s: &'a str) -> (r: Result<Self, &'static str>)
        ensures
            match r {
                Ok(p) => spec_parse_place(s.spec_bytes()) == Ok::<PlaceModel, ()>(p.model()),
                Err(_) => spec_parse_place(s.spec_bytes()) is Err,
            },
    {
        parse_place_bytes(s.as_bytes())
    }
}

/// The size shared by two operands with sizes `a` and `b`.
pub open spec fn spec_coerce_size(a: Option<Size>, b: Option<Size>) -> Result<Size, &'static str> {
    match (a, b) {
        (Some(s1), Some(s2)) => if s1 != s2 {
            Err("place size mismatch")
        } else {
            Ok(s2)
        },
        (None, Some(s)) => Ok(s),
        (Some(s), None) => Ok(s),
        (None, None) => Err("memory-to-memory operations are not possible"),
    }
}

// ---------------------------------------------------------------------------------------
// Numbers in operands
// ---------------------------------------------------------------------------------------

/// The integer written as `s`, read as a signed integer in `lo..=hi` in one of three
/// forms: decimal (with an optional sign), `0x` and hexadecimal digits of at most
/// `hex_max`, or a string literal of exactly `str_len` bytes read in little-endian order.
pub open spec fn spec_parse_int(s: Seq<u8>, lo: int, hi: int, hex_max: int, str_len: nat) -> Option<
    int,
> {
    match spec_decimal(s) {
        Some(n) => if lo <= n <= hi {
            Some(n)
        } else {
            None
        },
        None => match spec_strip_prefix(s, lit("0x")) {
            Some(rest) => match spec_hex(rest) {
                Some(v) => if v <= hex_max && v <= hi {
                    Some(v as int)
                } else {
                    None
                },
                None => None,
            },
            None => match spec_parse_string(s) {
                Some(b) => if b.len() == str_len && le_value(b) <= hi {
                    Some(le_value(b) as int)
                } else {
                    None
                },
                None => None,
            },
        },
    }
}

/// An 8-bit signed integer in an operand.
pub open spec fn spec_parse_i8(s: Seq<u8>) -> Option<int> {
    spec_parse_int(s, -0x80, 0x7f, 0xffff_ffff, 1)
}

/// A 16-bit signed integer in an operand.
pub open spec fn spec_parse_i16(s: Seq<u8>) -> Option<int> {
    spec_parse_int(s, -0x8000, 0x7fff, 0xffff, 2)
}

/// A 32-bit signed integer in an operand.
pub open spec fn spec_parse_i32(s: Seq<u8>) -> Option<int> {
    spec_parse_int(s, -0x8000_0000, 0x7fff_ffff, 0xffff_ffff, 4)
}

/// A 64-bit signed integer in an operand (hexadecimal and string forms stay within
/// 32 bits).
pub open spec fn spec_parse_i64(s: Seq<u8>) -> Option<int> {
    spec_parse_int(
        s,
        -0x8000_0000_0000_0000,
        0x7fff_ffff_ffff_ffff,
        0xffff_ffff,
        4,
    )
}

/// A decimal whose value is out of the reported range starts with a digit or a sign,
/// so it is neither hexadecimal nor a string literal.
proof fn lemma_decimal_not_other(s: Seq<u8>)
    requires
        spec_decimal(s) is Some,
    ensures
        spec_strip_prefix(s, lit("0x")) is None,
        spec_parse_string(s) is None,
{
    reveal_strlit("0x");
    vstd::string::is_ascii_spec_bytes("0x");
    assert(lit("0x") =~= seq![0x30u8, 0x78u8]);
    if s.len() >= 2 && s[0] == 0x30 {
        assert(crate::text::is_digit(s[1]));
    }
    if !(s.len() > 0 && (s[0] == 0x2b || s[0] == 0x2d)) {
        assert(crate::text::is_digit(s[0]));
    }
    crate::text::lemma_trim_keeps_leading_non_ws(s);
    let t = spec_trim(s);
    if t.len() >= 1 && t.subrange(0, 1) == seq![0x22u8] {
        assert(t.subrange(0, 1)[0] == t[0]);
    }
}

fn parse_int(s: &[u8], lo: i128, hi: i128, hex_max: u64, str_len: usize) -> (r: Option<i128>)
    requires
        -0x8000_0000_0000_0000 <= lo <= 0 <= hi <= 0x7fff_ffff_ffff_ffff,
        str_len <= 8,
    ensures
        match r {
            Some(v) => spec_parse_int(s@, lo as int, hi as int, hex_max as int, str_len as nat)
                == Some(v as int),
            None => spec_parse_int(s@, lo as int, hi as int, hex_max as int, str_len as nat)
                is None,
        },
{
    match parse_decimal(s) {
        Some(n) => {
            if lo <= n && n <= hi {
                return Some(n);
            } else {
                return None;
            }
        },
        None => {},
    }
    if crate::text::is_decimal_syntax(s) {
        proof {
            lemma_decimal_not_other(s@);
        }
        return None;
    }
    match strip_prefix(s, "0x".as_bytes()) {
        Some(rest) => match parse_hex(rest) {
            Some(v) => {
                if v <= hex_max && v as i128 <= hi {
                    Some(v as i128)
                } else {
                    None
                }
            },
            None => None,
        },
        None => match parse_string_bytes(s) {
            Ok(b) => {
                if b.len() == str_len {
                    let v = le_value_of(b.as_slice());
                    if v as i128 <= hi {
                        Some(v as i128)
                    } else {
                        None
                    }
                } else {
                    None
                }
            },
            Err(_) => None,
        },
    }
}

/// An 8-bit signed integer in an operand.
pub fn parse_i8(imm: &[u8]) -> (r: Result<i8, &'static str>)
    ensures
        match r {
            Ok(v) => spec_parse_i8(imm@) == Some(v as int),
            Err(_) => spec_parse_i8(imm@) is None,
        },
{
    match parse_int(imm, -0x80, 0x7f, 0xffff_ffff, 1) {
        Some(v) => Ok(v as i8),
        None => Err("value cannot be represented as an i8"),
    }
}

/// A 16-bit signed integer in an operand.
pub fn parse_i16(imm: &[u8]) -> (r: Result<i16, &'static str>)
    ensures
        match r {
            Ok(v) => spec_parse_i16(imm@) == Some(v as int),
            Err(_) => spec_parse_i16(imm@) is None,
        },
{
    match parse_int(imm, -0x8000, 0x7fff, 0xffff, 2) {
        Some(v) => Ok(v as i16),
        None => Err("value cannot be represented as an i16"),
    }
}

/// A 32-bit signed integer in an operand.
pub fn parse_i32(imm: &[u8]) -> (r: Result<i32, &'static str>)
    ensures
        match r {
            Ok(v) => spec_parse_i32(imm@) == Some(v as int),
            Err(_) => spec_parse_i32(imm@) is None,
        },
{
    match parse_int(imm, -0x8000_0000, 0x7fff_ffff, 0xffff_ffff, 4) {
        Some(v) => Ok(v as i32),
        None => Err("value cannot be represented as an i32"),
    }
}

/// A 64-bit signed integer in an operand.
pub fn parse_i64(imm: &[u8]) -> (r: Result<i64, &'static str>)
    ensures
        match r {
            Ok(v) => spec_parse_i64(imm@) == Some(v as int),
            Err(_) => spec_parse_i64(imm@) is None,
        },
{
    match parse_int(imm, -0x8000_0000_0000_0000, 0x7fff_ffff_ffff_ffff, 0xffff_ffff, 4) {
        Some(v) => Ok(v as i64),
        None => Err("value cannot be represented as an i64"),
    }
}

// ---------------------------------------------------------------------------------------
// Scaled index registers
// ---------------------------------------------------------------------------------------

/// The scale and the name of the register in `reg << k` or `reg * k` (either order), or
/// a bare register name.
pub open spec fn spec_scale_and_name(term: Seq<u8>) -> Result<(Scale, Seq<u8>), ()> {
    match spec_split_once(term, lit("<<")) {
        Some((a0, b0)) => {
            let a = spec_trim(a0);
            let b = spec_trim(b0);
            if b == lit("0") {
                Ok((Scale::One, a))
            } else if b == lit("1") {
                Ok((Scale::Two, a))
            } else if b == lit("2") {
                Ok((Scale::Four, a))
            } else if b == lit("3") {
                Ok((Scale::Eight, a))
            } else {
                Err(())
            }
        },
        None => match spec_split_once(term, lit("*")) {
            Some((a0, b0)) => {
                let a = spec_trim(a0);
                let b = spec_trim(b0);
                if a == lit("1") {
                    Ok((Scale::One, b))
                } else if b == lit("1") {
                    Ok((Scale::One, a))
                } else if a == lit("2") {
                    Ok((Scale::Two, b))
                } else if b == lit("2") {
                    Ok((Scale::Two, a))
                } else if a == lit("4") {
                    Ok((Scale::Four, b))
                } else if b == lit("4") {
                    Ok((Scale::Four, a))
                } else if a == lit("8") {
                    Ok((Scale::Eight, b))
                } else if b == lit("8") {
                    Ok((Scale::Eight, a))
                } else {
                    Err(())
                }
            },
            None => Ok((Scale::One, term)),
        },
    }
}

/// A scaled index register `reg << k` (k in 0..=3), `reg * k` or `k * reg` (k in 1, 2,
/// 4, 8), or a bare register; the register must be 64 bits wide.
pub open spec fn spec_scaled_register(term: Seq<u8>) -> Result<(Scale, Register), ()> {
    match spec_scale_and_name(term) {
        Ok((scale, name)) => match spec_register_named(name) {
            Some(r) => if reg_bits(r) == 64 {
                Ok((scale, r))
            } else {
                Err(())
            },
            None => Err(()),
        },
        Err(_) => Err(()),
    }
}

fn scale_and_name(term: &[u8]) -> (r: Result<(Scale, &[u8]), ()>)
    ensures
        match r {
            Ok((scale, name)) => spec_scale_and_name(term@) == Ok::<(Scale, Seq<u8>), ()>(
                (scale, name@),
            ),
            Err(_) => spec_scale_and_name(term@) is Err,
        },
{
    match split_once(term, "<<".as_bytes()) {
        Some((a0, b0)) => {
            let a = trim(a0);
            let b = trim(b0);
            if crate::text::bytes_eq(b, "0".as_bytes()) {
                Ok((Scale::One, a))
            } else if crate::text::bytes_eq(b, "1".as_bytes()) {
                Ok((Scale::Two, a))
            } else if crate::text::bytes_eq(b, "2".as_bytes()) {
                Ok((Scale::Four, a))
            } else if crate::text::bytes_eq(b, "3".as_bytes()) {
                Ok((Scale::Eight, a))
            } else {
                Err(())
            }
        },
        None => match split_once(term, "*".as_bytes()) {
            Some((a0, b0)) => {
                let a = trim(a0);
                let b = trim(b0);
                if crate::text::bytes_eq(a, "1".as_bytes()) {
                    Ok((Scale::One, b))
                } else if crate::text::bytes_eq(b, "1".as_bytes()) {
                    Ok((Scale::One, a))
                } else if crate::text::bytes_eq(a, "2".as_bytes()) {
                    Ok((Scale::Two, b))
                } else if crate::text::bytes_eq(b, "2".as_bytes()) {
                    Ok((Scale::Two, a))
                } else if crate::text::bytes_eq(a, "4".as_bytes()) {
                    Ok((Scale::Four, b))
                } else if crate::text::bytes_eq(b, "4".as_bytes()) {
                    Ok((Scale::Four, a))
                } else if crate::text::bytes_eq(a, "8".as_bytes()) {
                    Ok((Scale::Eight, b))
                } else if crate::text::bytes_eq(b, "8".as_bytes()) {
                    Ok((Scale::Eight, a))
                } else {
                    Err(())
                }
            },
            None => Ok((Scale::One, term)),
        },
    }
}

/// A scaled index register (see `spec_scaled_register`).
pub fn parse_multiplier_and_register_bytes(term: &[u8]) -> (r: Result<(Scale, Register), &'static str>)
    ensures
        match r {
            Ok(v) => spec_scaled_register(term@) == Ok::<(Scale, Register), ()>(v),
            Err(_) => spec_scaled_register(term@) is Err,
        },
{
    let (scale, name) = match scale_and_name(term) {
        Ok(v) => v,
        Err(_) => return Err("invalid scaling factor (shift must be 0, 1, 2, or 3)"),
    };
    let register = match Register::from_name(name) {
        Some(r) => r,
        None => return Err("invalid register"),
    };
    register.assert_64_bits()?;
    Ok((scale, register))
}

/// A scaled index register written as `rcx`, `rcx * 4`, `8 * rcx` or `rcx << 3`: a 64-bit
/// register with a scale of 1, 2, 4 or 8 (see `spec_scaled_register`).
pub fn parse_multiplier_and_register(term: &str) -> (r: Result<(Scale, Register), &'static str>)
    ensures
        match r {
            Ok(v) => spec_scaled_register(term.spec_bytes()) == Ok::<(Scale, Register), ()>(v),
            Err(_) => spec_scaled_register(term.spec_bytes()) is Err,
        },
{
    parse_multiplier_and_register_bytes(term.as_bytes())
}

// ---------------------------------------------------------------------------------------
// Operands
// ---------------------------------------------------------------------------------------

/// A register as an operand of its own width.
pub open spec fn reg_place(r: Register) -> PlaceModel {
    if reg_bits(r) == 8 {
        PlaceOf::Reg8(r)
    } else if reg_bits(r) == 16 {
        PlaceOf::Reg16(r)
    } else if reg_bits(r) == 32 {
        PlaceOf::Reg32(r)
    } else {
        PlaceOf::Reg64(r)
    }
}

/// A memory operand at the address held in `r`.
pub open spec fn deref_place(r: Register, size: Option<Size>) -> PlaceModel {
    PlaceOf::Memory(EffectiveAddress { base: Some(r), index: None, disp: None }, size)
}

/// The explicit size suffix `[u64]`, `[u32]`, `[u16]` or `[u8]` of an operand, and what
/// precedes it.
pub open spec fn spec_size_suffix(s: Seq<u8>) -> (Option<Size>, Seq<u8>) {
    if let Some(rest) = spec_strip_suffix(s, lit("[u64]")) {
        (Some(Size::Qword), rest)
    } else if let Some(rest) = spec_strip_suffix(s, lit("[u32]")) {
        (Some(Size::Dword), rest)
    } else if let Some(rest) = spec_strip_suffix(s, lit("[u16]")) {
        (Some(Size::Word), rest)
    } else if let Some(rest) = spec_strip_suffix(s, lit("[u8]")) {
        (Some(Size::Byte), rest)
    } else {
        (None, s)
    }
}

/// The index and displacement written between the brackets after a base register:
/// a displacement alone, `term + disp` or `disp + term`, `term - disp`, or a term alone.
pub open spec fn spec_index_and_disp(inner: Seq<u8>) -> Result<
    (Option<(Scale, Register)>, Option<Displacement>),
    (),
> {
    if let Some(d) = spec_parse_i8(inner) {
        Ok((None, Some(Displacement::Byte(d as i8))))
    } else if let Some(d) = spec_parse_i32(inner) {
        Ok((None, Some(Displacement::Dword(d as i32))))
    } else if let Some((f0, r0)) = spec_split_once(inner, lit("+")) {
        let first = spec_trim(f0);
        let rest = spec_trim(r0);
        if let Some(d) = spec_parse_i8(first) {
            with_index(spec_scaled_register(rest), Displacement::Byte(d as i8))
        } else if let Some(d) = spec_parse_i32(first) {
            with_index(spec_scaled_register(rest), Displacement::Dword(d as i32))
        } else if let Some(d) = spec_parse_i8(rest) {
            with_index(spec_scaled_register(first), Displacement::Byte(d as i8))
        } else if let Some(d) = spec_parse_i32(rest) {
            with_index(spec_scaled_register(first), Displacement::Dword(d as i32))
        } else {
            Err(())
        }
    } else if let Some((f0, r0)) = spec_split_once(inner, lit("-")) {
        let first = spec_trim(f0);
        let rest = spec_trim(r0);
        if spec_parse_i8(rest) is Some && spec_parse_i8(rest).unwrap() != -0x80 {
            with_index(
                spec_scaled_register(first),
                Displacement::Byte((-spec_parse_i8(rest).unwrap()) as i8),
            )
        } else if spec_parse_i32(rest) is Some && spec_parse_i32(rest).unwrap() != -0x8000_0000 {
            with_index(
                spec_scaled_register(first),
                Displacement::Dword((-spec_parse_i32(rest).unwrap()) as i32),
            )
        } else {
            Err(())
        }
    } else if let Ok(o) = spec_scaled_register(inner) {
        Ok((Some(o), None))
    } else {
        Err(())
    }
}

/// A scaled index together with a displacement.
pub open spec fn with_index(index: Result<(Scale, Register), ()>, d: Displacement) -> Result<
    (Option<(Scale, Register)>, Option<Displacement>),
    (),
> {
    match index {
        Ok(o) => Ok((Some(o), Some(d))),
        Err(_) => Err(()),
    }
}

/// The operand written as `s`.
#[verifier::opaque]
pub open spec fn spec_parse_place(s: Seq<u8>) -> Result<PlaceModel, ()> {
    if let Some(reg) = spec_register_named(s) {
        Ok(reg_place(reg))
    } else if let Some(rest) = spec_strip_prefix(s, lit("*")) {
        if let Some(reg) = spec_register_named(rest) {
            if reg_bits(reg) == 64 {
                Ok(deref_place(reg, None))
            } else {
                Err(())
            }
        } else if spec_allowed_identifier(rest) {
            Ok(PlaceOf::RipRelative(rest, Displacement::Byte(0), None))
        } else {
            Err(())
        }
    } else {
        let (size, t) = spec_size_suffix(s);
        match spec_split_once(t, lit("[")) {
            None => if size is Some {
                if let Some(reg) = spec_register_named(t) {
                    if reg_bits(reg) == 64 {
                        Ok(deref_place(reg, size))
                    } else {
                        Err(())
                    }
                } else if spec_allowed_identifier(t) {
                    Ok(PlaceOf::RipRelative(t, Displacement::Byte(0), size))
                } else {
                    Err(())
                }
            } else {
                Err(())
            },
            Some((base, rest)) => match spec_strip_suffix(rest, lit("]")) {
                None => Err(()),
                Some(inner) => if let Some(b) = spec_register_named(base) {
                    if reg_bits(b) != 64 {
                        Err(())
                    } else {
                        match spec_index_and_disp(inner) {
                            Ok((index, disp)) => if index matches Some((_, Register::Rsp)) {
                                Err(())
                            } else {
                                Ok(
                                    PlaceOf::Memory(
                                        EffectiveAddress { base: Some(b), index, disp },
                                        size,
                                    ),
                                )
                            },
                            Err(_) => Err(()),
                        }
                    }
                } else if spec_allowed_identifier(base) {
                    if let Some(d) = spec_parse_i8(inner) {
                        Ok(PlaceOf::RipRelative(base, Displacement::Byte(d as i8), size))
                    } else if let Some(d) = spec_parse_i32(inner) {
                        Ok(PlaceOf::RipRelative(base, Displacement::Dword(d as i32), size))
                    } else {
                        Err(())
                    }
                } else {
                    Err(())
                },
            },
        }
    }
}

fn reg_place_exec<'a>(reg: Register) -> (r: Place<'a>)
    ensures
        r.model() == reg_place(reg),
{
    match reg.bits() {
        8 => PlaceOf::Reg8(reg),
        16 => PlaceOf::Reg16(reg),
        32 => PlaceOf::Reg32(reg),
        _ => PlaceOf::Reg64(reg),
    }
}

fn size_suffix(s: &[u8]) -> (r: (Option<Size>, &[u8]))
    ensures
        spec_size_suffix(s@) == (r.0, r.1@),
{
    if let Some(rest) = strip_suffix(s, "[u64]".as_bytes()) {
        (Some(Size::Qword), rest)
    } else if let Some(rest) = strip_suffix(s, "[u32]".as_bytes()) {
        (Some(Size::Dword), rest)
    } else if let Some(rest) = strip_suffix(s, "[u16]".as_bytes()) {
        (Some(Size::Word), rest)
    } else if let Some(rest) = strip_suffix(s, "[u8]".as_bytes()) {
        (Some(Size::Byte), rest)
    } else {
        (None, s)
    }
}

fn with_index_exec(
    index: Result<(Scale, Register), &'static str>,
    d: Displacement,
) -> (r: Result<(Option<(Scale, Register)>, Option<Displacement>), &'static str>)
    ensures
        match r {
            Ok(v) => index is Ok && v == (Some(index.unwrap()), Some(d)),
            Err(_) => index is Err,
        },
{
    match index {
        Ok(o) => Ok((Some(o), Some(d))),
        Err(e) => Err(e),
    }
}

fn index_and_disp(inner: &[u8]) -> (r: Result<
    (Option<(Scale, Register)>, Option<Displacement>),
    &'static str,
>)
    ensures
        match r {
            Ok(v) => spec_index_and_disp(inner@) == Ok::<
                (Option<(Scale, Register)>, Option<Displacement>),
                (),
            >(v),
            Err(_) => spec_index_and_disp(inner@) is Err,
        },
{
    if let Ok(d) = parse_i8(inner) {
        Ok((None, Some(Displacement::Byte(d))))
    } else if let Ok(d) = parse_i32(inner) {
        Ok((None, Some(Displacement::Dword(d))))
    } else if let Some((f0, r0)) = split_once(inner, "+".as_bytes()) {
        let first = trim(f0);
        let rest = trim(r0);
        if let Ok(d) = parse_i8(first) {
            with_index_exec(parse_multiplier_and_register_bytes(rest), Displacement::Byte(d))
        } else if let Ok(d) = parse_i32(first) {
            with_index_exec(parse_multiplier_and_register_bytes(rest), Displacement::Dword(d))
        } else if let Ok(d) = parse_i8(rest) {
            with_index_exec(parse_multiplier_and_register_bytes(first), Displacement::Byte(d))
        } else if let Ok(d) = parse_i32(rest) {
            with_index_exec(parse_multiplier_and_register_bytes(first), Displacement::Dword(d))
        } else {
            Err("could not parse i32")
        }
    } else if let Some((f0, r0)) = split_once(inner, "-".as_bytes()) {
        let first = trim(f0);
        let rest = trim(r0);
        let d8 = parse_i8(rest);
        let d32 = parse_i32(rest);
        if d8.is_ok() && d8.unwrap() != i8::MIN {
            with_index_exec(
                parse_multiplier_and_register_bytes(first),
                Displacement::Byte(-d8.unwrap()),
            )
        } else if d32.is_ok() && d32.unwrap() != i32::MIN {
            with_index_exec(
                parse_multiplier_and_register_bytes(first),
                Displacement::Dword(-d32.unwrap()),
            )
        } else {
            Err("could not parse i32")
        }
    } else if let Ok(o) = parse_multiplier_and_register_bytes(inner) {
        Ok((Some(o), None))
    } else {
        Err("could not parse i32")
    }
}

/// An identifier, as a `str` over the same bytes.
pub fn ident_str(b: &[u8]) -> (r: &str)
    requires
        spec_allowed_identifier(b@),
    ensures
        r.spec_bytes() == b@,
{
    proof {
        assert forall|i: int| 0 <= i < b@.len() implies #[trigger] b@[i] < 0x80 by {
            assert(is_alnum(b@[i]) || b@[i] == 0x5f);
        }
        lemma_ascii_valid_utf8(b@);
    }
    str_from_utf8(b)
}

/// The operand written as `s` (see `Place::parse`).
pub fn parse_place_bytes<'a>(s: &'a [u8]) -> (r: Result<Place<'a>, &'static str>)
    ensures
        match r {
            Ok(p) => spec_parse_place(s@) == Ok::<PlaceModel, ()>(p.model()),
            Err(_) => spec_parse_place(s@) is Err,
        },
{
    proof {
        reveal(spec_parse_place);
    }
    if let Some(reg) = Register::from_name(s) {
        return Ok(reg_place_exec(reg));
    }
    if let Some(rest) = strip_prefix(s, "*".as_bytes()) {
        if let Some(reg) = Register::from_name(rest) {
            reg.assert_64_bits()?;
            return Ok(
                PlaceOf::Memory(EffectiveAddress { base: Some(reg), index: None, disp: None }, None),
            );
        } else if allowed_identifier(rest) {
            return Ok(PlaceOf::RipRelative(ident_str(rest), Displacement::Byte(0), None));
        } else {
            return Err("only a static variable or a register can be dereferenced");
        }
    }
    let (size, t) = size_suffix(s);
    match split_once(t, "[".as_bytes()) {
        None => {
            if size.is_some() {
                if let Some(reg) = Register::from_name(t) {
                    reg.assert_64_bits()?;
                    Ok(
                        PlaceOf::Memory(
                            EffectiveAddress { base: Some(reg), index: None, disp: None },
                            size,
                        ),
                    )
                } else if allowed_identifier(t) {
                    Ok(PlaceOf::RipRelative(ident_str(t), Displacement::Byte(0), size))
                } else {
                    Err("only a static variable or a register can be indexed")
                }
            } else {
                Err("missing brackets")
            }
        },
        Some((base, rest)) => {
            let inner = match strip_suffix(rest, "]".as_bytes()) {
                Some(inner) => inner,
                None => return Err("missing closing bracket"),
            };
            if let Some(b) = Register::from_name(base) {
                b.assert_64_bits()?;
                let (index, disp) = index_and_disp(inner)?;
                if matches!(index, Some((_, Register::Rsp))) {
                    return Err("rsp cannot be used in the index");
                }
                Ok(PlaceOf::Memory(EffectiveAddress { base: Some(b), disp, index }, size))
            } else if allowed_identifier(base) {
                let disp = if let Ok(disp8) = parse_i8(inner) {
                    Displacement::Byte(disp8)
                } else if let Ok(disp32) = parse_i32(inner) {
                    Displacement::Dword(disp32)
                } else {
                    return Err("could not parse displacement");
                };
                Ok(PlaceOf::RipRelative(ident_str(base), disp, size))
            } else {
                Err("could not parse place expression")
            }
        },
    }
}


/// A register's name is parsed as that register, at its own width.
pub proof fn lemma_parse_register(r: Register)
    ensures
        spec_parse_place(reg_name(r)) == Ok::<PlaceModel, ()>(reg_place(r)),
{
    reveal(spec_parse_place);
    crate::registers::lemma_reg_name_injective(r);
}

/// A memory address that the processor can encode: its base and index registers are
/// 64 bits wide, `rsp` is never the index, and at least one of them is present.
pub open spec fn encodable_address(ea: EffectiveAddress) -> bool {
    &&& (ea.base matches Some(b) ==> reg_bits(b) == 64)
    &&& (ea.index matches Some((_, i)) ==> reg_bits(i) == 64 && i != Register::Rsp)
    &&& (ea.base is Some || ea.index is Some)
}

/// Every memory operand that is parsed has an encodable address.
pub proof fn lemma_parsed_memory_operand(s: Seq<u8>)
    ensures
        spec_parse_place(s) matches Ok(PlaceOf::Memory(ea, _)) ==> encodable_address(ea),
{
    reveal(spec_parse_place);
}

} // verus!
