//! The instructions written as assignments, compound assignments, pushes and pops, and
//! the `@builtin(...)` forms.
use vstd::prelude::*;

use crate::immediate::{Immediate, ImmediateModel, le_bytes, le_bytes_of};
use crate::opcodes::{extract_atomic_suffix, spec_extract_atomic_suffix};
use crate::place::{
    Displacement, EffectiveAddress, Place, PlaceModel, PlaceOf, Size, lit, parse_place_bytes,
    spec_coerce_size, spec_parse_place,
};
use crate::program::encode::{
    spec_binary, spec_binary_with_imm, spec_binary_with_size, spec_unary, spec_unary_with_imm,
    spec_unary_with_size, le32,
};
use crate::program::immediates::spec_try_resolve_imm;
use crate::program::{AsmError, Fail, Outcome, Program, ProgramModel, invalid, quoting_because};
use crate::registers::{Register, reg_id, spec_register_named};
use crate::text::{spec_split_once, spec_trim, split_once, trim};

verus! {

/// The little-endian bytes of a 16-bit value.
pub open spec fn le16(v: u16) -> Seq<u8> {
    le_bytes(v as nat, 2)
}

/// The operand parsed from `s`, when it is one.
pub open spec fn place_of(s: Seq<u8>) -> Option<PlaceModel> {
    match spec_parse_place(s) {
        Ok(p) => Some(p),
        Err(_) => None,
    }
}

/// Whether the operand is a 16-, 32- or 64-bit register.
pub open spec fn is_wide_register(p: PlaceModel) -> bool {
    p is Reg16 || p is Reg32 || p is Reg64
}

/// `push`: a 16- or 64-bit register (0x50+r), a 16- or 64-bit memory operand (0xff /6),
/// or an immediate of 8 (0x6a), 16 (0x66 0x68) or 32 bits (0x68).
pub open spec fn spec_parse_push(m: ProgramModel, rest: Seq<u8>) -> Outcome {
    match place_of(spec_trim(rest)) {
        Some(place) => if place is Reg16 || place is Reg64 {
            spec_unary(
                m,
                (0x50 + (reg_id(place.spec_register().unwrap()) & 7)) as u8,
                false,
                None,
                place,
                true,
            )
        } else {
            match place.spec_size() {
                None => Err(Fail::Invalid),
                Some(sz) => if sz == Size::Word || sz == Size::Qword {
                    spec_unary(m, 0xff, false, Some(6), place, true)
                } else {
                    Err(Fail::Invalid)
                },
            }
        },
        None => match spec_try_resolve_imm(m, rest) {
            Err(f) => Err(f),
            Ok(None) => Err(Fail::Invalid),
            Ok(Some(imm)) => spec_push_imm(m, imm),
        },
    }
}

/// `push` of an immediate: 8 bits (0x6a), 16 bits (0x66 0x68) or 32 bits (0x68).
pub open spec fn spec_push_imm(m: ProgramModel, imm: ImmediateModel) -> Outcome {
    if let Some(v) = imm.spec_cast_u8() {
        Ok(m.emit(seq![0x6au8, v]))
    } else if let Some(v) = imm.spec_cast_i16() {
        Ok(m.emit(seq![0x66u8, 0x68u8] + le16(v as u16)))
    } else if let Some(v) = imm.spec_cast_i32() {
        Ok(m.emit(seq![0x68u8] + le32(v)))
    } else {
        Err(Fail::Invalid)
    }
}

/// `pop`: into a 16- or 64-bit register (0x58+r) or memory operand (0x8f /0).
pub open spec fn spec_parse_pop(m: ProgramModel, rest: Seq<u8>) -> Outcome {
    match place_of(spec_trim(rest)) {
        None => Err(Fail::Invalid),
        Some(place) => if place is Reg16 || place is Reg64 {
            spec_unary(
                m,
                (0x58 + (reg_id(place.spec_register().unwrap()) & 7)) as u8,
                false,
                None,
                place,
                true,
            )
        } else {
            match place.spec_size() {
                None => Err(Fail::Invalid),
                Some(sz) => if sz == Size::Word || sz == Size::Qword {
                    spec_unary(m, 0x8f, false, Some(0), place, true)
                } else {
                    Err(Fail::Invalid)
                },
            }
        },
    }
}

/// The program with the `lock` prefix appended when `atomic`.
pub open spec fn lock_if(m: ProgramModel, atomic: bool) -> ProgramModel {
    if atomic {
        m.emit(seq![0xf0u8])
    } else {
        m
    }
}

/// A one-operand arithmetic instruction (`inc`, `dec`, `not`, `neg`, `div`, ...): `opcode`
/// for byte registers and byte memory operands, `opcode + 1` otherwise, with the
/// extension `ext`; atomically only on memory.
pub open spec fn spec_parse_basic_unary(
    m: ProgramModel,
    lvalue: Seq<u8>,
    opcode: u8,
    ext: u8,
    atomic: bool,
) -> Outcome {
    match place_of(lvalue) {
        None => Err(Fail::Invalid),
        Some(place) => {
            let op = if place is Reg8 || (place is Memory && place.spec_size() == Some(Size::Byte)) {
                opcode
            } else {
                (opcode + 1) as u8
            };
            if atomic && place.spec_register() is Some {
                Err(Fail::Invalid)
            } else {
                spec_unary(lock_if(m, atomic), op, false, Some(ext), place, false)
            }
        },
    }
}

/// The instruction of a compound assignment with an immediate right-hand side: the short
/// accumulator forms for `al`, `ax`, `eax`, `rax` (except small immediates on the wider
/// ones), and otherwise 0x80 /ext with an 8-bit immediate for byte operands, 0x83 /ext with
/// a sign-extended 8-bit immediate when it fits, or 0x81 /ext with a 16- or 32-bit one.
pub open spec fn spec_basic_imm(
    m: ProgramModel,
    lhs: PlaceModel,
    imm: ImmediateModel,
    opcode1: u8,
    ext: u8,
) -> Outcome {
    let one = imm.spec_cast_i8() is Some;
    if lhs == PlaceOf::<Seq<u8>>::Reg8(Register::Al) {
        match imm.spec_cast_u8() {
            Some(v) => Ok(m.emit(seq![opcode1, v])),
            None => Err(Fail::Invalid),
        }
    } else if lhs == PlaceOf::<Seq<u8>>::Reg16(Register::Ax) && !one {
        match imm.spec_cast_u16() {
            Some(v) => Ok(m.emit(seq![0x66u8, (opcode1 + 1) as u8] + le16(v))),
            None => Err(Fail::Invalid),
        }
    } else if lhs == PlaceOf::<Seq<u8>>::Reg32(Register::Eax) && !one {
        match imm.spec_cast_u32() {
            Some(v) => Ok(m.emit(seq![(opcode1 + 1) as u8] + le_bytes(v as nat, 4))),
            None => Err(Fail::Invalid),
        }
    } else if lhs == PlaceOf::<Seq<u8>>::Reg64(Register::Rax) && !one {
        match imm.spec_cast_i32() {
            Some(v) => Ok(m.emit(seq![0x48u8, (opcode1 + 1) as u8] + le32(v))),
            None => Err(Fail::Invalid),
        }
    } else {
        spec_basic_imm_rm(m, lhs, imm, ext)
    }
}

/// The general form of a compound assignment with an immediate: 0x80 /ext for byte
/// operands, 0x83 /ext with a sign-extended 8-bit immediate when it fits, else 0x81 /ext
/// with a 16- or 32-bit immediate (sign-extended for 64-bit operands).
pub open spec fn spec_basic_imm_rm(m: ProgramModel, lhs: PlaceModel, imm: ImmediateModel, ext: u8) -> Outcome {
    let one = imm.spec_cast_i8() is Some;
    match lhs.spec_size() {
        None => Err(Fail::Invalid),
        Some(Size::Byte) => spec_unary_with_imm(m, 0x80, Some(ext), lhs, false, imm, Size::Byte, false),
        Some(size) => if one {
            spec_unary_with_imm(m, 0x83, Some(ext), lhs, false, imm, Size::Byte, true)
        } else if size == Size::Word {
            spec_unary_with_imm(m, 0x81, Some(ext), lhs, false, imm, Size::Word, false)
        } else if size == Size::Dword {
            spec_unary_with_imm(m, 0x81, Some(ext), lhs, false, imm, Size::Dword, false)
        } else {
            spec_unary_with_imm(m, 0x81, Some(ext), lhs, false, imm, Size::Dword, true)
        },
    }
}

/// A compound assignment `lvalue op= rvalue` (`^=`, `&=`, `|=`, `+=`, `-=`, and the
/// comparison of `@set_flags`), optionally ` atomically`: with an immediate (see
/// `spec_basic_imm`), or with a place, encoded as `opcode2` (+1 for wider operands, +2
/// when the right-hand side is in memory).
pub open spec fn spec_parse_basic(
    m: ProgramModel,
    lvalue: Seq<u8>,
    rvalue: Seq<u8>,
    opcode1: u8,
    ext: u8,
    opcode2: u8,
) -> Outcome {
    match place_of(spec_trim(lvalue)) {
        None => Err(Fail::Invalid),
        Some(lhs) => {
            let (rv, atomic) = spec_extract_atomic_suffix(spec_trim(rvalue));
            match spec_try_resolve_imm(m, rv) {
                Err(f) => Err(f),
                Ok(Some(imm)) => if atomic && lhs.spec_register() is Some {
                    Err(Fail::Invalid)
                } else {
                    spec_basic_imm(lock_if(m, atomic), lhs, imm, opcode1, ext)
                },
                Ok(None) => match place_of(rv) {
                    None => Err(Fail::Invalid),
                    Some(rhs) => if atomic && !(lhs.spec_is_memory() || rhs.spec_is_memory()) {
                        Err(Fail::Invalid)
                    } else {
                        match spec_coerce_size(lhs.spec_size(), rhs.spec_size()) {
                            Err(_) => Err(Fail::Invalid),
                            Ok(size) => {
                                let opcode = if rhs.spec_register() is Some {
                                    if size == Size::Byte {
                                        opcode2
                                    } else {
                                        (opcode2 + 1) as u8
                                    }
                                } else {
                                    if size == Size::Byte {
                                        (opcode2 + 2) as u8
                                    } else {
                                        (opcode2 + 3) as u8
                                    }
                                };
                                spec_binary_with_size(
                                    lock_if(m, atomic),
                                    opcode,
                                    false,
                                    lhs,
                                    rhs,
                                    false,
                                    size,
                                )
                            },
                        }
                    },
                },
            }
        },
    }
}

/// A shift `lvalue <<= n` (`ext` 4), `>>=` (7) or `>>>=` (5) by an immediate in
/// `0..=255` or by `cl`: 0xd0 for a shift by one, 0xd2 by `cl`, 0xc0 with an 8-bit
/// immediate; +1 for operands wider than a byte.
pub open spec fn spec_parse_basic_shift(m: ProgramModel, lvalue: Seq<u8>, rvalue: Seq<u8>, ext: u8) -> Outcome {
    let lv = spec_trim(lvalue);
    let rv = spec_trim(rvalue);
    match place_of(lv) {
        None => Err(Fail::Invalid),
        Some(lhs) => match lhs.spec_size() {
            None => Err(Fail::Invalid),
            Some(size) => {
                let is_cl = spec_register_named(rv) == Some(Register::Cl);
                match spec_try_resolve_imm(m, rv) {
                    Err(f) => Err(f),
                    Ok(maybe) => spec_shift_by(m, lhs, size, is_cl, maybe, ext),
                }
            },
        },
    }
}

/// A shift of `lhs` by the immediate `maybe`, or by `cl` when there is none.
pub open spec fn spec_shift_by(
    m: ProgramModel,
    lhs: PlaceModel,
    size: Size,
    is_cl: bool,
    maybe: Option<ImmediateModel>,
    ext: u8,
) -> Outcome {
    let is_1 = maybe matches Some(i) && i.spec_cast_u8() == Some(1u8);
    if maybe matches Some(i) && i.spec_strict_cast_u8() is None {
        Err(Fail::Invalid)
    } else if !is_1 && !is_cl && maybe is None {
        Err(Fail::Invalid)
    } else {
        let opcode: u8 = if is_1 {
            0xd0
        } else if is_cl {
            0xd2
        } else {
            0xc0
        };
        let wide = if size == Size::Byte {
            opcode
        } else {
            (opcode + 1) as u8
        };
        match maybe {
            Some(imm) => if !is_1 {
                spec_unary_with_imm(m, wide, Some(ext), lhs, false, imm, Size::Byte, false)
            } else {
                spec_unary(m, wide, false, Some(ext), lhs, false)
            },
            None => spec_unary(m, wide, false, Some(ext), lhs, false),
        }
    }
}

/// `lvalue *= rvalue` into a 16-, 32- or 64-bit register (0x0f 0xaf).
pub open spec fn spec_parse_imul_inplace(m: ProgramModel, lvalue: Seq<u8>, rvalue: Seq<u8>) -> Outcome {
    match place_of(spec_trim(lvalue)) {
        Some(lhs) => if is_wide_register(lhs) {
            match place_of(spec_trim(rvalue)) {
                None => Err(Fail::Invalid),
                Some(rhs) => match spec_coerce_size(lhs.spec_size(), rhs.spec_size()) {
                    Err(_) => Err(Fail::Invalid),
                    Ok(size) => spec_binary_with_size(m, 0xaf, true, rhs, lhs, false, size),
                },
            }
        } else {
            Err(Fail::Invalid)
        },
        None => Err(Fail::Invalid),
    }
}

/// A `test` with an immediate: the short accumulator forms 0xa8 and 0xa9, else 0xf6 /0
/// with an 8-bit immediate or 0xf7 /0 with a 16- or 32-bit one (sign-extended for 64-bit
/// operands). Only the flags change.
pub open spec fn spec_test_imm(m: ProgramModel, lhs: PlaceModel, imm: ImmediateModel) -> Outcome {
    if lhs == PlaceOf::<Seq<u8>>::Reg8(Register::Al) {
        match imm.spec_cast_u8() {
            Some(v) => Ok(m.emit(seq![0xa8u8, v])),
            None => Err(Fail::Invalid),
        }
    } else if lhs == PlaceOf::<Seq<u8>>::Reg16(Register::Ax) {
        match imm.spec_cast_u16() {
            Some(v) => Ok(m.emit(seq![0x66u8, 0xa9u8] + le16(v))),
            None => Err(Fail::Invalid),
        }
    } else if lhs == PlaceOf::<Seq<u8>>::Reg32(Register::Eax) {
        match imm.spec_cast_u32() {
            Some(v) => Ok(m.emit(seq![0xa9u8] + le_bytes(v as nat, 4))),
            None => Err(Fail::Invalid),
        }
    } else if lhs == PlaceOf::<Seq<u8>>::Reg64(Register::Rax) {
        match imm.spec_cast_i32() {
            Some(v) => Ok(m.emit(seq![0x48u8, 0xa9u8] + le32(v))),
            None => Err(Fail::Invalid),
        }
    } else {
        match lhs.spec_size() {
            None => Err(Fail::Invalid),
            Some(Size::Byte) => spec_unary_with_imm(m, 0xf6, Some(0), lhs, false, imm, Size::Byte, false),
            Some(Size::Qword) => spec_unary_with_imm(m, 0xf7, Some(0), lhs, false, imm, Size::Dword, true),
            Some(size) => spec_unary_with_imm(m, 0xf7, Some(0), lhs, false, imm, size, false),
        }
    }
}

/// `@set_flags(lvalue & rvalue)`: a `test` with an immediate (short forms for the
/// accumulator, else 0xf6/0xf7 /0) or with a register (0x84/0x85).
pub open spec fn spec_parse_test(m: ProgramModel, lvalue: Seq<u8>, rvalue: Seq<u8>) -> Outcome {
    let rv = spec_trim(rvalue);
    match place_of(spec_trim(lvalue)) {
        None => Err(Fail::Invalid),
        Some(lhs) => match spec_try_resolve_imm(m, rv) {
            Err(f) => Err(f),
            Ok(Some(imm)) => spec_test_imm(m, lhs, imm),
            Ok(None) => match place_of(rv) {
                None => Err(Fail::Invalid),
                Some(rhs) => match rhs.spec_size() {
                    None => Err(Fail::Invalid),
                    Some(rsize) => if rhs.spec_register() is None {
                        Err(Fail::Invalid)
                    } else if rsize == Size::Byte {
                        spec_binary(m, 0x84, false, lhs, rhs, false)
                    } else {
                        spec_binary(m, 0x85, false, lhs, rhs, false)
                    },
                },
            },
        },
    }
}

/// The operand written as `s`, if it is one.
pub fn place_from(s: &[u8]) -> (r: Option<Place>)
    ensures
        match r {
            Some(p) => place_of(s@) == Some(p.model()),
            None => place_of(s@) is None,
        },
{
    match parse_place_bytes(s) {
        Ok(p) => Some(p),
        Err(_) => None,
    }
}

/// A one-byte sequence.
pub fn bytes1(a: u8) -> (r: Vec<u8>)
    ensures
        r@ == seq![a],
{
    let r = vec![a];
    assert(r@ == seq![a]);
    r
}

/// A two-byte sequence.
pub fn bytes2(a: u8, b: u8) -> (r: Vec<u8>)
    ensures
        r@ == seq![a, b],
{
    let r = vec![a, b];
    assert(r@ == seq![a, b]);
    r
}

/// A three-byte sequence.
pub fn bytes3(a: u8, b: u8, c: u8) -> (r: Vec<u8>)
    ensures
        r@ == seq![a, b, c],
{
    let r = vec![a, b, c];
    assert(r@ == seq![a, b, c]);
    r
}

/// The low three bits of a register number.
pub fn low3(x: u8) -> (r: u8)
    ensures
        r == x & 7,
        r < 8,
{
    assert(x & 7 < 8) by (bit_vector);
    x & 7
}

fn le16_vec(v: u16) -> (r: Vec<u8>)
    ensures
        r@ == le16(v),
{
    le_bytes_of(v as u64, 2)
}

/// The little-endian bytes of a 32-bit displacement.
pub fn le32_vec(v: i32) -> (r: Vec<u8>)
    ensures
        r@ == le32(v),
{
    le_bytes_of((v as u32) as u64, 4)
}

impl Program {
    fn emit_imm_form(&mut self, head: Vec<u8>, tail: Vec<u8>)
        requires
            old(self).wf(),
        ensures
            final(self).wf(),
            final(self).model() == old(self).model().emit(head@ + tail@),
    {
        self.push_bytes(head.as_slice());
        self.push_bytes(tail.as_slice());
        assert(old(self).model().emit(head@).emit(tail@) == old(self).model().emit(head@ + tail@));
    }

    fn lock(&mut self, atomic: bool)
        requires
            old(self).wf(),
        ensures
            final(self).wf(),
            final(self).model() == lock_if(old(self).model(), atomic),
    {
        if atomic {
            self.push_byte(0xf0);
        }
    }

    /// A `push` (see `spec_parse_push`).
    pub fn parse_push(&mut self, rest: &[u8]) -> (r: Result<(), AsmError>)
        requires
            old(self).wf(),
        ensures
            final(self).wf(),
            r is Err ==> final(self).model() == old(self).model(),
            match r {
                Ok(()) => spec_parse_push(old(self).model(), rest@) == Ok::<ProgramModel, Fail>(final(self).model()),
                Err(e) => spec_parse_push(old(self).model(), rest@) == Err::<ProgramModel, Fail>(e.fail()),
            },
    {
        if let Some(place) = place_from(trim(rest)) {
            match place {
                PlaceOf::Reg16(reg) | PlaceOf::Reg64(reg) => {
                    self.unary(0x50 + low3(reg.id()), false, None, place, true)
                },
                _ => {
                    let size = invalid(place.assert_size())?;
                    if matches!(size, Size::Word | Size::Qword) {
                        self.unary(0xff, false, Some(6), place, true)
                    } else {
                        Err(AsmError::Invalid("only 16-bit and 64-bit places can be pushed"))
                    }
                },
            }
        } else if let Some(imm) = self.try_resolve_imm(rest)? {
            self.push_imm(imm)
        } else {
            Err(AsmError::Invalid("could not parse immediate or place"))
        }
    }

    fn push_imm(&mut self, imm: Immediate) -> (r: Result<(), AsmError>)
        requires
            old(self).wf(),
        ensures
            final(self).wf(),
            r is Err ==> final(self).model() == old(self).model(),
            match r {
                Ok(()) => spec_push_imm(old(self).model(), imm.model()) == Ok::<ProgramModel, Fail>(
                    final(self).model(),
                ),
                Err(e) => spec_push_imm(old(self).model(), imm.model()) == Err::<ProgramModel, Fail>(
                    e.fail(),
                ),
            },
    {
        if let Ok(val) = imm.cast_u8() {
            self.emit_imm_form(bytes2(0x6a, val), Vec::new());
        } else if let Ok(val) = imm.cast_i16() {
            self.emit_imm_form(bytes2(0x66, 0x68), le16_vec(val as u16));
        } else if let Ok(val) = imm.cast_i32() {
            self.emit_imm_form(bytes1(0x68), le32_vec(val));
        } else {
            return Err(AsmError::Invalid("only 8-bit, 16-bit, or 32-bit immediates can be pushed"));
        }
        Ok(())
    }

    /// A `pop` (see `spec_parse_pop`).
    pub fn parse_pop(&mut self, rest: &[u8]) -> (r: Result<(), AsmError>)
        requires
            old(self).wf(),
        ensures
            final(self).wf(),
            r is Err ==> final(self).model() == old(self).model(),
            match r {
                Ok(()) => spec_parse_pop(old(self).model(), rest@) == Ok::<ProgramModel, Fail>(final(self).model()),
                Err(e) => spec_parse_pop(old(self).model(), rest@) == Err::<ProgramModel, Fail>(e.fail()),
            },
    {
        let place = match place_from(trim(rest)) {
            Some(p) => p,
            None => return Err(AsmError::Invalid("only a place expression can be popped into")),
        };
        match place {
            PlaceOf::Reg16(reg) | PlaceOf::Reg64(reg) => {
                self.unary(0x58 + low3(reg.id()), false, None, place, true)
            },
            _ => {
                let size = invalid(place.assert_size())?;
                if matches!(size, Size::Word | Size::Qword) {
                    self.unary(0x8f, false, Some(0), place, true)
                } else {
                    Err(AsmError::Invalid("only 16-bit and 64-bit places can be popped into"))
                }
            },
        }
    }

    /// A one-operand arithmetic instruction (see `spec_parse_basic_unary`).
    pub fn parse_basic_unary(&mut self, lvalue: &[u8], opcode: u8, ext: u8, atomic: bool) -> (r: Result<
        (),
        AsmError,
    >)
        requires
            old(self).wf(),
            opcode < 0xff,
        ensures
            final(self).wf(),
            r is Err ==> final(self).model() == old(self).model(),
            match r {
                Ok(()) => spec_parse_basic_unary(old(self).model(), lvalue@, opcode, ext, atomic)
                    == Ok::<ProgramModel, Fail>(final(self).model()),
                Err(e) => spec_parse_basic_unary(old(self).model(), lvalue@, opcode, ext, atomic)
                    == Err::<ProgramModel, Fail>(e.fail()),
            },
    {
        let place = match place_from(lvalue) {
            Some(p) => p,
            None => return Err(AsmError::Invalid("could not parse place expression")),
        };
        let op = match place {
            PlaceOf::Reg8(_) | PlaceOf::Memory(_, Some(Size::Byte)) => opcode,
            _ => opcode + 1,
        };
        if atomic && place.is_register() {
            return Err(AsmError::Invalid("atomic operations can only be performed when one operand accesses memory"));
        }
        let start = self.code.len();
        self.lock(atomic);
        let r = self.unary(op, false, Some(ext), place, false);
        if r.is_err() {
            self.truncate_code(start);
            assert(self.model().code =~= old(self).model().code);
        }
        r
    }

    /// `lvalue++`.
    pub fn parse_inc(&mut self, lvalue: &[u8], atomic: bool) -> (r: Result<(), AsmError>)
        requires
            old(self).wf(),
        ensures
            final(self).wf(),
            r is Err ==> final(self).model() == old(self).model(),
            match r {
                Ok(()) => spec_parse_basic_unary(old(self).model(), lvalue@, 0xfe, 0, atomic)
                    == Ok::<ProgramModel, Fail>(final(self).model()),
                Err(e) => spec_parse_basic_unary(old(self).model(), lvalue@, 0xfe, 0, atomic)
                    == Err::<ProgramModel, Fail>(e.fail()),
            },
    {
        self.parse_basic_unary(lvalue, 0xfe, 0, atomic)
    }

    /// `lvalue--`.
    pub fn parse_dec(&mut self, lvalue: &[u8], atomic: bool) -> (r: Result<(), AsmError>)
        requires
            old(self).wf(),
        ensures
            final(self).wf(),
            r is Err ==> final(self).model() == old(self).model(),
            match r {
                Ok(()) => spec_parse_basic_unary(old(self).model(), lvalue@, 0xfe, 1, atomic)
                    == Ok::<ProgramModel, Fail>(final(self).model()),
                Err(e) => spec_parse_basic_unary(old(self).model(), lvalue@, 0xfe, 1, atomic)
                    == Err::<ProgramModel, Fail>(e.fail()),
            },
    {
        self.parse_basic_unary(lvalue, 0xfe, 1, atomic)
    }

    /// `@not(lvalue)`.
    pub fn parse_not(&mut self, lvalue: &[u8], atomic: bool) -> (r: Result<(), AsmError>)
        requires
            old(self).wf(),
        ensures
            final(self).wf(),
            r is Err ==> final(self).model() == old(self).model(),
            match r {
                Ok(()) => spec_parse_basic_unary(old(self).model(), lvalue@, 0xf6, 2, atomic)
                    == Ok::<ProgramModel, Fail>(final(self).model()),
                Err(e) => spec_parse_basic_unary(old(self).model(), lvalue@, 0xf6, 2, atomic)
                    == Err::<ProgramModel, Fail>(e.fail()),
            },
    {
        self.parse_basic_unary(lvalue, 0xf6, 2, atomic)
    }

    /// `@negate(lvalue)`.
    pub fn parse_neg(&mut self, lvalue: &[u8], atomic: bool) -> (r: Result<(), AsmError>)
        requires
            old(self).wf(),
        ensures
            final(self).wf(),
            r is Err ==> final(self).model() == old(self).model(),
            match r {
                Ok(()) => spec_parse_basic_unary(old(self).model(), lvalue@, 0xf6, 3, atomic)
                    == Ok::<ProgramModel, Fail>(final(self).model()),
                Err(e) => spec_parse_basic_unary(old(self).model(), lvalue@, 0xf6, 3, atomic)
                    == Err::<ProgramModel, Fail>(e.fail()),
            },
    {
        self.parse_basic_unary(lvalue, 0xf6, 3, atomic)
    }

    fn basic_imm(&mut self, lhs: Place, imm: Immediate, opcode1: u8, ext: u8) -> (r: Result<(), AsmError>)
        requires
            old(self).wf(),
            opcode1 < 0xff,
        ensures
            final(self).wf(),
            r is Err ==> final(self).model() == old(self).model(),
            match r {
                Ok(()) => spec_basic_imm(old(self).model(), lhs.model(), imm.model(), opcode1, ext)
                    == Ok::<ProgramModel, Fail>(final(self).model()),
                Err(e) => spec_basic_imm(old(self).model(), lhs.model(), imm.model(), opcode1, ext)
                    == Err::<ProgramModel, Fail>(e.fail()),
            },
    {
        let one = imm.cast_i8().is_ok();
        if matches!(lhs, PlaceOf::Reg8(Register::Al)) {
            let val = invalid(imm.cast_u8())?;
            self.emit_imm_form(bytes2(opcode1, val), Vec::new());
            Ok(())
        } else if matches!(lhs, PlaceOf::Reg16(Register::Ax)) && !one {
            let val = invalid(imm.cast_u16())?;
            self.emit_imm_form(bytes2(0x66, opcode1 + 1), le16_vec(val));
            Ok(())
        } else if matches!(lhs, PlaceOf::Reg32(Register::Eax)) && !one {
            let val = invalid(imm.cast_u32())?;
            self.emit_imm_form(bytes1(opcode1 + 1), le_bytes_of(val as u64, 4));
            Ok(())
        } else if matches!(lhs, PlaceOf::Reg64(Register::Rax)) && !one {
            let val = invalid(imm.cast_i32())?;
            self.emit_imm_form(bytes2(0x48, opcode1 + 1), le32_vec(val));
            Ok(())
        } else {
            self.basic_imm_rm(lhs, imm, ext)
        }
    }

    fn basic_imm_rm(&mut self, lhs: Place, imm: Immediate, ext: u8) -> (r: Result<(), AsmError>)
        requires
            old(self).wf(),
        ensures
            final(self).wf(),
            r is Err ==> final(self).model() == old(self).model(),
            match r {
                Ok(()) => spec_basic_imm_rm(old(self).model(), lhs.model(), imm.model(), ext)
                    == Ok::<ProgramModel, Fail>(final(self).model()),
                Err(e) => spec_basic_imm_rm(old(self).model(), lhs.model(), imm.model(), ext)
                    == Err::<ProgramModel, Fail>(e.fail()),
            },
    {
        let one = imm.cast_i8().is_ok();
        {
            match invalid(lhs.assert_size())? {
                Size::Byte => self.unary_with_imm(0x80, Some(ext), lhs, false, &imm, Size::Byte, false),
                Size::Word => if one {
                    self.unary_with_imm(0x83, Some(ext), lhs, false, &imm, Size::Byte, true)
                } else {
                    self.unary_with_imm(0x81, Some(ext), lhs, false, &imm, Size::Word, false)
                },
                Size::Dword => if one {
                    self.unary_with_imm(0x83, Some(ext), lhs, false, &imm, Size::Byte, true)
                } else {
                    self.unary_with_imm(0x81, Some(ext), lhs, false, &imm, Size::Dword, false)
                },
                Size::Qword => if one {
                    self.unary_with_imm(0x83, Some(ext), lhs, false, &imm, Size::Byte, true)
                } else {
                    self.unary_with_imm(0x81, Some(ext), lhs, false, &imm, Size::Dword, true)
                },
            }
        }
    }

    /// A compound assignment (see `spec_parse_basic`).
    pub fn parse_basic(&mut self, lvalue: &[u8], rvalue: &[u8], opcode1: u8, ext: u8, opcode2: u8) -> (r:
        Result<(), AsmError>)
        requires
            old(self).wf(),
            opcode1 < 0xff,
            opcode2 < 0xfc,
        ensures
            final(self).wf(),
            r is Err ==> final(self).model() == old(self).model(),
            match r {
                Ok(()) => spec_parse_basic(old(self).model(), lvalue@, rvalue@, opcode1, ext, opcode2)
                    == Ok::<ProgramModel, Fail>(final(self).model()),
                Err(e) => spec_parse_basic(old(self).model(), lvalue@, rvalue@, opcode1, ext, opcode2)
                    == Err::<ProgramModel, Fail>(e.fail()),
            },
    {
        let lhs = match place_from(trim(lvalue)) {
            Some(p) => p,
            None => return Err(AsmError::Invalid("could not parse lvalue place expression")),
        };
        let (rv, atomic) = extract_atomic_suffix(trim(rvalue));
        if let Some(imm) = self.try_resolve_imm(rv)? {
            if atomic && lhs.is_register() {
                return Err(AsmError::Invalid("atomic operations can only be performed when one operand accesses memory"));
            }
            let start = self.code.len();
            self.lock(atomic);
            let r = self.basic_imm(lhs, imm, opcode1, ext);
            if r.is_err() {
                self.truncate_code(start);
                assert(self.model().code =~= old(self).model().code);
            }
            r
        } else if let Some(rhs) = place_from(rv) {
            if atomic {
                invalid(Place::assert_atomic_compatible(lhs, rhs))?;
            }
            let size = invalid(lhs.coerce_size(rhs))?;
            let opcode = match (rhs.is_register(), size) {
                (true, Size::Byte) => opcode2,
                (true, _) => opcode2 + 1,
                (false, Size::Byte) => opcode2 + 2,
                (false, _) => opcode2 + 3,
            };
            let start = self.code.len();
            self.lock(atomic);
            let r = self.binary_with_size(opcode, false, lhs, rhs, false, size);
            if r.is_err() {
                self.truncate_code(start);
                assert(self.model().code =~= old(self).model().code);
            }
            r
        } else {
            Err(AsmError::Invalid("could not parse rvalue place expression"))
        }
    }

    /// `lvalue ^= rvalue`.
    pub fn parse_xor(&mut self, lvalue: &[u8], rvalue: &[u8]) -> (r: Result<(), AsmError>)
        requires
            old(self).wf(),
        ensures
            final(self).wf(),
            r is Err ==> final(self).model() == old(self).model(),
            match r {
                Ok(()) => spec_parse_basic(old(self).model(), lvalue@, rvalue@, 0x34, 6, 0x30)
                    == Ok::<ProgramModel, Fail>(final(self).model()),
                Err(e) => spec_parse_basic(old(self).model(), lvalue@, rvalue@, 0x34, 6, 0x30)
                    == Err::<ProgramModel, Fail>(e.fail()),
            },
    {
        self.parse_basic(lvalue, rvalue, 0x34, 6, 0x30)
    }

    /// `lvalue &= rvalue`.
    pub fn parse_and(&mut self, lvalue: &[u8], rvalue: &[u8]) -> (r: Result<(), AsmError>)
        requires
            old(self).wf(),
        ensures
            final(self).wf(),
            r is Err ==> final(self).model() == old(self).model(),
            match r {
                Ok(()) => spec_parse_basic(old(self).model(), lvalue@, rvalue@, 0x24, 4, 0x20)
                    == Ok::<ProgramModel, Fail>(final(self).model()),
                Err(e) => spec_parse_basic(old(self).model(), lvalue@, rvalue@, 0x24, 4, 0x20)
                    == Err::<ProgramModel, Fail>(e.fail()),
            },
    {
        self.parse_basic(lvalue, rvalue, 0x24, 4, 0x20)
    }

    /// `lvalue |= rvalue`.
    pub fn parse_or(&mut self, lvalue: &[u8], rvalue: &[u8]) -> (r: Result<(), AsmError>)
        requires
            old(self).wf(),
        ensures
            final(self).wf(),
            r is Err ==> final(self).model() == old(self).model(),
            match r {
                Ok(()) => spec_parse_basic(old(self).model(), lvalue@, rvalue@, 0x0c, 1, 0x08)
                    == Ok::<ProgramModel, Fail>(final(self).model()),
                Err(e) => spec_parse_basic(old(self).model(), lvalue@, rvalue@, 0x0c, 1, 0x08)
                    == Err::<ProgramModel, Fail>(e.fail()),
            },
    {
        self.parse_basic(lvalue, rvalue, 0x0c, 1, 0x08)
    }

    /// The comparison `lvalue - rvalue` of `@set_flags`.
    pub fn parse_compare(&mut self, lvalue: &[u8], rvalue: &[u8]) -> (r: Result<(), AsmError>)
        requires
            old(self).wf(),
        ensures
            final(self).wf(),
            r is Err ==> final(self).model() == old(self).model(),
            match r {
                Ok(()) => spec_parse_basic(old(self).model(), lvalue@, rvalue@, 0x3c, 7, 0x38)
                    == Ok::<ProgramModel, Fail>(final(self).model()),
                Err(e) => spec_parse_basic(old(self).model(), lvalue@, rvalue@, 0x3c, 7, 0x38)
                    == Err::<ProgramModel, Fail>(e.fail()),
            },
    {
        self.parse_basic(lvalue, rvalue, 0x3c, 7, 0x38)
    }

    /// `lvalue += rvalue`.
    pub fn parse_add(&mut self, lvalue: &[u8], rvalue: &[u8]) -> (r: Result<(), AsmError>)
        requires
            old(self).wf(),
        ensures
            final(self).wf(),
            r is Err ==> final(self).model() == old(self).model(),
            match r {
                Ok(()) => spec_parse_basic(old(self).model(), lvalue@, rvalue@, 0x04, 0, 0x00)
                    == Ok::<ProgramModel, Fail>(final(self).model()),
                Err(e) => spec_parse_basic(old(self).model(), lvalue@, rvalue@, 0x04, 0, 0x00)
                    == Err::<ProgramModel, Fail>(e.fail()),
            },
    {
        self.parse_basic(lvalue, rvalue, 0x04, 0, 0x00)
    }

    /// `lvalue -= rvalue`.
    pub fn parse_sub(&mut self, lvalue: &[u8], rvalue: &[u8]) -> (r: Result<(), AsmError>)
        requires
            old(self).wf(),
        ensures
            final(self).wf(),
            r is Err ==> final(self).model() == old(self).model(),
            match r {
                Ok(()) => spec_parse_basic(old(self).model(), lvalue@, rvalue@, 0x2c, 5, 0x28)
                    == Ok::<ProgramModel, Fail>(final(self).model()),
                Err(e) => spec_parse_basic(old(self).model(), lvalue@, rvalue@, 0x2c, 5, 0x28)
                    == Err::<ProgramModel, Fail>(e.fail()),
            },
    {
        self.parse_basic(lvalue, rvalue, 0x2c, 5, 0x28)
    }

    /// An addition with carry.
    pub fn parse_adc(&mut self, lvalue: &[u8], rvalue: &[u8]) -> (r: Result<(), AsmError>)
        requires
            old(self).wf(),
        ensures
            final(self).wf(),
            r is Err ==> final(self).model() == old(self).model(),
            match r {
                Ok(()) => spec_parse_basic(old(self).model(), lvalue@, rvalue@, 0x14, 2, 0x10)
                    == Ok::<ProgramModel, Fail>(final(self).model()),
                Err(e) => spec_parse_basic(old(self).model(), lvalue@, rvalue@, 0x14, 2, 0x10)
                    == Err::<ProgramModel, Fail>(e.fail()),
            },
    {
        self.parse_basic(lvalue, rvalue, 0x14, 2, 0x10)
    }

    /// A subtraction with borrow.
    pub fn parse_sbb(&mut self, lvalue: &[u8], rvalue: &[u8]) -> (r: Result<(), AsmError>)
        requires
            old(self).wf(),
        ensures
            final(self).wf(),
            r is Err ==> final(self).model() == old(self).model(),
            match r {
                Ok(()) => spec_parse_basic(old(self).model(), lvalue@, rvalue@, 0x1c, 3, 0x18)
                    == Ok::<ProgramModel, Fail>(final(self).model()),
                Err(e) => spec_parse_basic(old(self).model(), lvalue@, rvalue@, 0x1c, 3, 0x18)
                    == Err::<ProgramModel, Fail>(e.fail()),
            },
    {
        self.parse_basic(lvalue, rvalue, 0x1c, 3, 0x18)
    }

    /// A shift (see `spec_parse_basic_shift`).
    pub fn parse_basic_shift(&mut self, lvalue: &[u8], rvalue: &[u8], ext: u8) -> (r: Result<(), AsmError>)
        requires
            old(self).wf(),
        ensures
            final(self).wf(),
            r is Err ==> final(self).model() == old(self).model(),
            match r {
                Ok(()) => spec_parse_basic_shift(old(self).model(), lvalue@, rvalue@, ext)
                    == Ok::<ProgramModel, Fail>(final(self).model()),
                Err(e) => spec_parse_basic_shift(old(self).model(), lvalue@, rvalue@, ext)
                    == Err::<ProgramModel, Fail>(e.fail()),
            },
    {
        let lv = trim(lvalue);
        let rv = trim(rvalue);
        let lhs = match parse_place_bytes(lv) {
            Ok(p) => p,
            Err(e) => return Err(quoting_because("could not parse place expression: ", lv, "", e.as_bytes())),
        };
        let size = invalid(lhs.assert_size())?;
        let is_cl = matches!(Register::from_name(rv), Some(Register::Cl));
        let maybe_imm8 = self.try_resolve_imm(rv)?;
        self.shift_by(lhs, size, is_cl, maybe_imm8, ext)
    }

    fn shift_by(&mut self, lhs: Place, size: Size, is_cl: bool, maybe_imm8: Option<Immediate>, ext: u8) -> (r:
        Result<(), AsmError>)
        requires
            old(self).wf(),
        ensures
            final(self).wf(),
            r is Err ==> final(self).model() == old(self).model(),
            match r {
                Ok(()) => spec_shift_by(
                    old(self).model(),
                    lhs.model(),
                    size,
                    is_cl,
                    match maybe_imm8 {
                        Some(i) => Some(i.model()),
                        None => None,
                    },
                    ext,
                ) == Ok::<ProgramModel, Fail>(final(self).model()),
                Err(e) => spec_shift_by(
                    old(self).model(),
                    lhs.model(),
                    size,
                    is_cl,
                    match maybe_imm8 {
                        Some(i) => Some(i.model()),
                        None => None,
                    },
                    ext,
                ) == Err::<ProgramModel, Fail>(e.fail()),
            },
    {
        let is_1 = match &maybe_imm8 {
            Some(i) => match i.cast_u8() {
                Ok(v) => v == 1,
                Err(_) => false,
            },
            None => false,
        };
        if let Some(imm) = &maybe_imm8 {
            invalid(imm.strict_cast_u8())?;
        }
        let opcode: u8 = if is_1 {
            0xd0
        } else if is_cl {
            0xd2
        } else if maybe_imm8.is_some() {
            0xc0
        } else {
            return Err(AsmError::Invalid("the right-hand side must either be an immediate or the cl register"));
        };
        let wide = if size == Size::Byte {
            opcode
        } else {
            opcode + 1
        };
        match maybe_imm8 {
            Some(imm) => if !is_1 {
                self.unary_with_imm(wide, Some(ext), lhs, false, &imm, Size::Byte, false)
            } else {
                self.unary(wide, false, Some(ext), lhs, false)
            },
            None => self.unary(wide, false, Some(ext), lhs, false),
        }
    }

    /// `lvalue *= rvalue` (see `spec_parse_imul_inplace`).
    pub fn parse_imul_inplace(&mut self, lvalue: &[u8], rvalue: &[u8]) -> (r: Result<(), AsmError>)
        requires
            old(self).wf(),
        ensures
            final(self).wf(),
            r is Err ==> final(self).model() == old(self).model(),
            match r {
                Ok(()) => spec_parse_imul_inplace(old(self).model(), lvalue@, rvalue@)
                    == Ok::<ProgramModel, Fail>(final(self).model()),
                Err(e) => spec_parse_imul_inplace(old(self).model(), lvalue@, rvalue@)
                    == Err::<ProgramModel, Fail>(e.fail()),
            },
    {
        if let Some(lhs) = place_from(trim(lvalue)) {
            if matches!(lhs, PlaceOf::Reg16(_) | PlaceOf::Reg32(_) | PlaceOf::Reg64(_)) {
                let rhs = match parse_place_bytes(trim(rvalue)) {
                    Ok(p) => p,
                    Err(e) => return Err(
                        quoting_because("could not parse rvalue place expression", &[], "", e.as_bytes()),
                    ),
                };
                let size = invalid(lhs.coerce_size(rhs))?;
                return self.binary_with_size(0xaf, true, rhs, lhs, false, size);
            }
        }
        Err(AsmError::Invalid("only 16-bit, 32-bit, or 64-bit registers can be used as the target of this operation"))
    }

    fn test_imm(&mut self, lhs: Place, imm: Immediate) -> (r: Result<(), AsmError>)
        requires
            old(self).wf(),
        ensures
            final(self).wf(),
            r is Err ==> final(self).model() == old(self).model(),
            match r {
                Ok(()) => spec_test_imm(old(self).model(), lhs.model(), imm.model())
                    == Ok::<ProgramModel, Fail>(final(self).model()),
                Err(e) => spec_test_imm(old(self).model(), lhs.model(), imm.model())
                    == Err::<ProgramModel, Fail>(e.fail()),
            },
    {
        if matches!(lhs, PlaceOf::Reg8(Register::Al)) {
            let val = invalid(imm.cast_u8())?;
            self.emit_imm_form(bytes2(0xa8, val), Vec::new());
            Ok(())
        } else if matches!(lhs, PlaceOf::Reg16(Register::Ax)) {
            let val = invalid(imm.cast_u16())?;
            self.emit_imm_form(bytes2(0x66, 0xa9), le16_vec(val));
            Ok(())
        } else if matches!(lhs, PlaceOf::Reg32(Register::Eax)) {
            let val = invalid(imm.cast_u32())?;
            self.emit_imm_form(bytes1(0xa9), le_bytes_of(val as u64, 4));
            Ok(())
        } else if matches!(lhs, PlaceOf::Reg64(Register::Rax)) {
            let val = invalid(imm.cast_i32())?;
            self.emit_imm_form(bytes2(0x48, 0xa9), le32_vec(val));
            Ok(())
        } else {
            match invalid(lhs.assert_size())? {
                Size::Byte => self.unary_with_imm(0xf6, Some(0), lhs, false, &imm, Size::Byte, false),
                Size::Qword => self.unary_with_imm(0xf7, Some(0), lhs, false, &imm, Size::Dword, true),
                size => self.unary_with_imm(0xf7, Some(0), lhs, false, &imm, size, false),
            }
        }
    }

    /// The `test` of `@set_flags(lvalue & rvalue)` (see `spec_parse_test`).
    pub fn parse_test(&mut self, lvalue: &[u8], rvalue: &[u8]) -> (r: Result<(), AsmError>)
        requires
            old(self).wf(),
        ensures
            final(self).wf(),
            r is Err ==> final(self).model() == old(self).model(),
            match r {
                Ok(()) => spec_parse_test(old(self).model(), lvalue@, rvalue@)
                    == Ok::<ProgramModel, Fail>(final(self).model()),
                Err(e) => spec_parse_test(old(self).model(), lvalue@, rvalue@)
                    == Err::<ProgramModel, Fail>(e.fail()),
            },
    {
        let rv = trim(rvalue);
        let lhs = match place_from(trim(lvalue)) {
            Some(p) => p,
            None => return Err(AsmError::Invalid("could not parse lvalue place expression")),
        };
        if let Some(imm) = self.try_resolve_imm(rv)? {
            self.test_imm(lhs, imm)
        } else if let Some(rhs) = place_from(rv) {
            let rsize = invalid(rhs.assert_size())?;
            if !rhs.is_register() {
                Err(AsmError::Invalid("in this expression, the right-hand value must be either a register or immediate"))
            } else if rsize == Size::Byte {
                self.binary(0x84, false, lhs, rhs, false)
            } else {
                self.binary(0x85, false, lhs, rhs, false)
            }
        } else {
            Err(AsmError::Invalid("could not parse rvalue place expression"))
        }
    }

}

} // verus!
