//! Assignments `lvalue = rvalue`: moves, loads of addresses, zero- and sign-extending
//! moves, flag reads, conditional moves and multiplications by a constant.
use vstd::prelude::*;

use crate::immediate::{Immediate, ImmediateModel};
use crate::opcodes::{cmovcc_opcode, setcc_opcode, spec_cmovcc_opcode, spec_setcc_opcode};
use crate::place::{
    Displacement, EffectiveAddress, Place, PlaceModel, PlaceOf, Size, ident_str, lit, parse_place_bytes,
    spec_coerce_size,
};
use crate::program::encode::{spec_binary, spec_binary_with_imm, spec_binary_with_size,
    spec_unary_with_imm, spec_unary_with_size};
use crate::program::immediates::{spec_resolve_effective_address, spec_try_resolve_imm};
use crate::program::instructions::{bytes3, is_wide_register, low3, place_from, place_of};
use crate::program::{AsmError, Fail, Outcome, Program, ProgramModel, invalid, quoting, quoting_because};
use crate::registers::reg_id;
use crate::text::{
    allowed_identifier, find_from, spec_allowed_identifier, spec_find_from, spec_split_once,
    spec_strip_prefix, spec_trim, split_once, strip_prefix, trim,
};

verus! {

/// An assignment `lvalue = rvalue` (see `spec_assign_to`).
pub open spec fn spec_parse_assign(m: ProgramModel, lvalue: Seq<u8>, rvalue: Seq<u8>) -> Outcome {
    match place_of(spec_trim(lvalue)) {
        None => Err(Fail::Invalid),
        Some(lhs) => spec_assign_to(m, lhs, rvalue),
    }
}

/// The assignment to `lhs` of what `rv` denotes, tried in this order: an operand (a
/// `mov`), an immediate (a `mov` of a constant), and the other forms
/// (`spec_assign_other`).
pub open spec fn spec_assign_to(m: ProgramModel, lhs: PlaceModel, rv: Seq<u8>) -> Outcome {
    match place_of(rv) {
        Some(rhs) => spec_binary(m, mov_opcode(lhs, rhs), false, lhs, rhs, false),
        None => match spec_try_resolve_imm(m, rv) {
            Err(f) => Err(f),
            Ok(Some(imm)) => spec_mov_imm(m, lhs, imm),
            Ok(None) => spec_assign_other(m, lhs, rv),
        },
    }
}

/// The `mov` opcode between two operands: 0x88/0x89 from a register, 0x8a/0x8b from
/// memory, the first of each pair when either side is a byte.
pub open spec fn mov_opcode(lhs: PlaceModel, rhs: PlaceModel) -> u8 {
    let byte = rhs.spec_size() == Some(Size::Byte) || lhs.spec_size() == Some(Size::Byte);
    if rhs.spec_register() is Some {
        if byte {
            0x88
        } else {
            0x89
        }
    } else {
        if byte {
            0x8a
        } else {
            0x8b
        }
    }
}

/// A `mov` of a constant: 0xb0+r for byte registers, 0xb8+r for 16- and 32-bit ones and
/// for 64-bit ones when the constant does not fit in 32 signed bits; otherwise 0xc6 /0 or
/// 0xc7 /0 (with a sign-extended 32-bit immediate for 64-bit operands).
pub open spec fn spec_mov_imm(m: ProgramModel, lhs: PlaceModel, imm: ImmediateModel) -> Outcome {
    match lhs.spec_size() {
        None => Err(Fail::Invalid),
        Some(size) => match lhs {
            PlaceOf::Reg8(r) => spec_unary_with_imm(
                m,
                (0xb0 + (reg_id(r) & 7)) as u8,
                None,
                lhs,
                false,
                imm,
                Size::Byte,
                false,
            ),
            PlaceOf::Reg16(r) => spec_unary_with_imm(
                m,
                (0xb8 + (reg_id(r) & 7)) as u8,
                None,
                lhs,
                false,
                imm,
                size,
                false,
            ),
            PlaceOf::Reg32(r) => spec_unary_with_imm(
                m,
                (0xb8 + (reg_id(r) & 7)) as u8,
                None,
                lhs,
                false,
                imm,
                size,
                false,
            ),
            PlaceOf::Reg64(r) if imm.spec_cast_i32() is None => spec_unary_with_imm(
                m,
                (0xb8 + (reg_id(r) & 7)) as u8,
                None,
                lhs,
                false,
                imm,
                size,
                false,
            ),
            _ => if size == Size::Byte {
                spec_unary_with_imm(m, 0xc6, Some(0), lhs, false, imm, Size::Byte, false)
            } else if size == Size::Qword {
                spec_unary_with_imm(m, 0xc7, Some(0), lhs, false, imm, Size::Dword, true)
            } else {
                spec_unary_with_imm(m, 0xc7, Some(0), lhs, false, imm, size, false)
            },
        },
    }
}

/// The assignments whose right-hand side is neither an operand nor an immediate: an
/// address expression or the name of a static or label (a `lea`, 0x8d), else
/// `spec_assign_extend`.
pub open spec fn spec_assign_other(m: ProgramModel, lhs: PlaceModel, rv: Seq<u8>) -> Outcome {
    match spec_resolve_effective_address(m, rv) {
        Ok(ea) => spec_lea(m, lhs, ea),
        Err(_) => if spec_allowed_identifier(rv) && m.is_defined(rv) {
            spec_binary(
                m,
                0x8d,
                false,
                lhs,
                PlaceOf::RipRelative(rv, Displacement::Byte(0), Some(Size::Qword)),
                false,
            )
        } else {
            spec_assign_extend(m, lhs, rv)
        },
    }
}

/// `lea` of an address into a register wider than a byte.
pub open spec fn spec_lea(m: ProgramModel, lhs: PlaceModel, ea: EffectiveAddress) -> Outcome {
    if lhs.spec_register() is None || lhs.spec_size() == Some(Size::Byte) {
        Err(Fail::Invalid)
    } else {
        spec_binary(m, 0x8d, false, lhs, PlaceOf::Memory(ea, lhs.spec_size()), false)
    }
}

/// `0:place` (a zero-extending move), `s:place` (a sign-extending move), else
/// `spec_assign_cond`.
pub open spec fn spec_assign_extend(m: ProgramModel, lhs: PlaceModel, rv: Seq<u8>) -> Outcome {
    match spec_strip_prefix(rv, lit("0:")) {
        Some(rest) => spec_movzx(m, lhs, rest),
        None => match spec_strip_prefix(rv, lit("s:")) {
            Some(rest) => spec_movsx(m, lhs, rest),
            None => spec_assign_cond(m, lhs, rv),
        },
    }
}

/// `movzx`: a byte into a 16-, 32- or 64-bit register (0x0f 0xb6), a word into a 32- or
/// 64-bit one (0x0f 0xb7).
pub open spec fn spec_movzx(m: ProgramModel, lhs: PlaceModel, rest: Seq<u8>) -> Outcome {
    match place_of(rest) {
        None => Err(Fail::Invalid),
        Some(rhs) => match rhs.spec_size() {
            None => Err(Fail::Invalid),
            Some(rs) => if is_wide_register(lhs) && rs == Size::Byte {
                spec_binary_with_size(m, 0xb6, true, rhs, lhs, false, lhs.spec_size().unwrap())
            } else if (lhs is Reg32 || lhs is Reg64) && rs == Size::Word {
                spec_binary_with_size(m, 0xb7, true, rhs, lhs, false, lhs.spec_size().unwrap())
            } else {
                Err(Fail::Invalid)
            },
        },
    }
}

/// `movsx`/`movsxd`: a byte into a 16-, 32- or 64-bit register (0x0f 0xbe), a word into a
/// 32- or 64-bit one (0x0f 0xbf), a doubleword into a 64-bit one (0x63).
pub open spec fn spec_movsx(m: ProgramModel, lhs: PlaceModel, rest: Seq<u8>) -> Outcome {
    match place_of(rest) {
        None => Err(Fail::Invalid),
        Some(rhs) => match rhs.spec_size() {
            None => Err(Fail::Invalid),
            Some(rs) => if is_wide_register(lhs) && rs == Size::Byte {
                spec_binary_with_size(m, 0xbe, true, rhs, lhs, false, lhs.spec_size().unwrap())
            } else if (lhs is Reg32 || lhs is Reg64) && rs == Size::Word {
                spec_binary_with_size(m, 0xbf, true, rhs, lhs, false, lhs.spec_size().unwrap())
            } else if lhs is Reg64 && rs == Size::Dword {
                spec_binary_with_size(m, 0x63, false, rhs, lhs, false, lhs.spec_size().unwrap())
            } else {
                Err(Fail::Invalid)
            },
        },
    }
}

/// A flag read `lhs = /cond` into a byte (`setcc`, 0x0f op /7), a conditional move
/// `lhs = place if /cond` into a 16-, 32- or 64-bit register (`cmovcc`, 0x0f op), else a
/// multiplication by a constant (`spec_mul_search`).
pub open spec fn spec_assign_cond(m: ProgramModel, lhs: PlaceModel, rv: Seq<u8>) -> Outcome {
    match spec_setcc_opcode(rv) {
        Some(op) => if lhs.spec_size() == Some(Size::Byte) || lhs.spec_size() is None {
            spec_unary_with_size(m, op, true, Some(7), lhs, true, Size::Byte)
        } else {
            Err(Fail::Invalid)
        },
        None => match spec_split_once(rv, lit(" if ")) {
            Some((place_str, cond)) => match spec_cmovcc_opcode(spec_trim(cond)) {
                None => Err(Fail::Invalid),
                Some(op) => if !is_wide_register(lhs) {
                    Err(Fail::Invalid)
                } else {
                    match place_of(place_str) {
                        None => Err(Fail::Invalid),
                        Some(rhs) => spec_binary(m, op, true, rhs, lhs, false),
                    }
                },
            },
            None => spec_mul_search(m, lhs, rv, 0),
        },
    }
}

/// A multiplication `lhs = a * b`: the first ` * ` at or after `from` with an operand on
/// either side of it splits the right-hand side.
pub open spec fn spec_mul_search(m: ProgramModel, lhs: PlaceModel, rv: Seq<u8>, from: int) -> Outcome
    decreases rv.len() + 1 - from,
{
    match spec_find_from(rv, star(), from) {
        None => Err(Fail::Invalid),
        Some(pos) => {
            let first = spec_trim(rv.subrange(0, pos));
            let next = pos + star().len();
            let second = spec_trim(rv.subrange(next, rv.len() as int));
            if place_of(first) is Some || place_of(second) is Some {
                spec_mul_imm(m, lhs, first, second)
            } else if from < next <= rv.len() {
                spec_mul_search(m, lhs, rv, next)
            } else {
                Err(Fail::Invalid)
            }
        },
    }
}

/// `lhs = a * b` with one side an operand and the other an immediate, into a register:
/// `imul` 0x6b with an 8-bit immediate when the constant fits in a byte, else 0x69 with
/// a 16- or 32-bit one.
pub open spec fn spec_mul_imm(m: ProgramModel, lhs: PlaceModel, first: Seq<u8>, second: Seq<u8>) -> Outcome {
    if lhs.spec_register() is None {
        Err(Fail::Invalid)
    } else {
        let (rhs, other) = match place_of(first) {
            Some(p) => (p, second),
            None => (place_of(second).unwrap(), first),
        };
        match spec_try_resolve_imm(m, other) {
            Err(f) => Err(f),
            Ok(None) => Err(Fail::Invalid),
            Ok(Some(imm)) => spec_imul_imm(m, lhs, rhs, imm),
        }
    }
}

/// The separator ` * ` of a multiplication.
pub open spec fn star() -> Seq<u8> {
    seq![0x20u8, 0x2au8, 0x20u8]
}

/// `imul lhs, rhs, imm`: 0x6b with a sign-extended 8-bit immediate when it fits, else 0x69
/// with a 16- or 32-bit one.
pub open spec fn spec_imul_imm(m: ProgramModel, lhs: PlaceModel, rhs: PlaceModel, imm: ImmediateModel) -> Outcome {
    match spec_coerce_size(lhs.spec_size(), rhs.spec_size()) {
        Err(_) => Err(Fail::Invalid),
        Ok(size) => if imm.spec_cast_i8() is Some {
            spec_binary_with_imm(m, 0x6b, false, rhs, lhs, false, size, imm, Size::Byte)
        } else if size == Size::Word {
            spec_binary_with_imm(m, 0x69, false, rhs, lhs, false, size, imm, Size::Word)
        } else {
            spec_binary_with_imm(m, 0x69, false, rhs, lhs, false, size, imm, Size::Dword)
        },
    }
}

impl Program {
    /// An assignment (see `spec_parse_assign`).
    pub fn parse_assign(&mut self, lvalue: &[u8], rvalue: &[u8]) -> (r: Result<(), AsmError>)
        requires
            old(self).wf(),
        ensures
            final(self).wf(),
            r is Err ==> final(self).model() == old(self).model(),
            match r {
                Ok(()) => spec_parse_assign(old(self).model(), lvalue@, rvalue@)
                    == Ok::<ProgramModel, Fail>(final(self).model()),
                Err(e) => spec_parse_assign(old(self).model(), lvalue@, rvalue@)
                    == Err::<ProgramModel, Fail>(e.fail()),
            },
    {
        let lhs = match parse_place_bytes(trim(lvalue)) {
            Ok(p) => p,
            Err(e) => return Err(quoting_because("the left-hand side of an assignment must be a place expression", &[], "", e.as_bytes())),
        };
        self.assign_to(lhs, rvalue)
    }

    fn assign_to(&mut self, lhs: Place, rv: &[u8]) -> (r: Result<(), AsmError>)
        requires
            old(self).wf(),
        ensures
            final(self).wf(),
            r is Err ==> final(self).model() == old(self).model(),
            match r {
                Ok(()) => spec_assign_to(old(self).model(), lhs.model(), rv@)
                    == Ok::<ProgramModel, Fail>(final(self).model()),
                Err(e) => spec_assign_to(old(self).model(), lhs.model(), rv@)
                    == Err::<ProgramModel, Fail>(e.fail()),
            },
    {
        if let Some(rhs) = place_from(rv) {
            let byte = matches!(rhs.size(), Some(Size::Byte)) || matches!(lhs.size(), Some(Size::Byte));
            let opcode: u8 = match (rhs.is_register(), byte) {
                (true, true) => 0x88,
                (true, false) => 0x89,
                (false, true) => 0x8a,
                (false, false) => 0x8b,
            };
            self.binary(opcode, false, lhs, rhs, false)
        } else if let Some(imm) = self.try_resolve_imm(rv)? {
            self.mov_imm(lhs, imm)
        } else {
            self.assign_other(lhs, rv)
        }
    }

    fn mov_imm(&mut self, lhs: Place, imm: Immediate) -> (r: Result<(), AsmError>)
        requires
            old(self).wf(),
        ensures
            final(self).wf(),
            r is Err ==> final(self).model() == old(self).model(),
            match r {
                Ok(()) => spec_mov_imm(old(self).model(), lhs.model(), imm.model())
                    == Ok::<ProgramModel, Fail>(final(self).model()),
                Err(e) => spec_mov_imm(old(self).model(), lhs.model(), imm.model())
                    == Err::<ProgramModel, Fail>(e.fail()),
            },
    {
        let size = invalid(lhs.assert_size())?;
        let wide64 = imm.cast_i32().is_err();
        match lhs {
            PlaceOf::Reg8(reg) => {
                self.unary_with_imm(0xb0 + low3(reg.id()), None, lhs, false, &imm, Size::Byte, false)
            },
            PlaceOf::Reg16(reg) | PlaceOf::Reg32(reg) => {
                self.unary_with_imm(0xb8 + low3(reg.id()), None, lhs, false, &imm, size, false)
            },
            PlaceOf::Reg64(reg) if wide64 => {
                self.unary_with_imm(0xb8 + low3(reg.id()), None, lhs, false, &imm, size, false)
            },
            _ => match size {
                Size::Byte => self.unary_with_imm(0xc6, Some(0), lhs, false, &imm, Size::Byte, false),
                Size::Qword => self.unary_with_imm(0xc7, Some(0), lhs, false, &imm, Size::Dword, true),
                _ => self.unary_with_imm(0xc7, Some(0), lhs, false, &imm, size, false),
            },
        }
    }

    fn assign_other(&mut self, lhs: Place, rv: &[u8]) -> (r: Result<(), AsmError>)
        requires
            old(self).wf(),
        ensures
            final(self).wf(),
            r is Err ==> final(self).model() == old(self).model(),
            match r {
                Ok(()) => spec_assign_other(old(self).model(), lhs.model(), rv@)
                    == Ok::<ProgramModel, Fail>(final(self).model()),
                Err(e) => spec_assign_other(old(self).model(), lhs.model(), rv@)
                    == Err::<ProgramModel, Fail>(e.fail()),
            },
    {
        if let Ok(ea) = self.resolve_effective_address_bytes(rv) {
            if !lhs.is_register() {
                return Err(AsmError::Invalid("the left-hand side must be a register"));
            }
            if matches!(lhs.size(), Some(Size::Byte)) {
                return Err(AsmError::Invalid("an 8-bit register cannot be used in this operation"));
            }
            self.binary(0x8d, false, lhs, PlaceOf::Memory(ea, lhs.size()), false)
        } else if allowed_identifier(rv) && (self.global_index(rv).is_some() || self.label_index(
            rv,
        ).is_some()) {
            let rhs = PlaceOf::RipRelative(ident_str(rv), Displacement::Byte(0), Some(Size::Qword));
            self.binary(0x8d, false, lhs, rhs, false)
        } else {
            self.assign_extend(lhs, rv)
        }
    }

    fn assign_extend(&mut self, lhs: Place, rv: &[u8]) -> (r: Result<(), AsmError>)
        requires
            old(self).wf(),
        ensures
            final(self).wf(),
            r is Err ==> final(self).model() == old(self).model(),
            match r {
                Ok(()) => spec_assign_extend(old(self).model(), lhs.model(), rv@)
                    == Ok::<ProgramModel, Fail>(final(self).model()),
                Err(e) => spec_assign_extend(old(self).model(), lhs.model(), rv@)
                    == Err::<ProgramModel, Fail>(e.fail()),
            },
    {
        if let Some(rest) = strip_prefix(rv, "0:".as_bytes()) {
            let rhs = match place_from(rest) {
                Some(p) => p,
                None => return Err(AsmError::Invalid("rhs must be a place expression here")),
            };
            let rs = invalid(rhs.assert_size())?;
            let wide = matches!(lhs, PlaceOf::Reg16(_) | PlaceOf::Reg32(_) | PlaceOf::Reg64(_));
            let wider = matches!(lhs, PlaceOf::Reg32(_) | PlaceOf::Reg64(_));
            let opcode: u8 = if wide && rs == Size::Byte {
                0xb6
            } else if wider && rs == Size::Word {
                0xb7
            } else {
                return Err(
                    AsmError::Invalid(
                        "a zero-extended move must involve a u8 or u16-sized place being moved into a register",
                    ),
                );
            };
            let size = match lhs.size() {
                Some(s) => s,
                None => return Err(AsmError::Internal("register without a size")),
            };
            self.binary_with_size(opcode, true, rhs, lhs, false, size)
        } else if let Some(rest) = strip_prefix(rv, "s:".as_bytes()) {
            let rhs = match place_from(rest) {
                Some(p) => p,
                None => return Err(AsmError::Invalid("rhs must be a place expression here")),
            };
            let rs = invalid(rhs.assert_size())?;
            let wide = matches!(lhs, PlaceOf::Reg16(_) | PlaceOf::Reg32(_) | PlaceOf::Reg64(_));
            let wider = matches!(lhs, PlaceOf::Reg32(_) | PlaceOf::Reg64(_));
            let widest = matches!(lhs, PlaceOf::Reg64(_));
            let (opcode, is_ext): (u8, bool) = if wide && rs == Size::Byte {
                (0xbe, true)
            } else if wider && rs == Size::Word {
                (0xbf, true)
            } else if widest && rs == Size::Dword {
                (0x63, false)
            } else {
                return Err(
                    AsmError::Invalid(
                        "a sign-extended move must involve a u8, u16, or u32-sized place being moved into a register",
                    ),
                );
            };
            let size = match lhs.size() {
                Some(s) => s,
                None => return Err(AsmError::Internal("register without a size")),
            };
            self.binary_with_size(opcode, is_ext, rhs, lhs, false, size)
        } else {
            self.assign_cond(lhs, rv)
        }
    }

    fn assign_cond(&mut self, lhs: Place, rv: &[u8]) -> (r: Result<(), AsmError>)
        requires
            old(self).wf(),
        ensures
            final(self).wf(),
            r is Err ==> final(self).model() == old(self).model(),
            match r {
                Ok(()) => spec_assign_cond(old(self).model(), lhs.model(), rv@)
                    == Ok::<ProgramModel, Fail>(final(self).model()),
                Err(e) => spec_assign_cond(old(self).model(), lhs.model(), rv@)
                    == Err::<ProgramModel, Fail>(e.fail()),
            },
    {
        if let Some(op) = setcc_opcode(rv) {
            if !matches!(lhs.size(), Some(Size::Byte) | None) {
                return Err(AsmError::Invalid("this operation requires a 1-byte place"));
            }
            self.unary_with_size(op, true, Some(7), lhs, true, Size::Byte)
        } else if let Some((place_str, condition)) = split_once(rv, " if ".as_bytes()) {
            let op = match cmovcc_opcode(trim(condition)) {
                Some(op) => op,
                None => return Err(AsmError::Invalid("invalid condition in conditional move")),
            };
            if !matches!(lhs, PlaceOf::Reg16(_) | PlaceOf::Reg32(_) | PlaceOf::Reg64(_)) {
                return Err(
                    AsmError::Invalid(
                        "only a 16-bit, 32-bit, or 64-bit register can be used as the target of a conditional move",
                    ),
                );
            }
            let rhs = match parse_place_bytes(place_str) {
                Ok(p) => p,
                Err(e) => return Err(quoting_because("could not parse place expression in conditional move", &[], "", e.as_bytes())),
            };
            self.binary(op, true, rhs, lhs, false)
        } else {
            self.mul_search(lhs, rv)
        }
    }

    fn mul_search(&mut self, lhs: Place, rv: &[u8]) -> (r: Result<(), AsmError>)
        requires
            old(self).wf(),
        ensures
            final(self).wf(),
            r is Err ==> final(self).model() == old(self).model(),
            match r {
                Ok(()) => spec_mul_search(old(self).model(), lhs.model(), rv@, 0)
                    == Ok::<ProgramModel, Fail>(final(self).model()),
                Err(e) => spec_mul_search(old(self).model(), lhs.model(), rv@, 0)
                    == Err::<ProgramModel, Fail>(e.fail()),
            },
    {
        let ghost m = self.model();
        let mut from: usize = 0;
        loop
            invariant
                self.wf(),
                self.model() == m,
                old(self).model() == m,
                from <= rv.len() + 1,
                spec_mul_search(m, lhs.model(), rv@, 0) == spec_mul_search(m, lhs.model(), rv@, from as int),
            decreases rv.len() + 1 - from,
        {
            let sep = bytes3(0x20, 0x2a, 0x20);
            let pos = match find_from(rv, sep.as_slice(), from) {
                Some(pos) => pos,
                None => return Err(AsmError::Invalid("could not parse assignment expression")),
            };
            proof {
                crate::text::lemma_find_from_bounds(rv@, star(), from as int);
            }
            let first = trim(vstd::slice::slice_subrange(rv, 0, pos));
            let second = trim(vstd::slice::slice_subrange(rv, pos + sep.len(), rv.len()));
            if place_from(first).is_some() || place_from(second).is_some() {
                return self.mul_imm(lhs, first, second);
            }
            from = pos + sep.len();
        }
    }

    fn mul_imm(&mut self, lhs: Place, first: &[u8], second: &[u8]) -> (r: Result<(), AsmError>)
        requires
            old(self).wf(),
            place_of(first@) is Some || place_of(second@) is Some,
        ensures
            final(self).wf(),
            r is Err ==> final(self).model() == old(self).model(),
            match r {
                Ok(()) => spec_mul_imm(old(self).model(), lhs.model(), first@, second@)
                    == Ok::<ProgramModel, Fail>(final(self).model()),
                Err(e) => spec_mul_imm(old(self).model(), lhs.model(), first@, second@)
                    == Err::<ProgramModel, Fail>(e.fail()),
            },
    {
        if !lhs.is_register() {
            return Err(AsmError::Invalid("this operation requires a 16-bit, 32-bit, or 64-bit register"));
        }
        let (rhs, other) = match place_from(first) {
            Some(p) => (p, second),
            None => match place_from(second) {
                Some(p) => (p, first),
                None => return Err(AsmError::Internal("neither side is a place")),
            },
        };
        let imm = match self.try_resolve_imm(other)? {
            Some(imm) => imm,
            None => return Err(quoting("could not resolve immediate: ", other, "")),
        };
        let size = invalid(lhs.coerce_size(rhs))?;
        if imm.cast_i8().is_ok() {
            self.binary_with_imm(0x6b, false, rhs, lhs, false, size, imm, Size::Byte)
        } else if size == Size::Word {
            self.binary_with_imm(0x69, false, rhs, lhs, false, size, imm, Size::Word)
        } else {
            self.binary_with_imm(0x69, false, rhs, lhs, false, size, imm, Size::Dword)
        }
    }
}

} // verus!
