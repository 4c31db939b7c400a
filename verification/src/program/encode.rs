//! The byte encoding of instructions with one operand (`unary`) or two (`binary`):
//! operand-size prefix, REX prefix, opcode, ModRM, SIB, displacement and immediate.
use vstd::prelude::*;
use vstd::string::StringSliceAdditionalSpecFns;

use crate::immediate::{Immediate, ImmediateModel, le_bytes, le_bytes_of};
use crate::place::{Displacement, EffectiveAddress, Place, PlaceModel, PlaceOf, Scale, Size, reg_size};
use crate::program::{AsmError, Fail, Outcome, Program, ProgramModel, invalid, quoting};
use crate::registers::{
    Register, modrm_byte, reg_id, spec_compatible_three_way, spec_maybe_sib, spec_mod_field,
    spec_rm_field, spec_three_way_rex,
};

verus! {

/// The little-endian bytes of a 32-bit displacement.
pub open spec fn le32(v: i32) -> Seq<u8> {
    le_bytes((v as u32) as nat, 4)
}

/// The byte, if there is one.
pub open spec fn opt_byte(b: Option<u8>) -> Seq<u8> {
    match b {
        Some(x) => seq![x],
        None => seq![],
    }
}

/// The index register of a scaled index, if there is one.
pub open spec fn index_reg(index: Option<(Scale, Register)>) -> Option<Register> {
    match index {
        Some((_, r)) => Some(r),
        None => None,
    }
}

/// The displacement bytes of a memory operand: 8 or 32 bits as written, a zero byte for a
/// base numbered 5 without displacement, and always 32 bits without a base register and
/// relative to the instruction pointer.
pub open spec fn disp_bytes(p: PlaceModel) -> Seq<u8> {
    match p {
        PlaceOf::Memory(ea, _) => if ea.base is None {
            match ea.disp {
                Some(Displacement::Byte(v)) => le32(v as i32),
                Some(Displacement::Dword(v)) => le32(v),
                None => le32(0),
            }
        } else {
            match ea.disp {
            Some(Displacement::Byte(v)) => seq![v as u8],
            Some(Displacement::Dword(v)) => le32(v),
            None => if ea.base == Some(Register::Rbp) || ea.base == Some(Register::R13) {
                seq![0u8]
            } else {
                seq![]
            },
            }
        },
        PlaceOf::RipRelative(_, Displacement::Byte(v), _) => le32(v as i32),
        PlaceOf::RipRelative(_, Displacement::Dword(v), _) => le32(v),
        _ => seq![],
    }
}

/// The SIB byte of a memory operand, if it needs one.
pub open spec fn sib_bytes(p: PlaceModel) -> Seq<u8> {
    match p {
        PlaceOf::Memory(ea, _) => opt_byte(spec_maybe_sib(ea.base, ea.index)),
        _ => seq![],
    }
}

/// The operand-size prefix for 16-bit operations.
pub open spec fn size_prefix(size: Size) -> Seq<u8> {
    if size == Size::Word {
        seq![0x66u8]
    } else {
        seq![]
    }
}

/// The two-byte-opcode escape, when asked for.
pub open spec fn escape(ext_opcode: bool) -> Seq<u8> {
    if ext_opcode {
        seq![0x0fu8]
    } else {
        seq![]
    }
}

/// The encoding of an instruction with one operand `place` of size `size`: the
/// operand-size prefix, the REX prefix when needed, the opcode (after 0x0f when
/// `ext_opcode`), the ModRM byte when an opcode extension is given, the SIB byte and the
/// displacement. A memory operand needs a base register; its index must be compatible
/// with the base.
pub open spec fn spec_unary_inner(
    opcode: u8,
    ext_opcode: bool,
    extension: Option<u8>,
    place: PlaceModel,
    no_rexw: bool,
    size: Size,
) -> Result<Seq<u8>, Fail> {
    let head = size_prefix(size) + opt_byte(spec_unary_rex(place, no_rexw, size)) + escape(
        ext_opcode,
    ) + seq![opcode];
    match spec_unary_modrm(extension, place) {
        Ok(m) => Ok(head + m + sib_bytes(place) + disp_bytes(place)),
        Err(f) => Err(f),
    }
}

/// The REX prefix of a one-operand instruction: a register operand at its own size, a
/// memory operand's index and base at the instruction's size.
pub open spec fn spec_unary_rex(place: PlaceModel, no_rexw: bool, size: Size) -> Option<u8> {
    match place {
        PlaceOf::Memory(ea, _) => spec_three_way_rex(None, index_reg(ea.index), ea.base, size, no_rexw),
        PlaceOf::RipRelative(..) => None,
        _ => spec_three_way_rex(
            None,
            None,
            place.spec_register(),
            reg_size(place.spec_register().unwrap()),
            no_rexw,
        ),
    }
}

/// The ModRM byte of a one-operand instruction with the opcode extension, if one is given.
pub open spec fn spec_unary_modrm(extension: Option<u8>, place: PlaceModel) -> Result<Seq<u8>, Fail> {
    match extension {
        None => Ok(seq![]),
        Some(n) => match place {
            PlaceOf::Memory(ea, _) => match ea.base {
                None => Err(Fail::Internal),
                Some(b) => if ea.index matches Some((_, ir)) && !ir.spec_compatible_with(b) {
                    Err(Fail::Invalid)
                } else {
                    Ok(seq![modrm_byte(spec_mod_field(b, ea.disp), n, spec_rm_field(b, ea.index))])
                },
            },
            PlaceOf::RipRelative(..) => Ok(seq![modrm_byte(0, n, 0b101)]),
            _ => Ok(seq![modrm_byte(3, n, reg_id(place.spec_register().unwrap()) & 7)]),
        },
    }
}

/// Records, when `place` names a static, that the displacement ending at `location`
/// refers to it relative to `rip`; an unknown static is refused.
pub open spec fn spec_record_global_ref(
    m: ProgramModel,
    place: PlaceModel,
    location: usize,
    rip: usize,
) -> Outcome {
    match place {
        PlaceOf::RipRelative(name, _, _) => match m.global_index(name) {
            Some(i) => Ok(
                ProgramModel { global_refs: m.global_refs.push((i as usize, location, rip)), ..m },
            ),
            None => Err(Fail::Invalid),
        },
        _ => Ok(m),
    }
}

/// A one-operand instruction of an explicit size, with its static reference recorded.
#[verifier::opaque]
pub open spec fn spec_unary_with_size(
    m: ProgramModel,
    opcode: u8,
    ext_opcode: bool,
    extension: Option<u8>,
    place: PlaceModel,
    no_rexw: bool,
    size: Size,
) -> Outcome {
    match spec_unary_inner(opcode, ext_opcode, extension, place, no_rexw, size) {
        Ok(b) => spec_record_global_ref(m.emit(b), place, m.emit(b).len(), m.emit(b).len()),
        Err(f) => Err(f),
    }
}

/// A one-operand instruction whose size is the operand's, which must have one.
#[verifier::opaque]
pub open spec fn spec_unary(
    m: ProgramModel,
    opcode: u8,
    ext_opcode: bool,
    extension: Option<u8>,
    place: PlaceModel,
    no_rexw: bool,
) -> Outcome {
    match place.spec_size() {
        Some(size) => spec_unary_with_size(m, opcode, ext_opcode, extension, place, no_rexw, size),
        None => Err(Fail::Invalid),
    }
}

/// The bytes of an immediate at `imm_size`, read as signed or unsigned.
pub open spec fn spec_imm_bytes(imm: ImmediateModel, imm_size: Size, signed: bool) -> Option<Seq<u8>> {
    if signed {
        match imm_size {
            Size::Byte => match imm.spec_cast_i8() {
                Some(v) => Some(seq![v as u8]),
                None => None,
            },
            Size::Word => match imm.spec_cast_i16() {
                Some(v) => Some(le_bytes((v as u16) as nat, 2)),
                None => None,
            },
            Size::Dword => match imm.spec_cast_i32() {
                Some(v) => Some(le_bytes((v as u32) as nat, 4)),
                None => None,
            },
            Size::Qword => match imm.spec_cast_i64() {
                Some(v) => Some(le_bytes((v as u64) as nat, 8)),
                None => None,
            },
        }
    } else {
        match imm_size {
            Size::Byte => match imm.spec_cast_u8() {
                Some(v) => Some(seq![v]),
                None => None,
            },
            Size::Word => match imm.spec_cast_u16() {
                Some(v) => Some(le_bytes(v as nat, 2)),
                None => None,
            },
            Size::Dword => match imm.spec_cast_u32() {
                Some(v) => Some(le_bytes(v as nat, 4)),
                None => None,
            },
            Size::Qword => match imm.spec_cast_u64() {
                Some(v) => Some(le_bytes(v as nat, 8)),
                None => None,
            },
        }
    }
}

/// A one-operand instruction followed by an immediate.
#[verifier::opaque]
pub open spec fn spec_unary_with_imm(
    m: ProgramModel,
    opcode: u8,
    extension: Option<u8>,
    place: PlaceModel,
    no_rexw: bool,
    imm: ImmediateModel,
    imm_size: Size,
    signed: bool,
) -> Outcome {
    match place.spec_size() {
        None => Err(Fail::Invalid),
        Some(size) => match spec_unary_inner(opcode, false, extension, place, no_rexw, size) {
            Err(f) => Err(f),
            Ok(b) => match spec_imm_bytes(imm, imm_size, signed) {
                None => Err(Fail::Invalid),
                Some(ib) => spec_record_global_ref(
                    m.emit(b).emit(ib),
                    place,
                    m.emit(b).len(),
                    m.emit(b).emit(ib).len(),
                ),
            },
        },
    }
}

/// The operand of a two-operand instruction that is not a register (the second one when
/// both are registers).
pub open spec fn memory_side(p1: PlaceModel, p2: PlaceModel) -> PlaceModel {
    if p1.spec_register() is Some {
        p2
    } else {
        p1
    }
}

/// The encoding of an instruction with two operands, at least one a register: the
/// operand-size prefix, the REX prefix when needed, the opcode (after 0x0f when
/// `ext_opcode`), the ModRM byte, the SIB byte and the displacement.
pub open spec fn spec_binary_inner(
    opcode: u8,
    ext_opcode: bool,
    p1: PlaceModel,
    p2: PlaceModel,
    no_rexw: bool,
    size: Size,
) -> Result<Seq<u8>, Fail> {
    if p1.spec_register() is None && p2.spec_register() is None {
        Err(Fail::Invalid)
    } else {
        let mem = memory_side(p1, p2);
        let head = size_prefix(size) + opt_byte(spec_binary_rex(p1, p2, no_rexw, size)) + escape(
            ext_opcode,
        ) + seq![opcode];
        match spec_binary_modrm(p1, p2) {
            Ok(m) => Ok(head + seq![m] + sib_bytes(mem) + disp_bytes(mem)),
            Err(f) => Err(f),
        }
    }
}

/// The register operand of a two-operand instruction (the first one when both are).
pub open spec fn register_side(p1: PlaceModel, p2: PlaceModel) -> Register {
    if p1.spec_register() is Some {
        p1.spec_register().unwrap()
    } else {
        p2.spec_register().unwrap()
    }
}

/// The REX prefix of a two-operand instruction: for two registers the second goes in the
/// reg field at the first's size; otherwise the register goes in the reg field and the
/// memory operand's index and base follow, at the instruction's size.
pub open spec fn spec_binary_rex(p1: PlaceModel, p2: PlaceModel, no_rexw: bool, size: Size) -> Option<
    u8,
> {
    let r1 = p1.spec_register();
    let r2 = p2.spec_register();
    if r1 is Some && r2 is Some {
        spec_three_way_rex(r2, None, r1, reg_size(r1.unwrap()), no_rexw)
    } else {
        match memory_side(p1, p2) {
            PlaceOf::Memory(ea, _) => spec_three_way_rex(
                Some(register_side(p1, p2)),
                index_reg(ea.index),
                ea.base,
                size,
                no_rexw,
            ),
            _ => spec_three_way_rex(Some(register_side(p1, p2)), None, None, size, no_rexw),
        }
    }
}

/// The ModRM byte of a two-operand instruction. The registers involved must be compatible;
/// a memory operand without a base register is addressed through the SIB byte alone.
pub open spec fn spec_binary_modrm(p1: PlaceModel, p2: PlaceModel) -> Result<u8, Fail> {
    let r1 = p1.spec_register();
    let r2 = p2.spec_register();
    if r1 is Some && r2 is Some {
        if r1.unwrap().spec_compatible_with(r2.unwrap()) {
            Ok(modrm_byte(3, reg_id(r2.unwrap()) & 7, reg_id(r1.unwrap()) & 7))
        } else {
            Err(Fail::Invalid)
        }
    } else if r1 is None && r2 is None {
        Err(Fail::Invalid)
    } else {
        let reg = register_side(p1, p2);
        match memory_side(p1, p2) {
            PlaceOf::Memory(ea, _) => if !spec_compatible_three_way(
                reg,
                index_reg(ea.index),
                ea.base,
            ) {
                Err(Fail::Invalid)
            } else {
                match ea.base {
                    None => Ok(modrm_byte(0, reg_id(reg) & 7, 0b100)),
                    Some(b) => Ok(
                        modrm_byte(spec_mod_field(b, ea.disp), reg_id(reg) & 7, spec_rm_field(b, ea.index)),
                    ),
                }
            },
            _ => Ok(modrm_byte(0, reg_id(reg) & 7, 0b101)),
        }
    }
}

/// The name of the static or label that one of the operands refers to, if any (the
/// second operand's first).
pub open spec fn rip_name(p1: PlaceModel, p2: PlaceModel) -> Option<Seq<u8>> {
    match p2 {
        PlaceOf::RipRelative(name, _, _) => Some(name),
        _ => match p1 {
            PlaceOf::RipRelative(name, _, _) => Some(name),
            _ => None,
        },
    }
}

/// Records the reference of a two-operand instruction to a static, or else to a label;
/// an unknown name is refused.
pub open spec fn spec_record_ref(
    m: ProgramModel,
    p1: PlaceModel,
    p2: PlaceModel,
    location: usize,
    rip: usize,
) -> Outcome {
    match rip_name(p1, p2) {
        None => Ok(m),
        Some(name) => match m.global_index(name) {
            Some(i) => Ok(
                ProgramModel { global_refs: m.global_refs.push((i as usize, location, rip)), ..m },
            ),
            None => match m.label_index(name) {
                Some(i) => Ok(
                    ProgramModel { label_refs: m.label_refs.push((i as usize, location, rip)), ..m },
                ),
                None => Err(Fail::Invalid),
            },
        },
    }
}

/// A two-operand instruction of an explicit size, with its reference recorded.
#[verifier::opaque]
pub open spec fn spec_binary_with_size(
    m: ProgramModel,
    opcode: u8,
    ext_opcode: bool,
    p1: PlaceModel,
    p2: PlaceModel,
    no_rexw: bool,
    size: Size,
) -> Outcome {
    match spec_binary_inner(opcode, ext_opcode, p1, p2, no_rexw, size) {
        Ok(b) => spec_record_ref(m.emit(b), p1, p2, m.emit(b).len(), m.emit(b).len()),
        Err(f) => Err(f),
    }
}

/// The size that two operands share (see `spec_coerce_size`).
pub open spec fn spec_operand_size(p1: PlaceModel, p2: PlaceModel) -> Option<Size> {
    match crate::place::spec_coerce_size(p1.spec_size(), p2.spec_size()) {
        Ok(s) => Some(s),
        Err(_) => None,
    }
}

/// A two-operand instruction whose size the operands share.
#[verifier::opaque]
pub open spec fn spec_binary(
    m: ProgramModel,
    opcode: u8,
    ext_opcode: bool,
    p1: PlaceModel,
    p2: PlaceModel,
    no_rexw: bool,
) -> Outcome {
    match spec_operand_size(p1, p2) {
        Some(size) => spec_binary_with_size(m, opcode, ext_opcode, p1, p2, no_rexw, size),
        None => Err(Fail::Invalid),
    }
}

/// A two-operand instruction followed by a signed immediate.
#[verifier::opaque]
pub open spec fn spec_binary_with_imm(
    m: ProgramModel,
    opcode: u8,
    ext_opcode: bool,
    p1: PlaceModel,
    p2: PlaceModel,
    no_rexw: bool,
    size: Size,
    imm: ImmediateModel,
    imm_size: Size,
) -> Outcome {
    match spec_binary_inner(opcode, ext_opcode, p1, p2, no_rexw, size) {
        Err(f) => Err(f),
        Ok(b) => match spec_imm_bytes(imm, imm_size, true) {
            None => Err(Fail::Invalid),
            Some(ib) => spec_record_ref(
                m.emit(b).emit(ib),
                p1,
                p2,
                m.emit(b).len(),
                m.emit(b).emit(ib).len(),
            ),
        },
    }
}

fn push_opt(out: &mut Vec<u8>, b: Option<u8>)
    ensures
        final(out)@ == old(out)@ + opt_byte(b),
{
    match b {
        Some(x) => out.push(x),
        None => {
            assert(old(out)@ + seq![] =~= old(out)@);
        },
    }
}

fn append(out: &mut Vec<u8>, b: &Vec<u8>)
    ensures
        final(out)@ == old(out)@ + b@,
{
    crate::text::push_all(out, b.as_slice(), 0, b.len());
    assert(b@.subrange(0, b.len() as int) =~= b@);
}

/// The displacement bytes of a memory operand (see `disp_bytes`).
pub fn disp_vec(p: Place) -> (r: Vec<u8>)
    ensures
        r@ == disp_bytes(p.model()),
{
    match p {
        PlaceOf::Memory(ea, _) => if ea.base.is_none() {
            match ea.disp {
                Some(Displacement::Byte(v)) => le_bytes_of(((v as i32) as u32) as u64, 4),
                Some(Displacement::Dword(v)) => le_bytes_of((v as u32) as u64, 4),
                None => le_bytes_of(0, 4),
            }
        } else {
            match ea.disp {
            Some(Displacement::Byte(v)) => vec![v as u8],
            Some(Displacement::Dword(v)) => le_bytes_of((v as u32) as u64, 4),
            None => if matches!(ea.base, Some(Register::Rbp) | Some(Register::R13)) {
                vec![0]
            } else {
                Vec::new()
            },
            }
        },
        PlaceOf::RipRelative(_, Displacement::Byte(v), _) => le_bytes_of(((v as i32) as u32) as u64, 4),
        PlaceOf::RipRelative(_, Displacement::Dword(v), _) => le_bytes_of((v as u32) as u64, 4),
        _ => Vec::new(),
    }
}

fn sib_of(p: Place) -> (r: Option<u8>)
    ensures
        opt_byte(r) == sib_bytes(p.model()),
{
    match p {
        PlaceOf::Memory(ea, _) => Register::maybe_sib(ea.base, ea.index),
        _ => None,
    }
}

fn index_reg_of(index: Option<(Scale, Register)>) -> (r: Option<Register>)
    ensures
        r == index_reg(index),
{
    match index {
        Some((_, r)) => Some(r),
        None => None,
    }
}

fn unary_rex(place: Place, no_rexw: bool, size: Size) -> (r: Option<u8>)
    ensures
        r == spec_unary_rex(place.model(), no_rexw, size),
{
    match place {
        PlaceOf::Reg8(reg) | PlaceOf::Reg16(reg) | PlaceOf::Reg32(reg) | PlaceOf::Reg64(reg) => {
            Register::three_way_rex(None, None, Some(reg), reg.size(), no_rexw)
        },
        PlaceOf::Memory(ea, _) => Register::three_way_rex(
            None,
            index_reg_of(ea.index),
            ea.base,
            size,
            no_rexw,
        ),
        PlaceOf::RipRelative(..) => None,
    }
}

fn unary_modrm(extension: Option<u8>, place: Place) -> (r: Result<Option<u8>, AsmError>)
    ensures
        match r {
            Ok(m) => spec_unary_modrm(extension, place.model()) == Ok::<Seq<u8>, Fail>(opt_byte(m)),
            Err(e) => spec_unary_modrm(extension, place.model()) == Err::<Seq<u8>, Fail>(e.fail()),
        },
{
    match extension {
        None => Ok(None),
        Some(n) => {
            let modrm = match place {
                PlaceOf::Reg8(reg) | PlaceOf::Reg16(reg) | PlaceOf::Reg32(reg) | PlaceOf::Reg64(reg) => {
                    reg.get_own_modrm(n)
                },
                PlaceOf::Memory(ea, _) => {
                    let base_reg = match ea.base {
                        Some(b) => b,
                        None => {
                            return Err(AsmError::Internal("unary operation should always have a base"));
                        },
                    };
                    if let Some((_, index_reg)) = ea.index {
                        invalid(index_reg.assert_compatible(base_reg))?;
                    }
                    Register::get_modrm_slash_n(base_reg, ea.disp, n, ea.index)
                },
                PlaceOf::RipRelative(..) => Register::modrm_rip_slash_n(n),
            };
            Ok(Some(modrm))
        },
    }
}

/// The encoding of a one-operand instruction (see `spec_unary_inner`).
pub fn unary_bytes(
    opcode: u8,
    ext_opcode: bool,
    extension: Option<u8>,
    place: Place,
    no_rexw: bool,
    size: Size,
) -> (r: Result<Vec<u8>, AsmError>)
    ensures
        match r {
            Ok(b) => spec_unary_inner(opcode, ext_opcode, extension, place.model(), no_rexw, size)
                == Ok::<Seq<u8>, Fail>(b@),
            Err(e) => spec_unary_inner(opcode, ext_opcode, extension, place.model(), no_rexw, size)
                == Err::<Seq<u8>, Fail>(e.fail()),
        },
{
    let modrm = unary_modrm(extension, place)?;
    let mut out: Vec<u8> = Vec::new();
    if size == Size::Word {
        out.push(0x66);
    }
    push_opt(&mut out, unary_rex(place, no_rexw, size));
    if ext_opcode {
        out.push(0x0f);
    }
    out.push(opcode);
    push_opt(&mut out, modrm);
    push_opt(&mut out, sib_of(place));
    let d = disp_vec(place);
    append(&mut out, &d);
    proof {
        let pm = place.model();
        assert(out@ =~= size_prefix(size) + opt_byte(spec_unary_rex(pm, no_rexw, size)) + escape(
            ext_opcode,
        ) + seq![opcode] + opt_byte(modrm) + sib_bytes(pm) + disp_bytes(pm));
    }
    Ok(out)
}

fn binary_rex(p1: Place, p2: Place, no_rexw: bool, size: Size) -> (r: Option<u8>)
    requires
        p1.model().spec_register() is Some || p2.model().spec_register() is Some,
    ensures
        r == spec_binary_rex(p1.model(), p2.model(), no_rexw, size),
{
    match (p1.register(), p2.register()) {
        (Some(r1), Some(r2)) => Register::three_way_rex(Some(r2), None, Some(r1), r1.size(), no_rexw),
        (Some(reg), None) => match p2 {
            PlaceOf::Memory(ea, _) => Register::three_way_rex(
                Some(reg),
                index_reg_of(ea.index),
                ea.base,
                size,
                no_rexw,
            ),
            _ => Register::three_way_rex(Some(reg), None, None, size, no_rexw),
        },
        (None, Some(reg)) => match p1 {
            PlaceOf::Memory(ea, _) => Register::three_way_rex(
                Some(reg),
                index_reg_of(ea.index),
                ea.base,
                size,
                no_rexw,
            ),
            _ => Register::three_way_rex(Some(reg), None, None, size, no_rexw),
        },
        (None, None) => None,
    }
}

fn binary_modrm(p1: Place, p2: Place) -> (r: Result<u8, AsmError>)
    requires
        p1.model().spec_register() is Some || p2.model().spec_register() is Some,
    ensures
        match r {
            Ok(m) => spec_binary_modrm(p1.model(), p2.model()) == Ok::<u8, Fail>(m),
            Err(e) => spec_binary_modrm(p1.model(), p2.model()) == Err::<u8, Fail>(e.fail()),
        },
{
    let (reg, mem) = match (p1.register(), p2.register()) {
        (Some(r1), Some(r2)) => {
            invalid(r1.assert_compatible(r2))?;
            return Ok(Register::get_modrm_reg_reg(r1, r2));
        },
        (Some(reg), None) => (reg, p2),
        (None, Some(reg)) => (reg, p1),
        (None, None) => {
            return Err(AsmError::Invalid("memory-to-memory operations are not possible"));
        },
    };
    match mem {
        PlaceOf::Memory(ea, _) => {
            invalid(Register::assert_compatible_three_way(reg, index_reg_of(ea.index), ea.base))?;
            match ea.base {
                Some(b) => Ok(Register::get_modrm_slash_r(b, ea.disp, reg, ea.index)),
                None => Ok(crate::registers::modrm(0, crate::program::instructions::low3(reg.id()), 0b100)),
            }
        },
        _ => Ok(reg.get_own_modrm_riprelative()),
    }
}

/// The encoding of a two-operand instruction (see `spec_binary_inner`).
pub fn binary_bytes(
    opcode: u8,
    ext_opcode: bool,
    p1: Place,
    p2: Place,
    no_rexw: bool,
    size: Size,
) -> (r: Result<Vec<u8>, AsmError>)
    ensures
        match r {
            Ok(b) => spec_binary_inner(opcode, ext_opcode, p1.model(), p2.model(), no_rexw, size)
                == Ok::<Seq<u8>, Fail>(b@),
            Err(e) => spec_binary_inner(opcode, ext_opcode, p1.model(), p2.model(), no_rexw, size)
                == Err::<Seq<u8>, Fail>(e.fail()),
        },
{
    if p1.register().is_none() && p2.register().is_none() {
        return Err(AsmError::Invalid("memory-to-memory operations are not possible"));
    }
    let rex = binary_rex(p1, p2, no_rexw, size);
    let modrm = binary_modrm(p1, p2)?;
    let mem = if p1.register().is_some() {
        p2
    } else {
        p1
    };
    let mut out: Vec<u8> = Vec::new();
    if size == Size::Word {
        out.push(0x66);
    }
    push_opt(&mut out, rex);
    if ext_opcode {
        out.push(0x0f);
    }
    out.push(opcode);
    out.push(modrm);
    push_opt(&mut out, sib_of(mem));
    let d = disp_vec(mem);
    append(&mut out, &d);
    proof {
        let m = memory_side(p1.model(), p2.model());
        assert(mem.model() == m);
        assert(out@ =~= size_prefix(size) + opt_byte(
            spec_binary_rex(p1.model(), p2.model(), no_rexw, size),
        ) + escape(ext_opcode) + seq![opcode] + seq![modrm] + sib_bytes(m) + disp_bytes(m));
    }
    Ok(out)
}

/// The bytes of an immediate (see `spec_imm_bytes`).
pub fn imm_bytes(imm: &Immediate, imm_size: Size, signed: bool) -> (r: Result<Vec<u8>, &'static str>)
    ensures
        match r {
            Ok(b) => spec_imm_bytes(imm.model(), imm_size, signed) == Some(b@),
            Err(_) => spec_imm_bytes(imm.model(), imm_size, signed) is None,
        },
{
    if signed {
        match imm_size {
            Size::Byte => Ok(vec![imm.cast_i8()? as u8]),
            Size::Word => Ok(le_bytes_of((imm.cast_i16()? as u16) as u64, 2)),
            Size::Dword => Ok(le_bytes_of((imm.cast_i32()? as u32) as u64, 4)),
            Size::Qword => Ok(le_bytes_of(imm.cast_i64()? as u64, 8)),
        }
    } else {
        match imm_size {
            Size::Byte => Ok(vec![imm.cast_u8()?]),
            Size::Word => Ok(le_bytes_of(imm.cast_u16()? as u64, 2)),
            Size::Dword => Ok(le_bytes_of(imm.cast_u32()? as u64, 4)),
            Size::Qword => Ok(le_bytes_of(imm.cast_u64()?, 8)),
        }
    }
}

impl Program {
    /// Appends one byte to the code.
    pub fn push_byte(&mut self, b: u8)
        requires
            old(self).wf(),
        ensures
            final(self).wf(),
            final(self).model() == old(self).model().emit(seq![b]),
    {
        self.code.push(b);
    }

    /// Appends bytes to the code.
    pub fn push_bytes(&mut self, b: &[u8])
        requires
            old(self).wf(),
        ensures
            final(self).wf(),
            final(self).model() == old(self).model().emit(b@),
    {
        crate::text::push_all(&mut self.code, b, 0, b.len());
        assert(b@.subrange(0, b.len() as int) =~= b@);
    }

    /// Drops the code after its first `len` bytes.
    pub(crate) fn truncate_code(&mut self, len: usize)
        requires
            old(self).wf(),
            len <= old(self).code.len(),
        ensures
            final(self).wf(),
            final(self).model() == (ProgramModel {
                code: old(self).model().code.subrange(0, len as int),
                ..old(self).model()
            }),
    {
        self.code.truncate(len);
    }

    /// Appends the encoding of a one-operand instruction (see `spec_unary_inner`).
    pub fn unary_inner(
        &mut self,
        opcode: u8,
        ext_opcode: bool,
        extension: Option<u8>,
        place: Place,
        no_rexw: bool,
        size: Size,
    ) -> (r: Result<(), AsmError>)
        requires
            old(self).wf(),
        ensures
            final(self).wf(),
            r is Err ==> final(self).model() == old(self).model(),
            match r {
                Ok(()) => spec_unary_inner(opcode, ext_opcode, extension, place.model(), no_rexw, size)
                    matches Ok(b) && final(self).model() == old(self).model().emit(b),
                Err(e) => spec_unary_inner(
                    opcode,
                    ext_opcode,
                    extension,
                    place.model(),
                    no_rexw,
                    size,
                ) == Err::<Seq<u8>, Fail>(e.fail()),
            },
    {
        let b = unary_bytes(opcode, ext_opcode, extension, place, no_rexw, size)?;
        self.push_bytes(b.as_slice());
        Ok(())
    }

    fn record_global_ref(&mut self, place: Place, location: usize, rip: usize) -> (r: Result<(), AsmError>)
        requires
            old(self).wf(),
        ensures
            final(self).wf(),
            r is Err ==> final(self).model() == old(self).model(),
            match r {
                Ok(()) => spec_record_global_ref(old(self).model(), place.model(), location, rip)
                    == Ok::<ProgramModel, Fail>(final(self).model()),
                Err(e) => spec_record_global_ref(old(self).model(), place.model(), location, rip)
                    == Err::<ProgramModel, Fail>(e.fail()),
            },
    {
        if let PlaceOf::RipRelative(ident, _, _) = place {
            match self.global_index(ident.as_bytes()) {
                Some(i) => {
                    self.global_refs.push((i, location, rip));
                    Ok(())
                },
                None => Err(quoting("", ident.as_bytes(), " is not defined")),
            }
        } else {
            Ok(())
        }
    }

    fn record_ref(&mut self, p1: Place, p2: Place, location: usize, rip: usize) -> (r: Result<(), AsmError>)
        requires
            old(self).wf(),
        ensures
            final(self).wf(),
            r is Err ==> final(self).model() == old(self).model(),
            match r {
                Ok(()) => spec_record_ref(old(self).model(), p1.model(), p2.model(), location, rip)
                    == Ok::<ProgramModel, Fail>(final(self).model()),
                Err(e) => spec_record_ref(old(self).model(), p1.model(), p2.model(), location, rip)
                    == Err::<ProgramModel, Fail>(e.fail()),
            },
    {
        let name = match p2 {
            PlaceOf::RipRelative(ident, _, _) => ident,
            _ => match p1 {
                PlaceOf::RipRelative(ident, _, _) => ident,
                _ => return Ok(()),
            },
        };
        if let Some(i) = self.global_index(name.as_bytes()) {
            self.global_refs.push((i, location, rip));
            Ok(())
        } else if let Some(i) = self.label_index(name.as_bytes()) {
            self.label_refs.push((i, location, rip));
            Ok(())
        } else {
            Err(quoting("", name.as_bytes(), " is not defined"))
        }
    }

    /// A one-operand instruction of an explicit size (see `spec_unary_with_size`).
    pub fn unary_with_size(
        &mut self,
        opcode: u8,
        ext_opcode: bool,
        extension: Option<u8>,
        place: Place,
        no_rexw: bool,
        size: Size,
    ) -> (r: Result<(), AsmError>)
        requires
            old(self).wf(),
        ensures
            final(self).wf(),
            r is Err ==> final(self).model() == old(self).model(),
            match r {
                Ok(()) => spec_unary_with_size(
                    old(self).model(),
                    opcode,
                    ext_opcode,
                    extension,
                    place.model(),
                    no_rexw,
                    size,
                ) == Ok::<ProgramModel, Fail>(final(self).model()),
                Err(e) => spec_unary_with_size(
                    old(self).model(),
                    opcode,
                    ext_opcode,
                    extension,
                    place.model(),
                    no_rexw,
                    size,
                ) == Err::<ProgramModel, Fail>(e.fail()),
            },
    {
        proof {
            reveal(spec_unary_with_size);
        }
        let start = self.code.len();
        self.unary_inner(opcode, ext_opcode, extension, place, no_rexw, size)?;
        let len = self.code.len();
        let r = self.record_global_ref(place, len, len);
        if r.is_err() {
            self.truncate_code(start);
            assert(self.model().code =~= old(self).model().code);
        }
        r
    }

    /// A one-operand instruction of the operand's own size (see `spec_unary`).
    pub fn unary(
        &mut self,
        opcode: u8,
        ext_opcode: bool,
        extension: Option<u8>,
        place: Place,
        no_rexw: bool,
    ) -> (r: Result<(), AsmError>)
        requires
            old(self).wf(),
        ensures
            final(self).wf(),
            r is Err ==> final(self).model() == old(self).model(),
            match r {
                Ok(()) => spec_unary(old(self).model(), opcode, ext_opcode, extension, place.model(), no_rexw)
                    == Ok::<ProgramModel, Fail>(final(self).model()),
                Err(e) => spec_unary(
                    old(self).model(),
                    opcode,
                    ext_opcode,
                    extension,
                    place.model(),
                    no_rexw,
                ) == Err::<ProgramModel, Fail>(e.fail()),
            },
    {
        proof {
            reveal(spec_unary);
        }
        let size = invalid(place.assert_size())?;
        self.unary_with_size(opcode, ext_opcode, extension, place, no_rexw, size)
    }

    /// A one-operand instruction followed by an immediate (see `spec_unary_with_imm`).
    pub fn unary_with_imm(
        &mut self,
        opcode: u8,
        extension: Option<u8>,
        place: Place,
        no_rexw: bool,
        imm: &Immediate,
        imm_size: Size,
        signed: bool,
    ) -> (r: Result<(), AsmError>)
        requires
            old(self).wf(),
        ensures
            final(self).wf(),
            r is Err ==> final(self).model() == old(self).model(),
            match r {
                Ok(()) => spec_unary_with_imm(
                    old(self).model(),
                    opcode,
                    extension,
                    place.model(),
                    no_rexw,
                    imm.model(),
                    imm_size,
                    signed,
                ) == Ok::<ProgramModel, Fail>(final(self).model()),
                Err(e) => spec_unary_with_imm(
                    old(self).model(),
                    opcode,
                    extension,
                    place.model(),
                    no_rexw,
                    imm.model(),
                    imm_size,
                    signed,
                ) == Err::<ProgramModel, Fail>(e.fail()),
            },
    {
        proof {
            reveal(spec_unary_with_imm);
        }
        let size = invalid(place.assert_size())?;
        let b = unary_bytes(opcode, false, extension, place, no_rexw, size)?;
        let ib = invalid(imm_bytes(imm, imm_size, signed))?;
        let start = self.code.len();
        self.push_bytes(b.as_slice());
        let ref_location = self.code.len();
        self.push_bytes(ib.as_slice());
        let end = self.code.len();
        let r = self.record_global_ref(place, ref_location, end);
        if r.is_err() {
            self.truncate_code(start);
            assert(self.model().code =~= old(self).model().code);
        }
        r
    }

    /// Appends the encoding of a two-operand instruction (see `spec_binary_inner`).
    pub fn binary_inner(
        &mut self,
        opcode: u8,
        ext_opcode: bool,
        p1: Place,
        p2: Place,
        no_rexw: bool,
        size: Size,
    ) -> (r: Result<(), AsmError>)
        requires
            old(self).wf(),
        ensures
            final(self).wf(),
            r is Err ==> final(self).model() == old(self).model(),
            match r {
                Ok(()) => spec_binary_inner(opcode, ext_opcode, p1.model(), p2.model(), no_rexw, size)
                    matches Ok(b) && final(self).model() == old(self).model().emit(b),
                Err(e) => spec_binary_inner(opcode, ext_opcode, p1.model(), p2.model(), no_rexw, size)
                    == Err::<Seq<u8>, Fail>(e.fail()),
            },
    {
        let b = binary_bytes(opcode, ext_opcode, p1, p2, no_rexw, size)?;
        self.push_bytes(b.as_slice());
        Ok(())
    }

    /// A two-operand instruction of an explicit size (see `spec_binary_with_size`).
    pub fn binary_with_size(
        &mut self,
        opcode: u8,
        ext_opcode: bool,
        p1: Place,
        p2: Place,
        no_rexw: bool,
        size: Size,
    ) -> (r: Result<(), AsmError>)
        requires
            old(self).wf(),
        ensures
            final(self).wf(),
            r is Err ==> final(self).model() == old(self).model(),
            match r {
                Ok(()) => spec_binary_with_size(
                    old(self).model(),
                    opcode,
                    ext_opcode,
                    p1.model(),
                    p2.model(),
                    no_rexw,
                    size,
                ) == Ok::<ProgramModel, Fail>(final(self).model()),
                Err(e) => spec_binary_with_size(
                    old(self).model(),
                    opcode,
                    ext_opcode,
                    p1.model(),
                    p2.model(),
                    no_rexw,
                    size,
                ) == Err::<ProgramModel, Fail>(e.fail()),
            },
    {
        proof {
            reveal(spec_binary_with_size);
        }
        let start = self.code.len();
        self.binary_inner(opcode, ext_opcode, p1, p2, no_rexw, size)?;
        let len = self.code.len();
        let r = self.record_ref(p1, p2, len, len);
        if r.is_err() {
            self.truncate_code(start);
            assert(self.model().code =~= old(self).model().code);
        }
        r
    }

    /// A two-operand instruction of the size the operands share (see `spec_binary`).
    pub fn binary(&mut self, opcode: u8, ext_opcode: bool, p1: Place, p2: Place, no_rexw: bool) -> (r:
        Result<(), AsmError>)
        requires
            old(self).wf(),
        ensures
            final(self).wf(),
            r is Err ==> final(self).model() == old(self).model(),
            match r {
                Ok(()) => spec_binary(old(self).model(), opcode, ext_opcode, p1.model(), p2.model(), no_rexw)
                    == Ok::<ProgramModel, Fail>(final(self).model()),
                Err(e) => spec_binary(old(self).model(), opcode, ext_opcode, p1.model(), p2.model(), no_rexw)
                    == Err::<ProgramModel, Fail>(e.fail()),
            },
    {
        proof {
            reveal(spec_binary);
        }
        let size = invalid(p1.coerce_size(p2))?;
        self.binary_with_size(opcode, ext_opcode, p1, p2, no_rexw, size)
    }

    /// A two-operand instruction followed by a signed immediate (see `spec_binary_with_imm`).
    pub fn binary_with_imm(
        &mut self,
        opcode: u8,
        ext_opcode: bool,
        p1: Place,
        p2: Place,
        no_rexw: bool,
        size: Size,
        imm: Immediate,
        imm_size: Size,
    ) -> (r: Result<(), AsmError>)
        requires
            old(self).wf(),
        ensures
            final(self).wf(),
            r is Err ==> final(self).model() == old(self).model(),
            match r {
                Ok(()) => spec_binary_with_imm(
                    old(self).model(),
                    opcode,
                    ext_opcode,
                    p1.model(),
                    p2.model(),
                    no_rexw,
                    size,
                    imm.model(),
                    imm_size,
                ) == Ok::<ProgramModel, Fail>(final(self).model()),
                Err(e) => spec_binary_with_imm(
                    old(self).model(),
                    opcode,
                    ext_opcode,
                    p1.model(),
                    p2.model(),
                    no_rexw,
                    size,
                    imm.model(),
                    imm_size,
                ) == Err::<ProgramModel, Fail>(e.fail()),
            },
    {
        proof {
            reveal(spec_binary_with_imm);
        }
        let b = binary_bytes(opcode, ext_opcode, p1, p2, no_rexw, size)?;
        let ib = invalid(imm_bytes(&imm, imm_size, true))?;
        let start = self.code.len();
        self.push_bytes(b.as_slice());
        let ref_location = self.code.len();
        self.push_bytes(ib.as_slice());
        let end = self.code.len();
        let r = self.record_ref(p1, p2, ref_location, end);
        if r.is_err() {
            self.truncate_code(start);
            assert(self.model().code =~= old(self).model().code);
        }
        r
    }

}

} // verus!
