use vstd::prelude::*;
use vstd::string::StringSliceAdditionalSpecFns;

use crate::place::{Displacement, Scale, Size, reg_size};
use crate::text::bytes_eq;

verus! {

/// A general-purpose x86-64 register, named by the width at which it is accessed
/// (`rax`, `eax`, `ax`, `al`, `ah`, ...).
#[derive(Clone, Copy, Debug, PartialEq, Eq, Structural)]
pub enum Register {
    Rax, Eax, Ax, Al, Ah,
    Rcx, Ecx, Cx, Cl, Ch,
    Rdx, Edx, Dx, Dl, Dh,
    Rbx, Ebx, Bx, Bl, Bh,
    Rsp, Esp, Sp, Spl,
    Rbp, Ebp, Bp, Bpl,
    Rsi, Esi, Si, Sil,
    Rdi, Edi, Di, Dil,
    R8, R8d, R8w, R8b,
    R9, R9d, R9w, R9b,
    R10, R10d, R10w, R10b,
    R11, R11d, R11w, R11b,
    R12, R12d, R12w, R12b,
    R13, R13d, R13w, R13b,
    R14, R14d, R14w, R14b,
    R15, R15d, R15w, R15b,
}

/// The 4-bit register number that the ModRM, SIB and REX fields encode.
pub open spec fn reg_id(r: Register) -> u8 {
    match r {
        Register::Rax | Register::Eax | Register::Ax | Register::Al => 0,
        Register::Ah => 4,
        Register::Rcx | Register::Ecx | Register::Cx | Register::Cl => 1,
        Register::Ch => 5,
        Register::Rdx | Register::Edx | Register::Dx | Register::Dl => 2,
        Register::Dh => 6,
        Register::Rbx | Register::Ebx | Register::Bx | Register::Bl => 3,
        Register::Bh => 7,
        Register::Rsp | Register::Esp | Register::Sp | Register::Spl => 4,
        Register::Rbp | Register::Ebp | Register::Bp | Register::Bpl => 5,
        Register::Rsi | Register::Esi | Register::Si | Register::Sil => 6,
        Register::Rdi | Register::Edi | Register::Di | Register::Dil => 7,
        Register::R8 | Register::R8d | Register::R8w | Register::R8b => 8,
        Register::R9 | Register::R9d | Register::R9w | Register::R9b => 9,
        Register::R10 | Register::R10d | Register::R10w | Register::R10b => 10,
        Register::R11 | Register::R11d | Register::R11w | Register::R11b => 11,
        Register::R12 | Register::R12d | Register::R12w | Register::R12b => 12,
        Register::R13 | Register::R13d | Register::R13w | Register::R13b => 13,
        Register::R14 | Register::R14d | Register::R14w | Register::R14b => 14,
        Register::R15 | Register::R15d | Register::R15w | Register::R15b => 15,
    }
}

/// The width of the register in bits.
pub open spec fn reg_bits(r: Register) -> usize {
    match r {
        Register::Rax | Register::Rcx | Register::Rdx | Register::Rbx | Register::Rsp | Register::Rbp | Register::Rsi | Register::Rdi | Register::R8 | Register::R9 | Register::R10 | Register::R11 | Register::R12 | Register::R13 | Register::R14 | Register::R15 => 64,
        Register::Eax | Register::Ecx | Register::Edx | Register::Ebx | Register::Esp | Register::Ebp | Register::Esi | Register::Edi | Register::R8d | Register::R9d | Register::R10d | Register::R11d | Register::R12d | Register::R13d | Register::R14d | Register::R15d => 32,
        Register::Ax | Register::Cx | Register::Dx | Register::Bx | Register::Sp | Register::Bp | Register::Si | Register::Di | Register::R8w | Register::R9w | Register::R10w | Register::R11w | Register::R12w | Register::R13w | Register::R14w | Register::R15w => 16,
        Register::Al | Register::Ah | Register::Cl | Register::Ch | Register::Dl | Register::Dh | Register::Bl | Register::Bh | Register::Spl | Register::Bpl | Register::Sil | Register::Dil | Register::R8b | Register::R9b | Register::R10b | Register::R11b | Register::R12b | Register::R13b | Register::R14b | Register::R15b => 8,
    }
}

/// The register's name in assembly source, as ASCII bytes.
pub open spec fn reg_name(r: Register) -> Seq<u8> {
    match r {
        Register::Rax => seq![114u8, 97, 120],
        Register::Eax => seq![101u8, 97, 120],
        Register::Ax => seq![97u8, 120],
        Register::Al => seq![97u8, 108],
        Register::Ah => seq![97u8, 104],
        Register::Rcx => seq![114u8, 99, 120],
        Register::Ecx => seq![101u8, 99, 120],
        Register::Cx => seq![99u8, 120],
        Register::Cl => seq![99u8, 108],
        Register::Ch => seq![99u8, 104],
        Register::Rdx => seq![114u8, 100, 120],
        Register::Edx => seq![101u8, 100, 120],
        Register::Dx => seq![100u8, 120],
        Register::Dl => seq![100u8, 108],
        Register::Dh => seq![100u8, 104],
        Register::Rbx => seq![114u8, 98, 120],
        Register::Ebx => seq![101u8, 98, 120],
        Register::Bx => seq![98u8, 120],
        Register::Bl => seq![98u8, 108],
        Register::Bh => seq![98u8, 104],
        Register::Rsp => seq![114u8, 115, 112],
        Register::Esp => seq![101u8, 115, 112],
        Register::Sp => seq![115u8, 112],
        Register::Spl => seq![115u8, 112, 108],
        Register::Rbp => seq![114u8, 98, 112],
        Register::Ebp => seq![101u8, 98, 112],
        Register::Bp => seq![98u8, 112],
        Register::Bpl => seq![98u8, 112, 108],
        Register::Rsi => seq![114u8, 115, 105],
        Register::Esi => seq![101u8, 115, 105],
        Register::Si => seq![115u8, 105],
        Register::Sil => seq![115u8, 105, 108],
        Register::Rdi => seq![114u8, 100, 105],
        Register::Edi => seq![101u8, 100, 105],
        Register::Di => seq![100u8, 105],
        Register::Dil => seq![100u8, 105, 108],
        Register::R8 => seq![114u8, 56],
        Register::R8d => seq![114u8, 56, 100],
        Register::R8w => seq![114u8, 56, 119],
        Register::R8b => seq![114u8, 56, 98],
        Register::R9 => seq![114u8, 57],
        Register::R9d => seq![114u8, 57, 100],
        Register::R9w => seq![114u8, 57, 119],
        Register::R9b => seq![114u8, 57, 98],
        Register::R10 => seq![114u8, 49, 48],
        Register::R10d => seq![114u8, 49, 48, 100],
        Register::R10w => seq![114u8, 49, 48, 119],
        Register::R10b => seq![114u8, 49, 48, 98],
        Register::R11 => seq![114u8, 49, 49],
        Register::R11d => seq![114u8, 49, 49, 100],
        Register::R11w => seq![114u8, 49, 49, 119],
        Register::R11b => seq![114u8, 49, 49, 98],
        Register::R12 => seq![114u8, 49, 50],
        Register::R12d => seq![114u8, 49, 50, 100],
        Register::R12w => seq![114u8, 49, 50, 119],
        Register::R12b => seq![114u8, 49, 50, 98],
        Register::R13 => seq![114u8, 49, 51],
        Register::R13d => seq![114u8, 49, 51, 100],
        Register::R13w => seq![114u8, 49, 51, 119],
        Register::R13b => seq![114u8, 49, 51, 98],
        Register::R14 => seq![114u8, 49, 52],
        Register::R14d => seq![114u8, 49, 52, 100],
        Register::R14w => seq![114u8, 49, 52, 119],
        Register::R14b => seq![114u8, 49, 52, 98],
        Register::R15 => seq![114u8, 49, 53],
        Register::R15d => seq![114u8, 49, 53, 100],
        Register::R15w => seq![114u8, 49, 53, 119],
        Register::R15b => seq![114u8, 49, 53, 98],
    }
}

impl Register {
    /// The 4-bit register number that the ModRM, SIB and REX fields encode.
    pub fn id(&self) -> (r: u8)
        ensures
            r == reg_id(*self),
    {
        match self {
            Register::Rax | Register::Eax | Register::Ax | Register::Al => 0,
            Register::Ah => 4,
            Register::Rcx | Register::Ecx | Register::Cx | Register::Cl => 1,
            Register::Ch => 5,
            Register::Rdx | Register::Edx | Register::Dx | Register::Dl => 2,
            Register::Dh => 6,
            Register::Rbx | Register::Ebx | Register::Bx | Register::Bl => 3,
            Register::Bh => 7,
            Register::Rsp | Register::Esp | Register::Sp | Register::Spl => 4,
            Register::Rbp | Register::Ebp | Register::Bp | Register::Bpl => 5,
            Register::Rsi | Register::Esi | Register::Si | Register::Sil => 6,
            Register::Rdi | Register::Edi | Register::Di | Register::Dil => 7,
            Register::R8 | Register::R8d | Register::R8w | Register::R8b => 8,
            Register::R9 | Register::R9d | Register::R9w | Register::R9b => 9,
            Register::R10 | Register::R10d | Register::R10w | Register::R10b => 10,
            Register::R11 | Register::R11d | Register::R11w | Register::R11b => 11,
            Register::R12 | Register::R12d | Register::R12w | Register::R12b => 12,
            Register::R13 | Register::R13d | Register::R13w | Register::R13b => 13,
            Register::R14 | Register::R14d | Register::R14w | Register::R14b => 14,
            Register::R15 | Register::R15d | Register::R15w | Register::R15b => 15,
        }
    }

    /// The width of the register in bits.
    pub fn bits(&self) -> (r: usize)
        ensures
            r == reg_bits(*self),
    {
        match self {
            Register::Rax | Register::Rcx | Register::Rdx | Register::Rbx | Register::Rsp | Register::Rbp | Register::Rsi | Register::Rdi | Register::R8 | Register::R9 | Register::R10 | Register::R11 | Register::R12 | Register::R13 | Register::R14 | Register::R15 => 64,
            Register::Eax | Register::Ecx | Register::Edx | Register::Ebx | Register::Esp | Register::Ebp | Register::Esi | Register::Edi | Register::R8d | Register::R9d | Register::R10d | Register::R11d | Register::R12d | Register::R13d | Register::R14d | Register::R15d => 32,
            Register::Ax | Register::Cx | Register::Dx | Register::Bx | Register::Sp | Register::Bp | Register::Si | Register::Di | Register::R8w | Register::R9w | Register::R10w | Register::R11w | Register::R12w | Register::R13w | Register::R14w | Register::R15w => 16,
            Register::Al | Register::Ah | Register::Cl | Register::Ch | Register::Dl | Register::Dh | Register::Bl | Register::Bh | Register::Spl | Register::Bpl | Register::Sil | Register::Dil | Register::R8b | Register::R9b | Register::R10b | Register::R11b | Register::R12b | Register::R13b | Register::R14b | Register::R15b => 8,
        }
    }

    /// The operand size that the register holds.
    pub fn size(&self) -> (r: Size)
        ensures
            r == reg_size(*self),
            r.spec_bits() == reg_bits(*self),
    {
        match self {
            Register::Rax | Register::Rcx | Register::Rdx | Register::Rbx | Register::Rsp | Register::Rbp | Register::Rsi | Register::Rdi | Register::R8 | Register::R9 | Register::R10 | Register::R11 | Register::R12 | Register::R13 | Register::R14 | Register::R15 => Size::Qword,
            Register::Eax | Register::Ecx | Register::Edx | Register::Ebx | Register::Esp | Register::Ebp | Register::Esi | Register::Edi | Register::R8d | Register::R9d | Register::R10d | Register::R11d | Register::R12d | Register::R13d | Register::R14d | Register::R15d => Size::Dword,
            Register::Ax | Register::Cx | Register::Dx | Register::Bx | Register::Sp | Register::Bp | Register::Si | Register::Di | Register::R8w | Register::R9w | Register::R10w | Register::R11w | Register::R12w | Register::R13w | Register::R14w | Register::R15w => Size::Word,
            Register::Al | Register::Ah | Register::Cl | Register::Ch | Register::Dl | Register::Dh | Register::Bl | Register::Bh | Register::Spl | Register::Bpl | Register::Sil | Register::Dil | Register::R8b | Register::R9b | Register::R10b | Register::R11b | Register::R12b | Register::R13b | Register::R14b | Register::R15b => Size::Byte,
        }
    }

    /// The register's name as ASCII bytes.
    pub fn name_bytes(&self) -> (r: Vec<u8>)
        ensures
            r@ == reg_name(*self),
    {
        match self {
            Register::Rax => vec![114u8, 97, 120],
            Register::Eax => vec![101u8, 97, 120],
            Register::Ax => vec![97u8, 120],
            Register::Al => vec![97u8, 108],
            Register::Ah => vec![97u8, 104],
            Register::Rcx => vec![114u8, 99, 120],
            Register::Ecx => vec![101u8, 99, 120],
            Register::Cx => vec![99u8, 120],
            Register::Cl => vec![99u8, 108],
            Register::Ch => vec![99u8, 104],
            Register::Rdx => vec![114u8, 100, 120],
            Register::Edx => vec![101u8, 100, 120],
            Register::Dx => vec![100u8, 120],
            Register::Dl => vec![100u8, 108],
            Register::Dh => vec![100u8, 104],
            Register::Rbx => vec![114u8, 98, 120],
            Register::Ebx => vec![101u8, 98, 120],
            Register::Bx => vec![98u8, 120],
            Register::Bl => vec![98u8, 108],
            Register::Bh => vec![98u8, 104],
            Register::Rsp => vec![114u8, 115, 112],
            Register::Esp => vec![101u8, 115, 112],
            Register::Sp => vec![115u8, 112],
            Register::Spl => vec![115u8, 112, 108],
            Register::Rbp => vec![114u8, 98, 112],
            Register::Ebp => vec![101u8, 98, 112],
            Register::Bp => vec![98u8, 112],
            Register::Bpl => vec![98u8, 112, 108],
            Register::Rsi => vec![114u8, 115, 105],
            Register::Esi => vec![101u8, 115, 105],
            Register::Si => vec![115u8, 105],
            Register::Sil => vec![115u8, 105, 108],
            Register::Rdi => vec![114u8, 100, 105],
            Register::Edi => vec![101u8, 100, 105],
            Register::Di => vec![100u8, 105],
            Register::Dil => vec![100u8, 105, 108],
            Register::R8 => vec![114u8, 56],
            Register::R8d => vec![114u8, 56, 100],
            Register::R8w => vec![114u8, 56, 119],
            Register::R8b => vec![114u8, 56, 98],
            Register::R9 => vec![114u8, 57],
            Register::R9d => vec![114u8, 57, 100],
            Register::R9w => vec![114u8, 57, 119],
            Register::R9b => vec![114u8, 57, 98],
            Register::R10 => vec![114u8, 49, 48],
            Register::R10d => vec![114u8, 49, 48, 100],
            Register::R10w => vec![114u8, 49, 48, 119],
            Register::R10b => vec![114u8, 49, 48, 98],
            Register::R11 => vec![114u8, 49, 49],
            Register::R11d => vec![114u8, 49, 49, 100],
            Register::R11w => vec![114u8, 49, 49, 119],
            Register::R11b => vec![114u8, 49, 49, 98],
            Register::R12 => vec![114u8, 49, 50],
            Register::R12d => vec![114u8, 49, 50, 100],
            Register::R12w => vec![114u8, 49, 50, 119],
            Register::R12b => vec![114u8, 49, 50, 98],
            Register::R13 => vec![114u8, 49, 51],
            Register::R13d => vec![114u8, 49, 51, 100],
            Register::R13w => vec![114u8, 49, 51, 119],
            Register::R13b => vec![114u8, 49, 51, 98],
            Register::R14 => vec![114u8, 49, 52],
            Register::R14d => vec![114u8, 49, 52, 100],
            Register::R14w => vec![114u8, 49, 52, 119],
            Register::R14b => vec![114u8, 49, 52, 98],
            Register::R15 => vec![114u8, 49, 53],
            Register::R15d => vec![114u8, 49, 53, 100],
            Register::R15w => vec![114u8, 49, 53, 119],
            Register::R15b => vec![114u8, 49, 53, 98],
        }
    }

    /// Every register, in declaration order.
    pub fn all() -> (r: Vec<Register>)
        ensures
            r.len() == 68,
            forall|x: Register| #[trigger] r@.contains(x),
    {
        let r = vec![
            Register::Rax, Register::Eax, Register::Ax, Register::Al, Register::Ah, Register::Rcx, Register::Ecx, Register::Cx, Register::Cl, Register::Ch, Register::Rdx, Register::Edx, Register::Dx, Register::Dl, Register::Dh, Register::Rbx, Register::Ebx, Register::Bx, Register::Bl, Register::Bh, Register::Rsp, Register::Esp, Register::Sp, Register::Spl, Register::Rbp, Register::Ebp, Register::Bp, Register::Bpl, Register::Rsi, Register::Esi, Register::Si, Register::Sil, Register::Rdi, Register::Edi, Register::Di, Register::Dil, Register::R8, Register::R8d, Register::R8w, Register::R8b, Register::R9, Register::R9d, Register::R9w, Register::R9b, Register::R10, Register::R10d, Register::R10w, Register::R10b, Register::R11, Register::R11d, Register::R11w, Register::R11b, Register::R12, Register::R12d, Register::R12w, Register::R12b, Register::R13, Register::R13d, Register::R13w, Register::R13b, Register::R14, Register::R14d, Register::R14w, Register::R14b, Register::R15, Register::R15d, Register::R15w, Register::R15b,
        ];
        assert forall|x: Register| #[trigger] r@.contains(x) by {
            match x {
                Register::Rax => assert(r@[0] == x),
                Register::Eax => assert(r@[1] == x),
                Register::Ax => assert(r@[2] == x),
                Register::Al => assert(r@[3] == x),
                Register::Ah => assert(r@[4] == x),
                Register::Rcx => assert(r@[5] == x),
                Register::Ecx => assert(r@[6] == x),
                Register::Cx => assert(r@[7] == x),
                Register::Cl => assert(r@[8] == x),
                Register::Ch => assert(r@[9] == x),
                Register::Rdx => assert(r@[10] == x),
                Register::Edx => assert(r@[11] == x),
                Register::Dx => assert(r@[12] == x),
                Register::Dl => assert(r@[13] == x),
                Register::Dh => assert(r@[14] == x),
                Register::Rbx => assert(r@[15] == x),
                Register::Ebx => assert(r@[16] == x),
                Register::Bx => assert(r@[17] == x),
                Register::Bl => assert(r@[18] == x),
                Register::Bh => assert(r@[19] == x),
                Register::Rsp => assert(r@[20] == x),
                Register::Esp => assert(r@[21] == x),
                Register::Sp => assert(r@[22] == x),
                Register::Spl => assert(r@[23] == x),
                Register::Rbp => assert(r@[24] == x),
                Register::Ebp => assert(r@[25] == x),
                Register::Bp => assert(r@[26] == x),
                Register::Bpl => assert(r@[27] == x),
                Register::Rsi => assert(r@[28] == x),
                Register::Esi => assert(r@[29] == x),
                Register::Si => assert(r@[30] == x),
                Register::Sil => assert(r@[31] == x),
                Register::Rdi => assert(r@[32] == x),
                Register::Edi => assert(r@[33] == x),
                Register::Di => assert(r@[34] == x),
                Register::Dil => assert(r@[35] == x),
                Register::R8 => assert(r@[36] == x),
                Register::R8d => assert(r@[37] == x),
                Register::R8w => assert(r@[38] == x),
                Register::R8b => assert(r@[39] == x),
                Register::R9 => assert(r@[40] == x),
                Register::R9d => assert(r@[41] == x),
                Register::R9w => assert(r@[42] == x),
                Register::R9b => assert(r@[43] == x),
                Register::R10 => assert(r@[44] == x),
                Register::R10d => assert(r@[45] == x),
                Register::R10w => assert(r@[46] == x),
                Register::R10b => assert(r@[47] == x),
                Register::R11 => assert(r@[48] == x),
                Register::R11d => assert(r@[49] == x),
                Register::R11w => assert(r@[50] == x),
                Register::R11b => assert(r@[51] == x),
                Register::R12 => assert(r@[52] == x),
                Register::R12d => assert(r@[53] == x),
                Register::R12w => assert(r@[54] == x),
                Register::R12b => assert(r@[55] == x),
                Register::R13 => assert(r@[56] == x),
                Register::R13d => assert(r@[57] == x),
                Register::R13w => assert(r@[58] == x),
                Register::R13b => assert(r@[59] == x),
                Register::R14 => assert(r@[60] == x),
                Register::R14d => assert(r@[61] == x),
                Register::R14w => assert(r@[62] == x),
                Register::R14b => assert(r@[63] == x),
                Register::R15 => assert(r@[64] == x),
                Register::R15d => assert(r@[65] == x),
                Register::R15w => assert(r@[66] == x),
                Register::R15b => assert(r@[67] == x),
            }
        }
        r
    }

    /// True for `ah`, `ch`, `dh` and `bh`, which cannot be encoded together with a REX prefix.
    pub open spec fn spec_is_high_byte(self) -> bool {
        self is Ah || self is Ch || self is Dh || self is Bh
    }

    /// True for the registers numbered 8 to 15 (`r8`..`r15` at any width).
    pub open spec fn spec_is_extended(self) -> bool {
        reg_id(self) >= 8
    }

    /// True when any instruction that names this register must carry a REX prefix.
    pub open spec fn spec_needs_rex(self) -> bool {
        self is Spl || self is Bpl || self is Sil || self is Dil || self.spec_is_extended()
    }

    /// Two registers can appear in one instruction unless one of them is a high-byte
    /// register and the other one requires a REX prefix.
    pub open spec fn spec_compatible_with(self, other: Register) -> bool {
        !((self.spec_is_high_byte() || other.spec_is_high_byte()) && (self.spec_needs_rex()
            || other.spec_needs_rex()))
    }

    /// True when the register needs a REX prefix.
    pub fn needs_rex(&self) -> (r: bool)
        ensures
            r == self.spec_needs_rex(),
    {
        matches!(self, Register::Spl | Register::Bpl | Register::Sil | Register::Dil)
            || self.is_extended_reg()
    }

    /// Fails when the two registers cannot be encoded in the same instruction.
    pub fn assert_compatible(&self, reg: Self) -> (r: Result<(), &'static str>)
        ensures
            r is Ok <==> self.spec_compatible_with(reg),
    {
        if self.compatible_with(reg) {
            Ok(())
        } else {
            Err(
                "cannot use high-byte registers (ah, ch, dh, bh) together with registers that require a REX prefix, like spl, sil, or r8b–r15b",
            )
        }
    }

    /// Fails when any two of the registers present cannot be encoded in the same instruction.
    pub fn assert_compatible_three_way(
        reg: Self,
        index: Option<Self>,
        base: Option<Self>,
    ) -> (r: Result<(), &'static str>)
        ensures
            r is Ok <==> spec_compatible_three_way(reg, index, base),
    {
        match (index, base) {
            (None, None) => Ok(()),
            (None, Some(r)) => reg.assert_compatible(r),
            (Some(r), None) => reg.assert_compatible(r),
            (Some(r1), Some(r2)) => {
                reg.assert_compatible(r1)?;
                reg.assert_compatible(r2)?;
                r1.assert_compatible(r2)
            },
        }
    }

    /// True unless one register is a high-byte register and the other one requires a REX prefix.
    pub fn compatible_with(&self, reg: Self) -> (r: bool)
        ensures
            r == self.spec_compatible_with(reg),
    {
        let no_rex = matches!(self, Register::Ah | Register::Ch | Register::Dh | Register::Bh)
            || matches!(reg, Register::Ah | Register::Ch | Register::Dh | Register::Bh);
        let rex = self.needs_rex() || reg.needs_rex();
        !(no_rex && rex)
    }

    /// True for the registers numbered 8 to 15.
    pub fn is_extended_reg(&self) -> (r: bool)
        ensures
            r == self.spec_is_extended(),
    {
        self.id() >= 8
    }

    /// The REX prefix that an instruction with these operands needs, if any.
    pub fn three_way_rex(
        reg: Option<Self>,
        index: Option<Self>,
        base: Option<Self>,
        size: Size,
        ignore_rexw: bool,
    ) -> (r: Option<u8>)
        ensures
            r == spec_three_way_rex(reg, index, base, size, ignore_rexw),
    {
        let rexw: u8 = if matches!(size, Size::Qword) && !ignore_rexw { 1 } else { 0 };
        let rexr: u8 = if is_extended_opt(reg) { 1 } else { 0 };
        let rexx: u8 = if is_extended_opt(index) { 1 } else { 0 };
        let rexb: u8 = if is_extended_opt(base) { 1 } else { 0 };

        let rex = rex_byte(rexw, rexr, rexx, rexb);

        let needs_rex = needs_rex_opt(reg) || needs_rex_opt(index) || needs_rex_opt(base) || rex
            != 0x40;
        if needs_rex {
            Some(rex)
        } else {
            None
        }
    }

    /// Fails unless the register is 64 bits wide.
    pub fn assert_64_bits(&self) -> (r: Result<(), &'static str>)
        ensures
            r is Ok <==> reg_bits(*self) == 64,
    {
        if self.bits() == 64 {
            Ok(())
        } else {
            Err("only a 64-bit register (e.g. rcx, rbp) is allowed in this context")
        }
    }

    /// The ModRM byte that addresses this register directly, with `extension` in the reg field.
    pub fn get_own_modrm(&self, extension: u8) -> (r: u8)
        ensures
            r == modrm_byte(3, extension, reg_id(*self) & 7),
    {
        modrm(3, extension, self.id() & 7)
    }

    /// The ModRM byte for a memory operand based on `base`, with the opcode extension `n`
    /// in the reg field.
    pub fn get_modrm_slash_n(
        base: Register,
        disp: Option<Displacement>,
        n: u8,
        index: Option<(Scale, Register)>,
    ) -> (r: u8)
        ensures
            r == modrm_byte(spec_mod_field(base, disp), n, spec_rm_field(base, index)),
    {
        let mod_part = mod_field(base, disp);
        if index.is_some() {
            modrm(mod_part, n, 0b100)
        } else {
            modrm(mod_part, n, base.id() & 7)
        }
    }

    /// The ModRM byte for a memory operand based on `base`, with `reg` in the reg field.
    pub fn get_modrm_slash_r(
        base: Register,
        disp: Option<Displacement>,
        reg: Register,
        index: Option<(Scale, Register)>,
    ) -> (r: u8)
        ensures
            r == modrm_byte(
                spec_mod_field(base, disp),
                reg_id(reg) & 7,
                spec_rm_field(base, index),
            ),
    {
        let mod_part = mod_field(base, disp);
        if index.is_some() {
            modrm(mod_part, reg.id() & 7, 0b100)
        } else {
            modrm(mod_part, reg.id() & 7, base.id() & 7)
        }
    }

    /// The SIB byte for the memory operand, when the encoding needs one: when there is an
    /// index, when there is no base, or when the base is `rsp` or `r12`.
    pub fn maybe_sib(base: Option<Register>, index: Option<(Scale, Register)>) -> (r: Option<u8>)
        ensures
            r == spec_maybe_sib(base, index),
    {
        let (scale_part, index_part): (u8, u8) = match index {
            Some((scale, idx_reg)) => (scale.bits(), idx_reg.id() & 7),
            None => (0, 0b100),
        };
        let base_part: u8 = match base {
            Some(base_reg) => base_reg.id() & 7,
            None => 0b101,
        };
        let sib = modrm(scale_part, index_part, base_part);
        if index.is_some() || base.is_none() || base_part == 0b100 {
            Some(sib)
        } else {
            None
        }
    }

    /// The ModRM byte for a register-to-register operation: `rreg` in the reg field,
    /// `lreg` in the rm field.
    pub fn get_modrm_reg_reg(lreg: Self, rreg: Self) -> (r: u8)
        ensures
            r == modrm_byte(3, reg_id(rreg) & 7, reg_id(lreg) & 7),
    {
        modrm(3, rreg.id() & 7, lreg.id() & 7)
    }

    /// The ModRM byte for a RIP-relative memory operand with this register in the reg field.
    pub fn get_own_modrm_riprelative(&self) -> (r: u8)
        ensures
            r == modrm_byte(0, reg_id(*self) & 7, 0b101),
    {
        modrm(0, self.id() & 7, 0b101)
    }

    /// The ModRM byte for a RIP-relative memory operand with the opcode extension in the
    /// reg field.
    pub fn modrm_rip_slash_n(extension: u8) -> (r: u8)
        ensures
            r == modrm_byte(0, extension, 0b101),
    {
        modrm(0, extension, 0b101)
    }

    /// The register whose name is exactly `name`, if there is one.
    pub fn from_name(name: &[u8]) -> (r: Option<Register>)
        ensures
            r == spec_register_named(name@),
    {
        let all = Register::all();
        let mut i: usize = 0;
        while i < all.len()
            invariant
                i <= all.len(),
                all.len() == 68,
                forall|x: Register| #[trigger] all@.contains(x),
                forall|j: int| 0 <= j < i ==> reg_name(#[trigger] all@[j]) != name@,
            decreases all.len() - i,
        {
            let reg = all[i];
            let n = reg.name_bytes();
            if bytes_eq(n.as_slice(), name) {
                proof {
                    lemma_reg_name_injective(reg);
                }
                return Some(reg);
            }
            i += 1;
        }
        assert forall|x: Register| reg_name(x) != name@ by {
            assert(all@.contains(x));
            let j = choose|j: int| 0 <= j < all.len() && all@[j] == x;
            assert(reg_name(all@[j]) != name@);
        }
        None
    }
}

/// The register named by `name`, if any.
pub open spec fn spec_register_named(name: Seq<u8>) -> Option<Register> {
    if exists|r: Register| reg_name(r) == name {
        Some(choose|r: Register| reg_name(r) == name)
    } else {
        None
    }
}

/// No two registers share a name, so a register is found again from its name.
pub proof fn lemma_reg_name_injective(r: Register)
    ensures
        spec_register_named(reg_name(r)) == Some(r),
        forall|s: Register| reg_name(s) == reg_name(r) ==> s == r,
{
    assert forall|s: Register| reg_name(s) == reg_name(r) implies s == r by {
        if s != r {
            assert(reg_name(s) != reg_name(r)) by {
                lemma_reg_names_differ(s, r);
            }
        }
    }
}

proof fn lemma_reg_names_differ(s: Register, r: Register)
    requires
        s != r,
    ensures
        reg_name(s) != reg_name(r),
{
    if reg_name(s).len() == reg_name(r).len() {
        if reg_name(s) == reg_name(r) {
            assert(reg_name(s)[0] == reg_name(r)[0]);
            assert(reg_name(s)[1] == reg_name(r)[1]);
            if reg_name(s).len() > 2 {
                assert(reg_name(s)[2] == reg_name(r)[2]);
            }
            if reg_name(s).len() > 3 {
                assert(reg_name(s)[3] == reg_name(r)[3]);
            }
        }
    }
}

/// The ModRM (or, with the same layout, SIB) byte built from its three fields:
/// two bits of `md`, three bits of `reg`, three bits of `rm`.
pub open spec fn modrm_byte(md: u8, reg: u8, rm: u8) -> u8 {
    ((md << 6u8) | (reg << 3u8) | rm) as u8
}

/// The REX prefix byte with its W, R, X and B bits.
pub open spec fn spec_rex_byte(w: u8, r: u8, x: u8, b: u8) -> u8 {
    (0x40u8 | (w << 3u8) | (r << 2u8) | (x << 1u8) | b) as u8
}

/// The mod field of a memory operand: a 32-bit or 8-bit displacement, or none. A base
/// numbered 5 (`rbp`, `r13`) has no encoding without a displacement, so it gets an 8-bit one.
pub open spec fn spec_mod_field(base: Register, disp: Option<Displacement>) -> u8 {
    match disp {
        Some(Displacement::Dword(_)) => 0b10,
        Some(Displacement::Byte(_)) => 0b01,
        None => if reg_id(base) & 7 == 0b101 {
            0b01
        } else {
            0
        },
    }
}

/// The rm field of a memory operand: `100` announces a SIB byte, otherwise the base register.
pub open spec fn spec_rm_field(base: Register, index: Option<(Scale, Register)>) -> u8 {
    if index is Some {
        0b100
    } else {
        reg_id(base) & 7
    }
}

/// Whether `r` is present and numbered 8 or above.
pub open spec fn spec_is_extended_opt(r: Option<Register>) -> bool {
    match r {
        Some(reg) => reg.spec_is_extended(),
        None => false,
    }
}

/// Whether `r` is present and needs a REX prefix.
pub open spec fn spec_needs_rex_opt(r: Option<Register>) -> bool {
    match r {
        Some(reg) => reg.spec_needs_rex(),
        None => false,
    }
}

/// The REX prefix for an instruction whose ModRM reg field, SIB index and base (or rm)
/// registers are `reg`, `index` and `base`, operating on `size`: W is set for 64-bit
/// operands unless `ignore_rexw`, and R, X, B extend the three register numbers. The prefix
/// is emitted when a bit is set or when a register can only be reached with a REX prefix.
pub open spec fn spec_three_way_rex(
    reg: Option<Register>,
    index: Option<Register>,
    base: Option<Register>,
    size: Size,
    ignore_rexw: bool,
) -> Option<u8> {
    let w: u8 = if size == Size::Qword && !ignore_rexw { 1 } else { 0 };
    let r: u8 = if spec_is_extended_opt(reg) { 1 } else { 0 };
    let x: u8 = if spec_is_extended_opt(index) { 1 } else { 0 };
    let b: u8 = if spec_is_extended_opt(base) { 1 } else { 0 };
    let rex = spec_rex_byte(w, r, x, b);
    if spec_needs_rex_opt(reg) || spec_needs_rex_opt(index) || spec_needs_rex_opt(base) || rex
        != 0x40 {
        Some(rex)
    } else {
        None
    }
}

/// The SIB byte of a memory operand, present when there is an index, when there is no
/// base, or when the base is numbered 4 (`rsp`, `r12`). A missing index is encoded as
/// `100`, a missing base as `101` (a 32-bit absolute displacement).
pub open spec fn spec_maybe_sib(base: Option<Register>, index: Option<(Scale, Register)>) -> Option<
    u8,
> {
    let scale_part: u8 = match index {
        Some((scale, _)) => scale.spec_scale_bits(),
        None => 0,
    };
    let index_part: u8 = match index {
        Some((_, idx)) => reg_id(idx) & 7,
        None => 0b100,
    };
    let base_part: u8 = match base {
        Some(b) => reg_id(b) & 7,
        None => 0b101,
    };
    if index is Some || base is None || base_part == 0b100 {
        Some(modrm_byte(scale_part, index_part, base_part))
    } else {
        None
    }
}

/// Whether any two of the present registers are incompatible.
pub open spec fn spec_compatible_three_way(
    reg: Register,
    index: Option<Register>,
    base: Option<Register>,
) -> bool {
    match (index, base) {
        (None, None) => true,
        (None, Some(r)) => reg.spec_compatible_with(r),
        (Some(r), None) => reg.spec_compatible_with(r),
        (Some(r1), Some(r2)) => reg.spec_compatible_with(r1) && reg.spec_compatible_with(r2)
            && r1.spec_compatible_with(r2),
    }
}

/// The ModRM byte with the given fields.
pub fn modrm(md: u8, reg: u8, rm: u8) -> (r: u8)
    ensures
        r == modrm_byte(md, reg, rm),
{
    (md << 6u8) | (reg << 3u8) | rm
}

fn rex_byte(w: u8, r: u8, x: u8, b: u8) -> (res: u8)
    ensures
        res == spec_rex_byte(w, r, x, b),
{
    0x40u8 | (w << 3u8) | (r << 2u8) | (x << 1u8) | b
}

fn mod_field(base: Register, disp: Option<Displacement>) -> (r: u8)
    ensures
        r == spec_mod_field(base, disp),
{
    match disp {
        Some(Displacement::Dword(_)) => 0b10,
        Some(Displacement::Byte(_)) => 0b01,
        None => if base.id() & 7 == 0b101 {
            0b01
        } else {
            0
        },
    }
}

fn is_extended_opt(r: Option<Register>) -> (b: bool)
    ensures
        b == spec_is_extended_opt(r),
{
    match r {
        Some(reg) => reg.is_extended_reg(),
        None => false,
    }
}

fn needs_rex_opt(r: Option<Register>) -> (b: bool)
    ensures
        b == spec_needs_rex_opt(r),
{
    match r {
        Some(reg) => reg.needs_rex(),
        None => false,
    }
}

/// A ModRM byte holds its three fields apart: the mod field in the top two bits, the reg
/// field in the next three, the r/m field in the low three.
pub proof fn lemma_modrm_fields(md: u8, reg: u8, rm: u8)
    requires
        md < 4,
        reg < 8,
        rm < 8,
    ensures
        modrm_byte(md, reg, rm) >> 6u8 == md,
        (modrm_byte(md, reg, rm) >> 3u8) & 7 == reg,
        modrm_byte(md, reg, rm) & 7 == rm,
{
    assert(((md << 6u8) | (reg << 3u8) | rm) as u8 >> 6u8 == md) by (bit_vector)
        requires
            md < 4,
            reg < 8,
            rm < 8,
    ;
    assert((((md << 6u8) | (reg << 3u8) | rm) as u8 >> 3u8) & 7 == reg) by (bit_vector)
        requires
            md < 4,
            reg < 8,
            rm < 8,
    ;
    assert(((md << 6u8) | (reg << 3u8) | rm) as u8 & 7 == rm) by (bit_vector)
        requires
            md < 4,
            reg < 8,
            rm < 8,
    ;
}

/// A REX prefix is 0x40 with its W, R, X and B bits, each of which can be read back.
pub proof fn lemma_rex_fields(w: u8, r: u8, x: u8, b: u8)
    requires
        w < 2,
        r < 2,
        x < 2,
        b < 2,
    ensures
        spec_rex_byte(w, r, x, b) >> 4u8 == 4,
        (spec_rex_byte(w, r, x, b) >> 3u8) & 1 == w,
        (spec_rex_byte(w, r, x, b) >> 2u8) & 1 == r,
        (spec_rex_byte(w, r, x, b) >> 1u8) & 1 == x,
        spec_rex_byte(w, r, x, b) & 1 == b,
{
    assert((0x40u8 | (w << 3u8) | (r << 2u8) | (x << 1u8) | b) as u8 >> 4u8 == 4) by (bit_vector)
        requires
            w < 2,
            r < 2,
            x < 2,
            b < 2,
    ;
    assert(((0x40u8 | (w << 3u8) | (r << 2u8) | (x << 1u8) | b) as u8 >> 3u8) & 1 == w) by (bit_vector)
        requires
            w < 2,
            r < 2,
            x < 2,
            b < 2,
    ;
    assert(((0x40u8 | (w << 3u8) | (r << 2u8) | (x << 1u8) | b) as u8 >> 2u8) & 1 == r) by (bit_vector)
        requires
            w < 2,
            r < 2,
            x < 2,
            b < 2,
    ;
    assert(((0x40u8 | (w << 3u8) | (r << 2u8) | (x << 1u8) | b) as u8 >> 1u8) & 1 == x) by (bit_vector)
        requires
            w < 2,
            r < 2,
            x < 2,
            b < 2,
    ;
    assert((0x40u8 | (w << 3u8) | (r << 2u8) | (x << 1u8) | b) as u8 & 1 == b) by (bit_vector)
        requires
            w < 2,
            r < 2,
            x < 2,
            b < 2,
    ;
}

/// Whether two registers can be encoded in one instruction does not depend on their order.
pub proof fn lemma_compatible_symmetric(a: Register, b: Register)
    ensures
        a.spec_compatible_with(b) == b.spec_compatible_with(a),
{
}

impl core::str::FromStr for Register {
    type Err = &'static str;

    /// The register named `s` (lower case, as in `rax`, `r8d`, `spl`).
    fn from_str(s: &str) -> (r: Result<Register, &'static str>)
        ensures
            match r {
                Ok(x) => spec_register_named(s.spec_bytes()) == Some(x),
                Err(_) => spec_register_named(s.spec_bytes()) is None,
            },
    {
        match Register::from_name(s.as_bytes()) {
            Some(r) => Ok(r),
            None => Err("invalid register"),
        }
    }
}

} // verus!
