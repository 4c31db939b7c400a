//! Calls (`name(...)`, `(reg)(...)`) with their argument set-up, and the `@builtin(...)`
//! forms.
use vstd::prelude::*;

use crate::place::{PlaceModel, PlaceOf, Size, lit, parse_place_bytes, spec_coerce_size};
use crate::program::assign::spec_parse_assign;
use crate::program::encode::{spec_binary_with_size, spec_unary, spec_unary_with_size};
use crate::program::instructions::{
    bytes1, bytes2, bytes3, is_wide_register, low3, place_from, place_of, spec_parse_basic,
    spec_parse_basic_unary, spec_parse_test,
};
use crate::program::{AsmError, Fail, Outcome, Program, ProgramModel, invalid, quoting, quoting_because};
use crate::registers::{Register, reg_id};
use crate::strings::{parse_string_bytes, spec_parse_string};
use crate::text::{
    bytes_eq, find, find_from, lemma_find_from_bounds, spec_find, spec_find_from, spec_split_once,
    spec_trim, split_once, trim,
};

verus! {

/// The separator `, ` between the statements that set up a call.
pub open spec fn comma_sep() -> Seq<u8> {
    seq![0x2cu8, 0x20u8]
}

/// The separator ` - ` of a comparison in `@set_flags`.
pub open spec fn minus_sep() -> Seq<u8> {
    seq![0x20u8, 0x2du8, 0x20u8]
}

/// One statement of a call's set-up: `lvalue ^= rvalue` or `lvalue = rvalue`.
pub open spec fn spec_setup_part(m: ProgramModel, p: Seq<u8>) -> Outcome {
    match spec_split_once(p, lit(" ^= ")) {
        Some((l, r)) => spec_parse_basic(m, l, r, 0x34, 6, 0x30),
        None => match spec_split_once(p, lit(" = ")) {
            Some((l, r)) => spec_parse_assign(m, l, r),
            None => Err(Fail::Invalid),
        },
    }
}

/// The statements of `s`, separated by `, `, in order.
pub open spec fn spec_setup_parts(m: ProgramModel, s: Seq<u8>) -> Outcome
    decreases s.len(),
{
    match spec_find(s, comma_sep()) {
        Some(i) => match spec_setup_part(m, s.subrange(0, i)) {
            Err(f) => Err(f),
            Ok(m2) => if 0 <= i && i + 2 <= s.len() {
                spec_setup_parts(m2, s.subrange(i + 2, s.len() as int))
            } else {
                Err(Fail::Internal)
            },
        },
        None => spec_setup_part(m, s),
    }
}

/// The set-up of a call: nothing for an empty argument list, else its statements.
pub open spec fn spec_call_setup(m: ProgramModel, inner: Seq<u8>) -> Outcome {
    if inner.len() == 0 {
        Ok(m)
    } else {
        spec_setup_parts(m, inner)
    }
}

/// `(place)(args)`: the set-up, then an indirect call through a 64-bit operand (0xff /2).
pub open spec fn spec_parse_virtual_call(m: ProgramModel, lvalue: Seq<u8>, inner: Seq<u8>) -> Outcome {
    match place_of(lvalue) {
        None => Err(Fail::Invalid),
        Some(lhs) => match lhs.spec_size() {
            None => Err(Fail::Invalid),
            Some(size) => if size != Size::Qword {
                Err(Fail::Invalid)
            } else {
                match spec_call_setup(m, inner) {
                    Err(f) => Err(f),
                    Ok(m2) => spec_unary(m2, 0xff, false, Some(2), lhs, true),
                }
            },
        },
    }
}

/// `name(args)`: the set-up, then a call (0xe8) to the label `name` whose displacement
/// is recorded to be filled in.
pub open spec fn spec_parse_call(m: ProgramModel, name: Seq<u8>, inner: Seq<u8>) -> Outcome {
    match spec_call_setup(m, inner) {
        Err(f) => Err(f),
        Ok(m2) => match m2.label_index(name) {
            None => Err(Fail::Invalid),
            Some(i) => {
                let m3 = m2.emit(seq![0xe8u8, 0u8, 0u8, 0u8, 0u8]);
                Ok(ProgramModel { label_refs: m3.label_refs.push((i as usize, m3.len(), m3.len())), ..m3 })
            },
        },
    }
}

/// The register pair that `@divmod` divides for an operand of the size.
pub open spec fn divmod_pair(size: Size) -> Seq<u8> {
    match size {
        Size::Byte => lit("ah:al"),
        Size::Word => lit("dx:ax"),
        Size::Dword => lit("edx:eax"),
        Size::Qword => lit("rdx:rax"),
    }
}

/// `@divmod(pair, place)` and `@unsigned_divmod(...)`: `idiv`/`div` (0xf6 /7 or /6) of the
/// register pair that matches the operand's size.
pub open spec fn spec_parse_divmod(m: ProgramModel, inner: Seq<u8>, signed: bool) -> Outcome {
    match spec_split_once(inner, lit(", ")) {
        None => Err(Fail::Invalid),
        Some((lhs, rhs)) => match place_of(spec_trim(rhs)) {
            None => Err(Fail::Invalid),
            Some(place) => match place.spec_size() {
                None => Err(Fail::Invalid),
                Some(size) => if lhs != divmod_pair(size) {
                    Err(Fail::Invalid)
                } else {
                    spec_parse_basic_unary(m, rhs, 0xf6, if signed { 7 } else { 6 }, false)
                },
            },
        },
    }
}

/// The operand size that a register pair of `@widen_mul` stands for.
pub open spec fn widen_size(pair: Seq<u8>) -> Option<Size> {
    if pair == lit("ah:al") {
        Some(Size::Byte)
    } else if pair == lit("dx:ax") {
        Some(Size::Word)
    } else if pair == lit("edx:eax") {
        Some(Size::Dword)
    } else if pair == lit("rdx:rax") {
        Some(Size::Qword)
    } else {
        None
    }
}

/// `@widen_mul(pair, place)` and `@unsigned_widen_mul(...)`: `imul`/`mul` (0xf6/0xf7 /5
/// or /4) of an operand whose size is the pair's or open.
pub open spec fn spec_parse_widen_mul(m: ProgramModel, inner: Seq<u8>, signed: bool) -> Outcome {
    match spec_split_once(inner, lit(",")) {
        None => Err(Fail::Invalid),
        Some((first, second)) => match place_of(spec_trim(second)) {
            None => Err(Fail::Invalid),
            Some(target) => match widen_size(spec_trim(first)) {
                Some(size) => if target.spec_size() is None || target.spec_size() == Some(size) {
                    spec_unary_with_size(
                        m,
                        if size == Size::Byte { 0xf6 } else { 0xf7 },
                        false,
                        Some(if signed { 5 } else { 4 }),
                        target,
                        false,
                        size,
                    )
                } else {
                    Err(Fail::Invalid)
                },
                None => Err(Fail::Invalid),
            },
        },
    }
}

/// The operand exchanged with the accumulator by the short form of `xchg`, if one
/// applies: the pairs with `ax`, `eax`, `rax` are tried in this order, each with the
/// accumulator first and then second.
pub open spec fn xchg_partner(lhs: PlaceModel, rhs: PlaceModel) -> Option<PlaceModel> {
    if lhs == PlaceOf::<Seq<u8>>::Reg16(Register::Ax) && rhs.spec_register() is Some {
        Some(rhs)
    } else if rhs == PlaceOf::<Seq<u8>>::Reg16(Register::Ax) && lhs.spec_register() is Some {
        Some(lhs)
    } else if lhs == PlaceOf::<Seq<u8>>::Reg32(Register::Eax) && rhs.spec_register() is Some {
        Some(rhs)
    } else if rhs == PlaceOf::<Seq<u8>>::Reg32(Register::Eax) && lhs.spec_register() is Some {
        Some(lhs)
    } else if lhs == PlaceOf::<Seq<u8>>::Reg64(Register::Rax) && rhs.spec_register() is Some {
        Some(rhs)
    } else if rhs == PlaceOf::<Seq<u8>>::Reg64(Register::Rax) && lhs.spec_register() is Some {
        Some(lhs)
    } else {
        None
    }
}

/// The two operands of `a, b`, both trimmed.
pub open spec fn two_places(inner: Seq<u8>) -> Option<(PlaceModel, PlaceModel)> {
    match spec_split_once(inner, lit(",")) {
        None => None,
        Some((first, second)) => match (place_of(spec_trim(first)), place_of(spec_trim(second))) {
            (Some(a), Some(b)) => Some((a, b)),
            _ => None,
        },
    }
}

/// `@swap(a, b)`: `xchg`, in its short form 0x90+r with the accumulator (the register
/// `r`, with its REX bit, is the operand that is not the accumulator), else 0x86/0x87.
pub open spec fn spec_parse_xchg(m: ProgramModel, inner: Seq<u8>) -> Outcome {
    match two_places(inner) {
        None => Err(Fail::Invalid),
        Some((lhs, rhs)) => match spec_coerce_size(lhs.spec_size(), rhs.spec_size()) {
            Err(_) => Err(Fail::Invalid),
            Ok(size) => match xchg_partner(lhs, rhs) {
                Some(p) => spec_unary_with_size(
                    m,
                    (0x90 + (reg_id(p.spec_register().unwrap()) & 7)) as u8,
                    false,
                    None,
                    p,
                    false,
                    size,
                ),
                None => if size == Size::Byte {
                    spec_binary_with_size(m, 0x86, false, lhs, rhs, false, size)
                } else {
                    spec_binary_with_size(m, 0x87, false, lhs, rhs, false, size)
                },
            },
        },
    }
}

/// `@swap_add(place, reg)`: `xadd` (0x0f 0xc0/0xc1), with `lock` when atomic.
pub open spec fn spec_parse_xadd(m: ProgramModel, inner: Seq<u8>, atomic: bool) -> Outcome {
    match two_places(inner) {
        None => Err(Fail::Invalid),
        Some((lhs, rhs)) => if rhs.spec_register() is None {
            Err(Fail::Invalid)
        } else if atomic && !(lhs.spec_is_memory() || rhs.spec_is_memory()) {
            Err(Fail::Invalid)
        } else {
            let m1 = if atomic { m.emit(seq![0xf0u8]) } else { m };
            match spec_coerce_size(lhs.spec_size(), rhs.spec_size()) {
                Err(_) => Err(Fail::Invalid),
                Ok(size) => spec_binary_with_size(
                    m1,
                    if size == Size::Byte { 0xc0 } else { 0xc1 },
                    true,
                    lhs,
                    rhs,
                    false,
                    size,
                ),
            }
        },
    }
}

/// The accumulator of the size.
pub open spec fn accumulator_name(size: Size) -> Seq<u8> {
    match size {
        Size::Byte => lit("al"),
        Size::Word => lit("ax"),
        Size::Dword => lit("eax"),
        Size::Qword => lit("rax"),
    }
}

/// `@try_replace(place, reg, acc)`: `cmpxchg` (0x0f 0xb0/0xb1), with `lock` when atomic;
/// the third argument must name the accumulator of the operand size.
pub open spec fn spec_parse_try_replace(m: ProgramModel, inner: Seq<u8>, atomic: bool) -> Outcome {
    match spec_split_once(inner, lit(",")) {
        None => Err(Fail::Invalid),
        Some((first, rest)) => match spec_split_once(rest, lit(",")) {
            None => Err(Fail::Invalid),
            Some((second, third)) => match (place_of(spec_trim(first)), place_of(spec_trim(second))) {
                (Some(lhs), Some(rhs)) => if rhs.spec_register() is None {
                    Err(Fail::Invalid)
                } else if atomic && !(lhs.spec_is_memory() || rhs.spec_is_memory()) {
                    Err(Fail::Invalid)
                } else {
                    let m1 = if atomic { m.emit(seq![0xf0u8]) } else { m };
                    match spec_coerce_size(lhs.spec_size(), rhs.spec_size()) {
                        Err(_) => Err(Fail::Invalid),
                        Ok(size) => if spec_trim(third) != accumulator_name(size) {
                            Err(Fail::Invalid)
                        } else {
                            spec_binary_with_size(
                                m1,
                                if size == Size::Byte { 0xb0 } else { 0xb1 },
                                true,
                                lhs,
                                rhs,
                                false,
                                size,
                            )
                        },
                    }
                },
                _ => Err(Fail::Invalid),
            },
        },
    }
}

/// `@set_flags(a & b)` is a `test`; `@set_flags(a - b)` a `cmp`, split at the first ` - `
/// with an operand before it.
pub open spec fn spec_set_flags(m: ProgramModel, inner: Seq<u8>) -> Outcome {
    match spec_split_once(inner, lit(" & ")) {
        Some((first, rest)) => spec_parse_test(m, first, rest),
        None => spec_compare_search(m, inner, 0),
    }
}

/// The comparison of `@set_flags`, split at the first ` - ` at or after `from` that has
/// an operand before it.
pub open spec fn spec_compare_search(m: ProgramModel, s: Seq<u8>, from: int) -> Outcome
    decreases s.len() + 1 - from,
{
    match spec_find_from(s, minus_sep(), from) {
        None => Err(Fail::Invalid),
        Some(pos) => {
            let first = spec_trim(s.subrange(0, pos));
            let next = pos + minus_sep().len();
            if place_of(first) is Some {
                spec_parse_basic(m, first, spec_trim(s.subrange(next, s.len() as int)), 0x3c, 7, 0x38)
            } else if from < next <= s.len() {
                spec_compare_search(m, s, next)
            } else {
                Err(Fail::Invalid)
            }
        },
    }
}

/// The fixed encoding of the builtins that are a set-up followed by one instruction:
/// `syscall`, and the repeated string instructions.
pub open spec fn builtin_encoding(name: Seq<u8>) -> Option<Seq<u8>> {
    if name == lit("syscall") {
        Some(seq![0x0fu8, 0x05u8])
    } else if name == lit("fill_u8") {
        Some(seq![0xf3u8, 0xaau8])
    } else if name == lit("fill_u16") {
        Some(seq![0x66u8, 0xf3u8, 0xabu8])
    } else if name == lit("fill_u32") {
        Some(seq![0xf3u8, 0xabu8])
    } else if name == lit("fill_u64") {
        Some(seq![0xf3u8, 0x48u8, 0xabu8])
    } else if name == lit("copy_u8") {
        Some(seq![0xf3u8, 0xa4u8])
    } else if name == lit("copy_u16") {
        Some(seq![0x66u8, 0xf3u8, 0xa5u8])
    } else if name == lit("copy_u32") {
        Some(seq![0xf3u8, 0xa5u8])
    } else if name == lit("copy_u64") {
        Some(seq![0xf3u8, 0x48u8, 0xa5u8])
    } else if name == lit("compare_u8") {
        Some(seq![0xf3u8, 0xa6u8])
    } else if name == lit("compare_u16") {
        Some(seq![0x66u8, 0xf3u8, 0xa7u8])
    } else if name == lit("compare_u32") {
        Some(seq![0xf3u8, 0xa7u8])
    } else if name == lit("compare_u64") {
        Some(seq![0xf3u8, 0x48u8, 0xa7u8])
    } else {
        None
    }
}

/// A builtin that is a set-up followed by a fixed encoding; never atomic.
pub open spec fn spec_builtin_function(m: ProgramModel, inner: Seq<u8>, enc: Seq<u8>, atomic: bool) -> Outcome {
    if atomic {
        Err(Fail::Invalid)
    } else {
        match spec_call_setup(m, inner) {
            Err(f) => Err(f),
            Ok(m2) => Ok(m2.emit(enc)),
        }
    }
}

/// `@random(reg)` (`rdrand`, 0x0f 0xc7 /6) and `@random_seed(reg)` (`rdseed`, /7) of a 16-,
/// 32- or 64-bit register; never atomic.
pub open spec fn spec_rdrand(m: ProgramModel, inner: Seq<u8>, ext: u8, atomic: bool) -> Outcome {
    if atomic {
        Err(Fail::Invalid)
    } else {
        match place_of(inner) {
            Some(p) => if is_wide_register(p) {
                spec_unary(m, 0xc7, true, Some(ext), p, false)
            } else {
                Err(Fail::Invalid)
            },
            None => Err(Fail::Invalid),
        }
    }
}

/// `@name(inner)`, optionally ` atomically`, with `inner` trimmed.
#[verifier::opaque]
pub open spec fn spec_parse_builtin(m: ProgramModel, name: Seq<u8>, inner0: Seq<u8>, atomic: bool) -> Outcome {
    let inner = spec_trim(inner0);
    match builtin_encoding(name) {
        Some(enc) => spec_builtin_function(m, inner, enc, atomic),
        None => if name == lit("raw") {
            if atomic {
                Err(Fail::Invalid)
            } else {
                match spec_parse_string(inner) {
                    Some(d) => Ok(m.emit(d)),
                    None => Err(Fail::Invalid),
                }
            }
        } else if name == lit("random") {
            spec_rdrand(m, inner, 6, atomic)
        } else if name == lit("random_seed") {
            spec_rdrand(m, inner, 7, atomic)
        } else if name == lit("negate") {
            spec_parse_basic_unary(m, inner, 0xf6, 3, atomic)
        } else if name == lit("not") {
            spec_parse_basic_unary(m, inner, 0xf6, 2, atomic)
        } else {
            spec_parse_builtin_rest(m, name, inner, atomic)
        },
    }
}

/// The builtins of `spec_parse_builtin` that take register pairs or two operands, set
/// flags or the direction; an unknown name is refused.
pub open spec fn spec_parse_builtin_rest(m: ProgramModel, name: Seq<u8>, inner: Seq<u8>, atomic: bool) -> Outcome {
    if name == lit("swap_add") {
        spec_parse_xadd(m, inner, atomic)
    } else if name == lit("try_replace") {
        spec_parse_try_replace(m, inner, atomic)
    } else if !(name == lit("divmod") || name == lit("unsigned_divmod") || name == lit("widen_mul")
        || name == lit("unsigned_widen_mul") || name == lit("swap") || name == lit("set_flags")
        || name == lit("set_direction")) {
        Err(Fail::Invalid)
    } else if atomic {
        Err(Fail::Invalid)
    } else if name == lit("divmod") {
        spec_parse_divmod(m, inner, true)
    } else if name == lit("unsigned_divmod") {
        spec_parse_divmod(m, inner, false)
    } else if name == lit("widen_mul") {
        spec_parse_widen_mul(m, inner, true)
    } else if name == lit("unsigned_widen_mul") {
        spec_parse_widen_mul(m, inner, false)
    } else if name == lit("swap") {
        spec_parse_xchg(m, inner)
    } else if name == lit("set_flags") {
        spec_set_flags(m, inner)
    } else if inner == lit("forwards") || inner == lit("forward") {
        Ok(m.emit(seq![0xfcu8]))
    } else if inner == lit("backwards") || inner == lit("backward") {
        Ok(m.emit(seq![0xfdu8]))
    } else {
        Err(Fail::Invalid)
    }
}

/// The fixed encoding of a builtin (see `builtin_encoding`).
fn builtin_encoding_exec(name: &[u8]) -> (r: Option<Vec<u8>>)
    ensures
        match r {
            Some(v) => builtin_encoding(name@) == Some(v@),
            None => builtin_encoding(name@) is None,
        },
{
    if bytes_eq(name, "syscall".as_bytes()) {
        Some(bytes2(0x0f, 0x05))
    } else if bytes_eq(name, "fill_u8".as_bytes()) {
        Some(bytes2(0xf3, 0xaa))
    } else if bytes_eq(name, "fill_u16".as_bytes()) {
        Some(bytes3(0x66, 0xf3, 0xab))
    } else if bytes_eq(name, "fill_u32".as_bytes()) {
        Some(bytes2(0xf3, 0xab))
    } else if bytes_eq(name, "fill_u64".as_bytes()) {
        Some(bytes3(0xf3, 0x48, 0xab))
    } else if bytes_eq(name, "copy_u8".as_bytes()) {
        Some(bytes2(0xf3, 0xa4))
    } else if bytes_eq(name, "copy_u16".as_bytes()) {
        Some(bytes3(0x66, 0xf3, 0xa5))
    } else if bytes_eq(name, "copy_u32".as_bytes()) {
        Some(bytes2(0xf3, 0xa5))
    } else if bytes_eq(name, "copy_u64".as_bytes()) {
        Some(bytes3(0xf3, 0x48, 0xa5))
    } else if bytes_eq(name, "compare_u8".as_bytes()) {
        Some(bytes2(0xf3, 0xa6))
    } else if bytes_eq(name, "compare_u16".as_bytes()) {
        Some(bytes3(0x66, 0xf3, 0xa7))
    } else if bytes_eq(name, "compare_u32".as_bytes()) {
        Some(bytes2(0xf3, 0xa7))
    } else if bytes_eq(name, "compare_u64".as_bytes()) {
        Some(bytes3(0xf3, 0x48, 0xa7))
    } else {
        None
    }
}

/// The parts of `a, b` (split at the first comma), both trimmed and parsed.
fn two_places_exec(inner: &[u8]) -> (r: Result<(crate::place::Place, crate::place::Place), AsmError>)
    ensures
        match r {
            Ok((a, b)) => two_places(inner@) == Some((a.model(), b.model())),
            Err(e) => two_places(inner@) is None && e.fail() == Fail::Invalid,
        },
{
    let (first, second) = match split_once(inner, ",".as_bytes()) {
        Some(p) => p,
        None => return Err(AsmError::Invalid("this operation requires two comma-separated arguments")),
    };
    let lhs = match parse_place_bytes(trim(first)) {
        Ok(p) => p,
        Err(e) => return Err(quoting_because("could not parse first argument place expression", &[], "", e.as_bytes())),
    };
    let rhs = match parse_place_bytes(trim(second)) {
        Ok(p) => p,
        Err(e) => return Err(quoting_because("could not parse second argument place expression", &[], "", e.as_bytes())),
    };
    Ok((lhs, rhs))
}

impl Program {
    fn setup_part(&mut self, p: &[u8]) -> (r: Result<(), AsmError>)
        requires
            old(self).wf(),
        ensures
            final(self).wf(),
            r is Err ==> final(self).model() == old(self).model(),
            match r {
                Ok(()) => spec_setup_part(old(self).model(), p@) == Ok::<ProgramModel, Fail>(final(self).model()),
                Err(e) => spec_setup_part(old(self).model(), p@) == Err::<ProgramModel, Fail>(e.fail()),
            },
    {
        if let Some((l, r)) = split_once(p, " ^= ".as_bytes()) {
            self.parse_xor(l, r)
        } else if let Some((l, r)) = split_once(p, " = ".as_bytes()) {
            self.parse_assign(l, r)
        } else {
            Err(
                AsmError::Invalid(
                    "calls must only include assignment or XOR statements separated by commas (e.g, `@syscall(eax = 60, edi ^= edi)`",
                ),
            )
        }
    }

    /// The set-up of a call (see `spec_call_setup`).
    pub fn parse_call_setup(&mut self, inner: &[u8]) -> (r: Result<(), AsmError>)
        requires
            old(self).wf(),
        ensures
            final(self).wf(),
            r is Err ==> final(self).model() == old(self).model(),
            match r {
                Ok(()) => spec_call_setup(old(self).model(), inner@) == Ok::<ProgramModel, Fail>(final(self).model()),
                Err(e) => spec_call_setup(old(self).model(), inner@) == Err::<ProgramModel, Fail>(e.fail()),
            },
    {
        let saved = self.snapshot();
        let r = self.call_setup_steps(inner);
        if r.is_err() {
            *self = saved;
        }
        r
    }

    /// The parts of a call's set-up one after the other; a failure leaves the parts before
    /// it assembled.
    fn call_setup_steps(&mut self, inner: &[u8]) -> (r: Result<(), AsmError>)
        requires
            old(self).wf(),
        ensures
            final(self).wf(),
            match r {
                Ok(()) => spec_call_setup(old(self).model(), inner@) == Ok::<ProgramModel, Fail>(final(self).model()),
                Err(e) => spec_call_setup(old(self).model(), inner@) == Err::<ProgramModel, Fail>(e.fail()),
            },
    {
        if inner.len() == 0 {
            return Ok(());
        }
        let ghost m0 = self.model();
        let sep = bytes2(0x2c, 0x20);
        let mut s = inner;
        loop
            invariant
                self.wf(),
                old(self).model() == m0,
                inner@.len() > 0,
                sep@ == comma_sep(),
                spec_call_setup(m0, inner@) == spec_setup_parts(self.model(), s@),
            decreases s.len(),
        {
            match find(s, sep.as_slice()) {
                Some(i) => {
                    proof {
                        lemma_find_from_bounds(s@, comma_sep(), 0);
                    }
                    let part = vstd::slice::slice_subrange(s, 0, i);
                    self.setup_part(part)?;
                    s = vstd::slice::slice_subrange(s, i + 2, s.len());
                },
                None => return self.setup_part(s),
            }
        }
    }

    /// An indirect call (see `spec_parse_virtual_call`).
    pub fn parse_virtual_call(&mut self, lvalue: &[u8], inner: &[u8]) -> (r: Result<(), AsmError>)
        requires
            old(self).wf(),
        ensures
            final(self).wf(),
            r is Err ==> final(self).model() == old(self).model(),
            match r {
                Ok(()) => spec_parse_virtual_call(old(self).model(), lvalue@, inner@)
                    == Ok::<ProgramModel, Fail>(final(self).model()),
                Err(e) => spec_parse_virtual_call(old(self).model(), lvalue@, inner@)
                    == Err::<ProgramModel, Fail>(e.fail()),
            },
    {
        let lhs = match place_from(lvalue) {
            Some(p) => p,
            None => return Err(AsmError::Invalid("could not parse place expression")),
        };
        if matches!(invalid(lhs.assert_size())?, Size::Qword) {
            let saved = self.snapshot();
            if let Err(e) = self.call_setup_steps(inner) {
                *self = saved;
                return Err(e);
            }
            let r = self.unary(0xff, false, Some(2), lhs, true);
            if r.is_err() {
                *self = saved;
            }
            r
        } else {
            Err(AsmError::Invalid("only a 64-bit place can be called"))
        }
    }

    /// A call to a label (see `spec_parse_call`).
    #[verifier::rlimit(30)]
    pub fn parse_call(&mut self, name: &[u8], inner: &[u8]) -> (r: Result<(), AsmError>)
        requires
            old(self).wf(),
        ensures
            final(self).wf(),
            r is Err ==> final(self).model() == old(self).model(),
            match r {
                Ok(()) => spec_parse_call(old(self).model(), name@, inner@) == Ok::<ProgramModel, Fail>(
                    final(self).model(),
                ),
                Err(e) => spec_parse_call(old(self).model(), name@, inner@) == Err::<ProgramModel, Fail>(
                    e.fail(),
                ),
            },
    {
        let saved = self.snapshot();
        if let Err(e) = self.call_setup_steps(inner) {
            *self = saved;
            return Err(e);
        }
        let i = match self.label_index(name) {
            Some(i) => i,
            None => {
                *self = saved;
                return Err(quoting("", name, " is not defined"));
            },
        };
        let ghost m2 = self.model();
        self.push_bytes(bytes3(0xe8, 0, 0).as_slice());
        self.push_bytes(bytes2(0, 0).as_slice());
        assert(m2.emit(seq![0xe8u8, 0u8, 0u8]).emit(seq![0u8, 0u8]) == m2.emit(
            seq![0xe8u8, 0u8, 0u8, 0u8, 0u8],
        ));
        let len = self.code.len();
        self.label_refs.push((i, len, len));
        Ok(())
    }

    /// `@divmod` and `@unsigned_divmod` (see `spec_parse_divmod`).
    pub fn parse_divmod(&mut self, inner: &[u8], signed: bool) -> (r: Result<(), AsmError>)
        requires
            old(self).wf(),
        ensures
            final(self).wf(),
            r is Err ==> final(self).model() == old(self).model(),
            match r {
                Ok(()) => spec_parse_divmod(old(self).model(), inner@, signed) == Ok::<ProgramModel, Fail>(
                    final(self).model(),
                ),
                Err(e) => spec_parse_divmod(old(self).model(), inner@, signed) == Err::<
                    ProgramModel,
                    Fail,
                >(e.fail()),
            },
    {
        let (lhs, rhs) = match split_once(inner, ", ".as_bytes()) {
            Some(p) => p,
            None => return Err(
                AsmError::Invalid("@divmod must be used with two arguments (e.g. `@divmod(edx:eax, rcx))"),
            ),
        };
        let place = match place_from(trim(rhs)) {
            Some(p) => p,
            None => return Err(AsmError::Invalid("the second argument must be a place expression")),
        };
        let pair = match invalid(place.assert_size())? {
            Size::Byte => "ah:al".as_bytes(),
            Size::Word => "dx:ax".as_bytes(),
            Size::Dword => "edx:eax".as_bytes(),
            Size::Qword => "rdx:rax".as_bytes(),
        };
        if !bytes_eq(lhs, pair) {
            return Err(AsmError::Invalid("the first argument must be the register pair of the operand size"));
        }
        let ext: u8 = if signed {
            7
        } else {
            6
        };
        self.parse_basic_unary(rhs, 0xf6, ext, false)
    }

    /// `@widen_mul` and `@unsigned_widen_mul` (see `spec_parse_widen_mul`).
    pub fn parse_widen_mul(&mut self, inner: &[u8], signed: bool) -> (r: Result<(), AsmError>)
        requires
            old(self).wf(),
        ensures
            final(self).wf(),
            r is Err ==> final(self).model() == old(self).model(),
            match r {
                Ok(()) => spec_parse_widen_mul(old(self).model(), inner@, signed)
                    == Ok::<ProgramModel, Fail>(final(self).model()),
                Err(e) => spec_parse_widen_mul(old(self).model(), inner@, signed)
                    == Err::<ProgramModel, Fail>(e.fail()),
            },
    {
        let (first, second) = match split_once(inner, ",".as_bytes()) {
            Some(p) => p,
            None => return Err(AsmError::Invalid("this operation requires two comma-separated arguments")),
        };
        let target = match parse_place_bytes(trim(second)) {
            Ok(p) => p,
            Err(e) => return Err(quoting_because("could not parse second argument place expression", &[], "", e.as_bytes())),
        };
        let pair = trim(first);
        let size = if bytes_eq(pair, "ah:al".as_bytes()) {
            Size::Byte
        } else if bytes_eq(pair, "dx:ax".as_bytes()) {
            Size::Word
        } else if bytes_eq(pair, "edx:eax".as_bytes()) {
            Size::Dword
        } else if bytes_eq(pair, "rdx:rax".as_bytes()) {
            Size::Qword
        } else {
            return Err(
                AsmError::Invalid(
                    "invalid arguments; the first argument must be either ah:al, dx:ax, edx:eax, or rdx:rax",
                ),
            );
        };
        match target.size() {
            Some(s) => if s != size {
                return Err(AsmError::Invalid("the register pair does not match the operand size"));
            },
            None => {},
        }
        let opcode: u8 = if size == Size::Byte {
            0xf6
        } else {
            0xf7
        };
        let ext: u8 = if signed {
            5
        } else {
            4
        };
        self.unary_with_size(opcode, false, Some(ext), target, false, size)
    }

    /// `@swap` (see `spec_parse_xchg`).
    pub fn parse_xchg(&mut self, inner: &[u8]) -> (r: Result<(), AsmError>)
        requires
            old(self).wf(),
        ensures
            final(self).wf(),
            r is Err ==> final(self).model() == old(self).model(),
            match r {
                Ok(()) => spec_parse_xchg(old(self).model(), inner@) == Ok::<ProgramModel, Fail>(
                    final(self).model(),
                ),
                Err(e) => spec_parse_xchg(old(self).model(), inner@) == Err::<ProgramModel, Fail>(
                    e.fail(),
                ),
            },
    {
        let (lhs, rhs) = two_places_exec(inner)?;
        let size = invalid(lhs.coerce_size(rhs))?;
        let partner = if matches!(lhs, PlaceOf::Reg16(Register::Ax)) && rhs.is_register() {
            Some(rhs)
        } else if matches!(rhs, PlaceOf::Reg16(Register::Ax)) && lhs.is_register() {
            Some(lhs)
        } else if matches!(lhs, PlaceOf::Reg32(Register::Eax)) && rhs.is_register() {
            Some(rhs)
        } else if matches!(rhs, PlaceOf::Reg32(Register::Eax)) && lhs.is_register() {
            Some(lhs)
        } else if matches!(lhs, PlaceOf::Reg64(Register::Rax)) && rhs.is_register() {
            Some(rhs)
        } else if matches!(rhs, PlaceOf::Reg64(Register::Rax)) && lhs.is_register() {
            Some(lhs)
        } else {
            None
        };
        match partner {
            Some(p) => match p.register() {
                Some(reg) => self.unary_with_size(0x90 + low3(reg.id()), false, None, p, false, size),
                None => Err(AsmError::Internal("the exchanged operand is a register")),
            },
            None => if size == Size::Byte {
                self.binary_with_size(0x86, false, lhs, rhs, false, size)
            } else {
                self.binary_with_size(0x87, false, lhs, rhs, false, size)
            },
        }
    }

    /// `@swap_add` (see `spec_parse_xadd`).
    pub fn parse_xadd(&mut self, inner: &[u8], atomic: bool) -> (r: Result<(), AsmError>)
        requires
            old(self).wf(),
        ensures
            final(self).wf(),
            r is Err ==> final(self).model() == old(self).model(),
            match r {
                Ok(()) => spec_parse_xadd(old(self).model(), inner@, atomic) == Ok::<ProgramModel, Fail>(
                    final(self).model(),
                ),
                Err(e) => spec_parse_xadd(old(self).model(), inner@, atomic) == Err::<ProgramModel, Fail>(
                    e.fail(),
                ),
            },
    {
        let (lhs, rhs) = two_places_exec(inner)?;
        if !rhs.is_register() {
            return Err(AsmError::Invalid("the second argument must be a register in this operation"));
        }
        if atomic {
            invalid(crate::place::PlaceOf::assert_atomic_compatible(lhs, rhs))?;
        }
        let size = invalid(lhs.coerce_size(rhs))?;
        let start = self.code.len();
        if atomic {
            self.push_byte(0xf0);
        }
        let opcode: u8 = if size == Size::Byte {
            0xc0
        } else {
            0xc1
        };
        let r = self.binary_with_size(opcode, true, lhs, rhs, false, size);
        if r.is_err() {
            self.truncate_code(start);
            assert(self.model().code =~= old(self).model().code);
        }
        r
    }

    /// `@try_replace` (see `spec_parse_try_replace`).
    pub fn parse_try_replace(&mut self, inner: &[u8], atomic: bool) -> (r: Result<(), AsmError>)
        requires
            old(self).wf(),
        ensures
            final(self).wf(),
            r is Err ==> final(self).model() == old(self).model(),
            match r {
                Ok(()) => spec_parse_try_replace(old(self).model(), inner@, atomic)
                    == Ok::<ProgramModel, Fail>(final(self).model()),
                Err(e) => spec_parse_try_replace(old(self).model(), inner@, atomic)
                    == Err::<ProgramModel, Fail>(e.fail()),
            },
    {
        let (first, rest) = match split_once(inner, ",".as_bytes()) {
            Some(p) => p,
            None => return Err(AsmError::Invalid("this operation requires three comma-separated arguments")),
        };
        let (second, third) = match split_once(rest, ",".as_bytes()) {
            Some(p) => p,
            None => return Err(AsmError::Invalid("this operation requires three comma-separated arguments")),
        };
        let lhs = match parse_place_bytes(trim(first)) {
            Ok(p) => p,
            Err(e) => return Err(quoting_because("could not parse first argument place expression", &[], "", e.as_bytes())),
        };
        let rhs = match parse_place_bytes(trim(second)) {
            Ok(p) => p,
            Err(e) => return Err(quoting_because("could not parse second argument place expression", &[], "", e.as_bytes())),
        };
        if !rhs.is_register() {
            return Err(AsmError::Invalid("the second argument must be a register in this operation"));
        }
        if atomic {
            invalid(crate::place::PlaceOf::assert_atomic_compatible(lhs, rhs))?;
        }
        let size = invalid(lhs.coerce_size(rhs))?;
        let acc = match size {
            Size::Byte => "al".as_bytes(),
            Size::Word => "ax".as_bytes(),
            Size::Dword => "eax".as_bytes(),
            Size::Qword => "rax".as_bytes(),
        };
        if !bytes_eq(trim(third), acc) {
            return Err(AsmError::Invalid("the third argument must be the accumulator of the operand size"));
        }
        let opcode: u8 = if size == Size::Byte {
            0xb0
        } else {
            0xb1
        };
        let start = self.code.len();
        if atomic {
            self.push_byte(0xf0);
        }
        let r = self.binary_with_size(opcode, true, lhs, rhs, false, size);
        if r.is_err() {
            self.truncate_code(start);
            assert(self.model().code =~= old(self).model().code);
        }
        r
    }

    /// `@set_flags` (see `spec_set_flags`).
    pub fn parse_set_flags(&mut self, inner: &[u8]) -> (r: Result<(), AsmError>)
        requires
            old(self).wf(),
        ensures
            final(self).wf(),
            r is Err ==> final(self).model() == old(self).model(),
            match r {
                Ok(()) => spec_set_flags(old(self).model(), inner@) == Ok::<ProgramModel, Fail>(
                    final(self).model(),
                ),
                Err(e) => spec_set_flags(old(self).model(), inner@) == Err::<ProgramModel, Fail>(
                    e.fail(),
                ),
            },
    {
        if let Some((first, rest)) = split_once(inner, " & ".as_bytes()) {
            return self.parse_test(first, rest);
        }
        let ghost m = self.model();
        let sep = bytes3(0x20, 0x2d, 0x20);
        let mut from: usize = 0;
        loop
            invariant
                self.wf(),
                self.model() == m,
                old(self).model() == m,
                sep@ == minus_sep(),
                from <= inner.len() + 1,
                spec_set_flags(m, inner@) == spec_compare_search(m, inner@, from as int),
            decreases inner.len() + 1 - from,
        {
            let pos = match find_from(inner, sep.as_slice(), from) {
                Some(pos) => pos,
                None => return Err(
                    AsmError::Invalid(
                        "@set_flags must be used with two arguments combined with \" - \" or \" & \", e.g. @set_flags(rax - rdi[5])",
                    ),
                ),
            };
            proof {
                lemma_find_from_bounds(inner@, minus_sep(), from as int);
            }
            let first = trim(vstd::slice::slice_subrange(inner, 0, pos));
            if place_from(first).is_some() {
                let rest = trim(vstd::slice::slice_subrange(inner, pos + sep.len(), inner.len()));
                return self.parse_compare(first, rest);
            }
            from = pos + sep.len();
        }
    }

    fn builtin_function(&mut self, inner: &[u8], encoding: Vec<u8>, atomic: bool) -> (r: Result<(), AsmError>)
        requires
            old(self).wf(),
        ensures
            final(self).wf(),
            r is Err ==> final(self).model() == old(self).model(),
            match r {
                Ok(()) => spec_builtin_function(old(self).model(), inner@, encoding@, atomic)
                    == Ok::<ProgramModel, Fail>(final(self).model()),
                Err(e) => spec_builtin_function(old(self).model(), inner@, encoding@, atomic)
                    == Err::<ProgramModel, Fail>(e.fail()),
            },
    {
        if atomic {
            return Err(AsmError::Invalid("this operation cannot be performed atomically"));
        }
        self.parse_call_setup(inner)?;
        self.push_bytes(encoding.as_slice());
        Ok(())
    }

    fn rdrand(&mut self, inner: &[u8], ext: u8, atomic: bool) -> (r: Result<(), AsmError>)
        requires
            old(self).wf(),
        ensures
            final(self).wf(),
            r is Err ==> final(self).model() == old(self).model(),
            match r {
                Ok(()) => spec_rdrand(old(self).model(), inner@, ext, atomic) == Ok::<ProgramModel, Fail>(
                    final(self).model(),
                ),
                Err(e) => spec_rdrand(old(self).model(), inner@, ext, atomic) == Err::<ProgramModel, Fail>(
                    e.fail(),
                ),
            },
    {
        if atomic {
            return Err(AsmError::Invalid("this operation cannot be performed atomically"));
        }
        if let Some(reg) = place_from(inner) {
            if matches!(reg, PlaceOf::Reg16(_) | PlaceOf::Reg32(_) | PlaceOf::Reg64(_)) {
                return self.unary(0xc7, true, Some(ext), reg, false);
            }
        }
        Err(AsmError::Invalid("rdrand and rdseed must be used with a 16-bit, 32-bit, or 64-bit register"))
    }

    /// A builtin `@name(inner)` (see `spec_parse_builtin`).
    pub fn parse_builtin(&mut self, name: &[u8], inner: &[u8], atomic: bool) -> (r: Result<(), AsmError>)
        requires
            old(self).wf(),
        ensures
            final(self).wf(),
            r is Err ==> final(self).model() == old(self).model(),
            match r {
                Ok(()) => spec_parse_builtin(old(self).model(), name@, inner@, atomic)
                    == Ok::<ProgramModel, Fail>(final(self).model()),
                Err(e) => spec_parse_builtin(old(self).model(), name@, inner@, atomic)
                    == Err::<ProgramModel, Fail>(e.fail()),
            },
    {
        proof {
            reveal(spec_parse_builtin);
        }
        let inner = trim(inner);
        if let Some(enc) = builtin_encoding_exec(name) {
            self.builtin_function(inner, enc, atomic)
        } else if bytes_eq(name, "raw".as_bytes()) {
            if atomic {
                return Err(AsmError::Invalid("this operation cannot be performed atomically"));
            }
            match parse_string_bytes(inner) {
                Ok(raw) => {
                    self.push_bytes(raw.as_slice());
                    Ok(())
                },
                Err(e) => Err(quoting("@raw() must contain a valid string (", e.as_slice(), ")")),
            }
        } else if bytes_eq(name, "random".as_bytes()) {
            self.rdrand(inner, 6, atomic)
        } else if bytes_eq(name, "random_seed".as_bytes()) {
            self.rdrand(inner, 7, atomic)
        } else if bytes_eq(name, "negate".as_bytes()) {
            self.parse_neg(inner, atomic)
        } else if bytes_eq(name, "not".as_bytes()) {
            self.parse_not(inner, atomic)
        } else {
            self.parse_builtin_rest(name, inner, atomic)
        }
    }

    fn parse_builtin_rest(&mut self, name: &[u8], inner: &[u8], atomic: bool) -> (r: Result<(), AsmError>)
        requires
            old(self).wf(),
        ensures
            final(self).wf(),
            r is Err ==> final(self).model() == old(self).model(),
            match r {
                Ok(()) => spec_parse_builtin_rest(old(self).model(), name@, inner@, atomic)
                    == Ok::<ProgramModel, Fail>(final(self).model()),
                Err(e) => spec_parse_builtin_rest(old(self).model(), name@, inner@, atomic)
                    == Err::<ProgramModel, Fail>(e.fail()),
            },
    {
        if bytes_eq(name, "swap_add".as_bytes()) {
            return self.parse_xadd(inner, atomic);
        } else if bytes_eq(name, "try_replace".as_bytes()) {
            return self.parse_try_replace(inner, atomic);
        }
        let divmod = bytes_eq(name, "divmod".as_bytes());
        let unsigned_divmod = bytes_eq(name, "unsigned_divmod".as_bytes());
        let widen_mul = bytes_eq(name, "widen_mul".as_bytes());
        let unsigned_widen_mul = bytes_eq(name, "unsigned_widen_mul".as_bytes());
        let swap = bytes_eq(name, "swap".as_bytes());
        let set_flags = bytes_eq(name, "set_flags".as_bytes());
        let set_direction = bytes_eq(name, "set_direction".as_bytes());
        if !(divmod || unsigned_divmod || widen_mul || unsigned_widen_mul || swap || set_flags
            || set_direction) {
            return Err(quoting("invalid command: ", name, ""));
        }
        if atomic {
            return Err(AsmError::Invalid("this operation cannot be performed atomically"));
        }
        if divmod {
            self.parse_divmod(inner, true)
        } else if unsigned_divmod {
            self.parse_divmod(inner, false)
        } else if widen_mul {
            self.parse_widen_mul(inner, true)
        } else if unsigned_widen_mul {
            self.parse_widen_mul(inner, false)
        } else if swap {
            self.parse_xchg(inner)
        } else if set_flags {
            self.parse_set_flags(inner)
        } else if bytes_eq(inner, "forwards".as_bytes()) || bytes_eq(inner, "forward".as_bytes()) {
            self.push_byte(0xfc);
            Ok(())
        } else if bytes_eq(inner, "backwards".as_bytes()) || bytes_eq(inner, "backward".as_bytes()) {
            self.push_byte(0xfd);
            Ok(())
        } else {
            Err(AsmError::Invalid("invalid value; allowed parameters are 'forwards' and 'backwards'"))
        }
    }
}

} // verus!
