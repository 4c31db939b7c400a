//! Lines: declarations (statics, functions, labels), blocks and jumps, and the dispatch of
//! a line to the instruction it writes.
use vstd::prelude::*;
use vstd::string::StringSliceAdditionalSpecFns;

use crate::immediate::ImmediateModel;
use crate::opcodes::{
    error_if_atomic, extract_atomic_suffix, jmp_opcode, spec_extract_atomic_suffix,
    spec_jmp_opcode,
};
use crate::place::lit;
use crate::program::assign::spec_parse_assign;
use crate::program::builtins::{spec_parse_builtin, spec_parse_call, spec_parse_virtual_call};
use crate::program::encode::{le32, opt_byte};
use crate::program::immediates::spec_try_resolve_imm;
use crate::program::instructions::{
    bytes1, bytes2, bytes3, le32_vec, spec_parse_basic, spec_parse_basic_shift,
    spec_parse_basic_unary, spec_parse_imul_inplace, spec_parse_pop, spec_parse_push,
};
use crate::program::{
    AsmError, Fail, quoting, Global, GlobalModel, Outcome, Program, ProgramModel, undefined_location,
};
use crate::registers::{Register, spec_register_named};
use crate::text::{
    allowed_identifier, bytes_eq, ends_with, overwrite, spec_allowed_identifier, spec_split_once,
    spec_strip_prefix, spec_strip_suffix, spec_trim, split_once, starts_with, strip_prefix,
    strip_suffix, to_vec, trim,
};

verus! {

/// The words that cannot name a static, function or label.
pub open spec fn is_keyword(s: Seq<u8>) -> bool {
    s == lit("if") || s == lit("function") || s == lit("break") || s == lit("continue") || s == lit(
        "goto",
    ) || s == lit("return") || s == lit("trap") || s == lit("static") || s == lit("pause") || s
        == lit("atomically")
}

/// A new name, trimmed: an identifier that is no register, no keyword, and not yet taken.
pub open spec fn spec_check_identifier(m: ProgramModel, s: Seq<u8>) -> Result<Seq<u8>, Fail> {
    let ident = spec_trim(s);
    if !spec_allowed_identifier(ident) || spec_register_named(ident) is Some || is_keyword(ident)
        || m.is_defined(ident) {
        Err(Fail::Invalid)
    } else {
        Ok(ident)
    }
}

impl ProgramModel {
    /// The program with a new static.
    pub open spec fn add_global(self, name: Seq<u8>, data: Seq<u8>) -> ProgramModel {
        ProgramModel { globals: self.globals.push(GlobalModel { name, data }), ..self }
    }

    /// The program with a new label whose location is not known yet.
    pub open spec fn add_label(self, name: Seq<u8>) -> ProgramModel {
        ProgramModel {
            labels: self.labels.push(name),
            label_locations: self.label_locations.push(undefined_location()),
            ..self
        }
    }

    /// The program with a block opened at the current end of the code.
    pub open spec fn open_block(self) -> ProgramModel {
        ProgramModel { blocks: self.blocks.push((self.len(), seq![])), ..self }
    }
}

/// `static name = value`: a new static holding the immediate's bytes.
pub open spec fn spec_parse_static(m: ProgramModel, rest: Seq<u8>) -> Outcome {
    match spec_split_once(rest, lit("=")) {
        None => Err(Fail::Invalid),
        Some((first, value)) => match spec_check_identifier(m, first) {
            Err(f) => Err(f),
            Ok(name) => match spec_try_resolve_imm(m, value) {
                Err(f) => Err(f),
                Ok(None) => Err(Fail::Invalid),
                Ok(Some(imm)) => Ok(m.add_global(name, imm.spec_bytes())),
            },
        },
    }
}

/// `function name() {`: a new label.
pub open spec fn spec_parse_function(m: ProgramModel, rest: Seq<u8>) -> Outcome {
    match spec_strip_suffix(rest, lit("{")) {
        None => Err(Fail::Invalid),
        Some(r) => match spec_strip_suffix(spec_trim(r), lit("()")) {
            None => Err(Fail::Invalid),
            Some(name) => match spec_check_identifier(m, spec_trim(name)) {
                Err(f) => Err(f),
                Ok(ident) => Ok(m.add_label(ident)),
            },
        },
    }
}

/// `name:`: a new label.
pub open spec fn spec_parse_label(m: ProgramModel, rest: Seq<u8>) -> Outcome {
    match spec_check_identifier(m, spec_trim(rest)) {
        Err(f) => Err(f),
        Ok(ident) => Ok(m.add_label(ident)),
    }
}

/// `name: {`: a new label (the text before `{` is given).
pub open spec fn spec_parse_block_label(m: ProgramModel, rest: Seq<u8>) -> Outcome {
    match spec_strip_suffix(spec_trim(rest), lit(":")) {
        None => Err(Fail::Invalid),
        Some(label) => spec_parse_label(m, label),
    }
}

/// The declarations of a trimmed line, gathered before any code is written: statics,
/// functions and labels. Other lines change nothing.
#[verifier::opaque]
pub open spec fn spec_parse_global(m: ProgramModel, line: Seq<u8>) -> Outcome {
    if line == lit("{") {
        Ok(m)
    } else if let Some(rest) = spec_strip_prefix(line, lit("static ")) {
        spec_parse_static(m, rest)
    } else if let Some(rest) = spec_strip_prefix(line, lit("function ")) {
        spec_parse_function(m, rest)
    } else if let Some(rest) = spec_strip_suffix(line, lit(":")) {
        spec_parse_label(m, rest)
    } else if let Some(rest) = spec_strip_suffix(line, lit("{")) {
        spec_parse_block_label(m, rest)
    } else {
        Ok(m)
    }
}

/// `name(args)` when `name` is an identifier.
pub open spec fn spec_plain_call(rest: Seq<u8>) -> Option<(Seq<u8>, Seq<u8>, bool)> {
    match spec_split_once(rest, lit("(")) {
        None => None,
        Some((name, inner)) => if spec_allowed_identifier(name) {
            Some((spec_trim(name), spec_trim(inner), false))
        } else {
            None
        },
    }
}

/// A call: `(name)(args)` through a register (`true`), or `name(args)` (`false`), with
/// the name and the arguments trimmed. A line with `)(` that does not start with `(` is
/// no call.
pub open spec fn spec_parse_function_call(line: Seq<u8>) -> Option<(Seq<u8>, Seq<u8>, bool)> {
    match spec_strip_suffix(line, lit(")")) {
        None => None,
        Some(rest) => match spec_split_once(rest, lit(")(")) {
            Some((r, inner)) => match spec_strip_prefix(r, lit("(")) {
                None => None,
                Some(name) => if spec_allowed_identifier(name) {
                    Some((spec_trim(name), spec_trim(inner), true))
                } else {
                    spec_plain_call(rest)
                },
            },
            None => spec_plain_call(rest),
        },
    }
}

/// A jump with a 32-bit displacement left as zeros.
pub open spec fn jump_rel32(prefix: Option<u8>, opcode: u8) -> Seq<u8> {
    opt_byte(prefix) + seq![opcode, 0u8, 0u8, 0u8, 0u8]
}

/// `break [if /cond]`: a jump whose displacement is filled in when the innermost block
/// closes.
pub open spec fn spec_parse_break(m: ProgramModel, rest: Seq<u8>) -> Outcome {
    if m.blocks.len() == 0 {
        Err(Fail::Invalid)
    } else {
        match spec_jmp_opcode(spec_trim(rest), true) {
            Err(_) => Err(Fail::Invalid),
            Ok((prefix, opcode)) => if opcode == 0xe3 {
                Err(Fail::Invalid)
            } else {
                let m2 = m.emit(jump_rel32(prefix, opcode));
                let b = m2.blocks.last();
                Ok(ProgramModel { blocks: m2.blocks.drop_last().push((b.0, b.1.push(m2.len()))), ..m2 })
            },
        }
    }
}

/// The displacement of a jump back to `target` from code of length `n`, for a jump of
/// `len` bytes: it is measured from the end of the jump.
pub open spec fn back_displacement(n: int, len: nat, target: int) -> int {
    target - (n + len)
}

/// A jump back to `target`: the 8-bit form (`prefix`, opcode, displacement) when the
/// condition has one and its displacement fits, else the 32-bit form. A distance that does
/// not fit a 32-bit integer is an internal failure.
pub open spec fn spec_jump_back(m: ProgramModel, target: int, cond: Seq<u8>, reject_e3: bool) -> Outcome {
    let n = m.code.len() as int;
    if n + 6 > usize::MAX || target < 0 || target > n || n + 6 - target > i32::MAX {
        Err(Fail::Internal)
    } else {
        let short = spec_jmp_opcode(cond, false);
        let rel8 = match short {
            Ok((p, _)) => back_displacement(n, opt_byte(p).len() + 2, target),
            Err(_) => 0,
        };
        if short is Ok && -128 <= rel8 <= 127 {
            let (p, op) = short.unwrap();
            if reject_e3 && op == 0xe3 {
                Err(Fail::Invalid)
            } else {
                Ok(m.emit(opt_byte(p) + seq![op, (rel8 as i8) as u8]))
            }
        } else {
            match spec_jmp_opcode(cond, true) {
                Err(_) => Err(Fail::Invalid),
                Ok((p, op)) => Ok(
                    m.emit(
                        opt_byte(p) + seq![op] + le32(
                            back_displacement(n, opt_byte(p).len() + 5, target) as i32,
                        ),
                    ),
                ),
            }
        }
    }
}

/// `continue [if /cond]`: a jump back to the start of the innermost block.
pub open spec fn spec_parse_continue(m: ProgramModel, rest: Seq<u8>) -> Outcome {
    if m.blocks.len() == 0 {
        Err(Fail::Invalid)
    } else {
        spec_jump_back(m, m.blocks.last().0 as int, spec_trim(rest), false)
    }
}

/// `goto label [if /cond]`: a jump back to a label already placed, or a jump forward
/// whose displacement is recorded to be filled in.
pub open spec fn spec_parse_goto(m: ProgramModel, rest: Seq<u8>) -> Outcome {
    let (first, second) = match spec_split_once(spec_trim(rest), lit(" ")) {
        Some(p) => p,
        None => (rest, seq![]),
    };
    let ident = spec_trim(first);
    let cond = spec_trim(second);
    match m.label_index(ident) {
        None => Err(Fail::Invalid),
        Some(i) => if m.label_locations[i] == undefined_location() {
            match spec_jmp_opcode(cond, true) {
                Err(_) => Err(Fail::Invalid),
                Ok((prefix, opcode)) => if opcode == 0xe3 {
                    Err(Fail::Invalid)
                } else {
                    let m2 = m.emit(jump_rel32(prefix, opcode));
                    Ok(ProgramModel { label_refs: m2.label_refs.push((i as usize, m2.len(), m2.len())), ..m2 })
                },
            }
        } else {
            spec_jump_back(m, m.label_locations[i] as int, cond, true)
        },
    }
}

/// The code with the 32-bit displacement that ends at `loc` set to reach `end`.
pub open spec fn patch_rel32(code: Seq<u8>, loc: int, end: int) -> Result<Seq<u8>, Fail> {
    if loc < 4 || loc > code.len() || end < loc || end - loc > i32::MAX {
        Err(Fail::Internal)
    } else {
        Ok(code.subrange(0, loc - 4) + le32((end - loc) as i32) + code.subrange(loc, code.len() as int))
    }
}

/// The code with the displacements ending at each of `refs`, in order, set to reach `end`.
pub open spec fn patch_all(code: Seq<u8>, refs: Seq<usize>, end: int) -> Result<Seq<u8>, Fail>
    decreases refs.len(),
{
    if refs.len() == 0 {
        Ok(code)
    } else {
        match patch_all(code, refs.drop_last(), end) {
            Err(f) => Err(f),
            Ok(c) => patch_rel32(c, refs.last() as int, end),
        }
    }
}

/// `}`: the innermost block closes, and its `break`s are set to jump here.
pub open spec fn spec_close_block(m: ProgramModel) -> Outcome {
    if m.blocks.len() == 0 {
        Err(Fail::Invalid)
    } else {
        let m1 = ProgramModel { blocks: m.blocks.drop_last(), ..m };
        match patch_all(m.code, m.blocks.last().1, m.code.len() as int) {
            Err(f) => Err(f),
            Ok(c) => Ok(ProgramModel { code: c, ..m1 }),
        }
    }
}

/// The label `name` placed at the current end of the code; it must have been declared.
pub open spec fn spec_set_label(m: ProgramModel, name: Seq<u8>) -> Outcome {
    match m.label_index(name) {
        None => Err(Fail::Internal),
        Some(i) => Ok(ProgramModel { label_locations: m.label_locations.update(i, m.len()), ..m }),
    }
}

/// A line of source, trimmed: braces, `trap`, `pause`, `return`, `@builtin(...)`,
/// declarations (statics were handled before; functions and labels are placed here), or
/// an instruction (`spec_parse_statement`).
#[verifier::opaque]
pub open spec fn spec_parse_line(m: ProgramModel, line0: Seq<u8>) -> Outcome {
    let line = spec_trim(line0);
    if line == lit("{") {
        Ok(m.open_block())
    } else if line == lit("}") {
        spec_close_block(m)
    } else if line == lit("trap") {
        Ok(m.emit(seq![0x0fu8, 0x0bu8]))
    } else if line == lit("pause") {
        Ok(m.emit(seq![0xf3u8, 0x90u8]))
    } else if line == lit("return") {
        Ok(m.emit(seq![0xc3u8]))
    } else if let Some(rest) = spec_strip_prefix(line, lit("@")) {
        let (r, atomic) = spec_extract_atomic_suffix(rest);
        match spec_split_once(r, lit("(")) {
            None => Err(Fail::Invalid),
            Some((name, r2)) => match spec_strip_suffix(r2, lit(")")) {
                None => Err(Fail::Invalid),
                Some(inner) => spec_parse_builtin(m, name, inner, atomic),
            },
        }
    } else if spec_strip_prefix(line, lit("static ")) is Some {
        Ok(m)
    } else if let Some(rest) = spec_strip_prefix(line, lit("function ")) {
        match spec_split_once(rest, lit("(")) {
            None => Err(Fail::Internal),
            Some((name, _)) => spec_set_label(m.open_block(), name),
        }
    } else if let Some(rest) = spec_strip_suffix(line, lit("{")) {
        match spec_strip_suffix(spec_trim(rest), lit(":")) {
            None => Err(Fail::Internal),
            Some(name) => spec_set_label(m.open_block(), spec_trim(name)),
        }
    } else if let Some(rest) = spec_strip_suffix(line, lit(":")) {
        spec_set_label(m, spec_trim(rest))
    } else {
        spec_parse_statement(m, line)
    }
}

/// An instruction line: `<- src` (push), `-> dst` (pop), jumps, `x++`, `x--`, calls,
/// and assignments (`spec_parse_compound`).
#[verifier::opaque]
pub open spec fn spec_parse_statement(m: ProgramModel, line: Seq<u8>) -> Outcome {
    let atomic_line = ends_with(line, lit(" atomically"));
    if let Some(rest) = spec_strip_prefix(line, lit("<- ")) {
        if atomic_line {
            Err(Fail::Invalid)
        } else {
            spec_parse_push(m, rest)
        }
    } else if let Some(rest) = spec_strip_prefix(line, lit("-> ")) {
        if atomic_line {
            Err(Fail::Invalid)
        } else {
            spec_parse_pop(m, rest)
        }
    } else if let Some(rest) = spec_strip_prefix(line, lit("goto")) {
        spec_parse_goto(m, rest)
    } else if let Some(rest) = spec_strip_prefix(line, lit("continue")) {
        spec_parse_continue(m, rest)
    } else if let Some(rest) = spec_strip_prefix(line, lit("break")) {
        spec_parse_break(m, rest)
    } else if let Some(rest) = spec_strip_suffix(line, lit("++")) {
        spec_parse_basic_unary(m, rest, 0xfe, 0, false)
    } else if let Some(rest) = spec_strip_suffix(line, lit("--")) {
        spec_parse_basic_unary(m, rest, 0xfe, 1, false)
    } else {
        match spec_parse_function_call(line) {
            Some((name, inner, true)) => spec_parse_virtual_call(m, name, inner),
            Some((name, inner, false)) => spec_parse_call(m, name, inner),
            None => spec_parse_compound(m, line),
        }
    }
}

/// Assignments, in this order of operators: `<<=`, `>>=`, `>>>=`, `*=` (none of them
/// atomic), `^=`, `|=`, `&=`, `+=`, `-=`, `=` (not atomic); then `x++ atomically` and
/// `x-- atomically`.
pub open spec fn spec_parse_compound(m: ProgramModel, line: Seq<u8>) -> Outcome {
    let atomic_line = ends_with(line, lit(" atomically"));
    if let Some((l, r)) = spec_split_once(line, lit(" <<= ")) {
        if atomic_line {
            Err(Fail::Invalid)
        } else {
            spec_parse_basic_shift(m, l, r, 4)
        }
    } else if let Some((l, r)) = spec_split_once(line, lit(" >>= ")) {
        if atomic_line {
            Err(Fail::Invalid)
        } else {
            spec_parse_basic_shift(m, l, r, 7)
        }
    } else if let Some((l, r)) = spec_split_once(line, lit(" >>>= ")) {
        if atomic_line {
            Err(Fail::Invalid)
        } else {
            spec_parse_basic_shift(m, l, r, 5)
        }
    } else if let Some((l, r)) = spec_split_once(line, lit(" *= ")) {
        if atomic_line {
            Err(Fail::Invalid)
        } else {
            spec_parse_imul_inplace(m, l, r)
        }
    } else if let Some((l, r)) = spec_split_once(line, lit(" ^= ")) {
        spec_parse_basic(m, l, r, 0x34, 6, 0x30)
    } else if let Some((l, r)) = spec_split_once(line, lit(" |= ")) {
        spec_parse_basic(m, l, r, 0x0c, 1, 0x08)
    } else if let Some((l, r)) = spec_split_once(line, lit(" &= ")) {
        spec_parse_basic(m, l, r, 0x24, 4, 0x20)
    } else if let Some((l, r)) = spec_split_once(line, lit(" += ")) {
        spec_parse_basic(m, l, r, 0x04, 0, 0x00)
    } else if let Some((l, r)) = spec_split_once(line, lit(" -= ")) {
        spec_parse_basic(m, l, r, 0x2c, 5, 0x28)
    } else if let Some((l, r)) = spec_split_once(line, lit(" = ")) {
        if atomic_line {
            Err(Fail::Invalid)
        } else {
            spec_parse_assign(m, l, r)
        }
    } else if let Some(rest) = spec_strip_suffix(line, lit(" atomically")) {
        if let Some(x) = spec_strip_suffix(rest, lit("++")) {
            spec_parse_basic_unary(m, x, 0xfe, 0, true)
        } else if let Some(x) = spec_strip_suffix(rest, lit("--")) {
            spec_parse_basic_unary(m, x, 0xfe, 1, true)
        } else {
            Err(Fail::Invalid)
        }
    } else {
        Err(Fail::Invalid)
    }
}

/// A failed patch leaves every longer list of patches failed, always internally.
proof fn lemma_patch_all_err(code: Seq<u8>, refs: Seq<usize>, end: int, k: int)
    requires
        0 <= k <= refs.len(),
        patch_all(code, refs.subrange(0, k), end) is Err,
    ensures
        patch_all(code, refs, end) == Err::<Seq<u8>, Fail>(Fail::Internal),
    decreases refs.len() - k,
{
    lemma_patch_all_internal(code, refs.subrange(0, k), end);
    if k < refs.len() {
        assert(refs.subrange(0, k + 1).drop_last() =~= refs.subrange(0, k));
        lemma_patch_all_err(code, refs, end, k + 1);
    } else {
        assert(refs.subrange(0, k) =~= refs);
    }
}

/// Patching fails only internally.
proof fn lemma_patch_all_internal(code: Seq<u8>, refs: Seq<usize>, end: int)
    ensures
        patch_all(code, refs, end) is Err ==> patch_all(code, refs, end) == Err::<Seq<u8>, Fail>(
            Fail::Internal,
        ),
    decreases refs.len(),
{
    if refs.len() > 0 {
        lemma_patch_all_internal(code, refs.drop_last(), end);
    }
}

/// The call written as `line`, if it is one (see `spec_parse_function_call`).
pub fn parse_function_call(line: &[u8]) -> (r: Option<(&[u8], &[u8], bool)>)
    ensures
        match r {
            Some((a, b, v)) => spec_parse_function_call(line@) == Some((a@, b@, v)),
            None => spec_parse_function_call(line@) is None,
        },
{
    let rest = strip_suffix(line, ")".as_bytes())?;
    if let Some((r, inner)) = split_once(rest, ")(".as_bytes()) {
        let name = strip_prefix(r, "(".as_bytes())?;
        if allowed_identifier(name) {
            return Some((trim(name), trim(inner), true));
        }
    }
    let (name, inner) = split_once(rest, "(".as_bytes())?;
    if allowed_identifier(name) {
        return Some((trim(name), trim(inner), false));
    }
    None
}

fn is_keyword_exec(s: &[u8]) -> (r: bool)
    ensures
        r == is_keyword(s@),
{
    bytes_eq(s, "if".as_bytes()) || bytes_eq(s, "function".as_bytes()) || bytes_eq(
        s,
        "break".as_bytes(),
    ) || bytes_eq(s, "continue".as_bytes()) || bytes_eq(s, "goto".as_bytes()) || bytes_eq(
        s,
        "return".as_bytes(),
    ) || bytes_eq(s, "trap".as_bytes()) || bytes_eq(s, "static".as_bytes()) || bytes_eq(
        s,
        "pause".as_bytes(),
    ) || bytes_eq(s, "atomically".as_bytes())
}

impl Program {
    /// A new name (see `spec_check_identifier`).
    pub fn check_identifier<'a>(&self, s: &'a [u8]) -> (r: Result<&'a [u8], AsmError>)
        ensures
            match r {
                Ok(v) => spec_check_identifier(self.model(), s@) == Ok::<Seq<u8>, Fail>(v@),
                Err(e) => spec_check_identifier(self.model(), s@) == Err::<Seq<u8>, Fail>(e.fail()),
            },
    {
        let ident = trim(s);
        if !allowed_identifier(ident) {
            return Err(
                AsmError::Invalid("global name must contain A-Z, a-z, 0-9, or _ and start with a letter"),
            );
        }
        if Register::from_name(ident).is_some() {
            return Err(AsmError::Invalid("global name cannot be the same as a register name"));
        }
        if is_keyword_exec(ident) {
            return Err(AsmError::Invalid("identifier name clashes with a reserved keyword"));
        }
        if self.global_index(ident).is_some() || self.label_index(ident).is_some() {
            return Err(quoting("the identifier ", ident, " is already defined"));
        }
        Ok(ident)
    }

    fn add_label(&mut self, name: &[u8])
        requires
            old(self).wf(),
            old(self).model().label_index(name@) is None,
        ensures
            final(self).wf(),
            final(self).model() == old(self).model().add_label(name@),
    {
        proof {
            let ls = old(self).model().labels;
            crate::program::lemma_find_name_none(ls, name@, 0);
            assert forall|k: int| 0 <= k < old(self).labels@.len() implies old(self).labels@[k]@ != name@ by {
                assert(ls[k] == old(self).labels@[k]@);
            }
        }
        self.labels.push(to_vec(name));
        self.label_locations.push(usize::MAX);
        assert(self.model().labels =~= old(self).model().labels.push(name@));
        assert forall|i: int, j: int| 0 <= i < j < self.labels@.len() implies #[trigger] self.labels@[i]@
            != #[trigger] self.labels@[j]@ by {
            if j < old(self).labels@.len() {
                assert(old(self).labels@[i]@ != old(self).labels@[j]@);
            }
        }
    }

    /// `static name = value` (see `spec_parse_static`).
    pub fn parse_static(&mut self, rest: &[u8]) -> (r: Result<(), AsmError>)
        requires
            old(self).wf(),
        ensures
            final(self).wf(),
            r is Err ==> final(self).model() == old(self).model(),
            match r {
                Ok(()) => spec_parse_static(old(self).model(), rest@) == Ok::<ProgramModel, Fail>(
                    final(self).model(),
                ),
                Err(e) => spec_parse_static(old(self).model(), rest@) == Err::<ProgramModel, Fail>(
                    e.fail(),
                ),
            },
    {
        let (first, value) = match split_once(rest, "=".as_bytes()) {
            Some(p) => p,
            None => return Err(AsmError::Invalid("could not identify variable name")),
        };
        let name = self.check_identifier(first)?;
        let data = match self.try_resolve_imm(value)? {
            Some(imm) => imm,
            None => return Err(AsmError::Invalid("invalid value")),
        };
        proof {
            let gs = self.model().globals;
            crate::program::lemma_find_global_none(gs, name@, 0);
            assert forall|k: int| 0 <= k < self.globals@.len() implies self.globals@[k].name@ != name@ by {
                assert(gs[k].name == self.globals@[k].name@);
            }
        }
        let ghost before = self.globals@;
        let g = Global { name: to_vec(name), data: data.cast_unsized() };
        self.globals.push(g);
        assert forall|i: int, j: int| 0 <= i < j < self.globals@.len() implies #[trigger] self.globals@[i].name@
            != #[trigger] self.globals@[j].name@ by {
            if j < before.len() {
                assert(before[i].name@ != before[j].name@);
            }
        }
        assert(self.model().globals =~= old(self).model().globals.push(
            GlobalModel { name: name@, data: data.model().spec_bytes() },
        ));
        Ok(())
    }

    /// `function name() {` (see `spec_parse_function`).
    pub fn parse_function(&mut self, rest: &[u8]) -> (r: Result<(), AsmError>)
        requires
            old(self).wf(),
        ensures
            final(self).wf(),
            r is Err ==> final(self).model() == old(self).model(),
            match r {
                Ok(()) => spec_parse_function(old(self).model(), rest@) == Ok::<ProgramModel, Fail>(
                    final(self).model(),
                ),
                Err(e) => spec_parse_function(old(self).model(), rest@) == Err::<ProgramModel, Fail>(
                    e.fail(),
                ),
            },
    {
        let r = match strip_suffix(rest, "{".as_bytes()) {
            Some(r) => trim(r),
            None => return Err(AsmError::Invalid("missing \"{\"")),
        };
        let name = match strip_suffix(r, "()".as_bytes()) {
            Some(n) => trim(n),
            None => return Err(AsmError::Invalid("missing \"()\"")),
        };
        let ident = self.check_identifier(name)?;
        self.add_label(ident);
        Ok(())
    }

    /// `name:` (see `spec_parse_label`).
    pub fn parse_label(&mut self, rest: &[u8]) -> (r: Result<(), AsmError>)
        requires
            old(self).wf(),
        ensures
            final(self).wf(),
            r is Err ==> final(self).model() == old(self).model(),
            match r {
                Ok(()) => spec_parse_label(old(self).model(), rest@) == Ok::<ProgramModel, Fail>(
                    final(self).model(),
                ),
                Err(e) => spec_parse_label(old(self).model(), rest@) == Err::<ProgramModel, Fail>(
                    e.fail(),
                ),
            },
    {
        let ident = self.check_identifier(trim(rest))?;
        self.add_label(ident);
        Ok(())
    }

    /// `name: {` (see `spec_parse_block_label`).
    pub fn parse_block_label(&mut self, rest: &[u8]) -> (r: Result<(), AsmError>)
        requires
            old(self).wf(),
        ensures
            final(self).wf(),
            r is Err ==> final(self).model() == old(self).model(),
            match r {
                Ok(()) => spec_parse_block_label(old(self).model(), rest@) == Ok::<ProgramModel, Fail>(
                    final(self).model(),
                ),
                Err(e) => spec_parse_block_label(old(self).model(), rest@) == Err::<
                    ProgramModel,
                    Fail,
                >(e.fail()),
            },
    {
        match strip_suffix(trim(rest), ":".as_bytes()) {
            Some(label) => self.parse_label(label),
            None => Err(AsmError::Invalid("unexpected {")),
        }
    }

    /// The declarations of a trimmed line (see `spec_parse_global`).
    pub fn parse_global(&mut self, line: &[u8]) -> (r: Result<(), AsmError>)
        requires
            old(self).wf(),
        ensures
            final(self).wf(),
            r is Err ==> final(self).model() == old(self).model(),
            match r {
                Ok(()) => spec_parse_global(old(self).model(), line@) == Ok::<ProgramModel, Fail>(
                    final(self).model(),
                ),
                Err(e) => spec_parse_global(old(self).model(), line@) == Err::<ProgramModel, Fail>(
                    e.fail(),
                ),
            },
    {
        proof {
            reveal(spec_parse_global);
        }
        if bytes_eq(line, "{".as_bytes()) {
            Ok(())
        } else if let Some(rest) = strip_prefix(line, "static ".as_bytes()) {
            self.parse_static(rest)
        } else if let Some(rest) = strip_prefix(line, "function ".as_bytes()) {
            self.parse_function(rest)
        } else if let Some(rest) = strip_suffix(line, ":".as_bytes()) {
            self.parse_label(rest)
        } else if let Some(rest) = strip_suffix(line, "{".as_bytes()) {
            self.parse_block_label(rest)
        } else {
            Ok(())
        }
    }

    fn emit_jump_rel32(&mut self, prefix: Option<u8>, opcode: u8)
        requires
            old(self).wf(),
        ensures
            final(self).wf(),
            final(self).model() == old(self).model().emit(jump_rel32(prefix, opcode)),
    {
        let ghost m0 = self.model();
        if let Some(p) = prefix {
            self.push_byte(p);
        }
        self.push_bytes(bytes3(opcode, 0, 0).as_slice());
        self.push_bytes(bytes2(0, 0).as_slice());
        assert(self.model() == m0.emit(jump_rel32(prefix, opcode)));
    }

    /// `break` (see `spec_parse_break`).
    pub fn parse_break(&mut self, rest: &[u8]) -> (r: Result<(), AsmError>)
        requires
            old(self).wf(),
        ensures
            final(self).wf(),
            r is Err ==> final(self).model() == old(self).model(),
            match r {
                Ok(()) => spec_parse_break(old(self).model(), rest@) == Ok::<ProgramModel, Fail>(
                    final(self).model(),
                ),
                Err(e) => spec_parse_break(old(self).model(), rest@) == Err::<ProgramModel, Fail>(
                    e.fail(),
                ),
            },
    {
        let rest = trim(rest);
        if self.blocks.len() == 0 {
            return Err(AsmError::Invalid("`break` can only be used within a block"));
        }
        let (prefix, opcode) = match jmp_opcode(rest, true) {
            Ok(v) => v,
            Err(e) => return Err(e),
        };
        if opcode == 0xe3 {
            return Err(AsmError::Invalid("/ecx_zero and /rcx_zero are currently only supported with `continue`"));
        }
        self.emit_jump_rel32(prefix, opcode);
        let ghost m2 = self.model();
        let len = self.code.len();
        let (start, mut refs) = match self.blocks.pop() {
            Some(b) => b,
            None => return Err(AsmError::Internal("block stack emptied")),
        };
        refs.push(len);
        self.blocks.push((start, refs));
        assert(self.model().blocks =~= m2.blocks.drop_last().push(
            (m2.blocks.last().0, m2.blocks.last().1.push(len)),
        ));
        Ok(())
    }

    fn jump_back(&mut self, target: usize, cond: &[u8], reject_e3: bool) -> (r: Result<(), AsmError>)
        requires
            old(self).wf(),
        ensures
            final(self).wf(),
            r is Err ==> final(self).model() == old(self).model(),
            match r {
                Ok(()) => spec_jump_back(old(self).model(), target as int, cond@, reject_e3)
                    == Ok::<ProgramModel, Fail>(final(self).model()),
                Err(e) => spec_jump_back(old(self).model(), target as int, cond@, reject_e3)
                    == Err::<ProgramModel, Fail>(e.fail()),
            },
    {
        let ghost m0 = self.model();
        let n = self.code.len();
        if n > usize::MAX - 6 || target > n || n + 6 - target > 0x7fff_ffff {
            return Err(AsmError::Internal("jump distance out of range"));
        }
        // The distance back from six bytes past the end, the longest jump.
        let back: i64 = (n + 6 - target) as i64;
        if let Ok((p, op)) = jmp_opcode(cond, false) {
            let plen: i64 = if p.is_some() {
                1
            } else {
                0
            };
            let rel8: i64 = 6 - back - plen - 2;
            assert(rel8 == back_displacement(n as int, opt_byte(p).len() + 2, target as int));
            if -128 <= rel8 && rel8 <= 127 {
                if reject_e3 && op == 0xe3 {
                    return Err(
                        AsmError::Invalid("/ecx_zero and /rcx_zero are currently only supported with `continue`"),
                    );
                }
                if let Some(b) = p {
                    self.push_byte(b);
                }
                let v: i8 = rel8 as i8;
                self.push_bytes(bytes2(op, v as u8).as_slice());
                assert(self.model() == m0.emit(opt_byte(p) + seq![op, (rel8 as i8) as u8]));
                return Ok(());
            }
        }
        let (p, op) = match jmp_opcode(cond, true) {
            Ok(v) => v,
            Err(e) => return Err(e),
        };
        let plen: i64 = if p.is_some() {
            1
        } else {
            0
        };
        let rel32: i64 = 6 - back - plen - 5;
        assert(rel32 == back_displacement(n as int, opt_byte(p).len() + 5, target as int));
        if let Some(b) = p {
            self.push_byte(b);
        }
        self.push_byte(op);
        self.push_bytes(le32_vec(rel32 as i32).as_slice());
        assert(self.model() == m0.emit(opt_byte(p) + seq![op] + le32(rel32 as i32)));
        Ok(())
    }

    /// `continue` (see `spec_parse_continue`).
    pub fn parse_continue(&mut self, rest: &[u8]) -> (r: Result<(), AsmError>)
        requires
            old(self).wf(),
        ensures
            final(self).wf(),
            r is Err ==> final(self).model() == old(self).model(),
            match r {
                Ok(()) => spec_parse_continue(old(self).model(), rest@) == Ok::<ProgramModel, Fail>(
                    final(self).model(),
                ),
                Err(e) => spec_parse_continue(old(self).model(), rest@) == Err::<ProgramModel, Fail>(
                    e.fail(),
                ),
            },
    {
        let rest = trim(rest);
        let n = self.blocks.len();
        if n == 0 {
            return Err(AsmError::Invalid("`continue` can only be used within a block"));
        }
        let target = self.blocks[n - 1].0;
        self.jump_back(target, rest, false)
    }

    /// `goto` (see `spec_parse_goto`).
    pub fn parse_goto(&mut self, rest: &[u8]) -> (r: Result<(), AsmError>)
        requires
            old(self).wf(),
        ensures
            final(self).wf(),
            r is Err ==> final(self).model() == old(self).model(),
            match r {
                Ok(()) => spec_parse_goto(old(self).model(), rest@) == Ok::<ProgramModel, Fail>(
                    final(self).model(),
                ),
                Err(e) => spec_parse_goto(old(self).model(), rest@) == Err::<ProgramModel, Fail>(
                    e.fail(),
                ),
            },
    {
        let (first, second) = match split_once(trim(rest), " ".as_bytes()) {
            Some(p) => p,
            None => {
                let empty: &[u8] = &[];
                assert(empty@ =~= seq![]);
                (rest, empty)
            },
        };
        let ident = trim(first);
        let cond = trim(second);
        let i = match self.label_index(ident) {
            Some(i) => i,
            None => return Err(quoting("`", ident, "` is not defined as a label")),
        };
        let location = self.label_locations[i];
        if location == usize::MAX {
            let (prefix, opcode) = match jmp_opcode(cond, true) {
                Ok(v) => v,
                Err(e) => return Err(e),
            };
            if opcode == 0xe3 {
                return Err(
                    AsmError::Invalid("/ecx_zero and /rcx_zero are currently only supported with `continue`"),
                );
            }
            self.emit_jump_rel32(prefix, opcode);
            let len = self.code.len();
            self.label_refs.push((i, len, len));
            Ok(())
        } else {
            self.jump_back(location, cond, true)
        }
    }

    /// `}` (see `spec_close_block`).
    pub fn close_block(&mut self) -> (r: Result<(), AsmError>)
        requires
            old(self).wf(),
        ensures
            final(self).wf(),
            r is Err ==> final(self).model() == old(self).model(),
            match r {
                Ok(()) => spec_close_block(old(self).model()) == Ok::<ProgramModel, Fail>(final(self).model()),
                Err(e) => spec_close_block(old(self).model()) == Err::<ProgramModel, Fail>(e.fail()),
            },
    {
        let ghost m0 = self.model();
        let n = self.blocks.len();
        if n == 0 {
            return Err(AsmError::Invalid("encountered trailing }"));
        }
        let end = self.code.len();
        // Every displacement is checked before any is written.
        let ghost mut c = m0.code;
        let mut k: usize = 0;
        while k < self.blocks[n - 1].1.len()
            invariant
                self.wf(),
                self.model() == m0,
                old(self).model() == m0,
                n == self.blocks.len(),
                n > 0,
                end == m0.code.len(),
                k <= self.blocks@[n - 1].1.len(),
                self.blocks@[n - 1].1@ == m0.blocks.last().1,
                patch_all(m0.code, m0.blocks.last().1.subrange(0, k as int), end as int) == Ok::<Seq<u8>, Fail>(c),
                c.len() == end,
                forall|j: int|
                    0 <= j < k ==> 4 <= #[trigger] m0.blocks.last().1[j] <= end && end - m0.blocks.last().1[j]
                        <= 0x7fff_ffff,
            decreases self.blocks@[n - 1].1.len() - k,
        {
            let loc = self.blocks[n - 1].1[k];
            let ghost refs = m0.blocks.last().1;
            assert(refs.subrange(0, k + 1).drop_last() =~= refs.subrange(0, k as int));
            if loc < 4 || loc > end || end - loc > 0x7fff_ffff {
                proof {
                    assert(refs.subrange(0, k + 1).last() == loc);
                    assert(patch_all(m0.code, refs.subrange(0, k + 1), end as int) is Err);
                    lemma_patch_all_err(m0.code, refs, end as int, k + 1);
                }
                return Err(AsmError::Internal("a break displacement lies outside the code"));
            }
            proof {
                assert(refs.subrange(0, k + 1).last() == loc);
                crate::immediate::lemma_le_bytes_len((((end - loc) as i32) as u32) as nat, 4);
                c = c.subrange(0, loc - 4) + le32((end - loc) as i32) + c.subrange(loc as int, c.len() as int);
            }
            k += 1;
        }
        let (_, refs) = match self.blocks.pop() {
            Some(b) => b,
            None => return Err(AsmError::Internal("block stack emptied")),
        };
        assert(refs@ == m0.blocks.last().1);
        assert(self.model().blocks =~= m0.blocks.drop_last());
        let mut k: usize = 0;
        while k < refs.len()
            invariant
                self.wf(),
                old(self).model() == m0,
                m0.blocks.len() > 0,
                k <= refs.len(),
                end == m0.code.len(),
                self.code.len() == end,
                refs@ == m0.blocks.last().1,
                forall|j: int| 0 <= j < refs.len() ==> 4 <= #[trigger] refs@[j] <= end && end - refs@[j] <= 0x7fff_ffff,
                self.model() == (ProgramModel { code: self.code@, blocks: m0.blocks.drop_last(), ..m0 }),
                patch_all(m0.code, refs@.subrange(0, k as int), end as int) == Ok::<Seq<u8>, Fail>(
                    self.code@,
                ),
            decreases refs.len() - k,
        {
            let loc = refs[k];
            assert(refs@.subrange(0, k + 1).drop_last() =~= refs@.subrange(0, k as int));
            if loc < 4 || loc > end || end - loc > 0x7fff_ffff {
                proof {
                    assert(refs@.subrange(0, k + 1).last() == loc);
                    assert(patch_all(m0.code, refs@.subrange(0, k + 1), end as int) is Err);
                    lemma_patch_all_err(m0.code, refs@, end as int, k + 1);
                }
                return Err(AsmError::Internal("a break displacement lies outside the code"));
            }
            let ghost before = self.code@;
            let d = le32_vec((end - loc) as i32);
            proof {
                crate::immediate::lemma_le_bytes_len((((end - loc) as i32) as u32) as nat, 4);
            }
            overwrite(&mut self.code, loc - 4, d.as_slice());
            assert(self.code@ =~= before.subrange(0, loc - 4) + le32((end - loc) as i32)
                + before.subrange(loc as int, before.len() as int));
            assert(refs@.subrange(0, k + 1).last() == loc);
            k += 1;
        }
        assert(refs@.subrange(0, refs.len() as int) =~= refs@);
        Ok(())
    }

    fn set_label(&mut self, name: &[u8]) -> (r: Result<(), AsmError>)
        requires
            old(self).wf(),
        ensures
            final(self).wf(),
            r is Err ==> final(self).model() == old(self).model(),
            match r {
                Ok(()) => spec_set_label(old(self).model(), name@) == Ok::<ProgramModel, Fail>(final(self).model()),
                Err(e) => spec_set_label(old(self).model(), name@) == Err::<ProgramModel, Fail>(e.fail()),
            },
    {
        match self.label_index(name) {
            Some(i) => {
                let len = self.code.len();
                self.label_locations.set(i, len);
                Ok(())
            },
            None => Err(AsmError::Internal("the label was not declared")),
        }
    }

    fn open_block(&mut self)
        requires
            old(self).wf(),
        ensures
            final(self).wf(),
            final(self).model() == old(self).model().open_block(),
    {
        let len = self.code.len();
        self.blocks.push((len, Vec::new()));
        assert(self.model().blocks =~= old(self).model().blocks.push((len, seq![])));
    }

    /// Assembles one line of source (see `spec_parse_line`).
    pub fn parse_line(&mut self, line: &str) -> (r: Result<(), AsmError>)
        requires
            old(self).wf(),
        ensures
            final(self).wf(),
            r is Err ==> final(self).model() == old(self).model(),
            match r {
                Ok(()) => spec_parse_line(old(self).model(), line.spec_bytes())
                    == Ok::<ProgramModel, Fail>(final(self).model()),
                Err(e) => spec_parse_line(old(self).model(), line.spec_bytes())
                    == Err::<ProgramModel, Fail>(e.fail()),
            },
    {
        self.parse_line_bytes(line.as_bytes())
    }

    /// Assembles one line of source (see `spec_parse_line`).
    pub fn parse_line_bytes(&mut self, line0: &[u8]) -> (r: Result<(), AsmError>)
        requires
            old(self).wf(),
        ensures
            final(self).wf(),
            r is Err ==> final(self).model() == old(self).model(),
            match r {
                Ok(()) => spec_parse_line(old(self).model(), line0@) == Ok::<ProgramModel, Fail>(
                    final(self).model(),
                ),
                Err(e) => spec_parse_line(old(self).model(), line0@) == Err::<ProgramModel, Fail>(
                    e.fail(),
                ),
            },
    {
        proof {
            reveal(spec_parse_line);
        }
        let line = trim(line0);
        if bytes_eq(line, "{".as_bytes()) {
            self.open_block();
            Ok(())
        } else if bytes_eq(line, "}".as_bytes()) {
            self.close_block()
        } else if bytes_eq(line, "trap".as_bytes()) {
            self.push_bytes(bytes2(0x0f, 0x0b).as_slice());
            Ok(())
        } else if bytes_eq(line, "pause".as_bytes()) {
            self.push_bytes(bytes2(0xf3, 0x90).as_slice());
            Ok(())
        } else if bytes_eq(line, "return".as_bytes()) {
            self.push_bytes(bytes1(0xc3).as_slice());
            Ok(())
        } else if let Some(rest) = strip_prefix(line, "@".as_bytes()) {
            let (r, atomic) = extract_atomic_suffix(rest);
            let (name, r2) = match split_once(r, "(".as_bytes()) {
                Some(p) => p,
                None => return Err(AsmError::Invalid("invalid command")),
            };
            let inner = match strip_suffix(r2, ")".as_bytes()) {
                Some(i) => i,
                None => return Err(AsmError::Invalid("missing closing bracket")),
            };
            self.parse_builtin(name, inner, atomic)
        } else if strip_prefix(line, "static ".as_bytes()).is_some() {
            Ok(())
        } else if let Some(rest) = strip_prefix(line, "function ".as_bytes()) {
            match split_once(rest, "(".as_bytes()) {
                Some((name, _)) => {
                    if self.label_index(name).is_none() {
                        return Err(AsmError::Internal("the function was not declared"));
                    }
                    self.open_block();
                    self.set_label(name)
                },
                None => Err(AsmError::Internal("the function line was not declared")),
            }
        } else if let Some(rest) = strip_suffix(line, "{".as_bytes()) {
            match strip_suffix(trim(rest), ":".as_bytes()) {
                Some(name) => {
                    if self.label_index(trim(name)).is_none() {
                        return Err(AsmError::Internal("the block label was not declared"));
                    }
                    self.open_block();
                    self.set_label(trim(name))
                },
                None => Err(AsmError::Internal("the block label was not declared")),
            }
        } else if let Some(rest) = strip_suffix(line, ":".as_bytes()) {
            self.set_label(trim(rest))
        } else {
            self.parse_statement(line)
        }
    }

    fn parse_statement(&mut self, line: &[u8]) -> (r: Result<(), AsmError>)
        requires
            old(self).wf(),
        ensures
            final(self).wf(),
            r is Err ==> final(self).model() == old(self).model(),
            match r {
                Ok(()) => spec_parse_statement(old(self).model(), line@) == Ok::<ProgramModel, Fail>(
                    final(self).model(),
                ),
                Err(e) => spec_parse_statement(old(self).model(), line@) == Err::<ProgramModel, Fail>(
                    e.fail(),
                ),
            },
    {
        proof {
            reveal(spec_parse_statement);
        }
        if let Some(rest) = strip_prefix(line, "<- ".as_bytes()) {
            if error_if_atomic(line).is_err() {
                return Err(AsmError::Invalid("this operation cannot be performed atomically"));
            }
            self.parse_push(rest)
        } else if let Some(rest) = strip_prefix(line, "-> ".as_bytes()) {
            if error_if_atomic(line).is_err() {
                return Err(AsmError::Invalid("this operation cannot be performed atomically"));
            }
            self.parse_pop(rest)
        } else if let Some(rest) = strip_prefix(line, "goto".as_bytes()) {
            self.parse_goto(rest)
        } else if let Some(rest) = strip_prefix(line, "continue".as_bytes()) {
            self.parse_continue(rest)
        } else if let Some(rest) = strip_prefix(line, "break".as_bytes()) {
            self.parse_break(rest)
        } else if let Some(rest) = strip_suffix(line, "++".as_bytes()) {
            self.parse_inc(rest, false)
        } else if let Some(rest) = strip_suffix(line, "--".as_bytes()) {
            self.parse_dec(rest, false)
        } else {
            match parse_function_call(line) {
                Some((name, inner, true)) => self.parse_virtual_call(name, inner),
                Some((name, inner, false)) => self.parse_call(name, inner),
                None => self.parse_compound(line),
            }
        }
    }

    fn parse_compound(&mut self, line: &[u8]) -> (r: Result<(), AsmError>)
        requires
            old(self).wf(),
        ensures
            final(self).wf(),
            r is Err ==> final(self).model() == old(self).model(),
            match r {
                Ok(()) => spec_parse_compound(old(self).model(), line@) == Ok::<ProgramModel, Fail>(
                    final(self).model(),
                ),
                Err(e) => spec_parse_compound(old(self).model(), line@) == Err::<ProgramModel, Fail>(
                    e.fail(),
                ),
            },
    {
        let atomic_line = error_if_atomic(line).is_err();
        if let Some((l, r)) = split_once(line, " <<= ".as_bytes()) {
            if atomic_line {
                return Err(AsmError::Invalid("this operation cannot be performed atomically"));
            }
            self.parse_basic_shift(l, r, 4)
        } else if let Some((l, r)) = split_once(line, " >>= ".as_bytes()) {
            if atomic_line {
                return Err(AsmError::Invalid("this operation cannot be performed atomically"));
            }
            self.parse_basic_shift(l, r, 7)
        } else if let Some((l, r)) = split_once(line, " >>>= ".as_bytes()) {
            if atomic_line {
                return Err(AsmError::Invalid("this operation cannot be performed atomically"));
            }
            self.parse_basic_shift(l, r, 5)
        } else if let Some((l, r)) = split_once(line, " *= ".as_bytes()) {
            if atomic_line {
                return Err(AsmError::Invalid("this operation cannot be performed atomically"));
            }
            self.parse_imul_inplace(l, r)
        } else if let Some((l, r)) = split_once(line, " ^= ".as_bytes()) {
            self.parse_xor(l, r)
        } else if let Some((l, r)) = split_once(line, " |= ".as_bytes()) {
            self.parse_or(l, r)
        } else if let Some((l, r)) = split_once(line, " &= ".as_bytes()) {
            self.parse_and(l, r)
        } else if let Some((l, r)) = split_once(line, " += ".as_bytes()) {
            self.parse_add(l, r)
        } else if let Some((l, r)) = split_once(line, " -= ".as_bytes()) {
            self.parse_sub(l, r)
        } else if let Some((l, r)) = split_once(line, " = ".as_bytes()) {
            if atomic_line {
                return Err(AsmError::Invalid("this operation cannot be performed atomically"));
            }
            self.parse_assign(l, r)
        } else if let Some(rest) = strip_suffix(line, " atomically".as_bytes()) {
            if let Some(x) = strip_suffix(rest, "++".as_bytes()) {
                self.parse_inc(x, true)
            } else if let Some(x) = strip_suffix(rest, "--".as_bytes()) {
                self.parse_dec(x, true)
            } else {
                Err(AsmError::Invalid("unexpected `atomically` keyword"))
            }
        } else {
            Err(AsmError::Invalid("invalid command"))
        }
    }
}

} // verus!
