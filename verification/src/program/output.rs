//! The ELF image: its headers, the placement of statics after the code, the displacements
//! filled in once every address is known, and the assembly of a whole source text.
use vstd::prelude::*;
use vstd::string::StringSliceAdditionalSpecFns;

use crate::immediate::{le_bytes, le_bytes_of, le_value, le_value_of, lemma_le_bytes_len};
use crate::program::encode::le32;
use crate::program::instructions::{bytes1, le32_vec};
use crate::program::lines::{spec_parse_global, spec_parse_line};
use crate::program::{AsmError, Fail, GlobalModel, Program, ProgramModel};
use crate::strings::{spec_strip_comments, strip_comments_bytes};
use crate::text::{find, lemma_find_from_bounds, overwrite, spec_find, spec_trim, to_vec, trim};

verus! {

/// The ELF file header of a 64-bit little-endian Linux executable for x86-64, whose
/// entry point follows the headers and whose one program header follows it.
pub open spec fn elf_header() -> Seq<u8> {
    seq![
        0x7fu8, 0x45, 0x4c, 0x46, 2, 1, 1, 3, 0, 0, 0, 0, 0, 0, 0, 0,
        3, 0, 0x3e, 0, 1, 0, 0, 0,
        0x78, 0, 0, 0, 0, 0, 0, 0,
        0x40, 0, 0, 0, 0, 0, 0, 0,
        0, 0, 0, 0, 0, 0, 0, 0,
        0, 0, 0, 0,
        0x40, 0, 0x38, 0, 1, 0, 0x40, 0, 0, 0, 0, 0,
    ]
}

/// The one program header: a readable, writable and executable segment loaded from the
/// start of the file, whose sizes are written when the program is finished.
pub open spec fn program_header() -> Seq<u8> {
    seq![
        1u8, 0, 0, 0, 7, 0, 0, 0,
        0, 0, 0, 0, 0, 0, 0, 0,
        0, 0, 0, 0, 0, 0, 0, 0,
        0, 0, 0, 0, 0, 0, 0, 0,
        0, 0, 0, 0, 0, 0, 0, 0,
        0, 0, 0, 0, 0, 0, 0, 0,
        0, 0, 0, 0, 0, 0, 0, 0,
    ]
}

/// The signed 32-bit value stored little-endian in the four bytes before `loc`.
pub open spec fn read_i32(c: Seq<u8>, loc: int) -> i32 {
    (le_value(c.subrange(loc - 4, loc)) as u32) as i32
}

/// The code with the four bytes before `loc` replaced by `v`, little-endian.
pub open spec fn write_i32(c: Seq<u8>, loc: int, v: i32) -> Seq<u8> {
    c.subrange(0, loc - 4) + le32(v) + c.subrange(loc, c.len() as int)
}

/// A reference to a static placed at `offset`: the displacement before `loc`, relative to
/// `rip`, grows by the distance from `rip` to the static. A reference outside the code, or
/// a sum that overflows, is an internal failure.
pub open spec fn patch_global(c: Seq<u8>, loc: int, rip: int, offset: int) -> Result<Seq<u8>, Fail> {
    if loc < 4 || loc > c.len() || rip > offset {
        Err(Fail::Internal)
    } else {
        let net = read_i32(c, loc) + ((offset - rip) as i32);
        if net < i32::MIN || net > i32::MAX {
            Err(Fail::Internal)
        } else {
            Ok(write_i32(c, loc, net as i32))
        }
    }
}

/// The references to the static `i`, in the order they were recorded, patched.
pub open spec fn patch_global_refs(
    c: Seq<u8>,
    refs: Seq<(usize, usize, usize)>,
    i: int,
    offset: int,
) -> Result<Seq<u8>, Fail>
    decreases refs.len(),
{
    if refs.len() == 0 {
        Ok(c)
    } else {
        match patch_global_refs(c, refs.drop_last(), i, offset) {
            Err(f) => Err(f),
            Ok(c1) => if refs.last().0 == i {
                patch_global(c1, refs.last().1 as int, refs.last().2 as int, offset)
            } else {
                Ok(c1)
            },
        }
    }
}

/// The statics from `i` on, in order: each one's bytes appended to the code, then the
/// references to it patched.
pub open spec fn place_globals(
    c: Seq<u8>,
    gs: Seq<GlobalModel>,
    refs: Seq<(usize, usize, usize)>,
    i: int,
) -> Result<Seq<u8>, Fail>
    decreases gs.len() - i,
{
    if i < 0 || i >= gs.len() {
        Ok(c)
    } else {
        match patch_global_refs(c + gs[i].data, refs, i, c.len() as int) {
            Err(f) => Err(f),
            Ok(c2) => place_globals(c2, gs, refs, i + 1),
        }
    }
}

/// A reference to a label at `target`: the displacement before `loc` becomes
/// `target - rip`, both taken as 32-bit integers.
pub open spec fn patch_label(c: Seq<u8>, loc: int, rip: usize, target: usize) -> Result<Seq<u8>, Fail> {
    if loc < 4 || loc > c.len() {
        Err(Fail::Internal)
    } else {
        let d = (target as i32) - (rip as i32);
        if d < i32::MIN || d > i32::MAX {
            Err(Fail::Internal)
        } else {
            Ok(write_i32(c, loc, d as i32))
        }
    }
}

/// The references to the label `i`, in the order they were recorded, patched.
pub open spec fn patch_label_refs(
    c: Seq<u8>,
    refs: Seq<(usize, usize, usize)>,
    i: int,
    target: usize,
) -> Result<Seq<u8>, Fail>
    decreases refs.len(),
{
    if refs.len() == 0 {
        Ok(c)
    } else {
        match patch_label_refs(c, refs.drop_last(), i, target) {
            Err(f) => Err(f),
            Ok(c1) => if refs.last().0 == i {
                patch_label(c1, refs.last().1 as int, refs.last().2, target)
            } else {
                Ok(c1)
            },
        }
    }
}

/// The references to the labels from `i` on, label by label.
pub open spec fn place_labels(
    c: Seq<u8>,
    locs: Seq<usize>,
    refs: Seq<(usize, usize, usize)>,
    i: int,
) -> Result<Seq<u8>, Fail>
    decreases locs.len() - i,
{
    if i < 0 || i >= locs.len() {
        Ok(c)
    } else {
        match patch_label_refs(c, refs, i, locs[i]) {
            Err(f) => Err(f),
            Ok(c2) => place_labels(c2, locs, refs, i + 1),
        }
    }
}

/// The code with its length written, as a 64-bit integer, into the file size and the
/// memory size of the program header.
pub open spec fn write_len(c: Seq<u8>) -> Seq<u8> {
    c.subrange(0, 96) + le_bytes(c.len() as nat, 8) + le_bytes(c.len() as nat, 8) + c.subrange(
        112,
        c.len() as int,
    )
}

/// The finished program: every block closed, the statics placed after the code, every
/// displacement filled in, and the length written into the program header.
pub open spec fn spec_finalize(m: ProgramModel) -> Result<ProgramModel, Fail> {
    if m.blocks.len() > 0 {
        Err(Fail::Invalid)
    } else {
        match place_globals(m.code, m.globals, m.global_refs, 0) {
            Err(f) => Err(f),
            Ok(c1) => match place_labels(c1, m.label_locations, m.label_refs, 0) {
                Err(f) => Err(f),
                Ok(c2) => if c2.len() < 112 {
                    Err(Fail::Internal)
                } else {
                    Ok(ProgramModel { code: write_len(c2), ..m })
                },
            },
        }
    }
}

/// A line of a text: up to a line feed, without the carriage return before it.
pub open spec fn drop_cr(l: Seq<u8>) -> Seq<u8> {
    if l.len() > 0 && l.last() == 0x0d {
        l.drop_last()
    } else {
        l
    }
}

/// The lines of a text, as `str::lines` splits them: at each line feed, with a carriage
/// return before it dropped; a last line feed ends the last line.
pub open spec fn spec_lines(t: Seq<u8>) -> Seq<Seq<u8>>
    decreases t.len(),
{
    if t.len() == 0 {
        seq![]
    } else {
        match spec_find(t, seq![0x0au8]) {
            Some(i) => if 0 <= i < t.len() {
                seq![drop_cr(t.subrange(0, i))] + spec_lines(t.subrange(i + 1, t.len() as int))
            } else {
                seq![t]
            },
            None => seq![t],
        }
    }
}

/// A line without its comment, trimmed.
pub open spec fn source_line(l: Seq<u8>) -> Seq<u8> {
    spec_trim(spec_strip_comments(l))
}

/// The lines of a source text, each without its comment and trimmed.
pub open spec fn source_lines(t: Seq<u8>) -> Seq<Seq<u8>> {
    spec_lines(t).map_values(|l: Seq<u8>| source_line(l))
}

/// The declarations of the lines, in order; a failure carries its line number.
pub open spec fn spec_declare_all(m: ProgramModel, ls: Seq<Seq<u8>>) -> Result<ProgramModel, (int, Fail)>
    decreases ls.len(),
{
    if ls.len() == 0 {
        Ok(m)
    } else {
        match spec_declare_all(m, ls.drop_last()) {
            Err(e) => Err(e),
            Ok(m1) => if ls.last().len() == 0 {
                Ok(m1)
            } else {
                match spec_parse_global(m1, ls.last()) {
                    Ok(m2) => Ok(m2),
                    Err(f) => Err((ls.len() as int, f)),
                }
            },
        }
    }
}

/// The code of the lines, in order; a failure carries its line number.
pub open spec fn spec_assemble_all(m: ProgramModel, ls: Seq<Seq<u8>>) -> Result<ProgramModel, (int, Fail)>
    decreases ls.len(),
{
    if ls.len() == 0 {
        Ok(m)
    } else {
        match spec_assemble_all(m, ls.drop_last()) {
            Err(e) => Err(e),
            Ok(m1) => if ls.last().len() == 0 {
                Ok(m1)
            } else {
                match spec_parse_line(m1, ls.last()) {
                    Ok(m2) => Ok(m2),
                    Err(f) => Err((ls.len() as int, f)),
                }
            },
        }
    }
}

/// A program with its headers and nothing else but the bits of its floating-point
/// literals.
pub open spec fn headers_only(f64_bits: Seq<(Seq<u8>, u64)>, f32_bits: Seq<(Seq<u8>, u32)>) -> ProgramModel {
    ProgramModel {
        code: elf_header() + program_header(),
        globals: seq![],
        global_refs: seq![],
        labels: seq![],
        label_locations: seq![],
        label_refs: seq![],
        blocks: seq![],
        f64_bits,
        f32_bits,
    }
}

/// A source text assembled: the headers, the declarations of every line, the code of every
/// line, and the finishing. A failure on a line carries its number (from 1), a failure of
/// the whole program the number 0.
pub open spec fn spec_assemble(m0: ProgramModel, text: Seq<u8>) -> Result<ProgramModel, (int, Fail)> {
    let ls = source_lines(text);
    match spec_declare_all(m0, ls) {
        Err(e) => Err(e),
        Ok(m1) => match spec_assemble_all(m1, ls) {
            Err(e) => Err(e),
            Ok(m2) => match spec_finalize(m2) {
                Err(f) => Err((0, f)),
                Ok(m3) => Ok(m3),
            },
        },
    }
}

/// Why a source text was not assembled: the line (from 1; 0 for the program as a whole)
/// and the failure.
#[derive(Clone, Debug)]
pub struct SourceError {
    pub line: usize,
    pub error: AsmError,
}

/// A failure in a prefix of the declarations is the failure of them all.
proof fn lemma_declare_err(m: ProgramModel, ls: Seq<Seq<u8>>, k: int)
    requires
        0 <= k <= ls.len(),
        spec_declare_all(m, ls.subrange(0, k)) is Err,
    ensures
        spec_declare_all(m, ls) == spec_declare_all(m, ls.subrange(0, k)),
    decreases ls.len() - k,
{
    if k < ls.len() {
        assert(ls.subrange(0, k + 1).drop_last() =~= ls.subrange(0, k));
        lemma_declare_err(m, ls, k + 1);
    } else {
        assert(ls.subrange(0, k) =~= ls);
    }
}

/// A failure in a prefix of the lines is the failure of them all.
proof fn lemma_assemble_err(m: ProgramModel, ls: Seq<Seq<u8>>, k: int)
    requires
        0 <= k <= ls.len(),
        spec_assemble_all(m, ls.subrange(0, k)) is Err,
    ensures
        spec_assemble_all(m, ls) == spec_assemble_all(m, ls.subrange(0, k)),
    decreases ls.len() - k,
{
    if k < ls.len() {
        assert(ls.subrange(0, k + 1).drop_last() =~= ls.subrange(0, k));
        lemma_assemble_err(m, ls, k + 1);
    } else {
        assert(ls.subrange(0, k) =~= ls);
    }
}

/// A failed patch of a prefix of the references fails them all, internally.
proof fn lemma_global_refs_err(c: Seq<u8>, refs: Seq<(usize, usize, usize)>, i: int, offset: int, k: int)
    requires
        0 <= k <= refs.len(),
        patch_global_refs(c, refs.subrange(0, k), i, offset) is Err,
    ensures
        patch_global_refs(c, refs, i, offset) == Err::<Seq<u8>, Fail>(Fail::Internal),
    decreases refs.len() - k,
{
    lemma_global_refs_internal(c, refs.subrange(0, k), i, offset);
    if k < refs.len() {
        assert(refs.subrange(0, k + 1).drop_last() =~= refs.subrange(0, k));
        lemma_global_refs_err(c, refs, i, offset, k + 1);
    } else {
        assert(refs.subrange(0, k) =~= refs);
    }
}

proof fn lemma_global_refs_internal(c: Seq<u8>, refs: Seq<(usize, usize, usize)>, i: int, offset: int)
    ensures
        patch_global_refs(c, refs, i, offset) is Err ==> patch_global_refs(c, refs, i, offset)
            == Err::<Seq<u8>, Fail>(Fail::Internal),
    decreases refs.len(),
{
    if refs.len() > 0 {
        lemma_global_refs_internal(c, refs.drop_last(), i, offset);
    }
}

/// A failed patch of a prefix of the references fails them all, internally.
proof fn lemma_label_refs_err(c: Seq<u8>, refs: Seq<(usize, usize, usize)>, i: int, target: usize, k: int)
    requires
        0 <= k <= refs.len(),
        patch_label_refs(c, refs.subrange(0, k), i, target) is Err,
    ensures
        patch_label_refs(c, refs, i, target) == Err::<Seq<u8>, Fail>(Fail::Internal),
    decreases refs.len() - k,
{
    lemma_label_refs_internal(c, refs.subrange(0, k), i, target);
    if k < refs.len() {
        assert(refs.subrange(0, k + 1).drop_last() =~= refs.subrange(0, k));
        lemma_label_refs_err(c, refs, i, target, k + 1);
    } else {
        assert(refs.subrange(0, k) =~= refs);
    }
}

proof fn lemma_label_refs_internal(c: Seq<u8>, refs: Seq<(usize, usize, usize)>, i: int, target: usize)
    ensures
        patch_label_refs(c, refs, i, target) is Err ==> patch_label_refs(c, refs, i, target)
            == Err::<Seq<u8>, Fail>(Fail::Internal),
    decreases refs.len(),
{
    if refs.len() > 0 {
        lemma_label_refs_internal(c, refs.drop_last(), i, target);
    }
}

/// Writes `v` into the four bytes before `loc`.
fn write_i32_exec(code: &mut Vec<u8>, loc: usize, v: i32)
    requires
        4 <= loc <= old(code).len(),
    ensures
        final(code)@ == write_i32(old(code)@, loc as int, v),
{
    let b = le32_vec(v);
    proof {
        lemma_le_bytes_len(((v as u32) as nat), 4);
    }
    overwrite(code, loc - 4, b.as_slice());
}

fn patch_global_exec(code: &mut Vec<u8>, loc: usize, rip: usize, offset: usize) -> (r: Result<(), AsmError>)
    ensures
        match r {
            Ok(()) => patch_global(old(code)@, loc as int, rip as int, offset as int) == Ok::<
                Seq<u8>,
                Fail,
            >(final(code)@),
            Err(e) => patch_global(old(code)@, loc as int, rip as int, offset as int) is Err
                && e.fail() == Fail::Internal,
        },
{
    if loc < 4 || loc > code.len() || rip > offset {
        return Err(AsmError::Internal("a reference to a static lies outside the code"));
    }
    let local = le_value_of(vstd::slice::slice_subrange(code.as_slice(), loc - 4, loc));
    proof {
        crate::immediate::lemma_le_value_bound(code@.subrange(loc - 4, loc as int));
        reveal_with_fuel(crate::immediate::pow256, 5);
    }
    let local32: i32 = (local as u32) as i32;
    let dist: i32 = (offset - rip) as i32;
    let net: i64 = local32 as i64 + dist as i64;
    if net < -0x8000_0000 || net > 0x7fff_ffff {
        return Err(AsmError::Internal("a displacement to a static overflows"));
    }
    write_i32_exec(code, loc, net as i32);
    Ok(())
}

fn patch_label_exec(code: &mut Vec<u8>, loc: usize, rip: usize, target: usize) -> (r: Result<(), AsmError>)
    ensures
        match r {
            Ok(()) => patch_label(old(code)@, loc as int, rip, target) == Ok::<Seq<u8>, Fail>(
                final(code)@,
            ),
            Err(e) => patch_label(old(code)@, loc as int, rip, target) is Err && e.fail()
                == Fail::Internal,
        },
{
    if loc < 4 || loc > code.len() {
        return Err(AsmError::Internal("a reference to a label lies outside the code"));
    }
    let d: i64 = (target as i32) as i64 - (rip as i32) as i64;
    if d < -0x8000_0000 || d > 0x7fff_ffff {
        return Err(AsmError::Internal("a displacement to a label overflows"));
    }
    write_i32_exec(code, loc, d as i32);
    Ok(())
}

/// The lines of a source text (see `source_lines`).
pub fn source_lines_exec(text: &[u8]) -> (r: Vec<Vec<u8>>)
    ensures
        r@.map_values(|v: Vec<u8>| v@) == source_lines(text@),
{
    let mut out: Vec<Vec<u8>> = Vec::new();
    let mut rest: &[u8] = text;
    let nl = bytes1(0x0a);
    loop
        invariant
            nl@ == seq![0x0au8],
            out@.map_values(|v: Vec<u8>| v@) + source_lines(rest@) == source_lines(text@),
        decreases rest.len(),
    {
        if rest.len() == 0 {
            assert(source_lines(rest@) =~= seq![]);
            assert(out@.map_values(|v: Vec<u8>| v@) + seq![] =~= out@.map_values(|v: Vec<u8>| v@));
            return out;
        }
        let ghost old_out = out@.map_values(|v: Vec<u8>| v@);
        let ghost r0 = rest@;
        match find(rest, nl.as_slice()) {
            Some(i) => {
                proof {
                    lemma_find_from_bounds(rest@, seq![0x0au8], 0);
                }
                let head = vstd::slice::slice_subrange(rest, 0, i);
                let piece = if i > 0 && head[i - 1] == 0x0d {
                    vstd::slice::slice_subrange(head, 0, i - 1)
                } else {
                    head
                };
                assert(piece@ == drop_cr(r0.subrange(0, i as int)));
                let line = to_vec(trim(strip_comments_bytes(piece)));
                out.push(line);
                rest = vstd::slice::slice_subrange(rest, i + 1, rest.len());
                proof {
                    let tail = r0.subrange(i + 1, r0.len() as int);
                    assert(tail == rest@);
                    assert(spec_lines(r0) == seq![drop_cr(r0.subrange(0, i as int))] + spec_lines(tail));
                    assert(source_lines(r0) =~= seq![source_line(piece@)] + source_lines(tail));
                    assert(out@.map_values(|v: Vec<u8>| v@) =~= old_out.push(source_line(piece@)));
                    assert(old_out.push(source_line(piece@)) + source_lines(tail) =~= old_out
                        + source_lines(r0));
                }
            },
            None => {
                let line = to_vec(trim(strip_comments_bytes(rest)));
                out.push(line);
                proof {
                    assert(spec_lines(r0) == seq![r0]);
                    assert(source_lines(r0) =~= seq![source_line(r0)]);
                    assert(out@.map_values(|v: Vec<u8>| v@) =~= old_out.push(source_line(r0)));
                    assert(out@.map_values(|v: Vec<u8>| v@) =~= source_lines(text@));
                }
                return out;
            },
        }
    }
}

impl Program {
    /// Appends the ELF file header (see `elf_header`).
    pub fn append_elf_header(&mut self)
        requires
            old(self).wf(),
        ensures
            final(self).wf(),
            final(self).model() == old(self).model().emit(elf_header()),
    {
        let h: Vec<u8> = vec![
            0x7f, 0x45, 0x4c, 0x46, 2, 1, 1, 3, 0, 0, 0, 0, 0, 0, 0, 0,
            3, 0, 0x3e, 0, 1, 0, 0, 0,
            0x78, 0, 0, 0, 0, 0, 0, 0,
            0x40, 0, 0, 0, 0, 0, 0, 0,
            0, 0, 0, 0, 0, 0, 0, 0,
            0, 0, 0, 0,
            0x40, 0, 0x38, 0, 1, 0, 0x40, 0, 0, 0, 0, 0,
        ];
        assert(h@ == elf_header());
        self.push_bytes(h.as_slice());
    }

    /// Appends the program header (see `program_header`).
    pub fn append_program_header(&mut self)
        requires
            old(self).wf(),
        ensures
            final(self).wf(),
            final(self).model() == old(self).model().emit(program_header()),
    {
        let h: Vec<u8> = vec![
            1, 0, 0, 0, 7, 0, 0, 0,
            0, 0, 0, 0, 0, 0, 0, 0,
            0, 0, 0, 0, 0, 0, 0, 0,
            0, 0, 0, 0, 0, 0, 0, 0,
            0, 0, 0, 0, 0, 0, 0, 0,
            0, 0, 0, 0, 0, 0, 0, 0,
            0, 0, 0, 0, 0, 0, 0, 0,
        ];
        assert(h@ == program_header());
        self.push_bytes(h.as_slice());
    }

    fn place_global(&mut self, i: usize) -> (r: Result<(), AsmError>)
        requires
            old(self).wf(),
            i < old(self).globals.len(),
        ensures
            final(self).wf(),
            final(self).model() == (ProgramModel { code: final(self).code@, ..old(self).model() }),
            match r {
                Ok(()) => patch_global_refs(
                    old(self).code@ + old(self).model().globals[i as int].data,
                    old(self).global_refs@,
                    i as int,
                    old(self).code@.len() as int,
                ) == Ok::<Seq<u8>, Fail>(final(self).code@),
                Err(e) => patch_global_refs(
                    old(self).code@ + old(self).model().globals[i as int].data,
                    old(self).global_refs@,
                    i as int,
                    old(self).code@.len() as int,
                ) == Err::<Seq<u8>, Fail>(Fail::Internal) && e.fail() == Fail::Internal,
            },
    {
        let ghost m0 = self.model();
        let offset = self.code.len();
        let n = self.globals[i].data.len();
        crate::text::push_all(&mut self.code, self.globals[i].data.as_slice(), 0, n);
        assert(self.globals@[i as int].data@.subrange(0, n as int) =~= m0.globals[i as int].data);
        let ghost c1 = self.code@;
        let mut j: usize = 0;
        while j < self.global_refs.len()
            invariant
                self.wf(),
                old(self).model() == m0,
                i < m0.globals.len(),
                offset == m0.code.len(),
                c1 == m0.code + m0.globals[i as int].data,
                j <= self.global_refs.len(),
                self.model() == (ProgramModel { code: self.code@, ..m0 }),
                patch_global_refs(c1, m0.global_refs.subrange(0, j as int), i as int, offset as int)
                    == Ok::<Seq<u8>, Fail>(self.code@),
            decreases self.global_refs.len() - j,
        {
            let (g, loc, rip) = self.global_refs[j];
            assert(m0.global_refs.subrange(0, j + 1).drop_last() =~= m0.global_refs.subrange(0, j as int));
            assert(m0.global_refs.subrange(0, j + 1).last() == (g, loc, rip));
            if g == i {
                match patch_global_exec(&mut self.code, loc, rip, offset) {
                    Ok(()) => {},
                    Err(e) => {
                        proof {
                            lemma_global_refs_err(c1, m0.global_refs, i as int, offset as int, j + 1);
                        }
                        return Err(e);
                    },
                }
            }
            j += 1;
        }
        assert(m0.global_refs.subrange(0, j as int) =~= m0.global_refs);
        Ok(())
    }

    fn place_label(&mut self, i: usize) -> (r: Result<(), AsmError>)
        requires
            old(self).wf(),
            i < old(self).label_locations.len(),
        ensures
            final(self).wf(),
            final(self).model() == (ProgramModel { code: final(self).code@, ..old(self).model() }),
            match r {
                Ok(()) => patch_label_refs(
                    old(self).code@,
                    old(self).label_refs@,
                    i as int,
                    old(self).label_locations@[i as int],
                ) == Ok::<Seq<u8>, Fail>(final(self).code@),
                Err(e) => patch_label_refs(
                    old(self).code@,
                    old(self).label_refs@,
                    i as int,
                    old(self).label_locations@[i as int],
                ) == Err::<Seq<u8>, Fail>(Fail::Internal) && e.fail() == Fail::Internal,
            },
    {
        let ghost m0 = self.model();
        let target = self.label_locations[i];
        let mut j: usize = 0;
        while j < self.label_refs.len()
            invariant
                self.wf(),
                old(self).model() == m0,
                i < m0.label_locations.len(),
                target == m0.label_locations[i as int],
                j <= self.label_refs.len(),
                self.model() == (ProgramModel { code: self.code@, ..m0 }),
                patch_label_refs(m0.code, m0.label_refs.subrange(0, j as int), i as int, target)
                    == Ok::<Seq<u8>, Fail>(self.code@),
            decreases self.label_refs.len() - j,
        {
            let (l, loc, rip) = self.label_refs[j];
            assert(m0.label_refs.subrange(0, j + 1).drop_last() =~= m0.label_refs.subrange(0, j as int));
            assert(m0.label_refs.subrange(0, j + 1).last() == (l, loc, rip));
            if l == i {
                match patch_label_exec(&mut self.code, loc, rip, target) {
                    Ok(()) => {},
                    Err(e) => {
                        proof {
                            lemma_label_refs_err(m0.code, m0.label_refs, i as int, target, j + 1);
                        }
                        return Err(e);
                    },
                }
            }
            j += 1;
        }
        assert(m0.label_refs.subrange(0, j as int) =~= m0.label_refs);
        Ok(())
    }

    /// Finishes the program (see `spec_finalize`).
    pub fn finalize(&mut self) -> (r: Result<(), AsmError>)
        requires
            old(self).wf(),
        ensures
            final(self).wf(),
            r is Err ==> final(self).model() == old(self).model(),
            match r {
                Ok(()) => spec_finalize(old(self).model()) == Ok::<ProgramModel, Fail>(final(self).model()),
                Err(e) => spec_finalize(old(self).model()) == Err::<ProgramModel, Fail>(e.fail()),
            },
    {
        let saved = self.snapshot();
        let r = self.finalize_steps();
        if r.is_err() {
            *self = saved;
        }
        r
    }

    /// The steps of `finalize`; a failure leaves the steps before it done.
    fn finalize_steps(&mut self) -> (r: Result<(), AsmError>)
        requires
            old(self).wf(),
        ensures
            final(self).wf(),
            match r {
                Ok(()) => spec_finalize(old(self).model()) == Ok::<ProgramModel, Fail>(final(self).model()),
                Err(e) => spec_finalize(old(self).model()) == Err::<ProgramModel, Fail>(e.fail()),
            },
    {
        let ghost m0 = self.model();
        if self.blocks.len() > 0 {
            return Err(AsmError::Invalid("this file is missing a `}`"));
        }
        let mut i: usize = 0;
        while i < self.globals.len()
            invariant
                self.wf(),
                old(self).model() == m0,
                m0.blocks.len() == 0,
                i <= self.globals.len(),
                self.globals.len() == m0.globals.len(),
                self.model() == (ProgramModel { code: self.code@, ..m0 }),
                place_globals(m0.code, m0.globals, m0.global_refs, 0) == place_globals(
                    self.code@,
                    m0.globals,
                    m0.global_refs,
                    i as int,
                ),
            decreases self.globals.len() - i,
        {
            match self.place_global(i) {
                Ok(()) => {},
                Err(e) => return Err(e),
            }
            i += 1;
        }
        let ghost c1 = self.code@;
        let mut k: usize = 0;
        while k < self.label_locations.len()
            invariant
                self.wf(),
                old(self).model() == m0,
                m0.blocks.len() == 0,
                k <= self.label_locations.len(),
                self.label_locations@ == m0.label_locations,
                self.model() == (ProgramModel { code: self.code@, ..m0 }),
                place_globals(m0.code, m0.globals, m0.global_refs, 0) == Ok::<Seq<u8>, Fail>(c1),
                place_labels(c1, m0.label_locations, m0.label_refs, 0) == place_labels(
                    self.code@,
                    m0.label_locations,
                    m0.label_refs,
                    k as int,
                ),
            decreases self.label_locations.len() - k,
        {
            match self.place_label(k) {
                Ok(()) => {},
                Err(e) => return Err(e),
            }
            k += 1;
        }
        let len = self.code.len();
        if len < 112 {
            return Err(AsmError::Internal("the code is shorter than its headers"));
        }
        let ghost c2 = self.code@;
        let lb = le_bytes_of(len as u64, 8);
        proof {
            lemma_le_bytes_len(len as nat, 8);
        }
        overwrite(&mut self.code, 96, lb.as_slice());
        overwrite(&mut self.code, 104, lb.as_slice());
        assert(self.code@ =~= write_len(c2));
        Ok(())
    }

    /// Assembles a whole source text into a new program (see `spec_assemble`), with the
    /// bits of the floating-point literals it writes as `@f64(text)` and `@f32(text)`.
    pub fn parse_source(text: &str, f64_bits: Vec<(Vec<u8>, u64)>, f32_bits: Vec<(Vec<u8>, u32)>) -> (r:
        Result<Program, SourceError>)
        ensures
            match r {
                Ok(p) => p.wf() && spec_assemble(
                    headers_only(
                        f64_bits@.map_values(|f: (Vec<u8>, u64)| (f.0@, f.1)),
                        f32_bits@.map_values(|f: (Vec<u8>, u32)| (f.0@, f.1)),
                    ),
                    text.spec_bytes(),
                ) == Ok::<ProgramModel, (int, Fail)>(p.model()),
                Err(e) => spec_assemble(
                    headers_only(
                        f64_bits@.map_values(|f: (Vec<u8>, u64)| (f.0@, f.1)),
                        f32_bits@.map_values(|f: (Vec<u8>, u32)| (f.0@, f.1)),
                    ),
                    text.spec_bytes(),
                ) == Err::<ProgramModel, (int, Fail)>((e.line as int, e.error.fail())),
            },
    {
        let ghost h = headers_only(
            f64_bits@.map_values(|f: (Vec<u8>, u64)| (f.0@, f.1)),
            f32_bits@.map_values(|f: (Vec<u8>, u32)| (f.0@, f.1)),
        );
        let mut p = Program::new();
        p.f64_bits = f64_bits;
        p.f32_bits = f32_bits;
        p.append_elf_header();
        p.append_program_header();
        assert(p.model() == h);
        let lines = source_lines_exec(text.as_bytes());
        let ghost ls = source_lines(text.spec_bytes());
        let ghost m0 = p.model();
        let mut k: usize = 0;
        while k < lines.len()
            invariant
                p.wf(),
                m0 == h,
                h == headers_only(
                    f64_bits@.map_values(|f: (Vec<u8>, u64)| (f.0@, f.1)),
                    f32_bits@.map_values(|f: (Vec<u8>, u32)| (f.0@, f.1)),
                ),
                k <= lines.len(),
                lines@.map_values(|v: Vec<u8>| v@) == ls,
                ls == source_lines(text.spec_bytes()),
                spec_declare_all(m0, ls.subrange(0, k as int)) == Ok::<ProgramModel, (int, Fail)>(p.model()),
            decreases lines.len() - k,
        {
            let l = lines[k].as_slice();
            assert(ls[k as int] == l@);
            assert(ls.subrange(0, k + 1).drop_last() =~= ls.subrange(0, k as int));
            let ghost before = p.model();
            if l.len() > 0 {
                match p.parse_global(l) {
                    Ok(()) => {},
                    Err(e) => {
                        proof {
                            assert(spec_declare_all(m0, ls.subrange(0, k + 1)) == Err::<
                                ProgramModel,
                                (int, Fail),
                            >(((k + 1) as int, e.fail())));
                            lemma_declare_err(m0, ls, k + 1);
                        }
                        return Err(SourceError { line: k + 1, error: e });
                    },
                }
            }
            k += 1;
        }
        assert(ls.subrange(0, k as int) =~= ls);
        let ghost m1 = p.model();
        let mut k: usize = 0;
        while k < lines.len()
            invariant
                p.wf(),
                m0 == h,
                h == headers_only(
                    f64_bits@.map_values(|f: (Vec<u8>, u64)| (f.0@, f.1)),
                    f32_bits@.map_values(|f: (Vec<u8>, u32)| (f.0@, f.1)),
                ),
                spec_declare_all(m0, ls) == Ok::<ProgramModel, (int, Fail)>(m1),
                k <= lines.len(),
                lines@.map_values(|v: Vec<u8>| v@) == ls,
                ls == source_lines(text.spec_bytes()),
                spec_assemble_all(m1, ls.subrange(0, k as int)) == Ok::<ProgramModel, (int, Fail)>(p.model()),
            decreases lines.len() - k,
        {
            let l = lines[k].as_slice();
            assert(ls[k as int] == l@);
            assert(ls.subrange(0, k + 1).drop_last() =~= ls.subrange(0, k as int));
            let ghost before = p.model();
            if l.len() > 0 {
                match p.parse_line_bytes(l) {
                    Ok(()) => {},
                    Err(e) => {
                        proof {
                            assert(spec_assemble_all(m1, ls.subrange(0, k + 1)) == Err::<
                                ProgramModel,
                                (int, Fail),
                            >(((k + 1) as int, e.fail())));
                            lemma_assemble_err(m1, ls, k + 1);
                        }
                        return Err(SourceError { line: k + 1, error: e });
                    },
                }
            }
            k += 1;
        }
        assert(ls.subrange(0, k as int) =~= ls);
        match p.finalize() {
            Ok(()) => Ok(p),
            Err(e) => Err(SourceError { line: 0, error: e }),
        }
    }
}

} // verus!
