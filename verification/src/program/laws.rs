//! Properties of the assembler that hold across operations: names are declared once,
//! `@len` reads what `static` wrote, blocks open and close, lines only append to the code
//! (but `}`, which fills in displacements), every displacement that is filled in reaches
//! its target, and a finished program records its own length.
use vstd::prelude::*;

use crate::immediate::{le_bytes, le_value, lemma_le_bytes_roundtrip, pow256};
use crate::place::PlaceModel;
use crate::place::Size;
use crate::immediate::ImmediateModel;
use crate::program::encode::{
    le32, opt_byte, spec_binary, spec_binary_with_imm, spec_binary_with_size, spec_unary,
    spec_unary_with_imm, spec_unary_with_size,
};
use crate::immediate::ImmediateOf;
use crate::place::lit;
use crate::program::assign::{spec_mul_search, spec_parse_assign, star};
use crate::program::builtins::{
    builtin_encoding, comma_sep, minus_sep, spec_builtin_function, spec_call_setup,
    spec_compare_search, spec_parse_builtin, spec_parse_call, spec_parse_divmod,
    spec_parse_try_replace, spec_parse_virtual_call, spec_parse_widen_mul, spec_parse_xadd,
    spec_parse_xchg, spec_set_flags, spec_setup_part, spec_setup_parts,
};
use crate::program::immediates::spec_try_resolve_imm;
use crate::program::instructions::{
    lock_if, place_of, spec_parse_basic, spec_push_imm, spec_parse_basic_shift, spec_parse_basic_unary,
    spec_parse_imul_inplace, spec_parse_pop, spec_parse_push, spec_parse_test,
};
use crate::program::lines::{
    is_keyword, patch_all, patch_rel32, spec_check_identifier, spec_close_block, spec_jump_back,
    spec_parse_break, spec_parse_compound, spec_parse_continue, spec_parse_function_call,
    spec_parse_goto, spec_parse_label, spec_parse_line, spec_parse_static, spec_parse_statement,
};
use crate::program::output::{
    patch_global, patch_global_refs, patch_label, patch_label_refs, place_globals, place_labels,
    read_i32, spec_finalize, write_i32, write_len, elf_header, headers_only, program_header,
};
use crate::program::{Fail, GlobalModel, Outcome, ProgramModel, find_global_from, find_name_from};
use crate::registers::{reg_id, spec_register_named};
use crate::text::{
    is_alnum, is_alpha, lemma_trim_keeps_leading_non_ws, spec_allowed_identifier, spec_find, spec_find_from, spec_split_once, spec_strip_prefix,
    spec_strip_suffix, spec_trim, spec_trim_end, ws_len_back,
};

verus! {

/// A displacement written into the code reads back as written, and the code keeps its
/// length.
pub proof fn lemma_displacement_roundtrip(c: Seq<u8>, loc: int, v: i32)
    requires
        4 <= loc <= c.len(),
    ensures
        write_i32(c, loc, v).len() == c.len(),
        read_i32(write_i32(c, loc, v), loc) == v,
{
    let u = (v as u32) as nat;
    reveal_with_fuel(pow256, 5);
    lemma_le_bytes_roundtrip(u, 4);
    let w = write_i32(c, loc, v);
    assert(w.subrange(loc - 4, loc) =~= le32(v));
    assert(((v as u32) as u32) as i32 == v) by (bit_vector);
}

/// The `break`s of a block jump to its end: the displacement filled in before `loc`
/// leads from `loc` to `end`.
pub proof fn lemma_break_reaches_end(code: Seq<u8>, loc: int, end: int)
    requires
        patch_rel32(code, loc, end) is Ok,
    ensures
        patch_rel32(code, loc, end).unwrap().len() == code.len(),
        loc + read_i32(patch_rel32(code, loc, end).unwrap(), loc) == end,
{
    lemma_displacement_roundtrip(code, loc, (end - loc) as i32);
}

/// A jump to a label, filled in when the program is finished, leads from the end of the
/// instruction (`rip`) to the label, when both lie in the first 2 GiB.
pub proof fn lemma_label_ref_reaches_target(c: Seq<u8>, loc: int, rip: usize, target: usize)
    requires
        patch_label(c, loc, rip, target) is Ok,
        rip <= i32::MAX,
        target <= i32::MAX,
    ensures
        patch_label(c, loc, rip, target).unwrap().len() == c.len(),
        rip + read_i32(patch_label(c, loc, rip, target).unwrap(), loc) == target,
{
    lemma_displacement_roundtrip(c, loc, ((target as i32) - (rip as i32)) as i32);
}

/// A reference to a static, filled in when the program is finished, leads from the end
/// of the instruction (`rip`) to the static's position plus the displacement written in
/// the instruction.
pub proof fn lemma_global_ref_reaches_static(c: Seq<u8>, loc: int, rip: int, offset: int)
    requires
        patch_global(c, loc, rip, offset) is Ok,
        offset - rip <= i32::MAX,
    ensures
        patch_global(c, loc, rip, offset).unwrap().len() == c.len(),
        rip + read_i32(patch_global(c, loc, rip, offset).unwrap(), loc) == offset + read_i32(c, loc),
{
    let net = read_i32(c, loc) + ((offset - rip) as i32);
    lemma_displacement_roundtrip(c, loc, net as i32);
}

/// Every jump back lands on its target: the code before it stays, and the end of the
/// new code plus the displacement the jump ends with is the target. The displacement is
/// the last byte of a jump of at most three bytes, and the last four bytes of a longer one.
pub proof fn lemma_jump_back_lands(m: ProgramModel, target: int, cond: Seq<u8>, reject_e3: bool)
    requires
        spec_jump_back(m, target, cond, reject_e3) is Ok,
    ensures
        ({
            let c = spec_jump_back(m, target, cond, reject_e3).unwrap().code;
            let n = c.len() as int;
            &&& c.subrange(0, m.code.len() as int) == m.code
            &&& m.code.len() + 2 <= n
            &&& n <= m.code.len() + 3 ==> n + (c[n - 1] as i8) == target
            &&& n > m.code.len() + 3 ==> n + read_i32(c, n) == target
        }),
{
    let len = m.code.len() as int;
    let c = spec_jump_back(m, target, cond, reject_e3).unwrap().code;
    let n = c.len() as int;
    let short = crate::opcodes::spec_jmp_opcode(cond, false);
    let rel8 = match short {
        Ok((p, _)) => crate::program::lines::back_displacement(len, opt_byte(p).len() + 2, target),
        Err(_) => 0,
    };
    if short is Ok && -128 <= rel8 <= 127 {
        let (p, op) = short.unwrap();
        let x = rel8 as i8;
        assert(c == m.code + opt_byte(p) + seq![op, x as u8]);
        assert(c[n - 1] == x as u8);
        assert((x as u8) as i8 == x) by (bit_vector);
    } else {
        let (p, op) = crate::opcodes::spec_jmp_opcode(cond, true).unwrap();
        let v = crate::program::lines::back_displacement(len, opt_byte(p).len() + 5, target) as i32;
        let u = (v as u32) as nat;
        reveal_with_fuel(pow256, 5);
        lemma_le_bytes_roundtrip(u, 4);
        assert(c == m.code + opt_byte(p) + seq![op] + le32(v));
        assert(c.subrange(n - 4, n) =~= le32(v));
        assert(((v as u32) as u32) as i32 == v) by (bit_vector);
    }
    assert(c.subrange(0, len) =~= m.code);
}

/// Opening a block and closing it right away gives the program back.
pub proof fn lemma_open_close_block(m: ProgramModel)
    ensures
        spec_close_block(m.open_block()) == Ok::<ProgramModel, Fail>(m),
{
    let m1 = m.open_block();
    assert(m1.blocks.last().1 == Seq::<usize>::empty());
    assert(patch_all(m1.code, m1.blocks.last().1, m1.code.len() as int) == Ok::<Seq<u8>, Fail>(m.code));
    assert(m1.blocks.drop_last() =~= m.blocks);
}

/// A name pushed onto a list of names is found there.
proof fn lemma_find_pushed_name(names: Seq<Seq<u8>>, x: Seq<u8>, i: int)
    requires
        0 <= i <= names.len(),
    ensures
        find_name_from(names.push(x), x, i) is Some,
    decreases names.len() - i,
{
    if i < names.len() && names.push(x)[i] != x {
        lemma_find_pushed_name(names, x, i + 1);
    }
}

/// A static pushed onto the statics is found by its name.
proof fn lemma_find_pushed_global(gs: Seq<GlobalModel>, g: GlobalModel, i: int)
    requires
        0 <= i <= gs.len(),
    ensures
        find_global_from(gs.push(g), g.name, i) is Some,
    decreases gs.len() - i,
{
    if i < gs.len() && gs.push(g)[i].name != g.name {
        lemma_find_pushed_global(gs, g, i + 1);
    }
}

/// A label cannot be declared twice.
pub proof fn lemma_label_declared_once(m: ProgramModel, rest: Seq<u8>)
    requires
        spec_parse_label(m, rest) is Ok,
    ensures
        spec_parse_label(spec_parse_label(m, rest).unwrap(), rest) == Err::<ProgramModel, Fail>(
            Fail::Invalid,
        ),
{
    let ident = spec_trim(spec_trim(rest));
    lemma_find_pushed_name(m.labels, ident, 0);
}

/// Once a static is declared, its name is taken: no static, function or label of that
/// name can follow.
pub proof fn lemma_static_name_taken(m: ProgramModel, rest: Seq<u8>)
    requires
        spec_parse_static(m, rest) is Ok,
    ensures
        ({
            let first = spec_split_once(rest, crate::place::lit("=")).unwrap().0;
            let m2 = spec_parse_static(m, rest).unwrap();
            &&& spec_check_identifier(m2, first) == Err::<Seq<u8>, Fail>(Fail::Invalid)
            &&& spec_parse_static(m2, rest) == Err::<ProgramModel, Fail>(Fail::Invalid)
        }),
{
    let first = spec_split_once(rest, crate::place::lit("=")).unwrap().0;
    let m2 = spec_parse_static(m, rest).unwrap();
    let name = spec_trim(first);
    let g = m2.globals.last();
    assert(m2.globals == m.globals.push(g));
    assert(g.name == name);
    lemma_find_pushed_global(m.globals, g, 0);
}

/// The number of bytes of the statics from `i` on.
pub open spec fn statics_size(gs: Seq<GlobalModel>, i: int) -> nat
    decreases gs.len() - i,
{
    if i < 0 || i >= gs.len() {
        0
    } else {
        gs[i].data.len() + statics_size(gs, i + 1)
    }
}

proof fn lemma_global_refs_len(c: Seq<u8>, refs: Seq<(usize, usize, usize)>, i: int, offset: int)
    ensures
        patch_global_refs(c, refs, i, offset) matches Ok(c2) ==> c2.len() == c.len(),
    decreases refs.len(),
{
    if refs.len() > 0 {
        lemma_global_refs_len(c, refs.drop_last(), i, offset);
        if let Ok(c1) = patch_global_refs(c, refs.drop_last(), i, offset) {
            let r = refs.last();
            if r.0 == i && patch_global(c1, r.1 as int, r.2 as int, offset) is Ok {
                let net = read_i32(c1, r.1 as int) + ((offset - r.2) as i32);
                lemma_displacement_roundtrip(c1, r.1 as int, net as i32);
            }
        }
    }
}

proof fn lemma_place_globals_len(c: Seq<u8>, gs: Seq<GlobalModel>, refs: Seq<(usize, usize, usize)>, i: int)
    requires
        0 <= i,
    ensures
        place_globals(c, gs, refs, i) matches Ok(c2) ==> c2.len() == c.len() + statics_size(gs, i),
    decreases gs.len() - i,
{
    if i < gs.len() {
        lemma_global_refs_len(c + gs[i].data, refs, i, c.len() as int);
        if let Ok(c2) = patch_global_refs(c + gs[i].data, refs, i, c.len() as int) {
            lemma_place_globals_len(c2, gs, refs, i + 1);
        }
    }
}

proof fn lemma_label_refs_len(c: Seq<u8>, refs: Seq<(usize, usize, usize)>, i: int, target: usize)
    ensures
        patch_label_refs(c, refs, i, target) matches Ok(c2) ==> c2.len() == c.len(),
    decreases refs.len(),
{
    if refs.len() > 0 {
        lemma_label_refs_len(c, refs.drop_last(), i, target);
        if let Ok(c1) = patch_label_refs(c, refs.drop_last(), i, target) {
            let r = refs.last();
            if r.0 == i && patch_label(c1, r.1 as int, r.2, target) is Ok {
                lemma_displacement_roundtrip(c1, r.1 as int, ((target as i32) - (r.2 as i32)) as i32);
            }
        }
    }
}

proof fn lemma_place_labels_len(c: Seq<u8>, locs: Seq<usize>, refs: Seq<(usize, usize, usize)>, i: int)
    requires
        0 <= i,
    ensures
        place_labels(c, locs, refs, i) matches Ok(c2) ==> c2.len() == c.len(),
    decreases locs.len() - i,
{
    if i < locs.len() {
        lemma_label_refs_len(c, refs, i, locs[i]);
        if let Ok(c2) = patch_label_refs(c, refs, i, locs[i]) {
            lemma_place_labels_len(c2, locs, refs, i + 1);
        }
    }
}

/// A finished program is its code followed by the bytes of every static, and its program
/// header records that length (as the size in the file and in memory), when the length
/// fits in 64 bits.
pub proof fn lemma_finalize_layout(m: ProgramModel)
    requires
        spec_finalize(m) is Ok,
        spec_finalize(m).unwrap().code.len() < 0x1_0000_0000_0000_0000,
    ensures
        ({
            let c = spec_finalize(m).unwrap().code;
            &&& c.len() == m.code.len() + statics_size(m.globals, 0)
            &&& le_value(c.subrange(96, 104)) == c.len()
            &&& le_value(c.subrange(104, 112)) == c.len()
        }),
{
    lemma_place_globals_len(m.code, m.globals, m.global_refs, 0);
    let c1 = place_globals(m.code, m.globals, m.global_refs, 0).unwrap();
    lemma_place_labels_len(c1, m.label_locations, m.label_refs, 0);
    let c2 = place_labels(c1, m.label_locations, m.label_refs, 0).unwrap();
    let n = c2.len() as nat;
    crate::immediate::lemma_le_bytes_len(n, 8);
    let c = write_len(c2);
    assert(c.len() == n);
    reveal_with_fuel(pow256, 9);
    lemma_le_bytes_roundtrip(n, 8);
    assert(c.subrange(96, 104) =~= le_bytes(n, 8));
    assert(c.subrange(104, 112) =~= le_bytes(n, 8));
}

/// Finishing a program is refused as invalid exactly when a block is still open; any
/// other failure is internal. With every block closed, no displacement left to fill in and
/// at least the headers in the code, it succeeds.
pub proof fn lemma_finalize_outcome(m: ProgramModel)
    ensures
        spec_finalize(m) == Err::<ProgramModel, Fail>(Fail::Invalid) <==> m.blocks.len() > 0,
        spec_finalize(m) is Err && m.blocks.len() == 0 ==> spec_finalize(m) == Err::<ProgramModel, Fail>(
            Fail::Internal,
        ),
        m.blocks.len() == 0 && m.global_refs.len() == 0 && m.label_refs.len() == 0 && m.code.len() >= 112
            ==> spec_finalize(m) is Ok,
{
    lemma_place_globals_internal(m.code, m.globals, m.global_refs, 0);
    lemma_place_globals_len(m.code, m.globals, m.global_refs, 0);
    if let Ok(c1) = place_globals(m.code, m.globals, m.global_refs, 0) {
        lemma_place_labels_internal(c1, m.label_locations, m.label_refs, 0);
    }
    if m.global_refs.len() == 0 && m.label_refs.len() == 0 {
        lemma_place_globals_no_refs(m.code, m.globals, m.global_refs, 0);
        let c1 = place_globals(m.code, m.globals, m.global_refs, 0).unwrap();
        lemma_place_labels_no_refs(c1, m.label_locations, m.label_refs, 0);
    }
}

/// The largest distance and displacement for which finishing a program is promised.
pub open spec fn finish_bound() -> int {
    0x3fff_ffff
}

/// References that lie in code of length `n`: the four bytes before each location, which
/// is at most its instruction pointer.
pub open spec fn refs_in_code(refs: Seq<(usize, usize, usize)>, n: int) -> bool {
    forall|j: int| 0 <= j < refs.len() ==> 4 <= #[trigger] refs[j].1 <= refs[j].2 <= n
}

/// No two references share a byte of their displacements.
pub open spec fn refs_apart(refs: Seq<(usize, usize, usize)>) -> bool {
    forall|j: int, k: int|
        0 <= j < refs.len() && 0 <= k < refs.len() && j != k ==> #[trigger] refs[j].1 + 4 <= #[trigger] refs[k].1
            || refs[k].1 + 4 <= refs[j].1
}

/// The displacement before `loc` is small enough for the distance to a static to be added.
pub open spec fn small_displacement(c: Seq<u8>, loc: int) -> bool {
    -finish_bound() <= read_i32(c, loc) <= finish_bound()
}

/// Finishing a program succeeds when every block is closed, the code holds the headers,
/// code and statics stay within the first gigabyte, every reference lies in the code with
/// its own displacement bytes (a static's holding a small displacement), and every label
/// has been placed in the code. The result is the code, then the statics, with the
/// length in the program header.
pub proof fn lemma_finalize_succeeds(m: ProgramModel)
    requires
        m.blocks.len() == 0,
        m.code.len() >= 112,
        m.code.len() + statics_size(m.globals, 0) <= finish_bound(),
        refs_in_code(m.global_refs, m.code.len() as int),
        refs_apart(m.global_refs),
        forall|j: int| 0 <= j < m.global_refs.len() ==> small_displacement(m.code, #[trigger] m.global_refs[j].1 as int),
        refs_in_code(m.label_refs, m.code.len() as int),
        forall|k: int| 0 <= k < m.label_locations.len() ==> #[trigger] m.label_locations[k] <= m.code.len(),
    ensures
        spec_finalize(m) is Ok,
        ({
            let c = spec_finalize(m).unwrap().code;
            &&& c.len() == m.code.len() + statics_size(m.globals, 0)
            &&& le_value(c.subrange(96, 104)) == c.len()
            &&& le_value(c.subrange(104, 112)) == c.len()
        }),
{
    lemma_place_globals_ok(m.code, m.globals, m.global_refs, 0, m.code.len() as int);
    lemma_place_globals_len(m.code, m.globals, m.global_refs, 0);
    let c1 = place_globals(m.code, m.globals, m.global_refs, 0).unwrap();
    lemma_place_labels_ok(c1, m.label_locations, m.label_refs, 0, m.code.len() as int);
    lemma_place_labels_len(c1, m.label_locations, m.label_refs, 0);
    let c2 = place_labels(c1, m.label_locations, m.label_refs, 0).unwrap();
    crate::immediate::lemma_le_bytes_len(c2.len() as nat, 8);
    assert(write_len(c2).len() == c2.len());
    lemma_finalize_layout(m);
}

proof fn lemma_window_read(c: Seq<u8>, d: Seq<u8>, loc: int)
    requires
        4 <= loc <= c.len(),
        loc <= d.len(),
        forall|x: int| loc - 4 <= x < loc ==> c[x] == d[x],
    ensures
        read_i32(c, loc) == read_i32(d, loc),
{
    assert(c.subrange(loc - 4, loc) =~= d.subrange(loc - 4, loc));
}

proof fn lemma_write_keeps_outside(c: Seq<u8>, loc: int, v: i32, x: int)
    requires
        4 <= loc <= c.len(),
        0 <= x < c.len(),
        !(loc - 4 <= x < loc),
    ensures
        write_i32(c, loc, v).len() == c.len(),
        write_i32(c, loc, v)[x] == c[x],
{
    crate::immediate::lemma_le_bytes_len(((v as u32) as nat), 4);
    let w = write_i32(c, loc, v);
    if x < loc - 4 {
        assert(w[x] == c.subrange(0, loc - 4)[x]);
    } else {
        assert(w[x] == c.subrange(loc, c.len() as int)[x - loc]);
    }
}

/// Patching the references to static `i` succeeds and changes only their displacements.
proof fn lemma_global_refs_ok(c: Seq<u8>, refs: Seq<(usize, usize, usize)>, i: int, offset: int, n: int)
    requires
        n <= c.len(),
        n <= offset <= finish_bound(),
        refs_in_code(refs, n),
        refs_apart(refs),
        forall|j: int| 0 <= j < refs.len() && refs[j].0 == i ==> small_displacement(c, #[trigger] refs[j].1 as int),
    ensures
        patch_global_refs(c, refs, i, offset) is Ok,
        patch_global_refs(c, refs, i, offset).unwrap().len() == c.len(),
        forall|x: int|
            0 <= x < c.len() && (forall|j: int|
                0 <= j < refs.len() && refs[j].0 == i ==> !(refs[j].1 - 4 <= x < #[trigger] refs[j].1))
                ==> patch_global_refs(c, refs, i, offset).unwrap()[x] == c[x],
    decreases refs.len(),
{
    if refs.len() > 0 {
        let pre = refs.drop_last();
        let last = refs.last();
        let lj = refs.len() - 1;
        assert(refs[lj] == last);
        assert forall|j: int| 0 <= j < pre.len() implies 4 <= #[trigger] pre[j].1 <= pre[j].2 <= n by {
            assert(pre[j] == refs[j]);
        }
        assert forall|j: int, k: int|
            0 <= j < pre.len() && 0 <= k < pre.len() && j != k implies #[trigger] pre[j].1 + 4
            <= #[trigger] pre[k].1 || pre[k].1 + 4 <= pre[j].1 by {
            assert(pre[j] == refs[j] && pre[k] == refs[k]);
            assert(refs[j].1 + 4 <= refs[k].1 || refs[k].1 + 4 <= refs[j].1);
        }
        assert forall|j: int| 0 <= j < pre.len() && pre[j].0 == i implies small_displacement(
            c,
            #[trigger] pre[j].1 as int,
        ) by {
            assert(pre[j] == refs[j]);
        }
        lemma_global_refs_ok(c, pre, i, offset, n);
        let c1 = patch_global_refs(c, pre, i, offset).unwrap();
        if last.0 == i {
            let loc = last.1 as int;
            assert(4 <= refs[lj].1 <= refs[lj].2 <= n);
            assert forall|x: int| loc - 4 <= x < loc implies c1[x] == c[x] by {
                assert forall|j: int| 0 <= j < pre.len() && pre[j].0 == i implies !(pre[j].1 - 4 <= x
                    < #[trigger] pre[j].1) by {
                    assert(pre[j] == refs[j]);
                    assert(refs[j].1 + 4 <= refs[lj].1 || refs[lj].1 + 4 <= refs[j].1);
                }
            }
            lemma_window_read(c1, c, loc);
            assert(small_displacement(c, refs[lj].1 as int));
            let net = read_i32(c1, loc) + ((offset - last.2) as i32);
            assert(net == read_i32(c1, loc) + (offset - last.2));
            let v = net as i32;
            assert forall|x: int|
                0 <= x < c.len() && (forall|j: int|
                    0 <= j < refs.len() && refs[j].0 == i ==> !(refs[j].1 - 4 <= x < #[trigger] refs[j].1))
                    implies write_i32(c1, loc, v)[x] == c[x] by {
                assert(!(refs[lj].1 - 4 <= x < refs[lj].1));
                lemma_write_keeps_outside(c1, loc, v, x);
                assert forall|j: int| 0 <= j < pre.len() && pre[j].0 == i implies !(pre[j].1 - 4 <= x
                    < #[trigger] pre[j].1) by {
                    assert(pre[j] == refs[j]);
                }
            }
            lemma_displacement_roundtrip(c1, loc, v);
        } else {
            assert forall|x: int|
                0 <= x < c.len() && (forall|j: int|
                    0 <= j < refs.len() && refs[j].0 == i ==> !(refs[j].1 - 4 <= x < #[trigger] refs[j].1))
                    implies c1[x] == c[x] by {
                assert forall|j: int| 0 <= j < pre.len() && pre[j].0 == i implies !(pre[j].1 - 4 <= x
                    < #[trigger] pre[j].1) by {
                    assert(pre[j] == refs[j]);
                }
            }
        }
    }
}

/// Placing the statics from `i` on succeeds.
proof fn lemma_place_globals_ok(c: Seq<u8>, gs: Seq<GlobalModel>, refs: Seq<(usize, usize, usize)>, i: int, n: int)
    requires
        0 <= i,
        n <= c.len(),
        c.len() + statics_size(gs, i) <= finish_bound(),
        refs_in_code(refs, n),
        refs_apart(refs),
        forall|j: int| 0 <= j < refs.len() && refs[j].0 >= i ==> small_displacement(c, #[trigger] refs[j].1 as int),
    ensures
        place_globals(c, gs, refs, i) is Ok,
    decreases gs.len() - i,
{
    if i < gs.len() {
        let c0 = c + gs[i].data;
        assert forall|j: int| 0 <= j < refs.len() && refs[j].0 == i implies small_displacement(
            c0,
            #[trigger] refs[j].1 as int,
        ) by {
            assert(4 <= refs[j].1 <= refs[j].2 <= n);
            lemma_window_read(c0, c, refs[j].1 as int);
        }
        lemma_global_refs_ok(c0, refs, i, c.len() as int, n);
        let c2 = patch_global_refs(c0, refs, i, c.len() as int).unwrap();
        assert forall|j: int| 0 <= j < refs.len() && refs[j].0 >= i + 1 implies small_displacement(
            c2,
            #[trigger] refs[j].1 as int,
        ) by {
            let loc = refs[j].1 as int;
            assert(4 <= refs[j].1 <= refs[j].2 <= n);
            assert forall|x: int| loc - 4 <= x < loc implies c2[x] == c[x] by {
                assert forall|k: int| 0 <= k < refs.len() && refs[k].0 == i implies !(refs[k].1 - 4 <= x
                    < #[trigger] refs[k].1) by {
                    assert(k != j);
                    assert(refs[j].1 + 4 <= refs[k].1 || refs[k].1 + 4 <= refs[j].1);
                }
                assert(c0[x] == c[x]);
            }
            lemma_window_read(c2, c, loc);
        }
        lemma_place_globals_ok(c2, gs, refs, i + 1, n);
    }
}

/// Filling in the references to labels from `i` on succeeds.
proof fn lemma_place_labels_ok(c: Seq<u8>, locs: Seq<usize>, refs: Seq<(usize, usize, usize)>, i: int, n: int)
    requires
        0 <= i,
        n <= c.len(),
        n <= finish_bound(),
        refs_in_code(refs, n),
        forall|k: int| 0 <= k < locs.len() ==> #[trigger] locs[k] <= n,
    ensures
        place_labels(c, locs, refs, i) is Ok,
    decreases locs.len() - i,
{
    if i < locs.len() {
        assert(locs[i] <= n);
        lemma_label_refs_ok(c, refs, i, locs[i], n);
        lemma_label_refs_len(c, refs, i, locs[i]);
        let c2 = patch_label_refs(c, refs, i, locs[i]).unwrap();
        lemma_place_labels_ok(c2, locs, refs, i + 1, n);
    }
}

proof fn lemma_label_refs_ok(c: Seq<u8>, refs: Seq<(usize, usize, usize)>, i: int, target: usize, n: int)
    requires
        n <= c.len(),
        n <= finish_bound(),
        target <= n,
        refs_in_code(refs, n),
    ensures
        patch_label_refs(c, refs, i, target) is Ok,
    decreases refs.len(),
{
    if refs.len() > 0 {
        let pre = refs.drop_last();
        assert forall|j: int| 0 <= j < pre.len() implies 4 <= #[trigger] pre[j].1 <= pre[j].2 <= n by {
            assert(pre[j] == refs[j]);
        }
        lemma_label_refs_ok(c, pre, i, target, n);
        lemma_label_refs_len(c, pre, i, target);
        let last = refs.last();
        assert(refs[refs.len() - 1] == last);
        assert(4 <= last.1 <= last.2 <= n);
        assert((target as i32) as int == target as int);
        assert((last.2 as i32) as int == last.2 as int);
    }
}

proof fn lemma_place_globals_internal(c: Seq<u8>, gs: Seq<GlobalModel>, refs: Seq<(usize, usize, usize)>, i: int)
    ensures
        place_globals(c, gs, refs, i) is Err ==> place_globals(c, gs, refs, i) == Err::<Seq<u8>, Fail>(
            Fail::Internal,
        ),
    decreases gs.len() - i,
{
    if 0 <= i < gs.len() {
        lemma_global_refs_internal(c + gs[i].data, refs, i, c.len() as int);
        if let Ok(c2) = patch_global_refs(c + gs[i].data, refs, i, c.len() as int) {
            lemma_place_globals_internal(c2, gs, refs, i + 1);
        }
    }
}

proof fn lemma_global_refs_internal(c: Seq<u8>, refs: Seq<(usize, usize, usize)>, i: int, offset: int)
    ensures
        patch_global_refs(c, refs, i, offset) is Err ==> patch_global_refs(c, refs, i, offset) == Err::<
            Seq<u8>,
            Fail,
        >(Fail::Internal),
    decreases refs.len(),
{
    if refs.len() > 0 {
        lemma_global_refs_internal(c, refs.drop_last(), i, offset);
    }
}

proof fn lemma_place_labels_internal(c: Seq<u8>, locs: Seq<usize>, refs: Seq<(usize, usize, usize)>, i: int)
    ensures
        place_labels(c, locs, refs, i) is Err ==> place_labels(c, locs, refs, i) == Err::<Seq<u8>, Fail>(
            Fail::Internal,
        ),
    decreases locs.len() - i,
{
    if 0 <= i < locs.len() {
        lemma_label_refs_internal(c, refs, i, locs[i]);
        if let Ok(c2) = patch_label_refs(c, refs, i, locs[i]) {
            lemma_place_labels_internal(c2, locs, refs, i + 1);
        }
    }
}

proof fn lemma_label_refs_internal(c: Seq<u8>, refs: Seq<(usize, usize, usize)>, i: int, target: usize)
    ensures
        patch_label_refs(c, refs, i, target) is Err ==> patch_label_refs(c, refs, i, target) == Err::<
            Seq<u8>,
            Fail,
        >(Fail::Internal),
    decreases refs.len(),
{
    if refs.len() > 0 {
        lemma_label_refs_internal(c, refs.drop_last(), i, target);
    }
}

proof fn lemma_place_globals_no_refs(c: Seq<u8>, gs: Seq<GlobalModel>, refs: Seq<(usize, usize, usize)>, i: int)
    requires
        refs.len() == 0,
    ensures
        place_globals(c, gs, refs, i) is Ok,
    decreases gs.len() - i,
{
    if 0 <= i < gs.len() {
        lemma_place_globals_no_refs(c + gs[i].data, gs, refs, i + 1);
    }
}

proof fn lemma_place_labels_no_refs(c: Seq<u8>, locs: Seq<usize>, refs: Seq<(usize, usize, usize)>, i: int)
    requires
        refs.len() == 0,
    ensures
        place_labels(c, locs, refs, i) == Ok::<Seq<u8>, Fail>(c),
    decreases locs.len() - i,
{
    if 0 <= i < locs.len() {
        lemma_place_labels_no_refs(c, locs, refs, i + 1);
    }
}

/// A new name is accepted exactly when, trimmed, it is an identifier that names no
/// register, is no keyword and is not taken yet; the name kept is the trimmed text, a
/// letter followed by letters, digits and underscores.
pub proof fn lemma_check_identifier(m: ProgramModel, s: Seq<u8>)
    ensures
        spec_check_identifier(m, s) is Ok <==> ({
            let n = spec_trim(s);
            &&& spec_allowed_identifier(n)
            &&& spec_register_named(n) is None
            &&& !is_keyword(n)
            &&& !m.is_defined(n)
        }),
        spec_check_identifier(m, s) matches Ok(n) ==> {
            &&& n == spec_trim(s)
            &&& n.len() > 0
            &&& is_alpha(n[0])
            &&& forall|k: int| 0 <= k < n.len() ==> is_alnum(#[trigger] n[k]) || n[k] == 0x5f
        },
{
    let n = spec_trim(s);
    if spec_check_identifier(m, s) is Ok {
        assert forall|k: int| 0 <= k < n.len() implies is_alnum(#[trigger] n[k]) || n[k] == 0x5f by {
            assert((|c: u8| is_alnum(c) || c == 0x5f)(n[k]));
        }
    }
}

/// A static pushed onto statics that lack its name is found at the end.
proof fn lemma_find_new_global(gs: Seq<GlobalModel>, g: GlobalModel, i: int)
    requires
        0 <= i <= gs.len(),
        find_global_from(gs, g.name, i) is None,
    ensures
        find_global_from(gs.push(g), g.name, i) == Some(gs.len() as int),
    decreases gs.len() - i,
{
    if i < gs.len() {
        assert(gs.push(g)[i] == gs[i]);
        lemma_find_new_global(gs, g, i + 1);
    }
}

/// `@len(name)` is the number of bytes of the static `name`.
pub proof fn lemma_len_reads_static(m: ProgramModel, name: Seq<u8>)
    requires
        m.global_index(name) is Some,
    ensures
        spec_try_resolve_imm(m, lit("@len(") + name + lit(")")) == Ok::<
            Option<crate::immediate::ImmediateModel>,
            Fail,
        >(Some(ImmediateOf::ImmU64(m.globals[m.global_index(name).unwrap()].data.len() as u64))),
{
    reveal(spec_try_resolve_imm);
    reveal_strlit("@len(");
    reveal_strlit(")");
    reveal_strlit("@");
    reveal_strlit("(");
    reveal_strlit("f64");
    reveal_strlit("f32");
    reveal_strlit("len");
    vstd::string::is_ascii_spec_bytes("@len(");
    vstd::string::is_ascii_spec_bytes(")");
    vstd::string::is_ascii_spec_bytes("@");
    vstd::string::is_ascii_spec_bytes("(");
    vstd::string::is_ascii_spec_bytes("f64");
    vstd::string::is_ascii_spec_bytes("f32");
    vstd::string::is_ascii_spec_bytes("len");
    let s = lit("@len(") + name + lit(")");
    assert(lit("@len(") =~= seq![0x40u8, 0x6cu8, 0x65u8, 0x6eu8, 0x28u8]);
    assert(lit(")") =~= seq![0x29u8]);
    assert(lit("@") =~= seq![0x40u8]);
    assert(lit("(") =~= seq![0x28u8]);
    assert(lit("len") =~= seq![0x6cu8, 0x65u8, 0x6eu8]);
    assert(lit("f64") =~= seq![0x66u8, 0x36u8, 0x34u8]);
    assert(lit("f32") =~= seq![0x66u8, 0x33u8, 0x32u8]);
    assert(s[0] == 0x40u8);
    lemma_trim_keeps_leading_non_ws(s);
    assert(s[s.len() - 1] == 0x29u8);
    assert(ws_len_back(s) == 0);
    assert(spec_trim_end(s) == s);
    assert(spec_trim(s) == s);
    assert(s.subrange(0, 1) =~= lit("@"));
    let rest = s.subrange(1, s.len() as int);
    assert(spec_strip_prefix(s, lit("@")) == Some(rest));
    assert(rest[0] == 0x6cu8 && rest[1] == 0x65u8 && rest[2] == 0x6eu8 && rest[3] == 0x28u8);
    assert(rest.subrange(0, 1) != lit("(")) by {
        assert(rest.subrange(0, 1)[0] == 0x6cu8);
    }
    assert(rest.subrange(1, 2) != lit("(")) by {
        assert(rest.subrange(1, 2)[0] == 0x65u8);
    }
    assert(rest.subrange(2, 3) != lit("(")) by {
        assert(rest.subrange(2, 3)[0] == 0x6eu8);
    }
    assert(rest.subrange(3, 4) =~= lit("("));
    assert(spec_find_from(rest, lit("("), 3) == Some(3int));
    assert(spec_find_from(rest, lit("("), 2) == Some(3int));
    assert(spec_find_from(rest, lit("("), 1) == Some(3int));
    assert(spec_find_from(rest, lit("("), 0) == Some(3int));
    let key = rest.subrange(0, 3);
    let r = rest.subrange(4, rest.len() as int);
    assert(key =~= lit("len"));
    assert(key != lit("f64")) by {
        assert(key[0] != lit("f64")[0]);
    }
    assert(key != lit("f32")) by {
        assert(key[0] != lit("f32")[0]);
    }
    assert(spec_split_once(rest, lit("(")) == Some((key, r)));
    assert(r.subrange(r.len() - 1, r.len() as int) =~= lit(")"));
    assert(r.subrange(0, r.len() - 1) =~= name);
    assert(spec_strip_suffix(r, lit(")")) == Some(name));
}

/// After `static name = value`, `@len(name)` is the number of bytes of the value.
pub proof fn lemma_static_len(m: ProgramModel, rest: Seq<u8>)
    requires
        spec_parse_static(m, rest) is Ok,
    ensures
        ({
            let (first, value) = spec_split_once(rest, lit("=")).unwrap();
            let imm = spec_try_resolve_imm(m, value).unwrap().unwrap();
            let m2 = spec_parse_static(m, rest).unwrap();
            spec_try_resolve_imm(m2, lit("@len(") + spec_trim(first) + lit(")")) == Ok::<
                Option<crate::immediate::ImmediateModel>,
                Fail,
            >(Some(ImmediateOf::ImmU64(imm.spec_bytes().len() as u64)))
        }),
{
    let (first, value) = spec_split_once(rest, lit("=")).unwrap();
    let m2 = spec_parse_static(m, rest).unwrap();
    let g = m2.globals.last();
    assert(m2.globals == m.globals.push(g));
    lemma_find_new_global(m.globals, g, 0);
    lemma_len_reads_static(m2, spec_trim(first));
}

/// The line `{` opens a block and the line `}` right after it closes it, giving the
/// program back.
pub proof fn lemma_braces_undo(m: ProgramModel)
    ensures
        spec_parse_line(m, lit("{")) == Ok::<ProgramModel, Fail>(m.open_block()),
        spec_parse_line(m.open_block(), lit("}")) == Ok::<ProgramModel, Fail>(m),
{
    reveal(spec_parse_line);
    reveal_strlit("{");
    reveal_strlit("}");
    vstd::string::is_ascii_spec_bytes("{");
    vstd::string::is_ascii_spec_bytes("}");
    assert(lit("{") =~= seq![0x7bu8]);
    assert(lit("}") =~= seq![0x7du8]);
    lemma_trim_keeps_leading_non_ws(lit("{"));
    lemma_trim_keeps_leading_non_ws(lit("}"));
    assert(ws_len_back(lit("{")) == 0);
    assert(ws_len_back(lit("}")) == 0);
    assert(spec_trim(lit("{")) == lit("{"));
    assert(spec_trim(lit("}")) == lit("}"));
    assert(lit("}") != lit("{")) by {
        assert(lit("}")[0] != lit("{")[0]);
    }
    lemma_open_close_block(m);
}

/// The code of `m` is a prefix of the code of `m2`: nothing written was changed.
pub open spec fn keeps_code(m: ProgramModel, m2: ProgramModel) -> bool {
    m.code.len() <= m2.code.len() && m2.code.subrange(0, m.code.len() as int) == m.code
}

/// Appending keeps the code.
pub broadcast proof fn lemma_emit_keeps(m: ProgramModel, b: Seq<u8>)
    ensures
        #[trigger] keeps_code(m, m.emit(b)),
{
    assert(m.emit(b).code.subrange(0, m.code.len() as int) =~= m.code);
}

/// Keeping the code is transitive.
pub broadcast proof fn lemma_keeps_trans(a: ProgramModel, b: ProgramModel, c: ProgramModel)
    requires
        #[trigger] keeps_code(a, b),
        #[trigger] keeps_code(b, c),
    ensures
        keeps_code(a, c),
{
    assert(c.code.subrange(0, a.code.len() as int) =~= c.code.subrange(0, b.code.len() as int).subrange(
        0,
        a.code.len() as int,
    ));
}

/// A one-operand instruction of an explicit size only appends.
pub broadcast proof fn lemma_unary_with_size_keeps(
    m: ProgramModel,
    opcode: u8,
    ext_opcode: bool,
    extension: Option<u8>,
    place: PlaceModel,
    no_rexw: bool,
    size: Size,
)
    ensures
        #[trigger] spec_unary_with_size(m, opcode, ext_opcode, extension, place, no_rexw, size) is Ok
            ==> keeps_code(
            m,
            spec_unary_with_size(m, opcode, ext_opcode, extension, place, no_rexw, size).unwrap(),
        ),
{
    reveal(spec_unary_with_size);
    if let Ok(b) = crate::program::encode::spec_unary_inner(opcode, ext_opcode, extension, place, no_rexw, size) {
        lemma_emit_keeps(m, b);
    }
}

/// A one-operand instruction only appends.
pub broadcast proof fn lemma_unary_keeps(
    m: ProgramModel,
    opcode: u8,
    ext_opcode: bool,
    extension: Option<u8>,
    place: PlaceModel,
    no_rexw: bool,
)
    ensures
        #[trigger] spec_unary(m, opcode, ext_opcode, extension, place, no_rexw) is Ok ==> keeps_code(
            m,
            spec_unary(m, opcode, ext_opcode, extension, place, no_rexw).unwrap(),
        ),
{
    reveal(spec_unary);
    if let Some(size) = place.spec_size() {
        lemma_unary_with_size_keeps(m, opcode, ext_opcode, extension, place, no_rexw, size);
    }
}

/// A one-operand instruction with an immediate only appends.
pub broadcast proof fn lemma_unary_with_imm_keeps(
    m: ProgramModel,
    opcode: u8,
    extension: Option<u8>,
    place: PlaceModel,
    no_rexw: bool,
    imm: ImmediateModel,
    imm_size: Size,
    signed: bool,
)
    ensures
        #[trigger] spec_unary_with_imm(m, opcode, extension, place, no_rexw, imm, imm_size, signed) is Ok
            ==> keeps_code(
            m,
            spec_unary_with_imm(m, opcode, extension, place, no_rexw, imm, imm_size, signed).unwrap(),
        ),
{
    reveal(spec_unary_with_imm);
    if let Some(size) = place.spec_size() {
        if let Ok(b) = crate::program::encode::spec_unary_inner(opcode, false, extension, place, no_rexw, size) {
            if let Some(ib) = crate::program::encode::spec_imm_bytes(imm, imm_size, signed) {
                assert(m.emit(b).emit(ib) == m.emit(b + ib));
                lemma_emit_keeps(m, b + ib);
            }
        }
    }
}

/// A two-operand instruction of an explicit size only appends.
pub broadcast proof fn lemma_binary_with_size_keeps(
    m: ProgramModel,
    opcode: u8,
    ext_opcode: bool,
    p1: PlaceModel,
    p2: PlaceModel,
    no_rexw: bool,
    size: Size,
)
    ensures
        #[trigger] spec_binary_with_size(m, opcode, ext_opcode, p1, p2, no_rexw, size) is Ok
            ==> keeps_code(m, spec_binary_with_size(m, opcode, ext_opcode, p1, p2, no_rexw, size).unwrap()),
{
    reveal(spec_binary_with_size);
    if let Ok(b) = crate::program::encode::spec_binary_inner(opcode, ext_opcode, p1, p2, no_rexw, size) {
        lemma_emit_keeps(m, b);
    }
}

/// A two-operand instruction only appends.
pub broadcast proof fn lemma_binary_keeps(
    m: ProgramModel,
    opcode: u8,
    ext_opcode: bool,
    p1: PlaceModel,
    p2: PlaceModel,
    no_rexw: bool,
)
    ensures
        #[trigger] spec_binary(m, opcode, ext_opcode, p1, p2, no_rexw) is Ok ==> keeps_code(
            m,
            spec_binary(m, opcode, ext_opcode, p1, p2, no_rexw).unwrap(),
        ),
{
    reveal(spec_binary);
    if let Some(size) = crate::program::encode::spec_operand_size(p1, p2) {
        lemma_binary_with_size_keeps(m, opcode, ext_opcode, p1, p2, no_rexw, size);
    }
}

/// A two-operand instruction with an immediate only appends.
pub broadcast proof fn lemma_binary_with_imm_keeps(
    m: ProgramModel,
    opcode: u8,
    ext_opcode: bool,
    p1: PlaceModel,
    p2: PlaceModel,
    no_rexw: bool,
    size: Size,
    imm: ImmediateModel,
    imm_size: Size,
)
    ensures
        #[trigger] spec_binary_with_imm(m, opcode, ext_opcode, p1, p2, no_rexw, size, imm, imm_size) is Ok
            ==> keeps_code(
            m,
            spec_binary_with_imm(m, opcode, ext_opcode, p1, p2, no_rexw, size, imm, imm_size).unwrap(),
        ),
{
    reveal(spec_binary_with_imm);
    if let Ok(b) = crate::program::encode::spec_binary_inner(opcode, ext_opcode, p1, p2, no_rexw, size) {
        if let Some(ib) = crate::program::encode::spec_imm_bytes(imm, imm_size, true) {
            assert(m.emit(b).emit(ib) == m.emit(b + ib));
            lemma_emit_keeps(m, b + ib);
        }
    }
}

/// Every program keeps its own code.
pub broadcast proof fn lemma_keeps_refl(m: ProgramModel)
    ensures
        #[trigger] keeps_code(m, m),
{
    assert(m.code.subrange(0, m.code.len() as int) =~= m.code);
}

pub broadcast group group_keeps_code {
    lemma_keeps_refl,
    lemma_emit_keeps,
    lemma_keeps_trans,
    lemma_unary_with_size_keeps,
    lemma_unary_keeps,
    lemma_unary_with_imm_keeps,
    lemma_binary_with_size_keeps,
    lemma_binary_keeps,
    lemma_binary_with_imm_keeps,
}

/// A multiplication by a constant only appends.
pub proof fn lemma_mul_search_keeps(m: ProgramModel, lhs: PlaceModel, rv: Seq<u8>, from: int)
    ensures
        spec_mul_search(m, lhs, rv, from) is Ok ==> keeps_code(m, spec_mul_search(m, lhs, rv, from).unwrap()),
    decreases rv.len() + 1 - from,
{
    broadcast use group_keeps_code;
    if let Some(pos) = spec_find_from(rv, star(), from) {
        let next = pos + star().len();
        let first = spec_trim(rv.subrange(0, pos));
        let second = spec_trim(rv.subrange(next, rv.len() as int));
        if !(place_of(first) is Some || place_of(second) is Some) && from < next <= rv.len() {
            lemma_mul_search_keeps(m, lhs, rv, next);
        }
    }
}

/// The comparison of `@set_flags` only appends.
pub proof fn lemma_compare_search_keeps(m: ProgramModel, s: Seq<u8>, from: int)
    ensures
        spec_compare_search(m, s, from) is Ok ==> keeps_code(m, spec_compare_search(m, s, from).unwrap()),
    decreases s.len() + 1 - from,
{
    broadcast use group_keeps_code;
    if let Some(pos) = spec_find_from(s, minus_sep(), from) {
        let next = pos + minus_sep().len();
        let first = spec_trim(s.subrange(0, pos));
        if place_of(first) is Some {
            lemma_basic_keeps(m, first, spec_trim(s.subrange(next, s.len() as int)), 0x3c, 7, 0x38);
        } else if from < next <= s.len() {
            lemma_compare_search_keeps(m, s, next);
        }
    }
}

/// An assignment only appends.
pub proof fn lemma_assign_keeps(m: ProgramModel, lvalue: Seq<u8>, rvalue: Seq<u8>)
    ensures
        spec_parse_assign(m, lvalue, rvalue) is Ok ==> keeps_code(m, spec_parse_assign(m, lvalue, rvalue).unwrap()),
{
    broadcast use group_keeps_code;
    if let Some(lhs) = place_of(spec_trim(lvalue)) {
        lemma_mul_search_keeps(m, lhs, rvalue, 0);
    }
}

/// The statements that set up a call only append.
pub proof fn lemma_setup_parts_keeps(m: ProgramModel, s: Seq<u8>)
    ensures
        spec_setup_parts(m, s) is Ok ==> keeps_code(m, spec_setup_parts(m, s).unwrap()),
    decreases s.len(),
{
    broadcast use group_keeps_code;
    match spec_find(s, comma_sep()) {
        Some(i) => {
            let p = s.subrange(0, i);
            lemma_setup_part_keeps(m, p);
            if let Ok(m2) = spec_setup_part(m, p) {
                if 0 <= i && i + 2 <= s.len() {
                    lemma_setup_parts_keeps(m2, s.subrange(i + 2, s.len() as int));
                }
            }
        },
        None => lemma_setup_part_keeps(m, s),
    }
}

proof fn lemma_setup_part_keeps(m: ProgramModel, p: Seq<u8>)
    ensures
        spec_setup_part(m, p) is Ok ==> keeps_code(m, spec_setup_part(m, p).unwrap()),
{
    broadcast use group_keeps_code;
    if let Some((l, r)) = spec_split_once(p, lit(" ^= ")) {
        lemma_basic_keeps(m, l, r, 0x34, 6, 0x30);
    } else if let Some((l, r)) = spec_split_once(p, lit(" = ")) {
        lemma_assign_keeps(m, l, r);
    }
}

/// The set-up of a call only appends.
pub proof fn lemma_call_setup_keeps(m: ProgramModel, inner: Seq<u8>)
    ensures
        spec_call_setup(m, inner) is Ok ==> keeps_code(m, spec_call_setup(m, inner).unwrap()),
{
    if inner.len() == 0 {
        lemma_keeps_refl(m);
    } else {
        lemma_setup_parts_keeps(m, inner);
    }
}

/// A call only appends.
pub proof fn lemma_calls_keep(m: ProgramModel, name: Seq<u8>, inner: Seq<u8>)
    ensures
        spec_parse_call(m, name, inner) is Ok ==> keeps_code(m, spec_parse_call(m, name, inner).unwrap()),
        spec_parse_virtual_call(m, name, inner) is Ok ==> keeps_code(
            m,
            spec_parse_virtual_call(m, name, inner).unwrap(),
        ),
{
    lemma_call_setup_keeps(m, inner);
    if let Ok(m2) = spec_call_setup(m, inner) {
        let m3 = m2.emit(seq![0xe8u8, 0u8, 0u8, 0u8, 0u8]);
        lemma_emit_keeps(m2, seq![0xe8u8, 0u8, 0u8, 0u8, 0u8]);
        lemma_keeps_trans(m, m2, m3);
        if let Some(lhs) = place_of(name) {
            lemma_unary_keeps(m2, 0xff, false, Some(2), lhs, true);
            if spec_unary(m2, 0xff, false, Some(2), lhs, true) is Ok {
                lemma_keeps_trans(m, m2, spec_unary(m2, 0xff, false, Some(2), lhs, true).unwrap());
            }
        }
    }
}

/// A builtin made of a set-up and a fixed encoding only appends.
proof fn lemma_builtin_function_keeps(m: ProgramModel, inner: Seq<u8>, enc: Seq<u8>, atomic: bool)
    ensures
        spec_builtin_function(m, inner, enc, atomic) is Ok ==> keeps_code(
            m,
            spec_builtin_function(m, inner, enc, atomic).unwrap(),
        ),
{
    lemma_call_setup_keeps(m, inner);
    if let Ok(m2) = spec_call_setup(m, inner) {
        lemma_emit_keeps(m2, enc);
        lemma_keeps_trans(m, m2, m2.emit(enc));
    }
}

/// The builtins on register pairs and operand pairs only append.
proof fn lemma_pair_builtins_keep(m: ProgramModel, inner: Seq<u8>, atomic: bool, signed: bool)
    ensures
        spec_parse_divmod(m, inner, signed) is Ok ==> keeps_code(m, spec_parse_divmod(m, inner, signed).unwrap()),
        spec_parse_widen_mul(m, inner, signed) is Ok ==> keeps_code(
            m,
            spec_parse_widen_mul(m, inner, signed).unwrap(),
        ),
        spec_parse_xchg(m, inner) is Ok ==> keeps_code(m, spec_parse_xchg(m, inner).unwrap()),
        spec_parse_xadd(m, inner, atomic) is Ok ==> keeps_code(m, spec_parse_xadd(m, inner, atomic).unwrap()),
        spec_parse_try_replace(m, inner, atomic) is Ok ==> keeps_code(
            m,
            spec_parse_try_replace(m, inner, atomic).unwrap(),
        ),
{
    broadcast use group_keeps_code;
    if let Some((_, rhs)) = spec_split_once(inner, lit(", ")) {
        lemma_basic_unary_keeps(m, rhs, 0xf6, if signed { 7 } else { 6 }, false);
    }
    lemma_lock_keeps(m, atomic);
}

/// `@set_flags` only appends.
proof fn lemma_set_flags_keeps(m: ProgramModel, inner: Seq<u8>)
    ensures
        spec_set_flags(m, inner) is Ok ==> keeps_code(m, spec_set_flags(m, inner).unwrap()),
{
    if let Some((first, rest)) = spec_split_once(inner, lit(" & ")) {
        lemma_shift_mul_test_keep(m, first, rest, 0);
    } else {
        lemma_compare_search_keeps(m, inner, 0);
    }
}

/// A builtin only appends.
pub proof fn lemma_builtin_keeps(m: ProgramModel, name: Seq<u8>, inner0: Seq<u8>, atomic: bool)
    ensures
        spec_parse_builtin(m, name, inner0, atomic) is Ok ==> keeps_code(
            m,
            spec_parse_builtin(m, name, inner0, atomic).unwrap(),
        ),
{
    reveal(spec_parse_builtin);
    let inner = spec_trim(inner0);
    match builtin_encoding(name) {
        Some(enc) => lemma_builtin_function_keeps(m, inner, enc, atomic),
        None => {
            if let Some(d) = crate::strings::spec_parse_string(inner) {
                lemma_emit_keeps(m, d);
            }
            lemma_unary_keeps(m, 0xc7, true, Some(6), place_of(inner).unwrap(), false);
            lemma_unary_keeps(m, 0xc7, true, Some(7), place_of(inner).unwrap(), false);
            lemma_basic_unary_keeps(m, inner, 0xf6, 3, atomic);
            lemma_basic_unary_keeps(m, inner, 0xf6, 2, atomic);
            lemma_pair_builtins_keep(m, inner, atomic, true);
            lemma_pair_builtins_keep(m, inner, atomic, false);
            lemma_set_flags_keeps(m, inner);
            lemma_emit_keeps(m, seq![0xfcu8]);
            lemma_emit_keeps(m, seq![0xfdu8]);
        },
    }
}

/// `push` and `pop` only append.
pub proof fn lemma_push_pop_keep(m: ProgramModel, rest: Seq<u8>)
    ensures
        spec_parse_push(m, rest) is Ok ==> keeps_code(m, spec_parse_push(m, rest).unwrap()),
        spec_parse_pop(m, rest) is Ok ==> keeps_code(m, spec_parse_pop(m, rest).unwrap()),
{
    broadcast use group_keeps_code;
}

/// A one-operand arithmetic instruction only appends.
pub proof fn lemma_basic_unary_keeps(m: ProgramModel, lvalue: Seq<u8>, opcode: u8, ext: u8, atomic: bool)
    ensures
        spec_parse_basic_unary(m, lvalue, opcode, ext, atomic) is Ok ==> keeps_code(
            m,
            spec_parse_basic_unary(m, lvalue, opcode, ext, atomic).unwrap(),
        ),
{
    broadcast use group_keeps_code;
    if let Some(place) = place_of(lvalue) {
        let op = if place is Reg8 || (place is Memory && place.spec_size() == Some(Size::Byte)) {
            opcode
        } else {
            (opcode + 1) as u8
        };
        let m1 = lock_if(m, atomic);
        lemma_lock_keeps(m, atomic);
        lemma_unary_keeps(m1, op, false, Some(ext), place, false);
        if spec_unary(m1, op, false, Some(ext), place, false) is Ok {
            lemma_keeps_trans(m, m1, spec_unary(m1, op, false, Some(ext), place, false).unwrap());
        }
    }
}

/// The `lock` prefix only appends.
pub proof fn lemma_lock_keeps(m: ProgramModel, atomic: bool)
    ensures
        keeps_code(m, lock_if(m, atomic)),
{
    broadcast use group_keeps_code;
    if atomic {
        lemma_emit_keeps(m, seq![0xf0u8]);
    } else {
        lemma_keeps_refl(m);
    }
}

/// A compound assignment only appends.
pub proof fn lemma_basic_keeps(m: ProgramModel, lvalue: Seq<u8>, rvalue: Seq<u8>, opcode1: u8, ext: u8, opcode2: u8)
    ensures
        spec_parse_basic(m, lvalue, rvalue, opcode1, ext, opcode2) is Ok ==> keeps_code(
            m,
            spec_parse_basic(m, lvalue, rvalue, opcode1, ext, opcode2).unwrap(),
        ),
{
    broadcast use group_keeps_code;
    if let Some(lhs) = place_of(spec_trim(lvalue)) {
        let (rv, atomic) = crate::opcodes::spec_extract_atomic_suffix(spec_trim(rvalue));
        let m1 = lock_if(m, atomic);
        lemma_lock_keeps(m, atomic);
        match spec_try_resolve_imm(m, rv) {
            Ok(Some(imm)) => {
                let r = crate::program::instructions::spec_basic_imm(m1, lhs, imm, opcode1, ext);
                if r is Ok {
                    assert(keeps_code(m1, r.unwrap()));
                    lemma_keeps_trans(m, m1, r.unwrap());
                }
            },
            Ok(None) => {
                if let Some(rhs) = place_of(rv) {
                    if let Ok(size) = crate::place::spec_coerce_size(lhs.spec_size(), rhs.spec_size()) {
                        let opcode = if rhs.spec_register() is Some {
                            if size == Size::Byte {
                                opcode2
                            } else {
                                (opcode2 + 1) as u8
                            }
                        } else {
                            if size == Size::Byte {
                                (opcode2 + 2) as u8
                            } else {
                                (opcode2 + 3) as u8
                            }
                        };
                        let r = spec_binary_with_size(m1, opcode, false, lhs, rhs, false, size);
                        if r is Ok {
                            lemma_keeps_trans(m, m1, r.unwrap());
                        }
                    }
                }
            },
            Err(_) => {},
        }
    }
}

/// A shift, an in-place multiplication and a `test` only append.
pub proof fn lemma_shift_mul_test_keep(m: ProgramModel, lvalue: Seq<u8>, rvalue: Seq<u8>, ext: u8)
    ensures
        spec_parse_basic_shift(m, lvalue, rvalue, ext) is Ok ==> keeps_code(
            m,
            spec_parse_basic_shift(m, lvalue, rvalue, ext).unwrap(),
        ),
        spec_parse_imul_inplace(m, lvalue, rvalue) is Ok ==> keeps_code(
            m,
            spec_parse_imul_inplace(m, lvalue, rvalue).unwrap(),
        ),
        spec_parse_test(m, lvalue, rvalue) is Ok ==> keeps_code(m, spec_parse_test(m, lvalue, rvalue).unwrap()),
{
    broadcast use group_keeps_code;
}

/// `break`, `continue` and `goto` only append.
proof fn lemma_jumps_keep(m: ProgramModel, rest: Seq<u8>)
    ensures
        spec_parse_break(m, rest) is Ok ==> keeps_code(m, spec_parse_break(m, rest).unwrap()),
        spec_parse_continue(m, rest) is Ok ==> keeps_code(m, spec_parse_continue(m, rest).unwrap()),
        spec_parse_goto(m, rest) is Ok ==> keeps_code(m, spec_parse_goto(m, rest).unwrap()),
{
    if m.blocks.len() > 0 {
        lemma_jump_back_keeps(m, m.blocks.last().0 as int, spec_trim(rest), false);
        if let Ok((prefix, opcode)) = crate::opcodes::spec_jmp_opcode(spec_trim(rest), true) {
            lemma_emit_keeps(m, crate::program::lines::jump_rel32(prefix, opcode));
        }
    }
    lemma_goto_keeps(m, rest);
}

proof fn lemma_goto_keeps(m: ProgramModel, rest: Seq<u8>)
    ensures
        spec_parse_goto(m, rest) is Ok ==> keeps_code(m, spec_parse_goto(m, rest).unwrap()),
{
    let (first, second) = match spec_split_once(spec_trim(rest), lit(" ")) {
        Some(p) => p,
        None => (rest, seq![]),
    };
    let cond = spec_trim(second);
    if let Some(i) = m.label_index(spec_trim(first)) {
        lemma_jump_back_keeps(m, m.label_locations[i] as int, cond, true);
        if let Ok((prefix, opcode)) = crate::opcodes::spec_jmp_opcode(cond, true) {
            lemma_emit_keeps(m, crate::program::lines::jump_rel32(prefix, opcode));
        }
    }
}

proof fn lemma_jump_back_keeps(m: ProgramModel, target: int, cond: Seq<u8>, reject_e3: bool)
    ensures
        spec_jump_back(m, target, cond, reject_e3) is Ok ==> keeps_code(
            m,
            spec_jump_back(m, target, cond, reject_e3).unwrap(),
        ),
{
    broadcast use group_keeps_code;
}

/// Filling in displacements keeps the length of the code.
proof fn lemma_patch_all_len(code: Seq<u8>, refs: Seq<usize>, end: int)
    ensures
        patch_all(code, refs, end) is Ok ==> patch_all(code, refs, end).unwrap().len() == code.len(),
    decreases refs.len(),
{
    if refs.len() > 0 {
        lemma_patch_all_len(code, refs.drop_last(), end);
        if let Ok(c) = patch_all(code, refs.drop_last(), end) {
            if patch_rel32(c, refs.last() as int, end) is Ok {
                lemma_displacement_roundtrip(c, refs.last() as int, (end - refs.last()) as i32);
            }
        }
    }
}

/// Assignments and compound assignments only append.
proof fn lemma_compound_keeps(m: ProgramModel, line: Seq<u8>)
    ensures
        spec_parse_compound(m, line) is Ok ==> keeps_code(m, spec_parse_compound(m, line).unwrap()),
{
    if let Some((l, r)) = spec_split_once(line, lit(" <<= ")) {
        lemma_shift_mul_test_keep(m, l, r, 4);
    } else if let Some((l, r)) = spec_split_once(line, lit(" >>= ")) {
        lemma_shift_mul_test_keep(m, l, r, 7);
    } else if let Some((l, r)) = spec_split_once(line, lit(" >>>= ")) {
        lemma_shift_mul_test_keep(m, l, r, 5);
    } else if let Some((l, r)) = spec_split_once(line, lit(" *= ")) {
        lemma_shift_mul_test_keep(m, l, r, 0);
    } else if let Some((l, r)) = spec_split_once(line, lit(" ^= ")) {
        lemma_basic_keeps(m, l, r, 0x34, 6, 0x30);
    } else if let Some((l, r)) = spec_split_once(line, lit(" |= ")) {
        lemma_basic_keeps(m, l, r, 0x0c, 1, 0x08);
    } else if let Some((l, r)) = spec_split_once(line, lit(" &= ")) {
        lemma_basic_keeps(m, l, r, 0x24, 4, 0x20);
    } else if let Some((l, r)) = spec_split_once(line, lit(" += ")) {
        lemma_basic_keeps(m, l, r, 0x04, 0, 0x00);
    } else if let Some((l, r)) = spec_split_once(line, lit(" -= ")) {
        lemma_basic_keeps(m, l, r, 0x2c, 5, 0x28);
    } else if let Some((l, r)) = spec_split_once(line, lit(" = ")) {
        lemma_assign_keeps(m, l, r);
    } else if let Some(rest) = crate::text::spec_strip_suffix(line, lit(" atomically")) {
        if let Some(x) = crate::text::spec_strip_suffix(rest, lit("++")) {
            lemma_basic_unary_keeps(m, x, 0xfe, 0, true);
        } else if let Some(x) = crate::text::spec_strip_suffix(rest, lit("--")) {
            lemma_basic_unary_keeps(m, x, 0xfe, 1, true);
        }
    }
}

/// Instruction lines only append.
proof fn lemma_statement_keeps(m: ProgramModel, line: Seq<u8>)
    ensures
        spec_parse_statement(m, line) is Ok ==> keeps_code(m, spec_parse_statement(m, line).unwrap()),
{
    reveal(spec_parse_statement);
    if let Some(rest) = spec_strip_prefix(line, lit("<- ")) {
        lemma_push_pop_keep(m, rest);
    } else if let Some(rest) = spec_strip_prefix(line, lit("-> ")) {
        lemma_push_pop_keep(m, rest);
    } else if let Some(rest) = spec_strip_prefix(line, lit("goto")) {
        lemma_jumps_keep(m, rest);
    } else if let Some(rest) = spec_strip_prefix(line, lit("continue")) {
        lemma_jumps_keep(m, rest);
    } else if let Some(rest) = spec_strip_prefix(line, lit("break")) {
        lemma_jumps_keep(m, rest);
    } else if let Some(rest) = crate::text::spec_strip_suffix(line, lit("++")) {
        lemma_basic_unary_keeps(m, rest, 0xfe, 0, false);
    } else if let Some(rest) = crate::text::spec_strip_suffix(line, lit("--")) {
        lemma_basic_unary_keeps(m, rest, 0xfe, 1, false);
    } else {
        match spec_parse_function_call(line) {
            Some((name, inner, _)) => lemma_calls_keep(m, name, inner),
            None => lemma_compound_keeps(m, line),
        }
    }
}

/// Assembling a line never changes code already written, except the line `}`, which only
/// fills in the displacements of its block's `break`s and keeps the length of the code.
pub proof fn lemma_line_keeps_code(m: ProgramModel, line: Seq<u8>)
    ensures
        spec_parse_line(m, line) is Ok ==> ({
            let m2 = spec_parse_line(m, line).unwrap();
            if spec_trim(line) == lit("}") {
                m2.code.len() == m.code.len()
            } else {
                keeps_code(m, m2)
            }
        }),
{
    reveal(spec_parse_line);
    let l = spec_trim(line);
    lemma_keeps_refl(m);
    if l == lit("{") {
    } else if l == lit("}") {
        if m.blocks.len() > 0 {
            lemma_patch_all_len(m.code, m.blocks.last().1, m.code.len() as int);
        }
    } else if l == lit("trap") {
        lemma_emit_keeps(m, seq![0x0fu8, 0x0bu8]);
    } else if l == lit("pause") {
        lemma_emit_keeps(m, seq![0xf3u8, 0x90u8]);
    } else if l == lit("return") {
        lemma_emit_keeps(m, seq![0xc3u8]);
    } else if let Some(rest) = spec_strip_prefix(l, lit("@")) {
        let (r, atomic) = crate::opcodes::spec_extract_atomic_suffix(rest);
        if let Some((name, r2)) = spec_split_once(r, lit("(")) {
            if let Some(inner) = crate::text::spec_strip_suffix(r2, lit(")")) {
                lemma_builtin_keeps(m, name, inner, atomic);
            }
        }
    } else {
        lemma_statement_keeps(m, l);
    }
}

/// The little-endian field of `n` bytes at `at`.
pub open spec fn le_field(c: Seq<u8>, at: int, n: int) -> nat {
    le_value(c.subrange(at, at + n))
}

/// The ELF header appended after code of length `h`: a 64-byte header of a 64-bit
/// little-endian x86-64 Linux executable (`e_machine` 0x3e), with one 56-byte program
/// header right after it and the entry point right after that.
pub open spec fn is_x86_64_elf_header(c: Seq<u8>, h: int) -> bool {
    &&& c.len() >= h + 64
    &&& c.subrange(h, h + 4) == seq![0x7fu8, 0x45u8, 0x4cu8, 0x46u8]
    &&& c[h + 4] == 2
    &&& c[h + 5] == 1
    &&& c[h + 6] == 1
    &&& c[h + 7] == 3
    &&& le_field(c, h + 8, 8) == 0
    &&& le_field(c, h + 16, 2) == 3
    &&& le_field(c, h + 18, 2) == 0x3e
    &&& le_field(c, h + 20, 4) == 1
    &&& le_field(c, h + 24, 8) == 64 + 56
    &&& le_field(c, h + 32, 8) == 64
    &&& le_field(c, h + 40, 8) == 0
    &&& le_field(c, h + 48, 4) == 0
    &&& le_field(c, h + 52, 2) == 64
    &&& le_field(c, h + 54, 2) == 56
    &&& le_field(c, h + 56, 2) == 1
    &&& le_field(c, h + 58, 2) == 64
    &&& le_field(c, h + 60, 2) == 0
    &&& le_field(c, h + 62, 2) == 0
}

/// Appending the ELF header to any program keeps its code and adds the header of an
/// x86-64 Linux executable; a program assembled from the headers starts with one.
pub proof fn lemma_elf_header_fields(m: ProgramModel)
    ensures
        m.emit(elf_header()).code.subrange(0, m.code.len() as int) == m.code,
        m.emit(elf_header()).code.len() == m.code.len() + 64,
        is_x86_64_elf_header(m.emit(elf_header()).code, m.code.len() as int),
        forall|f64_bits: Seq<(Seq<u8>, u64)>, f32_bits: Seq<(Seq<u8>, u32)>|
            is_x86_64_elf_header(#[trigger] headers_only(f64_bits, f32_bits).code, 0),
{
    reveal_with_fuel(le_value, 9);
    let c = m.emit(elf_header()).code;
    let h = m.code.len() as int;
    assert(c.subrange(0, h) =~= m.code);
    let e = elf_header();
    assert(c.subrange(h, h + 64) =~= e);
    assert forall|at: int, n: int| 0 <= at && n >= 0 && at + n <= 64 implies le_field(c, h + at, n) == le_field(
        e,
        at,
        n,
    ) by {
        assert(c.subrange(h + at, h + at + n) =~= e.subrange(at, at + n));
    }
    assert(c.subrange(h, h + 4) =~= seq![0x7fu8, 0x45u8, 0x4cu8, 0x46u8]);
    assert(le_field(e, 8, 8) == 0);
    assert(le_field(e, 16, 2) == 3);
    assert(le_field(e, 18, 2) == 0x3e);
    assert(le_field(e, 20, 4) == 1);
    assert(le_field(e, 24, 8) == 120);
    assert(le_field(e, 32, 8) == 64);
    assert(le_field(e, 40, 8) == 0);
    assert(le_field(e, 48, 4) == 0);
    assert(le_field(e, 52, 2) == 64);
    assert(le_field(e, 54, 2) == 56);
    assert(le_field(e, 56, 2) == 1);
    assert(le_field(e, 58, 2) == 64);
    assert(le_field(e, 60, 2) == 0);
    assert(le_field(e, 62, 2) == 0);
    assert forall|f64_bits: Seq<(Seq<u8>, u64)>, f32_bits: Seq<(Seq<u8>, u32)>|
        is_x86_64_elf_header(#[trigger] headers_only(f64_bits, f32_bits).code, 0) by {
        let hc = headers_only(f64_bits, f32_bits).code;
        assert forall|at: int, n: int| 0 <= at && n >= 0 && at + n <= 64 implies le_field(hc, at, n) == le_field(
            e,
            at,
            n,
        ) by {
            assert(hc.subrange(at, at + n) =~= e.subrange(at, at + n));
        }
        assert(hc.subrange(0, 4) =~= seq![0x7fu8, 0x45u8, 0x4cu8, 0x46u8]);
    }
}

/// The program header at `h`: one loadable segment (`PT_LOAD`), readable, writable and
/// executable, loaded from the start of the file at address 0, with no alignment
/// requirement; its sizes are left zero until the program is finished.
pub open spec fn is_load_segment_header(c: Seq<u8>, h: int) -> bool {
    &&& c.len() >= h + 56
    &&& le_field(c, h, 4) == 1
    &&& le_field(c, h + 4, 4) == 7
    &&& le_field(c, h + 8, 8) == 0
    &&& le_field(c, h + 16, 8) == 0
    &&& le_field(c, h + 24, 8) == 0
    &&& le_field(c, h + 32, 8) == 0
    &&& le_field(c, h + 40, 8) == 0
    &&& le_field(c, h + 48, 8) == 0
}

/// Appending the program header to any program keeps its code and adds the header of one
/// loadable segment; a program assembled from the headers has it right after the ELF
/// header, where the ELF header says it is.
pub proof fn lemma_program_header_fields(m: ProgramModel)
    ensures
        m.emit(program_header()).code.subrange(0, m.code.len() as int) == m.code,
        m.emit(program_header()).code.len() == m.code.len() + 56,
        is_load_segment_header(m.emit(program_header()).code, m.code.len() as int),
        forall|f64_bits: Seq<(Seq<u8>, u64)>, f32_bits: Seq<(Seq<u8>, u32)>|
            is_load_segment_header(#[trigger] headers_only(f64_bits, f32_bits).code, 64),
{
    reveal_with_fuel(le_value, 9);
    let c = m.emit(program_header()).code;
    let h = m.code.len() as int;
    assert(c.subrange(0, h) =~= m.code);
    let e = program_header();
    assert forall|at: int, n: int| 0 <= at && n >= 0 && at + n <= 56 implies le_field(c, h + at, n) == le_field(
        e,
        at,
        n,
    ) by {
        assert(c.subrange(h + at, h + at + n) =~= e.subrange(at, at + n));
    }
    assert(le_field(e, 0, 4) == 1);
    assert(le_field(e, 4, 4) == 7);
    assert(le_field(e, 8, 8) == 0);
    assert(le_field(e, 16, 8) == 0);
    assert(le_field(e, 24, 8) == 0);
    assert(le_field(e, 32, 8) == 0);
    assert(le_field(e, 40, 8) == 0);
    assert(le_field(e, 48, 8) == 0);
    assert forall|f64_bits: Seq<(Seq<u8>, u64)>, f32_bits: Seq<(Seq<u8>, u32)>|
        is_load_segment_header(#[trigger] headers_only(f64_bits, f32_bits).code, 64) by {
        let hc = headers_only(f64_bits, f32_bits).code;
        assert forall|at: int, n: int| 0 <= at && n >= 0 && at + n <= 56 implies le_field(hc, 64 + at, n)
            == le_field(e, at, n) by {
            assert(hc.subrange(64 + at, 64 + at + n) =~= e.subrange(at, at + n));
        }
    }
}

/// Pushing a constant keeps the program but for the instruction it appends, which holds
/// the constant: `0x6a` and the byte for one written in a byte, `0x66 0x68` and its
/// 16-bit value for one that fits 16 signed bits, else `0x68` and its four-byte value.
/// Exactly the constants that fit 32 signed bits can be pushed.
pub proof fn lemma_push_constant(m: ProgramModel, imm: ImmediateModel)
    requires
        imm.spec_int() is Some,
    ensures
        ({
            let v = imm.spec_int().unwrap();
            let r = spec_push_imm(m, imm);
            let n = m.code.len() as int;
            &&& r is Ok <==> i32::MIN <= v <= i32::MAX
            &&& r matches Ok(m2) ==> {
                let d = m2.code.subrange(n, m2.code.len() as int);
                &&& m2 == (ProgramModel { code: m2.code, ..m })
                &&& m2.code.subrange(0, n) == m.code
                &&& (imm.spec_cast_u8() is Some ==> d.len() == 2 && d[0] == 0x6a && d[1] == v as u8)
                &&& (imm.spec_cast_u8() is None && i16::MIN <= v <= i16::MAX ==> d.len() == 4 && d[0]
                    == 0x66 && d[1] == 0x68 && (le_field(d, 2, 2) as u16) as i16 == v)
                &&& (!(i16::MIN <= v <= i16::MAX) ==> d.len() == 5 && d[0] == 0x68 && (le_field(d, 1, 4) as u32)
                    as i32 == v)
            }
        }),
{
    let v = imm.spec_int().unwrap();
    let n = m.code.len() as int;
    reveal_with_fuel(pow256, 5);
    if let Ok(m2) = spec_push_imm(m, imm) {
        let d = m2.code.subrange(n, m2.code.len() as int);
        assert(m2.code.subrange(0, n) =~= m.code);
        if imm.spec_cast_u8() is Some {
            assert(d =~= seq![0x6au8, v as u8]);
        } else if let Some(w) = imm.spec_cast_i16() {
            let u = (w as u16) as nat;
            lemma_le_bytes_roundtrip(u, 2);
            assert(d =~= seq![0x66u8, 0x68u8] + le_bytes(u, 2));
            assert(d.subrange(2, 4) =~= le_bytes(u, 2));
            assert(((w as u16) as u16) as i16 == w) by (bit_vector);
        } else if let Some(w) = imm.spec_cast_i32() {
            let u = (w as u32) as nat;
            lemma_le_bytes_roundtrip(u, 4);
            assert(d =~= seq![0x68u8] + le_bytes(u, 4));
            assert(d.subrange(1, 5) =~= le_bytes(u, 4));
            assert(((w as u32) as u32) as i32 == w) by (bit_vector);
        }
    }
}

/// In a compound assignment between a register and memory the left-hand side is the
/// destination: `reg op= mem` and `mem op= reg` encode the same instruction but for the
/// direction bit (bit 1) of the opcode, which is set exactly when memory is the source, so
/// that the ModRM byte names the same register and memory operand in both.
pub proof fn lemma_compound_direction(
    m: ProgramModel,
    r: Seq<u8>,
    q: Seq<u8>,
    opcode1: u8,
    ext: u8,
    opcode2: u8,
)
    requires
        opcode2 % 4 == 0,
        opcode2 < 0xfc,
        place_of(spec_trim(r)) matches Some(a) && a.spec_register() is Some,
        place_of(spec_trim(q)) matches Some(b) && b.spec_is_memory(),
        !crate::opcodes::spec_extract_atomic_suffix(spec_trim(q)).1,
        !crate::opcodes::spec_extract_atomic_suffix(spec_trim(r)).1,
        spec_try_resolve_imm(m, spec_trim(q)) == Ok::<Option<ImmediateModel>, Fail>(None),
        spec_try_resolve_imm(m, spec_trim(r)) == Ok::<Option<ImmediateModel>, Fail>(None),
        spec_parse_basic(m, r, q, opcode1, ext, opcode2) is Ok,
        spec_parse_basic(m, q, r, opcode1, ext, opcode2) is Ok,
    ensures
        ({
            let x = spec_parse_basic(m, r, q, opcode1, ext, opcode2).unwrap().code;
            let y = spec_parse_basic(m, q, r, opcode1, ext, opcode2).unwrap().code;
            &&& x.len() == y.len()
            &&& exists|k: int|
                m.code.len() <= k < x.len() && (#[trigger] x[k] / 2) % 2 == 1 && (y[k] / 2) % 2 == 0 && x[k]
                    == y[k] + 2 && forall|j: int| 0 <= j < x.len() && j != k ==> x[j] == y[j]
        }),
{
    reveal(spec_binary_with_size);
    let a = place_of(spec_trim(r)).unwrap();
    let b = place_of(spec_trim(q)).unwrap();
    let size = crate::place::spec_coerce_size(a.spec_size(), b.spec_size()).unwrap();
    assert(crate::place::spec_coerce_size(b.spec_size(), a.spec_size()) == Ok::<Size, &'static str>(size));
    let ox: u8 = if size == Size::Byte { (opcode2 + 2) as u8 } else { (opcode2 + 3) as u8 };
    let oy: u8 = if size == Size::Byte { opcode2 } else { (opcode2 + 1) as u8 };
    assert(b.spec_register() is None);
    let bx = crate::program::encode::spec_binary_inner(ox, false, a, b, false, size).unwrap();
    let by = crate::program::encode::spec_binary_inner(oy, false, b, a, false, size).unwrap();
    let pre = crate::program::encode::size_prefix(size) + opt_byte(
        crate::program::encode::spec_binary_rex(a, b, false, size),
    ) + crate::program::encode::escape(false);
    assert(crate::program::encode::spec_binary_rex(a, b, false, size) == crate::program::encode::spec_binary_rex(
        b,
        a,
        false,
        size,
    ));
    assert(crate::program::encode::spec_binary_modrm(a, b) == crate::program::encode::spec_binary_modrm(b, a));
    let tail = bx.subrange(pre.len() as int + 1, bx.len() as int);
    assert(bx =~= pre + seq![ox] + tail);
    assert(by =~= pre + seq![oy] + tail);
    let x = spec_parse_basic(m, r, q, opcode1, ext, opcode2).unwrap().code;
    let y = spec_parse_basic(m, q, r, opcode1, ext, opcode2).unwrap().code;
    assert(x == m.code + bx);
    assert(y == m.code + by);
    let k: int = (m.code.len() + pre.len()) as int;
    assert(x[k] == ox && y[k] == oy);
    assert(((opcode2 + 3) as u8 / 2) % 2 == 1 && ((opcode2 + 2) as u8 / 2) % 2 == 1 && (opcode2 / 2) % 2 == 0
        && ((opcode2 + 1) as u8 / 2) % 2 == 0);
    assert forall|j: int| 0 <= j < x.len() && j != k implies x[j] == y[j] by {
        if j < m.code.len() {
        } else if j < k {
            assert(x[j] == pre[j - m.code.len()] && y[j] == pre[j - m.code.len()]);
        } else {
            assert(x[j] == tail[j - k - 1] && y[j] == tail[j - k - 1]);
        }
    }
}

/// In a compound assignment between two registers the left-hand side is the destination:
/// the instruction ends with an opcode whose direction bit is clear and a ModRM byte that
/// addresses the left-hand register directly (mod 3, rm field) with the right-hand one in
/// the reg field.
pub proof fn lemma_compound_registers(
    m: ProgramModel,
    r: Seq<u8>,
    q: Seq<u8>,
    opcode1: u8,
    ext: u8,
    opcode2: u8,
)
    requires
        opcode2 % 4 == 0,
        opcode2 < 0xfc,
        place_of(spec_trim(r)) matches Some(a) && a.spec_register() is Some,
        place_of(spec_trim(q)) matches Some(b) && b.spec_register() is Some,
        !crate::opcodes::spec_extract_atomic_suffix(spec_trim(q)).1,
        spec_try_resolve_imm(m, spec_trim(q)) == Ok::<Option<ImmediateModel>, Fail>(None),
        spec_parse_basic(m, r, q, opcode1, ext, opcode2) is Ok,
    ensures
        ({
            let x = spec_parse_basic(m, r, q, opcode1, ext, opcode2).unwrap().code;
            let a = place_of(spec_trim(r)).unwrap().spec_register().unwrap();
            let b = place_of(spec_trim(q)).unwrap().spec_register().unwrap();
            let n = x.len() as int;
            &&& n >= m.code.len() + 2
            &&& x.subrange(0, m.code.len() as int) == m.code
            &&& (x[n - 2] / 2) % 2 == 0
            &&& x[n - 1] >> 6u8 == 3
            &&& (x[n - 1] >> 3u8) & 7 == reg_id(b) & 7
            &&& x[n - 1] & 7 == reg_id(a) & 7
        }),
{
    reveal(spec_binary_with_size);
    let pa = place_of(spec_trim(r)).unwrap();
    let pb = place_of(spec_trim(q)).unwrap();
    let a = pa.spec_register().unwrap();
    let b = pb.spec_register().unwrap();
    let size = crate::place::spec_coerce_size(pa.spec_size(), pb.spec_size()).unwrap();
    let op: u8 = if size == Size::Byte { opcode2 } else { (opcode2 + 1) as u8 };
    let bx = crate::program::encode::spec_binary_inner(op, false, pa, pb, false, size).unwrap();
    let x = spec_parse_basic(m, r, q, opcode1, ext, opcode2).unwrap().code;
    assert(x == m.code + bx);
    let ib: u8 = reg_id(b);
    let ia: u8 = reg_id(a);
    assert((ib & 7) < 8 && (ia & 7) < 8) by (bit_vector);
    crate::registers::lemma_modrm_fields(3, ib & 7, ia & 7);
    assert(x.subrange(0, m.code.len() as int) =~= m.code);
    assert((opcode2 / 2) % 2 == 0 && ((opcode2 + 1) as u8 / 2) % 2 == 0);
}

} // verus!
