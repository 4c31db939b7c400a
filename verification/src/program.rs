//! The assembler: a program under construction, the encoding of each kind of line, and
//! the final ELF image.
use vstd::prelude::*;

use vstd::string::StringSliceAdditionalSpecFns;

use crate::text::{bytes_eq, to_vec};

pub mod assign;
pub mod builtins;
pub mod encode;
pub mod immediates;
pub mod instructions;
pub mod laws;
pub mod lines;
pub mod output;

verus! {

/// Why a line was not assembled: the source is not valid (`Invalid`), or the line reaches
/// a state that the assembler treats as a broken internal assumption (`Internal`).
///
/// `Quoting` is an invalid source whose message, in UTF-8, quotes the offending text.
#[derive(Clone, Debug)]
pub enum AsmError {
    Invalid(&'static str),
    Quoting(Vec<u8>),
    Internal(&'static str),
}

/// The kind of a failure, as specifications see it.
#[derive(Clone, Copy, Debug, PartialEq, Eq, Structural)]
pub enum Fail {
    Invalid,
    Internal,
}

impl AsmError {
    /// The kind of the failure.
    pub open spec fn fail(self) -> Fail {
        match self {
            AsmError::Invalid(_) => Fail::Invalid,
            AsmError::Quoting(_) => Fail::Invalid,
            AsmError::Internal(_) => Fail::Internal,
        }
    }
}

/// A static: its name and its bytes.
pub struct Global {
    pub name: Vec<u8>,
    pub data: Vec<u8>,
}

/// A static as specifications see it.
#[verifier::ext_equal]
pub struct GlobalModel {
    pub name: Seq<u8>,
    pub data: Seq<u8>,
}

/// A program being assembled.
///
/// The machine code grows line by line. Statics (`globals`) and labels are kept in the
/// order they were declared, each name once. A reference `(item, location, rip)` records
/// that the four bytes before `location` hold a displacement relative to `rip` that must
/// be adjusted to reach the item once its address is known. `blocks` is the stack of open
/// `{ ... }` blocks: where each starts, and the `break` displacements to fill in when it
/// closes. Floating-point literals are given their bits from outside.
pub struct Program {
    pub code: Vec<u8>,
    pub globals: Vec<Global>,
    pub global_refs: Vec<(usize, usize, usize)>,
    pub labels: Vec<Vec<u8>>,
    pub label_locations: Vec<usize>,
    pub label_refs: Vec<(usize, usize, usize)>,
    pub blocks: Vec<(usize, Vec<usize>)>,
    pub f64_bits: Vec<(Vec<u8>, u64)>,
    pub f32_bits: Vec<(Vec<u8>, u32)>,
}

/// A program as specifications see it.
#[verifier::ext_equal]
pub struct ProgramModel {
    pub code: Seq<u8>,
    pub globals: Seq<GlobalModel>,
    pub global_refs: Seq<(usize, usize, usize)>,
    pub labels: Seq<Seq<u8>>,
    pub label_locations: Seq<usize>,
    pub label_refs: Seq<(usize, usize, usize)>,
    pub blocks: Seq<(usize, Seq<usize>)>,
    pub f64_bits: Seq<(Seq<u8>, u64)>,
    pub f32_bits: Seq<(Seq<u8>, u32)>,
}

/// The result of a step of assembly: the new program, or why there is none.
pub type Outcome = Result<ProgramModel, Fail>;

/// The location at which an undefined label is recorded until its line is reached.
pub open spec fn undefined_location() -> usize {
    usize::MAX
}

/// The first index at or after `i` of the static named `name`.
pub open spec fn find_global_from(gs: Seq<GlobalModel>, name: Seq<u8>, i: int) -> Option<int>
    decreases gs.len() - i,
{
    if i < 0 || i >= gs.len() {
        None
    } else if gs[i].name == name {
        Some(i)
    } else {
        find_global_from(gs, name, i + 1)
    }
}

/// The first index at or after `i` of `name` in `names`.
pub open spec fn find_name_from(names: Seq<Seq<u8>>, name: Seq<u8>, i: int) -> Option<int>
    decreases names.len() - i,
{
    if i < 0 || i >= names.len() {
        None
    } else if names[i] == name {
        Some(i)
    } else {
        find_name_from(names, name, i + 1)
    }
}

/// The first index at or after `i` of the literal written as `text`.
pub open spec fn find_text_from<T>(table: Seq<(Seq<u8>, T)>, text: Seq<u8>, i: int) -> Option<int>
    decreases table.len() - i,
{
    if i < 0 || i >= table.len() {
        None
    } else if table[i].0 == text {
        Some(i)
    } else {
        find_text_from(table, text, i + 1)
    }
}


/// A found static lies in the table and has the name.
pub proof fn lemma_find_global_bounds(gs: Seq<GlobalModel>, name: Seq<u8>, i: int)
    ensures
        find_global_from(gs, name, i) matches Some(j) ==> i <= j < gs.len() && gs[j].name == name,
    decreases gs.len() - i,
{
    if 0 <= i < gs.len() && gs[i].name != name {
        lemma_find_global_bounds(gs, name, i + 1);
    }
}

/// A found name lies in the table.
pub proof fn lemma_find_name_bounds(names: Seq<Seq<u8>>, name: Seq<u8>, i: int)
    ensures
        find_name_from(names, name, i) matches Some(j) ==> i <= j < names.len() && names[j] == name,
    decreases names.len() - i,
{
    if 0 <= i < names.len() && names[i] != name {
        lemma_find_name_bounds(names, name, i + 1);
    }
}

/// A static that is not found is not in the table from `i` on.
pub proof fn lemma_find_global_none(gs: Seq<GlobalModel>, name: Seq<u8>, i: int)
    requires
        0 <= i,
        find_global_from(gs, name, i) is None,
    ensures
        forall|k: int| i <= k < gs.len() ==> gs[k].name != name,
    decreases gs.len() - i,
{
    if i < gs.len() {
        lemma_find_global_none(gs, name, i + 1);
    }
}

/// A name that is not found is not in the table from `i` on.
pub proof fn lemma_find_name_none(names: Seq<Seq<u8>>, name: Seq<u8>, i: int)
    requires
        0 <= i,
        find_name_from(names, name, i) is None,
    ensures
        forall|k: int| i <= k < names.len() ==> names[k] != name,
    decreases names.len() - i,
{
    if i < names.len() {
        lemma_find_name_none(names, name, i + 1);
    }
}

/// A found literal lies in the table.
pub proof fn lemma_find_text_bounds<T>(table: Seq<(Seq<u8>, T)>, text: Seq<u8>, i: int)
    ensures
        find_text_from(table, text, i) matches Some(j) ==> i <= j < table.len() && table[j].0 == text,
    decreases table.len() - i,
{
    if 0 <= i < table.len() && table[i].0 != text {
        lemma_find_text_bounds(table, text, i + 1);
    }
}

impl ProgramModel {
    /// The program with `b` appended to the code.
    pub open spec fn emit(self, b: Seq<u8>) -> ProgramModel {
        ProgramModel { code: self.code + b, ..self }
    }

    /// The index of the static named `name`.
    pub open spec fn global_index(self, name: Seq<u8>) -> Option<int> {
        find_global_from(self.globals, name, 0)
    }

    /// The index of the label named `name`.
    pub open spec fn label_index(self, name: Seq<u8>) -> Option<int> {
        find_name_from(self.labels, name, 0)
    }

    /// The length of the code, as a `usize`.
    pub open spec fn len(self) -> usize {
        self.code.len() as usize
    }

    /// Whether `name` is taken by a static or a label.
    pub open spec fn is_defined(self, name: Seq<u8>) -> bool {
        self.global_index(name) is Some || self.label_index(name) is Some
    }
}

impl Global {
    /// The static as specifications see it.
    pub open spec fn model(self) -> GlobalModel {
        GlobalModel { name: self.name@, data: self.data@ }
    }
}

impl Program {
    /// The program as specifications see it.
    pub open spec fn model(self) -> ProgramModel {
        ProgramModel {
            code: self.code@,
            globals: self.globals@.map_values(|g: Global| g.model()),
            global_refs: self.global_refs@,
            labels: self.labels@.map_values(|n: Vec<u8>| n@),
            label_locations: self.label_locations@,
            label_refs: self.label_refs@,
            blocks: self.blocks@.map_values(|b: (usize, Vec<usize>)| (b.0, b.1@)),
            f64_bits: self.f64_bits@.map_values(|f: (Vec<u8>, u64)| (f.0@, f.1)),
            f32_bits: self.f32_bits@.map_values(|f: (Vec<u8>, u32)| (f.0@, f.1)),
        }
    }

    /// Every label has a location, and no name is declared twice.
    pub open spec fn wf(self) -> bool {
        &&& self.labels@.len() == self.label_locations@.len()
        &&& forall|i: int, j: int|
            0 <= i < j < self.globals@.len() ==> #[trigger] self.globals@[i].name@
                != #[trigger] self.globals@[j].name@
        &&& forall|i: int, j: int|
            0 <= i < j < self.labels@.len() ==> #[trigger] self.labels@[i]@ != #[trigger] self.labels@[j]@
    }

    /// An empty program.
    pub fn new() -> (r: Program)
        ensures
            r.wf(),
            r.model() == (ProgramModel {
                code: seq![],
                globals: seq![],
                global_refs: seq![],
                labels: seq![],
                label_locations: seq![],
                label_refs: seq![],
                blocks: seq![],
                f64_bits: seq![],
                f32_bits: seq![],
            }),
    {
        let r = Program {
            code: Vec::new(),
            globals: Vec::new(),
            global_refs: Vec::new(),
            labels: Vec::new(),
            label_locations: Vec::new(),
            label_refs: Vec::new(),
            blocks: Vec::new(),
            f64_bits: Vec::new(),
            f32_bits: Vec::new(),
        };
        assert(r.model().globals =~= seq![]);
        assert(r.model().labels =~= seq![]);
        assert(r.model().blocks =~= seq![]);
        assert(r.model().f64_bits =~= seq![]);
        assert(r.model().f32_bits =~= seq![]);
        r
    }

    /// A copy of the program, to go back to when a line fails part of the way through.
    pub(crate) fn snapshot(&self) -> (r: Program)
        requires
            self.wf(),
        ensures
            r.wf(),
            r.model() == self.model(),
    {
        let mut globals: Vec<Global> = Vec::new();
        let mut i: usize = 0;
        while i < self.globals.len()
            invariant
                i <= self.globals.len(),
                globals@.len() == i,
                forall|k: int| 0 <= k < i ==> #[trigger] globals@[k].model() == self.globals@[k].model(),
            decreases self.globals.len() - i,
        {
            let g = &self.globals[i];
            globals.push(Global { name: to_vec(g.name.as_slice()), data: to_vec(g.data.as_slice()) });
            i += 1;
        }
        let mut labels: Vec<Vec<u8>> = Vec::new();
        let mut i: usize = 0;
        while i < self.labels.len()
            invariant
                i <= self.labels.len(),
                labels@.len() == i,
                forall|k: int| 0 <= k < i ==> #[trigger] labels@[k]@ == self.labels@[k]@,
            decreases self.labels.len() - i,
        {
            labels.push(to_vec(self.labels[i].as_slice()));
            i += 1;
        }
        let mut blocks: Vec<(usize, Vec<usize>)> = Vec::new();
        let mut i: usize = 0;
        while i < self.blocks.len()
            invariant
                i <= self.blocks.len(),
                blocks@.len() == i,
                forall|k: int|
                    0 <= k < i ==> #[trigger] blocks@[k].0 == self.blocks@[k].0 && blocks@[k].1@
                        == self.blocks@[k].1@,
            decreases self.blocks.len() - i,
        {
            blocks.push((self.blocks[i].0, copy_vec(&self.blocks[i].1)));
            i += 1;
        }
        let mut f64_bits: Vec<(Vec<u8>, u64)> = Vec::new();
        let mut i: usize = 0;
        while i < self.f64_bits.len()
            invariant
                i <= self.f64_bits.len(),
                f64_bits@.len() == i,
                forall|k: int|
                    0 <= k < i ==> #[trigger] f64_bits@[k].0@ == self.f64_bits@[k].0@ && f64_bits@[k].1
                        == self.f64_bits@[k].1,
            decreases self.f64_bits.len() - i,
        {
            f64_bits.push((to_vec(self.f64_bits[i].0.as_slice()), self.f64_bits[i].1));
            i += 1;
        }
        let mut f32_bits: Vec<(Vec<u8>, u32)> = Vec::new();
        let mut i: usize = 0;
        while i < self.f32_bits.len()
            invariant
                i <= self.f32_bits.len(),
                f32_bits@.len() == i,
                forall|k: int|
                    0 <= k < i ==> #[trigger] f32_bits@[k].0@ == self.f32_bits@[k].0@ && f32_bits@[k].1
                        == self.f32_bits@[k].1,
            decreases self.f32_bits.len() - i,
        {
            f32_bits.push((to_vec(self.f32_bits[i].0.as_slice()), self.f32_bits[i].1));
            i += 1;
        }
        let r = Program {
            code: to_vec(self.code.as_slice()),
            globals,
            global_refs: copy_vec(&self.global_refs),
            labels,
            label_locations: copy_vec(&self.label_locations),
            label_refs: copy_vec(&self.label_refs),
            blocks,
            f64_bits,
            f32_bits,
        };
        assert(r.model().globals =~= self.model().globals);
        assert(r.model().labels =~= self.model().labels);
        assert(r.model().blocks =~= self.model().blocks);
        assert(r.model().f64_bits =~= self.model().f64_bits);
        assert(r.model().f32_bits =~= self.model().f32_bits);
        assert forall|i: int, j: int| 0 <= i < j < r.globals@.len() implies #[trigger] r.globals@[i].name@
            != #[trigger] r.globals@[j].name@ by {
            assert(r.globals@[i].model() == self.globals@[i].model());
            assert(r.globals@[j].model() == self.globals@[j].model());
        }
        assert forall|i: int, j: int| 0 <= i < j < r.labels@.len() implies #[trigger] r.labels@[i]@
            != #[trigger] r.labels@[j]@ by {
            assert(r.labels@[i]@ == self.labels@[i]@);
            assert(r.labels@[j]@ == self.labels@[j]@);
        }
        r
    }

    /// The index of the static named `name`.
    pub fn global_index(&self, name: &[u8]) -> (r: Option<usize>)
        ensures
            match r {
                Some(i) => self.model().global_index(name@) == Some(i as int) && i < self.globals.len(),
                None => self.model().global_index(name@) is None,
            },
    {
        proof {
            lemma_find_global_bounds(self.model().globals, name@, 0);
        }
        let ghost gs = self.model().globals;
        let mut i: usize = 0;
        while i < self.globals.len()
            invariant
                i <= self.globals.len(),
                gs == self.model().globals,
                find_global_from(gs, name@, 0) == find_global_from(gs, name@, i as int),
            decreases self.globals.len() - i,
        {
            if bytes_eq(self.globals[i].name.as_slice(), name) {
                return Some(i);
            }
            i += 1;
        }
        None
    }

    /// The index of the label named `name`.
    pub fn label_index(&self, name: &[u8]) -> (r: Option<usize>)
        ensures
            match r {
                Some(i) => self.model().label_index(name@) == Some(i as int) && i < self.labels.len(),
                None => self.model().label_index(name@) is None,
            },
    {
        proof {
            lemma_find_name_bounds(self.model().labels, name@, 0);
        }
        let ghost ls = self.model().labels;
        let mut i: usize = 0;
        while i < self.labels.len()
            invariant
                i <= self.labels.len(),
                ls == self.model().labels,
                find_name_from(ls, name@, 0) == find_name_from(ls, name@, i as int),
            decreases self.labels.len() - i,
        {
            if bytes_eq(self.labels[i].as_slice(), name) {
                return Some(i);
            }
            i += 1;
        }
        None
    }

    /// The bytes of the static at `i`.
    pub fn global_data_len(&self, i: usize) -> (r: usize)
        requires
            i < self.model().globals.len(),
        ensures
            r == self.model().globals[i as int].data.len(),
    {
        self.globals[i].data.len()
    }

    /// Gives the floating-point literal written as `text` in `@f64(text)` its bits.
    pub fn define_f64(&mut self, text: &str, bits: u64)
        ensures
            final(self).model() == (ProgramModel {
                f64_bits: old(self).model().f64_bits.push((text.spec_bytes(), bits)),
                ..old(self).model()
            }),
            final(self).wf() == old(self).wf(),
    {
        let t = crate::text::to_vec(text.as_bytes());
        self.f64_bits.push((t, bits));
        assert(self.model().f64_bits =~= old(self).model().f64_bits.push((text.spec_bytes(), bits)));
    }

    /// Gives the floating-point literal written as `text` in `@f32(text)` its bits.
    pub fn define_f32(&mut self, text: &str, bits: u32)
        ensures
            final(self).model() == (ProgramModel {
                f32_bits: old(self).model().f32_bits.push((text.spec_bytes(), bits)),
                ..old(self).model()
            }),
            final(self).wf() == old(self).wf(),
    {
        let t = crate::text::to_vec(text.as_bytes());
        self.f32_bits.push((t, bits));
        assert(self.model().f32_bits =~= old(self).model().f32_bits.push((text.spec_bytes(), bits)));
    }
}

/// A copy of a vector of plain values.
fn copy_vec<T: Copy>(v: &Vec<T>) -> (r: Vec<T>)
    ensures
        r@ == v@,
{
    let mut out: Vec<T> = Vec::new();
    let mut i: usize = 0;
    while i < v.len()
        invariant
            i <= v.len(),
            out@ == v@.subrange(0, i as int),
        decreases v.len() - i,
    {
        out.push(v[i]);
        i += 1;
        assert(out@ =~= v@.subrange(0, i as int));
    }
    assert(v@.subrange(0, v.len() as int) =~= v@);
    out
}

/// An invalid source, reported as `head`, the offending text, then `tail`.
pub fn quoting(head: &str, item: &[u8], tail: &str) -> (r: AsmError)
    ensures
        r.fail() == Fail::Invalid,
        r matches AsmError::Quoting(m) && m@ == head.spec_bytes() + item@ + tail.spec_bytes(),
{
    AsmError::Quoting(crate::text::compose(head, item, tail))
}

/// An invalid source, reported as `head`, the offending text, `tail`, then the reason in
/// brackets.
pub fn quoting_because(head: &str, item: &[u8], tail: &str, cause: &[u8]) -> (r: AsmError)
    ensures
        r.fail() == Fail::Invalid,
{
    let mut m = crate::text::compose(head, item, tail);
    let open = crate::text::compose(" (", &[], "");
    crate::text::push_all(&mut m, open.as_slice(), 0, open.len());
    let close = crate::text::compose("", cause, ")");
    crate::text::push_all(&mut m, close.as_slice(), 0, close.len());
    AsmError::Quoting(m)
}

/// A failure of a helper reported as an invalid source.
pub fn invalid<T>(r: Result<T, &'static str>) -> (o: Result<T, AsmError>)
    ensures
        match r {
            Ok(v) => o == Ok::<T, AsmError>(v),
            Err(e) => o == Err::<T, AsmError>(AsmError::Invalid(e)),
        },
{
    match r {
        Ok(v) => Ok(v),
        Err(e) => Err(AsmError::Invalid(e)),
    }
}

} // verus!
