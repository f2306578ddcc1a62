//! Rewriting of WebAssembly function bodies: the entities that instructions refer to are
//! renamed, in the instruction sequences that can be reached from a function's entry.
//!
//! A function body is a list of instruction sequences; blocks, loops and branches refer to
//! other sequences by their position. Entities (functions, globals, tables, memories, ...) are
//! referred to by their ids.

use std::collections::HashMap;
use vstd::prelude::*;

verus! {

/// A WebAssembly instruction, with the ids of the entities and sequences it refers to.
#[derive(Clone, Debug, PartialEq, Eq)]
pub enum Instr {
    Block(u32),
    Loop(u32),
    Call(u32),
    CallIndirect { ty: u32, table: u32 },
    LocalGet(u32),
    LocalSet(u32),
    LocalTee(u32),
    GlobalGet(u32),
    GlobalSet(u32),
    Br(u32),
    BrIf(u32),
    IfElse { consequent: u32, alternative: u32 },
    BrTable { blocks: Vec<u32>, default: u32 },
    MemorySize(u32),
    MemoryGrow(u32),
    MemoryInit { memory: u32, data: u32 },
    DataDrop(u32),
    MemoryCopy { src: u32, dst: u32 },
    MemoryFill(u32),
    Load { memory: u32, arg: u64 },
    Store { memory: u32, arg: u64 },
    AtomicRmw { memory: u32, arg: u64 },
    Cmpxchg { memory: u32, arg: u64 },
    AtomicNotify { memory: u32, arg: u64 },
    AtomicWait { memory: u32, arg: u64 },
    TableGet(u32),
    TableSet(u32),
    TableGrow(u32),
    TableSize(u32),
    TableFill(u32),
    RefFunc(u32),
    TableInit { table: u32, elem: u32 },
    ElemDrop(u32),
    TableCopy { src: u32, dst: u32 },
    /// An instruction that refers to no entity (constants, arithmetic, ...), by its encoding.
    Other(u64),
}

/// The sequences that an instruction refers to, in the order in which a patch visits them.
pub open spec fn instr_succs(i: Instr) -> Seq<u32> {
    match i {
        Instr::Block(s) => seq![s],
        Instr::Loop(s) => seq![s],
        Instr::Br(s) => seq![s],
        Instr::BrIf(s) => seq![s],
        Instr::IfElse { consequent, alternative } => seq![consequent, alternative],
        Instr::BrTable { blocks, .. } => blocks@,
        _ => Seq::empty(),
    }
}

/// A map of ids (a later insertion of an id wins).
pub struct IdMap {
    map: HashMap<u32, u32>,
}

/// The id that `id` becomes: its image in the map, or itself.
pub open spec fn renamed(m: Map<u32, u32>, id: u32) -> u32 {
    if m.contains_key(id) {
        m[id]
    } else {
        id
    }
}

impl View for IdMap {
    type V = Map<u32, u32>;

    closed spec fn view(&self) -> Map<u32, u32> {
        self.map@
    }
}

impl IdMap {
    /// An empty map.
    pub fn new() -> (r: Self)
        ensures
            r@ == Map::<u32, u32>::empty(),
    {
        IdMap { map: HashMap::new() }
    }

    /// Maps `from` to `to`.
    pub fn insert(&mut self, from: u32, to: u32)
        ensures
            final(self)@ == old(self)@.insert(from, to),
    {
        broadcast use vstd::std_specs::hash::group_hash_axioms;
        self.map.insert(from, to);
    }

    /// The image of `id`, if any.
    pub fn get(&self, id: u32) -> (r: Option<u32>)
        ensures
            r == (if self@.contains_key(id) {
                Some(self@[id])
            } else {
                None::<u32>
            }),
    {
        broadcast use vstd::std_specs::hash::group_hash_axioms;
        match self.map.get(&id) {
            Some(to) => Some(*to),
            None => None,
        }
    }

    /// The id that `id` becomes: its image, or itself.
    pub fn rename(&self, id: u32) -> (r: u32)
        ensures
            r == renamed(self@, id),
    {
        match self.get(id) {
            Some(new) => new,
            None => id,
        }
    }
}

/// The instruction with its functions, globals, tables and memories renamed.
pub open spec fn patched_instr(
    funcs: Map<u32, u32>,
    globs: Map<u32, u32>,
    tables: Map<u32, u32>,
    memories: Map<u32, u32>,
    i: Instr,
) -> Instr {
    match i {
        Instr::Call(f) => Instr::Call(renamed(funcs, f)),
        Instr::CallIndirect { ty, table } => Instr::CallIndirect { ty, table: renamed(tables, table) },
        Instr::GlobalGet(g) => Instr::GlobalGet(renamed(globs, g)),
        Instr::GlobalSet(g) => Instr::GlobalSet(renamed(globs, g)),
        Instr::MemorySize(m) => Instr::MemorySize(renamed(memories, m)),
        Instr::MemoryGrow(m) => Instr::MemoryGrow(renamed(memories, m)),
        Instr::MemoryInit { memory, data } => Instr::MemoryInit { memory: renamed(memories, memory), data },
        Instr::MemoryCopy { src, dst } => Instr::MemoryCopy {
            src: renamed(memories, src),
            dst: renamed(memories, dst),
        },
        Instr::MemoryFill(m) => Instr::MemoryFill(renamed(memories, m)),
        Instr::Load { memory, arg } => Instr::Load { memory: renamed(memories, memory), arg },
        Instr::Store { memory, arg } => Instr::Store { memory: renamed(memories, memory), arg },
        Instr::AtomicRmw { memory, arg } => Instr::AtomicRmw { memory: renamed(memories, memory), arg },
        Instr::Cmpxchg { memory, arg } => Instr::Cmpxchg { memory: renamed(memories, memory), arg },
        Instr::AtomicNotify { memory, arg } => Instr::AtomicNotify {
            memory: renamed(memories, memory),
            arg,
        },
        Instr::AtomicWait { memory, arg } => Instr::AtomicWait { memory: renamed(memories, memory), arg },
        Instr::TableGet(t) => Instr::TableGet(renamed(tables, t)),
        Instr::TableSet(t) => Instr::TableSet(renamed(tables, t)),
        Instr::TableGrow(t) => Instr::TableGrow(renamed(tables, t)),
        Instr::TableSize(t) => Instr::TableSize(renamed(tables, t)),
        Instr::TableFill(t) => Instr::TableFill(renamed(tables, t)),
        Instr::RefFunc(f) => Instr::RefFunc(renamed(funcs, f)),
        Instr::TableInit { table, elem } => Instr::TableInit { table: renamed(tables, table), elem },
        Instr::TableCopy { src, dst } => Instr::TableCopy {
            src: renamed(tables, src),
            dst: renamed(tables, dst),
        },
        _ => i,
    }
}

/// A function defined by a module: the locals that hold its arguments, its instruction
/// sequences, and the one it starts with.
pub struct LocalFunction {
    pub args: Vec<u32>,
    pub blocks: Vec<Vec<Instr>>,
    pub entry: u32,
}

/// Every sequence that the instructions of the body refer to exists.
pub open spec fn body_wf(blocks: Seq<Vec<Instr>>) -> bool {
    forall|b: int, k: int, j: int|
        0 <= b < blocks.len() && 0 <= k < blocks[b]@.len() && 0 <= j < instr_succs(
            blocks[b]@[k],
        ).len() ==> #[trigger] instr_succs(blocks[b]@[k])[j] < blocks.len()
}

/// The successors of the sequences that are marked are marked or pending.
pub open spec fn closed_under_succs(blocks: Seq<Vec<Instr>>, visited: Seq<bool>, pending: Seq<u32>) -> bool {
    forall|b: int, k: int, j: int|
        0 <= b < blocks.len() && visited[b] && 0 <= k < blocks[b]@.len() && 0 <= j < instr_succs(
            blocks[b]@[k],
        ).len() ==> {
            let s = #[trigger] instr_succs(blocks[b]@[k])[j];
            visited[s as int] || pending.contains(s)
        }
}

/// The number of sequences not marked.
pub open spec fn nb_unmarked(visited: Seq<bool>) -> nat
    decreases visited.len(),
{
    if visited.len() == 0 {
        0
    } else {
        nb_unmarked(visited.drop_last()) + if visited.last() {
            0nat
        } else {
            1nat
        }
    }
}

pub proof fn lemma_nb_unmarked_update(visited: Seq<bool>, b: int)
    requires
        0 <= b < visited.len(),
        !visited[b],
    ensures
        nb_unmarked(visited.update(b, true)) + 1 == nb_unmarked(visited),
    decreases visited.len(),
{
    let u = visited.update(b, true);
    if b == visited.len() - 1 {
        assert(u.drop_last() =~= visited.drop_last());
    } else {
        assert(u.drop_last() =~= visited.drop_last().update(b, true));
        lemma_nb_unmarked_update(visited.drop_last(), b);
    }
}

/// A patch: renamings of functions, globals, tables and memories.
pub struct Patch {
    funcs: IdMap,
    globs: IdMap,
    tables: IdMap,
    memories: IdMap,
}

impl Patch {
    /// The renaming of functions.
    pub closed spec fn spec_funcs(self) -> Map<u32, u32> {
        self.funcs@
    }

    /// The renaming of globals.
    pub closed spec fn spec_globs(self) -> Map<u32, u32> {
        self.globs@
    }

    /// The renaming of tables.
    pub closed spec fn spec_tables(self) -> Map<u32, u32> {
        self.tables@
    }

    /// The renaming of memories.
    pub closed spec fn spec_memories(self) -> Map<u32, u32> {
        self.memories@
    }

    /// The instruction with the patch applied.
    pub open spec fn apply(self, i: Instr) -> Instr {
        patched_instr(self.spec_funcs(), self.spec_globs(), self.spec_tables(), self.spec_memories(), i)
    }

    /// The sequence with the patch applied to each instruction.
    pub open spec fn apply_seq(self, s: Seq<Instr>) -> Seq<Instr> {
        Seq::new(s.len(), |k: int| self.apply(s[k]))
    }

    /// A patch that renames nothing.
    pub fn new() -> (r: Self)
        ensures
            r.spec_funcs() == Map::<u32, u32>::empty(),
            r.spec_globs() == Map::<u32, u32>::empty(),
            r.spec_tables() == Map::<u32, u32>::empty(),
            r.spec_memories() == Map::<u32, u32>::empty(),
    {
        Patch { funcs: IdMap::new(), globs: IdMap::new(), tables: IdMap::new(), memories: IdMap::new() }
    }

    /// Renames the function `old` to `new`.
    pub fn remap_func(&mut self, from: u32, to: u32)
        ensures
            final(self).spec_funcs() == old(self).spec_funcs().insert(from, to),
            final(self).spec_globs() == old(self).spec_globs(),
            final(self).spec_tables() == old(self).spec_tables(),
            final(self).spec_memories() == old(self).spec_memories(),
    {
        self.funcs.insert(from, to);
    }

    /// Renames the table `old` to `new`.
    pub fn remap_table(&mut self, from: u32, to: u32)
        ensures
            final(self).spec_tables() == old(self).spec_tables().insert(from, to),
            final(self).spec_funcs() == old(self).spec_funcs(),
            final(self).spec_globs() == old(self).spec_globs(),
            final(self).spec_memories() == old(self).spec_memories(),
    {
        self.tables.insert(from, to);
    }

    /// Renames the global `old` to `new`.
    pub fn remap_glob(&mut self, from: u32, to: u32)
        ensures
            final(self).spec_globs() == old(self).spec_globs().insert(from, to),
            final(self).spec_funcs() == old(self).spec_funcs(),
            final(self).spec_tables() == old(self).spec_tables(),
            final(self).spec_memories() == old(self).spec_memories(),
    {
        self.globs.insert(from, to);
    }

    /// Renames the memory `old` to `new`.
    pub fn remap_memory(&mut self, from: u32, to: u32)
        ensures
            final(self).spec_memories() == old(self).spec_memories().insert(from, to),
            final(self).spec_funcs() == old(self).spec_funcs(),
            final(self).spec_globs() == old(self).spec_globs(),
            final(self).spec_tables() == old(self).spec_tables(),
    {
        self.memories.insert(from, to);
    }

    /// Applies the patch to an instruction, and records the sequences it refers to.
    pub fn patch_instr(&self, instr: &mut Instr, to_patch: &mut Vec<u32>)
        ensures
            *final(instr) == self.apply(*old(instr)),
            final(to_patch)@ == old(to_patch)@ + instr_succs(*old(instr)),
    {
        let ghost before = to_patch@;
        match instr {
            Instr::Block(s) => to_patch.push(*s),
            Instr::Loop(s) => to_patch.push(*s),
            Instr::Br(s) => to_patch.push(*s),
            Instr::BrIf(s) => to_patch.push(*s),
            Instr::IfElse { consequent, alternative } => {
                to_patch.push(*consequent);
                to_patch.push(*alternative);
            },
            Instr::BrTable { blocks, .. } => {
                let mut k: usize = 0;
                while k < blocks.len()
                    invariant
                        k <= blocks@.len(),
                        to_patch@ == before + blocks@.take(k as int),
                    decreases blocks@.len() - k,
                {
                    to_patch.push(blocks[k]);
                    proof {
                        assert(blocks@.take(k + 1) =~= blocks@.take(k as int).push(blocks@[k as int]));
                    }
                    k = k + 1;
                }
                proof {
                    assert(blocks@.take(blocks@.len() as int) =~= blocks@);
                }
            },
            Instr::Call(f) => *f = self.funcs.rename(*f),
            Instr::CallIndirect { table, .. } => *table = self.tables.rename(*table),
            Instr::GlobalGet(g) => *g = self.globs.rename(*g),
            Instr::GlobalSet(g) => *g = self.globs.rename(*g),
            Instr::MemorySize(m) => *m = self.memories.rename(*m),
            Instr::MemoryGrow(m) => *m = self.memories.rename(*m),
            Instr::MemoryInit { memory, .. } => *memory = self.memories.rename(*memory),
            Instr::MemoryCopy { src, dst } => {
                *src = self.memories.rename(*src);
                *dst = self.memories.rename(*dst);
            },
            Instr::MemoryFill(m) => *m = self.memories.rename(*m),
            Instr::Load { memory, .. } => *memory = self.memories.rename(*memory),
            Instr::Store { memory, .. } => *memory = self.memories.rename(*memory),
            Instr::AtomicRmw { memory, .. } => *memory = self.memories.rename(*memory),
            Instr::Cmpxchg { memory, .. } => *memory = self.memories.rename(*memory),
            Instr::AtomicNotify { memory, .. } => *memory = self.memories.rename(*memory),
            Instr::AtomicWait { memory, .. } => *memory = self.memories.rename(*memory),
            Instr::TableGet(t) => *t = self.tables.rename(*t),
            Instr::TableSet(t) => *t = self.tables.rename(*t),
            Instr::TableGrow(t) => *t = self.tables.rename(*t),
            Instr::TableSize(t) => *t = self.tables.rename(*t),
            Instr::TableFill(t) => *t = self.tables.rename(*t),
            Instr::RefFunc(f) => *f = self.funcs.rename(*f),
            Instr::TableInit { table, .. } => *table = self.tables.rename(*table),
            Instr::TableCopy { src, dst } => {
                *src = self.tables.rename(*src);
                *dst = self.tables.rename(*dst);
            },
            _ => {},
        }
    }
}

/// One of the instructions of `s` refers to sequence `x`.
pub open spec fn succ_of_seq(s: Seq<Instr>, x: u32) -> bool {
    exists|k: int, j: int| 0 <= k < s.len() && 0 <= j < instr_succs(s[k]).len() && #[trigger] instr_succs(s[k])[j] == x
}

/// Sequence `b` refers to sequence `s` through one of its instructions.
pub open spec fn refers_to(blocks: Seq<Vec<Instr>>, b: int, s: u32) -> bool {
    succ_of_seq(blocks[b]@, s)
}

/// `path` starts at the entry, and each of its sequences refers to the next one.
pub open spec fn is_path(blocks: Seq<Vec<Instr>>, entry: u32, path: Seq<u32>) -> bool {
    &&& path.len() >= 1
    &&& path[0] == entry
    &&& forall|i: int| 0 <= i < path.len() - 1 ==> #[trigger] path[i] < blocks.len() && refers_to(blocks, path[i] as int, path[i + 1])
}

/// Sequence `b` can be reached from the entry.
pub open spec fn reachable(blocks: Seq<Vec<Instr>>, entry: u32, b: u32) -> bool {
    exists|path: Seq<u32>| #[trigger] is_path(blocks, entry, path) && path.last() == b
}

proof fn lemma_reachable_step(blocks: Seq<Vec<Instr>>, entry: u32, b: u32, s: u32)
    requires
        reachable(blocks, entry, b),
        b < blocks.len(),
        refers_to(blocks, b as int, s),
    ensures
        reachable(blocks, entry, s),
{
    let path = choose|path: Seq<u32>| is_path(blocks, entry, path) && path.last() == b;
    let p2 = path.push(s);
    assert forall|i: int| 0 <= i < p2.len() - 1 implies #[trigger] p2[i] < blocks.len() && refers_to(
        blocks, p2[i] as int, p2[i + 1]) by {
        if i < path.len() - 1 {
            assert(p2[i] == path[i] && p2[i + 1] == path[i + 1]);
        } else {
            assert(p2[i] == b && p2[i + 1] == s);
        }
    }
    assert(is_path(blocks, entry, p2) && p2.last() == s);
}

/// The body `after` is `before` with the patch applied to the sequences reached from the entry:
/// a set of sequences that holds the entry and every sequence that one of them refers to, and
/// only sequences reached from the entry.
pub open spec fn patched_function(p: Patch, before: LocalFunction, after: LocalFunction) -> bool {
    &&& after.entry == before.entry
    &&& after.args@ == before.args@
    &&& exists|visited: Seq<bool>|
        {
            &&& patched_blocks(p, before.blocks@, after.blocks@, visited)
            &&& visited[before.entry as int]
            &&& closed_under_succs(before.blocks@, visited, Seq::empty())
            &&& forall|b: u32| (b as int) < visited.len() && #[trigger] visited[b as int] ==> reachable(before.blocks@, before.entry, b)
        }
}

/// The body is well formed: its entry and every sequence its instructions refer to exist.
pub open spec fn function_wf(f: LocalFunction) -> bool {
    f.entry < f.blocks@.len() && body_wf(f.blocks@)
}

/// The sequences of a body after the patch is applied to the marked ones.
pub open spec fn patched_blocks(
    p: Patch,
    before: Seq<Vec<Instr>>,
    after: Seq<Vec<Instr>>,
    visited: Seq<bool>,
) -> bool {
    &&& after.len() == before.len()
    &&& visited.len() == before.len()
    &&& forall|b: int|
        0 <= b < before.len() ==> (#[trigger] after[b])@ == if visited[b] {
            p.apply_seq(before[b]@)
        } else {
            before[b]@
        }
}

impl Patch {
    /// Applies the patch to a sequence, and records the sequences its instructions refer to.
    fn patch_instr_seq(&self, seq: &mut Vec<Instr>, to_patch: &mut Vec<u32>, Ghost(bound): Ghost<int>)
        requires
            forall|q: int| 0 <= q < old(to_patch)@.len() ==> #[trigger] old(to_patch)@[q] < bound,
            forall|k: int, j: int|
                0 <= k < old(seq)@.len() && 0 <= j < instr_succs(old(seq)@[k]).len()
                    ==> #[trigger] instr_succs(old(seq)@[k])[j] < bound,
        ensures
            forall|q: int| 0 <= q < final(to_patch)@.len() ==> #[trigger] final(to_patch)@[q] < bound,
            final(seq)@ == self.apply_seq(old(seq)@),
            final(to_patch)@.len() >= old(to_patch)@.len(),
            final(to_patch)@.take(old(to_patch)@.len() as int) == old(to_patch)@,
            forall|k: int, j: int|
                0 <= k < old(seq)@.len() && 0 <= j < instr_succs(old(seq)@[k]).len()
                    ==> final(to_patch)@.contains(#[trigger] instr_succs(old(seq)@[k])[j]),
            forall|q: int| old(to_patch)@.len() <= q < final(to_patch)@.len() ==> succ_of_seq(old(seq)@, #[trigger] final(to_patch)@[q]),
    {
        let ghost s0 = seq@;
        let ghost t0 = to_patch@;
        let mut k: usize = 0;
        while k < seq.len()
            invariant
                seq@.len() == s0.len(),
                0 <= k <= s0.len(),
                forall|j: int| 0 <= j < k ==> #[trigger] seq@[j] == self.apply(s0[j]),
                forall|j: int| k <= j < s0.len() ==> #[trigger] seq@[j] == s0[j],
                to_patch@.len() >= t0.len(),
                to_patch@.take(t0.len() as int) == t0,
                forall|q: int| 0 <= q < to_patch@.len() ==> #[trigger] to_patch@[q] < bound,
                forall|kk: int, j: int|
                    0 <= kk < s0.len() && 0 <= j < instr_succs(s0[kk]).len() ==> #[trigger] instr_succs(s0[kk])[j] < bound,
                forall|kk: int, j: int|
                    0 <= kk < k && 0 <= j < instr_succs(s0[kk]).len() ==> to_patch@.contains(
                        #[trigger] instr_succs(s0[kk])[j],
                    ),
                forall|q: int| t0.len() <= q < to_patch@.len() ==> succ_of_seq(s0, #[trigger] to_patch@[q]),
            decreases s0.len() - k,
        {
            let ghost tb = to_patch@;
            self.patch_instr(&mut seq[k], to_patch);
            proof {
                assert forall|q: int| t0.len() <= q < to_patch@.len() implies succ_of_seq(s0, #[trigger] to_patch@[q]) by {
                    if q >= tb.len() {
                        let j = q - tb.len();
                        assert(to_patch@[q] == instr_succs(s0[k as int])[j]);
                    } else {
                        assert(to_patch@[q] == tb[q]);
                    }
                }
                assert(to_patch@.take(t0.len() as int) =~= t0) by {
                    assert(to_patch@ == tb + instr_succs(s0[k as int]));
                }
                assert forall|q: int| 0 <= q < to_patch@.len() implies #[trigger] to_patch@[q] < bound by {
                    if q >= tb.len() {
                        assert(to_patch@[q] == instr_succs(s0[k as int])[q - tb.len()]);
                    }
                }
                assert forall|kk: int, j: int|
                    0 <= kk <= k && 0 <= j < instr_succs(s0[kk]).len() implies to_patch@.contains(
                    #[trigger] instr_succs(s0[kk])[j]) by {
                    if kk < k {
                        let x = instr_succs(s0[kk])[j];
                        let w = choose|w: int| 0 <= w < tb.len() && tb[w] == x;
                        assert(to_patch@[w] == x);
                    } else {
                        assert(to_patch@[tb.len() + j] == instr_succs(s0[kk])[j]);
                    }
                }
            }
            k = k + 1;
        }
        proof {
            assert(seq@ =~= self.apply_seq(s0));
        }
    }

    /// Applies the patch to the sequences of a body that can be reached from its entry.
    ///
    /// The patched sequences include the entry and every sequence that a patched one refers to;
    /// the others are left as they are.
    pub fn patch_func(&self, func: &mut LocalFunction)
        requires
            old(func).entry < old(func).blocks@.len(),
            body_wf(old(func).blocks@),
        ensures
            patched_function(*self, *old(func), *final(func)),
    {
        let ghost b0 = func.blocks@;
        let n = func.blocks.len();
        let mut visited: Vec<bool> = vec![false; n];
        let mut to_patch: Vec<u32> = Vec::new();
        to_patch.push(func.entry);
        assert(to_patch@[0] == func.entry);
        assert(is_path(b0, func.entry, seq![func.entry]));
        assert(reachable(b0, func.entry, func.entry));
        while to_patch.len() > 0
            invariant
                func.blocks@.len() == n,
                b0.len() == n,
                func.entry == old(func).entry,
                func.args@ == old(func).args@,
                b0 == old(func).blocks@,
                body_wf(b0),
                func.entry < n,
                patched_blocks(*self, b0, func.blocks@, visited@),
                closed_under_succs(b0, visited@, to_patch@),
                forall|q: int| 0 <= q < to_patch@.len() ==> #[trigger] to_patch@[q] < n,
                visited@[func.entry as int] || to_patch@.contains(func.entry),
                forall|q: int| 0 <= q < to_patch@.len() ==> reachable(b0, func.entry, #[trigger] to_patch@[q]),
                forall|b: u32| (b as int) < n && #[trigger] visited@[b as int] ==> reachable(b0, func.entry, b),
            decreases nb_unmarked(visited@), to_patch@.len(),
        {
            let ghost tb = to_patch@;
            let id = to_patch.pop().unwrap();
            assert(id < n);
            if !visited[id as usize] {
                let ghost vb = visited@;
                proof {
                    lemma_nb_unmarked_update(vb, id as int);
                }
                visited.set(id as usize, true);
                let mut seq: Vec<Instr> = Vec::new();
                core::mem::swap(&mut seq, &mut func.blocks[id as usize]);
                let ghost tm = to_patch@;
                proof {
                    assert(seq@ == b0[id as int]@);
                    assert forall|q: int| 0 <= q < tm.len() implies #[trigger] tm[q] < n by {
                        assert(tm[q] == tb[q]);
                    }
                }
                self.patch_instr_seq(&mut seq, &mut to_patch, Ghost(n as int));
                func.blocks.set(id as usize, seq);
                proof {
                    assert(reachable(b0, func.entry, id));
                    assert forall|q: int| 0 <= q < to_patch@.len() implies reachable(b0, func.entry, #[trigger] to_patch@[q]) by {
                        if q < tm.len() {
                            assert(to_patch@[q] == tm[q]);
                            assert(tm[q] == tb[q]);
                        } else {
                            assert(refers_to(b0, id as int, to_patch@[q]));
                            lemma_reachable_step(b0, func.entry, id, to_patch@[q]);
                        }
                    }
                    assert(seq@ == self.apply_seq(b0[id as int]@));
                    assert forall|b: int| 0 <= b < n implies (#[trigger] func.blocks@[b])@ == if visited@[b] {
                        self.apply_seq(b0[b]@)
                    } else {
                        b0[b]@
                    } by {}
                    assert forall|b: int, k: int, j: int|
                        0 <= b < b0.len() && visited@[b] && 0 <= k < b0[b]@.len() && 0 <= j
                            < instr_succs(b0[b]@[k]).len() implies {
                        let s = #[trigger] instr_succs(b0[b]@[k])[j];
                        visited@[s as int] || to_patch@.contains(s)
                    } by {
                        let s = instr_succs(b0[b]@[k])[j];
                        if b != id {
                            if !visited@[s as int] {
                                assert(tb.contains(s));
                                let w = choose|w: int| 0 <= w < tb.len() && tb[w] == s;
                                if w < tb.len() - 1 {
                                    assert(tm[w] == s);
                                    assert(to_patch@.take(tm.len() as int)[w] == s);
                                }
                            }
                        }
                    }
                    if !visited@[func.entry as int] {
                        let w = choose|w: int| 0 <= w < tb.len() && tb[w] == func.entry;
                        assert(w < tb.len() - 1);
                        assert(tm[w] == func.entry);
                        assert(to_patch@.take(tm.len() as int)[w] == func.entry);
                        assert(to_patch@[w] == func.entry);
                    }
                }
            } else {
                proof {
                    assert forall|b: int, k: int, j: int|
                        0 <= b < b0.len() && visited@[b] && 0 <= k < b0[b]@.len() && 0 <= j
                            < instr_succs(b0[b]@[k]).len() implies {
                        let s = #[trigger] instr_succs(b0[b]@[k])[j];
                        visited@[s as int] || to_patch@.contains(s)
                    } by {
                        let s = instr_succs(b0[b]@[k])[j];
                        if !visited@[s as int] {
                            assert(tb.contains(s));
                            let w = choose|w: int| 0 <= w < tb.len() && tb[w] == s;
                            if w < tb.len() - 1 {
                                assert(to_patch@[w] == s);
                            }
                        }
                    }
                    if !visited@[func.entry as int] {
                        let w = choose|w: int| 0 <= w < tb.len() && tb[w] == func.entry;
                        assert(w < tb.len() - 1);
                        assert(to_patch@[w] == func.entry);
                    }
                    assert forall|q: int| 0 <= q < to_patch@.len() implies #[trigger] to_patch@[q] < n
                        && reachable(b0, func.entry, to_patch@[q]) by {
                        assert(to_patch@[q] == tb[q]);
                    }
                }
            }
        }
        proof {
            assert(closed_under_succs(b0, visited@, Seq::empty()));
        }
    }
}

} // verus!
