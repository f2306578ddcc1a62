//! Cloning of a function of a linked module into the base module: every entity the function
//! refers to is renamed to where the link put it, and each instruction sequence reached from
//! the entry is copied once, under a new id.

use vstd::prelude::*;

use crate::bindgen::ValType;
use crate::linker::Linker;
use crate::wasm_ir::{instr_succs, IdMap, Instr, LocalFunction};

verus! {

/// The link knows where each entity that the instruction refers to went.
pub open spec fn entities_mapped(l: Linker, locals: Map<u32, u32>, i: Instr) -> bool {
    match i {
        Instr::Call(f) => l.funcs_map@.contains_key(f),
        Instr::RefFunc(f) => l.funcs_map@.contains_key(f),
        Instr::CallIndirect { ty, table } => l.types_map@.contains_key(ty) && l.tables_map@.contains_key(table),
        Instr::LocalGet(x) => locals.contains_key(x),
        Instr::LocalSet(x) => locals.contains_key(x),
        Instr::LocalTee(x) => locals.contains_key(x),
        Instr::GlobalGet(g) => l.globals_map@.contains_key(g),
        Instr::GlobalSet(g) => l.globals_map@.contains_key(g),
        Instr::MemorySize(m) => l.memories_map@.contains_key(m),
        Instr::MemoryGrow(m) => l.memories_map@.contains_key(m),
        Instr::MemoryInit { memory, data } => l.memories_map@.contains_key(memory) && l.data_map@.contains_key(data),
        Instr::DataDrop(d) => l.data_map@.contains_key(d),
        Instr::MemoryCopy { src, dst } => l.memories_map@.contains_key(src) && l.memories_map@.contains_key(dst),
        Instr::MemoryFill(m) => l.memories_map@.contains_key(m),
        Instr::Load { memory, .. } => l.memories_map@.contains_key(memory),
        Instr::Store { memory, .. } => l.memories_map@.contains_key(memory),
        Instr::AtomicRmw { memory, .. } => l.memories_map@.contains_key(memory),
        Instr::Cmpxchg { memory, .. } => l.memories_map@.contains_key(memory),
        Instr::AtomicNotify { memory, .. } => l.memories_map@.contains_key(memory),
        Instr::AtomicWait { memory, .. } => l.memories_map@.contains_key(memory),
        Instr::TableGet(t) => l.tables_map@.contains_key(t),
        Instr::TableSet(t) => l.tables_map@.contains_key(t),
        Instr::TableGrow(t) => l.tables_map@.contains_key(t),
        Instr::TableSize(t) => l.tables_map@.contains_key(t),
        Instr::TableFill(t) => l.tables_map@.contains_key(t),
        Instr::TableInit { table, elem } => l.tables_map@.contains_key(table) && l.elements_map@.contains_key(elem),
        Instr::ElemDrop(e) => l.elements_map@.contains_key(e),
        Instr::TableCopy { src, dst } => l.tables_map@.contains_key(src) && l.tables_map@.contains_key(dst),
        _ => true,
    }
}

/// The copy of an instruction other than a branch table: its entities renamed by the link, its
/// sequences by `seqs`.
pub open spec fn cloned_instr(l: Linker, locals: Map<u32, u32>, seqs: Map<u32, u32>, i: Instr) -> Instr {
    match i {
        Instr::Block(s) => Instr::Block(seqs[s]),
        Instr::Loop(s) => Instr::Loop(seqs[s]),
        Instr::Call(f) => Instr::Call(l.funcs_map@[f]),
        Instr::CallIndirect { ty, table } => Instr::CallIndirect { ty: l.types_map@[ty], table: l.tables_map@[table] },
        Instr::LocalGet(x) => Instr::LocalGet(locals[x]),
        Instr::LocalSet(x) => Instr::LocalSet(locals[x]),
        Instr::LocalTee(x) => Instr::LocalTee(locals[x]),
        Instr::GlobalGet(g) => Instr::GlobalGet(l.globals_map@[g]),
        Instr::GlobalSet(g) => Instr::GlobalSet(l.globals_map@[g]),
        Instr::Br(s) => Instr::Br(seqs[s]),
        Instr::BrIf(s) => Instr::BrIf(seqs[s]),
        Instr::IfElse { consequent, alternative } => Instr::IfElse {
            consequent: seqs[consequent],
            alternative: seqs[alternative],
        },
        Instr::BrTable { .. } => i,
        Instr::MemorySize(m) => Instr::MemorySize(l.memories_map@[m]),
        Instr::MemoryGrow(m) => Instr::MemoryGrow(l.memories_map@[m]),
        Instr::MemoryInit { memory, data } => Instr::MemoryInit {
            memory: l.memories_map@[memory],
            data: l.data_map@[data],
        },
        Instr::DataDrop(d) => Instr::DataDrop(l.data_map@[d]),
        Instr::MemoryCopy { src, dst } => Instr::MemoryCopy { src: l.memories_map@[src], dst: l.memories_map@[dst] },
        Instr::MemoryFill(m) => Instr::MemoryFill(l.memories_map@[m]),
        Instr::Load { memory, arg } => Instr::Load { memory: l.memories_map@[memory], arg },
        Instr::Store { memory, arg } => Instr::Store { memory: l.memories_map@[memory], arg },
        Instr::AtomicRmw { memory, arg } => Instr::AtomicRmw { memory: l.memories_map@[memory], arg },
        Instr::Cmpxchg { memory, arg } => Instr::Cmpxchg { memory: l.memories_map@[memory], arg },
        Instr::AtomicNotify { memory, arg } => Instr::AtomicNotify { memory: l.memories_map@[memory], arg },
        Instr::AtomicWait { memory, arg } => Instr::AtomicWait { memory: l.memories_map@[memory], arg },
        Instr::TableGet(t) => Instr::TableGet(l.tables_map@[t]),
        Instr::TableSet(t) => Instr::TableSet(l.tables_map@[t]),
        Instr::TableGrow(t) => Instr::TableGrow(l.tables_map@[t]),
        Instr::TableSize(t) => Instr::TableSize(l.tables_map@[t]),
        Instr::TableFill(t) => Instr::TableFill(l.tables_map@[t]),
        Instr::RefFunc(f) => Instr::RefFunc(l.funcs_map@[f]),
        Instr::TableInit { table, elem } => Instr::TableInit {
            table: l.tables_map@[table],
            elem: l.elements_map@[elem],
        },
        Instr::ElemDrop(e) => Instr::ElemDrop(l.elements_map@[e]),
        Instr::TableCopy { src, dst } => Instr::TableCopy { src: l.tables_map@[src], dst: l.tables_map@[dst] },
        Instr::Other(x) => Instr::Other(x),
    }
}

/// `r` is the copy of `i`: its entities renamed by the link, its sequences by `seqs`.
pub open spec fn clones_as(l: Linker, locals: Map<u32, u32>, seqs: Map<u32, u32>, i: Instr, r: Instr) -> bool {
    match i {
        Instr::BrTable { blocks, default } => r matches Instr::BrTable { blocks: nb, default: nd } && nb@
            == blocks@.map_values(|s: u32| seqs[s]) && nd == seqs[default],
        _ => r == cloned_instr(l, locals, seqs, i),
    }
}

/// `r` is the copy of the sequence `s`, instruction by instruction.
pub open spec fn seq_clones_as(l: Linker, locals: Map<u32, u32>, seqs: Map<u32, u32>, s: Seq<Instr>, r: Seq<Instr>) -> bool {
    &&& r.len() == s.len()
    &&& forall|k: int| 0 <= k < s.len() ==> clones_as(l, locals, seqs, #[trigger] s[k], r[k])
}

/// The sequences that an instruction refers to, a branch table's default one included, in the
/// order in which a clone visits them.
pub open spec fn seq_refs(i: Instr) -> Seq<u32> {
    match i {
        Instr::BrTable { blocks, default } => blocks@.push(default),
        _ => instr_succs(i),
    }
}

/// One of the instructions of `s` refers to sequence `x`.
pub open spec fn cites(s: Seq<Instr>, x: u32) -> bool {
    exists|k: int, j: int| 0 <= k < s.len() && 0 <= j < seq_refs(s[k]).len() && #[trigger] seq_refs(s[k])[j] == x
}

/// `path` starts at the entry, and each of its sequences refers to the next one.
pub open spec fn is_citation_path(blocks: Seq<Vec<Instr>>, entry: u32, path: Seq<u32>) -> bool {
    &&& path.len() >= 1
    &&& path[0] == entry
    &&& forall|i: int| 0 <= i < path.len() - 1 ==> #[trigger] path[i] < blocks.len() && cites(blocks[path[i] as int]@, path[i + 1])
}

/// Sequence `b` is the entry, or is referred to, in one step or more, from the entry.
pub open spec fn cited_from(blocks: Seq<Vec<Instr>>, entry: u32, b: u32) -> bool {
    exists|path: Seq<u32>| #[trigger] is_citation_path(blocks, entry, path) && path.last() == b
}

proof fn lemma_cited_entry(blocks: Seq<Vec<Instr>>, entry: u32)
    ensures
        cited_from(blocks, entry, entry),
{
    let p = seq![entry];
    assert(is_citation_path(blocks, entry, p) && p.last() == entry);
}

proof fn lemma_cited_step(blocks: Seq<Vec<Instr>>, entry: u32, b: u32, x: u32)
    requires
        cited_from(blocks, entry, b),
        b < blocks.len(),
        cites(blocks[b as int]@, x),
    ensures
        cited_from(blocks, entry, x),
{
    let path = choose|path: Seq<u32>| #[trigger] is_citation_path(blocks, entry, path) && path.last() == b;
    let p2 = path.push(x);
    assert forall|i: int| 0 <= i < p2.len() - 1 implies #[trigger] p2[i] < blocks.len() && cites(
        blocks[p2[i] as int]@, p2[i + 1]) by {
        if i < path.len() - 1 {
            assert(p2[i] == path[i] && p2[i + 1] == path[i + 1]);
        } else {
            assert(p2[i] == b && p2[i + 1] == x);
        }
    }
    assert(is_citation_path(blocks, entry, p2) && p2.last() == x);
}

/// Every sequence that the instruction refers to is one of those in `reach`.
pub open spec fn succs_in(reach: Seq<bool>, i: Instr) -> bool {
    forall|j: int| 0 <= j < seq_refs(i).len() ==> {
        let s = #[trigger] seq_refs(i)[j];
        s < reach.len() && reach[s as int]
    }
}

/// Every sequence that the instruction refers to has an image in `seqs`.
pub open spec fn succs_mapped(seqs: Map<u32, u32>, i: Instr) -> bool {
    forall|j: int| 0 <= j < seq_refs(i).len() ==> seqs.contains_key(#[trigger] seq_refs(i)[j])
}

/// `reach` holds the entry of `f` and every sequence that one of its sequences refers to, and
/// the link (with the locals `locals`) knows every entity that the instructions of these
/// sequences refer to.
pub open spec fn clonable_within(l: Linker, locals: Map<u32, u32>, f: LocalFunction, reach: Seq<bool>) -> bool {
    &&& reach.len() == f.blocks@.len()
    &&& f.entry < reach.len()
    &&& reach[f.entry as int]
    &&& forall|b: int, k: int|
        0 <= b < reach.len() && reach[b] && 0 <= k < f.blocks@[b]@.len() ==> {
            &&& succs_in(reach, #[trigger] f.blocks@[b]@[k])
            &&& entities_mapped(l, locals, f.blocks@[b]@[k])
        }
}

/// The function can be cloned with the link `l` (with the locals `locals`): the sequences
/// reached from its entry exist, and the link knows every entity their instructions refer to.
pub open spec fn clonable(l: Linker, locals: Map<u32, u32>, f: LocalFunction) -> bool {
    exists|reach: Seq<bool>| clonable_within(l, locals, f, reach)
}

/// `m2` agrees with `m1` wherever `m1` is defined.
pub open spec fn extends(m1: Map<u32, u32>, m2: Map<u32, u32>) -> bool {
    forall|k: u32| #[trigger] m1.contains_key(k) ==> m2.contains_key(k) && m2[k] == m1[k]
}

/// The number of sequence ids below `n` that have no image in `m`.
pub open spec fn nb_unmapped(m: Map<u32, u32>, n: nat) -> nat
    decreases n,
{
    if n == 0 {
        0
    } else {
        nb_unmapped(m, (n - 1) as nat) + if m.contains_key((n - 1) as u32) {
            0nat
        } else {
            1nat
        }
    }
}

proof fn lemma_nb_unmapped_extends(m1: Map<u32, u32>, m2: Map<u32, u32>, n: nat)
    requires
        extends(m1, m2),
        n <= u32::MAX + 1,
    ensures
        nb_unmapped(m2, n) <= nb_unmapped(m1, n),
    decreases n,
{
    if n > 0 {
        lemma_nb_unmapped_extends(m1, m2, (n - 1) as nat);
        let k = (n - 1) as u32;
        assert(m1.contains_key(k) ==> m2.contains_key(k));
    }
}

proof fn lemma_nb_unmapped_insert(m: Map<u32, u32>, k: u32, v: u32, n: nat)
    requires
        !m.contains_key(k),
        k < n,
        n <= u32::MAX + 1,
    ensures
        nb_unmapped(m.insert(k, v), n) + 1 == nb_unmapped(m, n),
    decreases n,
{
    if n - 1 != k as nat {
        lemma_nb_unmapped_insert(m, k, v, (n - 1) as nat);
        assert(m.insert(k, v).contains_key((n - 1) as u32) == m.contains_key((n - 1) as u32));
    } else {
        lemma_nb_unmapped_same(m, m.insert(k, v), (n - 1) as nat);
    }
}

proof fn lemma_nb_unmapped_same(m1: Map<u32, u32>, m2: Map<u32, u32>, n: nat)
    requires
        forall|x: u32| x < n ==> m1.contains_key(x) == m2.contains_key(x),
        n <= u32::MAX + 1,
    ensures
        nb_unmapped(m2, n) == nb_unmapped(m1, n),
    decreases n,
{
    if n > 0 {
        lemma_nb_unmapped_same(m1, m2, (n - 1) as nat);
    }
}

proof fn lemma_clone_stable(l: Linker, locals: Map<u32, u32>, m1: Map<u32, u32>, m2: Map<u32, u32>, i: Instr, r: Instr)
    requires
        extends(m1, m2),
        succs_mapped(m1, i),
        clones_as(l, locals, m1, i, r),
    ensures
        clones_as(l, locals, m2, i, r),
{
    match i {
        Instr::BrTable { blocks, default } => {
            assert(seq_refs(i)[blocks@.len() as int] == default);
            assert(m1.contains_key(default));
            let nb = r->BrTable_blocks;
            assert forall|j: int| 0 <= j < blocks@.len() implies m1.contains_key(#[trigger] blocks@[j]) by {
                assert(seq_refs(i)[j] == blocks@[j]);
            }
            assert(nb@ =~= blocks@.map_values(|s: u32| m2[s]));
        },
        Instr::Block(s) => { assert(seq_refs(i)[0] == s); },
        Instr::Loop(s) => { assert(seq_refs(i)[0] == s); },
        Instr::Br(s) => { assert(seq_refs(i)[0] == s); },
        Instr::BrIf(s) => { assert(seq_refs(i)[0] == s); },
        Instr::IfElse { consequent, alternative } => {
            assert(seq_refs(i)[0] == consequent);
            assert(seq_refs(i)[1] == alternative);
        },
        _ => {},
    }
}

proof fn lemma_seq_clone_stable(l: Linker, locals: Map<u32, u32>, m1: Map<u32, u32>, m2: Map<u32, u32>, s: Seq<Instr>, r: Seq<Instr>)
    requires
        extends(m1, m2),
        forall|k: int| 0 <= k < s.len() ==> succs_mapped(m1, #[trigger] s[k]),
        seq_clones_as(l, locals, m1, s, r),
    ensures
        seq_clones_as(l, locals, m2, s, r),
{
    assert forall|k: int| 0 <= k < s.len() implies clones_as(l, locals, m2, #[trigger] s[k], r[k]) by {
        lemma_clone_stable(l, locals, m1, m2, s[k], r[k]);
    }
}

proof fn lemma_succs_mapped_stable(m1: Map<u32, u32>, m2: Map<u32, u32>, i: Instr)
    requires
        extends(m1, m2),
        succs_mapped(m1, i),
    ensures
        succs_mapped(m2, i),
{
    assert forall|j: int| 0 <= j < seq_refs(i).len() implies m2.contains_key(#[trigger] seq_refs(i)[j]) by {
        assert(m1.contains_key(seq_refs(i)[j]));
    }
}

proof fn lemma_nb_unmapped_empty(n: nat)
    requires
        n <= u32::MAX + 1,
    ensures
        nb_unmapped(Map::<u32, u32>::empty(), n) == n,
    decreases n,
{
    if n > 0 {
        lemma_nb_unmapped_empty((n - 1) as nat);
    }
}

/// The copy of `f` in `r`: its entry is the copy of `f`'s entry, and every other sequence of `r`
/// is the copy of the one sequence of `f` that `seqs` sends to it; `seqs` covers every sequence
/// that a copied one refers to, and no sequence that the entry does not lead to.
pub open spec fn is_clone(l: Linker, locals: Map<u32, u32>, f: LocalFunction, seqs: Map<u32, u32>, r: LocalFunction) -> bool {
    let n = f.blocks@.len();
    &&& r.entry == 0
    &&& r.blocks@.len() >= 1
    &&& f.entry < n
    &&& seq_clones_as(l, locals, seqs, f.blocks@[f.entry as int]@, r.blocks@[0]@)
    &&& forall|k: int| 0 <= k < f.blocks@[f.entry as int]@.len() ==> succs_mapped(seqs, #[trigger] f.blocks@[f.entry as int]@[k])
    &&& forall|s: u32| #[trigger] seqs.contains_key(s) ==> {
        &&& s < n
        &&& cited_from(f.blocks@, f.entry, s)
        &&& 1 <= seqs[s] < r.blocks@.len()
        &&& seq_clones_as(l, locals, seqs, f.blocks@[s as int]@, r.blocks@[seqs[s] as int]@)
        &&& forall|k: int| 0 <= k < f.blocks@[s as int]@.len() ==> succs_mapped(seqs, #[trigger] f.blocks@[s as int]@[k])
    }
    &&& forall|s1: u32, s2: u32| #[trigger] seqs.contains_key(s1) && #[trigger] seqs.contains_key(s2) && seqs[s1] == seqs[s2] ==> s1 == s2
    &&& forall|t: int| 1 <= t < r.blocks@.len() ==> #[trigger] has_source(seqs, t)
}

/// A clone uses the globals where the link put them: wherever a copied sequence of the source
/// reads or writes global `g`, its copy reads or writes, at the same place, the global
/// `globals_map[g]` of the base module.
pub proof fn lemma_clone_renames_globals(l: Linker, locals: Map<u32, u32>, f: LocalFunction, seqs: Map<u32, u32>, r: LocalFunction)
    requires
        is_clone(l, locals, f, seqs, r),
    ensures
        forall|k: int| 0 <= k < f.blocks@[f.entry as int]@.len() ==> {
            &&& ((#[trigger] f.blocks@[f.entry as int]@[k]) matches Instr::GlobalGet(g)
                ==> r.blocks@[0]@[k] == Instr::GlobalGet(l.globals_map@[g]))
            &&& (f.blocks@[f.entry as int]@[k] matches Instr::GlobalSet(g)
                ==> r.blocks@[0]@[k] == Instr::GlobalSet(l.globals_map@[g]))
        },
        forall|s: u32, k: int| #[trigger] seqs.contains_key(s) && 0 <= k < f.blocks@[s as int]@.len() ==> {
            &&& ((#[trigger] f.blocks@[s as int]@[k]) matches Instr::GlobalGet(g)
                ==> r.blocks@[seqs[s] as int]@[k] == Instr::GlobalGet(l.globals_map@[g]))
            &&& (f.blocks@[s as int]@[k] matches Instr::GlobalSet(g)
                ==> r.blocks@[seqs[s] as int]@[k] == Instr::GlobalSet(l.globals_map@[g]))
        },
{
    let e = f.blocks@[f.entry as int]@;
    assert forall|k: int| 0 <= k < e.len() implies {
        &&& ((#[trigger] e[k]) matches Instr::GlobalGet(g) ==> r.blocks@[0]@[k] == Instr::GlobalGet(l.globals_map@[g]))
        &&& (e[k] matches Instr::GlobalSet(g) ==> r.blocks@[0]@[k] == Instr::GlobalSet(l.globals_map@[g]))
    } by {
        assert(clones_as(l, locals, seqs, e[k], r.blocks@[0]@[k]));
    }
    assert forall|s: u32, k: int| #[trigger] seqs.contains_key(s) && 0 <= k < f.blocks@[s as int]@.len() implies {
        &&& ((#[trigger] f.blocks@[s as int]@[k]) matches Instr::GlobalGet(g)
            ==> r.blocks@[seqs[s] as int]@[k] == Instr::GlobalGet(l.globals_map@[g]))
        &&& (f.blocks@[s as int]@[k] matches Instr::GlobalSet(g)
            ==> r.blocks@[seqs[s] as int]@[k] == Instr::GlobalSet(l.globals_map@[g]))
    } by {
        assert(clones_as(l, locals, seqs, f.blocks@[s as int]@[k], r.blocks@[seqs[s] as int]@[k]));
    }
}

/// `c`, the copy of `i`, calls the functions, and uses the locals and tables, where the link put
/// them.
pub open spec fn uses_linked_entities(l: Linker, locals: Map<u32, u32>, i: Instr, c: Instr) -> bool {
    &&& (i matches Instr::Call(f) ==> c == Instr::Call(l.funcs_map@[f]))
    &&& (i matches Instr::RefFunc(f) ==> c == Instr::RefFunc(l.funcs_map@[f]))
    &&& (i matches Instr::LocalGet(x) ==> c == Instr::LocalGet(locals[x]))
    &&& (i matches Instr::LocalSet(x) ==> c == Instr::LocalSet(locals[x]))
    &&& (i matches Instr::LocalTee(x) ==> c == Instr::LocalTee(locals[x]))
    &&& (i matches Instr::TableGet(t) ==> c == Instr::TableGet(l.tables_map@[t]))
    &&& (i matches Instr::TableSet(t) ==> c == Instr::TableSet(l.tables_map@[t]))
    &&& (i matches Instr::MemorySize(m) ==> c == Instr::MemorySize(l.memories_map@[m]))
    &&& (i matches Instr::MemoryGrow(m) ==> c == Instr::MemoryGrow(l.memories_map@[m]))
}

/// A clone calls the functions, and uses the locals, tables and memories, where the link put
/// them: at each place of a copied sequence, a call of the source's function `f` becomes a call
/// of `funcs_map[f]`, a use of local `x` a use of `locals[x]`, and so on.
pub proof fn lemma_clone_uses_linked_entities(l: Linker, locals: Map<u32, u32>, f: LocalFunction, seqs: Map<u32, u32>, r: LocalFunction)
    requires
        is_clone(l, locals, f, seqs, r),
    ensures
        forall|k: int| 0 <= k < f.blocks@[f.entry as int]@.len() ==>
            uses_linked_entities(l, locals, #[trigger] f.blocks@[f.entry as int]@[k], r.blocks@[0]@[k]),
        forall|s: u32, k: int| #[trigger] seqs.contains_key(s) && 0 <= k < f.blocks@[s as int]@.len() ==>
            uses_linked_entities(l, locals, #[trigger] f.blocks@[s as int]@[k], r.blocks@[seqs[s] as int]@[k]),
{
    let e = f.blocks@[f.entry as int]@;
    assert forall|k: int| 0 <= k < e.len() implies uses_linked_entities(l, locals, #[trigger] e[k], r.blocks@[0]@[k]) by {
        assert(clones_as(l, locals, seqs, e[k], r.blocks@[0]@[k]));
    }
    assert forall|s: u32, k: int| #[trigger] seqs.contains_key(s) && 0 <= k < f.blocks@[s as int]@.len() implies
        uses_linked_entities(l, locals, #[trigger] f.blocks@[s as int]@[k], r.blocks@[seqs[s] as int]@[k]) by {
        assert(clones_as(l, locals, seqs, f.blocks@[s as int]@[k], r.blocks@[seqs[s] as int]@[k]));
    }
}

/// Some sequence is sent to `t`.
pub open spec fn has_source(seqs: Map<u32, u32>, t: int) -> bool {
    exists|s: u32| #[trigger] seqs.contains_key(s) && seqs[s] == t
}

/// The locals map after the arguments `args` are given new locals, numbered from `first`.
pub open spec fn args_map(locals: Map<u32, u32>, args: Seq<u32>, first: nat) -> Map<u32, u32>
    decreases args.len(),
{
    if args.len() == 0 {
        locals
    } else {
        args_map(locals, args.drop_last(), first).insert(args.last(), (first + args.len() - 1) as u32)
    }
}

/// A clone in progress: the sequences built so far, and where each sequence of the source went.
pub struct FunctionClonner {
    seq_map: IdMap,
    blocks: Vec<Vec<Instr>>,
    /// The source sequence of each sequence built.
    sources: Vec<u32>,
}

/// The copy `block` of the source sequence `s` is complete.
spec fn seq_done(l: Linker, f: LocalFunction, m: Map<u32, u32>, s: u32, block: Vec<Instr>) -> bool {
    &&& forall|k: int| 0 <= k < f.blocks@[s as int]@.len() ==> succs_mapped(m, #[trigger] f.blocks@[s as int]@[k])
    &&& seq_clones_as(l, l.locals_map@, m, f.blocks@[s as int]@, block@)
}

impl FunctionClonner {
    /// The clone is consistent: each mapped source sequence has one sequence built for it, and
    /// the copies of those not `pending` are complete.
    spec fn state_ok(self, l: Linker, f: LocalFunction, reach: Seq<bool>, pending: Set<u32>) -> bool {
        let m = self.seq_map@;
        let n = f.blocks@.len();
        &&& n < u32::MAX
        &&& self.blocks@.len() >= 1
        &&& self.sources@.len() == self.blocks@.len()
        &&& self.sources@[0] == f.entry
        &&& self.blocks@.len() - 1 + nb_unmapped(m, n) == n
        &&& forall|s: u32| #[trigger] m.contains_key(s) ==> {
            &&& s < n
            &&& reach[s as int]
            &&& cited_from(f.blocks@, f.entry, s)
            &&& 1 <= m[s] < self.blocks@.len()
            &&& self.sources@[m[s] as int] == s
        }
        &&& forall|t: int| 1 <= t < self.blocks@.len() ==> m.contains_key(#[trigger] self.sources@[t]) && m[self.sources@[t]] == t
        &&& forall|s: u32| #[trigger] m.contains_key(s) && !pending.contains(s) ==> seq_done(l, f, m, s, self.blocks@[m[s] as int])
        &&& forall|s: u32| #[trigger] pending.contains(s) ==> m.contains_key(s)
    }

    proof fn lemma_stable(self, l: Linker, f: LocalFunction, m2: Map<u32, u32>, s: u32)
        requires
            extends(self.seq_map@, m2),
            seq_done(l, f, self.seq_map@, s, self.blocks@[self.seq_map@[s] as int]),
        ensures
            seq_done(l, f, m2, s, self.blocks@[self.seq_map@[s] as int]),
    {
        let src = f.blocks@[s as int]@;
        assert forall|k: int| 0 <= k < src.len() implies succs_mapped(m2, #[trigger] src[k]) by {
            lemma_succs_mapped_stable(self.seq_map@, m2, src[k]);
        }
        lemma_seq_clone_stable(l, l.locals_map@, self.seq_map@, m2, src, self.blocks@[self.seq_map@[s] as int]@);
    }

    /// The id of the copy of the source sequence `seq_id`, which is built if it is not yet.
    fn get_or_build_instr_seq(
        &mut self,
        l: &Linker,
        f: &LocalFunction,
        seq_id: u32,
        Ghost(reach): Ghost<Seq<bool>>,
        Ghost(pending): Ghost<Set<u32>>,
    ) -> (r: u32)
        requires
            old(self).state_ok(*l, *f, reach, pending),
            clonable_within(*l, l.locals_map@, *f, reach),
            seq_id < f.blocks@.len(),
            reach[seq_id as int],
            cited_from(f.blocks@, f.entry, seq_id),
        ensures
            final(self).state_ok(*l, *f, reach, pending),
            extends(old(self).seq_map@, final(self).seq_map@),
            nb_unmapped(final(self).seq_map@, f.blocks@.len()) <= nb_unmapped(old(self).seq_map@, f.blocks@.len()),
            final(self).seq_map@.contains_key(seq_id),
            r == final(self).seq_map@[seq_id],
        decreases nb_unmapped(old(self).seq_map@, f.blocks@.len()), 0nat,
    {
        if let Some(new_id) = self.seq_map.get(seq_id) {
            return new_id;
        }
        let ghost m0 = self.seq_map@;
        let ghost b0 = self.blocks@;
        let ghost n = f.blocks@.len();
        let new_id = self.blocks.len() as u32;
        proof {
            lemma_nb_unmapped_insert(m0, seq_id, new_id, n);
        }
        self.blocks.push(Vec::new());
        self.seq_map.insert(seq_id, new_id);
        self.sources.push(seq_id);
        let ghost pending2 = pending.insert(seq_id);
        proof {
            let m1 = self.seq_map@;
            assert(extends(m0, m1));
            assert forall|s: u32| #[trigger] m1.contains_key(s) && !pending2.contains(s) implies seq_done(
                *l, *f, m1, s, self.blocks@[m1[s] as int]) by {
                assert(m0.contains_key(s));
                assert(self.blocks@[m1[s] as int] == b0[m0[s] as int]);
                old(self).lemma_stable(*l, *f, m1, s);
            }
            assert forall|t: int| 1 <= t < self.blocks@.len() implies m1.contains_key(#[trigger] self.sources@[t])
                && m1[self.sources@[t]] == t by {
                if t < b0.len() {
                    assert(m0.contains_key(old(self).sources@[t]));
                }
            }
        }
        let ghost m1 = self.seq_map@;
        assert(m1.contains_key(seq_id) && m1[seq_id] == new_id);
        let body = self.clone_instr_seq(l, f, seq_id, Ghost(reach), Ghost(pending2));
        let ghost m2 = self.seq_map@;
        let ghost b2 = self.blocks@;
        self.blocks.set(new_id as usize, body);
        proof {
            assert(m2[seq_id] == new_id);
            assert forall|s: u32| #[trigger] m2.contains_key(s) && !pending.contains(s) implies seq_done(
                *l, *f, m2, s, self.blocks@[m2[s] as int]) by {
                if s != seq_id {
                    assert(self.sources@[m2[s] as int] == s);
                    assert(m2[s] != new_id);
                }
            }
            lemma_nb_unmapped_extends(m0, m2, n);
        }
        new_id
    }

    /// The copy of the source sequence `seq_id`.
    fn clone_instr_seq(
        &mut self,
        l: &Linker,
        f: &LocalFunction,
        seq_id: u32,
        Ghost(reach): Ghost<Seq<bool>>,
        Ghost(pending): Ghost<Set<u32>>,
    ) -> (r: Vec<Instr>)
        requires
            old(self).state_ok(*l, *f, reach, pending),
            clonable_within(*l, l.locals_map@, *f, reach),
            seq_id < f.blocks@.len(),
            reach[seq_id as int],
            cited_from(f.blocks@, f.entry, seq_id),
        ensures
            final(self).state_ok(*l, *f, reach, pending),
            extends(old(self).seq_map@, final(self).seq_map@),
            nb_unmapped(final(self).seq_map@, f.blocks@.len()) <= nb_unmapped(old(self).seq_map@, f.blocks@.len()),
            forall|k: int| 0 <= k < f.blocks@[seq_id as int]@.len()
                ==> succs_mapped(final(self).seq_map@, #[trigger] f.blocks@[seq_id as int]@[k]),
            seq_clones_as(*l, l.locals_map@, final(self).seq_map@, f.blocks@[seq_id as int]@, r@),
        decreases nb_unmapped(old(self).seq_map@, f.blocks@.len()), 2nat,
    {
        let block = &f.blocks[seq_id as usize];
        let mut out: Vec<Instr> = Vec::new();
        let mut k: usize = 0;
        while k < block.len()
            invariant
                0 <= k <= block@.len(),
                *block == f.blocks@[seq_id as int],
                self.state_ok(*l, *f, reach, pending),
                clonable_within(*l, l.locals_map@, *f, reach),
                seq_id < f.blocks@.len(),
                reach[seq_id as int],
                cited_from(f.blocks@, f.entry, seq_id),
                extends(old(self).seq_map@, self.seq_map@),
                nb_unmapped(self.seq_map@, f.blocks@.len()) <= nb_unmapped(old(self).seq_map@, f.blocks@.len()),
                out@.len() == k,
                forall|j: int| 0 <= j < k ==> succs_mapped(self.seq_map@, #[trigger] block@[j]),
                forall|j: int| 0 <= j < k ==> clones_as(*l, l.locals_map@, self.seq_map@, #[trigger] block@[j], out@[j]),
            decreases block@.len() - k,
        {
            let ghost m1 = self.seq_map@;
            proof {
                assert forall|j: int| 0 <= j < seq_refs(block@[k as int]).len() implies cited_from(
                    f.blocks@, f.entry, #[trigger] seq_refs(block@[k as int])[j]) by {
                    let x = seq_refs(block@[k as int])[j];
                    assert(seq_refs(f.blocks@[seq_id as int]@[k as int])[j] == x);
                    lemma_cited_step(f.blocks@, f.entry, seq_id, x);
                }
            }
            let i = self.patch_instr(l, f, &block[k], Ghost(reach), Ghost(pending));
            proof {
                let m2 = self.seq_map@;
                assert forall|j: int| 0 <= j < k implies succs_mapped(m2, #[trigger] block@[j])
                    && clones_as(*l, l.locals_map@, m2, block@[j], out@[j]) by {
                    lemma_succs_mapped_stable(m1, m2, block@[j]);
                    lemma_clone_stable(*l, l.locals_map@, m1, m2, block@[j], out@[j]);
                }
            }
            out.push(i);
            k = k + 1;
        }
        out
    }

    /// The copy of an instruction; the sequences it refers to are built if they are not yet.
    fn patch_instr(
        &mut self,
        l: &Linker,
        f: &LocalFunction,
        instr: &Instr,
        Ghost(reach): Ghost<Seq<bool>>,
        Ghost(pending): Ghost<Set<u32>>,
    ) -> (r: Instr)
        requires
            old(self).state_ok(*l, *f, reach, pending),
            clonable_within(*l, l.locals_map@, *f, reach),
            succs_in(reach, *instr),
            entities_mapped(*l, l.locals_map@, *instr),
            forall|j: int| 0 <= j < seq_refs(*instr).len() ==> cited_from(f.blocks@, f.entry, #[trigger] seq_refs(*instr)[j]),
        ensures
            final(self).state_ok(*l, *f, reach, pending),
            extends(old(self).seq_map@, final(self).seq_map@),
            nb_unmapped(final(self).seq_map@, f.blocks@.len()) <= nb_unmapped(old(self).seq_map@, f.blocks@.len()),
            succs_mapped(final(self).seq_map@, *instr),
            clones_as(*l, l.locals_map@, final(self).seq_map@, *instr, r),
        decreases nb_unmapped(old(self).seq_map@, f.blocks@.len()), 1nat,
    {
        match instr {
            Instr::Block(s) => {
                assert(seq_refs(*instr)[0] == *s);
                Instr::Block(self.get_or_build_instr_seq(l, f, *s, Ghost(reach), Ghost(pending)))
            },
            Instr::Loop(s) => {
                assert(seq_refs(*instr)[0] == *s);
                Instr::Loop(self.get_or_build_instr_seq(l, f, *s, Ghost(reach), Ghost(pending)))
            },
            Instr::Br(s) => {
                assert(seq_refs(*instr)[0] == *s);
                Instr::Br(self.get_or_build_instr_seq(l, f, *s, Ghost(reach), Ghost(pending)))
            },
            Instr::BrIf(s) => {
                assert(seq_refs(*instr)[0] == *s);
                Instr::BrIf(self.get_or_build_instr_seq(l, f, *s, Ghost(reach), Ghost(pending)))
            },
            Instr::IfElse { consequent, alternative } => {
                assert(seq_refs(*instr)[0] == *consequent);
                assert(seq_refs(*instr)[1] == *alternative);
                let ghost m0 = self.seq_map@;
                let c = self.get_or_build_instr_seq(l, f, *consequent, Ghost(reach), Ghost(pending));
                let ghost m1 = self.seq_map@;
                let a = self.get_or_build_instr_seq(l, f, *alternative, Ghost(reach), Ghost(pending));
                proof {
                    assert(m1.contains_key(*consequent));
                    lemma_nb_unmapped_extends(m0, self.seq_map@, f.blocks@.len());
                }
                Instr::IfElse { consequent: c, alternative: a }
            },
            Instr::BrTable { blocks, default } => {
                let ghost m0 = self.seq_map@;
                let mut nb: Vec<u32> = Vec::new();
                let mut j: usize = 0;
                while j < blocks.len()
                    invariant
                        0 <= j <= blocks@.len(),
                        *instr == (Instr::BrTable { blocks: *blocks, default: *default }),
                        self.state_ok(*l, *f, reach, pending),
                        clonable_within(*l, l.locals_map@, *f, reach),
                        succs_in(reach, *instr),
                        forall|q: int| 0 <= q < seq_refs(*instr).len() ==> cited_from(f.blocks@, f.entry, #[trigger] seq_refs(*instr)[q]),
                        extends(m0, self.seq_map@),
                        m0 == old(self).seq_map@,
                        nb_unmapped(self.seq_map@, f.blocks@.len()) <= nb_unmapped(m0, f.blocks@.len()),
                        nb@.len() == j,
                        forall|q: int| 0 <= q < j ==> self.seq_map@.contains_key(#[trigger] blocks@[q])
                            && nb@[q] == self.seq_map@[blocks@[q]],
                    decreases blocks@.len() - j,
                {
                    assert(seq_refs(*instr)[j as int] == blocks@[j as int]);
                    let ghost m1 = self.seq_map@;
                    let t = self.get_or_build_instr_seq(l, f, blocks[j], Ghost(reach), Ghost(pending));
                    proof {
                        assert forall|q: int| 0 <= q < j implies self.seq_map@.contains_key(#[trigger] blocks@[q])
                            && nb@[q] == self.seq_map@[blocks@[q]] by {
                            assert(m1.contains_key(blocks@[q]));
                        }
                        lemma_nb_unmapped_extends(m1, self.seq_map@, f.blocks@.len());
                    }
                    nb.push(t);
                    j = j + 1;
                }
                assert(seq_refs(*instr)[blocks@.len() as int] == *default);
                let ghost m1 = self.seq_map@;
                let d = self.get_or_build_instr_seq(l, f, *default, Ghost(reach), Ghost(pending));
                proof {
                    let m2 = self.seq_map@;
                    assert forall|q: int| 0 <= q < blocks@.len() implies m2.contains_key(#[trigger] blocks@[q])
                        && nb@[q] == m2[blocks@[q]] by {
                        assert(m1.contains_key(blocks@[q]));
                    }
                    assert(nb@ =~= blocks@.map_values(|s: u32| m2[s]));
                    assert forall|q: int| 0 <= q < seq_refs(*instr).len() implies m2.contains_key(
                        #[trigger] seq_refs(*instr)[q]) by {
                        if q < blocks@.len() {
                            assert(seq_refs(*instr)[q] == blocks@[q]);
                        }
                    }
                    lemma_nb_unmapped_extends(m1, m2, f.blocks@.len());
                }
                Instr::BrTable { blocks: nb, default: d }
            },
            Instr::Call(x) => Instr::Call(l.new_func_id(*x)),
            Instr::CallIndirect { ty, table } => Instr::CallIndirect { ty: l.new_type_id(*ty), table: l.new_table_id(*table) },
            Instr::LocalGet(x) => Instr::LocalGet(l.new_local_id(*x)),
            Instr::LocalSet(x) => Instr::LocalSet(l.new_local_id(*x)),
            Instr::LocalTee(x) => Instr::LocalTee(l.new_local_id(*x)),
            Instr::GlobalGet(x) => Instr::GlobalGet(l.new_global_id(*x)),
            Instr::GlobalSet(x) => Instr::GlobalSet(l.new_global_id(*x)),
            Instr::MemorySize(x) => Instr::MemorySize(l.new_mem_id(*x)),
            Instr::MemoryGrow(x) => Instr::MemoryGrow(l.new_mem_id(*x)),
            Instr::MemoryInit { memory, data } => Instr::MemoryInit { memory: l.new_mem_id(*memory), data: l.new_data_id(*data) },
            Instr::DataDrop(x) => Instr::DataDrop(l.new_data_id(*x)),
            Instr::MemoryCopy { src, dst } => Instr::MemoryCopy { src: l.new_mem_id(*src), dst: l.new_mem_id(*dst) },
            Instr::MemoryFill(x) => Instr::MemoryFill(l.new_mem_id(*x)),
            Instr::Load { memory, arg } => Instr::Load { memory: l.new_mem_id(*memory), arg: *arg },
            Instr::Store { memory, arg } => Instr::Store { memory: l.new_mem_id(*memory), arg: *arg },
            Instr::AtomicRmw { memory, arg } => Instr::AtomicRmw { memory: l.new_mem_id(*memory), arg: *arg },
            Instr::Cmpxchg { memory, arg } => Instr::Cmpxchg { memory: l.new_mem_id(*memory), arg: *arg },
            Instr::AtomicNotify { memory, arg } => Instr::AtomicNotify { memory: l.new_mem_id(*memory), arg: *arg },
            Instr::AtomicWait { memory, arg } => Instr::AtomicWait { memory: l.new_mem_id(*memory), arg: *arg },
            Instr::TableGet(x) => Instr::TableGet(l.new_table_id(*x)),
            Instr::TableSet(x) => Instr::TableSet(l.new_table_id(*x)),
            Instr::TableGrow(x) => Instr::TableGrow(l.new_table_id(*x)),
            Instr::TableSize(x) => Instr::TableSize(l.new_table_id(*x)),
            Instr::TableFill(x) => Instr::TableFill(l.new_table_id(*x)),
            Instr::RefFunc(x) => Instr::RefFunc(l.new_func_id(*x)),
            Instr::TableInit { table, elem } => Instr::TableInit { table: l.new_table_id(*table), elem: l.new_element_id(*elem) },
            Instr::ElemDrop(x) => Instr::ElemDrop(l.new_element_id(*x)),
            Instr::TableCopy { src, dst } => Instr::TableCopy { src: l.new_table_id(*src), dst: l.new_table_id(*dst) },
            Instr::Other(x) => Instr::Other(*x),
        }
    }
}

/// Clones the linked module's function `func` into the base module: each of its arguments gets a
/// new local of the base module (of the type in `params`, numbered after those of
/// `base_locals`), which the link records; the body is copied with every entity renamed to where
/// the link put it, each sequence reached from the entry under a new id. Returns the clone and
/// the source sequence of each of its sequences.
pub fn clone_func(linker: &mut Linker, base_locals: &mut Vec<ValType>, func: &LocalFunction, params: &[ValType]) -> (r: (LocalFunction, Vec<u32>))
    requires
        params@.len() == func.args@.len(),
        old(base_locals)@.len() + params@.len() <= u32::MAX,
        func.blocks@.len() < u32::MAX,
        clonable(*old(linker), args_map(old(linker).locals_map@, func.args@, old(base_locals)@.len() as nat), *func),
    ensures
        final(base_locals)@ == old(base_locals)@ + params@,
        final(linker).locals_map@ == args_map(old(linker).locals_map@, func.args@, old(base_locals)@.len() as nat),
        final(linker).globals_map == old(linker).globals_map,
        final(linker).tables_map == old(linker).tables_map,
        final(linker).funcs_map == old(linker).funcs_map,
        final(linker).types_map == old(linker).types_map,
        final(linker).memories_map == old(linker).memories_map,
        final(linker).data_map == old(linker).data_map,
        final(linker).elements_map == old(linker).elements_map,
        final(linker).linkee_imports == old(linker).linkee_imports,
        final(linker).linkee_name == old(linker).linkee_name,
        r.0.args@ == Seq::new(params@.len(), |i: int| (old(base_locals)@.len() + i) as u32),
        r.1@.len() == r.0.blocks@.len(),
        r.1@[0] == func.entry,
        exists|seqs: Map<u32, u32>| {
            &&& is_clone(*final(linker), final(linker).locals_map@, *func, seqs, r.0)
            &&& forall|t: int| 1 <= t < r.1@.len() ==> seqs.contains_key(#[trigger] r.1@[t]) && seqs[r.1@[t]] == t
        },
{
    let ghost first = base_locals@.len() as nat;
    let ghost l0 = *linker;
    let mut args: Vec<u32> = Vec::new();
    let mut i: usize = 0;
    while i < params.len()
        invariant
            0 <= i <= params@.len(),
            params@.len() == func.args@.len(),
            first == old(base_locals)@.len(),
            first + params@.len() <= u32::MAX,
            base_locals@ == old(base_locals)@ + params@.take(i as int),
            linker.locals_map@ == args_map(old(linker).locals_map@, func.args@.take(i as int), first),
            linker.globals_map == old(linker).globals_map,
            linker.tables_map == old(linker).tables_map,
            linker.funcs_map == old(linker).funcs_map,
            linker.types_map == old(linker).types_map,
            linker.memories_map == old(linker).memories_map,
            linker.data_map == old(linker).data_map,
            linker.elements_map == old(linker).elements_map,
            linker.linkee_imports == old(linker).linkee_imports,
            linker.linkee_name == old(linker).linkee_name,
            args@ == Seq::new(i as nat, |j: int| (first + j) as u32),
        decreases params@.len() - i,
    {
        let new_local = base_locals.len() as u32;
        base_locals.push(params[i]);
        linker.remap_local(func.args[i], new_local);
        args.push(new_local);
        proof {
            assert(params@.take(i + 1) =~= params@.take(i as int).push(params@[i as int]));
            let a = func.args@.take(i + 1);
            assert(a.drop_last() =~= func.args@.take(i as int));
            assert(a.last() == func.args@[i as int]);
            assert(args@ =~= Seq::new((i + 1) as nat, |j: int| (first + j) as u32));
        }
        i = i + 1;
    }
    proof {
        assert(params@.take(i as int) =~= params@);
        assert(func.args@.take(i as int) =~= func.args@);
    }
    let ghost locals = linker.locals_map@;
    let ghost reach = choose|reach: Seq<bool>| clonable_within(*old(linker), locals, *func, reach);
    proof {
        assert(clonable_within(*linker, linker.locals_map@, *func, reach));
        lemma_nb_unmapped_empty(func.blocks@.len() as nat);
        lemma_cited_entry(func.blocks@, func.entry);
    }
    let mut blocks: Vec<Vec<Instr>> = Vec::new();
    blocks.push(Vec::new());
    let mut sources: Vec<u32> = Vec::new();
    sources.push(func.entry);
    let mut clonner = FunctionClonner { seq_map: IdMap::new(), blocks, sources };
    let body = clonner.clone_instr_seq(linker, func, func.entry, Ghost(reach), Ghost(Set::empty()));
    clonner.blocks.set(0, body);
    let r = LocalFunction { args, blocks: clonner.blocks, entry: 0 };
    proof {
        let seqs = clonner.seq_map@;
        assert forall|t: int| 1 <= t < r.blocks@.len() implies #[trigger] has_source(seqs, t) by {
            assert(seqs.contains_key(clonner.sources@[t]));
        }
        assert forall|s: u32| #[trigger] seqs.contains_key(s) implies {
            &&& s < func.blocks@.len()
            &&& cited_from(func.blocks@, func.entry, s)
            &&& 1 <= seqs[s] < r.blocks@.len()
            &&& seq_clones_as(*linker, locals, seqs, func.blocks@[s as int]@, r.blocks@[seqs[s] as int]@)
            &&& forall|k: int| 0 <= k < func.blocks@[s as int]@.len() ==> succs_mapped(seqs, #[trigger] func.blocks@[s as int]@[k])
        } by {
            assert(!Set::<u32>::empty().contains(s));
        }
        assert forall|s1: u32, s2: u32| #[trigger] seqs.contains_key(s1) && #[trigger] seqs.contains_key(s2)
            && seqs[s1] == seqs[s2] implies s1 == s2 by {
            assert(clonner.sources@[seqs[s1] as int] == s1);
        }
        assert(is_clone(*linker, locals, *func, seqs, r));
    }
    (r, clonner.sources)
}

} // verus!
