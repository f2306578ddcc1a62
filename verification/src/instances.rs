//! Instances: modules whose imports are resolved, whose memories are allocated and whose code
//! is relocated in place.

use vstd::prelude::*;

use crate::collections::{FrozenMap, NameMap};
use crate::entity::{EntityRef, FuncIndex, GlobIndex, HeapIndex, ImportIndex, TableIndex};
use crate::modules::SimpleVMContextLayout;
use crate::traits::{VMContextLayout, 
    DataSegment, FuncInfo, GlobInfo, GlobInit, HeapInfo, HeapKind, ItemRef, MemoryArea, Module,
    ModuleError, RawFuncPtr, Reloc, RelocKind, TableInfo, TableSegment,
};
use crate::types::RefType;
use crate::vmctx::VMContext;

verus! {

/// The size of a WebAssembly page, in bytes (64 KiB).
pub const PAGE_SIZE: usize = 0x10000;

// ————————————————————————————— Heap contents —————————————————————————————— //

/// The segments of `segs` that apply to heap `idx` start at no base and fit in `size` bytes.
pub open spec fn segments_fit(size: nat, idx: HeapIndex, segs: Seq<DataSegment>) -> bool {
    forall|i: int| 0 <= i < segs.len() && (#[trigger] segs[i]).heap_index == idx ==> {
        &&& segs[i].base is None
        &&& segs[i].offset + segs[i].data@.len() <= size
    }
}

/// `heap` after copying, in order, each segment of `segs` that applies to heap `idx`.
pub open spec fn apply_segments(heap: Seq<u8>, idx: HeapIndex, segs: Seq<DataSegment>) -> Seq<u8>
    decreases segs.len(),
{
    if segs.len() == 0 {
        heap
    } else {
        let h = apply_segments(heap, idx, segs.drop_last());
        let s = segs.last();
        if s.heap_index == idx {
            h.take(s.offset as int) + s.data@ + h.skip(s.offset + s.data@.len())
        } else {
            h
        }
    }
}

proof fn lemma_apply_segments_len(heap: Seq<u8>, idx: HeapIndex, segs: Seq<DataSegment>)
    requires
        segments_fit(heap.len(), idx, segs),
    ensures
        apply_segments(heap, idx, segs).len() == heap.len(),
    decreases segs.len(),
{
    if segs.len() > 0 {
        assert(segments_fit(heap.len(), idx, segs.drop_last())) by {
            assert forall|i: int| 0 <= i < segs.drop_last().len() && (#[trigger] segs.drop_last()[i]).heap_index == idx
                implies segs.drop_last()[i].base is None
                && segs.drop_last()[i].offset + segs.drop_last()[i].data@.len() <= heap.len() by {
                assert(segs.drop_last()[i] == segs[i]);
            }
        }
        lemma_apply_segments_len(heap, idx, segs.drop_last());
        assert(segs[segs.len() - 1] == segs.last());
    }
}

/// Initializes a heap: zeroes it, then copies in order each data segment that applies to it.
pub fn initialize_heap(heap: &mut Vec<u8>, idx: HeapIndex, segments: &[DataSegment]) -> (r: Result<(), ModuleError>)
    requires
        segments_fit(old(heap)@.len(), idx, segments@),
    ensures
        r is Ok,
        final(heap)@ == apply_segments(Seq::new(old(heap)@.len(), |i: int| 0u8), idx, segments@),
{
    let ghost zeroes = Seq::new(old(heap)@.len(), |i: int| 0u8);
    // Zero out the memory
    let mut i: usize = 0;
    while i < heap.len()
        invariant
            i <= heap@.len() == zeroes.len(),
            forall|j: int| 0 <= j < i ==> heap@[j] == 0,
        decreases heap@.len() - i,
    {
        heap.set(i, 0);
        i = i + 1;
    }
    assert(heap@ =~= zeroes);

    // Initialize with data segments
    let mut k: usize = 0;
    while k < segments.len()
        invariant
            k <= segments@.len(),
            segments_fit(zeroes.len(), idx, segments@),
            heap@ == apply_segments(zeroes, idx, segments@.take(k as int)),
            heap@.len() == zeroes.len(),
        decreases segments@.len() - k,
    {
        let segment = &segments[k];
        let ghost prev = heap@;
        proof {
            assert(segments@.take(k + 1).drop_last() =~= segments@.take(k as int));
            assert(segments@.take(k + 1).last() == segments@[k as int]);
            lemma_apply_segments_len(zeroes, idx, segments@.take(k as int));
        }
        // Skip segments for other heaps
        if segment.heap_index == idx {
            // Copy data
            assert(segments@[k as int].heap_index == idx);
            let start = segment.offset as usize;
            let ghost before = heap@;
            let n = heap.len();
            let mut j: usize = 0;
            while j < segment.data.len()
                invariant
                    j <= segment.data@.len(),
                    n == before.len(),
                    start == segment.offset,
                    start + segment.data@.len() <= before.len(),
                    heap@.len() == before.len(),
                    forall|p: int| 0 <= p < start ==> heap@[p] == before[p],
                    forall|p: int| start <= p < start + j ==> heap@[p] == segment.data@[p - start],
                    forall|p: int| start + j <= p < before.len() ==> heap@[p] == before[p],
                decreases segment.data@.len() - j,
            {
                heap.set(start + j, segment.data[j]);
                j = j + 1;
            }
            assert(heap@ =~= before.take(start as int) + segment.data@ + before.skip(start + segment.data@.len()));
            assert(heap@ == apply_segments(zeroes, idx, segments@.take(k + 1)));
        } else {
            assert(heap@ == apply_segments(zeroes, idx, segments@.take(k + 1)));
        }
        k = k + 1;
    }
    assert(segments@.take(segments@.len() as int) =~= segments@);
    Ok(())
}

// —————————————————————————————— Relocation ———————————————————————————————— //

/// The number of relocations of `relocs` before the first one that does not refer to a
/// function.
pub open spec fn nb_func_relocs(relocs: Seq<Reloc>) -> nat
    decreases relocs.len(),
{
    if relocs.len() == 0 {
        0
    } else if relocs[0].item is Func {
        1 + nb_func_relocs(relocs.drop_first())
    } else {
        0
    }
}

/// The address of the function a relocation refers to.
pub open spec fn reloc_base(reloc: Reloc, func_addrs: Seq<u64>) -> u64 {
    func_addrs[reloc.item->Func_0.pos() as int]
}

/// The value of a relocation: the address of its function plus its addend (modulo 2^64).
pub open spec fn reloc_value(reloc: Reloc, func_addrs: Seq<u64>) -> i64 {
    vstd::wrapping::i64_specs::wrapping_add(reloc_base(reloc, func_addrs) as i64, reloc.addend)
}

/// The address at which a relocation is written.
pub open spec fn reloc_pc(reloc: Reloc, code_addr: u64) -> i64 {
    vstd::wrapping::u64_specs::wrapping_add(code_addr, reloc.offset as u64) as i64
}

/// A relocation can be applied: it is of a supported kind, refers to a known function and
/// lies within the code.
pub open spec fn reloc_applicable(reloc: Reloc, code_len: nat, nb_funcs: nat) -> bool {
    &&& reloc.item is Func
    &&& reloc.item->Func_0.pos() < nb_funcs
    &&& match reloc.kind {
        RelocKind::Abs8 => reloc.offset + 8 <= code_len,
        RelocKind::X86CallPCRel4 => reloc.offset + 4 <= code_len,
        _ => false,
    }
}

/// The little-endian bytes of a 64 bits value.
pub open spec fn le_bytes8(v: u64) -> Seq<u8> {
    seq![v as u8, (v >> 8) as u8, (v >> 16) as u8, (v >> 24) as u8,
         (v >> 32) as u8, (v >> 40) as u8, (v >> 48) as u8, (v >> 56) as u8]
}

/// The little-endian bytes of a 32 bits value.
pub open spec fn le_bytes4(v: u32) -> Seq<u8> {
    seq![v as u8, (v >> 8) as u8, (v >> 16) as u8, (v >> 24) as u8]
}

/// `code` with `bytes` written at `offset`.
pub open spec fn write_bytes(code: Seq<u8>, offset: int, bytes: Seq<u8>) -> Seq<u8> {
    code.take(offset) + bytes + code.skip(offset + bytes.len())
}

/// `code` after applying one relocation.
pub open spec fn apply_reloc(code: Seq<u8>, code_addr: u64, reloc: Reloc, func_addrs: Seq<u64>) -> Seq<u8> {
    let value = reloc_value(reloc, func_addrs);
    match reloc.kind {
        RelocKind::Abs8 => write_bytes(code, reloc.offset as int, le_bytes8(value as u64)),
        RelocKind::X86CallPCRel4 => write_bytes(
            code,
            reloc.offset as int,
            le_bytes4(vstd::wrapping::i64_specs::wrapping_sub(value, reloc_pc(reloc, code_addr)) as i32 as u32),
        ),
        _ => code,
    }
}

/// `code` after applying, in order, the relocations of `relocs`.
pub open spec fn apply_relocs(code: Seq<u8>, code_addr: u64, relocs: Seq<Reloc>, func_addrs: Seq<u64>) -> Seq<u8>
    decreases relocs.len(),
{
    if relocs.len() == 0 {
        code
    } else {
        apply_relocs(apply_reloc(code, code_addr, relocs[0], func_addrs), code_addr, relocs.drop_first(), func_addrs)
    }
}

proof fn lemma_pc_relative(base: u64, addend: i64, code_addr: u64, offset: u32)
    by (bit_vector)
    ensures
        ((vstd::wrapping::i64_specs::wrapping_sub(
            vstd::wrapping::i64_specs::wrapping_add(base as i64, addend),
            vstd::wrapping::u64_specs::wrapping_add(code_addr, offset as u64) as i64,
        ) as i32 as u32) as int + code_addr as int + offset as int) % 0x1_0000_0000
            == (base as int + addend as int) % 0x1_0000_0000,
{
}

proof fn lemma_le_bytes4_value(v: u32)
    by (bit_vector)
    ensures
        (v as u8) as int + 256 * ((v >> 8) as u8) as int + 65536 * ((v >> 16) as u8) as int
            + 16777216 * ((v >> 24) as u8) as int == v as int,
{
}

proof fn lemma_abs_value(base: u64, addend: i64)
    by (bit_vector)
    ensures
        (vstd::wrapping::i64_specs::wrapping_add(base as i64, addend) as u64) as int
            == (base as int + addend as int) % 0x1_0000_0000_0000_0000,
{
}

proof fn lemma_le_bytes8_value(v: u64)
    by (bit_vector)
    ensures
        (v as u8) as int + 0x100 * ((v >> 8) as u8) as int + 0x1_0000 * ((v >> 16) as u8) as int
            + 0x100_0000 * ((v >> 24) as u8) as int + 0x1_0000_0000 * ((v >> 32) as u8) as int
            + 0x100_0000_0000 * ((v >> 40) as u8) as int + 0x1_0000_0000_0000 * ((v >> 48) as u8) as int
            + 0x100_0000_0000_0000 * ((v >> 56) as u8) as int == v as int,
{
}

/// The number that eight bytes stand for, read little-endian.
pub open spec fn le_value8(b: Seq<u8>) -> int {
    b[0] + 0x100 * b[1] + 0x1_0000 * b[2] + 0x100_0000 * b[3] + 0x1_0000_0000 * b[4]
        + 0x100_0000_0000 * b[5] + 0x1_0000_0000_0000 * b[6] + 0x100_0000_0000_0000 * b[7]
}

/// An absolute relocation writes the address of its function plus the addend: once applied, the
/// eight bytes at its offset, read as a little-endian number, are that address (modulo 2^64). The
/// other bytes of the code are left as they were.
pub proof fn lemma_abs_reloc_holds_target(code: Seq<u8>, code_addr: u64, reloc: Reloc, func_addrs: Seq<u64>)
    requires
        reloc.kind is Abs8,
        reloc_applicable(reloc, code.len(), func_addrs.len()),
    ensures ({
        let out = apply_relocs(code, code_addr, seq![reloc], func_addrs);
        let at = reloc.offset as int;
        let target = func_addrs[reloc.item->Func_0.pos() as int] + reloc.addend;
        &&& out.len() == code.len()
        &&& le_value8(out.subrange(at, at + 8)) == target % 0x1_0000_0000_0000_0000
        &&& forall|k: int| 0 <= k < code.len() && !(at <= k < at + 8) ==> #[trigger] out[k] == code[k]
    }),
{
    let relocs = seq![reloc];
    let out = apply_relocs(code, code_addr, relocs, func_addrs);
    let once = apply_reloc(code, code_addr, reloc, func_addrs);
    assert(relocs.drop_first() =~= Seq::<Reloc>::empty());
    assert(apply_relocs(once, code_addr, relocs.drop_first(), func_addrs) == once);
    assert(out == once);
    let at = reloc.offset as int;
    let base = func_addrs[reloc.item->Func_0.pos() as int];
    let v = reloc_value(reloc, func_addrs) as u64;
    assert(once == write_bytes(code, at, le_bytes8(v)));
    assert(out.subrange(at, at + 8) =~= le_bytes8(v));
    lemma_le_bytes8_value(v);
    lemma_abs_value(base, reloc.addend);
    assert forall|k: int| 0 <= k < code.len() && !(at <= k < at + 8) implies #[trigger] out[k] == code[k] by {
        if k < at {
            assert(out[k] == code.take(at)[k]);
        } else {
            assert(out[k] == code.skip(at + 8)[k - at - 8]);
        }
    }
}

/// The number that four bytes stand for, read little-endian.
pub open spec fn le_value4(b0: u8, b1: u8, b2: u8, b3: u8) -> int {
    b0 + 256 * b1 + 65536 * b2 + 16777216 * b3
}

/// A call relocation makes the call land on its function: once applied, the four bytes at its
/// offset, read as a little-endian number and added to the address they lie at, give the address
/// of the function plus the addend (modulo 2^32, the width of the displacement). The other bytes
/// of the code are left as they were.
pub proof fn lemma_call_reloc_lands_on_target(code: Seq<u8>, code_addr: u64, reloc: Reloc, func_addrs: Seq<u64>)
    requires
        reloc.kind is X86CallPCRel4,
        reloc_applicable(reloc, code.len(), func_addrs.len()),
    ensures ({
        let out = apply_relocs(code, code_addr, seq![reloc], func_addrs);
        let at = reloc.offset as int;
        let target = func_addrs[reloc.item->Func_0.pos() as int] + reloc.addend;
        &&& out.len() == code.len()
        &&& (le_value4(out[at], out[at + 1], out[at + 2], out[at + 3]) + code_addr + at) % 0x1_0000_0000
            == target % 0x1_0000_0000
        &&& forall|k: int| 0 <= k < code.len() && !(at <= k < at + 4) ==> #[trigger] out[k] == code[k]
    }),
{
    let relocs = seq![reloc];
    let out = apply_relocs(code, code_addr, relocs, func_addrs);
    let once = apply_reloc(code, code_addr, reloc, func_addrs);
    assert(relocs.drop_first() =~= Seq::<Reloc>::empty());
    assert(apply_relocs(once, code_addr, relocs.drop_first(), func_addrs) == once);
    assert(out == once);
    let at = reloc.offset as int;
    let base = func_addrs[reloc.item->Func_0.pos() as int];
    let v = vstd::wrapping::i64_specs::wrapping_sub(reloc_value(reloc, func_addrs), reloc_pc(reloc, code_addr)) as i32 as u32;
    assert(once == write_bytes(code, at, le_bytes4(v)));
    assert(out[at] == v as u8);
    assert(out[at + 1] == (v >> 8) as u8);
    assert(out[at + 2] == (v >> 16) as u8);
    assert(out[at + 3] == (v >> 24) as u8);
    lemma_le_bytes4_value(v);
    lemma_pc_relative(base, reloc.addend, code_addr, reloc.offset);
    assert forall|k: int| 0 <= k < code.len() && !(at <= k < at + 4) implies #[trigger] out[k] == code[k] by {
        if k < at {
            assert(out[k] == code.take(at)[k]);
        } else {
            assert(out[k] == code.skip(at + 4)[k - at - 4]);
        }
    }
}

/// Writes the little-endian bytes of `bytes` at `offset`.
fn write_at(code: &mut Vec<u8>, offset: usize, bytes: &[u8])
    requires
        offset + bytes@.len() <= old(code)@.len(),
    ensures
        final(code)@ == write_bytes(old(code)@, offset as int, bytes@),
{
    let ghost before = code@;
    let n = code.len();
    let mut j: usize = 0;
    while j < bytes.len()
        invariant
            j <= bytes@.len(),
            n == before.len(),
            offset + bytes@.len() <= before.len(),
            code@.len() == before.len(),
            forall|p: int| 0 <= p < offset ==> code@[p] == before[p],
            forall|p: int| offset <= p < offset + j ==> code@[p] == bytes@[p - offset],
            forall|p: int| offset + j <= p < before.len() ==> code@[p] == before[p],
        decreases bytes@.len() - j,
    {
        code.set(offset + j, bytes[j]);
        j = j + 1;
    }
    assert(code@ =~= write_bytes(before, offset as int, bytes@));
}

proof fn lemma_apply_relocs_len(code: Seq<u8>, code_addr: u64, relocs: Seq<Reloc>, func_addrs: Seq<u64>)
    requires
        forall|i: int| 0 <= i < relocs.len() ==> reloc_applicable(#[trigger] relocs[i], code.len(), func_addrs.len()),
    ensures
        apply_relocs(code, code_addr, relocs, func_addrs).len() == code.len(),
    decreases relocs.len(),
{
    if relocs.len() > 0 {
        let c2 = apply_reloc(code, code_addr, relocs[0], func_addrs);
        assert(reloc_applicable(relocs[0], code.len(), func_addrs.len()));
        assert(c2.len() == code.len());
        assert forall|i: int| 0 <= i < relocs.drop_first().len() implies
            reloc_applicable(#[trigger] relocs.drop_first()[i], c2.len(), func_addrs.len()) by {
            assert(relocs.drop_first()[i] == relocs[i + 1]);
        }
        lemma_apply_relocs_len(c2, code_addr, relocs.drop_first(), func_addrs);
    }
}

/// Relocates `code`, which lies at address `code_addr`: each relocation writes the address of
/// the function it refers to (plus its addend), either as an absolute 64 bits value or relative
/// to the place it is written at, computed modulo 2^64. `func_addrs` holds the address of each
/// function.
///
/// Only relocations to functions are supported: the first one that refers to another item
/// fails the relocation.
pub fn relocate(code: &mut Vec<u8>, code_addr: u64, relocs: &[Reloc], func_addrs: &[u64]) -> (r: Result<(), ModuleError>)
    requires
        forall|i: int| 0 <= i < nb_func_relocs(relocs@) ==>
            reloc_applicable(#[trigger] relocs@[i], old(code)@.len(), func_addrs@.len()),
    ensures
        r is Ok <==> nb_func_relocs(relocs@) == relocs@.len(),
        r is Err ==> r == Err::<(), ModuleError>(ModuleError::FailedToInstantiate),
        r is Ok ==> final(code)@ == apply_relocs(old(code)@, code_addr, relocs@, func_addrs@),
{
    let ghost orig = code@;
    assert(relocs@.skip(0) =~= relocs@);
    let mut i: usize = 0;
    while i < relocs.len()
        invariant
            i <= relocs@.len(),
            i <= nb_func_relocs(relocs@),
            code@.len() == orig.len(),
            forall|j: int| 0 <= j < nb_func_relocs(relocs@) ==>
                reloc_applicable(#[trigger] relocs@[j], orig.len(), func_addrs@.len()),
            apply_relocs(orig, code_addr, relocs@, func_addrs@)
                == apply_relocs(code@, code_addr, relocs@.skip(i as int), func_addrs@),
            nb_func_relocs(relocs@) == i + nb_func_relocs(relocs@.skip(i as int)),
        decreases relocs@.len() - i,
    {
        let reloc = relocs[i];
        proof {
            assert(relocs@.skip(i as int)[0] == reloc);
            assert(relocs@.skip(i as int).drop_first() =~= relocs@.skip(i + 1));
        }
        let func = match reloc.item {
            ItemRef::Func(func) => func,
            // Only functions are supported by relocations
            _ => {
                return Err(ModuleError::FailedToInstantiate);
            },
        };
        proof {
            assert(reloc_applicable(relocs@[i as int], orig.len(), func_addrs@.len()));
        }
        let base = func_addrs[func.index()] as i64;
        let value = base.wrapping_add(reloc.addend);
        let offset = reloc.offset as usize;
        match reloc.kind {
            RelocKind::Abs8 => {
                let v = value as u64;
                let bytes = [v as u8, (v >> 8) as u8, (v >> 16) as u8, (v >> 24) as u8,
                    (v >> 32) as u8, (v >> 40) as u8, (v >> 48) as u8, (v >> 56) as u8];
                assert(bytes@ =~= le_bytes8(v));
                write_at(code, offset, &bytes);
            },
            RelocKind::X86CallPCRel4 => {
                let pc = code_addr.wrapping_add(reloc.offset as u64) as i64;
                let pc_relative = value.wrapping_sub(pc) as i32;
                let v = pc_relative as u32;
                let bytes = [v as u8, (v >> 8) as u8, (v >> 16) as u8, (v >> 24) as u8];
                assert(bytes@ =~= le_bytes4(v));
                write_at(code, offset, &bytes);
            },
            _ => {
                proof {
                    assert(false);
                }
            },
        }
        i = i + 1;
    }
    proof {
        assert(relocs@.skip(i as int) =~= Seq::<Reloc>::empty());
    }
    Ok(())
}

// ———————————————————————————————— Runtime ————————————————————————————————— //

/// A table of `len` entries has the size asked for: its minimum, or its maximum where there is
/// one.
pub open spec fn table_sized(len: nat, min_size: u32, max_size: Option<u32>) -> bool {
    len == min_size || (max_size matches Some(m) && len == m)
}

/// A WebAssembly runtime: it allocates the memory areas of the instances.
///
/// The runtime must not modify a code area once its code has been written, and must hand
/// the instance heaps holding exactly the initial content it is given.
pub trait Runtime {
    type MemoryArea: MemoryArea;
    type Context;

    /// The bytes that an area was given: the initial content of a heap, or the code written
    /// into a code area.
    spec fn received(&self, area: Self::MemoryArea) -> Vec<u8>;

    /// The kind of heap that an area was requested as.
    spec fn heap_kind(&self, area: Self::MemoryArea) -> HeapKind;

    /// Creates a new context. The same context is passed to all methods during the
    /// instantiation of a module.
    fn create_context(&self) -> Self::Context;

    /// Allocates a heap holding `initial`.
    fn alloc_heap(&self, initial: Vec<u8>, kind: HeapKind, ctx: &mut Self::Context) -> (r: Result<Self::MemoryArea, ModuleError>)
        ensures
            r matches Ok(area) ==> self.received(area)@ == initial@ && self.heap_kind(area) == kind && area.size() == initial@.len(),
    ;

    /// Allocates a table.
    fn alloc_table(&self, min_size: u32, max_size: Option<u32>, ty: RefType, ctx: &mut Self::Context) -> (r: Result<Vec<u64>, ModuleError>)
        ensures
            r matches Ok(v) ==> table_sized(v@.len(), min_size, max_size),
    ;

    /// Allocates a code area of `size` bytes, whose address the instance then knows.
    fn alloc_code(&self, size: usize, ctx: &mut Self::Context) -> (r: Result<Self::MemoryArea, ModuleError>)
        ensures
            r matches Ok(area) ==> area.size() == size,
    ;

    /// Writes the relocated code into an area given by `alloc_code`, and returns the number of
    /// bytes written.
    fn write_code(&self, area: &Self::MemoryArea, code: Vec<u8>, ctx: &mut Self::Context) -> (r: Result<usize, ModuleError>)
        ensures
            r == Ok::<usize, ModuleError>(code@.len() as usize) ==> self.received(*area)@ == code@,
    ;
}

// ——————————————————————————————— Instance ————————————————————————————————— //

/// A heap of an instance.
pub enum Heap<Area> {
    Owned { memory: Area },
    Imported { from: ImportIndex, index: HeapIndex },
}

/// A table of an instance.
pub enum Table {
    Owned(Vec<u64>),
    Imported { from: ImportIndex, index: TableIndex },
}

/// A function of an instance.
#[derive(Clone, Copy, PartialEq, Eq, Structural)]
pub enum Func {
    Owned { offset: u32 },
    Imported { from: ImportIndex, index: FuncIndex },
    Native { ptr: RawFuncPtr },
}

/// A global of an instance.
#[derive(Clone, Copy, PartialEq, Eq, Structural)]
pub enum Glob {
    Owned { init: GlobInit },
    Imported { from: ImportIndex, index: GlobIndex },
}

/// An instance of a module.
pub struct Instance<Area> {
    /// A map of all exported symbols.
    items: NameMap<ItemRef>,
    /// The VM Context, contains pointers to various structures, such as heaps and tables.
    vmctx: VMContext,
    /// The heaps of the instance.
    heaps: FrozenMap<HeapIndex, Heap<Area>>,
    /// The tables of the instance.
    tables: FrozenMap<TableIndex, Table>,
    /// The functions of the instance.
    funcs: FrozenMap<FuncIndex, Func>,
    /// The global variables of the instance.
    globs: FrozenMap<GlobIndex, Glob>,
    /// The imported instances.
    imports: Vec<Instance<Area>>,
    /// The memory region containing the code.
    code: Area,
}

/// The item that a module of `imports` exports under `name`, if any.
pub open spec fn export_of<Area>(imports: Seq<Instance<Area>>, module: ImportIndex, name: Seq<char>) -> Option<ItemRef> {
    let m = imports[module.pos() as int].exports();
    if m.contains_key(name) {
        Some(m[name])
    } else {
        None
    }
}

/// What a function of a module is in an instance whose imported instances are `imports`.
pub open spec fn resolve_func<Area>(info: FuncInfo, imports: Seq<Instance<Area>>) -> Option<Func> {
    match info {
        FuncInfo::Owned { offset } => Some(Func::Owned { offset }),
        FuncInfo::Native { ptr, .. } => Some(Func::Native { ptr }),
        FuncInfo::Imported { module, name } => match export_of(imports, module, name@) {
            Some(ItemRef::Func(index)) => Some(Func::Imported { from: module, index }),
            _ => None,
        },
    }
}

/// What a global of a module is in an instance whose imported instances are `imports`.
pub open spec fn resolve_glob<Area>(info: GlobInfo, imports: Seq<Instance<Area>>) -> Option<Glob> {
    match info {
        GlobInfo::Owned { init } => Some(Glob::Owned { init }),
        GlobInfo::Imported { module, name } => match export_of(imports, module, name@) {
            Some(ItemRef::Glob(index)) => Some(Glob::Imported { from: module, index }),
            _ => None,
        },
    }
}

/// Whether an imported heap of a module can be found among `imports`.
pub open spec fn heap_resolves<Area>(info: HeapInfo, imports: Seq<Instance<Area>>) -> bool {
    match info {
        HeapInfo::Owned { .. } => true,
        HeapInfo::Imported { module, name } => export_of(imports, module, name@) matches Some(ItemRef::Heap(_)),
    }
}

/// Whether an imported table of a module can be found among `imports`.
pub open spec fn table_resolves<Area>(info: TableInfo, imports: Seq<Instance<Area>>) -> bool {
    match info {
        TableInfo::Imported { module, name, .. } => export_of(imports, module, name@) matches Some(ItemRef::Table(_)),
        _ => true,
    }
}

/// The imported modules of a module are among its imports.
pub open spec fn imports_in_range(funcs: Seq<FuncInfo>, globs: Seq<GlobInfo>, heaps: Seq<HeapInfo>, tables: Seq<TableInfo>, nb_imports: nat) -> bool {
    &&& forall|i: int| 0 <= i < funcs.len() ==> ((#[trigger] funcs[i]) matches FuncInfo::Imported { module, .. } ==> module.pos() < nb_imports)
    &&& forall|i: int| 0 <= i < globs.len() ==> ((#[trigger] globs[i]) matches GlobInfo::Imported { module, .. } ==> module.pos() < nb_imports)
    &&& forall|i: int| 0 <= i < heaps.len() ==> ((#[trigger] heaps[i]) matches HeapInfo::Imported { module, .. } ==> module.pos() < nb_imports)
    &&& forall|i: int| 0 <= i < tables.len() ==> ((#[trigger] tables[i]) matches TableInfo::Imported { module, .. } ==> module.pos() < nb_imports)
}

/// The first position of `provided` that holds `name` and is not in `used`, if any.
pub open spec fn first_free(provided: Seq<Seq<char>>, name: Seq<char>, used: Seq<int>) -> Option<int> {
    first_free_from(provided, name, used, 0)
}

/// The first position of `provided`, from `j` on, that holds `name` and is not in `used`.
pub open spec fn first_free_from(provided: Seq<Seq<char>>, name: Seq<char>, used: Seq<int>, j: int) -> Option<int>
    decreases provided.len() - j,
{
    if j < 0 || j >= provided.len() {
        None
    } else if is_free(provided, name, used, j) {
        Some(j)
    } else {
        first_free_from(provided, name, used, j + 1)
    }
}

/// Position `j` of `provided` holds `name` and is not in `used`.
pub open spec fn is_free(provided: Seq<Seq<char>>, name: Seq<char>, used: Seq<int>, j: int) -> bool {
    0 <= j < provided.len() && provided[j] == name && !used.contains(j)
}

/// For each of `wanted`, in order, the first position of `provided` that holds the same name
/// and was not picked before, if every one of `wanted` finds one.
pub open spec fn pick_imports(wanted: Seq<Seq<char>>, provided: Seq<Seq<char>>) -> Option<Seq<int>>
    decreases wanted.len(),
{
    if wanted.len() == 0 {
        Some(Seq::empty())
    } else {
        match pick_imports(wanted.drop_last(), provided) {
            None => None,
            Some(ps) => match first_free(provided, wanted.last(), ps) {
                None => None,
                Some(j) => Some(ps.push(j)),
            },
        }
    }
}

/// The names of a sequence of strings.
pub open spec fn string_views(s: Seq<String>) -> Seq<Seq<char>> {
    s.map_values(|x: String| x@)
}

impl<Area> Instance<Area> {
    /// The items that the instance exports, by name.
    pub closed spec fn exports(self) -> Map<Seq<char>, ItemRef> {
        self.items@
    }

    /// The functions of the instance.
    pub closed spec fn func_list(self) -> Seq<Func> {
        self.funcs@
    }

    /// The globals of the instance.
    pub closed spec fn glob_list(self) -> Seq<Glob> {
        self.globs@
    }

    /// The heaps of the instance.
    pub closed spec fn heap_list(self) -> Seq<Heap<Area>> {
        self.heaps@
    }

    /// The tables of the instance.
    pub closed spec fn table_list(self) -> Seq<Table> {
        self.tables@
    }

    /// The imported instances.
    pub closed spec fn import_list(self) -> Seq<Instance<Area>> {
        self.imports@
    }

    /// The code area of the instance.
    pub closed spec fn code_area(self) -> Area {
        self.code
    }

    /// Every reference held by the instance leads to an item.
    #[verifier::type_invariant]
    closed spec fn refs_valid(self) -> bool {
        &&& forall|k: Seq<char>| #[trigger] self.items@.contains_key(k) ==> match self.items@[k] {
            ItemRef::Func(f) => f.pos() < self.funcs@.len(),
            ItemRef::Heap(h) => h.pos() < self.heaps@.len(),
            ItemRef::Table(t) => t.pos() < self.tables@.len(),
            ItemRef::Glob(g) => g.pos() < self.globs@.len(),
            ItemRef::Import(i) => i.pos() < self.imports@.len(),
        }
        &&& forall|i: int| 0 <= i < self.funcs@.len() ==> ((#[trigger] self.funcs@[i]) matches Func::Imported { from, index }
            ==> from.pos() < self.imports@.len() && index.pos() < self.imports@[from.pos() as int].funcs@.len())
        &&& forall|i: int| 0 <= i < self.globs@.len() ==> ((#[trigger] self.globs@[i]) matches Glob::Imported { from, index }
            ==> from.pos() < self.imports@.len() && index.pos() < self.imports@[from.pos() as int].globs@.len())
        &&& forall|i: int| 0 <= i < self.heaps@.len() ==> ((#[trigger] self.heaps@[i]) matches Heap::Imported { from, index }
            ==> from.pos() < self.imports@.len() && index.pos() < self.imports@[from.pos() as int].heaps@.len())
        &&& forall|i: int| 0 <= i < self.tables@.len() ==> ((#[trigger] self.tables@[i]) matches Table::Imported { from, index }
            ==> from.pos() < self.imports@.len() && index.pos() < self.imports@[from.pos() as int].tables@.len())
        &&& self.vmctx.wf()
        &&& self.vmctx.globs_at() / 8 + self.globs@.len() <= self.vmctx.slot_values().len()
    }
}

// ———————————————————————————— Resolution ———————————————————————————————— //

/// The first position of `provided` holding `name` that is not `used`, if any.
fn find_free(provided: &Vec<String>, used: &Vec<bool>, name: &String, Ghost(ps): Ghost<Seq<int>>) -> (r: Option<usize>)
    requires
        provided@.len() == used@.len(),
        forall|k: int| 0 <= k < used@.len() ==> (used@[k] <==> ps.contains(k)),
    ensures
        first_free(string_views(provided@), name@, ps) == (match r { Some(j) => Some(j as int), None => None }),
{
    let ghost pnames = string_views(provided@);
    let mut j: usize = 0;
    while j < provided.len()
        invariant
            j <= provided@.len() == used@.len(),
            pnames == string_views(provided@),
            forall|k: int| 0 <= k < used@.len() ==> (used@[k] <==> ps.contains(k)),
            first_free(pnames, name@, ps) == first_free_from(pnames, name@, ps, j as int),
        decreases provided@.len() - j,
    {
        if !used[j] && provided[j] == *name {
            return Some(j);
        }
        j = j + 1;
    }
    None
}

/// Adding `j` to `ps` marks `j` as used and leaves the other positions as they were.
proof fn lemma_push_contains(ps: Seq<int>, j: int, k: int)
    ensures
        ps.push(j).contains(k) <==> (k == j || ps.contains(k)),
{
    if ps.push(j).contains(k) && k != j {
        let t = choose|t: int| 0 <= t < ps.push(j).len() && ps.push(j)[t] == k;
        assert(ps[t] == k);
    }
    if ps.contains(k) {
        let t = choose|t: int| 0 <= t < ps.len() && ps[t] == k;
        assert(ps.push(j)[t] == k);
    }
    if k == j {
        assert(ps.push(j)[ps.len() as int] == k);
    }
}

/// The position that `first_free_from` gives is free.
proof fn lemma_first_free_from(provided: Seq<Seq<char>>, name: Seq<char>, used: Seq<int>, j: int)
    ensures
        first_free_from(provided, name, used, j) matches Some(k) ==> is_free(provided, name, used, k),
    decreases provided.len() - j,
{
    if 0 <= j < provided.len() && !is_free(provided, name, used, j) {
        lemma_first_free_from(provided, name, used, j + 1);
    }
}

/// Once some prefix of `wanted` cannot be picked, neither can `wanted`.
proof fn lemma_pick_prefix(wanted: Seq<Seq<char>>, provided: Seq<Seq<char>>, n: int)
    requires
        0 <= n <= wanted.len(),
        pick_imports(wanted.take(n), provided) is None,
    ensures
        pick_imports(wanted, provided) is None,
    decreases wanted.len(),
{
    if n == wanted.len() {
        assert(wanted.take(n) =~= wanted);
    } else {
        assert(wanted.drop_last().take(n) =~= wanted.take(n));
        lemma_pick_prefix(wanted.drop_last(), provided, n);
    }
}

/// The positions picked are distinct positions of `provided`.
proof fn lemma_picks_distinct(wanted: Seq<Seq<char>>, provided: Seq<Seq<char>>)
    requires
        pick_imports(wanted, provided) is Some,
    ensures
        pick_imports(wanted, provided)->Some_0.len() == wanted.len(),
        pick_imports(wanted, provided)->Some_0.no_duplicates(),
        forall|t: int| 0 <= t < wanted.len() ==>
            0 <= #[trigger] pick_imports(wanted, provided)->Some_0[t] < provided.len(),
    decreases wanted.len(),
{
    if wanted.len() > 0 {
        lemma_picks_distinct(wanted.drop_last(), provided);
        let ps = pick_imports(wanted.drop_last(), provided)->Some_0;
        let j = first_free(provided, wanted.last(), ps)->Some_0;
        lemma_first_free_from(provided, wanted.last(), ps, 0);
        assert(is_free(provided, wanted.last(), ps, j));
        let qs = ps.push(j);
        assert forall|a: int, b: int| 0 <= a < qs.len() && 0 <= b < qs.len() && a != b implies qs[a] != qs[b] by {
            if a < ps.len() && b < ps.len() {
                assert(qs[a] == ps[a] && qs[b] == ps[b]);
            } else if a < ps.len() {
                assert(ps.contains(qs[a]));
            } else {
                assert(ps.contains(qs[b]));
            }
        }
        assert forall|t: int| 0 <= t < wanted.len() implies 0 <= #[trigger] qs[t] < provided.len() by {
            if t < ps.len() {
                assert(qs[t] == ps[t]);
            }
        }
    }
}

/// For each of `wanted`, the position of the first provided name that matches and is not
/// picked before.
fn pick_positions(wanted: &FrozenMap<ImportIndex, String>, provided: &Vec<String>) -> (r: Option<Vec<usize>>)
    ensures
        match pick_imports(string_views(wanted@), string_views(provided@)) {
            Some(ps) => r is Some && r->Some_0@.len() == ps.len()
                && forall|t: int| 0 <= t < ps.len() ==> r->Some_0@[t] == #[trigger] ps[t],
            None => r is None,
        },
{
    let ghost names = string_views(wanted@);
    let ghost pnames = string_views(provided@);
    let mut used: Vec<bool> = Vec::new();
    let mut k: usize = 0;
    while k < provided.len()
        invariant
            k <= provided@.len(),
            used@.len() == k,
            forall|m: int| 0 <= m < k ==> !used@[m],
        decreases provided@.len() - k,
    {
        used.push(false);
        k = k + 1;
    }
    let mut picks: Vec<usize> = Vec::new();
    let ghost mut ps: Seq<int> = Seq::empty();
    let mut i: usize = 0;
    assert(names.take(0) =~= Seq::<Seq<char>>::empty());
    while i < wanted.len()
        invariant
            i <= names.len() == wanted@.len(),
            names == string_views(wanted@),
            pnames == string_views(provided@),
            used@.len() == provided@.len(),
            forall|m: int| 0 <= m < used@.len() ==> (used@[m] <==> ps.contains(m)),
            picks@.len() == ps.len(),
            forall|t: int| 0 <= t < ps.len() ==> picks@[t] == #[trigger] ps[t],
            pick_imports(names.take(i as int), pnames) == Some(ps),
        decreases names.len() - i,
    {
        let name = wanted.at(i);
        let found = find_free(provided, &used, name, Ghost(ps));
        proof {
            assert(names.take(i + 1).drop_last() =~= names.take(i as int));
            assert(names.take(i + 1).last() == names[i as int]);
        }
        let j = match found {
            Some(j) => j,
            None => {
                proof {
                    lemma_pick_prefix(names, pnames, i + 1);
                }
                return None;
            },
        };
        proof {
            lemma_first_free_from(pnames, name@, ps, 0);
        }
        let ghost old_used = used@;
        used.set(j, true);
        picks.push(j);
        proof {
            assert forall|m: int| 0 <= m < used@.len() implies (used@[m] <==> ps.push(j as int).contains(m)) by {
                lemma_push_contains(ps, j as int, m);
                if m != j {
                    assert(used@[m] == old_used[m]);
                }
            }
            ps = ps.push(j as int);
        }
        i = i + 1;
    }
    assert(names.take(names.len() as int) =~= names);
    Some(picks)
}

/// Takes, for each module that `wanted` names, the first instance of `import_from` provided
/// under that name that is not taken yet.
fn take_imports<Area>(wanted: &FrozenMap<ImportIndex, String>, import_from: Vec<(String, Instance<Area>)>) -> (r: Result<Vec<Instance<Area>>, ModuleError>)
    ensures
        match pick_imports(string_views(wanted@), import_from@.map_values(|p: (String, Instance<Area>)| p.0@)) {
            Some(ps) => r is Ok && r->Ok_0@.len() == ps.len()
                && forall|t: int| 0 <= t < ps.len() ==> r->Ok_0@[t] == (#[trigger] import_from@[ps[t]]).1,
            None => r == Err::<Vec<Instance<Area>>, ModuleError>(ModuleError::FailedToInstantiate),
        },
{
    let ghost orig = import_from@;
    // Split the names from the instances.
    let mut names: Vec<String> = Vec::new();
    let mut slots: Vec<Option<Instance<Area>>> = Vec::new();
    let mut rest = import_from;
    while rest.len() > 0
        invariant
            slots@.len() + rest@.len() == orig.len(),
            names@.len() == slots@.len(),
            forall|k: int| 0 <= k < slots@.len() ==> #[trigger] slots@[k] == Some(orig[k].1),
            forall|k: int| 0 <= k < names@.len() ==> #[trigger] names@[k] == orig[k].0,
            forall|k: int| 0 <= k < rest@.len() ==> rest@[k] == orig[slots@.len() + k],
        decreases rest@.len(),
    {
        let ghost n = slots@.len();
        let ghost old_rest = rest@;
        let pair = rest.remove(0);
        assert(pair == orig[n as int]);
        let ghost old_slots = slots@;
        let ghost old_names = names@;
        names.push(pair.0);
        slots.push(Some(pair.1));
        assert forall|k: int| 0 <= k < slots@.len() implies #[trigger] slots@[k] == Some(orig[k].1) by {
            if k < n {
                assert(slots@[k] == old_slots[k]);
            }
        }
        assert forall|k: int| 0 <= k < names@.len() implies #[trigger] names@[k] == orig[k].0 by {
            if k < n {
                assert(names@[k] == old_names[k]);
            }
        }
        assert forall|k: int| 0 <= k < rest@.len() implies rest@[k] == orig[slots@.len() + k] by {
            assert(rest@[k] == old_rest[k + 1]);
        }
    }
    assert(string_views(names@) =~= orig.map_values(|p: (String, Instance<Area>)| p.0@));
    let picks = match pick_positions(wanted, &names) {
        Some(picks) => picks,
        None => {
            return Err(ModuleError::FailedToInstantiate);
        },
    };
    let ghost ps = pick_imports(string_views(wanted@), string_views(names@))->Some_0;
    proof {
        lemma_picks_distinct(string_views(wanted@), string_views(names@));
    }
    let mut taken: Vec<Instance<Area>> = Vec::new();
    let mut t: usize = 0;
    while t < picks.len()
        invariant
            t <= picks@.len() == ps.len(),
            slots@.len() == orig.len(),
            ps.no_duplicates(),
            forall|u: int| 0 <= u < ps.len() ==> picks@[u] == #[trigger] ps[u] && 0 <= ps[u] < orig.len(),
            forall|k: int| 0 <= k < slots@.len() ==> (slots@[k] is None <==> exists|u: int| 0 <= u < t && ps[u] == k),
            forall|k: int| 0 <= k < slots@.len() && slots@[k] is Some ==> slots@[k] == Some(orig[k].1),
            taken@.len() == t,
            forall|u: int| 0 <= u < t ==> taken@[u] == (#[trigger] orig[ps[u]]).1,
        decreases ps.len() - t,
    {
        let p = picks[t];
        assert(picks@[t as int] == ps[t as int]);
        assert(p < slots@.len());
        assert(slots@[p as int] is Some) by {
            if slots@[p as int] is None {
                let u = choose|u: int| 0 <= u < t && ps[u] == p;
                assert(ps[u] == ps[t as int]);
            }
        }
        let ghost before = slots@;
        let slot = slots.remove(p);
        slots.insert(p, None);
        let instance = match slot {
            Some(instance) => instance,
            None => {
                proof {
                    assert(false);
                }
                return Err(ModuleError::FailedToInstantiate);
            },
        };
        taken.push(instance);
        proof {
            assert forall|k: int| 0 <= k < slots@.len() implies (slots@[k] is None <==> exists|u: int| 0 <= u < t + 1 && ps[u] == k) by {
                if k == p {
                    assert(ps[t as int] == k);
                } else {
                    assert(slots@[k] == before[k]);
                    if exists|u: int| 0 <= u < t + 1 && ps[u] == k {
                        let u = choose|u: int| 0 <= u < t + 1 && ps[u] == k;
                        assert(u != t);
                    }
                }
            }
        }
        t = t + 1;
    }
    Ok(taken)
}

/// Resolves the functions of a module against its imported instances.
fn resolve_funcs<Area>(infos: &FrozenMap<FuncIndex, FuncInfo>, imports: &Vec<Instance<Area>>) -> (r: Result<FrozenMap<FuncIndex, Func>, ModuleError>)
    requires
        forall|i: int| 0 <= i < infos@.len() ==> ((#[trigger] infos@[i]) matches FuncInfo::Imported { module, .. } ==> module.pos() < imports@.len()),
    ensures
        r is Ok <==> forall|i: int| 0 <= i < infos@.len() ==> resolve_func(#[trigger] infos@[i], imports@) is Some,
        r is Err ==> r == Err::<FrozenMap<FuncIndex, Func>, ModuleError>(ModuleError::FailedToInstantiate),
        r matches Ok(m) ==> m@.len() == infos@.len() && forall|i: int| 0 <= i < infos@.len()
            ==> Some(#[trigger] m@[i]) == resolve_func(infos@[i], imports@),
{
    let infos_v = infos.values();
    let mut funcs: Vec<Func> = Vec::new();
    let mut i: usize = 0;
    while i < infos_v.len()
        invariant
            i <= infos_v@.len(),
            infos_v@ == infos@,
            forall|j: int| 0 <= j < infos@.len() ==> ((#[trigger] infos@[j]) matches FuncInfo::Imported { module, .. } ==> module.pos() < imports@.len()),
            funcs@.len() == i,
            forall|j: int| 0 <= j < i ==> Some(#[trigger] funcs@[j]) == resolve_func(infos@[j], imports@),
        decreases infos_v@.len() - i,
    {
        let func = match &infos_v[i] {
            FuncInfo::Owned { offset } => Func::Owned { offset: *offset },
            FuncInfo::Native { ptr, .. } => Func::Native { ptr: *ptr },
            FuncInfo::Imported { module, name } => {
                // Look for the corresponding module
                let instance = &imports[module.index()];
                match instance.items.get(name.as_str()) {
                    Some(ItemRef::Func(index)) => Func::Imported { from: *module, index },
                    _ => {
                        assert(resolve_func(infos@[i as int], imports@) is None);
                        return Err(ModuleError::FailedToInstantiate);
                    },
                }
            },
        };
        funcs.push(func);
        i = i + 1;
    }
    assert forall|j: int| 0 <= j < infos@.len() implies resolve_func(#[trigger] infos@[j], imports@) is Some by {
        assert(Some(funcs@[j]) == resolve_func(infos@[j], imports@));
    }
    Ok(FrozenMap::freeze(funcs))
}

/// Resolves the globals of a module against its imported instances.
fn resolve_globs<Area>(infos: &FrozenMap<GlobIndex, GlobInfo>, imports: &Vec<Instance<Area>>) -> (r: Result<FrozenMap<GlobIndex, Glob>, ModuleError>)
    requires
        forall|i: int| 0 <= i < infos@.len() ==> ((#[trigger] infos@[i]) matches GlobInfo::Imported { module, .. } ==> module.pos() < imports@.len()),
    ensures
        r is Ok <==> forall|i: int| 0 <= i < infos@.len() ==> resolve_glob(#[trigger] infos@[i], imports@) is Some,
        r is Err ==> r == Err::<FrozenMap<GlobIndex, Glob>, ModuleError>(ModuleError::FailedToInstantiate),
        r matches Ok(m) ==> m@.len() == infos@.len() && forall|i: int| 0 <= i < infos@.len()
            ==> Some(#[trigger] m@[i]) == resolve_glob(infos@[i], imports@),
{
    let infos_v = infos.values();
    let mut globs: Vec<Glob> = Vec::new();
    let mut i: usize = 0;
    while i < infos_v.len()
        invariant
            i <= infos_v@.len(),
            infos_v@ == infos@,
            forall|j: int| 0 <= j < infos@.len() ==> ((#[trigger] infos@[j]) matches GlobInfo::Imported { module, .. } ==> module.pos() < imports@.len()),
            globs@.len() == i,
            forall|j: int| 0 <= j < i ==> Some(#[trigger] globs@[j]) == resolve_glob(infos@[j], imports@),
        decreases infos_v@.len() - i,
    {
        let glob = match &infos_v[i] {
            GlobInfo::Owned { init } => Glob::Owned { init: *init },
            GlobInfo::Imported { module, name } => {
                // Look for the corresponding module
                let instance = &imports[module.index()];
                match instance.items.get(name.as_str()) {
                    Some(ItemRef::Glob(index)) => Glob::Imported { from: *module, index },
                    _ => {
                        assert(resolve_glob(infos@[i as int], imports@) is None);
                        return Err(ModuleError::FailedToInstantiate);
                    },
                }
            },
        };
        globs.push(glob);
        i = i + 1;
    }
    assert forall|j: int| 0 <= j < infos@.len() implies resolve_glob(#[trigger] infos@[j], imports@) is Some by {
        assert(Some(globs@[j]) == resolve_glob(infos@[j], imports@));
    }
    Ok(FrozenMap::freeze(globs))
}

/// The size in bytes of an owned heap.
pub open spec fn heap_bytes(info: HeapInfo) -> int {
    match info {
        HeapInfo::Owned { min_size, .. } => min_size * PAGE_SIZE,
        _ => 0,
    }
}

/// The heaps of a module can be initialized: their size fits and their segments fit in them.
pub open spec fn heaps_initializable(infos: Seq<HeapInfo>, segments: Seq<DataSegment>) -> bool {
    &&& infos.len() < u32::MAX
    &&& forall|i: int| 0 <= i < infos.len() ==> ((#[trigger] infos[i]) is Owned ==> {
        &&& heap_bytes(infos[i]) <= usize::MAX
        &&& segments_fit(heap_bytes(infos[i]) as nat, HeapIndex::at_pos(i as nat), segments)
    })
}

/// The initial content of heap `i` of a module: zeroes, with the data segments of the heap
/// copied in.
pub open spec fn initial_heap(info: HeapInfo, i: int, segments: Seq<DataSegment>) -> Seq<u8> {
    apply_segments(Seq::new(heap_bytes(info) as nat, |k: int| 0u8), HeapIndex::at_pos(i as nat), segments)
}

/// Allocates the owned heaps of a module, initialized with its data segments, and resolves
/// its imported heaps.
fn alloc_heaps<R: Runtime>(
    runtime: &R,
    ctx: &mut R::Context,
    infos: &FrozenMap<HeapIndex, HeapInfo>,
    segments: &[DataSegment],
    imports: &Vec<Instance<R::MemoryArea>>,
) -> (r: Result<FrozenMap<HeapIndex, Heap<R::MemoryArea>>, ModuleError>)
    requires
        forall|i: int| 0 <= i < infos@.len() ==> ((#[trigger] infos@[i]) matches HeapInfo::Imported { module, .. } ==> module.pos() < imports@.len()),
        heaps_initializable(infos@, segments@),
    ensures
        !(forall|i: int| 0 <= i < infos@.len() ==> heap_resolves(#[trigger] infos@[i], imports@)) ==> r is Err,
        (forall|i: int| 0 <= i < infos@.len() ==> (#[trigger] infos@[i]) is Imported && heap_resolves(infos@[i], imports@))
            ==> r is Ok,
        r matches Ok(m) ==> m@.len() == infos@.len() && forall|i: int| 0 <= i < infos@.len() ==> {
            &&& (infos@[i] is Owned <==> (#[trigger] m@[i]) is Owned)
            &&& (m@[i] matches Heap::Owned { memory } ==> runtime.received(memory)@ == initial_heap(infos@[i], i, segments@)
                && runtime.heap_kind(memory) == infos@[i]->Owned_kind && memory.size() == heap_bytes(infos@[i]))
            &&& (infos@[i] matches HeapInfo::Imported { module, name } ==> m@[i] == Heap::<R::MemoryArea>::Imported {
                from: module,
                index: export_of(imports@, module, name@)->Some_0->Heap_0,
            })
        },
{
    let infos_v = infos.values();
    let ghost all_imported = forall|j: int| 0 <= j < infos@.len() ==> (#[trigger] infos@[j]) is Imported && heap_resolves(infos@[j], imports@);
    let mut heaps: Vec<Heap<R::MemoryArea>> = Vec::new();
    let mut i: usize = 0;
    while i < infos_v.len()
        invariant
            all_imported ==> forall|j: int| 0 <= j < infos@.len() ==> (#[trigger] infos@[j]) is Imported && heap_resolves(infos@[j], imports@),
            i <= infos_v@.len(),
            infos_v@ == infos@,
            forall|j: int| 0 <= j < infos@.len() ==> ((#[trigger] infos@[j]) matches HeapInfo::Imported { module, .. } ==> module.pos() < imports@.len()),
            heaps_initializable(infos@, segments@),
            heaps@.len() == i,
            forall|j: int| 0 <= j < i ==> heap_resolves(#[trigger] infos@[j], imports@),
            forall|j: int| 0 <= j < i ==> {
                &&& (infos@[j] is Owned <==> (#[trigger] heaps@[j]) is Owned)
                &&& (heaps@[j] matches Heap::Owned { memory } ==> runtime.received(memory)@ == initial_heap(infos@[j], j, segments@)
                    && runtime.heap_kind(memory) == infos@[j]->Owned_kind && memory.size() == heap_bytes(infos@[j]))
                &&& (infos@[j] matches HeapInfo::Imported { module, name } ==> heaps@[j] == Heap::<R::MemoryArea>::Imported {
                    from: module,
                    index: export_of(imports@, module, name@)->Some_0->Heap_0,
                })
            },
        decreases infos_v@.len() - i,
    {
        let heap = match &infos_v[i] {
            HeapInfo::Owned { min_size, kind } => {
                assert(infos@[i as int] is Owned);
                // Allocate and initialize the heap
                let size = (*min_size as usize) * PAGE_SIZE;
                let mut memory: Vec<u8> = Vec::with_capacity(size);
                let mut k: usize = 0;
                while k < size
                    invariant
                        k <= size,
                        memory@.len() == k,
                    decreases size - k,
                {
                    memory.push(0);
                    k = k + 1;
                }
                let hidx = HeapIndex::new(i);
                let ghost zeroes = Seq::new(memory@.len(), |k: int| 0u8);
                let _ = initialize_heap(&mut memory, hidx, segments);
                proof {
                    lemma_apply_segments_len(zeroes, hidx, segments@);
                }
                let ghost len = memory@.len();
                assert(len == heap_bytes(infos@[i as int]));
                let area = runtime.alloc_heap(memory, *kind, ctx)?;
                assert(area.size() == heap_bytes(infos@[i as int]));
                assert(runtime.heap_kind(area) == infos@[i as int]->Owned_kind);
                Heap::Owned { memory: area }
            },
            HeapInfo::Imported { module, name } => {
                // Look for the corresponding module
                let instance = &imports[module.index()];
                match instance.items.get(name.as_str()) {
                    Some(ItemRef::Heap(index)) => Heap::Imported { from: *module, index },
                    _ => {
                        assert(!heap_resolves(infos@[i as int], imports@));
                        return Err(ModuleError::FailedToInstantiate);
                    },
                }
            },
        };
        heaps.push(heap);
        i = i + 1;
    }
    Ok(FrozenMap::freeze(heaps))
}

/// Allocates the owned tables of a module, copies its native tables and resolves its imported
/// tables.
fn alloc_tables<R: Runtime>(
    runtime: &R,
    ctx: &mut R::Context,
    infos: &FrozenMap<TableIndex, TableInfo>,
    imports: &Vec<Instance<R::MemoryArea>>,
) -> (r: Result<FrozenMap<TableIndex, Table>, ModuleError>)
    requires
        forall|i: int| 0 <= i < infos@.len() ==> ((#[trigger] infos@[i]) matches TableInfo::Imported { module, .. } ==> module.pos() < imports@.len()),
    ensures
        !(forall|i: int| 0 <= i < infos@.len() ==> table_resolves(#[trigger] infos@[i], imports@)) ==> r is Err,
        (forall|i: int| 0 <= i < infos@.len() ==> !((#[trigger] infos@[i]) is Owned) && table_resolves(infos@[i], imports@))
            ==> r is Ok,
        r matches Ok(m) ==> m@.len() == infos@.len() && forall|i: int| 0 <= i < infos@.len() ==> {
            &&& (infos@[i] is Imported <==> (#[trigger] m@[i]) is Imported)
            &&& (infos@[i] matches TableInfo::Native { ptr, .. } ==> m@[i] matches Table::Owned(v) && v@ == ptr@)
            &&& (infos@[i] matches TableInfo::Owned { min_size, max_size, .. } ==> m@[i] matches Table::Owned(v)
                && table_sized(v@.len(), min_size, max_size))
            &&& (infos@[i] matches TableInfo::Imported { module, name, .. } ==> m@[i] == Table::Imported {
                from: module,
                index: export_of(imports@, module, name@)->Some_0->Table_0,
            })
        },
{
    let infos_v = infos.values();
    let ghost none_owned = forall|j: int| 0 <= j < infos@.len() ==> !((#[trigger] infos@[j]) is Owned) && table_resolves(infos@[j], imports@);
    let mut tables: Vec<Table> = Vec::new();
    let mut i: usize = 0;
    while i < infos_v.len()
        invariant
            none_owned ==> forall|j: int| 0 <= j < infos@.len() ==> !((#[trigger] infos@[j]) is Owned) && table_resolves(infos@[j], imports@),
            i <= infos_v@.len(),
            infos_v@ == infos@,
            forall|j: int| 0 <= j < infos@.len() ==> ((#[trigger] infos@[j]) matches TableInfo::Imported { module, .. } ==> module.pos() < imports@.len()),
            tables@.len() == i,
            forall|j: int| 0 <= j < i ==> table_resolves(#[trigger] infos@[j], imports@),
            forall|j: int| 0 <= j < i ==> {
                &&& (infos@[j] is Imported <==> (#[trigger] tables@[j]) is Imported)
                &&& (infos@[j] matches TableInfo::Native { ptr, .. } ==> tables@[j] matches Table::Owned(v) && v@ == ptr@)
                &&& (infos@[j] matches TableInfo::Owned { min_size, max_size, .. } ==> tables@[j] matches Table::Owned(v)
                    && table_sized(v@.len(), min_size, max_size))
                &&& (infos@[j] matches TableInfo::Imported { module, name, .. } ==> tables@[j] == Table::Imported {
                    from: module,
                    index: export_of(imports@, module, name@)->Some_0->Table_0,
                })
            },
        decreases infos_v@.len() - i,
    {
        let table = match &infos_v[i] {
            TableInfo::Owned { min_size, max_size, ty } => {
                assert(infos@[i as int] is Owned);
                let table = runtime.alloc_table(*min_size, *max_size, *ty, ctx)?;
                Table::Owned(table)
            },
            TableInfo::Native { ptr, .. } => {
                let mut copy: Vec<u64> = Vec::with_capacity(ptr.len());
                let mut k: usize = 0;
                while k < ptr.len()
                    invariant
                        k <= ptr@.len(),
                        copy@ == ptr@.take(k as int),
                    decreases ptr@.len() - k,
                {
                    copy.push(ptr[k]);
                    k = k + 1;
                    assert(copy@ =~= ptr@.take(k as int));
                }
                assert(ptr@.take(ptr@.len() as int) =~= ptr@);
                Table::Owned(copy)
            },
            TableInfo::Imported { module, name, .. } => {
                // Look for the corresponding module
                let instance = &imports[module.index()];
                match instance.items.get(name.as_str()) {
                    Some(ItemRef::Table(index)) => Table::Imported { from: *module, index },
                    _ => {
                        assert(!table_resolves(infos@[i as int], imports@));
                        return Err(ModuleError::FailedToInstantiate);
                    },
                }
            },
        };
        tables.push(table);
        i = i + 1;
    }
    Ok(FrozenMap::freeze(tables))
}

/// The addresses of the functions of an element segment.
pub open spec fn elem_addrs(seg: TableSegment, func_addrs: Seq<u64>) -> Seq<u64> {
    Seq::new(seg.elements@.len(), |e: int| func_addrs[seg.elements@[e].pos() as int])
}

/// `table` with `vals` written from position `offset` on.
pub open spec fn write_elems(table: Seq<u64>, offset: int, vals: Seq<u64>) -> Seq<u64> {
    Seq::new(table.len(), |j: int| if offset <= j < offset + vals.len() { vals[j - offset] } else { table[j] })
}

/// Table `t` after the element segments are applied to it, in order.
pub open spec fn apply_elements(table: Seq<u64>, t: int, segs: Seq<TableSegment>, func_addrs: Seq<u64>) -> Seq<u64>
    decreases segs.len(),
{
    if segs.len() == 0 {
        table
    } else {
        let prev = apply_elements(table, t, segs.drop_last(), func_addrs);
        let seg = segs.last();
        if seg.table_index.pos() == t {
            write_elems(prev, seg.offset as int, elem_addrs(seg, func_addrs))
        } else {
            prev
        }
    }
}

proof fn lemma_apply_elements_len(table: Seq<u64>, t: int, segs: Seq<TableSegment>, func_addrs: Seq<u64>)
    ensures
        apply_elements(table, t, segs, func_addrs).len() == table.len(),
    decreases segs.len(),
{
    if segs.len() > 0 {
        lemma_apply_elements_len(table, t, segs.drop_last(), func_addrs);
    }
}

/// The element segments of table `t` fit in its `len` entries.
pub open spec fn elements_fit(len: nat, t: int, segs: Seq<TableSegment>) -> bool {
    forall|k: int| 0 <= k < segs.len() && (#[trigger] segs[k]).table_index.pos() == t ==> segs[k].offset + segs[k].elements@.len() <= len
}

/// The element segments refer to tables of the instance that are not imported, and to its
/// functions.
pub open spec fn elements_applicable(segs: Seq<TableSegment>, tables: Seq<TableInfo>, nb_funcs: nat) -> bool {
    forall|k: int| 0 <= k < segs.len() ==> {
        &&& (#[trigger] segs[k]).table_index.pos() < tables.len()
        &&& !(tables[segs[k].table_index.pos() as int] is Imported)
        &&& segs[k].base is None
        &&& forall|e: int| 0 <= e < segs[k].elements@.len() ==> (#[trigger] segs[k].elements@[e]).pos() < nb_funcs
    }
}

/// Writes the addresses of the functions of each element segment into its table, in order.
/// Fails where a segment does not fit in its table, leaving the segments after it unapplied.
fn apply_table_segments(tables: &mut FrozenMap<TableIndex, Table>, segs: &[TableSegment], func_addrs: &[u64]) -> (r: Result<(), ModuleError>)
    requires
        forall|k: int| 0 <= k < segs@.len() ==> {
            &&& (#[trigger] segs@[k]).table_index.pos() < old(tables)@.len()
            &&& old(tables)@[segs@[k].table_index.pos() as int] is Owned
            &&& forall|e: int| 0 <= e < segs@[k].elements@.len() ==> (#[trigger] segs@[k].elements@[e]).pos() < func_addrs@.len()
        },
    ensures
        final(tables)@.len() == old(tables)@.len(),
        r is Err ==> r == Err::<(), ModuleError>(ModuleError::FailedToInstantiate),
        (r is Ok) == forall|i: int| 0 <= i < old(tables)@.len() ==> ((#[trigger] old(tables)@[i]) matches Table::Owned(v) ==> elements_fit(v@.len(), i, segs@)),
        r is Ok ==> forall|i: int| 0 <= i < old(tables)@.len() ==> match (#[trigger] old(tables)@[i]) {
            Table::Owned(v) => final(tables)@[i] matches Table::Owned(w) && w@ == apply_elements(v@, i, segs@, func_addrs@),
            Table::Imported { .. } => final(tables)@[i] == old(tables)@[i],
        },
{
    let ghost t0 = tables@;
    let mut k: usize = 0;
    while k < segs.len()
        invariant
            k <= segs@.len(),
            t0 == old(tables)@,
            tables@.len() == t0.len(),
            forall|j: int| 0 <= j < segs@.len() ==> {
                &&& (#[trigger] segs@[j]).table_index.pos() < t0.len()
                &&& t0[segs@[j].table_index.pos() as int] is Owned
                &&& forall|e: int| 0 <= e < segs@[j].elements@.len() ==> (#[trigger] segs@[j].elements@[e]).pos() < func_addrs@.len()
            },
            forall|i: int| 0 <= i < t0.len() ==> match (#[trigger] t0[i]) {
                Table::Owned(v) => tables@[i] matches Table::Owned(w) && w@ == apply_elements(v@, i, segs@.take(k as int), func_addrs@)
                    && elements_fit(v@.len(), i, segs@.take(k as int)),
                Table::Imported { .. } => tables@[i] == t0[i],
            },
        decreases segs@.len() - k,
    {
        let seg = &segs[k];
        let t = seg.table_index.index();
        proof {
            assert(segs@.take(k + 1).drop_last() =~= segs@.take(k as int));
            assert(segs@.take(k + 1).last() == segs@[k as int]);
        }
        let content: &Vec<u64> = match tables.at(t) {
            Table::Owned(v) => v,
            Table::Imported { .. } => {
                assert(false);
                return Err(ModuleError::FailedToInstantiate);
            },
        };
        let ghost cur = content@;
        let n = seg.elements.len();
        if seg.offset as usize > content.len() || n > content.len() - seg.offset as usize {
            proof {
                let v = t0[t as int]->Owned_0;
                lemma_apply_elements_len(v@, t as int, segs@.take(k as int), func_addrs@);
                assert(cur.len() == v@.len());
                assert(!elements_fit(v@.len(), t as int, segs@)) by {
                    assert(segs@[k as int].table_index.pos() == t);
                }
            }
            return Err(ModuleError::FailedToInstantiate);
        }
        let off = seg.offset as usize;
        let mut w: Vec<u64> = Vec::new();
        let mut j: usize = 0;
        while j < content.len()
            invariant
                j <= content@.len(),
                cur == content@,
                off + n <= cur.len(),
                n == seg.elements@.len(),
                forall|e: int| 0 <= e < seg.elements@.len() ==> (#[trigger] seg.elements@[e]).pos() < func_addrs@.len(),
                w@.len() == j,
                forall|q: int| 0 <= q < j ==> #[trigger] w@[q] == write_elems(cur, off as int, elem_addrs(*seg, func_addrs@))[q],
            decreases content@.len() - j,
        {
            let x = if off <= j && j < off + n {
                func_addrs[seg.elements[j - off].index()]
            } else {
                content[j]
            };
            w.push(x);
            j = j + 1;
        }
        proof {
            assert(w@ =~= write_elems(cur, off as int, elem_addrs(*seg, func_addrs@)));
        }
        tables.set(t, Table::Owned(w));
        proof {
            assert forall|i: int| 0 <= i < t0.len() implies match (#[trigger] t0[i]) {
                Table::Owned(v) => tables@[i] matches Table::Owned(w) && w@ == apply_elements(v@, i, segs@.take(k + 1), func_addrs@)
                    && elements_fit(v@.len(), i, segs@.take(k + 1)),
                Table::Imported { .. } => tables@[i] == t0[i],
            } by {
                if t0[i] is Owned {
                    let v = t0[i]->Owned_0;
                    let sk = segs@.take(k + 1);
                    assert forall|q: int| 0 <= q < sk.len() && (#[trigger] sk[q]).table_index.pos() == i implies sk[q].offset + sk[q].elements@.len() <= v@.len() by {
                        if q < k {
                            assert(sk[q] == segs@.take(k as int)[q]);
                        } else {
                            assert(sk[q] == segs@[k as int]);
                            lemma_apply_elements_len(v@, i, segs@.take(k as int), func_addrs@);
                        }
                    }
                }
            }
        }
        k = k + 1;
    }
    proof {
        assert(segs@.take(segs@.len() as int) =~= segs@);
    }
    Ok(())
}

// ——————————————————————————— Instance queries ——————————————————————————— //

/// The address of the table buffer of an instance.
#[verifier::external_body]
fn table_addr(table: &Vec<u64>) -> u64 {
    table.as_ptr() as u64
}

impl<Area: MemoryArea> Instance<Area> {
    /// The address of function `f`; imported functions are resolved through their instances.
    pub closed spec fn func_addr(self, f: int) -> u64
        decreases self,
    {
        if 0 <= f < self.funcs@.len() {
            match self.funcs@[f] {
                Func::Owned { offset } => vstd::wrapping::u64_specs::wrapping_add(self.code.addr() as u64, offset as u64),
                Func::Imported { from, index } => if from.pos() < self.imports@.len() {
                    let inst = self.imports@[from.pos() as int];
                    proof {
                        assert(decreases_to!(self => self.imports));
                        assert(decreases_to!(self.imports => self.imports@));
                        assert(decreases_to!(self.imports@ => inst));
                    }
                    inst.func_addr(index.pos() as int)
                } else {
                    0
                },
                Func::Native { ptr } => ptr@ as u64,
            }
        } else {
            0
        }
    }

    /// The VMContext of the instance.
    pub closed spec fn vmctx_view(self) -> VMContext {
        self.vmctx
    }

    /// The address of the VMContext of the instance.
    pub closed spec fn vmctx_addr(self) -> usize {
        self.vmctx.spec_addr()
    }

    /// The address of the slot of global `g`; imported globals are resolved through their
    /// instances.
    pub closed spec fn glob_addr(self, g: int) -> u64
        decreases self,
    {
        if 0 <= g < self.globs@.len() {
            match self.globs@[g] {
                Glob::Owned { .. } => vstd::wrapping::u64_specs::wrapping_add(
                    self.vmctx.spec_addr() as u64,
                    (self.vmctx.globs_at() + g * 8) as u64,
                ),
                Glob::Imported { from, index } => if from.pos() < self.imports@.len() {
                    let inst = self.imports@[from.pos() as int];
                    proof {
                        assert(decreases_to!(self => self.imports));
                        assert(decreases_to!(self.imports => self.imports@));
                        assert(decreases_to!(self.imports@ => inst));
                    }
                    inst.glob_addr(index.pos() as int)
                } else {
                    0
                },
            }
        } else {
            0
        }
    }

    /// The address of heap `h`; imported heaps are resolved through their instances.
    pub closed spec fn heap_addr(self, h: int) -> u64
        decreases self,
    {
        if 0 <= h < self.heaps@.len() {
            match self.heaps@[h] {
                Heap::Owned { memory } => memory.addr() as u64,
                Heap::Imported { from, index } => if from.pos() < self.imports@.len() {
                    let inst = self.imports@[from.pos() as int];
                    proof {
                        assert(decreases_to!(self => self.imports));
                        assert(decreases_to!(self.imports => self.imports@));
                        assert(decreases_to!(self.imports@ => inst));
                    }
                    inst.heap_addr(index.pos() as int)
                } else {
                    0
                },
            }
        } else {
            0
        }
    }

    /// The content of table `t`; imported tables are resolved through their instances.
    pub closed spec fn table_content(self, t: int) -> Seq<u64>
        decreases self,
    {
        if 0 <= t < self.tables@.len() {
            match self.tables@[t] {
                Table::Owned(v) => v@,
                Table::Imported { from, index } => if from.pos() < self.imports@.len() {
                    let inst = self.imports@[from.pos() as int];
                    proof {
                        assert(decreases_to!(self => self.imports));
                        assert(decreases_to!(self.imports => self.imports@));
                        assert(decreases_to!(self.imports@ => inst));
                    }
                    inst.table_content(index.pos() as int)
                } else {
                    Seq::empty()
                },
            }
        } else {
            Seq::empty()
        }
    }

    /// Returns the address of a function.
    /// Imported functions are resolved through recursive lookups.
    fn get_func_ptr(&self, func: FuncIndex) -> (r: u64)
        requires
            func.pos() < self.funcs@.len(),
        ensures
            r == self.func_addr(func.pos() as int),
        decreases self,
    {
        proof {
            use_type_invariant(self);
        }
        match self.funcs.index(func) {
            Func::Owned { offset } => (self.code.as_ptr() as u64).wrapping_add(*offset as u64),
            Func::Imported { from, index } => {
                let instance = &self.imports[from.index()];
                proof {
                    assert(decreases_to!(self => self.imports));
                    assert(decreases_to!(self.imports => self.imports@));
                    assert(decreases_to!(self.imports@ => *instance));
                }
                instance.get_func_ptr(*index)
            },
            Func::Native { ptr } => ptr.as_ptr() as u64,
        }
    }

    /// Returns the address of a heap.
    /// Imported heaps are resolved through recursive lookups.
    fn get_heap_ptr(&self, heap: HeapIndex) -> (r: u64)
        requires
            heap.pos() < self.heaps@.len(),
        ensures
            r == self.heap_addr(heap.pos() as int),
        decreases self,
    {
        proof {
            use_type_invariant(self);
        }
        match self.heaps.index(heap) {
            Heap::Owned { memory } => memory.as_ptr() as u64,
            Heap::Imported { from, index } => {
                let instance = &self.imports[from.index()];
                proof {
                    assert(decreases_to!(self => self.imports));
                    assert(decreases_to!(self.imports => self.imports@));
                    assert(decreases_to!(self.imports@ => *instance));
                }
                instance.get_heap_ptr(*index)
            },
        }
    }

    /// Returns a table.
    /// Imported tables are resolved through recursive lookups.
    fn get_table(&self, table: TableIndex) -> (r: &Vec<u64>)
        requires
            table.pos() < self.tables@.len(),
        ensures
            r@ == self.table_content(table.pos() as int),
        decreases self,
    {
        proof {
            use_type_invariant(self);
        }
        match self.tables.index(table) {
            Table::Owned(t) => t,
            Table::Imported { from, index } => {
                let instance = &self.imports[from.index()];
                proof {
                    assert(decreases_to!(self => self.imports));
                    assert(decreases_to!(self.imports => self.imports@));
                    assert(decreases_to!(self.imports@ => *instance));
                }
                instance.get_table(*index)
            },
        }
    }

    /// Returns the address of a global.
    /// Imported globals are resolved through recursive lookups.
    fn get_glob_ptr(&self, glob: GlobIndex) -> (r: u64)
        requires
            glob.pos() < self.globs@.len(),
        ensures
            r == self.glob_addr(glob.pos() as int),
        decreases self,
    {
        proof {
            use_type_invariant(self);
        }
        match self.globs.index(glob) {
            Glob::Owned { .. } => {
                (self.vmctx.as_ptr() as u64).wrapping_add(self.vmctx.get_global_ptr(glob) as u64)
            },
            Glob::Imported { from, index } => {
                let instance = &self.imports[from.index()];
                proof {
                    assert(decreases_to!(self => self.imports));
                    assert(decreases_to!(self.imports => self.imports@));
                    assert(decreases_to!(self.imports@ => *instance));
                }
                instance.get_glob_ptr(*index)
            },
        }
    }

    /// The address of the VMContext of the instance.
    pub fn get_vmctx_ptr(&self) -> (r: usize)
        ensures
            r == self.vmctx_addr(),
    {
        self.vmctx.as_ptr()
    }
}

// ———————————————————————————— Instantiation —————————————————————————————— //

/// The address of a function of an instance under construction.
pub open spec fn func_addr_in<Area: MemoryArea>(func: Func, code_addr: u64, imports: Seq<Instance<Area>>) -> u64 {
    match func {
        Func::Owned { offset } => vstd::wrapping::u64_specs::wrapping_add(code_addr, offset as u64),
        Func::Imported { from, index } => imports[from.pos() as int].func_addr(index.pos() as int),
        Func::Native { ptr } => ptr@ as u64,
    }
}

/// The address of a heap of an instance under construction.
pub open spec fn heap_addr_in<Area: MemoryArea>(heap: Heap<Area>, imports: Seq<Instance<Area>>) -> u64 {
    match heap {
        Heap::Owned { memory } => memory.addr() as u64,
        Heap::Imported { from, index } => imports[from.pos() as int].heap_addr(index.pos() as int),
    }
}

/// A slot holds the initial value of a global: whole for 64 bits values, in its lower half
/// for 32 bits values.
pub open spec fn glob_holds(slot: u64, init: GlobInit) -> bool {
    exists|prev: u64| slot == crate::vmctx::glob_slot(prev, init)
}

/// The imported items of an instance under construction are items of the imported instances.
pub open spec fn imported_refs_valid<Area>(
    heaps: Seq<Heap<Area>>,
    tables: Seq<Table>,
    funcs: Seq<Func>,
    globs: Seq<Glob>,
    imports: Seq<Instance<Area>>,
) -> bool {
    &&& forall|i: int| 0 <= i < funcs.len() ==> ((#[trigger] funcs[i]) matches Func::Imported { from, index }
        ==> from.pos() < imports.len() && index.pos() < imports[from.pos() as int].func_list().len())
    &&& forall|i: int| 0 <= i < globs.len() ==> ((#[trigger] globs[i]) matches Glob::Imported { from, index }
        ==> from.pos() < imports.len() && index.pos() < imports[from.pos() as int].glob_list().len())
    &&& forall|i: int| 0 <= i < heaps.len() ==> ((#[trigger] heaps[i]) matches Heap::Imported { from, index }
        ==> from.pos() < imports.len() && index.pos() < imports[from.pos() as int].heap_list().len())
    &&& forall|i: int| 0 <= i < tables.len() ==> ((#[trigger] tables[i]) matches Table::Imported { from, index }
        ==> from.pos() < imports.len() && index.pos() < imports[from.pos() as int].table_list().len())
}

/// The layout has a slot for each heap, table, imported module and global, and its function
/// slots are for functions of the module.
pub open spec fn vmctx_fits(layout: crate::modules::LayoutView, nb_heaps: nat, nb_tables: nat, nb_funcs: nat, nb_imports: nat, nb_globs: nat) -> bool {
    let total = layout.heaps.len() + 2 * layout.tables.len() + layout.funcs.len() + layout.imports.len() + layout.globs.len();
    &&& total * 8 <= isize::MAX
    &&& layout.heaps.len() == nb_heaps
    &&& layout.tables.len() == nb_tables
    &&& layout.imports.len() == nb_imports
    &&& layout.globs.len() == nb_globs
    &&& layout.funcs.len() < u32::MAX
    &&& forall|p: int| 0 <= p < layout.funcs.len() ==> (#[trigger] layout.funcs[p]).pos() < nb_funcs
}

/// The VMContext holds, after the heaps' addresses, each table's address and bound, the
/// address of each function that the layout lists (in the layout's order), the VMContext
/// address of each imported instance, then each global: the value of an owned one, the address
/// of an imported one.
pub open spec fn vmctx_filled<Area: MemoryArea>(
    r: VMContext,
    layout: crate::modules::LayoutView,
    heaps: Seq<Heap<Area>>,
    funcs: Seq<Func>,
    globs: Seq<Glob>,
    imports: Seq<Instance<Area>>,
    code_addr: u64,
) -> bool {
    &&& r.tables_at() == layout.heaps.len() * 8
    &&& r.funcs_at() == r.tables_at() + layout.tables.len() * 16
    &&& r.imports_at() == r.funcs_at() + layout.funcs.len() * 8
    &&& r.globs_at() == r.imports_at() + layout.imports.len() * 8
    &&& r.globs_at() / 8 + globs.len() <= r.slot_values().len()
    &&& forall|h: int| 0 <= h < heaps.len() && h < layout.heaps.len() ==>
        r.slot_values()[h] == heap_addr_in(#[trigger] heaps[h], imports)
    &&& forall|p: int| 0 <= p < layout.funcs.len() ==>
        r.slot_values()[r.funcs_at() / 8 + p] == func_addr_in(funcs[(#[trigger] layout.funcs[p]).pos() as int], code_addr, imports)
    &&& forall|k: int| 0 <= k < imports.len() ==>
        r.slot_values()[r.imports_at() / 8 + k] == (#[trigger] imports[k]).vmctx_addr() as u64
    &&& forall|g: int| 0 <= g < globs.len() ==> ((#[trigger] globs[g]) matches Glob::Imported { from, index }
        ==> r.slot_values()[r.globs_at() / 8 + g] == imports[from.pos() as int].glob_addr(index.pos() as int))
    &&& forall|g: int| 0 <= g < globs.len() ==> ((#[trigger] globs[g]) matches Glob::Owned { init }
        ==> glob_holds(r.slot_values()[r.globs_at() / 8 + g], init))
}

/// Builds the VMContext of an instance: the address of each heap, the address and bound of
/// each table, the address of each function, the VMContext address of each imported
/// instance, and each global (its value, or the address of an imported global).
fn init_vmctx<Area: MemoryArea>(
    layout: &SimpleVMContextLayout,
    heaps: &FrozenMap<HeapIndex, Heap<Area>>,
    tables: &FrozenMap<TableIndex, Table>,
    funcs: &FrozenMap<FuncIndex, Func>,
    globs: &FrozenMap<GlobIndex, Glob>,
    imports: &Vec<Instance<Area>>,
    code_addr: u64,
) -> (r: VMContext)
    requires
        vmctx_fits(layout@, heaps@.len(), tables@.len(), funcs@.len(), imports@.len(), globs@.len()),
        imported_refs_valid(heaps@, tables@, funcs@, globs@, imports@),
        heaps@.len() < u32::MAX,
        tables@.len() < u32::MAX,
        funcs@.len() < u32::MAX,
        imports@.len() < u32::MAX,
        globs@.len() < u32::MAX,
    ensures
        r.wf(),
        vmctx_filled(r, layout@, heaps@, funcs@, globs@, imports@, code_addr),
{
    let mut vmctx = VMContext::empty(layout);
    let ghost v0 = vmctx;
    let ghost tables_start = vmctx.tables_at() / 8;
    let ghost funcs_start = vmctx.funcs_at() / 8;
    let ghost imports_start = vmctx.imports_at() / 8;
    let ghost globs_start = vmctx.globs_at() / 8;
    let ghost nb_slots = vmctx.slot_values().len();
    proof {
        let h = layout@.heaps.len() as int;
        let t = layout@.tables.len() as int;
        let f = layout@.funcs.len() as int;
        let m = layout@.imports.len() as int;
        let g = layout@.globs.len() as int;
        assert(tables_start == h) by (nonlinear_arith)
            requires tables_start == vmctx.tables_at() / 8, vmctx.tables_at() == h * 8;
        assert(funcs_start == h + 2 * t) by (nonlinear_arith)
            requires funcs_start == vmctx.funcs_at() / 8, vmctx.funcs_at() == h * 8 + t * 16;
        assert(imports_start == h + 2 * t + f) by (nonlinear_arith)
            requires imports_start == vmctx.imports_at() / 8, vmctx.imports_at() == h * 8 + t * 16 + f * 8;
        assert(globs_start == h + 2 * t + f + m) by (nonlinear_arith)
            requires globs_start == vmctx.globs_at() / 8, vmctx.globs_at() == h * 8 + t * 16 + f * 8 + m * 8;
        assert(nb_slots == h + 2 * t + f + m + g) by (nonlinear_arith)
            requires nb_slots * 8 == h * 8 + t * 16 + f * 8 + m * 8 + g * 8;
    }

    let mut i: usize = 0;
    while i < heaps.len()
        invariant
            i <= heaps@.len() < u32::MAX,
            vmctx.wf(),
            vmctx.same_offsets(v0),
            tables_start == v0.tables_at() / 8,
            funcs_start == v0.funcs_at() / 8,
            imports_start == v0.imports_at() / 8,
            globs_start == v0.globs_at() / 8,
            0 <= tables_start <= funcs_start <= imports_start <= globs_start,
            vmctx.slot_values().len() == nb_slots,
            heaps@.len() <= nb_slots,
            vmctx.tables_at() / 8 == tables_start,
            imported_refs_valid(heaps@, tables@, funcs@, globs@, imports@),
            forall|h: int| 0 <= h < i ==> vmctx.slot_values()[h] == heap_addr_in(#[trigger] heaps@[h], imports@),
        decreases heaps@.len() - i,
    {
        let idx = HeapIndex::new(i);
        let ptr = match heaps.index(idx) {
            Heap::Owned { memory } => memory.as_ptr() as u64,
            Heap::Imported { from, index } => imports[from.index()].get_heap_ptr(*index),
        };
        vmctx.set_heap(ptr, idx);
        i = i + 1;
    }
    let ghost after_heaps = vmctx.slot_values();

    let mut i: usize = 0;
    while i < tables.len()
        invariant
            i <= tables@.len() < u32::MAX,
            vmctx.wf(),
            vmctx.same_offsets(v0),
            tables_start == v0.tables_at() / 8,
            funcs_start == v0.funcs_at() / 8,
            imports_start == v0.imports_at() / 8,
            globs_start == v0.globs_at() / 8,
            0 <= tables_start <= funcs_start <= imports_start <= globs_start,
            vmctx.slot_values().len() == nb_slots,
            vmctx.tables_at() / 8 == tables_start,
            tables_start + 2 * tables@.len() <= nb_slots,
            imported_refs_valid(heaps@, tables@, funcs@, globs@, imports@),
            forall|k: int| 0 <= k < tables_start ==> vmctx.slot_values()[k] == after_heaps[k],
        decreases tables@.len() - i,
    {
        let idx = TableIndex::new(i);
        let table = match tables.index(idx) {
            Table::Owned(table) => table,
            Table::Imported { from, index } => imports[from.index()].get_table(*index),
        };
        vmctx.set_table(table_addr(table), table.len() as u64, idx);
        i = i + 1;
    }
    let ghost after_tables = vmctx.slot_values();

    // Only the functions that the layout lists have a slot, in the order of the layout.
    let layout_funcs = layout.funcs();
    let mut p: usize = 0;
    while p < layout_funcs.len()
        invariant
            p <= layout_funcs@.len(),
            layout_funcs@ == layout@.funcs,
            vmctx_fits(layout@, heaps@.len(), tables@.len(), funcs@.len(), imports@.len(), globs@.len()),
            vmctx.wf(),
            vmctx.same_offsets(v0),
            tables_start == v0.tables_at() / 8,
            funcs_start == v0.funcs_at() / 8,
            imports_start == v0.imports_at() / 8,
            globs_start == v0.globs_at() / 8,
            0 <= tables_start <= funcs_start <= imports_start <= globs_start,
            vmctx.slot_values().len() == nb_slots,
            vmctx.funcs_at() / 8 == funcs_start,
            funcs_start + layout@.funcs.len() == imports_start,
            globs_start <= nb_slots,
            imported_refs_valid(heaps@, tables@, funcs@, globs@, imports@),
            forall|k: int| 0 <= k < funcs_start ==> vmctx.slot_values()[k] == after_tables[k],
            forall|q: int| 0 <= q < p ==> vmctx.slot_values()[funcs_start + q] == func_addr_in(
                funcs@[(#[trigger] layout@.funcs[q]).pos() as int], code_addr, imports@),
        decreases layout_funcs@.len() - p,
    {
        let f = layout_funcs[p];
        assert(f == layout@.funcs[p as int]);
        let ptr = match funcs.index(f) {
            Func::Owned { offset } => code_addr.wrapping_add(*offset as u64),
            Func::Imported { from, index } => imports[from.index()].get_func_ptr(*index),
            Func::Native { ptr } => ptr.as_ptr() as u64,
        };
        let ghost before = vmctx.slot_values();
        vmctx.set_func(ptr, FuncIndex::new(p));
        assert(ptr == func_addr_in(funcs@[f.pos() as int], code_addr, imports@));
        assert(vmctx.slot_values() == before.update(funcs_start + p, ptr));
        assert forall|q: int| 0 <= q < p + 1 implies vmctx.slot_values()[funcs_start + q] == func_addr_in(
            funcs@[(#[trigger] layout@.funcs[q]).pos() as int], code_addr, imports@) by {
            if q < p {
                assert(vmctx.slot_values()[funcs_start + q] == before[funcs_start + q]);
            }
        }
        p = p + 1;
    }
    let ghost after_funcs = vmctx.slot_values();

    let mut i: usize = 0;
    while i < imports.len()
        invariant
            i <= imports@.len() < u32::MAX,
            vmctx.wf(),
            vmctx.same_offsets(v0),
            tables_start == v0.tables_at() / 8,
            funcs_start == v0.funcs_at() / 8,
            imports_start == v0.imports_at() / 8,
            globs_start == v0.globs_at() / 8,
            0 <= tables_start <= funcs_start <= imports_start <= globs_start,
            vmctx.slot_values().len() == nb_slots,
            vmctx.imports_at() / 8 == imports_start,
            imports_start + imports@.len() == globs_start,
            globs_start <= nb_slots,
            forall|k: int| 0 <= k < imports_start ==> vmctx.slot_values()[k] == after_funcs[k],
            forall|k: int| 0 <= k < i ==> vmctx.slot_values()[imports_start + k] == (#[trigger] imports@[k]).vmctx_addr() as u64,
        decreases imports@.len() - i,
    {
        let ptr = imports[i].get_vmctx_ptr() as u64;
        let ghost before = vmctx.slot_values();
        vmctx.set_import(ptr, ImportIndex::new(i));
        assert(vmctx.slot_values() == before.update(imports_start + i, ptr));
        assert forall|k: int| 0 <= k < i + 1 implies vmctx.slot_values()[imports_start + k] == (#[trigger] imports@[k]).vmctx_addr() as u64 by {
            if k < i {
                assert(vmctx.slot_values()[imports_start + k] == before[imports_start + k]);
            }
        }
        i = i + 1;
    }
    let ghost after_imports = vmctx.slot_values();

    let mut i: usize = 0;
    while i < globs.len()
        invariant
            i <= globs@.len() < u32::MAX,
            vmctx.wf(),
            vmctx.same_offsets(v0),
            tables_start == v0.tables_at() / 8,
            funcs_start == v0.funcs_at() / 8,
            imports_start == v0.imports_at() / 8,
            globs_start == v0.globs_at() / 8,
            0 <= tables_start <= funcs_start <= imports_start <= globs_start,
            vmctx.slot_values().len() == nb_slots,
            vmctx.globs_at() / 8 == globs_start,
            globs_start + globs@.len() <= nb_slots,
            imported_refs_valid(heaps@, tables@, funcs@, globs@, imports@),
            forall|k: int| 0 <= k < globs_start ==> vmctx.slot_values()[k] == after_imports[k],
            forall|g: int| 0 <= g < i ==> ((#[trigger] globs@[g]) matches Glob::Owned { init }
                ==> glob_holds(vmctx.slot_values()[globs_start + g], init)),
            forall|g: int| 0 <= g < i ==> ((#[trigger] globs@[g]) matches Glob::Imported { from, index }
                ==> vmctx.slot_values()[globs_start + g] == imports@[from.pos() as int].glob_addr(index.pos() as int)),
        decreases globs@.len() - i,
    {
        let idx = GlobIndex::new(i);
        let ghost before_all = vmctx.slot_values();
        match globs.index(idx) {
            Glob::Owned { init } => {
                let ghost before = vmctx.slot_values();
                let ghost prev = vmctx.slot_values()[globs_start + i];
                assert(idx.pos() == i);
                assert(vmctx.globs_at() / 8 == globs_start);
                vmctx.set_glob_value(*init, idx);
                assert(vmctx.slot_values() == before.update(globs_start + i, crate::vmctx::glob_slot(prev, *init)));
                assert(vmctx.slot_values()[globs_start + i] == crate::vmctx::glob_slot(prev, *init));
            },
            Glob::Imported { from, index } => {
                let ptr = imports[from.index()].get_glob_ptr(*index);
                vmctx.set_glob_ptr(ptr, idx);
                assert(vmctx.slot_values() == before_all.update(globs_start + i, ptr));
            },
        }
        proof {
            assert forall|g: int| 0 <= g < i + 1 implies ((#[trigger] globs@[g]) matches Glob::Owned { init }
                ==> glob_holds(vmctx.slot_values()[globs_start + g], init)) && ((globs@[g]) matches Glob::Imported { from, index }
                ==> vmctx.slot_values()[globs_start + g] == imports@[from.pos() as int].glob_addr(index.pos() as int)) by {
                if g < i {
                    assert(vmctx.slot_values()[globs_start + g] == before_all[globs_start + g]);
                }
            }
        }
        i = i + 1;
    }
    vmctx
}

/// The item is one of a module with the given numbers of items.
pub open spec fn item_in_range(item: ItemRef, nb_funcs: nat, nb_heaps: nat, nb_tables: nat, nb_globs: nat, nb_imports: nat) -> bool {
    match item {
        ItemRef::Func(f) => f.pos() < nb_funcs,
        ItemRef::Heap(h) => h.pos() < nb_heaps,
        ItemRef::Table(t) => t.pos() < nb_tables,
        ItemRef::Glob(g) => g.pos() < nb_globs,
        ItemRef::Import(i) => i.pos() < nb_imports,
    }
}

/// The exported items of a module are items of the module.
pub open spec fn exports_in_range(exports: Map<Seq<char>, ItemRef>, nb_funcs: nat, nb_heaps: nat, nb_tables: nat, nb_globs: nat, nb_imports: nat) -> bool {
    forall|k: Seq<char>| #[trigger] exports.contains_key(k) ==> item_in_range(exports[k], nb_funcs, nb_heaps, nb_tables, nb_globs, nb_imports)
}

/// Whether every exported item is one of the module's.
fn exports_ok(items: &NameMap<ItemRef>, nb_funcs: usize, nb_heaps: usize, nb_tables: usize, nb_globs: usize, nb_imports: usize) -> (r: bool)
    ensures
        r == exports_in_range(items@, nb_funcs as nat, nb_heaps as nat, nb_tables as nat, nb_globs as nat, nb_imports as nat),
{
    let n = items.len();
    let mut i: usize = 0;
    while i < n
        invariant
            i <= n,
            n == items.size(),
            forall|j: int| 0 <= j < i ==> items@.contains_key(#[trigger] items.name_at(j)) && item_in_range(items@[items.name_at(j)],
                nb_funcs as nat, nb_heaps as nat, nb_tables as nat, nb_globs as nat, nb_imports as nat),
        decreases n - i,
    {
        let (name, item) = items.entry(i);
        let ok = match item {
            ItemRef::Func(f) => f.index() < nb_funcs,
            ItemRef::Heap(h) => h.index() < nb_heaps,
            ItemRef::Table(t) => t.index() < nb_tables,
            ItemRef::Glob(g) => g.index() < nb_globs,
            ItemRef::Import(m) => m.index() < nb_imports,
        };
        if !ok {
            assert(items@.contains_key(name@));
            return false;
        }
        i = i + 1;
    }
    proof {
        items.lemma_names_cover();
    }
    true
}

/// The instances that the picked positions designate.
pub open spec fn picked<Area>(import_from: Seq<(String, Instance<Area>)>, ps: Seq<int>) -> Seq<Instance<Area>> {
    Seq::new(ps.len(), |t: int| import_from[ps[t]].1)
}

/// The names under which instances are provided.
pub open spec fn provided_names<Area>(import_from: Seq<(String, Instance<Area>)>) -> Seq<Seq<char>> {
    import_from.map_values(|p: (String, Instance<Area>)| p.0@)
}

impl<Area: MemoryArea> Instance<Area> {
    /// Creates an instance of `module`, whose imports are taken from `import_from`: for each
    /// module it imports, in order, the first instance provided under that name that is not
    /// taken yet. The runtime allocates the heaps, tables and code of the instance.
    pub fn instantiate<Mod: Module, R: Runtime<MemoryArea = Area>>(
        module: &Mod,
        import_from: Vec<(String, Instance<Area>)>,
        runtime: &R,
    ) -> (r: Result<Self, ModuleError>)
        requires
            imports_in_range(module.spec_funcs(), module.spec_globs(), module.spec_heaps(), module.spec_tables(), module.spec_imports().len()),
            heaps_initializable(module.spec_heaps(), module.spec_segments()),
            module.spec_funcs().len() < u32::MAX,
            module.spec_tables().len() < u32::MAX,
            module.spec_globs().len() < u32::MAX,
            module.spec_imports().len() < u32::MAX,
            forall|i: int| 0 <= i < nb_func_relocs(module.spec_relocs()) ==>
                reloc_applicable(#[trigger] module.spec_relocs()[i], module.spec_code().len(), module.spec_funcs().len()),
            vmctx_fits(module.spec_layout(), module.spec_heaps().len(), module.spec_tables().len(),
                module.spec_funcs().len(), module.spec_imports().len(), module.spec_globs().len()),
            elements_applicable(module.spec_table_segments(), module.spec_tables(), module.spec_funcs().len()),
        ensures
            !exports_in_range(module.spec_exports(), module.spec_funcs().len(), module.spec_heaps().len(),
                module.spec_tables().len(), module.spec_globs().len(), module.spec_imports().len())
                ==> r == Err::<Self, ModuleError>(ModuleError::FailedToInstantiate),
            pick_imports(string_views(module.spec_imports()), provided_names(import_from@)) is None
                ==> r == Err::<Self, ModuleError>(ModuleError::FailedToInstantiate),
            pick_imports(string_views(module.spec_imports()), provided_names(import_from@)) matches Some(ps) ==> {
                let imports = picked(import_from@, ps);
                &&& !(forall|i: int| 0 <= i < module.spec_funcs().len() ==> resolve_func(#[trigger] module.spec_funcs()[i], imports) is Some)
                    ==> r == Err::<Self, ModuleError>(ModuleError::FailedToInstantiate)
                &&& (forall|i: int| 0 <= i < module.spec_funcs().len() ==> resolve_func(#[trigger] module.spec_funcs()[i], imports) is Some)
                    && !(forall|i: int| 0 <= i < module.spec_globs().len() ==> resolve_glob(#[trigger] module.spec_globs()[i], imports) is Some)
                    ==> r == Err::<Self, ModuleError>(ModuleError::FailedToInstantiate)
                &&& !(forall|i: int| 0 <= i < module.spec_heaps().len() ==> heap_resolves(#[trigger] module.spec_heaps()[i], imports))
                    ==> r is Err
                &&& !(forall|i: int| 0 <= i < module.spec_tables().len() ==> table_resolves(#[trigger] module.spec_tables()[i], imports))
                    ==> r is Err
            },
            nb_func_relocs(module.spec_relocs()) < module.spec_relocs().len() ==> r is Err,
            r matches Ok(inst) ==> {
                let ps = pick_imports(string_views(module.spec_imports()), provided_names(import_from@))->Some_0;
                let addrs = Seq::new(module.spec_funcs().len(), |j: int| func_addr_in(inst.func_list()[j], inst.code_area().addr() as u64, inst.import_list()));
                &&& pick_imports(string_views(module.spec_imports()), provided_names(import_from@)) is Some
                &&& inst.import_list() == picked(import_from@, ps)
                &&& inst.exports() == module.spec_exports()
                &&& forall|i: int| 0 <= i < module.spec_heaps().len() ==> ((#[trigger] inst.heap_list()[i]) matches Heap::Owned { memory }
                    ==> runtime.received(memory)@ == initial_heap(module.spec_heaps()[i], i, module.spec_segments())
                    && runtime.heap_kind(memory) == module.spec_heaps()[i]->Owned_kind
                    && memory.size() == heap_bytes(module.spec_heaps()[i]))
                &&& inst.code_area().size() == module.spec_code().len()
                &&& runtime.received(inst.code_area())@ == apply_relocs(
                    module.spec_code(),
                    inst.code_area().addr() as u64,
                    module.spec_relocs(),
                    addrs,
                )
                &&& vmctx_filled(inst.vmctx_view(), module.spec_layout(), inst.heap_list(), inst.func_list(), inst.glob_list(),
                    inst.import_list(), inst.code_area().addr() as u64)
                &&& inst.func_list().len() == module.spec_funcs().len()
                &&& forall|i: int| 0 <= i < module.spec_funcs().len() ==>
                    Some(#[trigger] inst.func_list()[i]) == resolve_func(module.spec_funcs()[i], inst.import_list())
                &&& inst.glob_list().len() == module.spec_globs().len()
                &&& forall|i: int| 0 <= i < module.spec_globs().len() ==>
                    Some(#[trigger] inst.glob_list()[i]) == resolve_glob(module.spec_globs()[i], inst.import_list())
                &&& inst.heap_list().len() == module.spec_heaps().len()
                &&& forall|i: int| 0 <= i < module.spec_heaps().len() ==> {
                    &&& (module.spec_heaps()[i] is Owned <==> (#[trigger] inst.heap_list()[i]) is Owned)
                    &&& (module.spec_heaps()[i] matches HeapInfo::Imported { module: m, name } ==> inst.heap_list()[i] == Heap::<Area>::Imported {
                        from: m,
                        index: export_of(inst.import_list(), m, name@)->Some_0->Heap_0,
                    })
                }
                &&& inst.table_list().len() == module.spec_tables().len()
                &&& forall|i: int| 0 <= i < module.spec_tables().len() ==> {
                    &&& (module.spec_tables()[i] is Imported <==> (#[trigger] inst.table_list()[i]) is Imported)
                    &&& (module.spec_tables()[i] matches TableInfo::Native { ptr, .. } ==> inst.table_list()[i] matches Table::Owned(v)
                        && v@ == apply_elements(ptr@, i, module.spec_table_segments(), addrs))
                    &&& (module.spec_tables()[i] is Owned ==> (inst.table_list()[i] matches Table::Owned(v)
                        && (exists|base: Seq<u64>| #[trigger] base.len() == v@.len() && v@ == apply_elements(base, i, module.spec_table_segments(), addrs))))
                    &&& (inst.table_list()[i] matches Table::Owned(v) ==> elements_fit(v@.len(), i, module.spec_table_segments()))
                    &&& (module.spec_tables()[i] matches TableInfo::Owned { min_size, max_size, .. } ==> inst.table_list()[i] matches Table::Owned(v)
                        && table_sized(v@.len(), min_size, max_size))
                    &&& (module.spec_tables()[i] matches TableInfo::Imported { module: m, name, .. } ==> inst.table_list()[i] == Table::Imported {
                        from: m,
                        index: export_of(inst.import_list(), m, name@)->Some_0->Table_0,
                    })
                }
            },
    {
        // The exported items must be items of the module
        if !exports_ok(module.public_items(), module.funcs().len(), module.heaps().len(), module.tables().len(),
            module.globs().len(), module.imports().len()) {
            return Err(ModuleError::FailedToInstantiate);
        }
        let mut ctx = runtime.create_context();
        let ghost wanted = string_views(module.spec_imports());
        let ghost provided = provided_names(import_from@);
        let ghost orig = import_from@;

        // Resolve the imported modules
        let imports = match take_imports(module.imports(), import_from) {
            Ok(imports) => imports,
            Err(e) => {
                return Err(e);
            },
        };
        let ghost ps = pick_imports(wanted, provided)->Some_0;
        proof {
            lemma_picks_distinct(wanted, provided);
            assert(imports@.len() == module.spec_imports().len());
        }
        assert(imports@ =~= picked(orig, ps));

        // The imported instances keep their invariant.
        let mut m: usize = 0;
        while m < imports.len()
            invariant
                m <= imports@.len(),
                forall|k: int| 0 <= k < m ==> (#[trigger] imports@[k]).refs_valid(),
            decreases imports@.len() - m,
        {
            let inst = &imports[m];
            proof {
                use_type_invariant(inst);
            }
            m = m + 1;
        }

        // Prepare functions and globals
        let funcs = match resolve_funcs(module.funcs(), &imports) {
            Ok(funcs) => funcs,
            Err(e) => {
                return Err(e);
            },
        };
        let globs = match resolve_globs(module.globs(), &imports) {
            Ok(globs) => globs,
            Err(e) => {
                return Err(e);
            },
        };

        // Allocate heaps and tables
        let heaps = alloc_heaps(runtime, &mut ctx, module.heaps(), module.data_segments(), &imports)?;
        let mut tables = alloc_tables(runtime, &mut ctx, module.tables(), &imports)?;
        let items = module.public_items().duplicate();

        // Allocate and relocate code
        let mod_code = module.code();
        let area = runtime.alloc_code(mod_code.len(), &mut ctx)?;
        let code_addr = area.as_ptr() as u64;
        let mut func_addrs: Vec<u64> = Vec::new();
        let mut i: usize = 0;
        while i < funcs.len()
            invariant
                i <= funcs@.len() < u32::MAX,
                func_addrs@.len() == i,
                forall|k: int| 0 <= k < imports@.len() ==> (#[trigger] imports@[k]).refs_valid(),
                forall|j: int| 0 <= j < funcs@.len() ==> Some(#[trigger] funcs@[j]) == resolve_func(module.spec_funcs()[j], imports@),
                imports_in_range(module.spec_funcs(), module.spec_globs(), module.spec_heaps(), module.spec_tables(), imports@.len()),
                funcs@.len() == module.spec_funcs().len(),
                forall|j: int| 0 <= j < i ==> #[trigger] func_addrs@[j] == func_addr_in(funcs@[j], code_addr, imports@),
            decreases funcs@.len() - i,
        {
            let ptr = match funcs.at(i) {
                Func::Owned { offset } => code_addr.wrapping_add(*offset as u64),
                Func::Imported { from, index } => {
                    proof {
                        assert(Some(funcs@[i as int]) == resolve_func(module.spec_funcs()[i as int], imports@));
                        assert(module.spec_funcs()[i as int] is Imported);
                        assert(imports@[from.pos() as int].refs_valid());
                    }
                    imports[from.index()].get_func_ptr(*index)
                },
                Func::Native { ptr } => ptr.as_ptr() as u64,
            };
            func_addrs.push(ptr);
            i = i + 1;
        }
        // Fill the tables with their element segments
        let ghost tables0 = tables@;
        match apply_table_segments(&mut tables, module.table_segments(), func_addrs.as_slice()) {
            Ok(()) => {},
            Err(e) => {
                return Err(e);
            },
        }
        let mut code: Vec<u8> = Vec::with_capacity(mod_code.len());
        let mut k: usize = 0;
        while k < mod_code.len()
            invariant
                k <= mod_code@.len(),
                code@ == mod_code@.take(k as int),
            decreases mod_code@.len() - k,
        {
            code.push(mod_code[k]);
            k = k + 1;
            assert(code@ =~= mod_code@.take(k as int));
        }
        assert(mod_code@.take(mod_code@.len() as int) =~= mod_code@);
        match relocate(&mut code, code_addr, module.relocs(), func_addrs.as_slice()) {
            Ok(()) => {},
            Err(e) => {
                return Err(e);
            },
        }
        let ghost relocated = code@;
        let code_len = code.len();
        match runtime.write_code(&area, code, &mut ctx) {
            Ok(written) => {
                if written != code_len {
                    // The runtime did not write all of the code.
                    return Err(ModuleError::RuntimeError);
                }
            },
            Err(e) => {
                return Err(e);
            },
        }

        // Set the VMContext to its expected initial values
        proof {
            assert forall|j: int| 0 <= j < funcs@.len() implies ((#[trigger] funcs@[j]) matches Func::Imported { from, index }
                ==> from.pos() < imports@.len() && index.pos() < imports@[from.pos() as int].func_list().len()) by {
                assert(Some(funcs@[j]) == resolve_func(module.spec_funcs()[j], imports@));
                if funcs@[j] is Imported {
                    assert(module.spec_funcs()[j] is Imported);
                    let from = funcs@[j]->Imported_from;
                    assert(imports@[from.pos() as int].refs_valid());
                }
            }
            assert forall|j: int| 0 <= j < globs@.len() implies ((#[trigger] globs@[j]) matches Glob::Imported { from, index }
                ==> from.pos() < imports@.len() && index.pos() < imports@[from.pos() as int].glob_list().len()) by {
                assert(Some(globs@[j]) == resolve_glob(module.spec_globs()[j], imports@));
                if globs@[j] is Imported {
                    assert(module.spec_globs()[j] is Imported);
                    let from = globs@[j]->Imported_from;
                    assert(imports@[from.pos() as int].refs_valid());
                }
            }
            assert forall|j: int| 0 <= j < heaps@.len() implies ((#[trigger] heaps@[j]) matches Heap::Imported { from, index }
                ==> from.pos() < imports@.len() && index.pos() < imports@[from.pos() as int].heap_list().len()) by {
                if heaps@[j] is Imported {
                    assert(module.spec_heaps()[j] is Imported);
                    let from = heaps@[j]->Imported_from;
                    assert(imports@[from.pos() as int].refs_valid());
                }
            }
            assert forall|j: int| 0 <= j < tables@.len() implies ((#[trigger] tables@[j]) matches Table::Imported { from, index }
                ==> from.pos() < imports@.len() && index.pos() < imports@[from.pos() as int].table_list().len()) by {
                if tables@[j] is Imported {
                    if tables0[j] is Owned {
                        assert(tables@[j] is Owned);
                    }
                    assert(tables0[j] == tables@[j]);
                    assert(module.spec_tables()[j] is Imported);
                    let from = tables@[j]->Imported_from;
                    assert(imports@[from.pos() as int].refs_valid());
                }
            }
        }
        let vmctx = init_vmctx(module.vmctx_layout(), &heaps, &tables, &funcs, &globs, &imports, code_addr);

        let inst = Instance { items, vmctx, heaps, tables, funcs, globs, imports, code: area };
        proof {
            assert(code_addr == inst.code_area().addr() as u64);
            assert(func_addrs@ =~= Seq::new(module.spec_funcs().len(), |j: int| func_addr_in(inst.func_list()[j], inst.code_area().addr() as u64, inst.import_list())));
            assert(runtime.received(inst.code_area())@ == relocated);
            let segs = module.spec_table_segments();
            let addrs = func_addrs@;
            assert(inst.table_list().len() == module.spec_tables().len());
            assert forall|i: int| 0 <= i < module.spec_tables().len() implies {
                &&& (module.spec_tables()[i] is Imported <==> (#[trigger] inst.table_list()[i]) is Imported)
                &&& (module.spec_tables()[i] matches TableInfo::Native { ptr, .. } ==> inst.table_list()[i] matches Table::Owned(v)
                    && v@ == apply_elements(ptr@, i, segs, addrs))
                &&& (module.spec_tables()[i] is Owned ==> (inst.table_list()[i] matches Table::Owned(v)
                    && (exists|base: Seq<u64>| #[trigger] base.len() == v@.len() && v@ == apply_elements(base, i, segs, addrs))))
                &&& (inst.table_list()[i] matches Table::Owned(v) ==> elements_fit(v@.len(), i, segs))
                &&& (module.spec_tables()[i] matches TableInfo::Owned { min_size, max_size, .. } ==> inst.table_list()[i] matches Table::Owned(v)
                    && table_sized(v@.len(), min_size, max_size))
                &&& (module.spec_tables()[i] matches TableInfo::Imported { module: m, name, .. } ==> inst.table_list()[i] == Table::Imported {
                    from: m,
                    index: export_of(inst.import_list(), m, name@)->Some_0->Table_0,
                })
            } by {
                if tables0[i] is Owned {
                    let v0 = tables0[i]->Owned_0;
                    lemma_apply_elements_len(v0@, i, segs, addrs);
                    assert(tables@[i] matches Table::Owned(w) && w@ == apply_elements(v0@, i, segs, addrs));
                    let w = tables@[i]->Owned_0;
                    assert(v0@.len() == w@.len());
                } else {
                    assert(tables@[i] == tables0[i]);
                }
            }
        }
        Ok(inst)
    }
}

impl<Area: MemoryArea> Instance<Area> {
    /// Whether looking up `name` is supported: it names no global or imported module, nor a
    /// function imported from another instance.
    pub open spec fn func_lookup_supported(self, name: Seq<char>) -> bool {
        self.exports().contains_key(name) ==> match self.exports()[name] {
            ItemRef::Func(f) => !(self.func_list()[f.pos() as int] is Imported),
            ItemRef::Glob(_) => false,
            ItemRef::Import(_) => false,
            _ => true,
        }
    }

    /// Returns the address of a function exported by the instance.
    pub fn get_func_addr_by_name(&self, name: &str) -> (r: Option<usize>)
        requires
            self.func_lookup_supported(name@),
        ensures
            r == (if !self.exports().contains_key(name@) {
                None
            } else {
                match self.exports()[name@] {
                    ItemRef::Func(f) => match self.func_list()[f.pos() as int] {
                        Func::Owned { offset } => Some(vstd::wrapping::usize_specs::wrapping_add(self.code_area().addr(), offset as usize)),
                        Func::Native { ptr } => Some(ptr@),
                        Func::Imported { .. } => None,
                    },
                    _ => None,
                }
            }),
    {
        proof {
            use_type_invariant(self);
        }
        let item = match self.items.get(name) {
            Some(item) => item,
            None => {
                return None;
            },
        };
        let func = match self.get_func_by_ref(item) {
            Some(func) => func,
            None => {
                return None;
            },
        };
        match func {
            Func::Owned { offset } => {
                let addr = self.code.as_ptr();
                Some(addr.wrapping_add(*offset as usize))
            },
            Func::Imported { .. } => {
                proof {
                    assert(false);
                }
                None
            },
            Func::Native { ptr } => Some(ptr.as_ptr()),
        }
    }

    /// Returns a table exported by the instance from its exported name.
    pub fn get_table_by_name(&self, name: &str) -> (r: Option<&Vec<u64>>)
        ensures
            match r {
                Some(t) => self.exports().contains_key(name@) && self.exports()[name@] is Table
                    && t@ == self.table_content(self.exports()[name@]->Table_0.pos() as int),
                None => !self.exports().contains_key(name@) || !(self.exports()[name@] is Table),
            },
    {
        proof {
            use_type_invariant(self);
        }
        let index = match self.items.get(name) {
            Some(ItemRef::Table(idx)) => idx,
            _ => {
                return None;
            },
        };
        Some(self.get_table(index))
    }

    /// Returns the function that an item reference refers to, if it refers to a function.
    fn get_func_by_ref(&self, item: ItemRef) -> (r: Option<&Func>)
        requires
            self.refs_valid(),
            !(item is Glob),
            !(item is Import),
            item matches ItemRef::Func(f) ==> f.pos() < self.funcs@.len(),
            item matches ItemRef::Heap(h) ==> h.pos() < self.heaps@.len(),
            item matches ItemRef::Table(t) ==> t.pos() < self.tables@.len(),
        ensures
            r == (match item {
                ItemRef::Func(f) => Some(&self.funcs@[f.pos() as int]),
                _ => None,
            }),
    {
        match item {
            ItemRef::Func(idx) => Some(self.funcs.index(idx)),
            ItemRef::Heap(idx) => {
                let _heap = self.heaps.index(idx);
                None
            },
            ItemRef::Table(idx) => {
                let _table = self.tables.index(idx);
                None
            },
            _ => {
                proof {
                    assert(false);
                }
                None
            },
        }
    }
}

} // verus!
