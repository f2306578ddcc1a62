//! The VMContext of an instance.
//!
//! The VMContext is an array of 8 bytes slots passed to every function of an instance. It
//! holds, in order: the address of each heap; the address and the bound of each table; the
//! address of each function of the layout; the VMContext address of each imported instance;
//! and each global (its value, or the address of an imported global).

use vstd::prelude::*;

use crate::entity::{EntityRef, FuncIndex, GlobIndex, HeapIndex, ImportIndex, TableIndex};
use crate::modules::SimpleVMContextLayout;
use crate::traits::{GlobInit, VMContextLayout};

verus! {

/// Size of a pointer, in bytes.
pub const PTR_SIZE: usize = 8;

/// The width of items in the VMContext, in bytes.
pub const ITEM_WIDTH: usize = 8;

/// The address of the buffer of a vector of slots.
#[verifier::external_body]
fn slots_addr(slots: &Vec<u64>) -> usize {
    slots.as_ptr() as usize
}

/// The VMContext of an instance.
pub struct VMContext {
    slots: Vec<u64>,
    /// The address of the slots, which stay where they were allocated.
    addr: usize,
    table_offset: usize,
    func_offset: usize,
    import_offset: usize,
    glob_offset: usize,
}

/// The 8 bytes slot after writing a 32 bits value in its lower half.
pub open spec fn write_low_half(slot: u64, x: u32) -> u64 {
    (slot & 0xFFFF_FFFF_0000_0000u64) | (x as u64)
}

/// The slot after writing a global's initial value in it.
pub open spec fn glob_slot(slot: u64, value: GlobInit) -> u64 {
    match value {
        GlobInit::I32(x) => write_low_half(slot, x as u32),
        GlobInit::I64(x) => x as u64,
        GlobInit::F32(x) => write_low_half(slot, x),
        GlobInit::F64(x) => x,
    }
}

impl VMContext {
    /// The address of the VMContext: that of its slots.
    pub closed spec fn spec_addr(self) -> usize {
        self.addr
    }

    /// The slots of the VMContext.
    pub closed spec fn slot_values(self) -> Seq<u64> {
        self.slots@
    }

    /// Byte offset of the first table slot.
    pub closed spec fn tables_at(self) -> int {
        self.table_offset as int
    }

    /// Byte offset of the first function slot.
    pub closed spec fn funcs_at(self) -> int {
        self.func_offset as int
    }

    /// Byte offset of the first imported instance slot.
    pub closed spec fn imports_at(self) -> int {
        self.import_offset as int
    }

    /// Byte offset of the first global slot.
    pub closed spec fn globs_at(self) -> int {
        self.glob_offset as int
    }

    /// Two VMContexts have their regions at the same offsets.
    pub open spec fn same_offsets(self, other: Self) -> bool {
        &&& self.tables_at() >= 0
        &&& self.tables_at() == other.tables_at()
        &&& self.funcs_at() == other.funcs_at()
        &&& self.imports_at() == other.imports_at()
        &&& self.globs_at() == other.globs_at()
    }

    /// The offsets are those of a layout of slots.
    pub closed spec fn wf(self) -> bool {
        &&& self.table_offset <= self.func_offset <= self.import_offset <= self.glob_offset
        &&& self.table_offset % 8 == 0
        &&& self.func_offset % 8 == 0
        &&& self.import_offset % 8 == 0
        &&& self.glob_offset % 8 == 0
        &&& self.glob_offset / 8 <= self.slots@.len()
        &&& self.slots@.len() * 8 <= isize::MAX
    }

    /// Initializes an empty VMContext for the given layout, with all slots zeroed.
    ///
    /// The VMContext must be initialized (with the various methods to set its field) before
    /// being used to execute any code.
    pub fn empty(layout: &SimpleVMContextLayout) -> (r: Self)
        requires
            (layout@.heaps.len() + 2 * layout@.tables.len() + layout@.funcs.len()
                + layout@.imports.len() + layout@.globs.len()) * 8 <= isize::MAX,
        ensures
            r.wf(),
            r.tables_at() == layout@.heaps.len() * 8,
            r.funcs_at() == r.tables_at() + layout@.tables.len() * 16,
            r.imports_at() == r.funcs_at() + layout@.funcs.len() * 8,
            r.globs_at() == r.imports_at() + layout@.imports.len() * 8,
            r.slot_values().len() * 8 == r.globs_at() + layout@.globs.len() * 8,
            forall|i: int| 0 <= i < r.slot_values().len() ==> #[trigger] r.slot_values()[i] == 0,
    {
        // Each slot takes 8 bytes.
        let table_offset = layout.heaps().len() * ITEM_WIDTH;
        let func_offset = table_offset + layout.tables().len() * 2 * ITEM_WIDTH;
        let import_offset = func_offset + layout.funcs().len() * ITEM_WIDTH;
        let glob_offset = import_offset + layout.imports().len() * ITEM_WIDTH;
        let capacity = glob_offset + layout.globs().len() * ITEM_WIDTH;
        let nb_slots = capacity / ITEM_WIDTH;
        let mut slots: Vec<u64> = Vec::with_capacity(nb_slots);
        let mut i: usize = 0;
        while i < nb_slots
            invariant
                i <= nb_slots,
                slots@.len() == i,
                forall|j: int| 0 <= j < i ==> #[trigger] slots@[j] == 0,
            decreases nb_slots - i,
        {
            slots.push(0);
            i = i + 1;
        }
        let addr = slots_addr(&slots);
        Self { slots, addr, table_offset, func_offset, import_offset, glob_offset }
    }

    /// Writes `value` in the slot at byte offset `offset`.
    fn write_at(&mut self, value: u64, offset: usize)
        requires
            old(self).wf(),
            offset % 8 == 0,
            offset / 8 < old(self).slot_values().len(),
        ensures
            final(self).wf(),
            final(self).slot_values() == old(self).slot_values().update(offset as int / 8, value),
            final(self).tables_at() == old(self).tables_at(),
            final(self).funcs_at() == old(self).funcs_at(),
            final(self).imports_at() == old(self).imports_at(),
            final(self).globs_at() == old(self).globs_at(),
    {
        self.slots.set(offset / 8, value);
    }

    /// Sets the address of a heap.
    pub fn set_heap(&mut self, heap_ptr: u64, idx: HeapIndex)
        requires
            old(self).wf(),
            idx.pos() < old(self).slot_values().len(),
        ensures
            final(self).wf(),
            final(self).same_offsets(*old(self)),
            final(self).slot_values().len() == old(self).slot_values().len(),
            final(self).slot_values() == old(self).slot_values().update(idx.pos() as int, heap_ptr),
    {
        let offset = idx.index() * PTR_SIZE;
        self.write_at(heap_ptr, offset);
    }

    /// Sets the address and the bound of a table.
    pub fn set_table(&mut self, table_ptr: u64, bound: u64, idx: TableIndex)
        requires
            old(self).wf(),
            old(self).tables_at() / 8 + 2 * (idx.pos() as int) + 1 < old(self).slot_values().len(),
        ensures
            final(self).wf(),
            final(self).same_offsets(*old(self)),
            final(self).slot_values().len() == old(self).slot_values().len(),
            final(self).slot_values() == old(self).slot_values()
                .update(old(self).tables_at() / 8 + 2 * (idx.pos() as int), table_ptr)
                .update(old(self).tables_at() / 8 + 2 * (idx.pos() as int) + 1, bound),
    {
        let offset = self.table_offset + idx.index() * 2 * PTR_SIZE;
        self.write_at(table_ptr, offset);
        self.write_at(bound, offset + PTR_SIZE);
    }

    /// Sets the address of a function.
    pub fn set_func(&mut self, func_ptr: u64, idx: FuncIndex)
        requires
            old(self).wf(),
            old(self).funcs_at() / 8 + (idx.pos() as int) < old(self).slot_values().len(),
        ensures
            final(self).wf(),
            final(self).same_offsets(*old(self)),
            final(self).slot_values().len() == old(self).slot_values().len(),
            final(self).slot_values() == old(self).slot_values().update(old(self).funcs_at() / 8 + (idx.pos() as int), func_ptr),
    {
        let offset = self.func_offset + idx.index() * PTR_SIZE;
        self.write_at(func_ptr, offset);
    }

    /// Sets the VMContext address of an imported instance.
    pub fn set_import(&mut self, vmctx_ptr: u64, idx: ImportIndex)
        requires
            old(self).wf(),
            old(self).imports_at() / 8 + (idx.pos() as int) < old(self).slot_values().len(),
        ensures
            final(self).wf(),
            final(self).same_offsets(*old(self)),
            final(self).slot_values().len() == old(self).slot_values().len(),
            final(self).slot_values() == old(self).slot_values().update(old(self).imports_at() / 8 + (idx.pos() as int), vmctx_ptr),
    {
        let offset = self.import_offset + idx.index() * PTR_SIZE;
        self.write_at(vmctx_ptr, offset);
    }

    /// Sets the address of an imported global.
    pub fn set_glob_ptr(&mut self, glob_ptr: u64, idx: GlobIndex)
        requires
            old(self).wf(),
            old(self).globs_at() / 8 + (idx.pos() as int) < old(self).slot_values().len(),
        ensures
            final(self).wf(),
            final(self).same_offsets(*old(self)),
            final(self).slot_values().len() == old(self).slot_values().len(),
            final(self).slot_values() == old(self).slot_values().update(old(self).globs_at() / 8 + (idx.pos() as int), glob_ptr),
    {
        let offset = self.glob_offset + idx.index() * PTR_SIZE;
        self.write_at(glob_ptr, offset);
    }

    /// Sets the value of a global: 32 bits values are written in the lower half of the slot.
    pub fn set_glob_value(&mut self, value: GlobInit, idx: GlobIndex)
        requires
            old(self).wf(),
            old(self).globs_at() / 8 + (idx.pos() as int) < old(self).slot_values().len(),
        ensures
            final(self).wf(),
            final(self).same_offsets(*old(self)),
            final(self).slot_values().len() == old(self).slot_values().len(),
            final(self).slot_values() == old(self).slot_values().update(
                old(self).globs_at() / 8 + (idx.pos() as int),
                glob_slot(old(self).slot_values()[old(self).globs_at() / 8 + (idx.pos() as int)], value),
            ),
    {
        let offset = self.glob_offset + idx.index() * PTR_SIZE;
        let slot = self.slots[offset / 8];
        let new_slot = match value {
            GlobInit::I32(x) => (slot & 0xFFFF_FFFF_0000_0000u64) | (x as u32 as u64),
            GlobInit::I64(x) => x as u64,
            GlobInit::F32(x) => (slot & 0xFFFF_FFFF_0000_0000u64) | (x as u64),
            GlobInit::F64(x) => x,
        };
        self.write_at(new_slot, offset);
    }

    /// The byte offset, within the VMContext, of the slot of a global.
    pub fn get_global_ptr(&self, idx: GlobIndex) -> (r: usize)
        requires
            self.wf(),
            self.globs_at() / 8 + (idx.pos() as int) < self.slot_values().len(),
        ensures
            r == self.globs_at() + (idx.pos() as int) * 8,
    {
        self.glob_offset + idx.index() * PTR_SIZE
    }

    /// The address of the VMContext.
    pub fn as_ptr(&self) -> (r: usize)
        ensures
            r == self.spec_addr(),
    {
        self.addr
    }
}

} // verus!
