//! The kernel's WebAssembly runtime: the context of an instantiation, and the tables it
//! allocates.
//!
//! The heaps of an instance are kernel objects: the first table of external references that an
//! instance allocates is filled with handles to its heaps, so that the instance can pass them
//! to system calls.

use vstd::prelude::*;

use crate::abi::WasmType;
use crate::entity::VmaIndex;
use crate::kernel_objects::KoIndex;
use crate::syscalls::ExternRef;
use crate::types::RefType;

verus! {

/// A context passed to runtime methods during module instantiation.
pub struct InstantiationCtx {
    /// The owned heaps.
    heaps: Vec<VmaIndex>,
    /// Whether no table of external references was allocated yet.
    is_first_externref_table: bool,
}

/// The table entry of the handle of a heap.
pub open spec fn heap_entry(idx: VmaIndex) -> u64 {
    ExternRef::Vma(idx).spec_into_abi()
}

/// The entries of a new table of `size` entries: the handles of the heaps first, where the
/// table is filled, then invalid handles.
pub open spec fn table_entries(size: nat, heaps: Seq<VmaIndex>, fill: bool) -> Seq<u64> {
    Seq::new(
        size,
        |i: int|
            if fill && i < heaps.len() {
                heap_entry(heaps[i])
            } else {
                ExternRef::Invalid.spec_into_abi()
            },
    )
}

impl InstantiationCtx {
    /// The heaps allocated so far, in order.
    pub closed spec fn spec_heaps(self) -> Seq<VmaIndex> {
        self.heaps@
    }

    /// Whether no table of external references was allocated yet.
    pub closed spec fn spec_first_externref_table(self) -> bool {
        self.is_first_externref_table
    }

    /// Creates the context of a new instantiation.
    pub fn new() -> (r: Self)
        ensures
            r.spec_heaps() == Seq::<VmaIndex>::empty(),
            r.spec_first_externref_table(),
    {
        InstantiationCtx { heaps: Vec::new(), is_first_externref_table: true }
    }

    /// Records a heap allocated for the instance.
    pub fn push_heap(&mut self, heap: VmaIndex)
        ensures
            final(self).spec_heaps() == old(self).spec_heaps().push(heap),
            final(self).spec_first_externref_table() == old(self).spec_first_externref_table(),
    {
        self.heaps.push(heap);
    }

    /// Allocates a table of `max_size` entries, or `min_size` where there is no maximum.
    ///
    /// The first table of external references is filled with the handles of the heaps
    /// allocated so far (as many as fit); every other entry holds an invalid handle.
    pub fn alloc_table(&mut self, min_size: u32, max_size: Option<u32>, ty: RefType) -> (r: Vec<
        u64,
    >)
        ensures
            ({
                let size = match max_size {
                    Some(m) => m,
                    None => min_size,
                };
                let fill = old(self).spec_first_externref_table() && ty == RefType::ExternRef;
                &&& r@ == table_entries(size as nat, old(self).spec_heaps(), fill)
                &&& final(self).spec_heaps() == old(self).spec_heaps()
                &&& final(self).spec_first_externref_table() == (old(
                    self,
                ).spec_first_externref_table() && !fill)
            }),
    {
        let size = (if let Some(max_size) = max_size {
            max_size
        } else {
            min_size
        }) as usize;
        let invalid = ExternRef::Invalid.into_abi();
        let mut table = vec![invalid; size];
        let fill = self.is_first_externref_table && ty == RefType::ExternRef;
        if fill {
            self.is_first_externref_table = false;
            let mut idx: usize = 0;
            while idx < self.heaps.len() && idx < table.len()
                invariant
                    table@.len() == size,
                    0 <= idx <= size,
                    idx <= self.heaps@.len(),
                    forall|j: int|
                        0 <= j < idx ==> #[trigger] table@[j] == heap_entry(self.heaps@[j]),
                    forall|j: int| idx <= j < size ==> #[trigger] table@[j] == invalid,
                decreases size - idx,
            {
                let entry = self.heaps[idx].into_externref().into_abi();
                table.set(idx, entry);
                idx = idx + 1;
            }
        }
        assert(table@ =~= table_entries(size as nat, self.heaps@, fill));
        table
    }
}

} // verus!
