//! The fallback allocator.
//!
//! The fallback allocator is used by other more specialized allocators when they run out of
//! memory. It is a linked list allocator: it keeps the list of free regions, the most recently
//! freed first, and serves an allocation from the first region that can hold it. Allocation and
//! deallocation are O(n).
//!
//! Each free region must be able to hold a list node (16 bytes, aligned to 8 bytes), because the
//! list is stored inside the free regions themselves.

use vstd::prelude::*;
use crate::allocator::{
    align_up, align_up_spec, is_pow2, lemma_align_up_spec, lemma_pow2_divides, valid_layout, Layout,
};

verus! {

/// The size of a list node, the smallest size of a free region.
pub const LIST_NODE_SIZE: usize = 16;

/// The alignment of a list node, to which every free region is aligned.
pub const LIST_NODE_ALIGN: usize = 8;

/// A free region of memory: its start address and its size.
#[derive(Clone, Copy, PartialEq, Eq, Structural, Debug)]
pub struct ListNode {
    pub start: usize,
    pub size: usize,
}

/// A free region can hold a list node and ends within the address space.
pub open spec fn node_ok(n: ListNode) -> bool {
    &&& n.start % 8 == 0
    &&& n.size >= 16
    &&& n.start + n.size <= usize::MAX
}

/// The region `n` can serve `size` bytes aligned to `align`: the aligned block ends within the
/// region, and what remains after it is either nothing or can hold a list node.
pub open spec fn fits(n: ListNode, size: int, align: int) -> bool {
    let start = align_up_spec(n.start as int, align);
    let end = start + size;
    let region_end = n.start + n.size;
    &&& end <= region_end
    &&& (region_end - end == 0 || region_end - end >= 16)
}

/// The index of the first region, from `i` on, that can serve the request.
pub open spec fn first_fit_from(regions: Seq<ListNode>, size: int, align: int, i: int) -> Option<int>
    decreases regions.len() - i,
{
    if i < 0 || i >= regions.len() {
        None
    } else if fits(regions[i], size, align) {
        Some(i)
    } else {
        first_fit_from(regions, size, align, i + 1)
    }
}

/// The index of the first region that can serve the request.
pub open spec fn first_fit(regions: Seq<ListNode>, size: int, align: int) -> Option<int> {
    first_fit_from(regions, size, align, 0)
}

/// Every region can be aligned to `align` without leaving the address space.
pub open spec fn align_room(regions: Seq<ListNode>, align: int) -> bool {
    forall|i: int| 0 <= i < regions.len() ==> #[trigger] regions[i].start + align <= usize::MAX
}

/// The size and alignment that a request of the given layout takes: the alignment is at least
/// that of a list node, the size is a multiple of the alignment and can hold a list node.
pub open spec fn size_align_spec(size: int, align: int) -> (int, int) {
    let a = if align > 8 { align } else { 8 };
    let s = align_up_spec(size, a);
    (if s > 16 { s } else { 16 }, a)
}

/// A layout that the fallback allocator accepts: aligned to a list node, it is still valid.
pub open spec fn layout_ok(l: Layout) -> bool {
    let a = if l.spec_align() > 8 { l.spec_align() as int } else { 8 };
    valid_layout(l.spec_size() as int, a)
}

/// The free regions after an allocation of `size` bytes aligned to `align`, and the address
/// of the allocated block (0 where no region can serve it).
pub open spec fn alloc_outcome(regions: Seq<ListNode>, size: int, align: int) -> (
    Seq<ListNode>,
    usize,
) {
    match first_fit(regions, size, align) {
        None => (regions, 0),
        Some(i) => {
            let n = regions[i];
            let start = align_up_spec(n.start as int, align);
            let end = start + size;
            let excess = n.start + n.size - end;
            let rest = regions.remove(i);
            (
                if excess > 0 {
                    seq![ListNode { start: end as usize, size: excess as usize }] + rest
                } else {
                    rest
                },
                start as usize,
            )
        },
    }
}

impl ListNode {
    /// A free region of `size` bytes starting at `start`.
    pub fn new(start: usize, size: usize) -> (r: ListNode)
        ensures
            r == (ListNode { start, size }),
    {
        ListNode { start, size }
    }

    /// The first address of the region.
    pub fn start_addr(&self) -> (r: usize)
        ensures
            r == self.start,
    {
        self.start
    }

    /// The address just past the region.
    pub fn end_addr(&self) -> (r: usize)
        requires
            self.start + self.size <= usize::MAX,
        ensures
            r == self.start + self.size,
    {
        self.start + self.size
    }
}

/// A linked list allocator over free regions of memory.
pub struct FallbackAllocator {
    regions: Vec<ListNode>,
}

impl View for FallbackAllocator {
    type V = Seq<ListNode>;

    /// The free regions, the most recently freed first.
    closed spec fn view(&self) -> Seq<ListNode> {
        self.regions@
    }
}

impl FallbackAllocator {
    #[verifier::type_invariant]
    spec fn regions_ok(self) -> bool {
        forall|i: int| 0 <= i < self.regions@.len() ==> node_ok(#[trigger] self.regions@[i])
    }

    /// Every free region can hold a list node and ends within the address space.
    pub fn regions_are_ok(&self)
        ensures
            forall|i: int| 0 <= i < self@.len() ==> node_ok(#[trigger] self@[i]),
    {
        proof {
            use_type_invariant(self);
        }
    }

    /// Creates a new (uninitialized) allocator, with no free region.
    pub fn new() -> (r: Self)
        ensures
            r@ == Seq::<ListNode>::empty(),
    {
        FallbackAllocator { regions: Vec::new() }
    }

    /// Initializes the allocator with the given heap bounds: the heap becomes a free region.
    pub fn init(&mut self, heap_start: usize, heap_size: usize)
        requires
            heap_start % 8 == 0,
            heap_size >= 16,
            heap_start + heap_size <= usize::MAX,
        ensures
            final(self)@ == seq![ListNode { start: heap_start, size: heap_size }] + old(self)@,
    {
        self.add_free_region(heap_start, heap_size)
    }

    /// Adds the given memory to the front of the list.
    fn add_free_region(&mut self, addr: usize, size: usize)
        requires
            addr % 8 == 0,
            size >= 16,
            addr + size <= usize::MAX,
        ensures
            final(self)@ == seq![ListNode { start: addr, size }] + old(self)@,
    {
        proof {
            use_type_invariant(&*self);
        }
        let ghost old_regions = self.regions@;
        let mut regions: Vec<ListNode> = Vec::new();
        core::mem::swap(&mut regions, &mut self.regions);
        regions.insert(0, ListNode::new(addr, size));
        proof {
            assert(regions@ =~= seq![ListNode { start: addr, size }] + old_regions);
            assert forall|i: int| 0 <= i < regions@.len() implies node_ok(#[trigger] regions@[i]) by {
                if i > 0 {
                    assert(regions@[i] == old_regions[i - 1]);
                }
            }
        }
        self.regions = regions;
    }

    /// Tries to use the given region for an allocation with given size and alignment.
    ///
    /// Returns the allocation start address on success.
    fn alloc_from_region(region: &ListNode, size: usize, align: usize) -> (r: Result<usize, ()>)
        requires
            is_pow2(align as int),
            region.start + align <= usize::MAX,
            node_ok(*region),
        ensures
            r is Ok <==> fits(*region, size as int, align as int),
            r matches Ok(s) ==> s == align_up_spec(region.start as int, align as int),
    {
        let alloc_start = align_up(region.start_addr(), align);
        let alloc_end = match alloc_start.checked_add(size) {
            Some(e) => e,
            None => {
                return Err(());
            },
        };
        if alloc_end > region.end_addr() {
            return Err(());
        }
        let excess_size = region.end_addr() - alloc_end;
        if excess_size > 0 && excess_size < LIST_NODE_SIZE {
            return Err(());
        }
        Ok(alloc_start)
    }

    /// Looks for a free region with the given size and alignment and removes it from the list.
    ///
    /// Returns the region and the start address of the allocation in it.
    fn find_region(&mut self, size: usize, align: usize) -> (r: Option<(ListNode, usize)>)
        requires
            is_pow2(align as int),
            align_room(old(self)@, align as int),
        ensures
            match first_fit(old(self)@, size as int, align as int) {
                None => r is None && final(self)@ == old(self)@,
                Some(i) => {
                    &&& r == Some(
                        (old(self)@[i], align_up_spec(old(self)@[i].start as int, align as int) as usize),
                    )
                    &&& final(self)@ == old(self)@.remove(i)
                },
            },
    {
        proof {
            use_type_invariant(&*self);
        }
        let ghost regs = self.regions@;
        let mut i: usize = 0;
        while i < self.regions.len()
            invariant
                self.regions@ == regs,
                old(self)@ == regs,
                0 <= i <= regs.len(),
                is_pow2(align as int),
                align_room(regs, align as int),
                forall|j: int| 0 <= j < regs.len() ==> node_ok(#[trigger] regs[j]),
                first_fit(regs, size as int, align as int) == first_fit_from(
                    regs,
                    size as int,
                    align as int,
                    i as int,
                ),
            decreases regs.len() - i,
        {
            assert(regs[i as int].start + align <= usize::MAX);
            assert(node_ok(regs[i as int]));
            match Self::alloc_from_region(&self.regions[i], size, align) {
                Ok(alloc_start) => {
                    assert(first_fit_from(regs, size as int, align as int, i as int) == Some(
                        i as int,
                    ));
                    let mut regions: Vec<ListNode> = Vec::new();
                    core::mem::swap(&mut regions, &mut self.regions);
                    let region = regions.remove(i);
                    proof {
                        assert forall|j: int| 0 <= j < regions@.len() implies node_ok(
                            #[trigger] regions@[j],
                        ) by {
                            if j < i {
                                assert(regions@[j] == regs[j]);
                            } else {
                                assert(regions@[j] == regs[j + 1]);
                            }
                        }
                    }
                    self.regions = regions;
                    return Some((region, alloc_start));
                },
                Err(()) => {},
            }
            i = i + 1;
        }
        None
    }

    /// Adjusts the given layout so that the allocated block can also hold a list node.
    ///
    /// Returns the adjusted size and alignment.
    /// Whether every free region can be aligned to `align` without leaving the address space.
    pub fn has_align_room(&self, align: usize) -> (r: bool)
        ensures
            r == align_room(self@, align as int),
    {
        let mut i: usize = 0;
        while i < self.regions.len()
            invariant
                i <= self.regions@.len(),
                forall|j: int| 0 <= j < i ==> #[trigger] self.regions@[j].start + align <= usize::MAX,
            decreases self.regions@.len() - i,
        {
            if self.regions[i].start > usize::MAX - align {
                return false;
            }
            i = i + 1;
        }
        true
    }

    /// Whether the fallback allocator accepts the layout.
    pub fn layout_accepted(layout: &Layout) -> (r: bool)
        ensures
            r == layout_ok(*layout),
    {
        proof {
            assert(is_pow2(8)) by {
                reveal_with_fuel(is_pow2, 4);
            }
        }
        layout.align_to(LIST_NODE_ALIGN).is_some()
    }

    pub(crate) fn size_align(layout: Layout) -> (r: (usize, usize))
        requires
            layout_ok(layout),
        ensures
            r.0 == size_align_spec(layout.spec_size() as int, layout.spec_align() as int).0,
            r.1 == size_align_spec(layout.spec_size() as int, layout.spec_align() as int).1,
            is_pow2(r.1 as int),
            r.1 >= 8,
            r.0 >= 16,
            r.0 % 8 == 0,
    {
        proof {
            assert(is_pow2(8)) by {
                reveal_with_fuel(is_pow2, 4);
            }
        }
        let l = layout.align_to(LIST_NODE_ALIGN).unwrap().pad_to_align();
        let size = if l.size() > LIST_NODE_SIZE { l.size() } else { LIST_NODE_SIZE };
        proof {
            lemma_pow2_divides(8, l.spec_align() as int, l.spec_size() as int);
        }
        (size, l.align())
    }

    /// Allocates a block with the given layout; returns its address, or 0 where no free region
    /// can serve it.
    pub fn allocate(&mut self, layout: Layout) -> (r: usize)
        requires
            layout_ok(layout),
            align_room(old(self)@, size_align_spec(layout.spec_size() as int, layout.spec_align() as int).1),
        ensures
            ({
                let (size, align) = size_align_spec(
                    layout.spec_size() as int,
                    layout.spec_align() as int,
                );
                (final(self)@, r) == alloc_outcome(old(self)@, size, align)
            }),
    {
        let (size, align) = Self::size_align(layout);
        let ghost regs = self@;
        proof {
            use_type_invariant(&*self);
            lemma_first_fit_from(regs, size as int, align as int, 0);
        }
        match self.find_region(size, align) {
            Some((region, alloc_start)) => {
                proof {
                    let i = first_fit(regs, size as int, align as int)->0;
                    assert(region == regs[i]);
                    assert(node_ok(regs[i]));
                    assert(fits(regs[i], size as int, align as int));
                }
                let alloc_end = alloc_start + size;
                let excess_size = region.end_addr() - alloc_end;
                if excess_size > 0 {
                    proof {
                        assert(is_pow2(8)) by {
                            reveal_with_fuel(is_pow2, 4);
                        }
                        lemma_align_up_spec(region.start as int, align as int);
                        lemma_pow2_divides(8, align as int, alloc_start as int);
                        lemma_sum_multiple_of_8(alloc_start as int, size as int);
                    }
                    self.add_free_region(alloc_end, excess_size);
                }
                alloc_start
            },
            None => 0,
        }
    }

    /// Deallocates a block: it becomes the first free region.
    ///
    /// The address must be that of a block allocated with the same layout.
    pub fn dealloc(&mut self, ptr: usize, layout: Layout)
        requires
            layout_ok(layout),
            ptr % 8 == 0,
            ptr + size_align_spec(layout.spec_size() as int, layout.spec_align() as int).0
                <= usize::MAX,
        ensures
            final(self)@ == seq![
                ListNode {
                    start: ptr,
                    size: size_align_spec(layout.spec_size() as int, layout.spec_align() as int).0
                        as usize,
                },
            ] + old(self)@,
    {
        let (size, _) = Self::size_align(layout);
        self.add_free_region(ptr, size)
    }
}

/// The address ranges of two regions do not overlap.
pub open spec fn disjoint(a: ListNode, b: ListNode) -> bool {
    a.start + a.size <= b.start || b.start + b.size <= a.start
}

/// No two free regions overlap.
pub open spec fn pairwise_disjoint(regions: Seq<ListNode>) -> bool {
    forall|i: int, j: int| 0 <= i < regions.len() && 0 <= j < regions.len() && i != j ==> disjoint(#[trigger] regions[i], #[trigger] regions[j])
}

/// Where the free regions do not overlap, an allocation gives a block that overlaps none of the
/// regions left free, and these still do not overlap.
pub proof fn lemma_alloc_disjoint(regions: Seq<ListNode>, size: int, align: int)
    requires
        align > 0,
        size > 0,
        forall|j: int| 0 <= j < regions.len() ==> node_ok(#[trigger] regions[j]),
        pairwise_disjoint(regions),
        first_fit(regions, size, align) is Some,
    ensures
        ({
            let (regions2, r) = alloc_outcome(regions, size, align);
            &&& pairwise_disjoint(regions2)
            &&& forall|j: int| 0 <= j < regions2.len() ==> disjoint(
                ListNode { start: r, size: size as usize },
                #[trigger] regions2[j],
            )
        }),
{
    lemma_first_fit_from(regions, size, align, 0);
    let i = first_fit(regions, size, align)->0;
    let n = regions[i];
    lemma_align_up_spec(n.start as int, align);
    let start = align_up_spec(n.start as int, align);
    let end = start + size;
    assert(node_ok(n));
    assert(n.start <= start && end <= n.start + n.size);
    let rest = regions.remove(i);
    assert forall|j: int| 0 <= j < rest.len() implies disjoint(n, #[trigger] rest[j]) by {
        if j < i {
            assert(rest[j] == regions[j]);
        } else {
            assert(rest[j] == regions[j + 1]);
        }
    }
    assert(pairwise_disjoint(rest)) by {
        assert forall|a: int, b: int| 0 <= a < rest.len() && 0 <= b < rest.len() && a != b implies disjoint(
            #[trigger] rest[a], #[trigger] rest[b]) by {
            let a2 = if a < i { a } else { a + 1 };
            let b2 = if b < i { b } else { b + 1 };
            assert(rest[a] == regions[a2]);
            assert(rest[b] == regions[b2]);
        }
    }
    let excess = n.start + n.size - end;
    if excess > 0 {
        let e = ListNode { start: end as usize, size: excess as usize };
        let regions2 = seq![e] + rest;
        assert forall|a: int, b: int| 0 <= a < regions2.len() && 0 <= b < regions2.len() && a != b implies disjoint(
            #[trigger] regions2[a], #[trigger] regions2[b]) by {
            if a > 0 && b > 0 {
                assert(regions2[a] == rest[a - 1]);
                assert(regions2[b] == rest[b - 1]);
            } else if a == 0 {
                assert(regions2[b] == rest[b - 1]);
                assert(disjoint(n, rest[b - 1]));
            } else {
                assert(regions2[a] == rest[a - 1]);
                assert(disjoint(n, rest[a - 1]));
            }
        }
        assert forall|j: int| 0 <= j < regions2.len() implies disjoint(
            ListNode { start: start as usize, size: size as usize }, #[trigger] regions2[j]) by {
            if j > 0 {
                assert(regions2[j] == rest[j - 1]);
                assert(disjoint(n, rest[j - 1]));
            }
        }
    } else {
        assert forall|j: int| 0 <= j < rest.len() implies disjoint(
            ListNode { start: start as usize, size: size as usize }, #[trigger] rest[j]) by {
            assert(disjoint(n, rest[j]));
        }
    }
}

/// Where the free regions do not overlap, freeing a block that overlaps none of them leaves
/// free regions that do not overlap.
pub proof fn lemma_dealloc_disjoint(regions: Seq<ListNode>, block: ListNode)
    requires
        pairwise_disjoint(regions),
        forall|j: int| 0 <= j < regions.len() ==> disjoint(block, #[trigger] regions[j]),
    ensures
        pairwise_disjoint(seq![block] + regions),
{
    let r2 = seq![block] + regions;
    assert forall|a: int, b: int| 0 <= a < r2.len() && 0 <= b < r2.len() && a != b implies disjoint(
        #[trigger] r2[a], #[trigger] r2[b]) by {
        if a > 0 {
            assert(r2[a] == regions[a - 1]);
        }
        if b > 0 {
            assert(r2[b] == regions[b - 1]);
        }
    }
}

/// Region `a` lies within region `n`.
pub open spec fn within(a: ListNode, n: ListNode) -> bool {
    n.start <= a.start && a.start + a.size <= n.start + n.size
}

/// Regions that each lie within one of regions that do not overlap do not overlap, except
/// perhaps two that lie within the same one.
proof fn lemma_refine_disjoint(old: Seq<ListNode>, new: Seq<ListNode>, f: spec_fn(int) -> int)
    requires
        pairwise_disjoint(old),
        forall|a: int| 0 <= a < new.len() ==> 0 <= #[trigger] f(a) < old.len() && within(new[a], old[f(a)]),
        forall|a: int, b: int| 0 <= a < new.len() && 0 <= b < new.len() && a != b && #[trigger] f(a) == #[trigger] f(b)
            ==> disjoint(new[a], new[b]),
    ensures
        pairwise_disjoint(new),
{
    assert forall|a: int, b: int| 0 <= a < new.len() && 0 <= b < new.len() && a != b implies disjoint(
        #[trigger] new[a], #[trigger] new[b]) by {
        if f(a) != f(b) {
            assert(disjoint(old[f(a)], old[f(b)]));
        }
    }
}

/// Over a whole history of allocations and frees, the free regions and the blocks in use
/// never overlap: an allocation keeps them apart, adding its block to those in use.
pub proof fn lemma_alloc_keeps_apart(regions: Seq<ListNode>, live: Seq<ListNode>, size: int, align: int)
    requires
        align > 0,
        size > 0,
        forall|j: int| 0 <= j < regions.len() ==> node_ok(#[trigger] regions[j]),
        pairwise_disjoint(regions + live),
        first_fit(regions, size, align) is Some,
    ensures
        ({
            let (regions2, p) = alloc_outcome(regions, size, align);
            pairwise_disjoint(regions2 + live.push(ListNode { start: p, size: size as usize }))
        }),
{
    let old = regions + live;
    assert(pairwise_disjoint(regions)) by {
        assert forall|a: int, b: int| 0 <= a < regions.len() && 0 <= b < regions.len() && a != b implies disjoint(
            #[trigger] regions[a], #[trigger] regions[b]) by {
            assert(old[a] == regions[a] && old[b] == regions[b]);
        }
    }
    lemma_alloc_disjoint(regions, size, align);
    lemma_alloc_within_free_region(regions, size, align);
    lemma_first_fit_from(regions, size, align, 0);
    let i = first_fit(regions, size, align)->0;
    let n = regions[i];
    lemma_align_up_spec(n.start as int, align);
    let (regions2, p) = alloc_outcome(regions, size, align);
    let block = ListNode { start: p, size: size as usize };
    let new = regions2 + live.push(block);
    let rl = regions.len() as int;
    let ll = live.len() as int;
    let start = align_up_spec(n.start as int, align);
    let end = start + size;
    let excess = n.start + n.size - end;
    let rest = regions.remove(i);
    assert(within(block, n));
    if excess > 0 {
        let f = |a: int| if a == 0 { i } else if a < rl { if a - 1 < i { a - 1 } else { a } } else if a < rl + ll { a } else { i };
        assert forall|a: int| 0 <= a < new.len() implies 0 <= #[trigger] f(a) < old.len() && within(new[a], old[f(a)]) by {
            if a == 0 {
                assert(new[a] == regions2[0]);
            } else if a < rl {
                assert(new[a] == rest[a - 1]);
                if a - 1 < i {
                    assert(rest[a - 1] == regions[a - 1]);
                } else {
                    assert(rest[a - 1] == regions[a]);
                }
            } else if a < rl + ll {
                assert(new[a] == live[a - rl]);
                assert(old[a] == live[a - rl]);
            } else {
                assert(new[a] == block);
            }
        }
        assert forall|a: int, b: int| 0 <= a < new.len() && 0 <= b < new.len() && a != b && #[trigger] f(a) == #[trigger] f(b)
            implies disjoint(new[a], new[b]) by {
            if a == 0 || b == 0 {
                assert(new[0] == regions2[0]);
                assert(disjoint(block, regions2[0]));
            }
        }
        lemma_refine_disjoint(old, new, f);
    } else {
        let f = |a: int| if a < rl - 1 { if a < i { a } else { a + 1 } } else if a < rl - 1 + ll { a + 1 } else { i };
        assert forall|a: int| 0 <= a < new.len() implies 0 <= #[trigger] f(a) < old.len() && within(new[a], old[f(a)]) by {
            if a < rl - 1 {
                assert(new[a] == rest[a]);
                if a < i {
                    assert(rest[a] == regions[a]);
                } else {
                    assert(rest[a] == regions[a + 1]);
                }
            } else if a < rl - 1 + ll {
                assert(new[a] == live[a - (rl - 1)]);
                assert(old[a + 1] == live[a - (rl - 1)]);
            } else {
                assert(new[a] == block);
            }
        }
        lemma_refine_disjoint(old, new, f);
    }
}

/// Over a whole history of allocations and frees, the free regions and the blocks in use
/// never overlap: freeing a block in use keeps them apart, moving the block to the free regions.
pub proof fn lemma_dealloc_keeps_apart(regions: Seq<ListNode>, live: Seq<ListNode>, k: int)
    requires
        pairwise_disjoint(regions + live),
        0 <= k < live.len(),
    ensures
        pairwise_disjoint((seq![live[k]] + regions) + live.remove(k)),
{
    let old = regions + live;
    let new = (seq![live[k]] + regions) + live.remove(k);
    let rl = regions.len() as int;
    let f = |a: int| if a == 0 { rl + k } else if a <= rl { a - 1 } else if a - rl - 1 < k { a - 1 } else { a };
    assert forall|a: int| 0 <= a < new.len() implies 0 <= #[trigger] f(a) < old.len() && within(new[a], old[f(a)]) by {
        if a == 0 {
            assert(new[a] == live[k]);
        } else if a <= rl {
            assert(new[a] == regions[a - 1]);
        } else if a - rl - 1 < k {
            assert(new[a] == live[a - rl - 1]);
        } else {
            assert(new[a] == live[a - rl]);
        }
    }
    lemma_refine_disjoint(old, new, f);
}

/// Freeing a block and then allocating the same layout gives the block back, and leaves the
/// free regions as they were.
pub proof fn lemma_dealloc_then_alloc(regions: Seq<ListNode>, ptr: usize, size: int, align: int)
    requires
        align > 0,
        size >= 0,
        (ptr as int) % align == 0,
        ptr + size <= usize::MAX,
    ensures
        alloc_outcome(
            seq![ListNode { start: ptr, size: size as usize }] + regions,
            size,
            align,
        ) == (regions, ptr),
{
    let n = ListNode { start: ptr, size: size as usize };
    let regs = seq![n] + regions;
    assert(regs[0] == n);
    assert(fits(n, size, align));
    assert(first_fit(regs, size, align) == Some(0int));
    assert(regs.remove(0) =~= regions);
}

/// An allocation that a free region serves, then the freeing of the block, then the same
/// allocation again: the second allocation gives the same block, and the free regions are as
/// after the first.
pub proof fn lemma_alloc_free_alloc(regions: Seq<ListNode>, size: int, align: int)
    requires
        align > 0,
        size >= 0,
        forall|j: int| 0 <= j < regions.len() ==> node_ok(#[trigger] regions[j]),
        first_fit(regions, size, align) is Some,
    ensures
        ({
            let (regions2, p) = alloc_outcome(regions, size, align);
            alloc_outcome(seq![ListNode { start: p, size: size as usize }] + regions2, size, align) == (regions2, p)
        }),
{
    lemma_alloc_within_free_region(regions, size, align);
    let (regions2, p) = alloc_outcome(regions, size, align);
    let i = first_fit(regions, size, align)->0;
    assert(node_ok(regions[i]));
    lemma_dealloc_then_alloc(regions2, p, size, align);
}

/// An allocation served from a free region lies within that region, at an address aligned to
/// the requested alignment, and the rest of the region stays free.
pub proof fn lemma_alloc_within_free_region(regions: Seq<ListNode>, size: int, align: int)
    requires
        align > 0,
        size >= 0,
        forall|j: int| 0 <= j < regions.len() ==> node_ok(#[trigger] regions[j]),
        first_fit(regions, size, align) is Some,
    ensures
        ({
            let i = first_fit(regions, size, align)->0;
            let (regions2, r) = alloc_outcome(regions, size, align);
            &&& 0 <= i < regions.len()
            &&& (r as int) % align == 0
            &&& regions[i].start <= r
            &&& r + size <= regions[i].start + regions[i].size
            &&& regions2.len() >= regions.len() - 1
        }),
{
    lemma_first_fit_from(regions, size, align, 0);
    let i = first_fit(regions, size, align)->0;
    lemma_align_up_spec(regions[i].start as int, align);
}

/// The region that `first_fit_from` finds, if any, is at or after `i` and can serve the request.
proof fn lemma_first_fit_from(regions: Seq<ListNode>, size: int, align: int, i: int)
    requires
        0 <= i,
    ensures
        first_fit_from(regions, size, align, i) matches Some(j) ==> i <= j < regions.len() && fits(
            regions[j],
            size,
            align,
        ),
    decreases regions.len() - i,
{
    if i < regions.len() && !fits(regions[i], size, align) {
        lemma_first_fit_from(regions, size, align, i + 1);
    }
}

proof fn lemma_sum_multiple_of_8(x: int, y: int)
    requires
        x % 8 == 0,
        y % 8 == 0,
    ensures
        (x + y) % 8 == 0,
{
}

} // verus!
