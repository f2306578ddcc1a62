//! The global allocator.
//!
//! The global allocator is a fixed-size block allocator: it keeps lists of free blocks of fixed
//! sizes for fast allocations and deallocations, and falls back on the fallback allocator for
//! larger requests, or when a list is empty.
//!
//! The block sizes are powers of two, from 8 to 2048 bytes, and each block is aligned to its
//! size.

use vstd::prelude::*;
use crate::allocator::{is_pow2, valid_layout, Layout};
use crate::fallback::{
    align_room, alloc_outcome, fits, first_fit, first_fit_from, layout_ok, size_align_spec,
    FallbackAllocator, ListNode,
};

verus! {

/// The number of block sizes.
pub const NB_BLOCK_KINDS: usize = 9;

/// The block sizes.
#[derive(Clone, Copy, PartialEq, Eq, Structural, Debug)]
pub enum BlockKind {
    Block8,
    Block16,
    Block32,
    Block64,
    Block128,
    Block256,
    Block512,
    Block1024,
    Block2048,
}

impl BlockKind {
    /// The size of the block, which is also its alignment.
    pub open spec fn spec_size(self) -> usize {
        match self {
            BlockKind::Block8 => 8,
            BlockKind::Block16 => 16,
            BlockKind::Block32 => 32,
            BlockKind::Block64 => 64,
            BlockKind::Block128 => 128,
            BlockKind::Block256 => 256,
            BlockKind::Block512 => 512,
            BlockKind::Block1024 => 1024,
            BlockKind::Block2048 => 2048,
        }
    }

    /// The position of the free list of the blocks of this size.
    pub open spec fn spec_index(self) -> int {
        match self {
            BlockKind::Block8 => 0,
            BlockKind::Block16 => 1,
            BlockKind::Block32 => 2,
            BlockKind::Block64 => 3,
            BlockKind::Block128 => 4,
            BlockKind::Block256 => 5,
            BlockKind::Block512 => 6,
            BlockKind::Block1024 => 7,
            BlockKind::Block2048 => 8,
        }
    }

    /// Returns the size of the block.
    pub fn size(self) -> (r: usize)
        ensures
            r == self.spec_size(),
    {
        match self {
            BlockKind::Block8 => 8,
            BlockKind::Block16 => 16,
            BlockKind::Block32 => 32,
            BlockKind::Block64 => 64,
            BlockKind::Block128 => 128,
            BlockKind::Block256 => 256,
            BlockKind::Block512 => 512,
            BlockKind::Block1024 => 1024,
            BlockKind::Block2048 => 2048,
        }
    }

    /// Returns the alignment of the block, equal to its size.
    pub fn align(self) -> (r: usize)
        ensures
            r == self.spec_size(),
    {
        self.size()
    }

    /// Returns the position of the free list of the blocks of this size.
    pub fn index(self) -> (r: usize)
        ensures
            r == self.spec_index(),
    {
        match self {
            BlockKind::Block8 => 0,
            BlockKind::Block16 => 1,
            BlockKind::Block32 => 2,
            BlockKind::Block64 => 3,
            BlockKind::Block128 => 4,
            BlockKind::Block256 => 5,
            BlockKind::Block512 => 6,
            BlockKind::Block1024 => 7,
            BlockKind::Block2048 => 8,
        }
    }
}

/// Each block size is a power of two, and a valid layout aligned to itself.
pub proof fn lemma_block_layout_valid(k: BlockKind)
    ensures
        is_pow2(k.spec_size() as int),
        valid_layout(k.spec_size() as int, k.spec_size() as int),
        8 <= k.spec_size() <= 2048,
{
    reveal_with_fuel(is_pow2, 12);
    let m = isize::MAX as int;
    let s = k.spec_size() as int;
    assert(m % s < s);
}

/// The number of bytes that a block must hold for a layout: the larger of its size and its
/// alignment.
pub open spec fn required_size(l: Layout) -> int {
    if l.spec_size() > l.spec_align() {
        l.spec_size() as int
    } else {
        l.spec_align() as int
    }
}

/// The smallest block that holds `required` bytes, if any.
pub open spec fn kind_for(required: int) -> Option<BlockKind> {
    if required <= 8 {
        Some(BlockKind::Block8)
    } else if required <= 16 {
        Some(BlockKind::Block16)
    } else if required <= 32 {
        Some(BlockKind::Block32)
    } else if required <= 64 {
        Some(BlockKind::Block64)
    } else if required <= 128 {
        Some(BlockKind::Block128)
    } else if required <= 256 {
        Some(BlockKind::Block256)
    } else if required <= 512 {
        Some(BlockKind::Block512)
    } else if required <= 1024 {
        Some(BlockKind::Block1024)
    } else if required <= 2048 {
        Some(BlockKind::Block2048)
    } else {
        None
    }
}

/// The block chosen for a layout holds it: its size, which is also its alignment, is at least
/// the layout's size and at least the layout's alignment, and it is the smallest such block (half
/// of it would not do, but for the smallest kind). Layouts that need more than 2048 bytes get no
/// block.
pub proof fn lemma_block_holds_layout(l: Layout)
    ensures
        kind_for(required_size(l)) matches Some(k) ==> {
            &&& l.spec_size() <= k.spec_size()
            &&& l.spec_align() <= k.spec_size()
            &&& (k == BlockKind::Block8 || k.spec_size() < 2 * l.spec_size() || k.spec_size() < 2 * l.spec_align())
        },
        kind_for(required_size(l)) is None <==> (l.spec_size() > 2048 || l.spec_align() > 2048),
{
}

/// Where a request for a layout is served from: the fallback allocator serves blocks of a
/// kind with a request aligned to the block size.
pub open spec fn fallback_request(l: Layout) -> (int, int) {
    match kind_for(required_size(l)) {
        Some(k) => size_align_spec(k.spec_size() as int, k.spec_size() as int),
        None => size_align_spec(l.spec_size() as int, l.spec_align() as int),
    }
}

/// The state of the global allocator: the free lists (the head of each last) and the free
/// regions of the fallback allocator.
pub type AllocatorView = (Seq<Seq<usize>>, Seq<ListNode>);

/// The state after an allocation of the given layout, and the address of the allocated block
/// (0 where it could not be served).
pub open spec fn global_alloc_outcome(s: AllocatorView, l: Layout) -> (AllocatorView, usize) {
    let (lists, regions) = s;
    match kind_for(required_size(l)) {
        Some(k) if lists[k.spec_index()].len() > 0 => {
            let list = lists[k.spec_index()];
            ((lists.update(k.spec_index(), list.drop_last()), regions), list.last())
        },
        _ => {
            let (size, align) = fallback_request(l);
            let (regions2, p) = alloc_outcome(regions, size, align);
            ((lists, regions2), p)
        },
    }
}

/// The state after the deallocation of the block at `ptr` of the given layout.
pub open spec fn global_dealloc_outcome(s: AllocatorView, ptr: usize, l: Layout) -> AllocatorView {
    let (lists, regions) = s;
    match kind_for(required_size(l)) {
        Some(k) => (lists.update(k.spec_index(), lists[k.spec_index()].push(ptr)), regions),
        None => (
            lists,
            seq![
                ListNode {
                    start: ptr,
                    size: size_align_spec(l.spec_size() as int, l.spec_align() as int).0 as usize,
                },
            ] + regions,
        ),
    }
}

/// An allocation of the layout can be served without leaving the address space.
pub open spec fn can_alloc(s: AllocatorView, l: Layout) -> bool {
    let (lists, regions) = s;
    match kind_for(required_size(l)) {
        Some(k) => lists[k.spec_index()].len() > 0 || align_room(regions, fallback_request(l).1),
        None => layout_ok(l) && align_room(regions, fallback_request(l).1),
    }
}

/// A deallocation of the block at `ptr` with the layout is accepted: blocks of a kind are
/// always accepted, other blocks must be able to become a free region.
pub open spec fn can_dealloc(ptr: usize, l: Layout) -> bool {
    match kind_for(required_size(l)) {
        Some(_) => true,
        None => {
            &&& layout_ok(l)
            &&& ptr % 8 == 0
            &&& ptr + size_align_spec(l.spec_size() as int, l.spec_align() as int).0 <= usize::MAX
        },
    }
}

/// Returns the kind of block that serves the layout, or an error where the layout is too large
/// for every kind.
pub fn get_head(layout: &Layout) -> (r: Result<BlockKind, ()>)
    ensures
        r == (match kind_for(required_size(*layout)) {
            Some(k) => Ok(k),
            None => Err(()),
        }),
        r matches Ok(k) ==> layout.spec_size() <= k.spec_size() && layout.spec_align() <= k.spec_size(),
        r is Err <==> (layout.spec_size() > 2048 || layout.spec_align() > 2048),
{
    let size = layout.size();
    let align = layout.align();
    let required = if size > align { size } else { align };
    if required <= 8 {
        Ok(BlockKind::Block8)
    } else if required <= 16 {
        Ok(BlockKind::Block16)
    } else if required <= 32 {
        Ok(BlockKind::Block32)
    } else if required <= 64 {
        Ok(BlockKind::Block64)
    } else if required <= 128 {
        Ok(BlockKind::Block128)
    } else if required <= 256 {
        Ok(BlockKind::Block256)
    } else if required <= 512 {
        Ok(BlockKind::Block512)
    } else if required <= 1024 {
        Ok(BlockKind::Block1024)
    } else if required <= 2048 {
        Ok(BlockKind::Block2048)
    } else {
        Err(())
    }
}

/// A fixed-size block allocator backed by a fallback allocator.
pub struct GlobalAllocator {
    lists: Vec<Vec<usize>>,
    fallback_allocator: FallbackAllocator,
}

impl View for GlobalAllocator {
    type V = AllocatorView;

    closed spec fn view(&self) -> AllocatorView {
        (Seq::new(self.lists@.len(), |i: int| self.lists@[i]@), self.fallback_allocator@)
    }
}

impl GlobalAllocator {
    #[verifier::type_invariant]
    spec fn nb_lists(self) -> bool {
        self.lists@.len() == NB_BLOCK_KINDS
    }

    /// There is one free list per block size.
    pub fn has_all_lists(&self)
        ensures
            self@.0.len() == NB_BLOCK_KINDS,
    {
        proof {
            use_type_invariant(self);
        }
    }

    /// Creates a new (uninitialized) allocator: every free list is empty, and so is the
    /// fallback allocator.
    pub fn new() -> (r: Self)
        ensures
            r@.0 == Seq::new(NB_BLOCK_KINDS as nat, |i: int| Seq::<usize>::empty()),
            r@.1 == Seq::<ListNode>::empty(),
    {
        let mut lists: Vec<Vec<usize>> = Vec::new();
        let mut i: usize = 0;
        while i < NB_BLOCK_KINDS
            invariant
                i <= NB_BLOCK_KINDS,
                lists@.len() == i,
                forall|j: int| 0 <= j < i ==> (#[trigger] lists@[j])@ == Seq::<usize>::empty(),
            decreases NB_BLOCK_KINDS - i,
        {
            lists.push(Vec::new());
            i = i + 1;
        }
        let r = GlobalAllocator { lists, fallback_allocator: FallbackAllocator::new() };
        assert(r@.0 =~= Seq::new(NB_BLOCK_KINDS as nat, |i: int| Seq::<usize>::empty()));
        r
    }

    /// Initializes the allocator with the given heap bounds, handed to the fallback allocator.
    pub fn init(&mut self, heap_start: usize, heap_size: usize)
        requires
            heap_start % 8 == 0,
            heap_size >= 16,
            heap_start + heap_size <= usize::MAX,
        ensures
            final(self)@.0 == old(self)@.0,
            final(self)@.1 == seq![ListNode { start: heap_start, size: heap_size }] + old(self)@.1,
    {
        proof {
            use_type_invariant(&*self);
        }
        let mut fallback = FallbackAllocator::new();
        core::mem::swap(&mut fallback, &mut self.fallback_allocator);
        fallback.init(heap_start, heap_size);
        self.fallback_allocator = fallback;
    }

    /// Allocates a block of the given layout: from the free list of the smallest block that
    /// holds it, or from the fallback allocator where that list is empty or no block holds it.
    ///
    /// Returns the address of the block, or 0 where it could not be allocated.
    pub fn allocate(&mut self, layout: Layout) -> (r: usize)
        requires
            can_alloc(old(self)@, layout),
        ensures
            (final(self)@, r) == global_alloc_outcome(old(self)@, layout),
    {
        proof {
            use_type_invariant(&*self);
        }
        let ghost s = self@;
        match get_head(&layout) {
            Ok(kind) => {
                let k = kind.index();
                if self.lists[k].len() > 0 {
                    let p = self.lists[k].pop().unwrap();
                    proof {
                        assert(self@.0 =~= s.0.update(k as int, s.0[k as int].drop_last()));
                    }
                    p
                } else {
                    proof {
                        lemma_block_layout_valid(kind);
                    }
                    let block = Layout::from_size_align(kind.size(), kind.align()).unwrap();
                    let p = self.fallback_allocate(block);
                    p
                }
            },
            Err(()) => self.fallback_allocate(layout),
        }
    }

    /// Allocates a block from the fallback allocator.
    /// Whether an allocation of the layout can be served without leaving the address space.
    pub fn can_allocate(&self, layout: &Layout) -> (r: bool)
        ensures
            r == can_alloc(self@, *layout),
    {
        proof {
            use_type_invariant(self);
        }
        match get_head(layout) {
            Ok(kind) => {
                proof {
                    lemma_block_layout_valid(kind);
                    assert(self@.0[kind.spec_index()] == self.lists@[kind.spec_index()]@);
                }
                if self.lists[kind.index()].len() > 0 {
                    true
                } else {
                    self.fallback_allocator.has_align_room(kind.align())
                }
            },
            Err(()) => {
                if !FallbackAllocator::layout_accepted(layout) {
                    return false;
                }
                let (_, align) = FallbackAllocator::size_align(*layout);
                self.fallback_allocator.has_align_room(align)
            },
        }
    }

    fn fallback_allocate(&mut self, layout: Layout) -> (r: usize)
        requires
            layout_ok(layout),
            align_room(
                old(self)@.1,
                size_align_spec(layout.spec_size() as int, layout.spec_align() as int).1,
            ),
        ensures
            ({
                let (size, align) = size_align_spec(
                    layout.spec_size() as int,
                    layout.spec_align() as int,
                );
                &&& final(self)@.0 == old(self)@.0
                &&& (final(self)@.1, r) == alloc_outcome(old(self)@.1, size, align)
            }),
    {
        proof {
            use_type_invariant(&*self);
        }
        let mut fallback = FallbackAllocator::new();
        core::mem::swap(&mut fallback, &mut self.fallback_allocator);
        let p = fallback.allocate(layout);
        self.fallback_allocator = fallback;
        p
    }

    /// Deallocates a block: a block of a kind goes to the head of its free list, another goes
    /// back to the fallback allocator.
    ///
    /// The address must be that of a block allocated with the same layout.
    pub fn dealloc(&mut self, ptr: usize, layout: Layout)
        requires
            can_dealloc(ptr, layout),
        ensures
            final(self)@ == global_dealloc_outcome(old(self)@, ptr, layout),
    {
        proof {
            use_type_invariant(&*self);
        }
        let ghost s = self@;
        match get_head(&layout) {
            Ok(kind) => {
                let k = kind.index();
                self.lists[k].push(ptr);
                proof {
                    assert(self@.0 =~= s.0.update(k as int, s.0[k as int].push(ptr)));
                }
            },
            Err(()) => {
                let mut fallback = FallbackAllocator::new();
                core::mem::swap(&mut fallback, &mut self.fallback_allocator);
                fallback.dealloc(ptr, layout);
                self.fallback_allocator = fallback;
            },
        }
    }
}

/// Freeing a block and then allocating the same layout gives the block back, and leaves the
/// allocator as it was.
///
/// A block that no free list holds must be aligned as the fallback allocator aligns it.
pub proof fn lemma_dealloc_then_alloc(s: AllocatorView, ptr: usize, l: Layout)
    requires
        s.0.len() == NB_BLOCK_KINDS,
        can_dealloc(ptr, l),
        kind_for(required_size(l)) is None ==> (ptr as int) % fallback_request(l).1 == 0,
    ensures
        global_alloc_outcome(global_dealloc_outcome(s, ptr, l), l) == (s, ptr),
{
    let (lists, regions) = s;
    match kind_for(required_size(l)) {
        Some(k) => {
            let i = k.spec_index();
            let s2 = global_dealloc_outcome(s, ptr, l);
            assert(s2.0[i] == lists[i].push(ptr));
            assert(lists[i].push(ptr).drop_last() =~= lists[i]);
            assert(s2.0.update(i, s2.0[i].drop_last()) =~= lists);
        },
        None => {
            let (size, align) = size_align_spec(l.spec_size() as int, l.spec_align() as int);
            crate::fallback::lemma_dealloc_then_alloc(regions, ptr, size, align);
        },
    }
}

/// A block of a size class, once freed, is the next block that an allocation of the same size
/// class gets: allocating, freeing the block, then allocating any layout of the same class gives
/// the same block, and leaves the allocator as after the first allocation.
pub proof fn lemma_alloc_free_alloc(s: AllocatorView, l: Layout, l2: Layout)
    requires
        s.0.len() == NB_BLOCK_KINDS,
        kind_for(required_size(l)) is Some,
        kind_for(required_size(l2)) == kind_for(required_size(l)),
    ensures
        ({
            let (s1, p) = global_alloc_outcome(s, l);
            global_alloc_outcome(global_dealloc_outcome(s1, p, l), l2) == (s1, p)
        }),
{
    let (s1, p) = global_alloc_outcome(s, l);
    let k = kind_for(required_size(l))->0;
    let i = k.spec_index();
    assert(s1.0.len() == NB_BLOCK_KINDS);
    let s2 = global_dealloc_outcome(s1, p, l);
    assert(s2.0[i] == s1.0[i].push(p));
    assert(s1.0[i].push(p).drop_last() =~= s1.0[i]);
    assert(s2.0.update(i, s2.0[i].drop_last()) =~= s1.0);
}

/// Whether a deallocation of the block at `ptr` with the layout is accepted.
pub fn can_deallocate(ptr: usize, layout: &Layout) -> (r: bool)
    ensures
        r == can_dealloc(ptr, *layout),
{
    match get_head(layout) {
        Ok(_) => true,
        Err(()) => {
            if !FallbackAllocator::layout_accepted(layout) {
                return false;
            }
            let (size, _) = FallbackAllocator::size_align(*layout);
            ptr % 8 == 0 && ptr <= usize::MAX - size
        },
    }
}

/// The blocks of each free list are aligned to the size of their class.
pub open spec fn lists_aligned(lists: Seq<Seq<usize>>) -> bool {
    forall|k: BlockKind, j: int| 0 <= j < lists[k.spec_index()].len()
        ==> (#[trigger] lists[k.spec_index()][j]) % k.spec_size() == 0
}

/// Every block of a size class is aligned to the size of the class: while the free lists hold
/// aligned blocks, an allocation of the class gives an aligned block (0 where none is left), and
/// the lists stay aligned.
pub proof fn lemma_class_alloc_aligned(s: AllocatorView, l: Layout)
    requires
        s.0.len() == NB_BLOCK_KINDS,
        lists_aligned(s.0),
        forall|j: int| 0 <= j < s.1.len() ==> crate::fallback::node_ok(#[trigger] s.1[j]),
        kind_for(required_size(l)) is Some,
    ensures
        ({
            let k = kind_for(required_size(l))->0;
            let (s1, p) = global_alloc_outcome(s, l);
            &&& p % k.spec_size() == 0
            &&& lists_aligned(s1.0)
        }),
{
    let k = kind_for(required_size(l))->0;
    let i = k.spec_index();
    let (lists, regions) = s;
    let (s1, p) = global_alloc_outcome(s, l);
    lemma_block_layout_valid(k);
    if lists[i].len() > 0 {
        assert(lists[i][lists[i].len() - 1] % k.spec_size() == 0);
        assert(p == lists[i].last());
        let l2 = lists.update(i, lists[i].drop_last());
        assert(s1.0 == l2);
        assert forall|k2: BlockKind, j: int| 0 <= j < l2[k2.spec_index()].len()
            implies (#[trigger] l2[k2.spec_index()][j]) % k2.spec_size() == 0 by {
            if k2.spec_index() == i {
                assert(l2[i][j] == lists[i][j]);
            }
        }
    } else {
        let (size, align) = fallback_request(l);
        assert(align == k.spec_size());
        assert(p == alloc_outcome(regions, size, align).1);
        if first_fit(regions, size, align) is Some {
            crate::fallback::lemma_alloc_within_free_region(regions, size, align);
            assert((alloc_outcome(regions, size, align).1 as int) % align == 0);
            assert((p as int) % (k.spec_size() as int) == 0);
        } else {
            assert(p == 0);
            assert(k.spec_size() >= 8);
            assert(0int % (k.spec_size() as int) == 0);
        }
        assert(s1.0 == lists);
        assert(p % k.spec_size() == 0);
    }
}

/// Freeing a block of a size class at an address aligned to the class keeps the free lists
/// aligned.
pub proof fn lemma_class_free_aligned(s: AllocatorView, ptr: usize, l: Layout)
    requires
        s.0.len() == NB_BLOCK_KINDS,
        lists_aligned(s.0),
        kind_for(required_size(l)) matches Some(k) && ptr % k.spec_size() == 0,
    ensures
        lists_aligned(global_dealloc_outcome(s, ptr, l).0),
{
    let k = kind_for(required_size(l))->0;
    let i = k.spec_index();
    let l2 = global_dealloc_outcome(s, ptr, l).0;
    assert forall|k2: BlockKind, j: int| 0 <= j < l2[k2.spec_index()].len()
        implies (#[trigger] l2[k2.spec_index()][j]) % k2.spec_size() == 0 by {
        if k2.spec_index() == i {
            if j < s.0[i].len() {
                assert(l2[i][j] == s.0[i][j]);
            }
        }
    }
}

} // verus!
