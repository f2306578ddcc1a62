//! Memory management: the map of the virtual address space, virtual memory areas, and the
//! allocation of physical frames.
//!
//! Virtual addresses follow the x86_64 rules: the 16 high bits of a canonical address copy its
//! bit 47.

use vstd::prelude::*;
use x86_64::structures::paging::frame::PhysFrame;
use x86_64::{PhysAddr, VirtAddr};

use crate::allocator::{align_up, align_up_spec, is_pow2};

verus! {

/// The size of a page.
pub const PAGE_SIZE: usize = 0x1000;

/// The number of entries of a page table.
pub const NB_PTE_ENTRIES: usize = 512;

/// The shift from the index of a level 4 page table entry to the virtual address it maps.
pub const L4_SHIFT: u64 = 39;

/// The address with bit 47 copied into the 16 high bits.
pub open spec fn sign_extend(a: u64) -> u64 {
    if (a >> 47u64) & 1 == 1 {
        a | 0xffff_0000_0000_0000
    } else {
        a & 0x0000_ffff_ffff_ffff
    }
}

/// The address is canonical: its 17 high bits are all zeros or all ones.
pub open spec fn canonical(a: u64) -> bool {
    (a >> 47u64) == 0 || (a >> 47u64) == 0x1ffff
}

/// An address that `VirtAddr::new` accepts: canonical, or with bit 47 set and the 16 high bits
/// clear (it is then sign extended).
pub open spec fn virt_addr_ok(a: u64) -> bool {
    canonical(a) || (a >> 47u64) == 1
}

/// `VirtAddr::new`: checks that the address is canonical or only lacks its sign extension, and
/// makes it canonical by copying bit 47 into the 16 high bits.
///
/// The call panics on other addresses, which `requires` leaves out.
#[verifier::external_body]
fn virt_addr_new(addr: u64) -> (r: u64)
    requires
        virt_addr_ok(addr),
    ensures
        r == sign_extend(addr),
{
    VirtAddr::new(addr).as_u64()
}

/// `VirtAddr + u64`: adds to the address and makes the sum canonical as `VirtAddr::new` does.
///
/// The call panics where the sum overflows or is not accepted by `VirtAddr::new`, which
/// `requires` leaves out.
#[verifier::external_body]
fn virt_addr_add(addr: u64, rhs: u64) -> (r: u64)
    requires
        canonical(addr),
        addr + rhs <= u64::MAX,
        virt_addr_ok((addr + rhs) as u64),
    ensures
        r == sign_extend((addr + rhs) as u64),
{
    (VirtAddr::new(addr) + rhs).as_u64()
}

/// `VirtAddr::align_up`: rounds the address up to a multiple of `align` (a power of two), then
/// copies bit 47 into the 16 high bits.
///
/// The call panics where the rounded address exceeds `u64::MAX`, which `requires` leaves out.
#[verifier::external_body]
fn virt_addr_align_up(addr: u64, align: u64) -> (r: u64)
    requires
        canonical(addr),
        is_pow2(align as int),
        align_up_spec(addr as int, align as int) <= u64::MAX,
    ensures
        r == sign_extend(align_up_spec(addr as int, align as int) as u64),
{
    VirtAddr::new(addr).align_up(align).as_u64()
}

/// `PhysFrame::containing_address(PhysAddr::new(addr))`: the start of the frame of 4 KiB that
/// holds the physical address.
///
/// `PhysAddr::new` panics where one of the bits 52 to 64 is set, which `requires` leaves out.
#[verifier::external_body]
fn phys_frame_containing(addr: u64) -> (r: u64)
    requires
        addr < 0x10_0000_0000_0000,
    ensures
        r == addr - addr % 4096,
{
    PhysFrame::<x86_64::structures::paging::Size4KiB>::containing_address(
        PhysAddr::new(addr),
    ).start_address().as_u64()
}

proof fn lemma_sign_extend_canonical(a: u64)
    ensures
        canonical(sign_extend(a)),
{
    assert(((a >> 47u64) & 1 == 1 ==> ((a | 0xffff_0000_0000_0000u64) >> 47u64) == 0x1ffff) && ((a
        >> 47u64) & 1 != 1 ==> ((a & 0x0000_ffff_ffff_ffffu64) >> 47u64) == 0)) by (bit_vector);
}

/// Making an address that `VirtAddr::new` accepts canonical never lowers it.
proof fn lemma_sign_extend_grows(a: u64)
    requires
        virt_addr_ok(a),
    ensures
        sign_extend(a) >= a,
{
    assert(((a >> 47u64) == 0 || (a >> 47u64) == 0x1ffff || (a >> 47u64) == 1) ==> (
        ((a >> 47u64) & 1 == 1 ==> (a | 0xffff_0000_0000_0000u64) >= a)
        && ((a >> 47u64) & 1 != 1 ==> (a & 0x0000_ffff_ffff_ffffu64) == a))) by (bit_vector);
}

/// Rounding a canonical address up by less than a page gives an address that `VirtAddr::new`
/// accepts.
proof fn lemma_align_up_canonical_ok(y: u64, z: u64)
    requires
        canonical(y),
        y <= z,
        z < y + 4096,
    ensures
        virt_addr_ok(z),
{
    assert(virt_addr_ok(z)) by (bit_vector)
        requires
            (y >> 47u64) == 0 || (y >> 47u64) == 0x1ffff,
            y <= z,
            z < y + 4096,
    ;
}

proof fn lemma_l4_address_ok(k: u64)
    requires
        k <= 511,
    ensures
        virt_addr_ok(k << 39u64),
        (k << 39u64) == k * 0x80_0000_0000,
{
    assert(k <= 511 ==> ((k << 39u64) >> 47u64) <= 1 && (k << 39u64) == k * 0x80_0000_0000)
        by (bit_vector);
}

// ——————————————————————————— Virtual Memory Map ——————————————————————————— //

/// The position of the last entry in use among the first `n` entries, or -1 where none is.
pub open spec fn last_used_before(used: Seq<bool>, n: int) -> int
    decreases n,
{
    if n <= 0 {
        -1
    } else if used[n - 1] {
        n - 1
    } else {
        last_used_before(used, n - 1)
    }
}

/// The position of the last entry in use, or -1 where none is.
pub open spec fn last_used(used: Seq<bool>) -> int {
    last_used_before(used, used.len() as int)
}

proof fn lemma_last_used_before(used: Seq<bool>, n: int)
    requires
        0 <= n <= used.len(),
    ensures
        -1 <= last_used_before(used, n) < n,
        last_used_before(used, n) >= 0 ==> used[last_used_before(used, n)],
        last_used_before(used, n) == -1 <==> forall|i: int| 0 <= i < n ==> !used[i],
    decreases n,
{
    if n > 0 {
        lemma_last_used_before(used, n - 1);
    }
}

/// A map of the used and available parts of an address space: addresses from the cursor up
/// to the end are available.
///
/// Addresses are never reused.
pub struct VirtualMemoryMap {
    /// The next available address.
    cursor: u64,
    /// The end of the available range.
    end_at: u64,
}

impl VirtualMemoryMap {
    #[verifier::type_invariant]
    spec fn addresses_canonical(self) -> bool {
        canonical(self.cursor) && canonical(self.end_at)
    }

    /// The next available address.
    pub closed spec fn spec_cursor(self) -> u64 {
        self.cursor
    }

    /// The end of the available range.
    pub closed spec fn spec_end_at(self) -> u64 {
        self.end_at
    }

    /// Returns the next available address.
    pub fn cursor(&self) -> (r: u64)
        ensures
            r == self.spec_cursor(),
            canonical(r),
    {
        proof {
            use_type_invariant(self);
        }
        self.cursor
    }

    /// Returns the end of the available range.
    pub fn end_at(&self) -> (r: u64)
        ensures
            r == self.spec_end_at(),
            canonical(r),
    {
        proof {
            use_type_invariant(self);
        }
        self.end_at
    }

    /// Creates the map of an address space from its level 4 page table, given by which of its
    /// entries are in use: what lies above the last entry in use is available, up to the last
    /// entry.
    ///
    /// At least one entry is in use (the kernel's), and not the last one.
    pub fn new_from_mapping(used: &[bool]) -> (r: Self)
        requires
            last_used(used@) >= 0,
            last_used(used@) != NB_PTE_ENTRIES - 1,
        ensures
            last_used(used@) >= NB_PTE_ENTRIES ==> r.spec_cursor() == 0 && r.spec_end_at() == 0,
            last_used(used@) < NB_PTE_ENTRIES ==> {
                &&& r.spec_cursor() == sign_extend(((last_used(used@) + 1) * 0x80_0000_0000) as u64)
                &&& r.spec_end_at() == sign_extend(((NB_PTE_ENTRIES - 1) * 0x80_0000_0000) as u64)
            },
    {
        let mut last: usize = 0;
        let mut found = false;
        let mut i: usize = 0;
        while i < used.len()
            invariant
                0 <= i <= used@.len(),
                used@.len() == used.len(),
                found <==> last_used_before(used@, i as int) >= 0,
                found ==> last == last_used_before(used@, i as int),
            decreases used@.len() - i,
        {
            if used[i] {
                last = i;
                found = true;
            }
            i = i + 1;
        }
        if last >= NB_PTE_ENTRIES {
            proof {
                assert(0u64 >> 47u64 == 0) by (bit_vector);
                assert(sign_extend(0) == 0) by (bit_vector);
            }
            let cursor = virt_addr_new(0);
            let end_at = virt_addr_new(0);
            VirtualMemoryMap { cursor, end_at }
        } else {
            let first_unused_index = (last + 1) as u64;
            let last_available_index = (NB_PTE_ENTRIES - 1) as u64;
            proof {
                lemma_l4_address_ok(first_unused_index);
                lemma_l4_address_ok(last_available_index);
            }
            let cursor = virt_addr_new(first_unused_index << L4_SHIFT);
            let end_at = virt_addr_new(last_available_index << L4_SHIFT);
            proof {
                lemma_sign_extend_canonical(first_unused_index << L4_SHIFT);
                lemma_sign_extend_canonical(last_available_index << L4_SHIFT);
            }
            VirtualMemoryMap { cursor, end_at }
        }
    }

    /// The end of an area of `size` bytes reserved at the cursor: the page after it.
    pub closed spec fn area_end(self, size: usize) -> u64 {
        sign_extend(
            align_up_spec(sign_extend((self.cursor + size) as u64) as int, PAGE_SIZE as int) as u64,
        )
    }

    /// An area of `size` bytes can be computed at the cursor without leaving the 64 bits
    /// address space.
    pub closed spec fn can_reserve(self, size: usize) -> bool {
        &&& self.cursor + size <= u64::MAX
        &&& virt_addr_ok((self.cursor + size) as u64)
        &&& align_up_spec(sign_extend((self.cursor + size) as u64) as int, PAGE_SIZE as int)
            <= u64::MAX
    }

    /// Areas that successive reservations give do not overlap: an area of `size` bytes that
    /// can be reserved at the cursor ends at or before the cursor that the reservation leaves,
    /// where the next area starts.
    pub proof fn lemma_reservation_before_next(self, size: usize)
        requires
            self.can_reserve(size),
        ensures
            self.spec_cursor() + size <= self.area_end(size),
    {
        let x = (self.cursor + size) as u64;
        lemma_sign_extend_grows(x);
        lemma_sign_extend_canonical(x);
        let y = sign_extend(x);
        crate::allocator::lemma_align_up_spec(y as int, PAGE_SIZE as int);
        let z = align_up_spec(y as int, PAGE_SIZE as int) as u64;
        assert(virt_addr_ok(z)) by {
            lemma_align_up_canonical_ok(y, z);
        }
        lemma_sign_extend_grows(z);
    }

    /// Reserves an area in the virtual address space: the area starts at the cursor, and the
    /// cursor moves to the page after it.
    ///
    /// No frames are allocated, but the area is marked as reserved, preventing future
    /// collisions with other areas. Fails, leaving the map as it is, where the area would go
    /// past the end of the available range.
    pub fn reserve_area(&mut self, size: usize) -> (r: Result<u64, ()>)
        requires
            old(self).can_reserve(size),
        ensures
            old(self).area_end(size) > old(self).spec_end_at() ==> r is Err && *final(self) == *old(
                self,
            ),
            old(self).area_end(size) <= old(self).spec_end_at() ==> r == Ok::<u64, ()>(
                old(self).spec_cursor(),
            ) && final(self).spec_cursor() == old(self).area_end(size) && final(self).spec_end_at()
                == old(self).spec_end_at(),
    {
        proof {
            use_type_invariant(&*self);
            assert(is_pow2(PAGE_SIZE as int)) by {
                reveal_with_fuel(is_pow2, 13);
            }
        }
        let start_of_area = self.cursor;
        let end = virt_addr_add(start_of_area, size as u64);
        proof {
            lemma_sign_extend_canonical((start_of_area + size) as u64);
        }
        let end_of_area = virt_addr_align_up(end, PAGE_SIZE as u64);
        if end_of_area > self.end_at {
            return Err(());
        }
        proof {
            lemma_sign_extend_canonical(
                align_up_spec(end as int, PAGE_SIZE as int) as u64,
            );
        }
        self.cursor = end_of_area;
        Ok(start_of_area)
    }
}

// —————————————————————————— Virtual Memory Area ——————————————————————————— //

/// The kind of a virtual memory area.
#[derive(Clone, Copy, Debug, PartialEq, Eq, Structural)]
pub enum VmaKind {
    /// Static VMA, for instance a VGA buffer or fixed-size area.
    Static,
}

/// The number of pages that hold `n` bytes.
pub open spec fn pages_for(n: int) -> int {
    align_up_spec(n, PAGE_SIZE as int) / PAGE_SIZE as int
}

/// A virtual memory area: where it starts, how many bytes and pages it spans.
pub struct Vma {
    start: u64,
    nb_pages: usize,
    size: usize,
    kind: VmaKind,
}

impl Vma {
    /// The first address of the area.
    pub closed spec fn spec_start(self) -> u64 {
        self.start
    }

    /// The size of the area in bytes.
    pub closed spec fn spec_size(self) -> usize {
        self.size
    }

    /// The number of pages of the area.
    pub closed spec fn spec_nb_pages(self) -> usize {
        self.nb_pages
    }

    /// Returns the number of pages to add in order to grow by at least `n` bytes.
    pub fn bytes_to_pages(n: usize) -> (r: usize)
        requires
            n + PAGE_SIZE - 1 <= usize::MAX,
        ensures
            r == pages_for(n as int),
            r * PAGE_SIZE >= n,
            r * PAGE_SIZE < n + PAGE_SIZE,
    {
        proof {
            assert(is_pow2(PAGE_SIZE as int)) by {
                reveal_with_fuel(is_pow2, 13);
            }
        }
        let page_aligned = align_up(n, PAGE_SIZE);
        proof {
            vstd::arithmetic::div_mod::lemma_fundamental_div_mod(
                page_aligned as int,
                PAGE_SIZE as int,
            );
        }
        page_aligned / PAGE_SIZE
    }

    /// Builds the descriptor of the virtual memory area of `size` bytes at `start`.
    pub fn from_raw(start: u64, size: usize) -> (r: Self)
        requires
            size + PAGE_SIZE <= usize::MAX,
        ensures
            r.spec_start() == start,
            r.spec_size() == size,
            r.spec_nb_pages() == pages_for(size as int),
    {
        let nb_pages = Self::bytes_to_pages(size);
        Self { start, nb_pages, size, kind: VmaKind::Static }
    }

    /// Returns the first address of the area.
    pub fn start(&self) -> (r: u64)
        ensures
            r == self.spec_start(),
    {
        self.start
    }

    /// Returns the size of the area in bytes.
    pub fn size(&self) -> (r: usize)
        ensures
            r == self.spec_size(),
    {
        self.size
    }

    /// Returns the number of pages of the area.
    pub fn nb_pages(&self) -> (r: usize)
        ensures
            r == self.spec_nb_pages(),
    {
        self.nb_pages
    }

    /// Returns the kind of the area.
    pub fn kind(&self) -> (r: VmaKind)
        ensures
            r == VmaKind::Static,
    {
        self.kind
    }
}

// ———————————————————————————— Frame Allocator ————————————————————————————— //

/// A region of physical memory from the bootloader's memory map.
#[derive(Clone, Copy, Debug, PartialEq, Eq, Structural)]
pub struct MemoryRegion {
    /// The first address of the region.
    pub start: u64,
    /// The address just past the region.
    pub end: u64,
    /// Whether the region is free for use.
    pub usable: bool,
}

/// The number of frame addresses in a region: those from its start, by steps of a frame, that
/// lie before its end.
pub open spec fn region_nb_frames(r: MemoryRegion) -> nat {
    if r.end <= r.start {
        0
    } else {
        ((r.end - r.start + 4095) / 4096) as nat
    }
}

/// The frame addresses of a region.
pub open spec fn region_frames(r: MemoryRegion) -> Seq<u64> {
    Seq::new(region_nb_frames(r), |k: int| (r.start + 4096 * k) as u64)
}

/// The usable frame addresses of the memory map, region by region.
pub open spec fn usable_frames(regions: Seq<MemoryRegion>) -> Seq<u64>
    decreases regions.len(),
{
    if regions.len() == 0 {
        Seq::empty()
    } else {
        let last = regions.last();
        usable_frames(regions.drop_last()) + if last.usable {
            region_frames(last)
        } else {
            Seq::empty()
        }
    }
}

/// The usable regions lie within the physical address space (52 bits).
pub open spec fn usable_within_phys(regions: Seq<MemoryRegion>) -> bool {
    forall|i: int|
        0 <= i < regions.len() && (#[trigger] regions[i]).usable ==> regions[i].end
            <= 0x10_0000_0000_0000
}

/// The usable frames of a prefix of the memory map come first among those of the whole map.
proof fn lemma_usable_frames_prefix(regions: Seq<MemoryRegion>, i: int)
    requires
        0 <= i <= regions.len(),
    ensures
        usable_frames(regions.subrange(0, i)).len() <= usable_frames(regions).len(),
        forall|j: int|
            0 <= j < usable_frames(regions.subrange(0, i)).len() ==> #[trigger] usable_frames(
                regions.subrange(0, i),
            )[j] == usable_frames(regions)[j],
    decreases regions.len() - i,
{
    if i < regions.len() {
        lemma_usable_frames_prefix(regions, i + 1);
        let p = regions.subrange(0, i + 1);
        let q = regions.subrange(0, i);
        assert(p.drop_last() =~= q);
        let last = p.last();
        let extra = if last.usable {
            region_frames(last)
        } else {
            Seq::empty()
        };
        assert(usable_frames(p) == usable_frames(q) + extra);
        assert forall|j: int| 0 <= j < usable_frames(q).len() implies #[trigger] usable_frames(q)[j]
            == usable_frames(regions)[j] by {
            assert(usable_frames(p)[j] == usable_frames(q)[j]);
        }
    } else {
        assert(regions.subrange(0, i) =~= regions);
    }
}

/// A frame allocator that returns the usable frames of the bootloader's memory map, in order.
///
/// Frames are never reused.
pub struct BootInfoFrameAllocator {
    regions: Vec<MemoryRegion>,
    next: usize,
}

impl BootInfoFrameAllocator {
    /// The regions of the memory map.
    pub closed spec fn spec_regions(self) -> Seq<MemoryRegion> {
        self.regions@
    }

    /// The number of frames handed out so far.
    pub closed spec fn spec_next(self) -> usize {
        self.next
    }

    /// Creates a frame allocator from the regions of the memory map.
    pub fn init(regions: Vec<MemoryRegion>) -> (r: Self)
        ensures
            r.spec_regions() == regions@,
            r.spec_next() == 0,
    {
        BootInfoFrameAllocator { regions, next: 0 }
    }

    /// Returns the `n`-th usable frame of the memory map, if any.
    fn nth_usable_frame(&self, n: usize) -> (r: Option<u64>)
        requires
            usable_within_phys(self.regions@),
        ensures
            n < usable_frames(self.regions@).len() ==> r == Some(
                (usable_frames(self.regions@)[n as int] - usable_frames(self.regions@)[n as int]
                    % 4096) as u64,
            ),
            n >= usable_frames(self.regions@).len() ==> r is None,
    {
        let ghost regions = self.regions@;
        let mut remaining = n;
        let mut i: usize = 0;
        while i < self.regions.len()
            invariant
                regions == self.regions@,
                0 <= i <= regions.len(),
                remaining + usable_frames(regions.subrange(0, i as int)).len() == n,
                usable_within_phys(regions),
            decreases regions.len() - i,
        {
            let region = self.regions[i];
            proof {
                lemma_usable_frames_prefix(regions, i + 1);
                assert(regions.subrange(0, i + 1).drop_last() =~= regions.subrange(0, i as int));
            }
            if region.usable && region.end > region.start {
                let span = region.end - region.start;
                let count = span / 4096 + if span % 4096 != 0 {
                    1
                } else {
                    0
                };
                assert(count == region_nb_frames(region));
                if (remaining as u64) < count {
                    let addr = region.start + 4096 * (remaining as u64);
                    proof {
                        let p = regions.subrange(0, i + 1);
                        let before = usable_frames(regions.subrange(0, i as int));
                        assert(usable_frames(p) == before + region_frames(region));
                        assert(usable_frames(p)[n as int] == region_frames(region)[remaining as int]);
                    }
                    return Some(phys_frame_containing(addr));
                }
                remaining = remaining - count as usize;
            }
            i = i + 1;
        }
        proof {
            assert(regions.subrange(0, regions.len() as int) =~= regions);
        }
        None
    }

    /// Whether a frame can be asked for: the count of frames handed out can grow, and every
    /// usable region lies within the physical address space.
    pub fn can_allocate_frame(&self) -> (r: bool)
        ensures
            r == (self.spec_next() < usize::MAX && usable_within_phys(self.spec_regions())),
    {
        if self.next == usize::MAX {
            return false;
        }
        let mut i: usize = 0;
        while i < self.regions.len()
            invariant
                i <= self.regions@.len(),
                forall|j: int| 0 <= j < i && (#[trigger] self.regions@[j]).usable ==> self.regions@[j].end <= 0x10_0000_0000_0000,
            decreases self.regions@.len() - i,
        {
            if self.regions[i].usable && self.regions[i].end > 0x10_0000_0000_0000 {
                return false;
            }
            i = i + 1;
        }
        true
    }

    /// Allocates the next usable frame, if any is left.
    pub fn allocate_frame(&mut self) -> (r: Option<u64>)
        requires
            old(self).spec_next() < usize::MAX,
            usable_within_phys(old(self).spec_regions()),
        ensures
            final(self).spec_regions() == old(self).spec_regions(),
            final(self).spec_next() == old(self).spec_next() + 1,
            ({
                let frames = usable_frames(old(self).spec_regions());
                let n = old(self).spec_next() as int;
                &&& n < frames.len() ==> r == Some((frames[n] - frames[n] % 4096) as u64)
                &&& n >= frames.len() ==> r is None
            }),
    {
        let frame = self.nth_usable_frame(self.next);
        self.next = self.next + 1;
        frame
    }
}

// ——————————————————————— Virtual Memory Area Allocator ——————————————————————— //

/// The address reached from `start` after `k` steps of one page, each made canonical.
pub open spec fn page_addr(start: u64, k: nat) -> u64
    decreases k,
{
    if k == 0 {
        start
    } else {
        sign_extend((page_addr(start, (k - 1) as nat) + PAGE_SIZE) as u64)
    }
}

/// Each of the first `n` steps of one page from `start` stays in the 64 bits address space and
/// gives an address that `VirtAddr::new` accepts.
pub open spec fn pages_walkable(start: u64, n: nat) -> bool {
    forall|k: nat| k < n ==> {
        &&& #[trigger] page_addr(start, k) + PAGE_SIZE <= u64::MAX
        &&& virt_addr_ok((page_addr(start, k) + PAGE_SIZE) as u64)
    }
}

/// The frame that the `n`-th allocation of the frame allocator gives.
pub open spec fn nth_frame(regions: Seq<MemoryRegion>, n: int) -> u64 {
    (usable_frames(regions)[n] - usable_frames(regions)[n] % 4096) as u64
}

/// The number of frames left to the frame allocator.
pub open spec fn frames_left(f: BootInfoFrameAllocator) -> nat {
    if f.spec_next() >= usable_frames(f.spec_regions()).len() {
        0
    } else {
        (usable_frames(f.spec_regions()).len() - f.spec_next()) as nat
    }
}

/// A new virtual memory area, with the virtual address of each of its pages and the frame to
/// map it to.
pub struct AreaMapping {
    pub vma: Vma,
    pub pages: Vec<(u64, u64)>,
}

/// The allocator of virtual memory areas: the map of the virtual address space and the
/// allocator of physical frames. Writing the mappings into the page tables is left to the one
/// who owns them.
pub struct VmaAllocator {
    pub memory_map: VirtualMemoryMap,
    pub frame_allocator: BootInfoFrameAllocator,
}

impl VmaAllocator {
    /// Allocates a new virtual memory area of `capacity` bytes: reserves the area, and gives each
    /// of its pages, in order, the next frame. Fails where the area does not fit in the
    /// available range (leaving the allocator as it is) or where frames run out (the area stays
    /// reserved and the frames taken are not given back).
    pub fn with_capacity(&mut self, capacity: usize) -> (r: Result<AreaMapping, ()>)
        requires
            capacity + PAGE_SIZE <= usize::MAX,
            old(self).memory_map.can_reserve(capacity),
            usable_within_phys(old(self).frame_allocator.spec_regions()),
            old(self).frame_allocator.spec_next() + pages_for(capacity as int) < usize::MAX,
            old(self).memory_map.area_end(capacity) <= old(self).memory_map.spec_end_at() ==> pages_walkable(
                old(self).memory_map.spec_cursor(),
                if pages_for(capacity as int) <= frames_left(old(self).frame_allocator) {
                    pages_for(capacity as int) as nat
                } else {
                    frames_left(old(self).frame_allocator)
                },
            ),
        ensures
            old(self).memory_map.area_end(capacity) > old(self).memory_map.spec_end_at() ==> r is Err && *final(self)
                == *old(self),
            old(self).memory_map.area_end(capacity) <= old(self).memory_map.spec_end_at() ==> {
                &&& final(self).memory_map.spec_cursor() == old(self).memory_map.area_end(capacity)
                &&& final(self).memory_map.spec_end_at() == old(self).memory_map.spec_end_at()
                &&& final(self).frame_allocator.spec_regions() == old(self).frame_allocator.spec_regions()
                &&& pages_for(capacity as int) > frames_left(old(self).frame_allocator) ==> {
                    &&& r is Err
                    &&& final(self).frame_allocator.spec_next() == old(self).frame_allocator.spec_next()
                        + frames_left(old(self).frame_allocator) + 1
                }
                &&& pages_for(capacity as int) <= frames_left(old(self).frame_allocator) ==> {
                    &&& final(self).frame_allocator.spec_next() == old(self).frame_allocator.spec_next()
                        + pages_for(capacity as int)
                    &&& r matches Ok(m) && {
                        &&& m.vma.spec_start() == old(self).memory_map.spec_cursor()
                        &&& m.vma.spec_size() == capacity
                        &&& m.vma.spec_nb_pages() == pages_for(capacity as int)
                        &&& m.pages@.len() == pages_for(capacity as int)
                        &&& forall|k: int| 0 <= k < m.pages@.len() ==> #[trigger] m.pages@[k] == (
                            page_addr(old(self).memory_map.spec_cursor(), k as nat),
                            nth_frame(old(self).frame_allocator.spec_regions(), old(self).frame_allocator.spec_next() + k),
                        )
                    }
                }
            },
    {
        proof {
            use_type_invariant(&self.memory_map);
        }
        let nb_pages = Vma::bytes_to_pages(capacity);
        let start = match self.memory_map.reserve_area(capacity) {
            Ok(start) => start,
            Err(()) => return Err(()),
        };
        let ghost regions = self.frame_allocator.spec_regions();
        let ghost next0 = self.frame_allocator.spec_next();
        let ghost steps: nat = if nb_pages <= frames_left(old(self).frame_allocator) {
            nb_pages as nat
        } else {
            frames_left(old(self).frame_allocator)
        };
        let mut virt_addr = start;
        let mut pages: Vec<(u64, u64)> = Vec::new();
        let mut i: usize = 0;
        while i < nb_pages
            invariant
                0 <= i <= nb_pages,
                nb_pages == pages_for(capacity as int),
                i <= steps,
                steps <= nb_pages,
                steps == (if nb_pages <= frames_left(old(self).frame_allocator) {
                    nb_pages as nat
                } else {
                    frames_left(old(self).frame_allocator)
                }),
                next0 == old(self).frame_allocator.spec_next(),
                regions == old(self).frame_allocator.spec_regions(),
                next0 + nb_pages < usize::MAX,
                usable_within_phys(regions),
                self.frame_allocator.spec_regions() == regions,
                self.frame_allocator.spec_next() == next0 + i,
                self.memory_map.spec_cursor() == old(self).memory_map.area_end(capacity),
                self.memory_map.spec_end_at() == old(self).memory_map.spec_end_at(),
                old(self).memory_map.area_end(capacity) <= old(self).memory_map.spec_end_at(),
                pages_walkable(start, steps),
                start == old(self).memory_map.spec_cursor(),
                canonical(start),
                virt_addr == page_addr(start, i as nat),
                canonical(virt_addr),
                pages@.len() == i,
                forall|k: int| 0 <= k < i ==> #[trigger] pages@[k] == (page_addr(start, k as nat), nth_frame(regions, next0 + k)),
            decreases nb_pages - i,
        {
            let frame = match self.frame_allocator.allocate_frame() {
                Some(frame) => frame,
                None => {
                    proof {
                        assert(next0 + i >= usable_frames(regions).len());
                    }
                    return Err(());
                },
            };
            proof {
                assert(next0 + i < usable_frames(regions).len());
                assert(i < steps);
            }
            pages.push((virt_addr, frame));
            assert(page_addr(start, i as nat) + PAGE_SIZE <= u64::MAX);
            virt_addr = virt_addr_add(virt_addr, PAGE_SIZE as u64);
            proof {
                lemma_sign_extend_canonical((page_addr(start, i as nat) + PAGE_SIZE) as u64);
                assert(page_addr(start, (i + 1) as nat) == sign_extend((page_addr(start, i as nat) + PAGE_SIZE) as u64));
            }
            i = i + 1;
        }
        Ok(AreaMapping { vma: Vma::from_raw(start, capacity), pages })
    }
}

} // verus!
