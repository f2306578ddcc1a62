//! Sizes of the memory areas of a runtime in user space, whose areas are whole pages mapped by
//! the operating system.

use vstd::prelude::*;

verus! {

/// The size of a page.
pub const PAGE_SIZE: usize = 0x1000;

/// The areas of a runtime in user space are whole pages.
pub struct LibcAllocator;

impl LibcAllocator {
    /// A new allocator.
    pub fn new() -> (r: Self) {
        LibcAllocator
    }

    /// The number of pages of an area of `n` bytes: the least positive number of pages that
    /// hold them.
    pub fn nb_pages(&self, n: usize) -> (r: usize)
        requires
            n + PAGE_SIZE <= usize::MAX,
        ensures
            r >= 1,
            r * PAGE_SIZE >= n,
            r == 1 || (r - 1) * PAGE_SIZE < n,
    {
        let mut nb_pages: usize = 1;
        while nb_pages * PAGE_SIZE < n
            invariant
                nb_pages >= 1,
                (nb_pages - 1) * PAGE_SIZE < n || nb_pages == 1,
                nb_pages * PAGE_SIZE <= n + PAGE_SIZE,
                n + PAGE_SIZE <= usize::MAX,
            decreases n - (nb_pages - 1) * PAGE_SIZE,
        {
            nb_pages = nb_pages + 1;
        }
        nb_pages
    }
}

/// A table of references of `max_size` entries, or of `min_size` where there is no maximum,
/// all null.
pub fn zeroed_table(min_size: u32, max_size: Option<u32>) -> (r: Vec<u64>)
    ensures
        r@.len() == match max_size {
            Some(m) => m,
            None => min_size,
        },
        forall|i: int| 0 <= i < r@.len() ==> #[trigger] r@[i] == 0,
{
    let size = match max_size {
        Some(max_size) => max_size,
        None => min_size,
    };
    let mut table: Vec<u64> = Vec::new();
    let mut i: u32 = 0;
    while i < size
        invariant
            i <= size,
            table@.len() == i,
            forall|j: int| 0 <= j < i ==> #[trigger] table@[j] == 0,
        decreases size - i,
    {
        table.push(0);
        i = i + 1;
    }
    table
}

} // verus!
