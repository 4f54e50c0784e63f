//! The kernel's bump allocator: a watermark that only moves forward.
//! Nothing is ever freed; the arithmetic that aligns the watermark and
//! advances it past each allocation is what is verified here.

use vstd::prelude::*;

verus! {

/// The bump allocator: the fixed bottom of the heap and the watermark
/// below which everything is already handed out.
pub struct KernelAllocator {
    /// Address where the heap begins.
    pub heap_bottom: usize,
    /// First address above everything allocated so far.
    pub head: usize,
}

impl KernelAllocator {
    /// An empty heap starting at `heap_bottom`.
    pub fn new(heap_bottom: usize) -> (r: KernelAllocator)
        ensures
            r.heap_bottom == heap_bottom,
            r.head == heap_bottom,
    {
        KernelAllocator { heap_bottom, head: heap_bottom }
    }

    /// Hands out `size` bytes aligned to `align`: rounds the watermark
    /// up to the next multiple of the alignment and advances it past
    /// the allocation.  The result is aligned, lies above the previous
    /// watermark — so allocations never overlap — and the watermark
    /// ends up just past the new block.
    pub fn allocate(&mut self, size: usize, align: usize) -> (r: usize)
        requires
            align > 0,
            old(self).head + align + size <= usize::MAX,
        ensures
            r == (old(self).head as int / align as int) * align + align,
            r as int % align as int == 0,
            r > old(self).head,
            final(self).head == r + size,
            final(self).heap_bottom == old(self).heap_bottom,
    {
        let mut head = self.head;
        proof {
            let h = old(self).head as int;
            let a = align as int;
            assert((h / a) * a <= h && (h / a) * a >= 0 && (h / a) * a + a > h && ((h / a) * a
                + a) % a == 0) by (nonlinear_arith)
                requires
                    a > 0,
                    h >= 0,
            ;
        }
        head = (head / align) * align + align;
        let ptr = head;
        self.head = head + size;
        ptr
    }
}

} // verus!
