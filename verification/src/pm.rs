//! Segmentation for long mode: a minimal flat descriptor table with a
//! null entry, a kernel code descriptor and a kernel data descriptor.
//! The encoding of a descriptor and the table layout are verified; the
//! load of the table register is the machine's.

use vstd::prelude::*;

verus! {

/// A segment descriptor before encoding: base, limit (ignored in long
/// mode) and the type/flags word placed in bits 55:40.
pub struct SegmentDescriptor {
    pub base: usize,
    pub limit: u16,
    pub ty: u16,
}

/// The encoded descriptor: base bits 23:0 at bit 16, base bits 31:24 at
/// bit 56, and the type word at bit 40.
pub open spec fn segment_descriptor_spec(base: u64, ty: u64) -> u64 {
    ((base & 0xffffff) << 16) | ((base & 0xff000000) << 32) | (ty << 40)
}

impl SegmentDescriptor {
    /// Encodes the descriptor for the descriptor table.
    pub fn encode(&self) -> (r: u64)
        ensures
            r == segment_descriptor_spec(self.base as u64, self.ty as u64),
    {
        let mut encoded: u64 = 0;
        let base = self.base as u64;
        let ty64 = self.ty as u64;
        encoded |= (base & 0xffffff) << 16;
        encoded |= (base & 0xff000000) << 32;
        encoded |= ty64 << 40;
        proof {
            let b = base;
            let t = ty64;
            assert(((0u64 | ((b & 0xffffff) << 16)) | ((b & 0xff000000) << 32)) | (t << 40) == ((b
                & 0xffffff) << 16) | ((b & 0xff000000) << 32) | (t << 40)) by (bit_vector);
        }
        encoded
    }
}

/// Builds the flat descriptor table for long mode: a null entry, a
/// kernel code descriptor with the long-mode bit set, and a kernel data
/// descriptor; the remaining entries are clear.  The caller points the
/// table register at it.
pub fn init_pm() -> (gdt: Vec<u64>)
    ensures
        gdt@.len() == 8,
        gdt@[0] == 0,
        gdt@[1] == segment_descriptor_spec(0, 0xaf9a),
        gdt@[2] == segment_descriptor_spec(0, 0xcf92),
        forall|k: int| 3 <= k < 8 ==> gdt@[k] == 0,
{
    let mut gdt: Vec<u64> = vec![0u64; 8];
    let kernel_code = SegmentDescriptor {
        base: 0,
        // limits are ignored and not checked in long mode
        limit: 0,
        ty: 0xaf9a,
    };
    let kernel_data = SegmentDescriptor { base: 0, limit: 0, ty: 0xcf92 };

    gdt[0] = 0x0;
    gdt[1] = kernel_code.encode();
    gdt[2] = kernel_data.encode();
    gdt
}

} // verus!
