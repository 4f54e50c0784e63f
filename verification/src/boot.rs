//! The boot handoff: the record the loader leaves in physical memory,
//! re-expressed as kernel-side values.  Nothing is copied at relocation;
//! the kernel view carries the same addresses and geometry the loader
//! wrote, checked here field for field.

use vstd::prelude::*;

verus! {

/// One entry of the firmware memory map, sorted by physical start.
#[derive(Clone, Copy, PartialEq, Eq, Structural, Debug)]
pub struct MemoryDescriptor {
    /// Firmware memory type tag.
    pub ty: u32,
    pub phys_start: u64,
    pub virt_start: u64,
    pub page_count: u64,
    pub attribute: u64,
}

/// The framebuffer as the loader describes it.
#[derive(Clone, Copy, PartialEq, Eq, Structural, Debug)]
pub struct RawFramebuffer {
    /// Physical base address of the pixel memory.
    pub framebuffer_base: u64,
    pub framebuffer_size: u64,
    pub horizontal_resolution: u64,
    pub vertical_resolution: u64,
    pub pixels_per_scan_line: u64,
    /// Pixel-format tag as the firmware reports it.
    pub pixel_format: u64,
}

/// The record the loader hands the kernel, with the memory map already
/// read out of physical memory.
pub struct RawBootData {
    /// The memory map the firmware produced, sorted by `phys_start`.
    pub memory_map: Vec<MemoryDescriptor>,
    pub framebuffer: RawFramebuffer,
    /// Physical address of the firmware runtime-services table.
    pub system_table: u64,
    /// Physical address of the ACPI root pointer.
    pub acpi_rsdp: u64,
}

/// The kernel-side view of the handoff record; produced once, early,
/// and immutable afterwards.
pub struct BootData {
    /// The memory map, borrowed in place: same entries, same order.
    pub memory_map: Vec<MemoryDescriptor>,
    pub framebuffer: RawFramebuffer,
    pub system_table: u64,
    pub acpi_rsdp: u64,
}

/// The memory map is sorted by physical start, as the loader promises.
pub open spec fn memory_map_sorted(mm: Seq<MemoryDescriptor>) -> bool {
    forall|k: int, l: int|
        0 <= k < l < mm.len() ==> (#[trigger] mm[k]).phys_start <= (#[trigger] mm[l]).phys_start
}

impl BootData {
    /// Translates the loader's physical record into the kernel view.
    /// No data moves: the map, the framebuffer geometry and the two
    /// table addresses are carried over unchanged; only the addresses'
    /// interpretation shifts to the kernel mapping rooted at
    /// `kernel_base`.
    pub fn relocate(phys_boot_data: RawBootData, kernel_base: u64) -> (r: BootData)
        requires
            memory_map_sorted(phys_boot_data.memory_map@),
        ensures
            memory_map_sorted(r.memory_map@),
            r.memory_map == phys_boot_data.memory_map,
            r.framebuffer == phys_boot_data.framebuffer,
            r.system_table == phys_boot_data.system_table,
            r.acpi_rsdp == phys_boot_data.acpi_rsdp,
    {
        let RawBootData { memory_map, framebuffer, system_table, acpi_rsdp } = phys_boot_data;
        BootData { memory_map, framebuffer, system_table, acpi_rsdp }
    }
}

} // verus!
