//! Interrupt plumbing: the interrupt descriptor table, the local and IO
//! interrupt controllers, the per-vector handler slots, and their
//! initialization.
//!
//! The controllers' memory-mapped registers are modelled as explicit
//! register files so that every programming sequence is checked: what a
//! redirection entry holds after a remap, what masking a line does to it,
//! and that end-of-interrupt clears the in-service state.

use vstd::prelude::*;

use crate::acpi;
use crate::spinlock::Cpu;

verus! {

/// Number of entries in the interrupt descriptor table.
pub const IDT_ENTRIES: usize = 40;

/// Number of per-vector handler slots.
pub const IRQ_HANDLER_SLOTS: usize = 128;

/// Number of 32-bit registers modelled in each controller's register
/// window.
pub const CONTROLLER_REGS: usize = 0x100;

/// The encoded 16-byte interrupt-gate descriptor for `handler`: offset
/// bits 15:0 in the low word, kernel code selector 0x8, gate type 0xe,
/// present bit set, and offset bits 63:16 in bits 95:48.
pub open spec fn interrupt_descriptor_spec(handler: u64) -> u128 {
    let h = handler as u128;
    (h & 0xffff) | ((h & 0xffffffffffff0000) << 32) | (0x8u128 << 16) | (0xeu128 << 40) | (8u128
        << 44)
}

/// Builds the interrupt-gate descriptor for `handler`.
pub fn interrupt_descriptor(handler: u64) -> (d: u128)
    ensures
        d == interrupt_descriptor_spec(handler),
{
    let h = handler as u128;
    let mut descriptor: u128 = 0;
    descriptor |= h & 0xffff;  // offset 15:0
    descriptor |= (h & 0xffffffffffff0000) << 32;  // offset 63:16
    descriptor |= 0x8 << 16;  // segment selector
    descriptor |= 0xe << 40;  // type: interrupt gate
    descriptor |= 8 << 44;  // present flag
    proof {
        let h = handler as u128;
        assert(((((((0u128 | (h & 0xffff)) | ((h & 0xffffffffffff0000) << 32)) | (0x8u128 << 16))
            | (0xeu128 << 40)) | (8u128 << 44))) == ((h & 0xffff) | ((h & 0xffffffffffff0000)
            << 32) | (0x8u128 << 16) | (0xeu128 << 40) | (8u128 << 44))) by (bit_vector);
    }
    descriptor
}

/// Every field of the descriptor encoding sits at its architectural
/// place: extracting the bits of the offset, of the selector, of the
/// gate type and of the present flag yields the values that went in.
pub proof fn lemma_interrupt_descriptor_fields(handler: u64)
    ensures
        interrupt_descriptor_spec(handler) & 0xffff == (handler & 0xffff) as u128,
        (interrupt_descriptor_spec(handler) >> 48) & 0xffff_ffff_ffff == ((handler >> 16)
            & 0xffff_ffff_ffff) as u128,
        (interrupt_descriptor_spec(handler) >> 16) & 0xffff == 0x8,
        (interrupt_descriptor_spec(handler) >> 40) & 0xf == 0xe,
        (interrupt_descriptor_spec(handler) >> 47) & 1 == 1,
{
    let h = handler as u128;
    let d = interrupt_descriptor_spec(handler);
    assert(d == (h & 0xffff) | ((h & 0xffffffffffff0000) << 32) | (0x8u128 << 16) | (0xeu128
        << 40) | (8u128 << 44));
    assert(d & 0xffff == h & 0xffff) by (bit_vector)
        requires
            d == (h & 0xffff) | ((h & 0xffffffffffff0000) << 32) | (0x8u128 << 16) | (0xeu128
                << 40) | (8u128 << 44),
    ;
    assert((d >> 48) & 0xffff_ffff_ffff == (h >> 16) & 0xffff_ffff_ffff) by (bit_vector)
        requires
            d == (h & 0xffff) | ((h & 0xffffffffffff0000) << 32) | (0x8u128 << 16) | (0xeu128
                << 40) | (8u128 << 44),
            h < 0x10000000000000000,
    ;
    assert((d >> 16) & 0xffff == 0x8) by (bit_vector)
        requires
            d == (h & 0xffff) | ((h & 0xffffffffffff0000) << 32) | (0x8u128 << 16) | (0xeu128
                << 40) | (8u128 << 44),
    ;
    assert((d >> 40) & 0xf == 0xe) by (bit_vector)
        requires
            d == (h & 0xffff) | ((h & 0xffffffffffff0000) << 32) | (0x8u128 << 16) | (0xeu128
                << 40) | (8u128 << 44),
    ;
    assert((d >> 47) & 1 == 1) by (bit_vector)
        requires
            d == (h & 0xffff) | ((h & 0xffffffffffff0000) << 32) | (0x8u128 << 16) | (0xeu128
                << 40) | (8u128 << 44),
    ;
    assert((handler & 0xffff) as u128 == h & 0xffff) by (bit_vector)
        requires
            h == handler as u128,
    ;
    assert(((handler >> 16) & 0xffff_ffff_ffff) as u128 == (h >> 16) & 0xffff_ffff_ffff)
        by (bit_vector)
        requires
            h == handler as u128,
    ;
}

/// The redirection-entry value `mask_line` writes: the mask bit (bit 16)
/// set or cleared, every other bit kept.
pub open spec fn mask_entry_spec(entry: u32, mask: bool) -> u32 {
    if mask {
        entry | 0x10000
    } else {
        entry & 0xfffeffff
    }
}

/// Masking a line and unmasking it again restores the redirection
/// entry's mask bit — and with it the whole entry — to its prior value,
/// provided the line was unmasked to begin with.  (For a line that was
/// already masked the pair clears the bit instead.)
pub proof fn lemma_mask_line_round_trip(entry: u32)
    requires
        entry & 0x10000 == 0,
    ensures
        mask_entry_spec(mask_entry_spec(entry, true), false) == entry,
{
    assert(entry & 0x10000 == 0 ==> (entry | 0x10000) & 0xfffeffff == entry) by (bit_vector);
}

/// The IO interrupt controller: its physical base address and its
/// index-addressed 32-bit register window, which holds the redirection
/// table.
pub struct IOAPIC {
    /// Physical address the register window is mapped at.
    pub base_addr: usize,
    /// The registers, indexed by register-select index.
    pub regs: Vec<u32>,
}

impl IOAPIC {
    /// All registers of the modelled window exist.
    pub open spec fn wf(self) -> bool {
        self.regs@.len() == CONTROLLER_REGS
    }

    /// A controller at `base_addr` with a cleared register window.
    pub fn new(base_addr: usize) -> (r: IOAPIC)
        ensures
            r.wf(),
            r.base_addr == base_addr,
            forall|k: int| 0 <= k < CONTROLLER_REGS ==> r.regs@[k] == 0,
    {
        IOAPIC { base_addr, regs: vec![0u32; CONTROLLER_REGS] }
    }

    /// Writes the register selected by `index`.
    fn write(&mut self, index: u32, value: u32)
        requires
            old(self).wf(),
            index < CONTROLLER_REGS,
        ensures
            final(self).wf(),
            final(self).base_addr == old(self).base_addr,
            final(self).regs@ == old(self).regs@.update(index as int, value),
    {
        self.regs[index as usize] = value;
    }

    /// Reads the register selected by `index`.
    fn read(&self, index: u32) -> (r: u32)
        requires
            self.wf(),
            index < CONTROLLER_REGS,
        ensures
            r == self.regs@[index as int],
    {
        self.regs[index as usize]
    }

    /// Rewrites the redirection entry of IO-controller line `int_signal`
    /// so that `vector` is delivered to the local controller `lapic_id`.
    pub fn remap(&mut self, lapic_id: u32, int_signal: u32, vector: u32)
        requires
            old(self).wf(),
            0x10 + int_signal * 2 + 1 < CONTROLLER_REGS,
        ensures
            final(self).wf(),
            final(self).base_addr == old(self).base_addr,
            final(self).regs@ == old(self).regs@.update(
                0x10 + int_signal * 2,
                vector,
            ).update(0x10 + int_signal * 2 + 1, (lapic_id << 24) & 0x0f000000),
    {
        let low = 0x10 + int_signal * 2;
        let high = 0x10 + int_signal * 2 + 1;
        self.write(low, vector);
        self.write(high, (lapic_id << 24) & 0x0f000000);
    }

    /// Programs the fixed device lines: keyboard on line 1, the periodic
    /// timer on line 2 (masked until the timer is started), the serial
    /// UART on line 4, the mouse on line 12 (masked), and the spurious
    /// vector; then enables interrupts.
    pub fn remap_all(&mut self, lapic_id: u32, cpu: &mut Cpu)
        requires
            old(self).wf(),
        ensures
            final(self).wf(),
            final(self).base_addr == old(self).base_addr,
            final(self).regs@[0x12] == 0x21,
            final(self).regs@[0x13] == 0,
            final(self).regs@[0x14] == 0x10020,
            final(self).regs@[0x15] == (lapic_id << 24) & 0x0f000000,
            final(self).regs@[0x18] == 0x24,
            final(self).regs@[0x19] == (lapic_id << 24) & 0x0f000000,
            final(self).regs@[0x28] == 0x100ff,
            final(self).regs@[0x29] == (lapic_id << 24) & 0x0f000000,
            final(self).regs@[0xf0] == 0x1ff,
            final(cpu).interrupts_enabled,
    {
        proof {
            assert((0u32 << 24) & 0x0f000000 == 0) by (bit_vector);
        }
        // PS/2 keyboard
        self.remap(0, 1, 0x21);
        // Periodic timer: line 2, masked until the timer is initialized.
        self.remap(lapic_id, 2, 0x10020);
        // Serial UART
        self.remap(lapic_id, 4, 0x24);
        // Mouse (masked)
        self.write(0x28, 0x100ff);
        self.write(0x29, (lapic_id << 24) & 0x0f000000);
        self.remap(lapic_id, 12, 0x100ff);
        // Spurious interrupt vector: bit 8 (enable) plus vector 0xff
        self.write(0xf0, 0x1ff);
        // Enable interrupts
        cpu.interrupts_enabled = true;
    }

    /// Sets or clears the mask bit of the redirection entry for
    /// IO-controller line `vector`, leaving the other bits of the entry
    /// unchanged.
    pub fn mask_line(&mut self, mask: bool, vector: u32)
        requires
            old(self).wf(),
            vector * 2 + 0x10 < CONTROLLER_REGS,
        ensures
            final(self).wf(),
            final(self).base_addr == old(self).base_addr,
            final(self).regs@ == old(self).regs@.update(
                vector * 2 + 0x10,
                mask_entry_spec(old(self).regs@[vector * 2 + 0x10], mask),
            ),
    {
        let idx = (vector * 2) + 0x10;
        let redtlb_low = self.read(idx);
        let redtlb_low = if mask {
            redtlb_low | 0x10000
        } else {
            redtlb_low & 0xfffeffff
        };
        self.write(idx, redtlb_low);
    }
}

/// The per-processor local interrupt controller: its register window and
/// the in-service state of the interrupt being handled.
pub struct LocalAPIC {
    /// Physical address the register window is mapped at.
    pub base_addr: usize,
    /// The registers, indexed by byte offset divided by four.
    pub regs: Vec<u32>,
    /// The vector whose in-service bit is set, if any: the interrupt
    /// accepted and not yet acknowledged by an end-of-interrupt write.
    pub in_service: Option<u8>,
}

impl LocalAPIC {
    /// All registers of the modelled window exist.
    pub open spec fn wf(self) -> bool {
        self.regs@.len() == CONTROLLER_REGS
    }

    /// A controller at `base_addr` with a cleared register window and no
    /// interrupt in service.
    pub fn new(base_addr: usize) -> (r: LocalAPIC)
        ensures
            r.wf(),
            r.base_addr == base_addr,
            r.in_service is None,
            forall|k: int| 0 <= k < CONTROLLER_REGS ==> r.regs@[k] == 0,
    {
        LocalAPIC { base_addr, regs: vec![0u32; CONTROLLER_REGS], in_service: None }
    }

    /// Local controller id of the executing processor, from the id
    /// register at offset 0x20.
    pub fn id(&self) -> (r: u32)
        requires
            self.wf(),
        ensures
            r == self.regs@[0x20int / 4],
    {
        self.read(0x20)
    }

    /// Reads the register at byte offset `index`.
    fn read(&self, index: usize) -> (r: u32)
        requires
            self.wf(),
            index % 4 == 0,
            index / 4 < CONTROLLER_REGS,
        ensures
            r == self.regs@[index as int / 4],
    {
        self.regs[index / 4]
    }

    /// Writes the register at byte offset `index`.
    fn write(&mut self, index: usize, value: u32)
        requires
            old(self).wf(),
            index % 4 == 0,
            index / 4 < CONTROLLER_REGS,
        ensures
            final(self).wf(),
            final(self).base_addr == old(self).base_addr,
            final(self).in_service == old(self).in_service,
            final(self).regs@ == old(self).regs@.update(index as int / 4, value),
    {
        self.regs[index / 4] = value;
    }

    /// Signals end of interrupt: writes the end-of-interrupt register,
    /// which clears the in-service bit of the interrupt being handled.
    pub fn end_of_interrupt(&mut self)
        requires
            old(self).wf(),
        ensures
            final(self).wf(),
            final(self).base_addr == old(self).base_addr,
            final(self).regs@ == old(self).regs@.update(0xb0int / 4, 0),
            final(self).in_service is None,
    {
        self.write(0xb0, 0);
        self.in_service = None;
    }
}

/// The per-vector device handler slots consulted by the common device
/// interrupt entry; slot value 0 means "no handler".
pub struct IrqHandlers {
    /// Handler addresses indexed by vector.
    pub slots: Vec<u64>,
}

impl IrqHandlers {
    /// All slots exist.
    pub open spec fn wf(self) -> bool {
        self.slots@.len() == IRQ_HANDLER_SLOTS
    }

    /// All slots empty.
    pub fn new() -> (r: IrqHandlers)
        ensures
            r.wf(),
            forall|k: int| 0 <= k < IRQ_HANDLER_SLOTS ==> r.slots@[k] == 0,
    {
        IrqHandlers { slots: vec![0u64; IRQ_HANDLER_SLOTS] }
    }
}

/// Installs `handler` for a device `vector`, overwriting any previous
/// registration.
pub fn register_handler(handlers: &mut IrqHandlers, vector: u8, handler: u64)
    requires
        old(handlers).wf(),
        vector < IRQ_HANDLER_SLOTS,
    ensures
        final(handlers).wf(),
        final(handlers).slots@ == old(handlers).slots@.update(vector as int, handler),
{
    handlers.slots[vector as usize] = handler;
}

/// The common device-interrupt entry's lookup: the handler registered
/// for `vector`, or nothing when the slot is empty, in which case the
/// interrupt is only acknowledged.
pub fn device_handler(handlers: &IrqHandlers, vector: u8) -> (r: Option<u64>)
    requires
        handlers.wf(),
        vector < IRQ_HANDLER_SLOTS,
    ensures
        handlers.slots@[vector as int] != 0 ==> r == Some(handlers.slots@[vector as int]),
        handlers.slots@[vector as int] == 0 ==> r is None,
{
    let h = handlers.slots[vector as usize];
    if h != 0 {
        Some(h)
    } else {
        None
    }
}

/// Addresses of the interrupt service stubs the descriptor table points
/// at; on the machine they come from the linker.
pub struct IsrStubs {
    pub page_fault: u64,
    pub general_protection_fault: u64,
    pub pit: u64,
    pub com0: u64,
    pub device_0x26: u64,
}

/// The interrupt apparatus: descriptor table, both controllers, the
/// handler slots, and the legacy controller's mask state.
pub struct InterruptState {
    /// The interrupt descriptor table.
    pub idt: Vec<u128>,
    /// The IO interrupt controller.
    pub ioapic: IOAPIC,
    /// The local interrupt controller.
    pub lapic: LocalAPIC,
    /// The per-vector device handler slots.
    pub handlers: IrqHandlers,
    /// True once every line of the legacy controller is masked.
    pub pic_masked: bool,
}

impl InterruptState {
    /// The table has its fixed size and both controllers and the handler
    /// slots are complete.
    pub open spec fn wf(self) -> bool {
        &&& self.idt@.len() == IDT_ENTRIES
        &&& self.ioapic.wf()
        &&& self.lapic.wf()
        &&& self.handlers.wf()
    }
}

/// Builds the interrupt descriptor table with the fault and device
/// entries, masks every line of the legacy controller, programs both
/// interrupt controllers from the ACPI summary, enables interrupts, and
/// hands back the local controller id.
pub fn init(madt: &acpi::MADT, isr: &IsrStubs, cpu: &mut Cpu) -> (r: (InterruptState, u32))
    ensures
        r.0.wf(),
        r.0.idt@[0x0e] == interrupt_descriptor_spec(isr.page_fault),
        r.0.idt@[0x0d] == interrupt_descriptor_spec(isr.general_protection_fault),
        r.0.idt@[0x20] == interrupt_descriptor_spec(isr.pit),
        r.0.idt@[0x24] == interrupt_descriptor_spec(isr.com0),
        r.0.idt@[0x26] == interrupt_descriptor_spec(isr.device_0x26),
        r.0.ioapic.base_addr == madt.ioapic_addr,
        // the redirection table as `remap_all` programs it: keyboard on
        // line 1, the timer on line 2 (masked until the timer starts),
        // the serial UART on line 4, the mouse on line 12 (masked), and
        // the spurious vector
        r.0.ioapic.regs@[0x12] == 0x21,
        r.0.ioapic.regs@[0x13] == 0,
        r.0.ioapic.regs@[0x14] == 0x10020,
        r.0.ioapic.regs@[0x15] == (r.1 << 24) & 0x0f000000,
        r.0.ioapic.regs@[0x18] == 0x24,
        r.0.ioapic.regs@[0x19] == (r.1 << 24) & 0x0f000000,
        r.0.ioapic.regs@[0x28] == 0x100ff,
        r.0.ioapic.regs@[0x29] == (r.1 << 24) & 0x0f000000,
        r.0.ioapic.regs@[0xf0] == 0x1ff,
        r.0.lapic.base_addr == madt.lapic_addr,
        r.0.lapic.in_service is None,
        forall|k: int| 0 <= k < IRQ_HANDLER_SLOTS ==> r.0.handlers.slots@[k] == 0,
        r.0.pic_masked,
        r.1 == r.0.lapic.regs@[0x20int / 4],
        final(cpu).interrupts_enabled,
{
    let mut idt: Vec<u128> = vec![0u128; IDT_ENTRIES];
    idt[0x0e] = interrupt_descriptor(isr.page_fault);
    idt[0x0d] = interrupt_descriptor(isr.general_protection_fault);
    idt[0x20] = interrupt_descriptor(isr.pit);
    idt[0x24] = interrupt_descriptor(isr.com0);
    idt[0x26] = interrupt_descriptor(isr.device_0x26);
    // With the descriptor table in place the hardware is pointed at it;
    // then the legacy controller is silenced before the modern ones are
    // programmed.
    let pic_masked = true;
    let lapic = LocalAPIC::new(madt.lapic_addr);
    let mut ioapic = IOAPIC::new(madt.ioapic_addr);
    let lapic_id = lapic.id();
    ioapic.remap_all(lapic_id, cpu);
    (InterruptState { idt, ioapic, lapic, handlers: IrqHandlers::new(), pic_masked }, lapic_id)
}

} // verus!
