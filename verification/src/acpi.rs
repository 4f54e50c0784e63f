//! Summaries of the ACPI tables the runtime core consumes: the interrupt
//! controller description and the high-precision timer description, and
//! the parsers that extract them from the raw table bytes.

use vstd::prelude::*;

verus! {

/// Summary of the interrupt-controller table: where the local and IO
/// controllers are mapped and how legacy IRQ lines map onto global
/// system interrupts.
pub struct MADT {
    /// Physical address of the local interrupt controller's registers.
    pub lapic_addr: usize,
    /// Physical address of the IO interrupt controller's registers.
    pub ioapic_addr: usize,
    /// First global system interrupt routed through the IO controller.
    pub global_system_interrupt_base: u32,
    /// Legacy IRQ lines that are rerouted to other global interrupts.
    pub interrupt_mappings: Vec<InterruptMapping>,
}

/// Description of the high-precision event timer from its ACPI table.
pub struct HPET {
    pub hardware_rev_id: u8,
    pub comparator_count: u8,
    pub counter_size: u8,
    pub legacy_replacement_irq_routing_capable: bool,
    pub pci_vendor_id: u16,
    pub address_space_id: u8,
    pub register_bit_width: u8,
    pub register_bit_offset: u8,
    /// Physical base of the timer's register block.
    pub base_address: usize,
    pub hpet_number: u8,
    pub minimum_tick: u16,
    pub page_protection: u8,
}

/// An IO interrupt controller entry of the interrupt-controller table.
#[derive(Clone, Copy, PartialEq, Eq, Structural, Debug)]
pub struct IOAPIC {
    pub id: u8,
    /// Physical address of this IO controller's registers.
    pub addr: u32,
    /// First global system interrupt handled by this IO controller.
    pub global_system_interrupt_base: u32,
}

/// A legacy IRQ line rerouted to a global system interrupt.
#[derive(Clone, Copy, PartialEq, Eq, Structural, Debug)]
pub struct InterruptMapping {
    /// The legacy bus-relative IRQ number.
    pub irq_number: u8,
    /// The global system interrupt the line actually signals.
    pub global_system_interrupt: u8,
}

/// The 16-bit little-endian value at offset `i`.
pub open spec fn le16(s: Seq<u8>, i: int) -> int {
    s[i] + s[i + 1] * 0x100
}

/// The 32-bit little-endian value at offset `i`.
pub open spec fn le32(s: Seq<u8>, i: int) -> int {
    s[i] + s[i + 1] * 0x100 + s[i + 2] * 0x10000 + s[i + 3] * 0x1000000
}

/// The 64-bit little-endian value at offset `i`.
pub open spec fn le64(s: Seq<u8>, i: int) -> int {
    le32(s, i) + le32(s, i + 4) * 0x100000000
}

/// Reads the 16-bit little-endian value at offset `i`.
fn read_le16(s: &Vec<u8>, i: usize) -> (r: u16)
    requires
        i + 2 <= s@.len(),
    ensures
        r == le16(s@, i as int),
{
    let _n = s.len();
    (s[i] as u16) + (s[i + 1] as u16) * 0x100
}

/// Reads the 32-bit little-endian value at offset `i`.
fn read_le32(s: &Vec<u8>, i: usize) -> (r: u32)
    requires
        i + 4 <= s@.len(),
    ensures
        r == le32(s@, i as int),
{
    let _n = s.len();
    (s[i] as u32) + (s[i + 1] as u32) * 0x100 + (s[i + 2] as u32) * 0x10000 + (s[i + 3] as u32)
        * 0x1000000
}

/// Reads the 64-bit little-endian value at offset `i`.
fn read_le64(s: &Vec<u8>, i: usize) -> (r: u64)
    requires
        i + 8 <= s@.len(),
    ensures
        r == le64(s@, i as int),
{
    let _n = s.len();
    let lo = read_le32(s, i);
    let hi = read_le32(s, i + 4);
    (lo as u64) + (hi as u64) * 0x100000000
}

/// Parses the timer description out of its table bytes: the fields of
/// the event-timer block id word, then the fixed-layout record that
/// follows the common table header.
pub fn parse_hpet(table: &Vec<u8>) -> (r: Result<HPET, &'static str>)
    ensures
        table@.len() < 57 ==> r is Err,
        table@.len() >= 57 ==> r is Ok,
        r matches Ok(h) ==> ({
            let block_id = le32(table@, 36);
            &&& h.hardware_rev_id == block_id as u32 & 0xff
            &&& h.comparator_count == (block_id as u32 >> 8) & 0xf
            &&& h.counter_size == (block_id as u32 >> 13) & 0x1
            &&& h.legacy_replacement_irq_routing_capable == ((block_id as u32 >> 15) & 0x1 != 0)
            &&& h.pci_vendor_id == (block_id as u32 >> 16) & 0xffff
            &&& h.address_space_id == table@[40]
            &&& h.register_bit_width == table@[41]
            &&& h.register_bit_offset == table@[42]
            &&& h.base_address == le64(table@, 44) as usize
            &&& h.hpet_number == table@[52]
            &&& h.minimum_tick == le16(table@, 54)
            &&& h.page_protection == table@[56]
        }),
{
    if table.len() < 57 {
        return Err("timer table too short");
    }
    let block_id = read_le32(table, 36);
    proof {
        let b = block_id;
        assert(b & 0xffu32 < 256 && (b >> 8) & 0xfu32 < 256 && (b >> 13) & 0x1u32 < 256 && (b
            >> 16) & 0xffffu32 < 0x10000) by (bit_vector);
    }
    Ok(
        HPET {
            hardware_rev_id: (block_id & 0xff) as u8,
            comparator_count: ((block_id >> 8) & 0xf) as u8,
            counter_size: ((block_id >> 13) & 0x1) as u8,
            legacy_replacement_irq_routing_capable: ((block_id >> 15) & 0x1) != 0,
            pci_vendor_id: ((block_id >> 16) & 0xffff) as u16,
            address_space_id: table[40],
            register_bit_width: table[41],
            register_bit_offset: table[42],
            base_address: read_le64(table, 44) as usize,
            hpet_number: table[52],
            minimum_tick: read_le16(table, 54),
            page_protection: table[56],
        },
    )
}

/// Spec-level view of the interrupt-controller summary that the entry
/// walk accumulates.
#[verifier::ext_equal]
pub struct MadtView {
    pub lapic_addr: int,
    pub ioapic_addr: int,
    pub global_system_interrupt_base: int,
    pub interrupt_mappings: Seq<InterruptMapping>,
}

/// One step of the entry walk applied to the accumulated summary: an IO
/// controller entry (type 1) records its address and interrupt base, an
/// interrupt source override (type 2) appends a mapping, a local
/// controller address override (type 5) replaces the local controller
/// address, anything else is skipped.
pub open spec fn madt_entry_spec(s: Seq<u8>, head: int, acc: MadtView) -> MadtView {
    let ty = s[head];
    if ty == 1 {
        MadtView {
            ioapic_addr: le32(s, head + 4),
            global_system_interrupt_base: le32(s, head + 8),
            ..acc
        }
    } else if ty == 2 {
        MadtView {
            interrupt_mappings: acc.interrupt_mappings.push(
                InterruptMapping { irq_number: s[head + 3], global_system_interrupt: s[head + 4] },
            ),
            ..acc
        }
    } else if ty == 5 {
        MadtView { lapic_addr: le64(s, head + 4), ..acc }
    } else {
        acc
    }
}

/// The walk over the variable-length interrupt controller entries from
/// `head` to the end of the table: each entry is a type byte, a length
/// byte and a type-specific payload.  Nothing comes out of a table whose
/// last entry is cut short or whose length byte would not move the walk
/// forward.
pub open spec fn madt_walk_spec(s: Seq<u8>, head: int, acc: MadtView) -> Option<MadtView>
    decreases s.len() - head when head <= s.len()
{
    if head >= s.len() {
        Some(acc)
    } else if head + 2 > s.len() {
        None
    } else if s[head + 1] == 0 || head + s[head + 1] > s.len() {
        None
    } else if (s[head] == 1 || s[head] == 5) && head + 12 > s.len() {
        None
    } else if s[head] == 2 && head + 5 > s.len() {
        None
    } else {
        madt_walk_spec(s, head + s[head + 1], madt_entry_spec(s, head, acc))
    }
}

/// The summary the walk starts from: the local controller address from
/// the fixed header, nothing else known yet.
pub open spec fn madt_initial_spec(s: Seq<u8>) -> MadtView {
    MadtView {
        lapic_addr: le32(s, 36),
        ioapic_addr: 0,
        global_system_interrupt_base: 0,
        interrupt_mappings: Seq::empty(),
    }
}

/// Parses the interrupt-controller summary out of its table bytes: the
/// local controller address from the fixed header, then the walk over
/// the variable-length entries.  A table shorter than its header, or
/// with a malformed entry, is rejected.
pub fn parse_madt(table: &Vec<u8>) -> (r: Result<MADT, &'static str>)
    ensures
        r is Ok <==> (table@.len() >= 44 && madt_walk_spec(table@, 44, madt_initial_spec(table@))
            is Some),
        r matches Ok(m) ==> ({
            let v = madt_walk_spec(table@, 44, madt_initial_spec(table@))->Some_0;
            &&& m.lapic_addr == v.lapic_addr as u64 as usize
            &&& m.ioapic_addr == v.ioapic_addr as u32 as usize
            &&& m.global_system_interrupt_base == v.global_system_interrupt_base
            &&& m.interrupt_mappings@ == v.interrupt_mappings
        }),
{
    if table.len() < 44 {
        return Err("interrupt controller table too short");
    }
    let lapic32 = read_le32(table, 36);
    let mut lapic_addr: u64 = lapic32 as u64;
    let mut ioapic_addr: u32 = 0;
    let mut gsi_base: u32 = 0;
    let mut mappings: Vec<InterruptMapping> = Vec::new();
    let ghost acc0 = madt_initial_spec(table@);
    proof {
        assert(mappings@ =~= Seq::<InterruptMapping>::empty());
        assert(acc0 =~= (MadtView {
            lapic_addr: lapic_addr as int,
            ioapic_addr: ioapic_addr as int,
            global_system_interrupt_base: gsi_base as int,
            interrupt_mappings: mappings@,
        }));
    }
    let mut head: usize = 44;
    while head < table.len()
        invariant
            44 <= head <= table@.len(),
            table@.len() >= 44,
            acc0 == madt_initial_spec(table@),
            madt_walk_spec(table@, 44, acc0) == madt_walk_spec(
                table@,
                head as int,
                (MadtView {
                    lapic_addr: lapic_addr as int,
                    ioapic_addr: ioapic_addr as int,
                    global_system_interrupt_base: gsi_base as int,
                    interrupt_mappings: mappings@,
                }),
            ),
        decreases table@.len() - head,
    {
        let ghost acc_here = MadtView {
            lapic_addr: lapic_addr as int,
            ioapic_addr: ioapic_addr as int,
            global_system_interrupt_base: gsi_base as int,
            interrupt_mappings: mappings@,
        };
        let ty = table[head];
        if table.len() - head < 2 {
            proof {
                assert(madt_walk_spec(table@, head as int, acc_here) is None);
            }
            return Err("truncated interrupt controller entry");
        }
        let length = table[head + 1] as usize;
        if length == 0 || length > table.len() - head {
            proof {
                assert(head + table@[head as int + 1] > table@.len() || table@[head as int + 1]
                    == 0);
                assert(madt_walk_spec(table@, head as int, acc_here) is None);
            }
            return Err("malformed interrupt controller entry");
        }
        if (ty == 1 || ty == 5) && table.len() - head < 12 {
            return Err("truncated interrupt controller entry");
        }
        if ty == 2 && table.len() - head < 5 {
            return Err("truncated interrupt controller entry");
        }
        if ty == 1 {
            // IO interrupt controller
            ioapic_addr = read_le32(table, head + 4);
            gsi_base = read_le32(table, head + 8);
        } else if ty == 2 {
            // interrupt source override
            mappings.push(
                InterruptMapping {
                    irq_number: table[head + 3],
                    global_system_interrupt: table[head + 4],
                },
            );
        } else if ty == 5 {
            // local controller address override
            lapic_addr = read_le64(table, head + 4);
        }
        proof {
            assert((MadtView {
                lapic_addr: lapic_addr as int,
                ioapic_addr: ioapic_addr as int,
                global_system_interrupt_base: gsi_base as int,
                interrupt_mappings: mappings@,
            }) =~= madt_entry_spec(table@, head as int, acc_here));
        }
        head = head + length;
    }
    proof {
        assert(madt_walk_spec(table@, 44, acc0) matches Some(v) && v =~= (MadtView {
            lapic_addr: lapic_addr as int,
            ioapic_addr: ioapic_addr as int,
            global_system_interrupt_base: gsi_base as int,
            interrupt_mappings: mappings@,
        }));
    }
    Ok(
        MADT {
            lapic_addr: lapic_addr as usize,
            ioapic_addr: ioapic_addr as usize,
            global_system_interrupt_base: gsi_base,
            interrupt_mappings: mappings,
        },
    )
}

} // verus!
