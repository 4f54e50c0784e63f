//! The byte-level parsers and the remaining device helpers: ethernet
//! frames, the BDF font, the serial port model, the bump allocator, the
//! descriptor table and the page-table walk.

use kcore::ethernet::{EtherType, Frame};

use kcore::pci::{PCIDevice, PCI};
use kcore::boot::{BootData, MemoryDescriptor, RawBootData, RawFramebuffer};
use kcore::hpet::{HpetRegs, HPET};
#[test]
fn ethernet_arp_frame() {
    let mut bytes: Vec<u8> = Vec::new();
    bytes.extend_from_slice(&[1, 2, 3, 4, 5, 6]);
    bytes.extend_from_slice(&[7, 8, 9, 10, 11, 12]);
    bytes.extend_from_slice(&[0x8, 0x6]);
    bytes.extend_from_slice(&[0xde, 0xad]);
    let frame = Frame::from_bytes(&bytes).expect("well-formed frame");
    assert_eq!(frame.header.src_mac.0, [1, 2, 3, 4, 5, 6]);
    assert_eq!(frame.header.dest_mac.0, [7, 8, 9, 10, 11, 12]);
    assert_eq!(frame.header.vlan_tag.len(), 0);
    assert!(matches!(frame.header.ethertype, EtherType::ARP()));
}

#[test]
fn ethernet_vlan_tags_are_collected() {
    let mut bytes: Vec<u8> = Vec::new();
    bytes.extend_from_slice(&[0; 12]);
    // two stacked VLAN tags, then an unknown frame type
    bytes.extend_from_slice(&[0x81, 0x00, 0xaa, 0xbb]);
    bytes.extend_from_slice(&[0x8a, 0x88, 0xcc, 0xdd]);
    bytes.extend_from_slice(&[0x12, 0x34]);
    let frame = Frame::from_bytes(&bytes).expect("well-formed frame");
    assert_eq!(frame.header.vlan_tag.len(), 2);
    assert_eq!(frame.header.vlan_tag[0], [0x81, 0x00, 0xaa, 0xbb]);
    assert_eq!(frame.header.vlan_tag[1], [0x8a, 0x88, 0xcc, 0xdd]);
    match frame.header.ethertype {
        EtherType::Other(b) => assert_eq!(b, [0x12, 0x34]),
        _ => panic!("expected an unknown frame type"),
    }
}

#[test]
fn ethernet_short_frames_are_rejected() {
    assert_eq!(
        Frame::from_bytes(&vec![1, 2, 3]).err(),
        Some("Not enough bytes for MAC source")
    );
    assert_eq!(
        Frame::from_bytes(&vec![0; 8]).err(),
        Some("Not enough bytes for MAC destination")
    );
    // the address bytes are there but the frame type is cut short
    assert_eq!(
        Frame::from_bytes(&vec![0; 13]).err(),
        Some("Not enough bytes for EtherType")
    );
    // a tag identifier with a truncated tag
    let mut bytes = vec![0u8; 12];
    bytes.extend_from_slice(&[0x81, 0x00, 0x11]);
    assert_eq!(Frame::from_bytes(&bytes).err(), Some("Not enough bytes for EtherType"));
}

fn bdf_text() -> Vec<u8> {
    let mut text = String::new();
    // the fixed header the parser skips
    for n in 0..27 {
        text.push_str(&format!("HEADER {}\n", n));
    }
    text.push_str("STARTCHAR A\n");
    text.push_str("ENCODING 65\n");
    text.push_str("BITMAP\n");
    text.push_str("8000\n");
    for _ in 0..16 {
        text.push_str("0001\n");
    }
    text.push_str("ffff\n");
    text.push_str("ENDCHAR\n");
    text.push_str("ENDFONT\n");
    text.into_bytes()
}

#[test]
fn bdf_glyph_bits_land_in_place() {
    let font = kcore::fonts::parse_bdf(&bdf_text()).expect("well-formed font");
    assert_eq!(font.glyphs.len(), 96);
    let glyph = font.glyphs.get(65 - 32).unwrap();
    assert_eq!(glyph.codepoint, 65);
    // first row: 8000 = leftmost pixel only
    assert_eq!(glyph.bitmap[0][0], 1);
    for c in 1..16 {
        assert_eq!(glyph.bitmap[0][c], 0);
    }
    // middle rows: 0001 = rightmost pixel only
    assert_eq!(glyph.bitmap[1][15], 1);
    assert_eq!(glyph.bitmap[1][14], 0);
    // last row: ffff = all pixels
    for c in 0..16 {
        assert_eq!(glyph.bitmap[17][c], 1);
    }
    // untouched slots stay empty
    assert_eq!(font.glyphs[0].codepoint, 0);
}

#[test]
fn bdf_get_glyph_indexes_by_codepoint() {
    let font = kcore::fonts::parse_bdf(&bdf_text()).expect("well-formed font");
    let glyph = font.get_glyph(65);
    assert_eq!(glyph.codepoint, 65);
}

#[test]
fn bdf_corrupt_keyword_order_is_rejected() {
    let mut text = String::new();
    for n in 0..27 {
        text.push_str(&format!("HEADER {}\n", n));
    }
    // ENCODING without a STARTCHAR
    text.push_str("ENCODING 65\n");
    let r = kcore::fonts::parse_bdf(&text.into_bytes());
    assert_eq!(r.err(), Some("corrupt bdf: ENCODING"));
}

#[test]
fn serial_write_then_read_round_trip() {
    let mut com = kcore::serial::Com::new(0x3f8, 2);
    assert!(com.write_all(&vec![b'O', b'K']).is_ok());
    assert_eq!(com.tx, vec![b'O', b'K']);
    // the wire delivers three bytes; a non-blocking read takes what fits
    com.rx = vec![10, 20, 30];
    let mut buf = vec![0u8; 2];
    let n = com.read(&mut buf).unwrap();
    assert_eq!(n, 2);
    assert_eq!(buf, vec![10, 20]);
    let mut rest = vec![0u8; 4];
    let n = com.read(&mut rest).unwrap();
    assert_eq!(n, 1);
    assert_eq!(rest[0], 30);
}

#[test]
fn allocator_aligns_and_advances() {
    let mut a = kcore::malloc::KernelAllocator::new(0x1000);
    let p1 = a.allocate(24, 8);
    assert_eq!(p1 % 8, 0);
    assert!(p1 > 0x1000);
    assert_eq!(p1, 0x1008);
    let p2 = a.allocate(100, 16);
    assert_eq!(p2 % 16, 0);
    // allocations never overlap: the second begins past the first
    assert!(p2 >= p1 + 24);
}

#[test]
fn gdt_has_flat_code_and_data() {
    let gdt = kcore::pm::init_pm();
    assert_eq!(gdt.len(), 8);
    assert_eq!(gdt[0], 0);
    assert_eq!(gdt[1], 0xaf9a << 40);
    assert_eq!(gdt[2], 0xcf92 << 40);
}

#[test]
fn phys_addr_walks_gigabyte_pages() {
    let mut pdpt = vec![0u64; 512];
    // map the second gigabyte slot of the high half
    kcore::mm::init_mm(&mut pdpt);
    let idx = ((kcore::mm::KERNEL_BASE_SECOND_GIB & kcore::mm::MASK_38_30) >> 30) as usize;
    assert_eq!(pdpt[idx] & 0x83, 0x83);
    // a 1 GiB entry translates base plus offset
    let linear = kcore::mm::KERNEL_BASE_SECOND_GIB + 0x1234;
    let phys = kcore::mm::phys_addr(&pdpt, linear);
    assert_eq!(phys, 0x40000000 + 0x1234);
    // an entry without the page-size bit translates to 0
    let mut flat = vec![0u64; 512];
    flat[idx] = 0x40000003;
    assert_eq!(kcore::mm::phys_addr(&flat, linear), 0);
}

#[test]
fn pci_get_device_drains_matching() {
    let dev = |bus: u16, vid: u16, did: u16| PCIDevice {
        bus_number: bus,
        device_number: 0,
        device_id: did,
        vendor_id: vid,
        subsystem_id: 0,
        subsystem_vendor_id: 0,
        msi_capability_pointer: None,
    };
    let mut pci = PCI {
        devices: vec![dev(0, 0x10ec, 0x8139), dev(1, 0x8086, 0x100e), dev(2, 0x10ec, 0x8139)],
    };
    let taken = pci.get_device(0x10ec, 0x8139);
    assert_eq!(taken.len(), 2);
    assert_eq!(taken[0].bus_number, 0);
    assert_eq!(taken[1].bus_number, 2);
    assert_eq!(pci.devices.len(), 1);
    assert_eq!(pci.devices[0].vendor_id, 0x8086);
    // a second claim finds nothing
    assert_eq!(pci.get_device(0x10ec, 0x8139).len(), 0);
}

#[test]
fn pci_config_address_encoding() {
    let d = PCIDevice {
        bus_number: 2,
        device_number: 3,
        device_id: 0,
        vendor_id: 0,
        subsystem_id: 0,
        subsystem_vendor_id: 0,
        msi_capability_pointer: None,
    };
    let addr = d.config_address(0x10, 1);
    assert_eq!(addr, 0x80000000 | (2 << 16) | (3 << 11) | (1 << 8) | 0x10);
    assert_eq!(kcore::pci::control_register_of(0xdead_beef), 0xbeef);
    assert_eq!(kcore::pci::status_register_of(0xdead_beef), 0xdead);
}

#[test]
fn rtl8139_bar_decoding_and_ring_pointer() {
    let nic = kcore::rtl8139::RTL8139 { vector: 0x26, rx_buf: vec![0; 8192] };
    // I/O space: clear the two mode bits
    assert_eq!(nic.ioaddr(0xc001, 0x3c), 0xc000 + 0x3c);
    // memory space: clear the four low bits
    assert_eq!(nic.ioaddr(0xc008, 0x10), 0xc000 + 0x10);
    // the read pointer advances past header and frame, doubleword
    // aligned, wrapping at the ring size
    assert_eq!(kcore::rtl8139::advance_capr(0, 60), (0 + 4 + 60 + 3) & !3);
    assert_eq!(kcore::rtl8139::advance_capr(8190, 10), ((8190 + 4 + 10 + 3) & !3) % 8192);
}

#[test]
fn boot_relocation_keeps_the_record() {
    let mm = vec![
        MemoryDescriptor { ty: 7, phys_start: 0x100000, virt_start: 0, page_count: 0x4000, attribute: 0xf },
        MemoryDescriptor { ty: 0, phys_start: 0x40000000, virt_start: 0, page_count: 16, attribute: 0 },
        MemoryDescriptor { ty: 0, phys_start: 0x50000000, virt_start: 0, page_count: 16, attribute: 0 },
        MemoryDescriptor { ty: 0, phys_start: 0x60000000, virt_start: 0, page_count: 16, attribute: 0 },
    ];
    let record = RawBootData {
        memory_map: mm.clone(),
        framebuffer: RawFramebuffer {
            framebuffer_base: 0xC0000000,
            framebuffer_size: 0x300000,
            horizontal_resolution: 1024,
            vertical_resolution: 768,
            pixels_per_scan_line: 1024,
            pixel_format: 1,
        },
        system_table: 0x7f000000,
        acpi_rsdp: 0x7e000000,
    };
    let boot = BootData::relocate(record, 0xffffffff80000000);
    assert_eq!(boot.memory_map, mm);
    assert_eq!(boot.framebuffer.framebuffer_base, 0xC0000000);
    assert_eq!(boot.framebuffer.framebuffer_size, 0x300000);
    assert_eq!(boot.acpi_rsdp, 0x7e000000);
}

#[test]
fn pit_programs_rate_generator() {
    let mut pit = kcore::pit::PIT::new();
    assert_eq!(kcore::pit::pit_tick(&pit), None);
    pit.start_rate();
    assert_eq!(pit.control, 0b00110100);
    assert_eq!(pit.counter, 1193);
    kcore::pit::register_tick(&mut pit);
    assert_eq!(kcore::pit::pit_tick(&pit), Some(1_000_000));
}

#[test]
fn hpet_reports_time_and_deltas() {
    let regs = HpetRegs {
        capabilities: (2 << 8) | (1 << 13),
        period_femtoseconds: 10_000_000,
        general_config: 0,
        main_counter: 1_000,
        timer_config: vec![1 << 4, 0],
        timer_comparator: vec![0, 0],
        timer_routing: vec![1 << 2, 0],
    };
    let acpi_hpet = kcore::acpi::HPET {
        hardware_rev_id: 1,
        comparator_count: 2,
        counter_size: 1,
        legacy_replacement_irq_routing_capable: false,
        pci_vendor_id: 0x8086,
        address_space_id: 0,
        register_bit_width: 64,
        register_bit_offset: 0,
        base_address: 0xFED00000,
        hpet_number: 0,
        minimum_tick: 0,
        page_protection: 0,
    };
    let mut h = HPET::from_acpi(acpi_hpet, regs);
    assert_eq!(h.counter_clock_period, 10);
    assert_eq!(kcore::hpet::get_time(&h), 10_000);
    // no callback registered: the tick is dropped but the reading kept
    assert_eq!(kcore::hpet::hpet_tick(&mut h), None);
    assert_eq!(h.last_tick_count_timer_0, 1_000);
    kcore::hpet::register_tick(&mut h);
    h.regs.main_counter = 1_500;
    // the delta counts every missed tick since the last reading
    assert_eq!(kcore::hpet::hpet_tick(&mut h), Some(5_000));
}

#[test]
fn madt_walk_collects_controllers_and_overrides() {
    let mut t = vec![0u8; 36];
    // local controller address in the fixed header
    t.extend_from_slice(&0xFEE00000u32.to_le_bytes());
    // flags
    t.extend_from_slice(&[0, 0, 0, 0]);
    // type 1: IO controller at 0xFEC00000, interrupt base 0
    t.extend_from_slice(&[1, 12, 9, 0]);
    t.extend_from_slice(&0xFEC00000u32.to_le_bytes());
    t.extend_from_slice(&0u32.to_le_bytes());
    // type 2: legacy IRQ 0 rerouted to global interrupt 2
    t.extend_from_slice(&[2, 10, 0, 0, 2, 0, 0, 0, 0, 0]);
    // an entry type the walk skips
    t.extend_from_slice(&[9, 4, 0, 0]);
    let m = kcore::acpi::parse_madt(&t).expect("well-formed table");
    assert_eq!(m.lapic_addr, 0xFEE00000);
    assert_eq!(m.ioapic_addr, 0xFEC00000);
    assert_eq!(m.global_system_interrupt_base, 0);
    assert_eq!(m.interrupt_mappings.len(), 1);
    assert_eq!(m.interrupt_mappings[0].irq_number, 0);
    assert_eq!(m.interrupt_mappings[0].global_system_interrupt, 2);
}

#[test]
fn madt_lapic_override_wins() {
    let mut t = vec![0u8; 36];
    t.extend_from_slice(&0xFEE00000u32.to_le_bytes());
    t.extend_from_slice(&[0, 0, 0, 0]);
    // type 5: 64-bit local controller address override
    t.extend_from_slice(&[5, 12, 0, 0]);
    t.extend_from_slice(&0x1_0000_0000u64.to_le_bytes());
    let m = kcore::acpi::parse_madt(&t).expect("well-formed table");
    assert_eq!(m.lapic_addr, 0x1_0000_0000usize);
}

#[test]
fn madt_malformed_entries_are_rejected() {
    // shorter than the fixed header
    assert!(kcore::acpi::parse_madt(&vec![0u8; 20]).is_err());
    // a zero length byte would not move the walk forward
    let mut t = vec![0u8; 44];
    t.extend_from_slice(&[1, 0]);
    assert!(kcore::acpi::parse_madt(&t).is_err());
    // an entry longer than the table
    let mut t = vec![0u8; 44];
    t.extend_from_slice(&[2, 40, 0, 0, 2]);
    assert!(kcore::acpi::parse_madt(&t).is_err());
}

#[test]
fn hpet_table_fields_are_decoded() {
    let mut t = vec![0u8; 36];
    // event timer block id: revision 1, 3 comparators, 64-bit counter,
    // vendor 0x8086
    let block_id: u32 = 1 | (3 << 8) | (1 << 13) | (0x8086 << 16);
    t.extend_from_slice(&block_id.to_le_bytes());
    // address space, register width, register offset, reserved
    t.extend_from_slice(&[0, 64, 0, 0]);
    // base address
    t.extend_from_slice(&0xFED00000u64.to_le_bytes());
    // number, minimum tick, page protection
    t.push(0);
    t.push(0);
    t.extend_from_slice(&128u16.to_le_bytes());
    t.push(0);
    let h = kcore::acpi::parse_hpet(&t).expect("well-formed table");
    assert_eq!(h.hardware_rev_id, 1);
    assert_eq!(h.comparator_count, 3);
    assert_eq!(h.counter_size, 1);
    assert_eq!(h.pci_vendor_id, 0x8086);
    assert_eq!(h.base_address, 0xFED00000);
    assert_eq!(h.register_bit_width, 64);
    assert_eq!(h.minimum_tick, 128);
    // a table cut short is rejected
    assert!(kcore::acpi::parse_hpet(&vec![0u8; 40]).is_err());
}

#[test]
fn rtl8139_receive_walk_extracts_frames() {
    // two records: status 0x0001 size 3, then status 0x0001 size 2
    let mut w: Vec<u8> = Vec::new();
    w.extend_from_slice(&[0x01, 0x00, 3, 0, 0xaa, 0xbb, 0xcc]);
    w.extend_from_slice(&[0x01, 0x00, 2, 0, 0x11, 0x22]);
    let frames = kcore::rtl8139::handle_receive(&w).expect("well-formed window");
    assert_eq!(frames.len(), 2);
    assert_eq!(frames[0].rsr, 1);
    assert_eq!(frames[0].bytes, vec![0xaa, 0xbb, 0xcc]);
    assert_eq!(frames[1].bytes, vec![0x11, 0x22]);
    // a record whose size runs past the window is rejected
    let bad = vec![0x01, 0x00, 9, 0, 0xaa];
    assert!(kcore::rtl8139::handle_receive(&bad).is_err());
    // an empty window holds no frames
    assert_eq!(kcore::rtl8139::handle_receive(&Vec::new()).unwrap().len(), 0);
}
