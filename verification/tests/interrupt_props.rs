//! Interrupt apparatus behaviour: descriptor encoding, redirection-entry
//! masking, handler registration and device-interrupt dispatch.

use kcore::interrupt::{interrupt_descriptor, IOAPIC};
use kcore::spinlock::{Cpu, WithSpinLock};

use kcore::acpi::{InterruptMapping, MADT};
use kcore::hpet::HpetRegs;
use kcore::interrupt::IsrStubs;
use kcore::kernel::Kernel;
#[test]
fn interrupt_descriptor_fields() {
    let d = interrupt_descriptor(0xffff_8000_1234_5678);
    // offset 15:0
    assert_eq!(d & 0xffff, 0x5678);
    // offset 63:16 in bits 95:48
    assert_eq!((d >> 48) & 0xffff_ffff_ffff, 0xffff_8000_1234);
    // kernel code selector
    assert_eq!((d >> 16) & 0xffff, 0x8);
    // interrupt gate, present
    assert_eq!((d >> 40) & 0xf, 0xe);
    assert_eq!((d >> 47) & 1, 1);
}

#[test]
fn mask_line_round_trip_restores_entry() {
    let mut ioapic = IOAPIC::new(0xFEC00000);
    ioapic.remap(0, 5, 0x26);
    let before = ioapic.regs[0x10 + 5 * 2];
    assert_eq!(before & 0x10000, 0);
    ioapic.mask_line(true, 5);
    assert_eq!(ioapic.regs[0x10 + 5 * 2] & 0x10000, 0x10000);
    ioapic.mask_line(false, 5);
    // the redirection entry's mask bit is back to its prior value
    assert_eq!(ioapic.regs[0x10 + 5 * 2], before);
}

#[test]
fn remap_writes_redirection_pair() {
    let mut ioapic = IOAPIC::new(0xFEC00000);
    ioapic.remap(2, 11, 0x42);
    assert_eq!(ioapic.regs[0x10 + 11 * 2], 0x42);
    assert_eq!(ioapic.regs[0x10 + 11 * 2 + 1], (2 << 24) & 0x0f000000);
}

#[test]
fn device_irq_registration_and_dispatch() {
    let madt = MADT {
        lapic_addr: 0xFEE00000,
        ioapic_addr: 0xFEC00000,
        global_system_interrupt_base: 0,
        interrupt_mappings: vec![InterruptMapping { irq_number: 11, global_system_interrupt: 11 }],
    };
    let acpi_hpet = kcore::acpi::HPET {
        hardware_rev_id: 1,
        comparator_count: 1,
        counter_size: 1,
        legacy_replacement_irq_routing_capable: false,
        pci_vendor_id: 0x8086,
        address_space_id: 0,
        register_bit_width: 64,
        register_bit_offset: 0,
        base_address: 0xFED00000,
        hpet_number: 0,
        minimum_tick: 0,
        page_protection: 0,
    };
    let regs = HpetRegs {
        capabilities: (1 << 8) | (1 << 13),
        period_femtoseconds: 10_000_000,
        general_config: 0,
        main_counter: 0,
        timer_config: vec![1 << 4],
        timer_comparator: vec![0],
        timer_routing: vec![1 << 2],
    };
    let isr = IsrStubs {
        page_fault: 0x1000,
        general_protection_fault: 0x1100,
        pit: 0x1200,
        com0: 0x1300,
        device_0x26: 0x1400,
    };
    let (mut k, _) = Kernel::start(&madt, acpi_hpet, regs, &isr, 0x8000, 0x1000);

    // register a handler H for vector 0x26 and remap line 11 to it
    kcore::interrupt::register_handler(&mut k.intr.handlers, 0x26, 0xAB42);
    k.intr.ioapic.remap(0, 11, 0x26);
    assert_eq!(k.intr.ioapic.regs[0x10 + 11 * 2], 0x26);

    // raise the line: H is invoked once with vector 0x26, and the
    // end-of-interrupt is observed before returning
    let handler = k.device_interrupt(0x26);
    assert_eq!(handler, Some(0xAB42));
    assert_eq!(k.intr.lapic.in_service, None);

    // an unregistered vector is silently end-of-interrupted
    let none = k.device_interrupt(0x27);
    assert_eq!(none, None);
    assert_eq!(k.intr.lapic.in_service, None);
}

#[test]
fn nested_locks_restore_interrupts_once() {
    let mut cpu = Cpu { interrupts_enabled: true };
    let mut sched_lock: WithSpinLock<u32> = WithSpinLock::new(1);
    let mut clock_lock: WithSpinLock<u32> = WithSpinLock::new(2);
    // outer acquire disables interrupts
    let outer = sched_lock.lock(&mut cpu);
    assert!(!cpu.interrupts_enabled);
    // inner acquire sees them already disabled
    let inner = clock_lock.lock(&mut cpu);
    assert!(!cpu.interrupts_enabled);
    // inner release does not re-enable
    clock_lock.unlock(&mut cpu, inner);
    assert!(!cpu.interrupts_enabled);
    // only the outer release restores the state before the pair
    sched_lock.unlock(&mut cpu, outer);
    assert!(cpu.interrupts_enabled);
}

#[test]
fn lock_release_restores_prior_state() {
    // acquiring with interrupts already disabled keeps them disabled
    let mut cpu = Cpu { interrupts_enabled: false };
    let mut lock: WithSpinLock<u32> = WithSpinLock::new(0);
    let guard = lock.lock(&mut cpu);
    assert!(!cpu.interrupts_enabled);
    lock.unlock(&mut cpu, guard);
    assert!(!cpu.interrupts_enabled);
}

#[test]
fn guard_moves_across_a_switch() {
    // the guard is a movable value: it can be handed to other code and
    // released there, as the scheduler does across the context switch
    let mut cpu = Cpu { interrupts_enabled: true };
    let mut lock: WithSpinLock<u32> = WithSpinLock::new(0);
    let guard = lock.lock(&mut cpu);
    let handed_over = guard;
    lock.unlock(&mut cpu, handed_over);
    assert!(cpu.interrupts_enabled);
    assert!(!lock.locked);
}
