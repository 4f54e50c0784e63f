//! Scheduler behaviour driven end to end: boot, fairness, preemption,
//! sleep and wake, and the yield round trip.

use kcore::acpi::{InterruptMapping, MADT};
use kcore::hpet::HpetRegs;
use kcore::interrupt::IsrStubs;
use kcore::kernel::Kernel;
use kcore::sched::TaskList;

/// A platform description matching a small virtual machine: one local
/// controller, one IO controller, and a timer with a 10 ns period.
fn test_platform() -> (MADT, kcore::acpi::HPET, HpetRegs, IsrStubs) {
    let madt = MADT {
        lapic_addr: 0xFEE00000,
        ioapic_addr: 0xFEC00000,
        global_system_interrupt_base: 0,
        interrupt_mappings: vec![InterruptMapping { irq_number: 11, global_system_interrupt: 11 }],
    };
    let acpi_hpet = kcore::acpi::HPET {
        hardware_rev_id: 1,
        comparator_count: 3,
        counter_size: 1,
        legacy_replacement_irq_routing_capable: false,
        pci_vendor_id: 0x8086,
        address_space_id: 0,
        register_bit_width: 64,
        register_bit_offset: 0,
        base_address: 0xFED00000,
        hpet_number: 0,
        minimum_tick: 0,
        page_protection: 0,
    };
    let regs = HpetRegs {
        // comparator count 3 in bits 12:8, counter size in bit 13
        capabilities: (3 << 8) | (1 << 13),
        // 10 ns in femtoseconds
        period_femtoseconds: 10_000_000,
        general_config: 0,
        main_counter: 0,
        timer_config: vec![1 << 4, 0, 0],
        timer_comparator: vec![0, 0, 0],
        timer_routing: vec![1 << 2, 0, 0],
    };
    let isr = IsrStubs {
        page_fault: 0x1000,
        general_protection_fault: 0x1100,
        pit: 0x1200,
        com0: 0x1300,
        device_0x26: 0x1400,
    };
    (madt, acpi_hpet, regs, isr)
}

fn boot_kernel() -> Kernel {
    let (madt, acpi_hpet, regs, isr) = test_platform();
    let (kernel, _lapic_id) = Kernel::start(&madt, acpi_hpet, regs, &isr, 0x8000, 0x1000);
    kernel
}

/// Advances the timer by one millisecond of wall time and delivers the
/// periodic interrupt.
fn tick_ms(k: &mut Kernel) {
    // 1 ms at a 10 ns counter period
    k.hpet.data.regs.main_counter += 100_000;
    k.timer_interrupt();
}

#[test]
fn boot_to_idle() {
    let k = boot_kernel();
    // the kernel reaches the idle loop: idle is task 0, current, runnable
    assert_eq!(k.scheduler.data.current, 0);
    assert_eq!(k.scheduler.data.tasks.len(), 1);
    assert!(k.scheduler.data.tasks[0].flags.0 & 1 == 1);
    assert!(k.cpu.interrupts_enabled);
    assert_eq!(k.intr.lapic.base_addr, 0xFEE00000);
    assert_eq!(k.intr.ioapic.base_addr, 0xFEC00000);
    // 10 ns period decoded from the capability register
    assert_eq!(k.hpet.data.counter_clock_period, 10);
    // comparator 0 armed at 1 ms of counter ticks, periodic, enabled
    assert_eq!(k.hpet.data.regs.timer_comparator[0], 100_000);
    assert_eq!(k.hpet.data.regs.general_config & 1, 1);
    // the redirection table: keyboard on line 1, the timer line
    // unmasked once the timer started, the serial UART on line 4, the
    // mouse masked, and the spurious vector
    assert_eq!(k.intr.ioapic.regs[0x12], 0x21);
    assert_eq!(k.intr.ioapic.regs[0x14], 0x20);
    assert_eq!(k.intr.ioapic.regs[0x18], 0x24);
    assert_eq!(k.intr.ioapic.regs[0x28], 0x100ff);
    assert_eq!(k.intr.ioapic.regs[0xf0], 0x1ff);
    assert!(k.intr.pic_masked);
}

#[test]
fn boot_clock_advances_per_tick() {
    let mut k = boot_kernel();
    for n in 1..=5u64 {
        tick_ms(&mut k);
        // the logical clock advances by about 1,000,000 ns per 1 ms wall
        assert_eq!(k.clock.data.ticks, n * 1_000_000);
    }
}

#[test]
fn two_task_fairness() {
    let mut k = boot_kernel();
    let a = k.new_task(0x10000);
    let b = k.new_task(0x12000);
    // 100 ms of wall time with both tasks yielding in a loop
    for _ in 0..100 {
        tick_ms(&mut k);
        k.yield_now();
    }
    let rt_a = k.scheduler.data.tasks[a].total_runtime;
    let rt_b = k.scheduler.data.tasks[b].total_runtime;
    assert!(rt_a > 0);
    assert!(rt_b > 0);
    let diff = if rt_a > rt_b { rt_a - rt_b } else { rt_b - rt_a };
    // within the scheduling latency times the virtual-runtime weighting
    assert!(diff <= 20_000_000 * 3);
}

#[test]
fn preemption_switches_off_cpu_bound_task() {
    let mut k = boot_kernel();
    let a = k.new_task(0x10000);
    k.yield_now();
    assert_eq!(k.scheduler.data.current, a);
    let run_until = k.scheduler.data.tasks[a].run_until;
    // task A runs a CPU-bound loop without yielding; only ticks arrive
    let mut switched_at = None;
    for _ in 0..25 {
        tick_ms(&mut k);
        if k.scheduler.data.current != a {
            switched_at = Some(k.clock.data.ticks);
            break;
        }
    }
    let now = switched_at.expect("preemption must eventually switch A off");
    // the slice had expired when the switch happened
    assert!(run_until <= now);
    // with two tasks the slice is SCHED_LATENCY / 2 = 10 ms
    assert!(now <= 11_000_000);
}

#[test]
fn sleep_wakes_at_deadline() {
    let mut k = boot_kernel();
    let a = k.new_task(0x10000);
    k.yield_now();
    assert_eq!(k.scheduler.data.current, a);
    // A sleeps 50 ms at t0
    k.sleep(50);
    assert_eq!(k.scheduler.data.current, 0);
    // blocked: runnable bit clear, absent from the heap, for every tick
    // before the deadline
    for _ in 0..49 {
        tick_ms(&mut k);
        assert_eq!(k.scheduler.data.tasks[a].flags.0 & 1, 0);
        assert!(!k.scheduler.data.schedulable.contains(&a));
    }
    // the first tick at or after t0 + 50 ms makes A eligible again
    tick_ms(&mut k);
    assert_eq!(k.scheduler.data.tasks[a].flags.0 & 1, 1);
    assert!(
        k.scheduler.data.schedulable.contains(&a) || k.scheduler.data.current == a
    );
}

#[test]
fn sleep_zero_wakes_on_next_tick() {
    let mut k = boot_kernel();
    let a = k.new_task(0x10000);
    k.yield_now();
    assert_eq!(k.scheduler.data.current, a);
    k.sleep(0);
    // like a yield, the task gives up the processor ...
    assert_ne!(k.scheduler.data.current, a);
    assert_eq!(k.scheduler.data.tasks[a].flags.0 & 1, 0);
    // ... and is eligible again immediately: the very next tick wakes it
    tick_ms(&mut k);
    assert_eq!(k.scheduler.data.tasks[a].flags.0 & 1, 1);
    assert!(
        k.scheduler.data.schedulable.contains(&a) || k.scheduler.data.current == a
    );
}

#[test]
fn two_yields_restore_scheduling_state() {
    let mut k = boot_kernel();
    let a = k.new_task(0x10000);
    k.yield_now();
    assert_eq!(k.scheduler.data.current, a);
    // both tasks have run; equalize their runtimes through yielding at
    // one instant: no time passes between the two calls
    let before_current = k.scheduler.data.current;
    let before_sched = k.scheduler.data.schedulable.clone();
    let before_rt: Vec<u64> = k.scheduler.data.tasks.iter().map(|t| t.total_runtime).collect();
    let first = k.yield_now();
    let second = k.yield_now();
    // the pair undoes itself: one call hands the processor over, the
    // second hands it back
    assert_ne!(first, before_current);
    assert_eq!(second, before_current);
    assert_eq!(k.scheduler.data.current, before_current);
    assert_eq!(k.scheduler.data.schedulable, before_sched);
    let after_rt: Vec<u64> = k.scheduler.data.tasks.iter().map(|t| t.total_runtime).collect();
    assert_eq!(before_rt, after_rt);
}

#[test]
fn task_ids_are_monotonic_from_one() {
    let mut k = boot_kernel();
    let a = k.new_task(0x10000);
    let b = k.new_task(0x12000);
    let c = k.new_task(0x14000);
    // no created task can collide with the idle task's id
    assert_eq!(a, 1);
    assert_eq!(b, 2);
    assert_eq!(c, 3);
}

#[test]
fn runnable_heap_matches_runnable_bits() {
    let mut k = boot_kernel();
    let a = k.new_task(0x10000);
    let b = k.new_task(0x12000);
    for step in 0..10 {
        tick_ms(&mut k);
        if step % 2 == 0 {
            k.yield_now();
        }
        // invariant: (runnable and not current) iff in the heap
        for id in 0..k.scheduler.data.tasks.len() {
            let runnable = k.scheduler.data.tasks[id].flags.0 & 1 == 1;
            let in_heap = k.scheduler.data.schedulable.contains(&id);
            assert_eq!(in_heap, runnable && id != k.scheduler.data.current);
        }
    }
    let _ = (a, b);
}

#[test]
fn pop_picks_minimum_runtime() {
    let mut tl = TaskList::new();
    tl.init_idle_task(0, 0x8000, 0x1000);
    let a = tl.new_task(0x10000);
    let b = tl.new_task(0x12000);
    // give the tasks distinct runtimes by hand
    tl.tasks[a].total_runtime = 500;
    tl.tasks[b].total_runtime = 100;
    let popped = tl.next().expect("two tasks are runnable");
    assert_eq!(popped, b);
    let popped = tl.next().expect("one task left");
    assert_eq!(popped, a);
    assert_eq!(tl.next(), None);
}

#[test]
fn runtime_never_decreases() {
    let mut k = boot_kernel();
    let _a = k.new_task(0x10000);
    let mut last: Vec<u64> = k.scheduler.data.tasks.iter().map(|t| t.total_runtime).collect();
    for _ in 0..20 {
        tick_ms(&mut k);
        k.yield_now();
        let now: Vec<u64> = k.scheduler.data.tasks.iter().map(|t| t.total_runtime).collect();
        for (old, new) in last.iter().zip(now.iter()) {
            assert!(new >= old);
        }
        last = now;
    }
}

#[test]
fn switch_orders_dispatch_stamps() {
    let mut k = boot_kernel();
    let _a = k.new_task(0x10000);
    for _ in 0..5 {
        tick_ms(&mut k);
        let outgoing = k.scheduler.data.current;
        k.yield_now();
        let incoming = k.scheduler.data.current;
        let now = k.hpet.data.regs.main_counter * 10;
        // outgoing.last_scheduled <= now <= incoming.last_scheduled
        assert!(k.scheduler.data.tasks[outgoing].last_scheduled <= now);
        assert!(now <= k.scheduler.data.tasks[incoming].last_scheduled);
    }
}

#[test]
fn task_region_mask_finds_header() {
    // masking any address within the 8 KiB region yields its base
    let base: usize = 0x4000;
    for off in [0usize, 1, 0x100, 0x1fff] {
        assert_eq!(kcore::task::task_base_of(base + off), base);
    }
}
