//! The high-precision event timer: the kernel's clock source.  Its
//! memory-mapped register block is modelled explicitly, so the
//! initialization sequence — periodic mode, a 1 ms comparator, enabling
//! the counter and unmasking its interrupt line — is checked against the
//! register contents it must produce.

use vstd::prelude::*;

use crate::acpi;
use crate::interrupt::IOAPIC;

verus! {

/// The timer's register block: the capability words, the configuration
/// register, the main counter, and each comparator's registers.
pub struct HpetRegs {
    /// General capability register, low word: comparator count in bits
    /// 12:8, counter size in bit 13, legacy-replacement capability in
    /// bit 15.
    pub capabilities: u32,
    /// General capability register, high word: the counter period in
    /// femtoseconds.
    pub period_femtoseconds: u32,
    /// General configuration register; bit 0 enables the main counter.
    pub general_config: u32,
    /// The running main counter.
    pub main_counter: u64,
    /// Per-comparator configuration registers.
    pub timer_config: Vec<u32>,
    /// Per-comparator comparator value registers.
    pub timer_comparator: Vec<u64>,
    /// Per-comparator interrupt-routing capability words.
    pub timer_routing: Vec<u32>,
}

/// The kernel-side timer state: the decoded capabilities, the tick
/// callback slot, and the register block.
pub struct HPET {
    /// Physical base address of the register block.
    pub base_address: usize,
    pub comparator_count: u8,
    pub counter_size: u8,
    pub legacy_replacement_irq_routing_capable: bool,
    /// Counter period in nanoseconds.
    pub counter_clock_period: u32,
    /// Main-counter reading at the previous tick, for delta computation.
    pub last_tick_count_timer_0: u64,
    /// Whether a tick callback has been registered.
    pub tick_registered: bool,
    /// The memory-mapped registers.
    pub regs: HpetRegs,
}

impl HPET {
    /// One register of each kind per comparator.
    pub open spec fn wf(self) -> bool {
        &&& self.regs.timer_config@.len() == self.comparator_count
        &&& self.regs.timer_comparator@.len() == self.comparator_count
        &&& self.regs.timer_routing@.len() == self.comparator_count
    }

    /// Builds the timer state from its ACPI description and its register
    /// block.  The description must agree with the capability register,
    /// which the hardware guarantees; the period is converted from
    /// femtoseconds to nanoseconds.
    pub fn from_acpi(hpet: acpi::HPET, regs: HpetRegs) -> (r: HPET)
        requires
            hpet.comparator_count == (regs.capabilities >> 8) & 0x1f,
            hpet.counter_size == (regs.capabilities >> 13) & 0x1,
            hpet.legacy_replacement_irq_routing_capable == ((regs.capabilities >> 15) & 0x1
                != 0),
            regs.timer_config@.len() == hpet.comparator_count,
            regs.timer_comparator@.len() == hpet.comparator_count,
            regs.timer_routing@.len() == hpet.comparator_count,
        ensures
            r.wf(),
            r.base_address == hpet.base_address,
            r.comparator_count == hpet.comparator_count,
            r.counter_size == hpet.counter_size,
            r.legacy_replacement_irq_routing_capable
                == hpet.legacy_replacement_irq_routing_capable,
            r.counter_clock_period == regs.period_femtoseconds / 1_000_000,
            r.last_tick_count_timer_0 == 0,
            !r.tick_registered,
            r.regs == regs,
    {
        let period_femto_seconds = regs.period_femtoseconds;
        HPET {
            base_address: hpet.base_address,
            comparator_count: hpet.comparator_count,
            counter_size: hpet.counter_size,
            legacy_replacement_irq_routing_capable: hpet.legacy_replacement_irq_routing_capable,
            counter_clock_period: period_femto_seconds / 1_000_000,
            last_tick_count_timer_0: 0,
            tick_registered: false,
            regs,
        }
    }

    /// Enables the main counter by setting bit 0 of the configuration
    /// register.
    pub fn enable(&mut self)
        ensures
            final(self).regs.general_config == old(self).regs.general_config | 0x1,
            *final(self) == (HPET {
                regs: HpetRegs {
                    general_config: old(self).regs.general_config | 0x1,
                    ..old(self).regs
                },
                ..*old(self)
            }),
    {
        self.regs.general_config = self.regs.general_config | 0x1;
    }

    /// The current main-counter value.
    pub fn read_main_counter(&self) -> (r: u64)
        ensures
            r == self.regs.main_counter,
    {
        self.regs.main_counter
    }

    /// Configuration register of the given comparator; 0 for one that
    /// does not exist.
    pub fn get_timer_config(&self, timer: usize) -> (r: u32)
        requires
            self.wf(),
        ensures
            timer < self.comparator_count ==> r == self.regs.timer_config@[timer as int],
            timer >= self.comparator_count ==> r == 0,
    {
        if timer >= self.comparator_count as usize {
            return 0;
        }
        self.regs.timer_config[timer]
    }

    /// Writes the configuration register of the given comparator; a
    /// comparator that does not exist is left alone.
    pub fn set_timer_config(&mut self, timer: usize, config: u32)
        requires
            old(self).wf(),
        ensures
            final(self).wf(),
            timer < old(self).comparator_count ==> final(self).regs.timer_config@ == old(
                self,
            ).regs.timer_config@.update(timer as int, config),
            timer >= old(self).comparator_count ==> *final(self) == *old(self),
            final(self).regs.timer_comparator == old(self).regs.timer_comparator,
            final(self).regs.timer_routing == old(self).regs.timer_routing,
            final(self).regs.general_config == old(self).regs.general_config,
            final(self).regs.main_counter == old(self).regs.main_counter,
            final(self).comparator_count == old(self).comparator_count,
            final(self).counter_clock_period == old(self).counter_clock_period,
            final(self).last_tick_count_timer_0 == old(self).last_tick_count_timer_0,
            final(self).tick_registered == old(self).tick_registered,
    {
        if timer >= self.comparator_count as usize {
            return ;
        }
        self.regs.timer_config[timer] = config;
    }

    /// Interrupt-routing capability of the given comparator; 0 for one
    /// that does not exist.
    pub fn timer_routing_capability(&self, timer: usize) -> (r: u32)
        requires
            self.wf(),
        ensures
            timer < self.comparator_count ==> r == self.regs.timer_routing@[timer as int],
            timer >= self.comparator_count ==> r == 0,
    {
        if timer >= self.comparator_count as usize {
            return 0;
        }
        self.regs.timer_routing[timer]
    }

    /// Arms the given comparator: sets its value-write bit and writes the
    /// comparator value.
    pub fn set_timer_comparator(&mut self, timer: usize, count: u64)
        requires
            old(self).wf(),
            timer < old(self).comparator_count,
        ensures
            final(self).wf(),
            final(self).regs.timer_config@ == old(self).regs.timer_config@.update(
                timer as int,
                old(self).regs.timer_config@[timer as int] | 0x40,
            ),
            final(self).regs.timer_comparator@ == old(self).regs.timer_comparator@.update(
                timer as int,
                count,
            ),
            final(self).regs.timer_routing == old(self).regs.timer_routing,
            final(self).regs.general_config == old(self).regs.general_config,
            final(self).regs.main_counter == old(self).regs.main_counter,
            final(self).comparator_count == old(self).comparator_count,
            final(self).counter_clock_period == old(self).counter_clock_period,
            final(self).last_tick_count_timer_0 == old(self).last_tick_count_timer_0,
            final(self).tick_registered == old(self).tick_registered,
    {
        // Set the value-write bit (bit 6) so the write reaches the
        // comparator of a periodic timer.
        let cap_cnf = self.regs.timer_config[timer];
        self.regs.timer_config[timer] = cap_cnf | 0x40;
        self.regs.timer_comparator[timer] = count;
    }
}

/// Programs the timer as the kernel's 1 ms periodic tick source: routes
/// comparator 0 to IO-controller line 2, selects periodic mode with
/// interrupts enabled, arms the comparator at one millisecond of counter
/// ticks, enables the main counter, and unmasks the line.
pub fn init(hpet: acpi::HPET, regs: HpetRegs, ioapic: &mut IOAPIC) -> (r: HPET)
    requires
        old(ioapic).wf(),
        hpet.comparator_count == (regs.capabilities >> 8) & 0x1f,
        hpet.counter_size == (regs.capabilities >> 13) & 0x1,
        hpet.legacy_replacement_irq_routing_capable == ((regs.capabilities >> 15) & 0x1 != 0),
        regs.timer_config@.len() == hpet.comparator_count,
        regs.timer_comparator@.len() == hpet.comparator_count,
        regs.timer_routing@.len() == hpet.comparator_count,
        hpet.comparator_count >= 1,
        // comparator 0 must be routable to line 2 and support periodic mode
        (regs.timer_routing@[0] >> 2) & 0x1 != 0,
        (regs.timer_config@[0] >> 4) & 0x1 == 1,
        // the capability register must report a sane period
        regs.period_femtoseconds / 1_000_000 != 0,
    ensures
        r.wf(),
        r.counter_clock_period == regs.period_femtoseconds / 1_000_000,
        r.counter_clock_period != 0,
        r.regs.timer_config@[0] == (regs.timer_config@[0] | (0x5u32 << 9) | (0x1u32 << 3) | (0x1u32 << 2))
            | 0x40,
        r.regs.timer_comparator@[0] == 1_000_000u64 / r.counter_clock_period as u64,
        r.regs.general_config == regs.general_config | 0x1,
        r.regs.main_counter == regs.main_counter,
        !r.tick_registered,
        r.last_tick_count_timer_0 == 0,
        final(ioapic).wf(),
        final(ioapic).base_addr == old(ioapic).base_addr,
        final(ioapic).regs@ == old(ioapic).regs@.update(
            0x14int,
            crate::interrupt::mask_entry_spec(old(ioapic).regs@[0x14int], false),
        ),
{
    let mut hpet = HPET::from_acpi(hpet, regs);
    let timer_0_routing_cap = hpet.timer_routing_capability(0);
    // The timer interrupt must be routable to ISA line 2.
    let routable = (timer_0_routing_cap >> 2) & 0x1;
    let mut timer_0_config = hpet.get_timer_config(0);

    // Route interrupts to ISA line 2 (routing field in bits 13:9).
    timer_0_config = timer_0_config | (0x5 << 9);

    // Periodic mode.
    timer_0_config = timer_0_config | (0x1 << 3);

    // Enable interrupts.
    timer_0_config = timer_0_config | (0x1 << 2);

    hpet.set_timer_config(0, timer_0_config);
    // One millisecond of counter ticks.
    hpet.set_timer_comparator(0, 1_000_000 / (hpet.counter_clock_period) as u64);

    hpet.enable();
    ioapic.mask_line(false, 2);

    hpet
}

/// Time in nanoseconds since the main counter started: the counter value
/// times the counter period.
pub fn get_time(hpet: &HPET) -> (r: u64)
    requires
        hpet.regs.main_counter * hpet.counter_clock_period <= u64::MAX,
    ensures
        r == hpet.regs.main_counter * hpet.counter_clock_period,
{
    let ticks = hpet.read_main_counter();
    ticks * hpet.counter_clock_period as u64
}

/// Installs the tick callback invoked on each timer interrupt.
pub fn register_tick(hpet: &mut HPET)
    ensures
        *final(hpet) == (HPET { tick_registered: true, ..*old(hpet) }),
{
    hpet.tick_registered = true;
}

/// The timer interrupt's work: computes the nanoseconds elapsed since
/// the previous tick from the counter delta — so missed ticks are still
/// counted — remembers the current reading, and reports the delta to be
/// handed to the tick callback, if one is registered.
pub fn hpet_tick(hpet: &mut HPET) -> (r: Option<u64>)
    requires
        old(hpet).last_tick_count_timer_0 <= old(hpet).regs.main_counter,
        (old(hpet).regs.main_counter - old(hpet).last_tick_count_timer_0) * old(
            hpet,
        ).counter_clock_period <= u64::MAX,
    ensures
        *final(hpet) == (HPET {
            last_tick_count_timer_0: old(hpet).regs.main_counter,
            ..*old(hpet)
        }),
        old(hpet).tick_registered ==> r == Some(
            ((old(hpet).regs.main_counter - old(hpet).last_tick_count_timer_0) * old(
                hpet,
            ).counter_clock_period) as u64,
        ),
        !old(hpet).tick_registered ==> r is None,
{
    let current_count = hpet.read_main_counter();
    let delta_ticks = current_count - hpet.last_tick_count_timer_0;
    proof {
        let period = hpet.counter_clock_period;
        assert(delta_ticks * period >= 0) by (nonlinear_arith)
            requires
                delta_ticks >= 0,
                period >= 0,
        ;
    }
    let delta = delta_ticks * hpet.counter_clock_period as u64;
    let r = if hpet.tick_registered {
        Some(delta)
    } else {
        None
    };
    hpet.last_tick_count_timer_0 = current_count;
    r
}

} // verus!
