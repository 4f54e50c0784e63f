//! The assembled runtime core: the processor state, the lock-guarded
//! scheduler, logical clock and timer, and the interrupt apparatus, with
//! the entry points that interrupts and tasks drive — yield, sleep, the
//! periodic tick, device interrupts and the preemption check.
//!
//! Every entry point acquires the locks in the discipline the design
//! prescribes: interrupts are disabled for the whole critical section and
//! the interrupt-enable state is restored exactly once, by the outermost
//! release.

use vstd::prelude::*;

use crate::acpi;
use crate::clock::{deadline_split, Callback, Clock};
use crate::hpet::{self, HpetRegs, HPET};
use crate::interrupt::{self, InterruptState, IsrStubs};
use crate::sched::{
    account_runtime_spec, can_switch_at, switch_next_spec, switch_sched_spec, switch_tasks_spec,
    TaskList,
};
use crate::spinlock::{Cpu, WithSpinLock};

verus! {

/// The kernel's global state: single processor, each shared subsystem
/// behind its own spin lock, the interrupt apparatus single-writer.
pub struct Kernel {
    /// The processor's interrupt-enable state.
    pub cpu: Cpu,
    /// Scheduler state: task table, runnable heap, current task.
    pub scheduler: WithSpinLock<TaskList>,
    /// The logical clock and its callback queue.
    pub clock: WithSpinLock<Clock>,
    /// The clock source.
    pub hpet: WithSpinLock<HPET>,
    /// Descriptor table, interrupt controllers and handler slots.
    pub intr: InterruptState,
}

impl Kernel {
    /// Quiescent well-formedness: no lock held and every subsystem well
    /// formed.
    pub open spec fn wf(self) -> bool {
        &&& !self.scheduler.locked
        &&& !self.clock.locked
        &&& !self.hpet.locked
        &&& self.scheduler.data.wf()
        &&& self.clock.data.wf()
        &&& self.hpet.data.wf()
        &&& self.intr.wf()
    }

    /// The clock source's current reading in nanoseconds.
    pub open spec fn now_spec(self) -> int {
        self.hpet.data.regs.main_counter * self.hpet.data.counter_clock_period
    }

    /// Brings the core up in the order the design prescribes: the idle
    /// task becomes the current context, the interrupt apparatus is
    /// programmed and interrupts are enabled, the timer is started as a
    /// 1 ms periodic source feeding the logical clock.  Returns the
    /// kernel state and the local controller id.
    pub fn start(
        madt: &acpi::MADT,
        acpi_hpet: acpi::HPET,
        hpet_regs: HpetRegs,
        isr: &IsrStubs,
        boot_stack_top: usize,
        boot_cr3: usize,
    ) -> (r: (Kernel, u32))
        requires
            acpi_hpet.comparator_count == (hpet_regs.capabilities >> 8) & 0x1f,
            acpi_hpet.counter_size == (hpet_regs.capabilities >> 13) & 0x1,
            acpi_hpet.legacy_replacement_irq_routing_capable == ((hpet_regs.capabilities >> 15)
                & 0x1 != 0),
            hpet_regs.timer_config@.len() == acpi_hpet.comparator_count,
            hpet_regs.timer_comparator@.len() == acpi_hpet.comparator_count,
            hpet_regs.timer_routing@.len() == acpi_hpet.comparator_count,
            acpi_hpet.comparator_count >= 1,
            (hpet_regs.timer_routing@[0] >> 2) & 0x1 != 0,
            (hpet_regs.timer_config@[0] >> 4) & 0x1 == 1,
            hpet_regs.period_femtoseconds / 1_000_000 != 0,
        ensures
            r.0.wf(),
            r.0.cpu.interrupts_enabled,
            r.0.scheduler.data.tasks@.len() == 1,
            r.0.scheduler.data.current == 0,
            r.0.scheduler.data.tasks@[0].runnable(),
            r.0.scheduler.data.tasks@[0].last_scheduled == 0,
            r.0.scheduler.data.tasks@[0].total_runtime == 0,
            r.0.scheduler.data.schedulable@.len() == 0,
            r.0.clock.data.ticks == 0,
            r.0.clock.data.callbacks@.len() == 0,
            r.0.hpet.data.tick_registered,
            r.0.hpet.data.counter_clock_period == hpet_regs.period_femtoseconds / 1_000_000,
            r.0.hpet.data.regs.main_counter == hpet_regs.main_counter,
            r.0.hpet.data.last_tick_count_timer_0 == 0,
            r.0.hpet.data.regs.general_config == hpet_regs.general_config | 0x1,
            r.0.intr.idt@[0x0e] == interrupt::interrupt_descriptor_spec(isr.page_fault),
            r.0.intr.idt@[0x0d] == interrupt::interrupt_descriptor_spec(
                isr.general_protection_fault,
            ),
            r.0.intr.idt@[0x20] == interrupt::interrupt_descriptor_spec(isr.pit),
            r.0.intr.idt@[0x24] == interrupt::interrupt_descriptor_spec(isr.com0),
            r.0.intr.idt@[0x26] == interrupt::interrupt_descriptor_spec(isr.device_0x26),
            forall|k: int|
                0 <= k < interrupt::IRQ_HANDLER_SLOTS ==> r.0.intr.handlers.slots@[k] == 0,
            r.0.intr.pic_masked,
            // the redirection table after boot: keyboard on line 1, the
            // timer on line 2 — unmasked once the timer is started —
            // the serial UART on line 4, the mouse on line 12 (masked),
            // and the spurious vector
            r.0.intr.ioapic.base_addr == madt.ioapic_addr,
            r.0.intr.ioapic.regs@[0x12] == 0x21,
            r.0.intr.ioapic.regs@[0x14] == 0x20,
            r.0.intr.ioapic.regs@[0x15] == (r.1 << 24) & 0x0f000000,
            r.0.intr.ioapic.regs@[0x18] == 0x24,
            r.0.intr.ioapic.regs@[0x19] == (r.1 << 24) & 0x0f000000,
            r.0.intr.ioapic.regs@[0x28] == 0x100ff,
            r.0.intr.ioapic.regs@[0x29] == (r.1 << 24) & 0x0f000000,
            r.0.intr.ioapic.regs@[0xf0] == 0x1ff,
            r.0.intr.lapic.base_addr == madt.lapic_addr,
            r.0.intr.lapic.in_service is None,
    {
        let mut cpu = Cpu { interrupts_enabled: false };

        // Scheduler first: the boot context becomes the idle task.  The
        // clock source is not running yet, so its reading is zero.
        let mut task_list = TaskList::new();
        task_list.init_idle_task(0, boot_stack_top, boot_cr3);

        // Interrupt apparatus; enables interrupts.
        let (mut intr, _lapic_id) = interrupt::init(madt, isr, &mut cpu);

        // Clock source at 1 ms, feeding the logical clock on every tick.
        let mut h = hpet::init(acpi_hpet, hpet_regs, &mut intr.ioapic);
        hpet::register_tick(&mut h);
        let clock = Clock::new();

        proof {
            // starting the timer unmasks its line: the mask bit of the
            // line 2 entry is cleared, leaving the vector
            assert(0x10020u32 & 0xfffeffff == 0x20) by (bit_vector);
        }
        let lapic_id = intr.lapic.id();
        let k = Kernel {
            cpu,
            scheduler: WithSpinLock::new(task_list),
            clock: WithSpinLock::new(clock),
            hpet: WithSpinLock::new(h),
            intr,
        };
        (k, lapic_id)
    }

    /// Creates a kernel task in the 8 KiB region at `region_base` and
    /// makes it eligible to run; its id is returned and is never 0, the
    /// idle task's id.
    pub fn new_task(&mut self, region_base: usize) -> (id: usize)
        requires
            old(self).wf(),
            old(self).scheduler.data.tasks@.len() < usize::MAX,
            region_base as int % crate::task::KERNEL_STACK_SIZE as int == 0,
            region_base + crate::task::KERNEL_STACK_SIZE <= usize::MAX,
        ensures
            final(self).wf(),
            final(self).cpu.interrupts_enabled == old(self).cpu.interrupts_enabled,
            id == old(self).scheduler.data.tasks@.len(),
            id >= 1,
            final(self).scheduler.data.tasks@.len() == id + 1,
            final(self).scheduler.data.tasks@[id as int].runnable(),
            final(self).scheduler.data.tasks@[id as int].total_runtime == 0,
            final(self).scheduler.data.schedulable@ == old(self).scheduler.data.schedulable@.push(id),
            final(self).scheduler.data.current == old(self).scheduler.data.current,
            final(self).clock == old(self).clock,
            final(self).hpet == old(self).hpet,
            final(self).intr == old(self).intr,
    {
        let guard = self.scheduler.lock(&mut self.cpu);
        let id = self.scheduler.data_mut().new_task(region_base);
        self.scheduler.unlock(&mut self.cpu, guard);
        proof {
            assert(1u32 & 1 == 1) by (bit_vector);
        }
        id
    }

    /// Voluntary yield: acquires the scheduler lock and performs the
    /// switch procedure at the clock source's current reading.  The
    /// interrupt-enable state is restored by the release.
    pub fn yield_now(&mut self) -> (to: usize)
        requires
            old(self).wf(),
            old(self).now_spec() <= u64::MAX,
            can_switch_at(old(self).scheduler.data, old(self).now_spec() as u64),
        ensures
            final(self).wf(),
            final(self).cpu.interrupts_enabled == old(self).cpu.interrupts_enabled,
            to == final(self).scheduler.data.current,
            final(self).scheduler.data.tasks@ == switch_tasks_spec(
                old(self).scheduler.data.tasks@,
                old(self).scheduler.data.schedulable@,
                old(self).scheduler.data.current,
                old(self).now_spec() as u64,
            ),
            final(self).scheduler.data.schedulable@ == switch_sched_spec(
                old(self).scheduler.data.tasks@,
                old(self).scheduler.data.schedulable@,
                old(self).scheduler.data.current,
                old(self).now_spec() as u64,
            ),
            final(self).scheduler.data.current == switch_next_spec(
                old(self).scheduler.data.tasks@,
                old(self).scheduler.data.schedulable@,
                old(self).scheduler.data.current,
                old(self).now_spec() as u64,
            ),
            final(self).scheduler.data.next_task_id == old(self).scheduler.data.next_task_id,
            final(self).clock == old(self).clock,
            final(self).hpet == old(self).hpet,
            final(self).intr == old(self).intr,
    {
        let guard = self.scheduler.lock(&mut self.cpu);
        let hguard = self.hpet.lock(&mut self.cpu);
        let now = hpet::get_time(&self.hpet.data);
        self.hpet.unlock(&mut self.cpu, hguard);
        let to = self.scheduler.data_mut().switch(now);
        self.scheduler.unlock(&mut self.cpu, guard);
        to
    }

    /// Task-level sleep: while holding the scheduler lock, clears the
    /// running task's runnable bit, registers a wake-up callback for
    /// `ms` milliseconds from now, and switches away.  The sleeper is
    /// blocked — off the runnable heap — until the callback fires, so
    /// the switch always dispatches some other task.  The idle task
    /// never sleeps.
    pub fn sleep(&mut self, ms: u64)
        requires
            old(self).wf(),
            old(self).scheduler.data.current != 0,
            old(self).now_spec() + ms * 1_000_000 <= u64::MAX,
            old(self).clock.data.ticks <= old(self).now_spec(),
            can_switch_at(old(self).scheduler.data, old(self).now_spec() as u64),
        ensures
            final(self).wf(),
            final(self).cpu.interrupts_enabled == old(self).cpu.interrupts_enabled,
            // the wake-up is queued for now + ms milliseconds
            final(self).clock.data.ticks == old(self).now_spec(),
            final(self).clock.data.callbacks@ == old(self).clock.data.callbacks@.insert(
                deadline_split(
                    old(self).clock.data.callbacks@,
                    (old(self).now_spec() + ms * 1_000_000) as u64,
                ),
                (
                    (old(self).now_spec() + ms * 1_000_000) as u64,
                    Callback::WakeTask(old(self).scheduler.data.current),
                ),
            ),
            // the sleeper is blocked and absent from the heap
            !final(self).scheduler.data.tasks@[old(self).scheduler.data.current as int].runnable(),
            !final(self).scheduler.data.schedulable@.contains(old(self).scheduler.data.current),
            final(self).scheduler.data.current != old(self).scheduler.data.current,
            final(self).scheduler.data.tasks@.len() == old(self).scheduler.data.tasks@.len(),
            // the switch acts on the blocked state exactly as any switch
            final(self).scheduler.data.tasks@ == switch_tasks_spec(
                old(self).scheduler.data.tasks@.update(
                    old(self).scheduler.data.current as int,
                    (crate::task::TaskInfo {
                        flags: crate::task::TaskFlags(0),
                        ..old(self).scheduler.data.tasks@[old(self).scheduler.data.current as int]
                    }),
                ),
                old(self).scheduler.data.schedulable@,
                old(self).scheduler.data.current,
                old(self).now_spec() as u64,
            ),
            final(self).scheduler.data.schedulable@ == switch_sched_spec(
                old(self).scheduler.data.tasks@.update(
                    old(self).scheduler.data.current as int,
                    (crate::task::TaskInfo {
                        flags: crate::task::TaskFlags(0),
                        ..old(self).scheduler.data.tasks@[old(self).scheduler.data.current as int]
                    }),
                ),
                old(self).scheduler.data.schedulable@,
                old(self).scheduler.data.current,
                old(self).now_spec() as u64,
            ),
            final(self).scheduler.data.current == switch_next_spec(
                old(self).scheduler.data.tasks@.update(
                    old(self).scheduler.data.current as int,
                    (crate::task::TaskInfo {
                        flags: crate::task::TaskFlags(0),
                        ..old(self).scheduler.data.tasks@[old(self).scheduler.data.current as int]
                    }),
                ),
                old(self).scheduler.data.schedulable@,
                old(self).scheduler.data.current,
                old(self).now_spec() as u64,
            ),
            final(self).hpet == old(self).hpet,
            final(self).intr == old(self).intr,
    {
        let ghost tl0 = old(self).scheduler.data;
        let guard = self.scheduler.lock(&mut self.cpu);
        let cguard = self.clock.lock(&mut self.cpu);
        let hguard = self.hpet.lock(&mut self.cpu);
        let source_now = hpet::get_time(&self.hpet.data);
        self.hpet.unlock(&mut self.cpu, hguard);
        let start = self.clock.data_mut().get_tick(source_now);
        let until = start + ms * 1_000_000;
        let current = self.scheduler.data.current_task();
        self.scheduler.data_mut().set_runnable(current, false);
        self.clock.data_mut().callback_at(until, Callback::WakeTask(current));
        self.clock.unlock(&mut self.cpu, cguard);
        proof {
            // the running task was not in the heap, so blocking it
            // leaves the heap as it was
            let s0 = tl0.schedulable@;
            assert(s0.contains(current) <==> (tl0.tasks@[current as int].runnable() && current
                != tl0.current));
            assert forall|k: int| 0 <= k < s0.len() implies #[trigger] s0[k] != current by {
                if s0[k] == current {
                    assert(s0.contains(current));
                }
            };
            crate::sched::lemma_sched_without_absent(s0, current);
            assert(self.scheduler.data.schedulable@ =~= s0);
            assert(0u32 & 1 == 0) by (bit_vector);
            // the modified task list is well formed and ready to switch
            let tl1 = self.scheduler.data;
            assert forall|t: usize| t < tl1.tasks@.len() implies (
            #[trigger] tl1.schedulable@.contains(t) <==> (tl1.tasks@[t as int].runnable() && t
                != tl1.current)) by {
                assert(s0.contains(t) <==> (tl0.tasks@[t as int].runnable() && t != tl0.current));
            };
            assert(tl1.wf());
            assert(can_switch_at(tl1, source_now));
        }
        let ghost tl1 = self.scheduler.data;
        let _to = self.scheduler.data_mut().switch(source_now);
        self.scheduler.unlock(&mut self.cpu, guard);
        proof {
            let cur = tl1.current;
            let pool = crate::sched::switch_pool_spec(tl1.tasks@, tl1.schedulable@, cur);
            let t1 = account_runtime_spec(tl1.tasks@, cur, source_now);
            assert(0u32 & 1 == 0) by (bit_vector);
            assert(!tl1.tasks@[cur as int].runnable());
            assert(pool == tl1.schedulable@);
            // the sleeper stays blocked through the switch
            assert(final(self).scheduler.data.tasks@[cur as int].flags
                == tl1.tasks@[cur as int].flags);
            assert(final(self).scheduler.data.schedulable@.contains(cur) <==> (final(self).scheduler.data.tasks@[cur as int].runnable() && cur != final(self).scheduler.data.current));
        }
    }

    /// The preemption check run at the tail of every interrupt: if the
    /// running task's slice has expired, performs the switch procedure.
    pub fn check_runtime(&mut self) -> (switched: bool)
        requires
            old(self).wf(),
            old(self).now_spec() <= u64::MAX,
            can_switch_at(old(self).scheduler.data, old(self).now_spec() as u64),
        ensures
            final(self).wf(),
            final(self).cpu.interrupts_enabled == old(self).cpu.interrupts_enabled,
            switched == (old(self).scheduler.data.tasks@[old(self).scheduler.data.current as int].run_until <= old(self).now_spec()),
            !switched ==> final(self).scheduler == old(self).scheduler,
            switched ==> final(self).scheduler.data.tasks@ == switch_tasks_spec(
                old(self).scheduler.data.tasks@,
                old(self).scheduler.data.schedulable@,
                old(self).scheduler.data.current,
                old(self).now_spec() as u64,
            ) && final(self).scheduler.data.current == switch_next_spec(
                old(self).scheduler.data.tasks@,
                old(self).scheduler.data.schedulable@,
                old(self).scheduler.data.current,
                old(self).now_spec() as u64,
            ),
            final(self).scheduler.data.tasks@.len() == old(self).scheduler.data.tasks@.len(),
            forall|i: int|
                0 <= i < old(self).scheduler.data.tasks@.len() ==> (#[trigger] final(self).scheduler.data.tasks@[i]).flags == old(self).scheduler.data.tasks@[i].flags,
            final(self).clock == old(self).clock,
            final(self).hpet == old(self).hpet,
            final(self).intr == old(self).intr,
    {
        let hguard = self.hpet.lock(&mut self.cpu);
        let now = hpet::get_time(&self.hpet.data);
        self.hpet.unlock(&mut self.cpu, hguard);
        let guard = self.scheduler.lock(&mut self.cpu);
        let switched = self.scheduler.data_mut().check_runtime(now);
        self.scheduler.unlock(&mut self.cpu, guard);
        switched
    }

    /// A device interrupt at `vector`: the per-vector slot is consulted
    /// — an empty slot is silently acknowledged — end-of-interrupt is
    /// signalled, so no in-service bit remains set, and the preemption
    /// check runs before control returns to the interrupted context.
    /// The caller invokes the returned handler.
    pub fn device_interrupt(&mut self, vector: u8) -> (handler: Option<u64>)
        requires
            old(self).wf(),
            vector < interrupt::IRQ_HANDLER_SLOTS,
            old(self).now_spec() <= u64::MAX,
            can_switch_at(old(self).scheduler.data, old(self).now_spec() as u64),
        ensures
            final(self).wf(),
            final(self).cpu.interrupts_enabled == old(self).cpu.interrupts_enabled,
            final(self).intr.lapic.in_service is None,
            old(self).intr.handlers.slots@[vector as int] != 0 ==> handler == Some(
                old(self).intr.handlers.slots@[vector as int],
            ),
            old(self).intr.handlers.slots@[vector as int] == 0 ==> handler is None,
            final(self).intr.handlers == old(self).intr.handlers,
            final(self).intr.ioapic == old(self).intr.ioapic,
            final(self).clock == old(self).clock,
            final(self).hpet == old(self).hpet,
    {
        // the controller accepted the interrupt: in service until EOI
        self.intr.lapic.in_service = Some(vector);
        let h = interrupt::device_handler(&self.intr.handlers, vector);
        self.intr.lapic.end_of_interrupt();
        self.check_runtime();
        h
    }

    /// The periodic timer interrupt: reads the counter delta from the
    /// clock source, advances the logical clock by it, fires every due
    /// callback — waking each task whose wake-up deadline has passed —
    /// acknowledges the interrupt, and runs the preemption check.  The
    /// fired callbacks are returned in ascending deadline order for the
    /// caller to act on.
    pub fn timer_interrupt(&mut self) -> (fired: Vec<(u64, Callback)>)
        requires
            old(self).wf(),
            old(self).hpet.data.last_tick_count_timer_0 <= old(self).hpet.data.regs.main_counter,
            old(self).clock.data.ticks + (old(self).hpet.data.regs.main_counter - old(self).hpet.data.last_tick_count_timer_0) * old(self).hpet.data.counter_clock_period
                <= u64::MAX,
            old(self).now_spec() <= u64::MAX,
            can_switch_at(old(self).scheduler.data, old(self).now_spec() as u64),
        ensures
            final(self).wf(),
            final(self).cpu.interrupts_enabled == old(self).cpu.interrupts_enabled,
            final(self).intr.lapic.in_service is None,
            final(self).hpet.data.regs == old(self).hpet.data.regs,
            final(self).hpet.data.last_tick_count_timer_0 == old(self).hpet.data.regs.main_counter,
            // the clock advances by the counter delta while the tick
            // callback is registered
            old(self).hpet.data.tick_registered ==> final(self).clock.data.ticks == old(self).clock.data.ticks + (old(self).hpet.data.regs.main_counter - old(self).hpet.data.last_tick_count_timer_0) * old(self).hpet.data.counter_clock_period,
            !old(self).hpet.data.tick_registered ==> final(self).clock.data == old(self).clock.data && fired@.len() == 0,
            // every fired callback was due and is gone from the queue
            forall|k: int|
                0 <= k < fired@.len() ==> (#[trigger] fired@[k]).0 <= final(self).clock.data.ticks,
            old(self).hpet.data.tick_registered ==> forall|k: int|
                0 <= k < final(self).clock.data.callbacks@.len() ==> (#[trigger] final(self).clock.data.callbacks@[k]).0 > final(self).clock.data.ticks,
            old(self).hpet.data.tick_registered ==> old(self).clock.data.callbacks@ == fired@
                + final(self).clock.data.callbacks@,
            // every task woken by a fired callback is runnable afterwards
            forall|k: int, tid: usize|
                0 <= k < fired@.len() && fired@[k].1 == Callback::WakeTask(tid) && tid < old(self).scheduler.data.tasks@.len() && tid != old(self).scheduler.data.current
                    ==> final(self).scheduler.data.tasks@[tid as int].runnable(),
            final(self).scheduler.data.tasks@.len() == old(self).scheduler.data.tasks@.len(),
    {
        let ghost cur0 = self.scheduler.data.current;
        // tick the clock source
        let hguard = self.hpet.lock(&mut self.cpu);
        let delta = hpet::hpet_tick(self.hpet.data_mut());
        self.hpet.unlock(&mut self.cpu, hguard);
        let mut fired: Vec<(u64, Callback)> = Vec::new();
        if let Some(d) = delta {
            // advance the logical clock and collect the due callbacks
            let cguard = self.clock.lock(&mut self.cpu);
            fired = self.clock.data_mut().tick(d);
            self.clock.unlock(&mut self.cpu, cguard);
            proof {
                crate::clock::lemma_deadline_split(
                    old(self).clock.data.callbacks@,
                    (old(self).clock.data.ticks + d) as u64,
                );
                assert(old(self).clock.data.callbacks@ =~= fired@ + self.clock.data.callbacks@);
            }
            // wake every task whose wake-up fired
            let sguard = self.scheduler.lock(&mut self.cpu);
            let task_count = self.scheduler.data.len();
            let current = self.scheduler.data.current_task();
            let ghost intr1 = self.intr;
            let ghost clock1 = self.clock;
            let ghost hpet1 = self.hpet;
            let ghost cpu1 = self.cpu;
            let ghost fired1 = fired@;
            let mut i: usize = 0;
            while i < fired.len()
                invariant
                    i <= fired@.len(),
                    fired@ == fired1,
                    self.intr == intr1,
                    self.clock == clock1,
                    self.hpet == hpet1,
                    self.cpu == cpu1,
                    self.scheduler.locked,
                    self.scheduler.data.next_task_id == old(self).scheduler.data.next_task_id,
                    self.scheduler.data.wf(),
                    self.scheduler.data.tasks@.len() == task_count,
                    self.scheduler.data.current == current,
                    self.scheduler.data.current == cur0,
                    forall|j: int|
                        0 <= j < task_count ==> (#[trigger] self.scheduler.data.tasks@[j]).total_runtime
                            == old(self).scheduler.data.tasks@[j].total_runtime && self.scheduler.data.tasks@[j].last_scheduled
                            == old(self).scheduler.data.tasks@[j].last_scheduled && self.scheduler.data.tasks@[j].run_until
                            == old(self).scheduler.data.tasks@[j].run_until,
                    forall|k: int, tid: usize|
                        0 <= k < i && fired@[k].1 == Callback::WakeTask(tid) && tid < task_count
                            && tid != cur0 ==> self.scheduler.data.tasks@[tid as int].runnable(),
                decreases fired@.len() - i,
            {
                let entry = fired[i];
                match entry.1 {
                    Callback::WakeTask(tid) => {
                        if tid < task_count && tid != current {
                            self.scheduler.data_mut().wake(tid);
                        }
                    },
                    Callback::Event(_) => {},
                }
                i = i + 1;
            }
            self.scheduler.unlock(&mut self.cpu, sguard);
        }
        // acknowledge the interrupt
        self.intr.lapic.in_service = Some(0x20);
        self.intr.lapic.end_of_interrupt();
        // preemption check before returning to the interrupted context
        proof {
            assert(can_switch_at(self.scheduler.data, self.now_spec() as u64));
            if old(self).hpet.data.tick_registered {
                assert(old(self).clock.data.callbacks@ == fired@ + self.clock.data.callbacks@);
            }
        }
        self.check_runtime();
        fired
    }
}

} // verus!
