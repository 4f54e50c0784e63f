//! The kernel's only synchronization primitive: a spin lock that disables
//! interrupts for as long as it is held and restores the previous
//! interrupt-enable state on release.
//!
//! On the machine the mutual exclusion itself is an atomic test-and-set;
//! with one processor and interrupts disabled for the whole critical
//! section, a held lock can never be contended, so the lock state is
//! modelled as a plain flag.  The guard is an ordinary movable value: the
//! scheduler hands it across the context switch and the incoming task
//! releases it, which is exactly the behaviour the switch procedure needs.

use vstd::prelude::*;

verus! {

/// The processor's interrupt-enable state (the IF bit of RFLAGS).
pub struct Cpu {
    /// True when maskable interrupts are delivered.
    pub interrupts_enabled: bool,
}

/// A value guarded by an interrupt-disabling spin lock.
pub struct WithSpinLock<A> {
    /// True while the lock is held.
    pub locked: bool,
    /// The guarded value.
    pub data: A,
}

/// Proof of acquisition: records the interrupt-enable state found at
/// acquire time, which the matching release restores.
pub struct WithSpinLockGuard {
    /// Interrupt-enable state immediately before the acquire.
    pub interrupt_enabled: bool,
}

impl<A> WithSpinLock<A> {
    /// Wraps `data` in an unlocked lock.
    pub fn new(data: A) -> (r: WithSpinLock<A>)
        ensures
            !r.locked,
            r.data == data,
    {
        WithSpinLock { locked: false, data }
    }

    /// Acquires the lock: saves the current interrupt-enable state,
    /// disables interrupts, and takes the lock.  On a single processor a
    /// held lock cannot be acquired again without deadlocking, which is
    /// why an unheld lock is demanded.
    pub fn lock(&mut self, cpu: &mut Cpu) -> (guard: WithSpinLockGuard)
        requires
            !old(self).locked,
        ensures
            final(self).locked,
            final(self).data == old(self).data,
            !final(cpu).interrupts_enabled,
            guard.interrupt_enabled == old(cpu).interrupts_enabled,
    {
        let interrupt_enabled = cpu.interrupts_enabled;
        cpu.interrupts_enabled = false;
        self.locked = true;
        WithSpinLockGuard { interrupt_enabled }
    }

    /// Releases the lock and restores interrupts to the state the guard
    /// recorded at acquire time: the interrupt-enable state after a
    /// release equals the state before the matching acquire, so nested
    /// acquisitions re-enable interrupts only at the outermost release.
    pub fn unlock(&mut self, cpu: &mut Cpu, guard: WithSpinLockGuard)
        requires
            old(self).locked,
        ensures
            !final(self).locked,
            final(self).data == old(self).data,
            final(cpu).interrupts_enabled == guard.interrupt_enabled,
    {
        self.locked = false;
        cpu.interrupts_enabled = guard.interrupt_enabled;
    }

    /// Borrows the guarded value; only meaningful while the lock is held.
    pub fn data_mut(&mut self) -> (r: &mut A)
        requires
            old(self).locked,
        ensures
            *r == old(self).data,
            final(self).data == *final(r),
            final(self).locked == old(self).locked,
    {
        &mut self.data
    }
}

} // verus!
