//! Per-task state: the task header kept at the base of each 8 KiB task
//! region, and the address arithmetic that locates the header from any
//! address inside the region.

use vstd::prelude::*;

verus! {

/// Size in bytes of one task region: an 8 KiB naturally aligned block
/// holding the task header at its base and the kernel stack in the
/// remainder, growing downward from the top.
pub const KERNEL_STACK_SIZE: usize = 0x2000;

/// Mask that turns any address inside a task region into the region base,
/// which is where the task header lives.
pub const TASK_STRUCT_MASK: usize = !(KERNEL_STACK_SIZE - 1);

/// Bytes reserved at the top of a fresh task's stack for the first context
/// switch into it: the address of the entry trampoline (8 bytes), the task
/// id handed to the trampoline (8 bytes), and six saved registers (48
/// bytes).  The seeded stack pointer sits below all of them.
pub const SWITCH_FRAME_SIZE: usize = 64;

/// Flags word of a task; the lowest bit is the runnable bit.
#[derive(Clone, Copy, PartialEq, Eq, Structural, Debug)]
pub struct TaskFlags(pub u32);

impl TaskFlags {
    /// True when the runnable bit (bit 0) is set.
    pub fn is_runnable(&self) -> (r: bool)
        ensures
            r == (self.0 & 1 == 1),
    {
        proof {
            let v = self.0;
            assert(v & 1 == 0 || v & 1 == 1) by (bit_vector);
        }
        (self.0 & 1) != 0
    }

    /// Sets or clears the runnable bit, leaving the other bits unchanged.
    pub fn set_is_runnable(&mut self, is_runnable: bool)
        ensures
            final(self).0 & 1 == (if is_runnable { 1u32 } else { 0u32 }),
            final(self).0 & !1 == old(self).0 & !1,
    {
        if is_runnable {
            self.0 |= 1;
        } else {
            self.0 &= !1;
        }
        proof {
            let v = old(self).0;
            assert((v | 1) & 1 == 1 && (v | 1) & !1 == v & !1) by (bit_vector);
            assert((v & !1u32) & 1 == 0 && (v & !1u32) & !1u32 == v & !1u32) by (bit_vector);
        }
    }
}

/// The task header placed at the base of each task region: the saved
/// execution context together with the scheduler's accounting fields.
#[derive(Clone, Copy, PartialEq, Eq, Structural, Debug)]
pub struct TaskInfo {
    /// Unique task id; ids are handed out monotonically and id 0 is the
    /// idle task.
    pub task_id: usize,
    /// Saved stack pointer of the task while it is not running.
    pub stack_top: usize,
    /// Saved page-table root of the task.
    pub cr3: usize,
    /// Timestamp at which the task was last dispatched, in nanoseconds.
    pub last_scheduled: u64,
    /// Timestamp at which the task's time slice expires, in nanoseconds.
    pub run_until: u64,
    /// Accumulated virtual runtime of the task, in nanoseconds scaled by
    /// the task count at the time of each update.
    pub total_runtime: u64,
    /// Flags word; bit 0 is the runnable bit.
    pub flags: TaskFlags,
}

impl TaskInfo {
    /// True when the task's runnable bit is set.
    pub open spec fn runnable(self) -> bool {
        self.flags.0 & 1 == 1
    }

    /// Timestamp at which the task's current slice expires.
    pub fn get_run_until(&self) -> (r: u64)
        ensures
            r == self.run_until,
    {
        self.run_until
    }
}

/// Returns the base of the 8 KiB task region containing `addr`; the task
/// header of the task whose stack `addr` points into lives there.  This is
/// how the running task is identified from its stack pointer alone.
pub fn task_base_of(addr: usize) -> (base: usize)
    ensures
        base == addr & TASK_STRUCT_MASK,
{
    addr & TASK_STRUCT_MASK
}

/// Masking any address within a task's 8 KiB region with the complement of
/// `KERNEL_STACK_SIZE - 1` yields the base of that region, i.e. the address
/// of its task header.
pub proof fn lemma_task_region_mask(base: usize, addr: usize)
    requires
        base as int % KERNEL_STACK_SIZE as int == 0,
        base <= addr < base + KERNEL_STACK_SIZE,
    ensures
        addr & TASK_STRUCT_MASK == base,
{
    assert(base % 0x2000usize == 0 && base <= addr && addr < base + 0x2000 ==> addr
        & !0x1fffusize == base) by (bit_vector);
    assert(TASK_STRUCT_MASK == !0x1fffusize) by (bit_vector);
}

} // verus!
