//! Runtime core of a small preemptive kernel for 64-bit x86 machines.
//!
//! The crate models and verifies the kernel's four tightly coupled runtime
//! subsystems: the boot handoff, the interrupt plumbing, the time sources and
//! logical clock, and the preemptive task scheduler.  Hardware access (memory
//! mapped registers, port I/O, the context-switch stub) is represented by
//! explicit register-file and device state so that every programming sequence
//! and every scheduling decision is checked against its specification.

pub mod acpi;
pub mod boot;
pub mod clock;
pub mod interrupt;
pub mod ethernet;
pub mod fonts;
pub mod hpet;
pub mod kernel;
pub mod malloc;
pub mod mm;
pub mod pci;
pub mod pit;
pub mod pm;
pub mod rtl8139;
pub mod sched;
pub mod serial;
pub mod spinlock;
pub mod task;
