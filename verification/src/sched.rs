//! The preemptive task scheduler: the task table, the runnable heap
//! ordered by accumulated virtual runtime, and the switch procedure that
//! multiplexes the single processor among kernel tasks.

use vstd::prelude::*;

use crate::task::{TaskFlags, TaskInfo, KERNEL_STACK_SIZE, SWITCH_FRAME_SIZE};

verus! {

/// Target period within which every runnable task is scheduled at least
/// once: 20 ms in nanoseconds.
pub const SCHED_LATENCY: u64 = 20_000_000;

/// The scheduler's task state: every task ever created keyed by id, the
/// runnable heap, and the id of the task that is executing.
///
/// Task ids are handed out sequentially, so the table is a vector indexed
/// by id; tasks are never removed.  The `current` field stands for the
/// task identified at runtime by masking the stack pointer with
/// [`crate::task::TASK_STRUCT_MASK`]; no global variable is needed for it
/// on the machine, but the model tracks it explicitly.
pub struct TaskList {
    /// Id that the next created task will receive.
    pub next_task_id: usize,
    /// All tasks, indexed by id.
    pub tasks: Vec<TaskInfo>,
    /// The runnable heap: ids of tasks that are runnable and not
    /// currently executing, ordered on use by ascending total runtime.
    pub schedulable: Vec<usize>,
    /// Id of the task currently executing on the processor.
    pub current: usize,
}

impl TaskList {
    /// Every entry of the task table carries the id it is keyed by.
    pub open spec fn ids_sequential(self) -> bool {
        forall|i: int| 0 <= i < self.tasks@.len() ==> #[trigger] self.tasks@[i].task_id == i
    }

    /// Every id in the runnable heap denotes a task of the table.
    pub open spec fn sched_ids_valid(self) -> bool {
        forall|k: int|
            0 <= k < self.schedulable@.len() ==> #[trigger] self.schedulable@[k]
                < self.tasks@.len()
    }

    /// No task appears in the runnable heap twice.
    pub open spec fn sched_distinct(self) -> bool {
        forall|k: int, l: int|
            0 <= k < self.schedulable@.len() && 0 <= l < self.schedulable@.len() && k != l
                ==> #[trigger] self.schedulable@[k] != #[trigger] self.schedulable@[l]
    }

    /// A task is in the runnable heap exactly when its runnable bit is set
    /// and it is not the task currently executing.
    pub open spec fn heap_matches_flags(self) -> bool {
        forall|id: usize|
            id < self.tasks@.len() ==> (#[trigger] self.schedulable@.contains(id) <==> (
            self.tasks@[id as int].runnable() && id != self.current))
    }

    /// Well-formedness of the scheduler state outside the critical section
    /// of a switch: ids are sequential, the idle task (id 0) exists and is
    /// runnable, the executing task exists, and the runnable heap holds
    /// exactly the runnable non-executing tasks, each once.
    pub open spec fn wf(self) -> bool {
        &&& self.ids_sequential()
        &&& self.sched_ids_valid()
        &&& self.sched_distinct()
        &&& self.heap_matches_flags()
        &&& self.tasks@.len() > 0
        &&& self.tasks@[0].runnable()
        &&& self.current < self.tasks@.len()
        &&& self.next_task_id == self.tasks@.len()
    }

    /// Creates an empty task list; no task exists until the idle task is
    /// installed.
    pub fn new() -> (r: TaskList)
        ensures
            r.next_task_id == 0,
            r.tasks@.len() == 0,
            r.schedulable@.len() == 0,
            r.current == 0,
    {
        TaskList { next_task_id: 0, tasks: Vec::new(), schedulable: Vec::new(), current: 0 }
    }

    /// Number of tasks that exist.
    pub fn len(&self) -> (r: usize)
        ensures
            r == self.tasks@.len(),
    {
        self.tasks.len()
    }

    /// Looks a task up by id.
    pub fn get(&self, id: usize) -> (r: Option<&TaskInfo>)
        ensures
            id < self.tasks@.len() ==> r == Some(&self.tasks@[id as int]),
            id >= self.tasks@.len() ==> r is None,
    {
        if id < self.tasks.len() {
            Some(&self.tasks[id])
        } else {
            None
        }
    }

    /// Id of the task currently executing.  On the machine this is read by
    /// masking the stack pointer down to the task region base and taking
    /// the id from the header found there.
    pub fn current_task(&self) -> (r: usize)
        ensures
            r == self.current,
    {
        self.current
    }

    /// Pops the task with the minimum total runtime from the runnable
    /// heap.  The popped task always has the minimum `total_runtime`
    /// among the heap's members; ties go to the entry that entered the
    /// heap first.
    pub fn next(&mut self) -> (r: Option<usize>)
        requires
            old(self).sched_ids_valid(),
        ensures
            final(self).tasks == old(self).tasks,
            final(self).current == old(self).current,
            final(self).next_task_id == old(self).next_task_id,
            old(self).schedulable@.len() == 0 ==> r is None && final(self).schedulable@ == old(
                self,
            ).schedulable@,
            old(self).schedulable@.len() > 0 ==> r == Some(
                old(self).schedulable@[min_runtime_index(old(self).tasks@, old(self).schedulable@)],
            ) && final(self).schedulable@ == old(self).schedulable@.remove(
                min_runtime_index(old(self).tasks@, old(self).schedulable@),
            ),
            r matches Some(m) ==> forall|j: int|
                0 <= j < old(self).schedulable@.len() ==> old(self).tasks@[m as int].total_runtime
                    <= old(self).tasks@[#[trigger] old(self).schedulable@[j] as int].total_runtime,
    {
        if self.schedulable.len() == 0 {
            return None;
        }
        proof {
            lemma_min_runtime_index(self.tasks@, self.schedulable@);
        }
        let best = find_min_index(&self.tasks, &self.schedulable);
        let id = self.schedulable.remove(best);
        Some(id)
    }

    /// Starts a time slice for `id` at `begin_at`: records the dispatch
    /// time and grants a slice of `SCHED_LATENCY` divided by the number
    /// of tasks.
    pub fn begin_timeslice(&mut self, id: usize, begin_at: u64)
        requires
            id < old(self).tasks@.len(),
            begin_at + SCHED_LATENCY <= u64::MAX,
        ensures
            final(self).tasks@ == old(self).tasks@.update(
                id as int,
                (TaskInfo {
                    last_scheduled: begin_at,
                    run_until: (begin_at + SCHED_LATENCY as int / old(self).tasks@.len() as int)
                        as u64,
                    ..old(self).tasks@[id as int]
                }),
            ),
            final(self).schedulable == old(self).schedulable,
            final(self).current == old(self).current,
            final(self).next_task_id == old(self).next_task_id,
    {
        let len = self.tasks.len() as u64;
        self.tasks[id].last_scheduled = begin_at;
        let slice = SCHED_LATENCY / len;
        proof {
            assert(SCHED_LATENCY as int / len as int <= SCHED_LATENCY as int) by (nonlinear_arith)
                requires
                    len >= 1,
            ;
        }
        self.tasks[id].run_until = begin_at + slice;
        proof {
            assert(final(self).tasks@ =~= old(self).tasks@.update(
                id as int,
                (TaskInfo {
                    last_scheduled: begin_at,
                    run_until: (begin_at + SCHED_LATENCY as int / old(self).tasks@.len() as int)
                        as u64,
                    ..old(self).tasks@[id as int]
                }),
            ));
        }
    }

    /// Ends the running task's time slice at `timestamp`: charges the
    /// elapsed time, weighted by the task count, to its total runtime,
    /// and pushes it back into the runnable heap if its runnable bit is
    /// set.  `total_runtime` never decreases.
    pub fn end_timeslice(&mut self, id: usize, timestamp: u64)
        requires
            id < old(self).tasks@.len(),
            old(self).tasks@[id as int].last_scheduled <= timestamp,
            old(self).tasks@[id as int].total_runtime + (timestamp - old(
                self,
            ).tasks@[id as int].last_scheduled) * old(self).tasks@.len() <= u64::MAX,
        ensures
            final(self).tasks@ == old(self).tasks@.update(
                id as int,
                (TaskInfo {
                    total_runtime: (old(self).tasks@[id as int].total_runtime + (timestamp - old(
                        self,
                    ).tasks@[id as int].last_scheduled) * old(self).tasks@.len()) as u64,
                    ..old(self).tasks@[id as int]
                }),
            ),
            final(self).tasks@[id as int].total_runtime >= old(
                self,
            ).tasks@[id as int].total_runtime,
            final(self).schedulable@ == if old(self).tasks@[id as int].runnable() {
                old(self).schedulable@.push(id)
            } else {
                old(self).schedulable@
            },
            final(self).current == old(self).current,
            final(self).next_task_id == old(self).next_task_id,
    {
        let task_count = self.tasks.len() as u64;
        let last = self.tasks[id].last_scheduled;
        proof {
            assert((timestamp - last) * task_count >= 0) by (nonlinear_arith)
                requires
                    last <= timestamp,
                    task_count >= 0,
            ;
        }
        let delta = (timestamp - last) * task_count;
        self.tasks[id].total_runtime = self.tasks[id].total_runtime + delta;
        let runnable = self.tasks[id].flags.is_runnable();
        if runnable {
            self.schedulable.push(id);
        }
        proof {
            assert(final(self).tasks@ =~= old(self).tasks@.update(
                id as int,
                (TaskInfo {
                    total_runtime: (old(self).tasks@[id as int].total_runtime + (timestamp - old(
                        self,
                    ).tasks@[id as int].last_scheduled) * old(self).tasks@.len()) as u64,
                    ..old(self).tasks@[id as int]
                }),
            ));
        }
    }

    /// Marks a task runnable or blocked: removes every occurrence of it
    /// from the runnable heap, rewrites its flags word, and pushes it
    /// back if it is being made runnable.
    pub fn set_runnable(&mut self, id: usize, runnable: bool)
        requires
            id < old(self).tasks@.len(),
        ensures
            final(self).tasks@ == old(self).tasks@.update(
                id as int,
                (TaskInfo {
                    flags: TaskFlags(if runnable {
                        1
                    } else {
                        0
                    }),
                    ..old(self).tasks@[id as int]
                }),
            ),
            final(self).schedulable@ == sched_without(old(self).schedulable@, id)
                + if runnable {
                seq![id]
            } else {
                Seq::<usize>::empty()
            },
            final(self).current == old(self).current,
            final(self).next_task_id == old(self).next_task_id,
    {
        let mut kept: Vec<usize> = Vec::new();
        let mut i: usize = 0;
        while i < self.schedulable.len()
            invariant
                i <= self.schedulable@.len(),
                kept@ == sched_without(self.schedulable@.subrange(0, i as int), id),
            decreases self.schedulable@.len() - i,
        {
            let x = self.schedulable[i];
            proof {
                reveal_with_fuel(Seq::filter, 2);
                let s = self.schedulable@;
                assert(s.subrange(0, i as int + 1).drop_last() =~= s.subrange(0, i as int));
                assert(s.subrange(0, i as int + 1).last() == s[i as int]);
            }
            if x != id {
                kept.push(x);
            }
            i = i + 1;
        }
        proof {
            assert(self.schedulable@.subrange(0, self.schedulable@.len() as int)
                =~= self.schedulable@);
        }
        self.schedulable = kept;
        self.tasks[id].flags = TaskFlags(if runnable { 1 } else { 0 });
        if runnable {
            self.schedulable.push(id);
        }
        proof {
            if runnable {
                assert(final(self).schedulable@ =~= sched_without(old(self).schedulable@, id)
                    + seq![id]);
            } else {
                assert(final(self).schedulable@ =~= sched_without(old(self).schedulable@, id)
                    + Seq::<usize>::empty());
            }
        }
    }

    /// Makes a blocked task eligible again: sets its runnable bit and
    /// pushes it into the runnable heap.  A task that is already
    /// runnable — and therefore already in the heap — is left alone.
    pub fn wake(&mut self, id: usize)
        requires
            old(self).wf(),
            id < old(self).tasks@.len(),
            id != old(self).current,
        ensures
            final(self).wf(),
            final(self).tasks@.len() == old(self).tasks@.len(),
            final(self).current == old(self).current,
            final(self).next_task_id == old(self).next_task_id,
            final(self).tasks@[id as int].runnable(),
            final(self).schedulable@.contains(id),
            forall|i: int|
                0 <= i < old(self).tasks@.len() && i != id ==> final(self).tasks@[i] == old(
                    self,
                ).tasks@[i],
            final(self).tasks@[id as int].total_runtime == old(
                self,
            ).tasks@[id as int].total_runtime,
            final(self).tasks@[id as int].last_scheduled == old(
                self,
            ).tasks@[id as int].last_scheduled,
            final(self).tasks@[id as int].run_until == old(self).tasks@[id as int].run_until,
            old(self).tasks@[id as int].runnable() ==> *final(self) == *old(self),
            !old(self).tasks@[id as int].runnable() ==> final(self).schedulable@ == old(
                self,
            ).schedulable@.push(id),
    {
        let runnable = self.tasks[id].flags.is_runnable();
        if !runnable {
            self.tasks[id].flags = TaskFlags(1);
            self.schedulable.push(id);
            proof {
                assert(1u32 & 1 == 1) by (bit_vector);
                assert(old(self).schedulable@.contains(id) <==> (
                old(self).tasks@[id as int].runnable() && id != old(self).current));
                lemma_push_contains(old(self).schedulable@, id);
                assert forall|k: int, l: int|
                    0 <= k < final(self).schedulable@.len() && 0 <= l < final(self).schedulable@.len()
                        && k != l implies #[trigger] final(self).schedulable@[k]
                    != #[trigger] final(self).schedulable@[l] by {
                    if k < old(self).schedulable@.len() && l < old(self).schedulable@.len() {
                    } else if k == old(self).schedulable@.len() as int {
                        if old(self).schedulable@[l] == id {
                            assert(old(self).schedulable@.contains(id));
                        }
                    } else {
                        if old(self).schedulable@[k] == id {
                            assert(old(self).schedulable@.contains(id));
                        }
                    }
                };
                assert forall|t: usize| t < final(self).tasks@.len() implies (
                #[trigger] final(self).schedulable@.contains(t) <==> (
                final(self).tasks@[t as int].runnable() && t != final(self).current)) by {
                    assert(old(self).schedulable@.contains(t) <==> (
                    old(self).tasks@[t as int].runnable() && t != old(self).current));
                };
            }
        } else {
            proof {
                assert(old(self).schedulable@.contains(id) <==> (
                old(self).tasks@[id as int].runnable() && id != old(self).current));
            }
        }
    }

    /// Appends a task to the table under the next id and hands the id out.
    fn insert_task(&mut self, info: TaskInfo) -> (id: usize)
        requires
            old(self).next_task_id == old(self).tasks@.len(),
            old(self).tasks@.len() < usize::MAX,
        ensures
            id == old(self).tasks@.len(),
            final(self).tasks@ == old(self).tasks@.push((TaskInfo { task_id: id, ..info })),
            final(self).next_task_id == old(self).next_task_id + 1,
            final(self).schedulable == old(self).schedulable,
            final(self).current == old(self).current,
    {
        let id = self.next_task_id;
        let mut info = info;
        info.task_id = id;
        self.tasks.push(info);
        self.next_task_id = self.next_task_id + 1;
        id
    }

    /// Installs the idle task: task id 0, always runnable, the initial
    /// context of the kernel.  `now` stamps its first dispatch; the stack
    /// pointer and page-table root are the boot context's.
    pub fn init_idle_task(&mut self, now: u64, stack_top: usize, cr3: usize)
        requires
            old(self).tasks@.len() == 0,
            old(self).next_task_id == 0,
            old(self).schedulable@.len() == 0,
            old(self).current == 0,
        ensures
            final(self).wf(),
            final(self).tasks@.len() == 1,
            final(self).tasks@[0] == (TaskInfo {
                task_id: 0,
                stack_top,
                cr3,
                last_scheduled: now,
                run_until: 0,
                total_runtime: 0,
                flags: TaskFlags(1),
            }),
            final(self).schedulable@.len() == 0,
            final(self).current == 0,
    {
        let info = TaskInfo {
            task_id: 0,
            stack_top,
            cr3,
            last_scheduled: now,
            run_until: 0,
            total_runtime: 0,
            flags: TaskFlags(1),
        };
        let _id = self.insert_task(info);
        proof {
            assert(1u32 & 1 == 1) by (bit_vector);
            assert(final(self).tasks@[0] == (TaskInfo {
                task_id: 0,
                stack_top,
                cr3,
                last_scheduled: now,
                run_until: 0,
                total_runtime: 0,
                flags: TaskFlags(1),
            }));
        }
    }

    /// Creates a kernel task in the 8 KiB region at `region_base`: fills
    /// the header with the next id, the creator's page-table root and a
    /// set runnable bit, seeds the stack pointer below the entry frame,
    /// and pushes the task into the runnable heap.  Ids are monotonic
    /// from 1, so no created task can ever collide with the idle task.
    pub fn new_task(&mut self, region_base: usize) -> (id: usize)
        requires
            old(self).wf(),
            old(self).tasks@.len() < usize::MAX,
            region_base as int % KERNEL_STACK_SIZE as int == 0,
            region_base + KERNEL_STACK_SIZE <= usize::MAX,
        ensures
            final(self).wf(),
            id == old(self).tasks@.len(),
            id >= 1,
            final(self).tasks@ == old(self).tasks@.push(
                (TaskInfo {
                    task_id: id,
                    stack_top: (region_base + KERNEL_STACK_SIZE - SWITCH_FRAME_SIZE) as usize,
                    cr3: old(self).tasks@[old(self).current as int].cr3,
                    last_scheduled: 0,
                    run_until: 0,
                    total_runtime: 0,
                    flags: TaskFlags(1),
                }),
            ),
            final(self).schedulable@ == old(self).schedulable@.push(id),
            final(self).current == old(self).current,
    {
        let cr3 = self.tasks[self.current].cr3;
        let info = TaskInfo {
            task_id: 0,
            stack_top: region_base + (KERNEL_STACK_SIZE - SWITCH_FRAME_SIZE),
            cr3,
            last_scheduled: 0,
            run_until: 0,
            total_runtime: 0,
            flags: TaskFlags(1),
        };
        let id = self.insert_task(info);
        self.schedulable.push(id);
        proof {
            assert(1u32 & 1 == 1) by (bit_vector);
            lemma_push_contains(old(self).schedulable@, id);
            if old(self).schedulable@.contains(id) {
                let k = choose|k: int|
                    0 <= k < old(self).schedulable@.len() && old(self).schedulable@[k] == id;
                assert(old(self).schedulable@[k] < old(self).tasks@.len());
            }
            assert(!old(self).schedulable@.contains(id));
            assert forall|k: int, l: int|
                0 <= k < final(self).schedulable@.len() && 0 <= l < final(self).schedulable@.len() && k != l implies #[trigger] final(self).schedulable@[k]
                != #[trigger] final(self).schedulable@[l] by {
                if k < old(self).schedulable@.len() && l < old(self).schedulable@.len() {
                } else if k == old(self).schedulable@.len() as int {
                    assert(final(self).schedulable@[k] == id);
                    if old(self).schedulable@[l] == id {
                        assert(old(self).schedulable@.contains(id));
                    }
                } else {
                    assert(final(self).schedulable@[l] == id);
                    if old(self).schedulable@[k] == id {
                        assert(old(self).schedulable@.contains(id));
                    }
                }
            };
            assert forall|t: usize| t < final(self).tasks@.len() implies (
            #[trigger] final(self).schedulable@.contains(t) <==> (
            final(self).tasks@[t as int].runnable() && t != final(self).current)) by {
                if t < old(self).tasks@.len() {
                    assert(old(self).schedulable@.contains(t) <==> (
                    old(self).tasks@[t as int].runnable() && t != old(self).current));
                } else {
                    assert(final(self).schedulable@.contains(id));
                    assert(final(self).tasks@[id as int].runnable());
                }
            };
        }
        id
    }

    /// The switch procedure, entered holding the scheduler lock: charges
    /// the outgoing task for its slice and pushes it back if runnable,
    /// pops the minimum-runtime task (the idle task when the heap is
    /// empty), stamps it with `now` and a fresh slice, and makes it
    /// current.  After the switch the outgoing task's dispatch stamp is
    /// at most `now` and the incoming task's is exactly `now`, and no
    /// task's total runtime has decreased.
    pub fn switch(&mut self, now: u64) -> (to: usize)
        requires
            old(self).wf(),
            old(self).tasks@[old(self).current as int].last_scheduled <= now,
            old(self).tasks@[old(self).current as int].total_runtime + (now - old(
                self,
            ).tasks@[old(self).current as int].last_scheduled) * old(self).tasks@.len()
                <= u64::MAX,
            now + SCHED_LATENCY <= u64::MAX,
        ensures
            final(self).wf(),
            to == final(self).current,
            final(self).tasks@ == switch_tasks_spec(
                old(self).tasks@,
                old(self).schedulable@,
                old(self).current,
                now,
            ),
            final(self).schedulable@ == switch_sched_spec(
                old(self).tasks@,
                old(self).schedulable@,
                old(self).current,
                now,
            ),
            final(self).current == switch_next_spec(
                old(self).tasks@,
                old(self).schedulable@,
                old(self).current,
                now,
            ),
            final(self).next_task_id == old(self).next_task_id,
            final(self).tasks@.len() == old(self).tasks@.len(),
            final(self).tasks@[old(self).current as int].last_scheduled <= now,
            final(self).tasks@[final(self).current as int].last_scheduled == now,
            forall|i: int|
                0 <= i < old(self).tasks@.len() ==> final(self).tasks@[i].total_runtime >= old(
                    self,
                ).tasks@[i].total_runtime,
            forall|i: int|
                0 <= i < old(self).tasks@.len() ==> final(self).tasks@[i].flags == old(
                    self,
                ).tasks@[i].flags,
            !old(self).tasks@[old(self).current as int].runnable() ==> final(self).current != old(
                self,
            ).current,
    {
        let ghost ts0 = old(self).tasks@;
        let ghost s0 = old(self).schedulable@;
        let cur = self.current;
        proof {
            assert(s0.contains(cur) <==> (ts0[cur as int].runnable() && cur != old(self).current));
        }
        self.end_timeslice(cur, now);
        proof {
            lemma_push_contains(s0, cur);
            let pool = switch_pool_spec(ts0, s0, cur);
            assert(self.schedulable@ == pool);
            assert(self.tasks@ == account_runtime_spec(ts0, cur, now));
            // every pool entry is a valid id
            assert forall|k: int| 0 <= k < pool.len() implies #[trigger] pool[k]
                < self.tasks@.len() by {
                if k < s0.len() {
                    assert(pool[k] == s0[k]);
                } else {
                    assert(pool[k] == cur);
                }
            };
            // the pool holds no id twice
            assert forall|k: int, l: int|
                0 <= k < pool.len() && 0 <= l < pool.len() && k != l implies #[trigger] pool[k]
                != #[trigger] pool[l] by {
                if k < s0.len() && l < s0.len() {
                    assert(s0[k] != s0[l]);
                } else if k >= s0.len() {
                    assert(pool[k] == cur);
                    if s0[l] == cur {
                        assert(s0.contains(cur));
                    }
                } else {
                    assert(pool[l] == cur);
                    if s0[k] == cur {
                        assert(s0.contains(cur));
                    }
                }
            };
            // the idle task is runnable, so the pool is never empty
            assert(s0.contains(0usize) <==> (ts0[0].runnable() && 0usize != old(self).current));
            if cur == 0 {
                assert(pool.contains(0usize));
            } else {
                assert(pool.contains(0usize));
            }
            assert(pool.len() > 0);
        }
        let picked = self.next();
        let next = match picked {
            Some(n) => n,
            None => 0,
        };
        proof {
            let pool = switch_pool_spec(ts0, s0, cur);
            let t1 = account_runtime_spec(ts0, cur, now);
            lemma_min_runtime_index(t1, pool);
            assert(next == pool[min_runtime_index(t1, pool)]);
            assert(next < t1.len());
        }
        self.begin_timeslice(next, now);
        self.current = next;
        proof {
            let pool = switch_pool_spec(ts0, s0, cur);
            let t1 = account_runtime_spec(ts0, cur, now);
            let mi = min_runtime_index(t1, pool);
            lemma_min_runtime_index(t1, pool);
            lemma_remove_contains(pool, mi);
            assert(final(self).schedulable@ == pool.remove(mi));
            assert(final(self).current == pool[mi]);
            assert forall|t: usize| t < final(self).tasks@.len() implies (
            #[trigger] final(self).schedulable@.contains(t) <==> (
            final(self).tasks@[t as int].runnable() && t != final(self).current)) by {
                assert(s0.contains(t) <==> (ts0[t as int].runnable() && t != old(self).current));
                if ts0[cur as int].runnable() {
                    assert(pool.contains(t) <==> (s0.contains(t) || t == cur));
                } else {
                    assert(pool.contains(t) <==> s0.contains(t));
                }
                assert(pool.contains(t) <==> ts0[t as int].runnable());
                assert(final(self).schedulable@.contains(t) <==> (pool.contains(t) && t
                    != pool[mi]));
                assert(final(self).tasks@[t as int].flags == ts0[t as int].flags);
            };
            assert forall|i: int| 0 <= i < final(self).tasks@.len() implies #[trigger] final(self).tasks@[i].task_id == i by {
                assert(ts0[i].task_id == i);
            };
        }
        next
    }

    /// The preemption check run at the tail of every interrupt: performs
    /// a full switch exactly when the running task's slice has expired.
    pub fn check_runtime(&mut self, now: u64) -> (switched: bool)
        requires
            old(self).wf(),
            old(self).tasks@[old(self).current as int].last_scheduled <= now,
            old(self).tasks@[old(self).current as int].total_runtime + (now - old(
                self,
            ).tasks@[old(self).current as int].last_scheduled) * old(self).tasks@.len()
                <= u64::MAX,
            now + SCHED_LATENCY <= u64::MAX,
        ensures
            final(self).wf(),
            switched == (old(self).tasks@[old(self).current as int].run_until <= now),
            switched ==> final(self).tasks@ == switch_tasks_spec(
                old(self).tasks@,
                old(self).schedulable@,
                old(self).current,
                now,
            ) && final(self).schedulable@ == switch_sched_spec(
                old(self).tasks@,
                old(self).schedulable@,
                old(self).current,
                now,
            ) && final(self).current == switch_next_spec(
                old(self).tasks@,
                old(self).schedulable@,
                old(self).current,
                now,
            ) && final(self).next_task_id == old(self).next_task_id,
            !switched ==> *final(self) == *old(self),
    {
        let cur = self.current;
        if self.tasks[cur].run_until <= now {
            self.switch(now);
            true
        } else {
            false
        }
    }
}

/// The runnable heap without every occurrence of `id`.
pub open spec fn sched_without(s: Seq<usize>, id: usize) -> Seq<usize> {
    s.filter(|x: usize| x != id)
}

/// Removing an id that the heap does not hold leaves the heap as it is.
pub proof fn lemma_sched_without_absent(s: Seq<usize>, id: usize)
    requires
        forall|k: int| 0 <= k < s.len() ==> #[trigger] s[k] != id,
    ensures
        sched_without(s, id) == s,
    decreases s.len(),
{
    reveal_with_fuel(Seq::filter, 2);
    if s.len() == 0 {
        assert(sched_without(s, id) =~= s);
    } else {
        let front = s.drop_last();
        assert(forall|k: int| 0 <= k < front.len() ==> #[trigger] front[k] == s[k]);
        lemma_sched_without_absent(front, id);
        assert(s.last() != id);
        assert(sched_without(s, id) =~= front.push(s.last()));
        assert(front.push(s.last()) =~= s);
    }
}

/// Room for the arithmetic a switch at `now` performs: the running
/// task's dispatch stamp is not in the future, its runtime charge fits,
/// and a fresh slice starting at `now` fits.
pub open spec fn can_switch_at(tl: TaskList, now: u64) -> bool {
    &&& tl.tasks@[tl.current as int].last_scheduled <= now
    &&& tl.tasks@[tl.current as int].total_runtime + (now
        - tl.tasks@[tl.current as int].last_scheduled) * tl.tasks@.len() <= u64::MAX
    &&& now + SCHED_LATENCY <= u64::MAX
}

proof fn lemma_push_contains(s: Seq<usize>, v: usize)
    ensures
        forall|x: usize| #[trigger] s.push(v).contains(x) <==> (s.contains(x) || x == v),
{
    assert forall|x: usize| #[trigger] s.push(v).contains(x) implies (s.contains(x) || x == v) by {
        let k = choose|k: int| 0 <= k < s.push(v).len() && s.push(v)[k] == x;
        if k < s.len() {
            assert(s[k] == x);
        }
    };
    assert forall|x: usize| (s.contains(x) || x == v) implies #[trigger] s.push(v).contains(x) by {
        if s.contains(x) {
            let k = choose|k: int| 0 <= k < s.len() && s[k] == x;
            assert(s.push(v)[k] == x);
        } else {
            assert(s.push(v)[s.len() as int] == x);
        }
    };
}

proof fn lemma_remove_contains(s: Seq<usize>, i: int)
    requires
        0 <= i < s.len(),
        forall|k: int, l: int|
            0 <= k < s.len() && 0 <= l < s.len() && k != l ==> #[trigger] s[k] != #[trigger] s[l],
    ensures
        forall|x: usize| #[trigger] s.remove(i).contains(x) <==> (s.contains(x) && x != s[i]),
        forall|k: int, l: int|
            0 <= k < s.remove(i).len() && 0 <= l < s.remove(i).len() && k != l
                ==> #[trigger] s.remove(i)[k] != #[trigger] s.remove(i)[l],
{
    let r = s.remove(i);
    assert forall|x: usize| #[trigger] r.contains(x) implies (s.contains(x) && x != s[i]) by {
        let k = choose|k: int| 0 <= k < r.len() && r[k] == x;
        if k < i {
            assert(s[k] == x);
        } else {
            assert(s[k + 1] == x);
        }
    };
    assert forall|x: usize| (s.contains(x) && x != s[i]) implies #[trigger] r.contains(x) by {
        let k = choose|k: int| 0 <= k < s.len() && s[k] == x;
        if k < i {
            assert(r[k] == x);
        } else {
            assert(r[k - 1] == x);
        }
    };
}

/// Task state after the running task `current` is charged for the time up
/// to `now`, weighted by the task count.
pub open spec fn account_runtime_spec(tasks: Seq<TaskInfo>, current: usize, now: u64) -> Seq<
    TaskInfo,
> {
    tasks.update(
        current as int,
        (TaskInfo {
            total_runtime: (tasks[current as int].total_runtime + (now
                - tasks[current as int].last_scheduled) * tasks.len()) as u64,
            ..tasks[current as int]
        }),
    )
}

/// The runnable heap after the outgoing task has been pushed back, which
/// happens exactly when its runnable bit is set.
pub open spec fn switch_pool_spec(
    tasks: Seq<TaskInfo>,
    sched: Seq<usize>,
    current: usize,
) -> Seq<usize> {
    if tasks[current as int].runnable() {
        sched.push(current)
    } else {
        sched
    }
}

/// Id of the task a switch at `now` dispatches: the minimum-runtime member
/// of the heap, or the idle task when the heap is empty.
pub open spec fn switch_next_spec(
    tasks: Seq<TaskInfo>,
    sched: Seq<usize>,
    current: usize,
    now: u64,
) -> usize {
    let t1 = account_runtime_spec(tasks, current, now);
    let pool = switch_pool_spec(tasks, sched, current);
    if pool.len() == 0 {
        0
    } else {
        pool[min_runtime_index(t1, pool)]
    }
}

/// The runnable heap after a switch at `now`.
pub open spec fn switch_sched_spec(
    tasks: Seq<TaskInfo>,
    sched: Seq<usize>,
    current: usize,
    now: u64,
) -> Seq<usize> {
    let t1 = account_runtime_spec(tasks, current, now);
    let pool = switch_pool_spec(tasks, sched, current);
    if pool.len() == 0 {
        pool
    } else {
        pool.remove(min_runtime_index(t1, pool))
    }
}

/// The task table after a switch at `now`: the outgoing task charged for
/// its slice, the incoming task stamped with `now` and a fresh slice.
pub open spec fn switch_tasks_spec(
    tasks: Seq<TaskInfo>,
    sched: Seq<usize>,
    current: usize,
    now: u64,
) -> Seq<TaskInfo> {
    let t1 = account_runtime_spec(tasks, current, now);
    let next = switch_next_spec(tasks, sched, current, now);
    t1.update(
        next as int,
        (TaskInfo {
            last_scheduled: now,
            run_until: (now + SCHED_LATENCY as int / tasks.len() as int) as u64,
            ..t1[next as int]
        }),
    )
}

/// Index of the first entry of `s` whose task has the minimum total
/// runtime in `ts` among the entries of `s`.
pub open spec fn min_runtime_index(ts: Seq<TaskInfo>, s: Seq<usize>) -> int
    decreases s.len(),
{
    if s.len() <= 1 {
        0
    } else {
        let rest = 1 + min_runtime_index(ts, s.skip(1));
        if ts[s[0] as int].total_runtime <= ts[s[rest] as int].total_runtime {
            0
        } else {
            rest
        }
    }
}

/// Index of the first minimum-runtime entry of the suffix of `sched`
/// starting at position `from`, as an absolute index into `sched`.
fn find_min_index(tasks: &Vec<TaskInfo>, sched: &Vec<usize>) -> (best: usize)
    requires
        sched@.len() > 0,
        forall|k: int| 0 <= k < sched@.len() ==> #[trigger] sched@[k] < tasks@.len(),
    ensures
        best == min_runtime_index(tasks@, sched@),
        best < sched@.len(),
{
    let n = sched.len();
    let mut i: usize = n - 1;
    let mut best: usize = n - 1;
    proof {
        assert(sched@.skip(i as int).len() == 1);
    }
    while i > 0
        invariant
            0 < n == sched@.len(),
            i < n,
            i <= best < n,
            forall|k: int| 0 <= k < sched@.len() ==> #[trigger] sched@[k] < tasks@.len(),
            best == i + min_runtime_index(tasks@, sched@.skip(i as int)),
        decreases i,
    {
        i = i - 1;
        let cand = sched[i];
        let incumbent = sched[best];
        proof {
            let s = sched@;
            let ts = tasks@;
            assert(s.skip(i as int).skip(1) =~= s.skip(i as int + 1));
            assert(s.skip(i as int)[0] == s[i as int]);
            let rest = 1 + min_runtime_index(ts, s.skip(i as int + 1));
            lemma_min_runtime_index(ts, s.skip(i as int + 1));
            assert(s.skip(i as int)[rest] == s[i as int + rest]);
        }
        if tasks[cand].total_runtime <= tasks[incumbent].total_runtime {
            best = i;
        }
    }
    proof {
        assert(sched@.skip(0) =~= sched@);
    }
    best
}

proof fn lemma_min_runtime_index(ts: Seq<TaskInfo>, s: Seq<usize>)
    requires
        s.len() > 0,
        forall|k: int| 0 <= k < s.len() ==> #[trigger] s[k] < ts.len(),
    ensures
        0 <= min_runtime_index(ts, s) < s.len(),
        forall|j: int|
            0 <= j < s.len() ==> ts[s[min_runtime_index(ts, s)] as int].total_runtime
                <= ts[#[trigger] s[j] as int].total_runtime,
    decreases s.len(),
{
    if s.len() > 1 {
        let tail = s.skip(1);
        assert(forall|k: int| 0 <= k < tail.len() ==> #[trigger] tail[k] < ts.len());
        lemma_min_runtime_index(ts, tail);
        let rest = 1 + min_runtime_index(ts, tail);
        assert(forall|j: int| 1 <= j < s.len() ==> s[j] == tail[j - 1]);
    }
}

/// Two consecutive yields at one instant by the only busy task, with the
/// idle task as the only other task, return the scheduler to the state
/// it started in: the first switch hands the processor to the other
/// task, the second hands it straight back, and the runnable heap, every
/// flags word and every total runtime end up exactly as before the pair.
/// (A single yield does move the processor, so the pair — not the single
/// call — is the identity; the dispatch stamps are refreshed to `now`.)
pub proof fn lemma_yield_round_trip(tl: TaskList, now: u64)
    requires
        tl.wf(),
        tl.tasks@.len() == 2,
        tl.tasks@[0].runnable(),
        tl.tasks@[1].runnable(),
        tl.tasks@[tl.current as int].last_scheduled == now,
        tl.tasks@[0].total_runtime == tl.tasks@[1].total_runtime,
        now + SCHED_LATENCY <= u64::MAX,
    ensures
        ({
            let c = tl.current;
            let ts1 = switch_tasks_spec(tl.tasks@, tl.schedulable@, c, now);
            let s1 = switch_sched_spec(tl.tasks@, tl.schedulable@, c, now);
            let c1 = switch_next_spec(tl.tasks@, tl.schedulable@, c, now);
            let ts2 = switch_tasks_spec(ts1, s1, c1, now);
            let s2 = switch_sched_spec(ts1, s1, c1, now);
            let c2 = switch_next_spec(ts1, s1, c1, now);
            &&& c1 != c
            &&& c2 == c
            &&& s2 == tl.schedulable@
            &&& forall|i: int|
                0 <= i < 2 ==> #[trigger] ts2[i].total_runtime == tl.tasks@[i].total_runtime
                    && ts2[i].flags == tl.tasks@[i].flags
        }),
{
    reveal_with_fuel(min_runtime_index, 3);
    let ts0 = tl.tasks@;
    let s0 = tl.schedulable@;
    let c = tl.current;
    let o: usize = if c == 0 { 1 } else { 0 };
    // the heap holds exactly the other task
    assert(s0.contains(o) <==> (ts0[o as int].runnable() && o != c));
    assert(s0.contains(o));
    assert(s0.contains(c) <==> (ts0[c as int].runnable() && c != c));
    assert(!s0.contains(c));
    assert forall|k: int| 0 <= k < s0.len() implies #[trigger] s0[k] == o by {
        assert(s0[k] < 2);
        if s0[k] == c {
            assert(s0.contains(c));
        }
    };
    if s0.len() >= 2 {
        assert(s0[0] == o && s0[1] == o);
        assert(false);
    }
    let k0 = choose|k: int| 0 <= k < s0.len() && s0[k] == o;
    assert(s0.len() == 1);
    assert(s0 =~= seq![o]);

    // no time has passed, so the accounting charge is zero
    let t1 = account_runtime_spec(ts0, c, now);
    assert(t1[c as int] == ts0[c as int]);
    assert(t1 =~= ts0);

    // first switch: the other task is dispatched
    let pool1 = switch_pool_spec(ts0, s0, c);
    assert(ts0[c as int].runnable());
    assert(pool1 == s0.push(c));
    assert(pool1 =~= seq![o, c]);
    assert(pool1.skip(1) =~= seq![c]);
    assert(min_runtime_index(t1, pool1.skip(1)) == 0);
    assert(t1[pool1[0] as int].total_runtime <= t1[pool1[1] as int].total_runtime);
    assert(min_runtime_index(t1, pool1) == 0);
    let c1 = switch_next_spec(ts0, s0, c, now);
    assert(c1 == o);
    let s1 = switch_sched_spec(ts0, s0, c, now);
    assert(s1 == pool1.remove(0));
    assert(s1 =~= seq![c]);
    let ts1 = switch_tasks_spec(ts0, s0, c, now);
    assert(ts1 == t1.update(
        o as int,
        (TaskInfo {
            last_scheduled: now,
            run_until: (now + SCHED_LATENCY as int / ts0.len() as int) as u64,
            ..t1[o as int]
        }),
    ));
    assert(ts1[c as int] == ts0[c as int]);
    assert(ts1[o as int].total_runtime == ts0[o as int].total_runtime);
    assert(ts1[o as int].flags == ts0[o as int].flags);
    assert(ts1[o as int].last_scheduled == now);

    // second switch at the same instant: the first task comes back
    let t2 = account_runtime_spec(ts1, o, now);
    assert(t2[o as int] == ts1[o as int]);
    assert(t2 =~= ts1);
    let pool2 = switch_pool_spec(ts1, s1, o);
    assert(ts1[o as int].runnable());
    assert(pool2 == s1.push(o));
    assert(pool2 =~= seq![c, o]);
    assert(pool2.skip(1) =~= seq![o]);
    assert(min_runtime_index(t2, pool2.skip(1)) == 0);
    assert(t2[pool2[0] as int].total_runtime <= t2[pool2[1] as int].total_runtime);
    assert(min_runtime_index(t2, pool2) == 0);
    let c2 = switch_next_spec(ts1, s1, o, now);
    assert(c2 == c);
    let s2 = switch_sched_spec(ts1, s1, o, now);
    assert(s2 == pool2.remove(0));
    assert(s2 =~= seq![o]);
    assert(s2 == tl.schedulable@);
    let ts2 = switch_tasks_spec(ts1, s1, o, now);
    assert forall|i: int| 0 <= i < 2 implies #[trigger] ts2[i].total_runtime
        == ts0[i].total_runtime && ts2[i].flags == ts0[i].flags by {
        assert(ts2 == t2.update(
            c as int,
            (TaskInfo {
                last_scheduled: now,
                run_until: (now + SCHED_LATENCY as int / ts1.len() as int) as u64,
                ..t2[c as int]
            }),
        ));
    };
}

/// Sleeping for zero milliseconds is a yield in everything but the
/// identity of the task dispatched next: the runtime accounting of every
/// task is the same as a yield's, the zero-deadline wake-up that the
/// very next tick fires makes the sleeper runnable again with exactly
/// the flags a yield would have left it, and — the one difference — the
/// sleeper itself is never the task the switch dispatches, while a yield
/// may pick it again at once.
pub proof fn lemma_sleep_zero_is_yield(tl: TaskList, now: u64)
    requires
        tl.wf(),
        tl.current != 0,
        tl.tasks@[tl.current as int].flags == TaskFlags(1),
        can_switch_at(tl, now),
    ensures
        ({
            let cur = tl.current;
            let blocked = tl.tasks@.update(
                cur as int,
                (TaskInfo { flags: TaskFlags(0), ..tl.tasks@[cur as int] }),
            );
            let after_sleep = switch_tasks_spec(blocked, tl.schedulable@, cur, now);
            let after_yield = switch_tasks_spec(tl.tasks@, tl.schedulable@, cur, now);
            let woken = after_sleep.update(
                cur as int,
                (TaskInfo { flags: TaskFlags(1), ..after_sleep[cur as int] }),
            );
            &&& forall|i: int|
                0 <= i < tl.tasks@.len() ==> #[trigger] after_sleep[i].total_runtime
                    == after_yield[i].total_runtime
            &&& woken[cur as int].flags == after_yield[cur as int].flags
            &&& switch_next_spec(blocked, tl.schedulable@, cur, now) != cur
        }),
{
    let cur = tl.current;
    let ts0 = tl.tasks@;
    let s0 = tl.schedulable@;
    let blocked = ts0.update(
        cur as int,
        (TaskInfo { flags: TaskFlags(0), ..ts0[cur as int] }),
    );
    assert(0u32 & 1 == 0) by (bit_vector);
    assert(1u32 & 1 == 1) by (bit_vector);
    let tb = account_runtime_spec(blocked, cur, now);
    let ty = account_runtime_spec(ts0, cur, now);
    assert forall|i: int| 0 <= i < ts0.len() implies #[trigger] tb[i].total_runtime
        == ty[i].total_runtime by {};
    // the blocked task is pushed back by a yield but not by a sleep
    let pool_b = switch_pool_spec(blocked, s0, cur);
    assert(!blocked[cur as int].runnable());
    assert(pool_b == s0);
    // the heap is never empty: the idle task is runnable and not current
    assert(s0.contains(0usize) <==> (ts0[0].runnable() && 0usize != cur));
    assert(s0.contains(0usize));
    assert(pool_b.len() > 0);
    lemma_min_runtime_index(tb, pool_b);
    let mi = min_runtime_index(tb, pool_b);
    let next_b = switch_next_spec(blocked, s0, cur, now);
    assert(next_b == pool_b[mi]);
    assert(pool_b.contains(pool_b[mi]));
    if next_b == cur {
        assert(s0.contains(cur));
        assert(ts0[cur as int].runnable() && cur != cur);
    }
    // a yield pushes the runnable task back before picking
    let pool_y = switch_pool_spec(ts0, s0, cur);
    assert(ts0[cur as int].runnable());
    assert(pool_y == s0.push(cur));
    assert forall|k: int| 0 <= k < pool_y.len() implies #[trigger] pool_y[k] < ty.len() by {
        if k < s0.len() {
            assert(pool_y[k] == s0[k]);
        } else {
            assert(pool_y[k] == cur);
        }
    };
    lemma_min_runtime_index(ty, pool_y);
    let next_y = switch_next_spec(ts0, s0, cur, now);
    assert(next_y == pool_y[min_runtime_index(ty, pool_y)]);
    assert(next_y < ts0.len());
    // accounting lands on the same fields whichever task is dispatched
    let after_sleep = switch_tasks_spec(blocked, s0, cur, now);
    let after_yield = switch_tasks_spec(ts0, s0, cur, now);
    assert forall|i: int| 0 <= i < ts0.len() implies #[trigger] after_sleep[i].total_runtime
        == after_yield[i].total_runtime by {
        assert(after_sleep[i].total_runtime == tb[i].total_runtime);
        assert(after_yield[i].total_runtime == ty[i].total_runtime);
    };
    assert(after_yield[cur as int].flags == ts0[cur as int].flags);
}

} // verus!
