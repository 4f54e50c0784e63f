//! The logical clock: a monotonic nanosecond counter advanced by the
//! physical tick, a deadline-ordered queue of one-shot callbacks fired as
//! the counter passes their deadlines, and the busy-wait sleep primitive
//! used before the scheduler is active.

use vstd::prelude::*;

verus! {

/// A deferred one-shot action.  The scheduler registers task wake-ups;
/// everything else registers an opaque event number that the caller
/// interprets.
#[derive(Clone, Copy, PartialEq, Eq, Structural, Debug)]
pub enum Callback {
    /// Sets the runnable bit of the task with this id and pushes it into
    /// the runnable heap.
    WakeTask(usize),
    /// An action identified by a caller-chosen number.
    Event(u64),
}

/// The logical clock: ticks since start in nanoseconds, and the pending
/// callbacks as `(deadline, callback)` pairs kept sorted by deadline.
pub struct Clock {
    /// Nanoseconds since the clock was started.
    pub ticks: u64,
    /// Pending callbacks, sorted by ascending deadline; equal deadlines
    /// keep their registration order.
    pub callbacks: Vec<(u64, Callback)>,
}

/// The callback queue is sorted by ascending deadline.
pub open spec fn deadlines_sorted(cbs: Seq<(u64, Callback)>) -> bool {
    forall|k: int, l: int| 0 <= k < l < cbs.len() ==> (#[trigger] cbs[k]).0 <= (#[trigger] cbs[l]).0
}

/// First position of the queue whose deadline lies strictly after `ns`:
/// where a callback for `ns` is inserted, and, for `ns` = the current
/// time, the number of leading entries that are due.
pub open spec fn deadline_split(cbs: Seq<(u64, Callback)>, ns: u64) -> int
    decreases cbs.len(),
{
    if cbs.len() == 0 {
        0
    } else if cbs[0].0 <= ns {
        1 + deadline_split(cbs.skip(1), ns)
    } else {
        0
    }
}

/// In a sorted queue, `deadline_split` separates the entries with
/// deadline at most `ns` from those strictly after `ns`.
pub proof fn lemma_deadline_split(cbs: Seq<(u64, Callback)>, ns: u64)
    requires
        deadlines_sorted(cbs),
    ensures
        0 <= deadline_split(cbs, ns) <= cbs.len(),
        forall|k: int| 0 <= k < deadline_split(cbs, ns) ==> (#[trigger] cbs[k]).0 <= ns,
        forall|k: int| deadline_split(cbs, ns) <= k < cbs.len() ==> (#[trigger] cbs[k]).0 > ns,
    decreases cbs.len(),
{
    if cbs.len() > 0 {
        let tail = cbs.skip(1);
        assert(forall|k: int| 0 <= k < tail.len() ==> #[trigger] tail[k] == cbs[k + 1]);
        assert forall|k: int, l: int| 0 <= k < l < tail.len() implies (#[trigger] tail[k]).0
            <= (#[trigger] tail[l]).0 by {
            assert(tail[k] == cbs[k + 1] && tail[l] == cbs[l + 1]);
        };
        lemma_deadline_split(tail, ns);
        let ip = deadline_split(cbs, ns);
        if cbs[0].0 <= ns {
            assert forall|k: int| 0 <= k < ip implies (#[trigger] cbs[k]).0 <= ns by {
                if k > 0 {
                    assert(tail[k - 1].0 <= ns);
                }
            };
            assert forall|k: int| ip <= k < cbs.len() implies (#[trigger] cbs[k]).0 > ns by {
                assert(tail[k - 1].0 > ns);
            };
        } else {
            assert forall|k: int| ip <= k < cbs.len() implies (#[trigger] cbs[k]).0 > ns by {
                if k > 0 {
                    assert(cbs[0].0 <= cbs[k].0);
                }
            };
        }
    }
}

impl Clock {
    /// The callback queue is sorted; established at creation and kept by
    /// every operation.
    pub open spec fn wf(self) -> bool {
        deadlines_sorted(self.callbacks@)
    }

    /// A fresh clock at zero nanoseconds with no pending callbacks.
    pub fn new() -> (r: Clock)
        ensures
            r.wf(),
            r.ticks == 0,
            r.callbacks@.len() == 0,
    {
        Clock { ticks: 0, callbacks: Vec::new() }
    }

    /// Synchronises the counter with the clock source's reading and
    /// returns it.  The source is monotonic, so the reading is never
    /// behind the counter.
    pub fn get_tick(&mut self, source_now: u64) -> (r: u64)
        requires
            old(self).ticks <= source_now,
        ensures
            r == source_now,
            final(self).ticks == source_now,
            final(self).callbacks == old(self).callbacks,
    {
        self.ticks = source_now;
        source_now
    }

    /// Schedules `f` to run at or after `ns` nanoseconds: inserts the
    /// pair behind every earlier or equal deadline, so ties fire in
    /// registration order.  A deadline already in the past is fired by
    /// the next tick.
    pub fn callback_at(&mut self, ns: u64, f: Callback)
        requires
            old(self).wf(),
        ensures
            final(self).wf(),
            final(self).ticks == old(self).ticks,
            final(self).callbacks@ == old(self).callbacks@.insert(
                deadline_split(old(self).callbacks@, ns),
                (ns, f),
            ),
    {
        let ghost cbs0 = self.callbacks@;
        proof {
            assert(cbs0.skip(0) =~= cbs0);
        }
        let mut i: usize = 0;
        while i < self.callbacks.len() && self.callbacks[i].0 <= ns
            invariant
                i <= self.callbacks@.len(),
                self.callbacks@ == cbs0,
                deadline_split(cbs0, ns) == i + deadline_split(cbs0.skip(i as int), ns),
            decreases self.callbacks@.len() - i,
        {
            proof {
                assert(cbs0.skip(i as int)[0] == cbs0[i as int]);
                assert(cbs0.skip(i as int).skip(1) =~= cbs0.skip(i as int + 1));
            }
            i = i + 1;
        }
        proof {
            if i < cbs0.len() {
                assert(cbs0.skip(i as int)[0] == cbs0[i as int]);
            }
            assert(deadline_split(cbs0.skip(i as int), ns) == 0);
            lemma_deadline_split(cbs0, ns);
        }
        self.callbacks.insert(i, (ns, f));
        proof {
            let ip = deadline_split(cbs0, ns);
            assert(final(self).callbacks@ =~= cbs0.insert(ip, (ns, f)));
            let cbs1 = cbs0.insert(ip, (ns, f));
            assert forall|k: int, l: int| 0 <= k < l < cbs1.len() implies (#[trigger] cbs1[k]).0
                <= (#[trigger] cbs1[l]).0 by {
                if k < ip && l < ip {
                    assert(cbs1[k] == cbs0[k] && cbs1[l] == cbs0[l]);
                } else if k < ip && l == ip {
                    assert(cbs1[k] == cbs0[k] && cbs1[l].0 == ns);
                } else if k < ip && l > ip {
                    assert(cbs1[k] == cbs0[k] && cbs1[l] == cbs0[l - 1]);
                } else if k == ip && l > ip {
                    assert(cbs1[k].0 == ns && cbs1[l] == cbs0[l - 1]);
                } else {
                    assert(cbs1[k] == cbs0[k - 1] && cbs1[l] == cbs0[l - 1]);
                }
            };
        }
    }

    /// Advances the counter by the reported tick delta, then removes and
    /// returns every callback whose deadline has passed, in ascending
    /// deadline order.  Each due callback is returned exactly once and is
    /// gone from the queue afterwards, so it can never fire again.
    pub fn tick(&mut self, increment: u64) -> (fired: Vec<(u64, Callback)>)
        requires
            old(self).wf(),
            old(self).ticks + increment <= u64::MAX,
        ensures
            final(self).wf(),
            final(self).ticks == old(self).ticks + increment,
            fired@ == old(self).callbacks@.take(
                deadline_split(old(self).callbacks@, (old(self).ticks + increment) as u64),
            ),
            final(self).callbacks@ == old(self).callbacks@.skip(
                deadline_split(old(self).callbacks@, (old(self).ticks + increment) as u64),
            ),
            forall|k: int| 0 <= k < fired@.len() ==> (#[trigger] fired@[k]).0 <= final(self).ticks,
            forall|k: int|
                0 <= k < final(self).callbacks@.len() ==> (#[trigger] final(self).callbacks@[k]).0
                    > final(self).ticks,
    {
        self.ticks = self.ticks + increment;
        let now = self.ticks;
        let ghost cbs0 = self.callbacks@;
        proof {
            lemma_deadline_split(cbs0, now);
        }
        proof {
            assert(cbs0.skip(0) =~= cbs0);
        }
        let mut fired: Vec<(u64, Callback)> = Vec::new();
        let mut i: usize = 0;
        while i < self.callbacks.len() && self.callbacks[i].0 <= now
            invariant
                i <= self.callbacks@.len(),
                self.callbacks@ == cbs0,
                self.ticks == now,
                fired@ == cbs0.take(i as int),
                deadline_split(cbs0, now) == i + deadline_split(cbs0.skip(i as int), now),
            decreases self.callbacks@.len() - i,
        {
            proof {
                assert(cbs0.skip(i as int)[0] == cbs0[i as int]);
                assert(cbs0.skip(i as int).skip(1) =~= cbs0.skip(i as int + 1));
                assert(cbs0.take(i as int + 1) =~= cbs0.take(i as int).push(cbs0[i as int]));
            }
            let entry = self.callbacks[i];
            fired.push(entry);
            i = i + 1;
        }
        proof {
            if i < cbs0.len() {
                assert(cbs0.skip(i as int)[0] == cbs0[i as int]);
            }
            assert(deadline_split(cbs0.skip(i as int), now) == 0);
        }
        // drop the fired prefix from the queue
        let mut rest: Vec<(u64, Callback)> = Vec::new();
        let mut j: usize = i;
        while j < self.callbacks.len()
            invariant
                i <= j <= self.callbacks@.len(),
                self.callbacks@ == cbs0,
                rest@ == cbs0.subrange(i as int, j as int),
            decreases self.callbacks@.len() - j,
        {
            proof {
                assert(cbs0.subrange(i as int, j as int + 1) =~= cbs0.subrange(
                    i as int,
                    j as int,
                ).push(cbs0[j as int]));
            }
            let entry = self.callbacks[j];
            rest.push(entry);
            j = j + 1;
        }
        self.callbacks = rest;
        proof {
            assert(final(self).callbacks@ =~= cbs0.skip(deadline_split(cbs0, now)));
            assert(fired@ =~= cbs0.take(deadline_split(cbs0, now)));
        }
        fired
    }
}

/// A callback queued for deadline `t` fires on the first tick that
/// carries the clock to `t` or beyond — also when `t` was already in the
/// past when it was queued — and exactly once: a tick to `now` fires
/// precisely the entries with deadline at most `now`, removes them from
/// the queue, and leaves only entries with strictly later deadlines, so
/// nothing fired can ever fire again.
pub proof fn lemma_fire_exactly_once(cbs: Seq<(u64, Callback)>, now: u64)
    requires
        deadlines_sorted(cbs),
    ensures
        cbs == cbs.take(deadline_split(cbs, now)) + cbs.skip(deadline_split(cbs, now)),
        forall|k: int|
            0 <= k < cbs.len() ==> ((#[trigger] cbs[k]).0 <= now <==> k < deadline_split(
                cbs,
                now,
            )),
        forall|k: int| deadline_split(cbs, now) <= k < cbs.len() ==> (#[trigger] cbs[k]).0 > now,
{
    lemma_deadline_split(cbs, now);
    let ip = deadline_split(cbs, now);
    assert(cbs =~= cbs.take(ip) + cbs.skip(ip));
}

/// Deadline of a busy-wait sleep of `ms` milliseconds starting at the
/// clock's current reading: the caller then halts the processor in a loop
/// until the counter reaches it.
pub fn sleep(clock: &Clock, ms: u64) -> (until: u64)
    requires
        clock.ticks + ms * 1_000_000 <= u64::MAX,
    ensures
        until == clock.ticks + ms * 1_000_000,
{
    clock.ticks + ms * 1_000_000
}

} // verus!
