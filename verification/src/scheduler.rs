//! The sandbox's event loop, without the engine: a clock, the timers that
//! wait for it, and the queue of macrotasks. The engine asks for one
//! macrotask at a time, runs it, and drains its microtasks before it asks
//! again; nothing here runs by itself.

use crate::extension_dispatcher::{HostcallOutcome, HostcallOutcomeV};
use crate::model::{saturating_add, saturating_sum};
use std::collections::VecDeque;
use vstd::prelude::*;

verus! {

/// A timer that waits for the clock to reach its deadline.
#[derive(Debug, Clone, Copy, PartialEq, Eq, Structural)]
pub struct Timer {
    pub id: u64,
    pub deadline_ms: u64,
}

/// A unit of work for the engine.
#[derive(Debug, Clone)]
pub enum Macrotask {
    /// The timer with this id has fired.
    TimerFired { timer_id: u64 },
    /// The hostcall with this id has ended.
    HostcallComplete { call_id: String, outcome: HostcallOutcome },
}

/// [`Macrotask`] as plain data.
pub enum MacrotaskV {
    TimerFired { timer_id: u64 },
    HostcallComplete { call_id: Seq<char>, outcome: HostcallOutcomeV },
}

impl View for Macrotask {
    type V = MacrotaskV;

    open spec fn view(&self) -> MacrotaskV {
        match self {
            Macrotask::TimerFired { timer_id } => MacrotaskV::TimerFired { timer_id: *timer_id },
            Macrotask::HostcallComplete { call_id, outcome } => MacrotaskV::HostcallComplete {
                call_id: call_id@,
                outcome: outcome@,
            },
        }
    }
}

/// The views of a run of macrotasks.
pub open spec fn tasks_view(tasks: Seq<Macrotask>) -> Seq<MacrotaskV> {
    tasks.map_values(|t: Macrotask| t@)
}

/// How many of the timers at the front have a deadline of `time` or
/// earlier.
pub open spec fn due_count(timers: Seq<Timer>, time: u64) -> nat
    decreases timers.len(),
{
    if timers.len() == 0 || timers[0].deadline_ms > time {
        0
    } else {
        1 + due_count(timers.drop_first(), time)
    }
}

/// Whether the timers stand in the order of their deadlines.
pub open spec fn in_deadline_order(timers: Seq<Timer>) -> bool {
    forall|i: int, j: int|
        0 <= i < j < timers.len() ==> (#[trigger] timers[i]).deadline_ms <= (
        #[trigger] timers[j]).deadline_ms
}

/// The macrotasks that say that the timers have fired, in their order.
pub open spec fn fired(timers: Seq<Timer>) -> Seq<MacrotaskV> {
    timers.map_values(|t: Timer| MacrotaskV::TimerFired { timer_id: t.id })
}

/// The position of the timer with the given id among the first `limit`.
pub open spec fn timer_at(timers: Seq<Timer>, id: u64, limit: int) -> Option<int>
    decreases limit,
{
    if limit <= 0 || limit > timers.len() {
        None
    } else {
        match timer_at(timers, id, limit - 1) {
            Some(i) => Some(i),
            None => if timers[limit - 1].id == id {
                Some(limit - 1)
            } else {
                None
            },
        }
    }
}

/// `timer_at` finds the first timer with the id, if there is one.
pub proof fn lemma_timer_at(timers: Seq<Timer>, id: u64, limit: int)
    requires
        limit <= timers.len(),
    ensures
        match timer_at(timers, id, limit) {
            Some(i) => 0 <= i < limit && timers[i].id == id,
            None => forall|j: int| 0 <= j < limit ==> (#[trigger] timers[j]).id != id,
        },
    decreases limit,
{
    if limit > 0 {
        lemma_timer_at(timers, id, limit - 1);
    }
}

/// `due_count` counts the timers at the front that are due: each of them
/// is, and the next one, if there is one, is not.
pub proof fn lemma_due_count(timers: Seq<Timer>, time: u64)
    ensures
        due_count(timers, time) <= timers.len(),
        forall|i: int| 0 <= i < due_count(timers, time) ==> (#[trigger] timers[i]).deadline_ms <= time,
        due_count(timers, time) < timers.len() ==> timers[due_count(timers, time) as int].deadline_ms
            > time,
    decreases timers.len(),
{
    if timers.len() != 0 && timers[0].deadline_ms <= time {
        let rest = timers.drop_first();
        lemma_due_count(rest, time);
        assert forall|i: int| 0 <= i < due_count(timers, time) implies (
        #[trigger] timers[i]).deadline_ms <= time by {
            if i > 0 {
                assert(timers[i] == rest[i - 1]);
            }
        }
        if due_count(timers, time) < timers.len() {
            assert(timers[due_count(timers, time) as int] == rest[due_count(rest, time) as int]);
        }
    }
}

/// Counting the due timers from the front goes one timer at a time.
pub proof fn lemma_due_count_step(timers: Seq<Timer>, time: u64, k: int)
    requires
        0 <= k < timers.len(),
        forall|i: int| 0 <= i <= k ==> (#[trigger] timers[i]).deadline_ms <= time,
    ensures
        due_count(timers, time) > k,
    decreases k,
{
    if k > 0 {
        let rest = timers.drop_first();
        assert forall|i: int| 0 <= i <= k - 1 implies (#[trigger] rest[i]).deadline_ms <= time by {
            assert(rest[i] == timers[i + 1]);
        }
        lemma_due_count_step(rest, time, k - 1);
    }
}

/// What the event loop holds, as plain data.
pub struct SchedulerV {
    /// The time on the clock, in milliseconds.
    pub now_ms: u64,
    /// The timers that wait, in the order in which they will fire.
    pub timers: Seq<Timer>,
    /// The macrotasks that wait for the engine, oldest first.
    pub queue: Seq<MacrotaskV>,
    /// The id of the next timer.
    pub next_timer: u64,
}

impl SchedulerV {
    /// What holds of every event loop: the timers stand in the order of
    /// their deadlines, and each has an id of its own that was given out.
    pub open spec fn wf(self) -> bool {
        &&& in_deadline_order(self.timers)
        &&& forall|i: int| 0 <= i < self.timers.len() ==> (#[trigger] self.timers[i]).id < self.next_timer
        &&& forall|i: int, j: int|
            0 <= i < j < self.timers.len() ==> (#[trigger] self.timers[i]).id != (
            #[trigger] self.timers[j]).id
    }

    /// The loop with one more timer, due `delay_ms` from now: it stands
    /// behind every timer that is due at the same time or earlier.
    pub open spec fn with_timer(self, delay_ms: u64) -> SchedulerV {
        let deadline_ms = saturating_sum(self.now_ms, delay_ms);
        SchedulerV {
            timers: self.timers.insert(
                due_count(self.timers, deadline_ms) as int,
                Timer { id: self.next_timer, deadline_ms },
            ),
            next_timer: (self.next_timer + 1) as u64,
            ..self
        }
    }

    /// The loop without the timer with the given id.
    pub open spec fn without_timer(self, id: u64) -> SchedulerV {
        match timer_at(self.timers, id, self.timers.len() as int) {
            Some(i) => SchedulerV { timers: self.timers.remove(i), ..self },
            None => self,
        }
    }

    /// The loop after the timers that are due have fired: each becomes a
    /// macrotask at the end of the queue, in the order of the deadlines.
    pub open spec fn released(self) -> SchedulerV {
        let due = due_count(self.timers, self.now_ms) as int;
        SchedulerV {
            timers: self.timers.skip(due),
            queue: self.queue + fired(self.timers.take(due)),
            ..self
        }
    }

    /// One turn of the loop: the timers that are due fire, and the oldest
    /// macrotask, if there is one, leaves the queue to be run.
    pub open spec fn ticked(self) -> (SchedulerV, Option<MacrotaskV>) {
        let after = self.released();
        if after.queue.len() == 0 {
            (after, None)
        } else {
            (SchedulerV { queue: after.queue.drop_first(), ..after }, Some(after.queue[0]))
        }
    }

    /// A new timer keeps the order of the timers.
    pub proof fn lemma_with_timer_wf(self, delay_ms: u64)
        requires
            self.wf(),
            self.next_timer < u64::MAX,
        ensures
            self.with_timer(delay_ms).wf(),
    {
        let deadline_ms = saturating_sum(self.now_ms, delay_ms);
        let slot = due_count(self.timers, deadline_ms) as int;
        let after = self.with_timer(delay_ms).timers;
        lemma_due_count(self.timers, deadline_ms);
        assert forall|i: int, j: int| 0 <= i < j < after.len() implies (
        #[trigger] after[i]).deadline_ms <= (#[trigger] after[j]).deadline_ms && after[i].id
            != after[j].id by {
            let x = if i < slot {
                i
            } else {
                i - 1
            };
            let y = if j < slot {
                j
            } else {
                j - 1
            };
            if i != slot {
                assert(after[i] == self.timers[x]);
            }
            if j != slot {
                assert(after[j] == self.timers[y]);
            }
            if i == slot {
                assert(self.timers[slot].deadline_ms <= self.timers[y].deadline_ms || y == slot);
            }
        }
        assert forall|i: int| 0 <= i < after.len() implies (#[trigger] after[i]).id < self.with_timer(
            delay_ms,
        ).next_timer by {
            if i < slot {
                assert(after[i] == self.timers[i]);
            } else if i > slot {
                assert(after[i] == self.timers[i - 1]);
            }
        }
    }

    /// Taking timers away keeps the order of the rest.
    pub proof fn lemma_without_timer_wf(self, id: u64)
        requires
            self.wf(),
        ensures
            self.without_timer(id).wf(),
            timer_at(self.without_timer(id).timers, id, self.without_timer(id).timers.len() as int)
                is None,
    {
        let n = self.timers.len() as int;
        lemma_timer_at(self.timers, id, n);
        let after = self.without_timer(id).timers;
        match timer_at(self.timers, id, n) {
            Some(at) => {
                assert forall|i: int| 0 <= i < after.len() implies (#[trigger] after[i])
                    == self.timers[if i < at {
                    i
                } else {
                    i + 1
                }] by {}
                assert forall|i: int| 0 <= i < after.len() implies (#[trigger] after[i]).id != id by {
                    let x = if i < at {
                        i
                    } else {
                        i + 1
                    };
                    assert(after[i] == self.timers[x]);
                }
            },
            None => {},
        }
        lemma_timer_at(after, id, after.len() as int);
    }

    /// No timer fires before its time, and none waits beyond it: after the
    /// due timers have fired, every timer that still waits has a deadline
    /// after the present time, and each that fired had one at or before it.
    pub proof fn lemma_released(self)
        requires
            self.wf(),
        ensures
            self.released().wf(),
            forall|i: int|
                0 <= i < self.released().timers.len() ==> (#[trigger] self.released().timers[i]).deadline_ms
                    > self.now_ms,
            forall|i: int|
                0 <= i < due_count(self.timers, self.now_ms) ==> (#[trigger] self.timers[i]).deadline_ms
                    <= self.now_ms,
            self.released().queue.len() == self.queue.len() + due_count(self.timers, self.now_ms),
            self.released().timers.len() + due_count(self.timers, self.now_ms) == self.timers.len(),
    {
        let due = due_count(self.timers, self.now_ms) as int;
        lemma_due_count(self.timers, self.now_ms);
        let after = self.released().timers;
        assert forall|i: int| 0 <= i < after.len() implies (#[trigger] after[i]).deadline_ms
            > self.now_ms by {
            assert(after[i] == self.timers[i + due]);
            assert(self.timers[due].deadline_ms <= self.timers[i + due].deadline_ms || i == 0);
        }
        assert forall|i: int, j: int| 0 <= i < j < after.len() implies (
        #[trigger] after[i]).deadline_ms <= (#[trigger] after[j]).deadline_ms && after[i].id
            != after[j].id by {
            assert(after[i] == self.timers[i + due]);
            assert(after[j] == self.timers[j + due]);
        }
        assert forall|i: int| 0 <= i < after.len() implies (#[trigger] after[i]).id
            < self.next_timer by {
            assert(after[i] == self.timers[i + due]);
        }
    }

    /// Timers fire in the order of their deadlines, and timers with one
    /// deadline in the order in which they were set: a new timer stands
    /// behind every timer whose deadline is no later than its own, and
    /// before every other.
    pub proof fn lemma_timer_order(self, delay_ms: u64)
        requires
            self.wf(),
        ensures
            ({
                let deadline_ms = saturating_sum(self.now_ms, delay_ms);
                let slot = due_count(self.timers, deadline_ms) as int;
                &&& slot <= self.timers.len()
                &&& self.with_timer(delay_ms).timers[slot] == (Timer {
                    id: self.next_timer,
                    deadline_ms,
                })
                &&& forall|i: int|
                    0 <= i < slot ==> (#[trigger] self.timers[i]).deadline_ms <= deadline_ms
                &&& forall|i: int|
                    slot <= i < self.timers.len() ==> (#[trigger] self.timers[i]).deadline_ms
                        > deadline_ms
            }),
    {
        let deadline_ms = saturating_sum(self.now_ms, delay_ms);
        let slot = due_count(self.timers, deadline_ms) as int;
        lemma_due_count(self.timers, deadline_ms);
        assert forall|i: int| slot <= i < self.timers.len() implies (
        #[trigger] self.timers[i]).deadline_ms > deadline_ms by {
            assert(self.timers[slot].deadline_ms <= self.timers[i].deadline_ms || i == slot);
        }
    }
}

/// The sandbox's event loop.
#[derive(Debug)]
pub struct Scheduler {
    now_ms: u64,
    timers: Vec<Timer>,
    queue: VecDeque<Macrotask>,
    next_timer: u64,
}

impl View for Scheduler {
    type V = SchedulerV;

    closed spec fn view(&self) -> SchedulerV {
        SchedulerV {
            now_ms: self.now_ms,
            timers: self.timers@,
            queue: tasks_view(self.queue@),
            next_timer: self.next_timer,
        }
    }
}

impl Scheduler {
    /// An event loop with nothing to do, whose clock shows `now_ms`.
    pub fn new(now_ms: u64) -> (r: Self)
        ensures
            r@ == (SchedulerV { now_ms, timers: Seq::empty(), queue: Seq::empty(), next_timer: 0 }),
            r@.wf(),
    {
        let r = Scheduler { now_ms, timers: Vec::new(), queue: VecDeque::new(), next_timer: 0 };
        assert(r@.queue =~= Seq::<MacrotaskV>::empty());
        r
    }

    /// The time on the clock, in milliseconds.
    pub fn now_ms(&self) -> (r: u64)
        ensures
            r == self@.now_ms,
    {
        self.now_ms
    }

    /// Moves the clock forward by `ms`. It stops at the last time that it
    /// can show. No timer fires before the next turn of the loop.
    pub fn advance(&mut self, ms: u64)
        ensures
            final(self)@ == (SchedulerV { now_ms: saturating_sum(old(self)@.now_ms, ms), ..old(self)@ }),
    {
        self.now_ms = saturating_add(self.now_ms, ms);
    }

    /// Sets the clock to `now_ms`, unless it is ahead of that already: the
    /// clock never goes back.
    pub fn advance_to(&mut self, now_ms: u64)
        ensures
            final(self)@ == (SchedulerV {
                now_ms: if now_ms > old(self)@.now_ms {
                    now_ms
                } else {
                    old(self)@.now_ms
                },
                ..old(self)@
            }),
    {
        if now_ms > self.now_ms {
            self.now_ms = now_ms;
        }
    }

    /// Sets a timer that is due `delay_ms` from now and returns its id.
    /// `None`, with nothing changed, once the ids have run out.
    pub fn set_timeout(&mut self, delay_ms: u64) -> (r: Option<u64>)
        requires
            old(self)@.wf(),
        ensures
            final(self)@.wf(),
            match r {
                Some(id) => id == old(self)@.next_timer && final(self)@ == old(self)@.with_timer(
                    delay_ms,
                ),
                None => old(self)@.next_timer == u64::MAX && final(self)@ == old(self)@,
            },
    {
        if self.next_timer == u64::MAX {
            return None;
        }
        proof {
            old(self)@.lemma_with_timer_wf(delay_ms);
        }
        let id = self.next_timer;
        let deadline_ms = saturating_add(self.now_ms, delay_ms);
        let slot = self.due(deadline_ms);
        self.timers.insert(slot, Timer { id, deadline_ms });
        self.next_timer = id + 1;
        Some(id)
    }

    /// How many of the timers at the front are due at `time`.
    fn due(&self, time: u64) -> (r: usize)
        ensures
            r == due_count(self@.timers, time),
            r <= self.timers@.len(),
    {
        let mut i: usize = 0;
        while i < self.timers.len() && self.timers[i].deadline_ms <= time
            invariant
                i <= self.timers.len(),
                forall|k: int| 0 <= k < i ==> (#[trigger] self.timers@[k]).deadline_ms <= time,
            decreases self.timers.len() - i,
        {
            i += 1;
        }
        proof {
            lemma_due_count(self.timers@, time);
            if i > 0 {
                lemma_due_count_step(self.timers@, time, i - 1);
            }
        }
        i
    }

    /// Takes the timer with the given id away before it fires. Returns
    /// whether it was waiting; a timer that has fired is beyond recall.
    pub fn clear_timeout(&mut self, id: u64) -> (r: bool)
        requires
            old(self)@.wf(),
        ensures
            final(self)@.wf(),
            final(self)@ == old(self)@.without_timer(id),
            r == (timer_at(old(self)@.timers, id, old(self)@.timers.len() as int) is Some),
    {
        proof {
            old(self)@.lemma_without_timer_wf(id);
        }
        let mut i: usize = 0;
        while i < self.timers.len()
            invariant
                i <= self.timers.len(),
                *self == *old(self),
                old(self)@.without_timer(id).wf(),
                timer_at(self@.timers, id, i as int) is None,
            decreases self.timers.len() - i,
        {
            if self.timers[i].id == id {
                assert(timer_at(self@.timers, id, i + 1) == Some(i as int));
                proof {
                    lemma_timer_found(self@.timers, id, i + 1, self@.timers.len() as int);
                }
                self.timers.remove(i);
                assert(self@ == old(self)@.without_timer(id));
                return true;
            }
            i += 1;
        }
        false
    }

    /// Puts the end of a hostcall at the end of the queue.
    pub fn enqueue_hostcall_complete(&mut self, call_id: String, outcome: HostcallOutcome)
        ensures
            final(self)@ == (SchedulerV {
                queue: old(self)@.queue.push(
                    MacrotaskV::HostcallComplete { call_id: call_id@, outcome: outcome@ },
                ),
                ..old(self)@
            }),
    {
        self.queue.push_back(Macrotask::HostcallComplete { call_id, outcome });
        assert(self@.queue =~= old(self)@.queue.push(
            MacrotaskV::HostcallComplete { call_id: call_id@, outcome: outcome@ },
        ));
    }

    /// Whether anything waits: a macrotask or a timer.
    pub fn has_pending(&self) -> (r: bool)
        ensures
            r == (self@.queue.len() > 0 || self@.timers.len() > 0),
    {
        self.queue.len() > 0 || self.timers.len() > 0
    }

    /// One turn of the loop: the timers that are due fire, and the oldest
    /// macrotask leaves the queue for the engine to run. `None` where
    /// nothing is ready.
    pub fn tick(&mut self) -> (r: Option<Macrotask>)
        requires
            old(self)@.wf(),
        ensures
            final(self)@.wf(),
            final(self)@ == old(self)@.ticked().0,
            match r {
                Some(task) => old(self)@.ticked().1 == Some(task@),
                None => old(self)@.ticked().1.is_none(),
            },
    {
        proof {
            old(self)@.lemma_released();
        }
        let due = self.due(self.now_ms);
        let ghost want = old(self)@.released();
        let mut moved: usize = 0;
        while moved < due
            invariant
                moved <= due <= old(self).timers@.len(),
                self.now_ms == old(self).now_ms,
                self.next_timer == old(self).next_timer,
                self.timers@ == old(self).timers@.skip(moved as int),
                tasks_view(self.queue@) == old(self)@.queue + fired(
                    old(self).timers@.take(moved as int),
                ),
            decreases due - moved,
        {
            let ghost before = tasks_view(self.queue@);
            let timer = self.timers.remove(0);
            self.queue.push_back(Macrotask::TimerFired { timer_id: timer.id });
            moved += 1;
            proof {
                assert(timer == old(self).timers@[moved - 1]);
                assert(self.timers@ =~= old(self).timers@.skip(moved as int));
                assert(tasks_view(self.queue@) =~= before.push(
                    MacrotaskV::TimerFired { timer_id: timer.id },
                ));
                assert(fired(old(self).timers@.take(moved as int)) =~= fired(
                    old(self).timers@.take(moved - 1),
                ).push(MacrotaskV::TimerFired { timer_id: timer.id }));
                assert(tasks_view(self.queue@) =~= old(self)@.queue + fired(
                    old(self).timers@.take(moved as int),
                ));
            }
        }
        assert(self@ == want);
        let ghost waiting = tasks_view(self.queue@);
        let task = self.queue.pop_front();
        proof {
            if waiting.len() > 0 {
                assert(tasks_view(self.queue@) =~= waiting.drop_first());
            } else {
                assert(tasks_view(self.queue@) =~= waiting);
            }
        }
        task
    }
}

/// Once a timer is found, a longer search finds the same one.
pub proof fn lemma_timer_found(timers: Seq<Timer>, id: u64, found: int, limit: int)
    requires
        timer_at(timers, id, found) is Some,
        found <= limit <= timers.len(),
    ensures
        timer_at(timers, id, limit) == timer_at(timers, id, found),
    decreases limit - found,
{
    if found < limit {
        lemma_timer_found(timers, id, found, limit - 1);
    }
}

} // verus!
