use std::collections::VecDeque;
use vstd::prelude::*;
use crate::behavior::event_adapter::BehaviorEvent;
use crate::clock::{age, age_of, Clock};
use crate::stamped::{drop_stale, lemma_push_keeps_time_window, ordered_up_to, Stamped};

verus! {

impl Stamped for BehaviorEvent {
    open spec fn stamp(&self) -> u64 {
        self.timestamp
    }

    fn time(&self) -> (t: u64) {
        self.timestamp
    }
}

/// `s` without its longest prefix of events older than `size` at `now`.
pub open spec fn pruned(s: Seq<BehaviorEvent>, now: u64, size: u64) -> Seq<BehaviorEvent> {
    drop_stale(s, now, size)
}

/// The events of a time window: appended at the back, dropped from the front
/// once older than the window size.
pub struct SlidingWindow {
    buffer: VecDeque<BehaviorEvent>,
    window_size: u64,
}

impl SlidingWindow {
    /// The events in the window, oldest first.
    pub closed spec fn events(&self) -> Seq<BehaviorEvent> {
        self.buffer@
    }

    /// The window size in nanoseconds.
    pub closed spec fn size(&self) -> u64 {
        self.window_size
    }

    /// An empty window of `window_size` nanoseconds.
    pub fn new(window_size: u64) -> (w: SlidingWindow)
        ensures
            w.events().len() == 0,
            w.size() == window_size,
    {
        SlidingWindow { buffer: VecDeque::new(), window_size }
    }

    /// Appends `event` and drops the events that are now too old, the time
    /// being a new reading of `clock`. When the events so far are in time
    /// order and none is later than `event`, which is no later than the
    /// clock's latest reading (as for events stamped by the same clock),
    /// the window afterwards holds events in time order, none later than
    /// `event`, and all at most the window size old.
    pub fn push(&mut self, clock: &mut Clock, event: BehaviorEvent)
        ensures
            final(clock).latest() >= old(clock).latest(),
            final(self).size() == old(self).size(),
            final(self).events() == pruned(old(self).events().push(event), final(clock).latest(), old(self).size()),
            ordered_up_to(old(self).events(), event.timestamp) && event.timestamp <= old(clock).latest() ==> {
                &&& ordered_up_to(final(self).events(), event.timestamp)
                &&& forall|i: int| 0 <= i < final(self).events().len()
                    ==> age(final(clock).latest(), (#[trigger] final(self).events()[i]).timestamp) <= final(self).size()
            },
    {
        let now = clock.now();
        proof {
            let s = self.buffer@;
            if ordered_up_to(s, event.timestamp) && event.timestamp <= now {
                lemma_push_keeps_time_window(s, event, now, self.window_size);
            }
        }
        self.push_at(now, event);
    }

    /// Appends `event` and drops, from the front, the events older than the
    /// window size at `now`.
    pub fn push_at(&mut self, now: u64, event: BehaviorEvent)
        ensures
            final(self).size() == old(self).size(),
            final(self).events() == pruned(old(self).events().push(event), now, old(self).size()),
    {
        self.buffer.push_back(event);
        self.prune(now);
    }

    fn prune(&mut self, now: u64)
        ensures
            final(self).size() == old(self).size(),
            final(self).events() == pruned(old(self).events(), now, old(self).size()),
    {
        let ghost start = self.buffer@;
        while self.buffer.len() > 0 && age_of(now, self.buffer[0].timestamp) > self.window_size
            invariant
                self.window_size == old(self).window_size,
                drop_stale(self.buffer@, now, self.window_size) == drop_stale(start, now, self.window_size),
                start == old(self).buffer@,
            decreases self.buffer@.len(),
        {
            let _ = self.buffer.pop_front();
        }
    }

    /// The number of events in the window.
    pub fn len(&self) -> (n: usize)
        ensures
            n == self.events().len(),
    {
        self.buffer.len()
    }

    /// The `i`-th event of the window, oldest first.
    pub fn get(&self, i: usize) -> (e: BehaviorEvent)
        requires
            i < self.events().len(),
        ensures
            e == self.events()[i as int],
    {
        self.buffer[i]
    }

    /// The window size in nanoseconds.
    pub fn window_size(&self) -> (s: u64)
        ensures
            s == self.size(),
    {
        self.window_size
    }
}

} // verus!
