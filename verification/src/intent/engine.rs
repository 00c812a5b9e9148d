use std::collections::VecDeque;
use vstd::prelude::*;
use crate::clock::{age, age_of, TokioClock, NANOS_PER_SEC};
use crate::intent::state::Intent;
use crate::patterns::event::PatternEvent;
use crate::stamped::{drop_stale, lemma_push_keeps_time_window, ordered_up_to};

verus! {

/// How long pattern events are remembered.
pub const PATTERN_MEMORY: u64 = 10 * NANOS_PER_SEC;
/// How long without activity before idleness is signalled.
pub const IDLE_AFTER: u64 = 3 * NANOS_PER_SEC;
/// How long an intent is held before another can replace it.
pub const DWELL: u64 = 3 * NANOS_PER_SEC;

/// Whether `pat` occurs in `s` as a contiguous run.
pub open spec fn occurs_in(pat: Seq<char>, s: Seq<char>) -> bool {
    exists|i: int| 0 <= i && i + pat.len() <= s.len() && #[trigger] s.subrange(i, i + pat.len()) == pat
}

/// `str::contains` with a string pattern: whether `needle` occurs in
/// `haystack` (the documented meaning: the pattern matches a sub-slice).
#[verifier::external_body]
fn str_contains(haystack: &str, needle: &str) -> (r: bool)
    ensures
        r == occurs_in(needle@, haystack@),
{
    haystack.contains(needle)
}

/// How much a pattern event speaks for an intent, in tenths of a point.
#[derive(Debug, Clone, Copy, PartialEq, Eq, Structural)]
pub struct PatternWeight {
    pub intent: Intent,
    pub tenths: u32,
}

/// The weight of a pattern event: a high backspace rate 1.3 for debugging,
/// a typing burst 1.0 for coding, window instability 0.8 for debugging, and
/// a repeated window title 1.5 for debugging when the title contains
/// "error", else 0.5 for coding.
pub open spec fn weight_of(p: PatternEvent) -> PatternWeight {
    match p {
        PatternEvent::HighBackspaceRate { .. } => PatternWeight { intent: Intent::Debugging, tenths: 13 },
        PatternEvent::TypingBurst { .. } => PatternWeight { intent: Intent::Coding, tenths: 10 },
        PatternEvent::WindowInstability { .. } => PatternWeight { intent: Intent::Debugging, tenths: 8 },
        PatternEvent::RepeatedWindowTitle { title, .. } => if occurs_in("error"@, title@) {
            PatternWeight { intent: Intent::Debugging, tenths: 15 }
        } else {
            PatternWeight { intent: Intent::Coding, tenths: 5 }
        },
    }
}

/// The weight of a pattern event.
pub fn pattern_weight(p: &PatternEvent) -> (w: PatternWeight)
    ensures
        w == weight_of(*p),
{
    match p {
        PatternEvent::HighBackspaceRate { .. } => PatternWeight { intent: Intent::Debugging, tenths: 13 },
        PatternEvent::TypingBurst { .. } => PatternWeight { intent: Intent::Coding, tenths: 10 },
        PatternEvent::WindowInstability { .. } => PatternWeight { intent: Intent::Debugging, tenths: 8 },
        PatternEvent::RepeatedWindowTitle { title, .. } => {
            if str_contains(title.as_str(), "error") {
                PatternWeight { intent: Intent::Debugging, tenths: 15 }
            } else {
                PatternWeight { intent: Intent::Coding, tenths: 5 }
            }
        },
    }
}

/// The state of the intent tracker, as plain values.
pub struct IntentModel {
    pub current: Intent,
    pub last_switch: u64,
    pub patterns: Seq<(u64, PatternEvent)>,
    pub last_activity: u64,
}

/// What a pattern event seen at `now` does: it is remembered, counts as
/// activity, and the events older than 10 s are dropped from the front.
pub open spec fn ingest_step(m: IntentModel, now: u64, p: PatternEvent) -> IntentModel {
    IntentModel {
        patterns: drop_stale(m.patterns.push((now, p)), now, PATTERN_MEMORY),
        last_activity: now,
        ..m
    }
}

/// Whether the user counts as inactive at `now`.
pub open spec fn inactive(m: IntentModel, now: u64) -> bool {
    age(now, m.last_activity) > IDLE_AFTER
}

/// What proposing `best` at `now` does: the intent changes, and the switch
/// time is `now`, exactly when `best` differs from the current intent, the
/// current one has been held longer than 3 s, and `best` scored above the
/// activation threshold (`strong`).
pub open spec fn switch_step(m: IntentModel, now: u64, best: Intent, strong: bool) -> (IntentModel, bool) {
    if best != m.current && age(now, m.last_switch) > DWELL && strong {
        (IntentModel { current: best, last_switch: now, ..m }, true)
    } else {
        (m, false)
    }
}

/// The time-and-event part of intent detection: the current intent, when it
/// was chosen, the recent pattern events and the last activity.
pub struct IntentTracker {
    current_intent: Intent,
    last_switch: u64,
    recent_pattern_events: VecDeque<(u64, PatternEvent)>,
    last_activity_time: u64,
    clock: TokioClock,
}

impl View for IntentTracker {
    type V = IntentModel;

    closed spec fn view(&self) -> IntentModel {
        IntentModel {
            current: self.current_intent,
            last_switch: self.last_switch,
            patterns: self.recent_pattern_events@,
            last_activity: self.last_activity_time,
        }
    }
}

impl IntentTracker {
    /// The tracker clock's latest reading.
    pub closed spec fn reading(&self) -> u64 {
        self.clock.latest()
    }

    /// A tracker starting `Idle`, with the switch and the last activity at
    /// the first reading of its clock, and no pattern events.
    pub fn new() -> (t: IntentTracker)
        ensures
            t@.current == Intent::Idle,
            t@.patterns.len() == 0,
            t@.last_switch == t.reading(),
            t@.last_activity == t.reading(),
    {
        let mut clock = TokioClock::new();
        let now = clock.now();
        IntentTracker {
            current_intent: Intent::Idle,
            last_switch: now,
            recent_pattern_events: VecDeque::new(),
            last_activity_time: now,
            clock,
        }
    }

    /// A new reading of the tracker's clock, in nanoseconds; never less than
    /// the previous one.
    pub fn now(&mut self) -> (t: u64)
        ensures
            t >= old(self).reading(),
            final(self).reading() == t,
            final(self)@ == old(self)@,
    {
        self.clock.now()
    }

    /// The current intent.
    pub fn current_intent(&self) -> (i: Intent)
        ensures
            i == self@.current,
    {
        self.current_intent
    }

    /// Remembers a pattern event, stamped with a new reading of the
    /// tracker's clock. When the remembered events are in time order and
    /// none is later than the clock's latest reading (as `new` leaves them
    /// and this function keeps them), they stay so, and all are at most 10 s
    /// old.
    pub fn ingest_pattern(&mut self, p: PatternEvent)
        ensures
            final(self).reading() >= old(self).reading(),
            final(self)@ == ingest_step(old(self)@, final(self).reading(), p),
            ordered_up_to(old(self)@.patterns, old(self).reading()) ==> {
                &&& ordered_up_to(final(self)@.patterns, final(self).reading())
                &&& forall|i: int| 0 <= i < final(self)@.patterns.len()
                    ==> age(final(self).reading(), (#[trigger] final(self)@.patterns[i]).0) <= PATTERN_MEMORY
            },
    {
        let now = self.clock.now();
        proof {
            let s = self@.patterns;
            if ordered_up_to(s, now) {
                lemma_push_keeps_time_window(s, (now, p), now, PATTERN_MEMORY);
            }
        }
        self.ingest_pattern_at(now, p);
    }

    /// Remembers a pattern event seen at `now`.
    pub fn ingest_pattern_at(&mut self, now: u64, p: PatternEvent)
        ensures
            final(self)@ == ingest_step(old(self)@, now, p),
            final(self).reading() == old(self).reading(),
    {
        self.recent_pattern_events.push_back((now, p));
        self.last_activity_time = now;
        let ghost start = self.recent_pattern_events@;
        while self.recent_pattern_events.len() > 0
            && age_of(now, self.recent_pattern_events[0].0) > PATTERN_MEMORY
            invariant
                drop_stale(self.recent_pattern_events@, now, PATTERN_MEMORY) == drop_stale(start, now, PATTERN_MEMORY),
                start == old(self).recent_pattern_events@.push((now, p)),
                self.current_intent == old(self).current_intent,
                self.last_switch == old(self).last_switch,
                self.last_activity_time == now,
                self.clock == old(self).clock,
            decreases self.recent_pattern_events@.len(),
        {
            let _ = self.recent_pattern_events.pop_front();
        }
    }

    /// The weights of the remembered pattern events, oldest first.
    pub fn pattern_weights(&self) -> (ws: Vec<PatternWeight>)
        ensures
            ws@.len() == self@.patterns.len(),
            forall|i: int| 0 <= i < ws@.len() ==> ws@[i] == weight_of(#[trigger] self@.patterns[i].1),
    {
        let mut ws: Vec<PatternWeight> = Vec::new();
        let n = self.recent_pattern_events.len();
        let mut i: usize = 0;
        while i < n
            invariant
                n == self@.patterns.len(),
                i <= n,
                ws@.len() == i,
                forall|j: int| 0 <= j < i ==> ws@[j] == weight_of(#[trigger] self@.patterns[j].1),
            decreases n - i,
        {
            ws.push(pattern_weight(&self.recent_pattern_events[i].1));
            i = i + 1;
        }
        ws
    }

    /// Whether no activity was seen in the 3 s before `now`.
    pub fn inactive_at(&self, now: u64) -> (r: bool)
        ensures
            r == inactive(self@, now),
    {
        age_of(now, self.last_activity_time) > IDLE_AFTER
    }

    /// Proposes `best` as the intent at `now`; `strong` tells whether its
    /// score is above the activation threshold. Returns whether the intent
    /// switched.
    pub fn switch_at(&mut self, now: u64, best: Intent, strong: bool) -> (switched: bool)
        ensures
            (final(self)@, switched) == switch_step(old(self)@, now, best, strong),
            final(self).reading() == old(self).reading(),
    {
        if best != self.current_intent && age_of(now, self.last_switch) > DWELL && strong {
            self.current_intent = best;
            self.last_switch = now;
            true
        } else {
            false
        }
    }
}

/// Switches are spaced out: after a switch at `t1`, a switch at `t2` with a
/// clock that did not go back happens more than 3 s later; and a proposal
/// that does not switch changes nothing.
pub proof fn lemma_switches_are_spaced(m: IntentModel, t1: u64, b1: Intent, s1: bool, t2: u64, b2: Intent, s2: bool)
    ensures
        ({
            let (m1, first) = switch_step(m, t1, b1, s1);
            let (m2, second) = switch_step(m1, t2, b2, s2);
            &&& first && second ==> t2 > t1 + DWELL
            &&& !second ==> m2 == m1
            &&& second ==> m2.current == b2 && m2.current != m1.current && m2.last_switch == t2
        }),
{
}

/// Ingesting a pattern event never changes the intent or the switch time,
/// and marks the user active at that time.
pub proof fn lemma_ingest_keeps_intent(m: IntentModel, now: u64, p: PatternEvent)
    ensures
        ingest_step(m, now, p).current == m.current,
        ingest_step(m, now, p).last_switch == m.last_switch,
        !inactive(ingest_step(m, now, p), now),
{
}

} // verus!
