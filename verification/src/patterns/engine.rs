use vstd::prelude::*;
use crate::clock::{age, age_of, TokioClock, NANOS_PER_SEC};
use crate::patterns::event::PatternEvent;
use crate::sensors::event::SensorEvent;
use crate::stamped::{keep_recent, lemma_filter_counts, recent, Stamped};

verus! {

broadcast use vstd::seq_lib::group_seq_lib_default;

/// How long window titles are remembered.
pub const TITLE_MEMORY: u64 = 10 * NANOS_PER_SEC;
/// The span over which window changes are counted for instability.
pub const INSTABILITY_SPAN: u64 = 30 * NANOS_PER_SEC;
/// How long key events are remembered (the backspace ratio span).
pub const KEY_MEMORY: u64 = 5 * NANOS_PER_SEC;
/// The span over which a typing burst is counted.
pub const BURST_SPAN: u64 = 2 * NANOS_PER_SEC;

/// Whether the event is a key event (a key press or a backspace).
pub open spec fn is_key(ev: SensorEvent) -> bool {
    ev is KeyPressed || ev is KeyBackspace
}

/// The number of remembered titles whose text is `title`.
pub open spec fn title_count(titles: Seq<(u64, String)>, title: Seq<char>) -> nat {
    titles.filter(|e: (u64, String)| e.1@ == title).len()
}

/// The number of key events among the remembered events.
pub open spec fn key_total(keys: Seq<(u64, SensorEvent)>) -> nat {
    keys.filter(|e: (u64, SensorEvent)| is_key(e.1)).len()
}

/// The number of backspaces among the remembered events.
pub open spec fn backspace_total(keys: Seq<(u64, SensorEvent)>) -> nat {
    keys.filter(|e: (u64, SensorEvent)| e.1 is KeyBackspace).len()
}

/// The number of key events stamped no more than 2 s before `now`.
pub open spec fn burst_total(keys: Seq<(u64, SensorEvent)>, now: u64) -> nat {
    keys.filter(|e: (u64, SensorEvent)| age(now, e.0) <= BURST_SPAN && is_key(e.1)).len()
}

/// `backspaces / total > 0.3`, decided exactly on the integers.
pub open spec fn ratio_is_high(backspaces: nat, total: nat) -> bool {
    10 * backspaces > 3 * total
}

/// The state of the pattern rules, as plain values.
pub struct PatternModel {
    pub titles: Seq<(u64, String)>,
    pub keys: Seq<(u64, SensorEvent)>,
    pub last_window_change: Option<u64>,
    pub change_times: Seq<u64>,
    pub high_backspace_active: bool,
    pub typing_burst_active: bool,
    pub window_instability_active: bool,
}

/// What a window change at `now` to `title` does to the state, and the
/// patterns it reports.
pub open spec fn window_step(m: PatternModel, now: u64, title: String) -> (PatternModel, Seq<PatternEvent>) {
    let titles = recent(m.titles.push((now, title)), now, TITLE_MEMORY);
    let count = title_count(titles, title@);
    let repeated: Seq<PatternEvent> = if count >= 3 {
        seq![PatternEvent::RepeatedWindowTitle { title: title, count: count as u32 }]
    } else {
        seq![]
    };
    let changes = recent(m.change_times.push(now), now, INSTABILITY_SPAN);
    let unstable = changes.len() > 5;
    let instability: Seq<PatternEvent> = if unstable && !m.window_instability_active {
        seq![PatternEvent::WindowInstability { changes: changes.len() as usize }]
    } else {
        seq![]
    };
    (
        PatternModel {
            titles: titles,
            change_times: changes,
            window_instability_active: unstable,
            last_window_change: Some(now),
            ..m
        },
        repeated + instability,
    )
}

/// What a key event at `now` does to the state, and the patterns it reports.
pub open spec fn key_step(m: PatternModel, now: u64, ev: SensorEvent) -> (PatternModel, Seq<PatternEvent>) {
    let keys = recent(m.keys.push((now, ev)), now, KEY_MEMORY);
    let total = key_total(keys);
    let backspaces = backspace_total(keys);
    let high = ratio_is_high(backspaces, total);
    let backspace_out: Seq<PatternEvent> = if total > 0 && high && !m.high_backspace_active {
        seq![PatternEvent::HighBackspaceRate { backspaces: backspaces as usize, total: total as usize }]
    } else {
        seq![]
    };
    let backspace_active = if total > 0 { high } else { m.high_backspace_active };
    let burst = burst_total(keys, now);
    let bursting = burst > 20;
    let burst_out: Seq<PatternEvent> = if bursting && !m.typing_burst_active {
        seq![PatternEvent::TypingBurst { keys: burst as usize }]
    } else {
        seq![]
    };
    (
        PatternModel {
            keys: keys,
            high_backspace_active: backspace_active,
            typing_burst_active: bursting,
            ..m
        },
        backspace_out + burst_out,
    )
}

/// What a sensor event at `now` does to the state, and the patterns it reports.
pub open spec fn pattern_step(m: PatternModel, now: u64, ev: SensorEvent) -> (PatternModel, Seq<PatternEvent>) {
    match ev {
        SensorEvent::WindowChanged { title, .. } => window_step(m, now, title),
        SensorEvent::KeyPressed { .. } => key_step(m, now, ev),
        SensorEvent::KeyBackspace => key_step(m, now, ev),
        _ => (m, seq![]),
    }
}

/// Recognises patterns in the stream of sensor events.
pub struct PatternEngine {
    pub recent_window_titles: Vec<(u64, String)>,
    pub recent_key_events: Vec<(u64, SensorEvent)>,
    pub last_window_change: Option<u64>,
    pub window_change_times: Vec<u64>,
    pub high_backspace_active: bool,
    pub typing_burst_active: bool,
    pub window_instability_active: bool,
    /// The clock that stamps events in `process`.
    pub clock: TokioClock,
}

impl View for PatternEngine {
    type V = PatternModel;

    open spec fn view(&self) -> PatternModel {
        PatternModel {
            titles: self.recent_window_titles@,
            keys: self.recent_key_events@,
            last_window_change: self.last_window_change,
            change_times: self.window_change_times@,
            high_backspace_active: self.high_backspace_active,
            typing_burst_active: self.typing_burst_active,
            window_instability_active: self.window_instability_active,
        }
    }
}

/// A copy of a key event.
pub fn clone_key(event: &SensorEvent) -> (r: SensorEvent)
    requires
        is_key(*event),
    ensures
        r == *event,
{
    match event {
        SensorEvent::KeyPressed { key } => SensorEvent::KeyPressed { key: key.clone() },
        _ => SensorEvent::KeyBackspace,
    }
}

impl PatternEngine {
    /// An engine that remembers nothing and has no active pattern.
    pub fn new() -> (e: PatternEngine)
        ensures
            e@.titles.len() == 0,
            e@.keys.len() == 0,
            e@.last_window_change is None,
            e@.change_times.len() == 0,
            !e@.high_backspace_active,
            !e@.typing_burst_active,
            !e@.window_instability_active,
            e.clock.latest() == 0,
    {
        PatternEngine {
            recent_window_titles: Vec::new(),
            recent_key_events: Vec::new(),
            last_window_change: None,
            window_change_times: Vec::new(),
            high_backspace_active: false,
            typing_burst_active: false,
            window_instability_active: false,
            clock: TokioClock::new(),
        }
    }

    /// Feeds one event, stamped with a new reading of the engine's clock, to
    /// the rules.
    pub fn process(&mut self, event: &SensorEvent) -> (out: Vec<PatternEvent>)
        ensures
            final(self).clock.latest() >= old(self).clock.latest(),
            (final(self)@, out@) == pattern_step(old(self)@, final(self).clock.latest(), *event),
    {
        let now = self.clock.now();
        self.process_at(now, event)
    }

    /// Feeds one event that happened at `now` to the rules.
    pub fn process_at(&mut self, now: u64, event: &SensorEvent) -> (out: Vec<PatternEvent>)
        ensures
            (final(self)@, out@) == pattern_step(old(self)@, now, *event),
            final(self).clock == old(self).clock,
    {
        let mut out: Vec<PatternEvent> = Vec::new();
        match event {
            SensorEvent::WindowChanged { title, .. } => {
                self.handle_window(now, title, &mut out);
            },
            SensorEvent::KeyPressed { .. } => {
                self.handle_key(now, event, &mut out);
            },
            SensorEvent::KeyBackspace => {
                self.handle_key(now, event, &mut out);
            },
            _ => {},
        }
        assert(out@ =~= seq![] + out@);
        out
    }

    fn handle_window(&mut self, now: u64, title: &String, out: &mut Vec<PatternEvent>)
        ensures
            final(self)@ == window_step(old(self)@, now, *title).0,
            final(out)@ == old(out)@ + window_step(old(self)@, now, *title).1,
            final(self).clock == old(self).clock,
    {
        let ghost m = self@;
        let mut titles = Vec::new();
        std::mem::swap(&mut titles, &mut self.recent_window_titles);
        titles.push((now, title.clone()));
        self.recent_window_titles = keep_recent(titles, now, TITLE_MEMORY);

        let count = count_title(&self.recent_window_titles, title);
        let ghost before = out@;
        if count >= 3 {
            out.push(PatternEvent::RepeatedWindowTitle { title: title.clone(), count: count as u32 });
        }
        let ghost after_repeat = out@;

        let mut times = Vec::new();
        std::mem::swap(&mut times, &mut self.window_change_times);
        times.push(now);
        self.window_change_times = keep_recent(times, now, INSTABILITY_SPAN);

        let changes = self.window_change_times.len();
        if changes > 5 {
            if !self.window_instability_active {
                out.push(PatternEvent::WindowInstability { changes });
                self.window_instability_active = true;
            }
        } else {
            self.window_instability_active = false;
        }
        self.last_window_change = Some(now);
        proof {
            let (m2, evs) = window_step(m, now, *title);
            assert(self@ =~= m2);
            assert(out@ =~= before + evs);
        }
    }

    fn handle_key(&mut self, now: u64, event: &SensorEvent, out: &mut Vec<PatternEvent>)
        requires
            is_key(*event),
        ensures
            final(self)@ == key_step(old(self)@, now, *event).0,
            final(out)@ == old(out)@ + key_step(old(self)@, now, *event).1,
            final(self).clock == old(self).clock,
    {
        let ghost m = self@;
        let ghost before = out@;
        let mut keys = Vec::new();
        std::mem::swap(&mut keys, &mut self.recent_key_events);
        keys.push((now, clone_key(event)));
        self.recent_key_events = keep_recent(keys, now, KEY_MEMORY);

        let (total, backspaces) = count_keys(&self.recent_key_events);
        if total > 0 {
            if (backspaces as u128) * 10 > (total as u128) * 3 {
                if !self.high_backspace_active {
                    out.push(PatternEvent::HighBackspaceRate { backspaces, total });
                    self.high_backspace_active = true;
                }
            } else {
                self.high_backspace_active = false;
            }
        }

        let burst = count_burst(&self.recent_key_events, now);
        if burst > 20 {
            if !self.typing_burst_active {
                out.push(PatternEvent::TypingBurst { keys: burst });
                self.typing_burst_active = true;
            }
        } else {
            self.typing_burst_active = false;
        }
        proof {
            let (m2, evs) = key_step(m, now, *event);
            assert(self@ =~= m2);
            assert(out@ =~= before + evs);
        }
    }
}

/// The number of entries of `titles` whose text is `title`.
fn count_title(titles: &Vec<(u64, String)>, title: &String) -> (n: usize)
    ensures
        n == title_count(titles@, title@),
{
    let ghost pred = |e: (u64, String)| e.1@ == title@;
    let mut n: usize = 0;
    let mut i: usize = 0;
    while i < titles.len()
        invariant
            i <= titles@.len(),
            pred == (|e: (u64, String)| e.1@ == title@),
            n == titles@.take(i as int).filter(pred).len(),
            n <= i,
        decreases titles@.len() - i,
    {
        proof {
            titles@.take(i as int).lemma_filter_push(titles@[i as int], pred);
            assert(titles@.take(i as int).push(titles@[i as int]) =~= titles@.take(i + 1));
        }
        if titles[i].1 == *title {
            n = n + 1;
        }
        i = i + 1;
    }
    assert(titles@.take(titles@.len() as int) =~= titles@);
    n
}

/// The numbers of key events and of backspaces in `keys`.
fn count_keys(keys: &Vec<(u64, SensorEvent)>) -> (r: (usize, usize))
    ensures
        r.0 == key_total(keys@),
        r.1 == backspace_total(keys@),
{
    let ghost is_k = |e: (u64, SensorEvent)| is_key(e.1);
    let ghost is_b = |e: (u64, SensorEvent)| e.1 is KeyBackspace;
    let mut total: usize = 0;
    let mut backspaces: usize = 0;
    let mut i: usize = 0;
    while i < keys.len()
        invariant
            i <= keys@.len(),
            is_k == (|e: (u64, SensorEvent)| is_key(e.1)),
            is_b == (|e: (u64, SensorEvent)| e.1 is KeyBackspace),
            total == keys@.take(i as int).filter(is_k).len(),
            backspaces == keys@.take(i as int).filter(is_b).len(),
            total <= i,
            backspaces <= i,
        decreases keys@.len() - i,
    {
        proof {
            let e = keys@[i as int];
            keys@.take(i as int).lemma_filter_push(e, is_k);
            keys@.take(i as int).lemma_filter_push(e, is_b);
            assert(keys@.take(i as int).push(e) =~= keys@.take(i + 1));
        }
        match &keys[i].1 {
            SensorEvent::KeyPressed { .. } => {
                total = total + 1;
            },
            SensorEvent::KeyBackspace => {
                total = total + 1;
                backspaces = backspaces + 1;
            },
            _ => {},
        }
        i = i + 1;
    }
    assert(keys@.take(keys@.len() as int) =~= keys@);
    (total, backspaces)
}

/// The number of key events in `keys` stamped no more than 2 s before `now`.
fn count_burst(keys: &Vec<(u64, SensorEvent)>, now: u64) -> (n: usize)
    ensures
        n == burst_total(keys@, now),
{
    let ghost pred = |e: (u64, SensorEvent)| age(now, e.0) <= BURST_SPAN && is_key(e.1);
    let mut n: usize = 0;
    let mut i: usize = 0;
    while i < keys.len()
        invariant
            i <= keys@.len(),
            pred == (|e: (u64, SensorEvent)| age(now, e.0) <= BURST_SPAN && is_key(e.1)),
            n == keys@.take(i as int).filter(pred).len(),
            n <= i,
        decreases keys@.len() - i,
    {
        proof {
            keys@.take(i as int).lemma_filter_push(keys@[i as int], pred);
            assert(keys@.take(i as int).push(keys@[i as int]) =~= keys@.take(i + 1));
        }
        let is_key_event = match &keys[i].1 {
            SensorEvent::KeyPressed { .. } => true,
            SensorEvent::KeyBackspace => true,
            _ => false,
        };
        if age_of(now, keys[i].0) <= BURST_SPAN && is_key_event {
            n = n + 1;
        }
        i = i + 1;
    }
    assert(keys@.take(keys@.len() as int) =~= keys@);
    n
}

/// Filtering keeps any property that every element has.
pub proof fn lemma_filter_keeps_property<T>(s: Seq<T>, pred: spec_fn(T) -> bool, q: spec_fn(T) -> bool)
    requires
        forall|i: int| 0 <= i < s.len() ==> q(#[trigger] s[i]),
    ensures
        forall|i: int| 0 <= i < s.filter(pred).len() ==> q(#[trigger] s.filter(pred)[i]),
    decreases s.len(),
{
    reveal(Seq::filter);
    if s.len() > 0 {
        let rest = s.drop_last();
        assert forall|i: int| 0 <= i < rest.len() implies q(#[trigger] rest[i]) by {
            assert(rest[i] == s[i]);
        }
        lemma_filter_keeps_property(rest, pred, q);
        let last = s[s.len() - 1];
        assert(q(last));
        let f = s.filter(pred);
        let fr = rest.filter(pred);
        assert forall|i: int| 0 <= i < f.len() implies q(#[trigger] f[i]) by {
            if pred(last) {
                assert(f == fr.push(last));
                if i < fr.len() {
                    assert(f[i] == fr[i]);
                }
            } else {
                assert(f == fr);
            }
        }
    }
}

/// Whether `out` reports a high backspace rate.
pub open spec fn reports_high_backspace(out: Seq<PatternEvent>) -> bool {
    exists|i: int| 0 <= i < out.len() && (#[trigger] out[i]) is HighBackspaceRate
}

/// Whether `out` reports a typing burst.
pub open spec fn reports_typing_burst(out: Seq<PatternEvent>) -> bool {
    exists|i: int| 0 <= i < out.len() && (#[trigger] out[i]) is TypingBurst
}

/// Whether `out` reports window instability.
pub open spec fn reports_instability(out: Seq<PatternEvent>) -> bool {
    exists|i: int| 0 <= i < out.len() && (#[trigger] out[i]) is WindowInstability
}

/// Rules fire on the rising edge only: a pattern is reported by a step
/// only when its rule was inactive before the step, and the rule is active
/// after it; while the rule stays active it is not reported again.
pub proof fn lemma_patterns_fire_on_rising_edge(m: PatternModel, now: u64, ev: SensorEvent)
    ensures
        ({
            let (m2, out) = pattern_step(m, now, ev);
            &&& reports_high_backspace(out) ==> !m.high_backspace_active && m2.high_backspace_active
            &&& reports_typing_burst(out) ==> !m.typing_burst_active && m2.typing_burst_active
            &&& reports_instability(out) ==> !m.window_instability_active && m2.window_instability_active
        }),
{
    let (m2, out) = pattern_step(m, now, ev);
    if reports_high_backspace(out) {
        let i = choose|i: int| 0 <= i < out.len() && (#[trigger] out[i]) is HighBackspaceRate;
        assert(out[i] is HighBackspaceRate);
    }
    if reports_typing_burst(out) {
        let i = choose|i: int| 0 <= i < out.len() && (#[trigger] out[i]) is TypingBurst;
        assert(out[i] is TypingBurst);
    }
    if reports_instability(out) {
        let i = choose|i: int| 0 <= i < out.len() && (#[trigger] out[i]) is WindowInstability;
        assert(out[i] is WindowInstability);
    }
}

/// Every reported pattern crosses its rule's threshold: a repeated title
/// is seen at least 3 times, a high backspace rate has
/// `backspaces / total > 0.3`, a typing burst has more than 20 key events in
/// 2 s, and window instability more than 5 changes in 30 s.
pub proof fn lemma_reports_exceed_thresholds(m: PatternModel, now: u64, ev: SensorEvent)
    requires
        m.titles.len() + 1 < u32::MAX,
        m.change_times.len() + 1 < usize::MAX,
        m.keys.len() + 1 < usize::MAX,
    ensures
        ({
            let out = pattern_step(m, now, ev).1;
            forall|i: int| 0 <= i < out.len() ==> match #[trigger] out[i] {
                PatternEvent::RepeatedWindowTitle { count, .. } => count >= 3,
                PatternEvent::HighBackspaceRate { backspaces, total } =>
                    total > 0 && ratio_is_high(backspaces as nat, total as nat),
                PatternEvent::TypingBurst { keys } => keys > 20,
                PatternEvent::WindowInstability { changes } => changes > 5,
            }
        }),
{
    match ev {
        SensorEvent::WindowChanged { title, .. } => {
            let pushed = m.titles.push((now, title));
            let titles = recent(pushed, now, TITLE_MEMORY);
            let count = title_count(titles, title@);
            let (m2, out) = window_step(m, now, title);
            assert(count <= titles.len());
            assert(titles.len() <= pushed.len());
            assert(count < u32::MAX);
            if count >= 3 {
                assert((count as u32) >= 3);
            }
            let changes = recent(m.change_times.push(now), now, INSTABILITY_SPAN);
            let repeated: Seq<PatternEvent> = if count >= 3 {
                seq![PatternEvent::RepeatedWindowTitle { title: title, count: count as u32 }]
            } else {
                seq![]
            };
            let instability: Seq<PatternEvent> = if changes.len() > 5 && !m.window_instability_active {
                seq![PatternEvent::WindowInstability { changes: changes.len() as usize }]
            } else {
                seq![]
            };
            assert(out == repeated + instability);
            assert(changes.len() <= m.change_times.len() + 1);
            assert forall|i: int| 0 <= i < out.len() implies match #[trigger] out[i] {
                PatternEvent::RepeatedWindowTitle { count, .. } => count >= 3,
                PatternEvent::HighBackspaceRate { backspaces, total } =>
                    total > 0 && ratio_is_high(backspaces as nat, total as nat),
                PatternEvent::TypingBurst { keys } => keys > 20,
                PatternEvent::WindowInstability { changes } => changes > 5,
            } by {
                if i < repeated.len() {
                    assert(out[i] == repeated[i]);
                } else {
                    assert(out[i] == instability[i - repeated.len()]);
                }
            }
        },
        SensorEvent::KeyPressed { .. } => {
            let keys = recent(m.keys.push((now, ev)), now, KEY_MEMORY);
            assert(key_total(keys) <= keys.len());
            assert(backspace_total(keys) <= keys.len());
            assert(burst_total(keys, now) <= keys.len());
        },
        SensorEvent::KeyBackspace => {
            let keys = recent(m.keys.push((now, ev)), now, KEY_MEMORY);
            assert(key_total(keys) <= keys.len());
            assert(backspace_total(keys) <= keys.len());
            assert(burst_total(keys, now) <= keys.len());
        },
        _ => {},
    }
}

/// After a window change at `now`, every remembered title is from the last
/// 10 s and every counted change from the last 30 s; after a key event at
/// `now`, every remembered key event is from the last 5 s.
pub proof fn lemma_memory_holds_only_recent_entries(m: PatternModel, now: u64, ev: SensorEvent)
    ensures
        ({
            let m2 = pattern_step(m, now, ev).0;
            &&& ev is WindowChanged ==> {
                &&& forall|i: int| 0 <= i < m2.titles.len() ==> age(now, (#[trigger] m2.titles[i]).0) <= TITLE_MEMORY
                &&& forall|i: int| 0 <= i < m2.change_times.len() ==> age(now, #[trigger] m2.change_times[i]) <= INSTABILITY_SPAN
                &&& m2.last_window_change == Some(now)
            }
            &&& is_key(ev) ==> forall|i: int| 0 <= i < m2.keys.len() ==> age(now, (#[trigger] m2.keys[i]).0) <= KEY_MEMORY
        }),
{
    let m2 = pattern_step(m, now, ev).0;
    match ev {
        SensorEvent::WindowChanged { title, .. } => {
            let pt = |e: (u64, String)| age(now, e.stamp()) <= TITLE_MEMORY;
            let pc = |t: u64| age(now, t.stamp()) <= INSTABILITY_SPAN;
            assert forall|i: int| 0 <= i < m2.titles.len() implies age(now, (#[trigger] m2.titles[i]).0) <= TITLE_MEMORY by {
                m.titles.push((now, title)).lemma_filter_pred(pt, i);
            }
            assert forall|i: int| 0 <= i < m2.change_times.len() implies age(now, #[trigger] m2.change_times[i]) <= INSTABILITY_SPAN by {
                m.change_times.push(now).lemma_filter_pred(pc, i);
            }
        },
        SensorEvent::KeyPressed { .. } => {
            let pk = |e: (u64, SensorEvent)| age(now, e.stamp()) <= KEY_MEMORY;
            assert forall|i: int| 0 <= i < m2.keys.len() implies age(now, (#[trigger] m2.keys[i]).0) <= KEY_MEMORY by {
                m.keys.push((now, ev)).lemma_filter_pred(pk, i);
            }
        },
        SensorEvent::KeyBackspace => {
            let pk = |e: (u64, SensorEvent)| age(now, e.stamp()) <= KEY_MEMORY;
            assert forall|i: int| 0 <= i < m2.keys.len() implies age(now, (#[trigger] m2.keys[i]).0) <= KEY_MEMORY by {
                m.keys.push((now, ev)).lemma_filter_pred(pk, i);
            }
        },
        _ => {},
    }
}

/// The key memory holds key events only: if it does before a step, it does
/// after it.
pub proof fn lemma_key_memory_holds_only_keys(m: PatternModel, now: u64, ev: SensorEvent)
    requires
        forall|i: int| 0 <= i < m.keys.len() ==> is_key((#[trigger] m.keys[i]).1),
    ensures
        ({
            let m2 = pattern_step(m, now, ev).0;
            forall|i: int| 0 <= i < m2.keys.len() ==> is_key((#[trigger] m2.keys[i]).1)
        }),
{
    let m2 = pattern_step(m, now, ev).0;
    if is_key(ev) {
        let pk = |e: (u64, SensorEvent)| age(now, e.stamp()) <= KEY_MEMORY;
        let pushed = m.keys.push((now, ev));
        let q = |e: (u64, SensorEvent)| is_key(e.1);
        assert forall|i: int| 0 <= i < pushed.len() implies q(#[trigger] pushed[i]) by {
            if i < m.keys.len() {
                assert(pushed[i] == m.keys[i]);
            }
        }
        lemma_filter_keeps_property(pushed, pk, q);
        assert forall|i: int| 0 <= i < m2.keys.len() implies is_key((#[trigger] m2.keys[i]).1) by {
            assert(q(m2.keys[i]));
        }
    }
}

/// Whether `out` reports a repeated window title.
pub open spec fn reports_repeated_title(out: Seq<PatternEvent>) -> bool {
    exists|i: int| 0 <= i < out.len() && (#[trigger] out[i]) is RepeatedWindowTitle
}

/// Whether the backspace ratio is above 0.3 when key event `ev` arrives at
/// `now` in state `m`.
pub open spec fn backspace_high_at(m: PatternModel, now: u64, ev: SensorEvent) -> bool {
    let keys = recent(m.keys.push((now, ev)), now, KEY_MEMORY);
    ratio_is_high(backspace_total(keys), key_total(keys))
}

/// Whether more than 20 key events fall in the last 2 s when key event `ev`
/// arrives at `now` in state `m`.
pub open spec fn bursting_at(m: PatternModel, now: u64, ev: SensorEvent) -> bool {
    burst_total(recent(m.keys.push((now, ev)), now, KEY_MEMORY), now) > 20
}

/// Whether more than 5 window changes fall in the last 30 s when a window
/// change arrives at `now` in state `m`.
pub open spec fn unstable_at(m: PatternModel, now: u64) -> bool {
    recent(m.change_times.push(now), now, INSTABILITY_SPAN).len() > 5
}

/// Whether the title of a window change to `title` at `now` in state `m` is
/// seen at least 3 times in the last 10 s.
pub open spec fn repeated_at(m: PatternModel, now: u64, title: String) -> bool {
    title_count(recent(m.titles.push((now, title)), now, TITLE_MEMORY), title@) >= 3
}

/// Each step reports exactly the crossings: a key event reports a high
/// backspace rate exactly when the ratio is above 0.3 and the rule was not
/// active, and a typing burst exactly when more than 20 keys fall in 2 s and
/// that rule was not active, after which each rule is active exactly when
/// its condition holds; a window change reports a repeated title exactly
/// when the title is seen at least 3 times in 10 s (on every such change),
/// and instability exactly when more than 5 changes fall in 30 s and the rule
/// was not active. A step reports nothing of the other kind and leaves the
/// other kind's rules alone; other events change nothing.
#[verifier::rlimit(40)]
pub proof fn lemma_step_reports_exactly(m: PatternModel, now: u64, ev: SensorEvent)
    ensures
        ({
            let (m2, out) = pattern_step(m, now, ev);
            &&& is_key(ev) ==> {
                &&& m2.high_backspace_active == backspace_high_at(m, now, ev)
                &&& m2.typing_burst_active == bursting_at(m, now, ev)
                &&& m2.window_instability_active == m.window_instability_active
                &&& (reports_high_backspace(out) <==> backspace_high_at(m, now, ev) && !m.high_backspace_active)
                &&& (reports_typing_burst(out) <==> bursting_at(m, now, ev) && !m.typing_burst_active)
                &&& !reports_instability(out) && !reports_repeated_title(out)
            }
            &&& ev is WindowChanged ==> {
                &&& m2.window_instability_active == unstable_at(m, now)
                &&& m2.high_backspace_active == m.high_backspace_active
                &&& m2.typing_burst_active == m.typing_burst_active
                &&& (reports_instability(out) <==> unstable_at(m, now) && !m.window_instability_active)
                &&& (reports_repeated_title(out) <==> repeated_at(m, now, ev->title))
                &&& !reports_high_backspace(out) && !reports_typing_burst(out)
            }
            &&& !is_key(ev) && !(ev is WindowChanged) ==> m2 == m && out.len() == 0
        }),
{
    let (m2, out) = pattern_step(m, now, ev);
    if is_key(ev) {
        let pushed = m.keys.push((now, ev));
        let pr = |e: (u64, SensorEvent)| age(now, e.stamp()) <= KEY_MEMORY;
        let pk = |e: (u64, SensorEvent)| is_key(e.1);
        m.keys.lemma_filter_push((now, ev), pr);
        let keys = recent(pushed, now, KEY_MEMORY);
        assert(keys == recent(m.keys, now, KEY_MEMORY).push((now, ev)));
        recent(m.keys, now, KEY_MEMORY).lemma_filter_push((now, ev), pk);
        assert(key_total(keys) > 0);
        let total = key_total(keys);
        let backspaces = backspace_total(keys);
        let high = ratio_is_high(backspaces, total);
        let burst = burst_total(keys, now);
        let a: Seq<PatternEvent> = if total > 0 && high && !m.high_backspace_active {
            seq![PatternEvent::HighBackspaceRate { backspaces: backspaces as usize, total: total as usize }]
        } else {
            seq![]
        };
        let b: Seq<PatternEvent> = if burst > 20 && !m.typing_burst_active {
            seq![PatternEvent::TypingBurst { keys: burst as usize }]
        } else {
            seq![]
        };
        assert(out == a + b);
        if high && !m.high_backspace_active {
            assert(out[0] is HighBackspaceRate);
        }
        if reports_high_backspace(out) {
            let i = choose|i: int| 0 <= i < out.len() && (#[trigger] out[i]) is HighBackspaceRate;
            if i < a.len() { assert(out[i] == a[i]); } else { assert(out[i] == b[i - a.len()]); }
        }
        if burst > 20 && !m.typing_burst_active {
            assert(out[a.len() as int] == b[0]);
        }
        if reports_typing_burst(out) {
            let i = choose|i: int| 0 <= i < out.len() && (#[trigger] out[i]) is TypingBurst;
            if i < a.len() { assert(out[i] == a[i]); } else { assert(out[i] == b[i - a.len()]); }
        }
        if reports_instability(out) {
            let i = choose|i: int| 0 <= i < out.len() && (#[trigger] out[i]) is WindowInstability;
            if i < a.len() { assert(out[i] == a[i]); } else { assert(out[i] == b[i - a.len()]); }
        }
        if reports_repeated_title(out) {
            let i = choose|i: int| 0 <= i < out.len() && (#[trigger] out[i]) is RepeatedWindowTitle;
            if i < a.len() { assert(out[i] == a[i]); } else { assert(out[i] == b[i - a.len()]); }
        }
    } else if ev is WindowChanged {
        let title = ev->title;
        let titles = recent(m.titles.push((now, title)), now, TITLE_MEMORY);
        let count = title_count(titles, title@);
        let changes = recent(m.change_times.push(now), now, INSTABILITY_SPAN);
        let a: Seq<PatternEvent> = if count >= 3 {
            seq![PatternEvent::RepeatedWindowTitle { title: title, count: count as u32 }]
        } else {
            seq![]
        };
        let b: Seq<PatternEvent> = if changes.len() > 5 && !m.window_instability_active {
            seq![PatternEvent::WindowInstability { changes: changes.len() as usize }]
        } else {
            seq![]
        };
        assert(out == a + b);
        if count >= 3 {
            assert(out[0] is RepeatedWindowTitle);
        }
        if changes.len() > 5 && !m.window_instability_active {
            assert(out[a.len() as int] == b[0]);
        }
        if reports_high_backspace(out) {
            let i = choose|i: int| 0 <= i < out.len() && (#[trigger] out[i]) is HighBackspaceRate;
            if i < a.len() { assert(out[i] == a[i]); } else { assert(out[i] == b[i - a.len()]); }
        }
        if reports_typing_burst(out) {
            let i = choose|i: int| 0 <= i < out.len() && (#[trigger] out[i]) is TypingBurst;
            if i < a.len() { assert(out[i] == a[i]); } else { assert(out[i] == b[i - a.len()]); }
        }
        if reports_instability(out) {
            let i = choose|i: int| 0 <= i < out.len() && (#[trigger] out[i]) is WindowInstability;
            if i < a.len() { assert(out[i] == a[i]); } else { assert(out[i] == b[i - a.len()]); }
        }
        if reports_repeated_title(out) {
            let i = choose|i: int| 0 <= i < out.len() && (#[trigger] out[i]) is RepeatedWindowTitle;
            if i < a.len() { assert(out[i] == a[i]); } else { assert(out[i] == b[i - a.len()]); }
        }
    }
}

/// The state after feeding the first `j` events of `hist` (each a time and
/// an event) to the rules, starting from `m0`.
pub open spec fn state_after(m0: PatternModel, hist: Seq<(u64, SensorEvent)>, j: nat) -> PatternModel
    decreases j,
{
    if j == 0 {
        m0
    } else {
        let prev = state_after(m0, hist, (j - 1) as nat);
        pattern_step(prev, hist[j - 1].0, hist[j - 1].1).0
    }
}

/// What the `j`-th event of `hist` reports.
pub open spec fn reported_at(m0: PatternModel, hist: Seq<(u64, SensorEvent)>, j: nat) -> Seq<PatternEvent> {
    pattern_step(state_after(m0, hist, j), hist[j as int].0, hist[j as int].1).1
}

/// Whether the backspace ratio was above 0.3 at the last key event among the
/// first `j` events of `hist` (`false` when there is none).
pub open spec fn last_key_high(m0: PatternModel, hist: Seq<(u64, SensorEvent)>, j: nat) -> bool
    decreases j,
{
    if j == 0 {
        false
    } else if is_key(hist[j - 1].1) {
        backspace_high_at(state_after(m0, hist, (j - 1) as nat), hist[j - 1].0, hist[j - 1].1)
    } else {
        last_key_high(m0, hist, (j - 1) as nat)
    }
}

/// Whether more than 20 keys fell in 2 s at the last key event among the
/// first `j` events of `hist` (`false` when there is none).
pub open spec fn last_key_bursting(m0: PatternModel, hist: Seq<(u64, SensorEvent)>, j: nat) -> bool
    decreases j,
{
    if j == 0 {
        false
    } else if is_key(hist[j - 1].1) {
        bursting_at(state_after(m0, hist, (j - 1) as nat), hist[j - 1].0, hist[j - 1].1)
    } else {
        last_key_bursting(m0, hist, (j - 1) as nat)
    }
}

/// Whether more than 5 changes fell in 30 s at the last window change among
/// the first `j` events of `hist` (`false` when there is none).
pub open spec fn last_window_unstable(m0: PatternModel, hist: Seq<(u64, SensorEvent)>, j: nat) -> bool
    decreases j,
{
    if j == 0 {
        false
    } else if hist[j - 1].1 is WindowChanged {
        unstable_at(state_after(m0, hist, (j - 1) as nat), hist[j - 1].0)
    } else {
        last_window_unstable(m0, hist, (j - 1) as nat)
    }
}

/// Starting with every rule inactive (as `PatternEngine::new` does), each
/// rule is active after `j` events exactly when its condition held at the
/// last event of its kind.
pub proof fn lemma_rule_flags_follow_last_condition(m0: PatternModel, hist: Seq<(u64, SensorEvent)>, j: nat)
    requires
        !m0.high_backspace_active,
        !m0.typing_burst_active,
        !m0.window_instability_active,
        j <= hist.len(),
    ensures
        state_after(m0, hist, j).high_backspace_active == last_key_high(m0, hist, j),
        state_after(m0, hist, j).typing_burst_active == last_key_bursting(m0, hist, j),
        state_after(m0, hist, j).window_instability_active == last_window_unstable(m0, hist, j),
    decreases j,
{
    if j > 0 {
        let k = (j - 1) as nat;
        lemma_rule_flags_follow_last_condition(m0, hist, k);
        lemma_step_reports_exactly(state_after(m0, hist, k), hist[k as int].0, hist[k as int].1);
    }
}

/// Over any history that starts with every rule inactive, and at any times,
/// the `j`-th event reports:
/// - a high backspace rate exactly when it is a key event, the ratio is
///   above 0.3, and it was not above 0.3 at the previous key event (or there
///   was none);
/// - a typing burst exactly when it is a key event, more than 20 keys fall
///   in 2 s, and that did not hold at the previous key event (or there was
///   none);
/// - window instability exactly when it is a window change, more than 5
///   changes fall in 30 s, and that did not hold at the previous window
///   change (or there was none);
/// - a repeated title exactly when it is a window change whose title is seen
///   at least 3 times in 10 s, on every such change.
pub proof fn lemma_history_reports_crossings(m0: PatternModel, hist: Seq<(u64, SensorEvent)>, j: nat)
    requires
        !m0.high_backspace_active,
        !m0.typing_burst_active,
        !m0.window_instability_active,
        j < hist.len(),
    ensures
        ({
            let m = state_after(m0, hist, j);
            let (now, ev) = hist[j as int];
            let out = reported_at(m0, hist, j);
            &&& reports_high_backspace(out) <==>
                is_key(ev) && backspace_high_at(m, now, ev) && !last_key_high(m0, hist, j)
            &&& reports_typing_burst(out) <==>
                is_key(ev) && bursting_at(m, now, ev) && !last_key_bursting(m0, hist, j)
            &&& reports_instability(out) <==>
                ev is WindowChanged && unstable_at(m, now) && !last_window_unstable(m0, hist, j)
            &&& reports_repeated_title(out) <==>
                ev is WindowChanged && repeated_at(m, now, ev->title)
        }),
{
    lemma_rule_flags_follow_last_condition(m0, hist, j);
    let m = state_after(m0, hist, j);
    let (now, ev) = hist[j as int];
    lemma_step_reports_exactly(m, now, ev);
    let out = reported_at(m0, hist, j);
    if !is_key(ev) && !(ev is WindowChanged) {
        assert(out.len() == 0);
        assert(!reports_high_backspace(out));
        assert(!reports_typing_burst(out));
        assert(!reports_instability(out));
        assert(!reports_repeated_title(out));
    }
}

/// What a window change remembers: every earlier remembered change time,
/// and the new one, that is at most 30 s old, each as often as before, and
/// no other; likewise every remembered title (and the new one) at most 10 s
/// old. The key memory is left alone, and the change is the last one. A
/// reported instability counts all remembered changes, and a reported
/// repetition is of the new title and counts its remembered occurrences.
pub proof fn lemma_window_change_memory(m: PatternModel, now: u64, title: String, ts: u64)
    requires
        m.titles.len() + 1 < u32::MAX,
        m.change_times.len() + 1 < usize::MAX,
    ensures
        ({
            let (m2, out) = pattern_step(m, now, SensorEvent::WindowChanged { title, ts });
            &&& forall|t: u64| #[trigger] m2.change_times.to_multiset().count(t) == if age(now, t) <= 30_000_000_000 {
                m.change_times.push(now).to_multiset().count(t)
            } else {
                0
            }
            &&& forall|e: (u64, String)| #[trigger] m2.titles.to_multiset().count(e) == if age(now, e.0) <= 10_000_000_000 {
                m.titles.push((now, title)).to_multiset().count(e)
            } else {
                0
            }
            &&& m2.keys == m.keys
            &&& m2.last_window_change == Some(now)
            &&& m2.window_instability_active == (m2.change_times.len() > 5)
            &&& (reports_instability(out) <==> m2.change_times.len() > 5 && !m.window_instability_active)
            &&& (reports_repeated_title(out) <==> m2.titles.filter(|e: (u64, String)| e.1@ == title@).len() >= 3)
            &&& forall|i: int| 0 <= i < out.len() ==> match #[trigger] out[i] {
                PatternEvent::WindowInstability { changes } => changes == m2.change_times.len(),
                PatternEvent::RepeatedWindowTitle { title: t, count } => t == title
                    && count == m2.titles.filter(|e: (u64, String)| e.1@ == title@).len(),
                _ => false,
            }
        }),
{
    let (m2, out) = pattern_step(m, now, SensorEvent::WindowChanged { title, ts });
    lemma_step_reports_exactly(m, now, SensorEvent::WindowChanged { title, ts });
    let pc = |t: u64| age(now, t.stamp()) <= INSTABILITY_SPAN;
    let pt = |e: (u64, String)| age(now, e.stamp()) <= TITLE_MEMORY;
    assert forall|t: u64| #[trigger] m2.change_times.to_multiset().count(t) == if age(now, t) <= 30_000_000_000 {
        m.change_times.push(now).to_multiset().count(t)
    } else {
        0
    } by {
        lemma_filter_counts(m.change_times.push(now), pc, t);
    }
    assert forall|e: (u64, String)| #[trigger] m2.titles.to_multiset().count(e) == if age(now, e.0) <= 10_000_000_000 {
        m.titles.push((now, title)).to_multiset().count(e)
    } else {
        0
    } by {
        lemma_filter_counts(m.titles.push((now, title)), pt, e);
    }
    let titles = recent(m.titles.push((now, title)), now, TITLE_MEMORY);
    let count = title_count(titles, title@);
    let changes = recent(m.change_times.push(now), now, INSTABILITY_SPAN);
    assert(count <= titles.len());
    assert(titles.len() <= m.titles.len() + 1);
    assert(changes.len() <= m.change_times.len() + 1);
    let a: Seq<PatternEvent> = if count >= 3 {
        seq![PatternEvent::RepeatedWindowTitle { title: title, count: count as u32 }]
    } else {
        seq![]
    };
    let b: Seq<PatternEvent> = if changes.len() > 5 && !m.window_instability_active {
        seq![PatternEvent::WindowInstability { changes: changes.len() as usize }]
    } else {
        seq![]
    };
    assert(out == a + b);
    assert forall|i: int| 0 <= i < out.len() implies match #[trigger] out[i] {
        PatternEvent::WindowInstability { changes } => changes == m2.change_times.len(),
        PatternEvent::RepeatedWindowTitle { title: t, count } => t == title
            && count == m2.titles.filter(|e: (u64, String)| e.1@ == title@).len(),
        _ => false,
    } by {
        if i < a.len() {
            assert(out[i] == a[i]);
        } else {
            assert(out[i] == b[i - a.len()]);
        }
    }
}

/// What a key event remembers: every earlier remembered key event, and the
/// new one, that is at most 5 s old, each as often as before, and no other.
/// The window memories are left alone. A reported backspace rate counts the
/// key events and the backspaces among all remembered events, and a
/// reported burst counts the remembered key events at most 2 s old.
pub proof fn lemma_key_event_memory(m: PatternModel, now: u64, ev: SensorEvent)
    requires
        is_key(ev),
        m.keys.len() + 1 < usize::MAX,
    ensures
        ({
            let (m2, out) = pattern_step(m, now, ev);
            &&& forall|e: (u64, SensorEvent)| #[trigger] m2.keys.to_multiset().count(e) == if age(now, e.0) <= 5_000_000_000 {
                m.keys.push((now, ev)).to_multiset().count(e)
            } else {
                0
            }
            &&& m2.titles == m.titles
            &&& m2.change_times == m.change_times
            &&& m2.last_window_change == m.last_window_change
            &&& ({
                let total = m2.keys.filter(|e: (u64, SensorEvent)| e.1 is KeyPressed || e.1 is KeyBackspace).len();
                let backspaces = m2.keys.filter(|e: (u64, SensorEvent)| e.1 is KeyBackspace).len();
                &&& total > 0
                &&& m2.high_backspace_active == (10 * backspaces > 3 * total)
                &&& (reports_high_backspace(out) <==> 10 * backspaces > 3 * total && !m.high_backspace_active)
            })
            &&& ({
                let burst = m2.keys.filter(|e: (u64, SensorEvent)|
                    age(now, e.0) <= 2_000_000_000 && (e.1 is KeyPressed || e.1 is KeyBackspace)).len();
                &&& m2.typing_burst_active == (burst > 20)
                &&& (reports_typing_burst(out) <==> burst > 20 && !m.typing_burst_active)
            })
            &&& forall|i: int| 0 <= i < out.len() ==> match #[trigger] out[i] {
                PatternEvent::HighBackspaceRate { backspaces, total } =>
                    total == m2.keys.filter(|e: (u64, SensorEvent)| e.1 is KeyPressed || e.1 is KeyBackspace).len()
                    && backspaces == m2.keys.filter(|e: (u64, SensorEvent)| e.1 is KeyBackspace).len(),
                PatternEvent::TypingBurst { keys } =>
                    keys == m2.keys.filter(|e: (u64, SensorEvent)|
                        age(now, e.0) <= 2_000_000_000 && (e.1 is KeyPressed || e.1 is KeyBackspace)).len(),
                _ => false,
            }
        }),
{
    let (m2, out) = pattern_step(m, now, ev);
    lemma_step_reports_exactly(m, now, ev);
    let pk = |e: (u64, SensorEvent)| age(now, e.stamp()) <= KEY_MEMORY;
    assert forall|e: (u64, SensorEvent)| #[trigger] m2.keys.to_multiset().count(e) == if age(now, e.0) <= 5_000_000_000 {
        m.keys.push((now, ev)).to_multiset().count(e)
    } else {
        0
    } by {
        lemma_filter_counts(m.keys.push((now, ev)), pk, e);
    }
    let keys = recent(m.keys.push((now, ev)), now, KEY_MEMORY);
    m.keys.lemma_filter_push((now, ev), pk);
    assert(keys == recent(m.keys, now, KEY_MEMORY).push((now, ev)));
    recent(m.keys, now, KEY_MEMORY).lemma_filter_push((now, ev), |e: (u64, SensorEvent)| is_key(e.1));
    let total = key_total(keys);
    let backspaces = backspace_total(keys);
    let burst = burst_total(keys, now);
    assert(total > 0);
    assert(keys.len() <= m.keys.len() + 1);
    assert(total <= keys.len());
    assert(backspaces <= keys.len());
    assert(burst <= keys.len());
    let a: Seq<PatternEvent> = if total > 0 && ratio_is_high(backspaces, total) && !m.high_backspace_active {
        seq![PatternEvent::HighBackspaceRate { backspaces: backspaces as usize, total: total as usize }]
    } else {
        seq![]
    };
    let b: Seq<PatternEvent> = if burst > 20 && !m.typing_burst_active {
        seq![PatternEvent::TypingBurst { keys: burst as usize }]
    } else {
        seq![]
    };
    assert(out == a + b);
    assert((|e: (u64, SensorEvent)| is_key(e.1)) =~= (|e: (u64, SensorEvent)| e.1 is KeyPressed || e.1 is KeyBackspace));
    assert((|e: (u64, SensorEvent)| age(now, e.0) <= BURST_SPAN && is_key(e.1)) =~= (|e: (u64, SensorEvent)|
        age(now, e.0) <= 2_000_000_000 && (e.1 is KeyPressed || e.1 is KeyBackspace)));
    assert forall|i: int| 0 <= i < out.len() implies match #[trigger] out[i] {
        PatternEvent::HighBackspaceRate { backspaces, total } =>
            total == m2.keys.filter(|e: (u64, SensorEvent)| e.1 is KeyPressed || e.1 is KeyBackspace).len()
            && backspaces == m2.keys.filter(|e: (u64, SensorEvent)| e.1 is KeyBackspace).len(),
        PatternEvent::TypingBurst { keys } =>
            keys == m2.keys.filter(|e: (u64, SensorEvent)|
                age(now, e.0) <= 2_000_000_000 && (e.1 is KeyPressed || e.1 is KeyBackspace)).len(),
        _ => false,
    } by {
        if i < a.len() {
            assert(out[i] == a[i]);
        } else {
            assert(out[i] == b[i - a.len()]);
        }
    }
}

} // verus!
