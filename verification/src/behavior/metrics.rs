use vstd::prelude::*;
use crate::behavior::event_adapter::{BehaviorEvent, BehaviorEventKind};
use crate::behavior::window::SlidingWindow;

verus! {

broadcast use vstd::seq_lib::group_seq_lib_default;

/// The integer tallies of a window's events from which the behavior rates
/// are computed (each rate is a tally divided by the window length in
/// seconds; the mouse distance is the sum of the Euclidean lengths of the
/// offsets of `MouseMoved` events).
pub struct EventCounts {
    pub key_count: usize,
    pub backspace_count: usize,
    pub mouse_move_count: usize,
    /// The sum of the absolute scroll deltas.
    pub scroll_total: u128,
    pub window_switch_count: usize,
}

/// The number of key presses in `s`.
pub open spec fn key_presses(s: Seq<BehaviorEvent>) -> nat {
    s.filter(|e: BehaviorEvent| e.kind is KeyPress).len()
}

/// The number of backspaces in `s`.
pub open spec fn backspaces(s: Seq<BehaviorEvent>) -> nat {
    s.filter(|e: BehaviorEvent| e.kind is Backspace).len()
}

/// The number of mouse movements in `s`.
pub open spec fn mouse_moves(s: Seq<BehaviorEvent>) -> nat {
    s.filter(|e: BehaviorEvent| e.kind is MouseMoved).len()
}

/// The number of window switches in `s`.
pub open spec fn window_switches(s: Seq<BehaviorEvent>) -> nat {
    s.filter(|e: BehaviorEvent| e.kind is WindowSwitch).len()
}

/// The absolute scroll delta of a kind (zero for other kinds).
pub open spec fn scroll_amount(k: BehaviorEventKind) -> nat {
    match k {
        BehaviorEventKind::Scroll { delta } => if delta < 0 { (-delta) as nat } else { delta as nat },
        _ => 0,
    }
}

/// The sum of the absolute scroll deltas of `s`.
pub open spec fn scroll_sum(s: Seq<BehaviorEvent>) -> nat
    decreases s.len(),
{
    if s.len() == 0 {
        0
    } else {
        scroll_sum(s.drop_last()) + scroll_amount(s.last().kind)
    }
}

proof fn lemma_scroll_sum_bound(s: Seq<BehaviorEvent>)
    ensures
        scroll_sum(s) <= s.len() * 0x8000_0000,
    decreases s.len(),
{
    if s.len() > 0 {
        lemma_scroll_sum_bound(s.drop_last());
    }
}

impl EventCounts {
    /// The tallies of the events in `window`.
    pub fn from_window(window: &SlidingWindow) -> (c: EventCounts)
        ensures
            c.key_count == key_presses(window.events()),
            c.backspace_count == backspaces(window.events()),
            c.mouse_move_count == mouse_moves(window.events()),
            c.window_switch_count == window_switches(window.events()),
            c.scroll_total == scroll_sum(window.events()),
    {
        let ghost s = window.events();
        let ghost pk = |e: BehaviorEvent| e.kind is KeyPress;
        let ghost pb = |e: BehaviorEvent| e.kind is Backspace;
        let ghost pm = |e: BehaviorEvent| e.kind is MouseMoved;
        let ghost pw = |e: BehaviorEvent| e.kind is WindowSwitch;
        let mut c = EventCounts {
            key_count: 0,
            backspace_count: 0,
            mouse_move_count: 0,
            scroll_total: 0,
            window_switch_count: 0,
        };
        let n = window.len();
        let mut i: usize = 0;
        while i < n
            invariant
                n == s.len(),
                s == window.events(),
                i <= n,
                pk == (|e: BehaviorEvent| e.kind is KeyPress),
                pb == (|e: BehaviorEvent| e.kind is Backspace),
                pm == (|e: BehaviorEvent| e.kind is MouseMoved),
                pw == (|e: BehaviorEvent| e.kind is WindowSwitch),
                c.key_count == s.take(i as int).filter(pk).len(),
                c.backspace_count == s.take(i as int).filter(pb).len(),
                c.mouse_move_count == s.take(i as int).filter(pm).len(),
                c.window_switch_count == s.take(i as int).filter(pw).len(),
                c.key_count <= i && c.backspace_count <= i && c.mouse_move_count <= i && c.window_switch_count <= i,
                c.scroll_total == scroll_sum(s.take(i as int)),
            decreases n - i,
        {
            let e = window.get(i);
            proof {
                let t = s.take(i as int);
                t.lemma_filter_push(e, pk);
                t.lemma_filter_push(e, pb);
                t.lemma_filter_push(e, pm);
                t.lemma_filter_push(e, pw);
                assert(t.push(e) =~= s.take(i + 1));
                assert(s.take(i + 1).drop_last() =~= t);
                lemma_scroll_sum_bound(t);
            }
            match e.kind {
                BehaviorEventKind::KeyPress => {
                    c.key_count = c.key_count + 1;
                },
                BehaviorEventKind::Backspace => {
                    c.backspace_count = c.backspace_count + 1;
                },
                BehaviorEventKind::MouseMoved { .. } => {
                    c.mouse_move_count = c.mouse_move_count + 1;
                },
                BehaviorEventKind::Scroll { delta } => {
                    let amount: u128 = if delta < 0 { (0 - (delta as i64)) as u128 } else { delta as u128 };
                    assert(i * 0x8000_0000 + 0x8000_0000 < u128::MAX) by (nonlinear_arith)
                        requires i < 0x1_0000_0000_0000_0000;
                    c.scroll_total = c.scroll_total + amount;
                },
                BehaviorEventKind::WindowSwitch => {
                    c.window_switch_count = c.window_switch_count + 1;
                },
            }
            i = i + 1;
        }
        assert(s.take(n as int) =~= s);
        c
    }
}

} // verus!
