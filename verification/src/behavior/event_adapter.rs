use vstd::prelude::*;
use crate::clock::Clock;
use crate::sensors::event::SensorEvent;

verus! {

/// A sensor event reduced to what the behavior metrics read, stamped with
/// the time it was seen (nanoseconds on the behavior clock).
#[derive(Clone, Copy, Debug)]
pub struct BehaviorEvent {
    pub timestamp: u64,
    pub kind: BehaviorEventKind,
}

/// What happened. A mouse movement is kept as the offset from the previous
/// mouse position.
#[derive(Clone, Copy, Debug)]
pub enum BehaviorEventKind {
    KeyPress,
    Backspace,
    MouseMoved { dx: i32, dy: i32 },
    Scroll { delta: i32 },
    WindowSwitch,
}

/// Turns sensor events into behavior events, remembering the last mouse
/// position to compute movement offsets.
pub struct EventAdapter {
    pub last_mouse_pos: Option<(i32, i32)>,
}

/// The offset of a move to `(x, y)` when the mouse was last at `last`;
/// the first move has no offset.
pub open spec fn mouse_offset(last: Option<(i32, i32)>, x: i32, y: i32) -> (int, int) {
    match last {
        Some((lx, ly)) => (x - lx, y - ly),
        None => (0, 0),
    }
}

/// Whether the offset of a move to `(x, y)` fits in `i32`.
pub open spec fn offset_fits(last: Option<(i32, i32)>, x: i32, y: i32) -> bool {
    let (dx, dy) = mouse_offset(last, x, y);
    i32::MIN <= dx <= i32::MAX && i32::MIN <= dy <= i32::MAX
}

/// Whether converting `event` computes an offset that fits in `i32`.
pub open spec fn convertible(last: Option<(i32, i32)>, event: SensorEvent) -> bool {
    match event {
        SensorEvent::MouseMoved { x, y } => offset_fits(last, x, y),
        _ => true,
    }
}

/// The behavior event that `event`, seen at `now`, becomes.
pub open spec fn converted(last: Option<(i32, i32)>, now: u64, event: SensorEvent) -> BehaviorEvent {
    BehaviorEvent {
        timestamp: now,
        kind: match event {
            SensorEvent::KeyPressed { .. } => BehaviorEventKind::KeyPress,
            SensorEvent::KeyBackspace => BehaviorEventKind::Backspace,
            SensorEvent::MouseMoved { x, y } => BehaviorEventKind::MouseMoved {
                dx: mouse_offset(last, x, y).0 as i32,
                dy: mouse_offset(last, x, y).1 as i32,
            },
            SensorEvent::Scroll { delta } => BehaviorEventKind::Scroll { delta },
            SensorEvent::WindowChanged { .. } => BehaviorEventKind::WindowSwitch,
        },
    }
}

/// The remembered mouse position after `event`.
pub open spec fn mouse_after(last: Option<(i32, i32)>, event: SensorEvent) -> Option<(i32, i32)> {
    match event {
        SensorEvent::MouseMoved { x, y } => Some((x, y)),
        _ => last,
    }
}

impl EventAdapter {
    /// An adapter that has not seen the mouse yet.
    pub fn new() -> (a: EventAdapter)
        ensures
            a.last_mouse_pos is None,
    {
        EventAdapter { last_mouse_pos: None }
    }

    /// Converts `event`, stamped with a new reading of `clock`.
    pub fn convert(&mut self, clock: &mut Clock, event: SensorEvent) -> (r: Option<BehaviorEvent>)
        requires
            convertible(old(self).last_mouse_pos, event),
        ensures
            final(clock).latest() >= old(clock).latest(),
            final(self).last_mouse_pos == mouse_after(old(self).last_mouse_pos, event),
            r == Some(converted(old(self).last_mouse_pos, final(clock).latest(), event)),
            !(event is MouseMoved) ==> final(self).last_mouse_pos == old(self).last_mouse_pos,
            event matches SensorEvent::MouseMoved { x, y } ==> final(self).last_mouse_pos == Some((x, y)),
    {
        let now = clock.now();
        self.convert_at(now, event)
    }

    /// Converts `event`, seen at `now`. Every sensor event has a behavior
    /// event.
    pub fn convert_at(&mut self, now: u64, event: SensorEvent) -> (r: Option<BehaviorEvent>)
        requires
            convertible(old(self).last_mouse_pos, event),
        ensures
            final(self).last_mouse_pos == mouse_after(old(self).last_mouse_pos, event),
            r == Some(converted(old(self).last_mouse_pos, now, event)),
            !(event is MouseMoved) ==> final(self).last_mouse_pos == old(self).last_mouse_pos,
            event matches SensorEvent::MouseMoved { x, y } ==> final(self).last_mouse_pos == Some((x, y)),
    {
        match event {
            SensorEvent::KeyPressed { .. } => Some(BehaviorEvent { timestamp: now, kind: BehaviorEventKind::KeyPress }),
            SensorEvent::KeyBackspace => Some(BehaviorEvent { timestamp: now, kind: BehaviorEventKind::Backspace }),
            SensorEvent::MouseMoved { x, y } => {
                let (dx, dy) = match self.last_mouse_pos {
                    Some((lx, ly)) => (x - lx, y - ly),
                    None => (0, 0),
                };
                self.last_mouse_pos = Some((x, y));
                Some(BehaviorEvent { timestamp: now, kind: BehaviorEventKind::MouseMoved { dx, dy } })
            },
            SensorEvent::Scroll { delta } => Some(BehaviorEvent { timestamp: now, kind: BehaviorEventKind::Scroll { delta } }),
            SensorEvent::WindowChanged { .. } => Some(BehaviorEvent { timestamp: now, kind: BehaviorEventKind::WindowSwitch }),
        }
    }
}

/// The mouse offsets telescope: after moves to `(x1, y1)` and then to
/// `(x2, y2)`, the two offsets add up to the offset from the position
/// before the first move to `(x2, y2)` (zero-based when the mouse was not
/// seen before).
pub proof fn lemma_offsets_telescope(last: Option<(i32, i32)>, x1: i32, y1: i32, x2: i32, y2: i32)
    ensures
        ({
            let first = mouse_offset(last, x1, y1);
            let second = mouse_offset(mouse_after(last, SensorEvent::MouseMoved { x: x1, y: y1 }), x2, y2);
            &&& first.0 + second.0 == match last { Some((lx, _)) => x2 - lx, None => x2 - x1 }
            &&& first.1 + second.1 == match last { Some((_, ly)) => y2 - ly, None => y2 - y1 }
        }),
{
}

/// The remembered mouse position after converting `events` in order.
pub open spec fn position_after(last: Option<(i32, i32)>, events: Seq<SensorEvent>) -> Option<(i32, i32)>
    decreases events.len(),
{
    if events.len() == 0 {
        last
    } else {
        mouse_after(position_after(last, events.drop_last()), events.last())
    }
}

/// Only mouse movements move the remembered position: after any events, it
/// is the position of the last mouse movement among them, or the position
/// before them when there is none. So the offset of a movement is always
/// from the last mouse position seen, whatever came in between.
pub proof fn lemma_position_is_last_move(last: Option<(i32, i32)>, events: Seq<SensorEvent>)
    ensures
        (forall|i: int| 0 <= i < events.len() ==> !(#[trigger] events[i] is MouseMoved))
            ==> position_after(last, events) == last,
        forall|i: int| 0 <= i < events.len() && (#[trigger] events[i] is MouseMoved)
            && (forall|j: int| i < j < events.len() ==> !(#[trigger] events[j] is MouseMoved))
            ==> position_after(last, events) == Some((events[i]->x, events[i]->y)),
    decreases events.len(),
{
    if events.len() > 0 {
        let r = events.drop_last();
        lemma_position_is_last_move(last, r);
        assert forall|i: int| 0 <= i < events.len() && (#[trigger] events[i] is MouseMoved)
            && (forall|j: int| i < j < events.len() ==> !(#[trigger] events[j] is MouseMoved))
            implies position_after(last, events) == Some((events[i]->x, events[i]->y)) by {
            if i < events.len() - 1 {
                assert(!(events[events.len() - 1] is MouseMoved));
                assert(r[i] == events[i]);
                assert forall|j: int| i < j < r.len() implies !(#[trigger] r[j] is MouseMoved) by {
                    assert(r[j] == events[j]);
                }
            }
        }
        if forall|i: int| 0 <= i < events.len() ==> !(#[trigger] events[i] is MouseMoved) {
            assert forall|i: int| 0 <= i < r.len() implies !(#[trigger] r[i] is MouseMoved) by {
                assert(r[i] == events[i]);
            }
            assert(!(events[events.len() - 1] is MouseMoved));
        }
    }
}

/// The offset of a movement to `(x, y)` is the difference from the last
/// position seen, and zero for the first movement.
pub proof fn lemma_move_offset_is_difference(last: Option<(i32, i32)>, now: u64, x: i32, y: i32)
    requires
        offset_fits(last, x, y),
    ensures
        ({
            let k = converted(last, now, SensorEvent::MouseMoved { x, y }).kind;
            &&& last matches Some((lx, ly)) ==> k == (BehaviorEventKind::MouseMoved { dx: (x - lx) as i32, dy: (y - ly) as i32 })
            &&& last is None ==> k == (BehaviorEventKind::MouseMoved { dx: 0, dy: 0 })
            &&& converted(last, now, SensorEvent::MouseMoved { x, y }).timestamp == now
        }),
{
}

} // verus!
