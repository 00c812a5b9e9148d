use vstd::prelude::*;
use crate::sensors::event::SensorEvent;
use crate::sensors::plan::SensorAction;
use crate::sensors::random::{gen_range, gen_ratio, thread_rng};
use crate::state::SimulationMode;

verus! {

/// The simulated mouse: a position that wanders by random offsets.
pub struct MouseWalker {
    pub x: i32,
    pub y: i32,
}

/// Whether every offset of at most `reach` in each direction keeps the
/// position inside `i32`.
pub open spec fn room_for(w: MouseWalker, reach: int) -> bool {
    i32::MIN + reach <= w.x <= i32::MAX - reach && i32::MIN + reach <= w.y <= i32::MAX - reach
}

/// How far one round in `mode` can move the mouse along each axis.
pub open spec fn reach(mode: SimulationMode) -> int {
    match mode {
        SimulationMode::Normal => 15,
        SimulationMode::Debugging => 3,
        SimulationMode::Reading => 5,
    }
}

/// Normal mode: one move by `(dx, dy)` from `(x, y)`, then 120 ms.
pub open spec fn normal_moving(actions: Seq<SensorAction>, x: int, y: int, dx: int, dy: int) -> bool {
    actions == seq![
        SensorAction::Send(SensorEvent::MouseMoved { x: (x + dx) as i32, y: (y + dy) as i32 }),
        SensorAction::Sleep(120),
    ]
}

/// Debugging mode: maybe one move by `(dx, dy)`, then 500 ms.
pub open spec fn debugging_moving(actions: Seq<SensorAction>, x: int, y: int, step: Option<(int, int)>) -> bool {
    match step {
        Some((dx, dy)) => actions == seq![
            SensorAction::Send(SensorEvent::MouseMoved { x: (x + dx) as i32, y: (y + dy) as i32 }),
            SensorAction::Sleep(500),
        ],
        None => actions == seq![SensorAction::Sleep(500)],
    }
}

/// Reading mode: maybe a scroll by `delta`, then one move by `(dx, dy)`, then
/// 700 ms.
pub open spec fn reading_moving(actions: Seq<SensorAction>, x: int, y: int, scroll: Option<i32>, dx: int, dy: int) -> bool {
    let moved = seq![
        SensorAction::Send(SensorEvent::MouseMoved { x: (x + dx) as i32, y: (y + dy) as i32 }),
        SensorAction::Sleep(700),
    ];
    match scroll {
        Some(delta) => actions == seq![SensorAction::Send(SensorEvent::Scroll { delta })] + moved,
        None => actions == moved,
    }
}

/// A normal round: a move by up to 15 in each direction.
pub open spec fn normal_round_done(before: MouseWalker, after: MouseWalker, actions: Seq<SensorAction>) -> bool {
    exists|dx: int, dy: int|
        -15 <= dx <= 15 && -15 <= dy <= 15
        && after.x == before.x + dx && after.y == before.y + dy
        && #[trigger] normal_moving(actions, before.x as int, before.y as int, dx, dy)
}

/// A debugging round: maybe a move by up to 3 in each direction.
pub open spec fn debugging_round_done(before: MouseWalker, after: MouseWalker, actions: Seq<SensorAction>) -> bool {
    exists|step: Option<(int, int)>|
        (match step {
            Some((dx, dy)) => -3 <= dx <= 3 && -3 <= dy <= 3
                && after.x == before.x + dx && after.y == before.y + dy,
            None => after.x == before.x && after.y == before.y,
        }) && #[trigger] debugging_moving(actions, before.x as int, before.y as int, step)
}

/// A reading round: maybe a scroll by 1 to 4, then a move by up to 5 in each
/// direction.
pub open spec fn reading_round_done(before: MouseWalker, after: MouseWalker, actions: Seq<SensorAction>) -> bool {
    exists|scroll: Option<i32>, dx: int, dy: int|
        (scroll matches Some(d) ==> 1 <= d < 5)
        && -5 <= dx <= 5 && -5 <= dy <= 5
        && after.x == before.x + dx && after.y == before.y + dy
        && #[trigger] reading_moving(actions, before.x as int, before.y as int, scroll, dx, dy)
}

/// A round in `mode` that moved the mouse from `before` to `after` and did
/// `actions`.
pub open spec fn round_done(mode: SimulationMode, before: MouseWalker, after: MouseWalker, actions: Seq<SensorAction>) -> bool {
    match mode {
        SimulationMode::Normal => normal_round_done(before, after, actions),
        SimulationMode::Debugging => debugging_round_done(before, after, actions),
        SimulationMode::Reading => reading_round_done(before, after, actions),
    }
}

impl MouseWalker {
    /// The mouse at (400, 300).
    pub fn new() -> (w: MouseWalker)
        ensures
            w.x == 400 && w.y == 300,
    {
        MouseWalker { x: 400, y: 300 }
    }

    /// Whether a round in `mode` cannot move the mouse out of `i32`.
    pub fn has_room(&self, mode: SimulationMode) -> (r: bool)
        ensures
            r == room_for(*self, reach(mode)),
    {
        let reach: i32 = match mode {
            SimulationMode::Normal => 15,
            SimulationMode::Debugging => 3,
            SimulationMode::Reading => 5,
        };
        i32::MIN + reach <= self.x && self.x <= i32::MAX - reach
            && i32::MIN + reach <= self.y && self.y <= i32::MAX - reach
    }

    /// Moves by `(dx, dy)` and reports the new position.
    pub fn step(&mut self, dx: i32, dy: i32) -> (e: SensorEvent)
        requires
            i32::MIN <= old(self).x + dx <= i32::MAX,
            i32::MIN <= old(self).y + dy <= i32::MAX,
        ensures
            final(self).x == old(self).x + dx,
            final(self).y == old(self).y + dy,
            e == (SensorEvent::MouseMoved { x: final(self).x, y: final(self).y }),
    {
        self.x = self.x + dx;
        self.y = self.y + dy;
        SensorEvent::MouseMoved { x: self.x, y: self.y }
    }

    /// Moves by `(dx, dy)` and reports the new position, or leaves the
    /// position alone and gives `None` when the move leaves `i32`.
    pub fn try_step(&mut self, dx: i32, dy: i32) -> (e: Option<SensorEvent>)
        ensures
            ({
                let fits = i32::MIN <= old(self).x + dx <= i32::MAX && i32::MIN <= old(self).y + dy <= i32::MAX;
                &&& fits ==> final(self).x == old(self).x + dx && final(self).y == old(self).y + dy
                    && e == Some(SensorEvent::MouseMoved { x: final(self).x, y: final(self).y })
                &&& !fits ==> *final(self) == *old(self) && e is None
            }),
    {
        let nx = self.x as i64 + dx as i64;
        let ny = self.y as i64 + dy as i64;
        if nx < i32::MIN as i64 || nx > i32::MAX as i64 || ny < i32::MIN as i64 || ny > i32::MAX as i64 {
            return None;
        }
        Some(self.step(dx, dy))
    }

    /// One round of simulated mouse use in `mode`: in normal mode a move by
    /// up to 15 in each direction; in debugging mode, with probability 1/5, a
    /// move by up to 3; in reading mode, with probability 3/5, a scroll by 1
    /// to 4, then a move by up to 5. When the drawn move would leave `i32`,
    /// the round gives `None` and the mouse stays where it was; that can
    /// only happen within the mode's reach of the `i32` bounds.
    pub fn round(&mut self, mode: SimulationMode) -> (r: Option<Vec<SensorAction>>)
        ensures
            room_for(*old(self), reach(mode)) ==> r is Some,
            r is None ==> *final(self) == *old(self),
            r matches Some(actions) ==> round_done(mode, *old(self), *final(self), actions@),
    {
        let mut rng = thread_rng();
        let x0 = self.x;
        let y0 = self.y;
        let mut actions: Vec<SensorAction> = Vec::new();
        match mode {
            SimulationMode::Normal => {
                let dx = gen_range(&mut rng, -15, 16) as i32;
                let dy = gen_range(&mut rng, -15, 16) as i32;
                match self.try_step(dx, dy) {
                    Some(e) => actions.push(SensorAction::Send(e)),
                    None => return None,
                }
                actions.push(SensorAction::Sleep(120));
                assert(actions@ =~= seq![
                    SensorAction::Send(SensorEvent::MouseMoved { x: (x0 + dx) as i32, y: (y0 + dy) as i32 }),
                    SensorAction::Sleep(120),
                ]);
                assert(normal_moving(actions@, x0 as int, y0 as int, dx as int, dy as int));
            },
            SimulationMode::Debugging => {
                if gen_ratio(&mut rng, 1, 5) {
                    let dx = gen_range(&mut rng, -3, 4) as i32;
                    let dy = gen_range(&mut rng, -3, 4) as i32;
                    match self.try_step(dx, dy) {
                        Some(e) => actions.push(SensorAction::Send(e)),
                        None => return None,
                    }
                    actions.push(SensorAction::Sleep(500));
                    assert(actions@ =~= seq![
                        SensorAction::Send(SensorEvent::MouseMoved { x: (x0 + dx) as i32, y: (y0 + dy) as i32 }),
                        SensorAction::Sleep(500),
                    ]);
                    assert(debugging_moving(actions@, x0 as int, y0 as int, Some((dx as int, dy as int))));
                } else {
                    actions.push(SensorAction::Sleep(500));
                    assert(actions@ =~= seq![SensorAction::Sleep(500)]);
                    assert(debugging_moving(actions@, x0 as int, y0 as int, None));
                }
            },
            SimulationMode::Reading => {
                let mut scroll: Option<i32> = None;
                if gen_ratio(&mut rng, 3, 5) {
                    let delta = gen_range(&mut rng, 1, 5) as i32;
                    actions.push(SensorAction::Send(SensorEvent::Scroll { delta }));
                    scroll = Some(delta);
                }
                let dx = gen_range(&mut rng, -5, 6) as i32;
                let dy = gen_range(&mut rng, -5, 6) as i32;
                match self.try_step(dx, dy) {
                    Some(e) => actions.push(SensorAction::Send(e)),
                    None => return None,
                }
                actions.push(SensorAction::Sleep(700));
                let ghost moved = seq![
                    SensorAction::Send(SensorEvent::MouseMoved { x: (x0 + dx) as i32, y: (y0 + dy) as i32 }),
                    SensorAction::Sleep(700),
                ];
                proof {
                    match scroll {
                        Some(delta) => {
                            assert(actions@ =~= seq![SensorAction::Send(SensorEvent::Scroll { delta })] + moved);
                        },
                        None => {
                            assert(actions@ =~= moved);
                        },
                    }
                }
                assert(reading_moving(actions@, x0 as int, y0 as int, scroll, dx as int, dy as int));
            },
        }
        Some(actions)
    }
}

} // verus!
