use vstd::prelude::*;
use crate::sensors::event::SensorEvent;

verus! {

/// The event for a newly pressed key named `key`: the backspace key has its
/// own event.
pub open spec fn key_event(key: String) -> SensorEvent {
    if key@ == "Backspace"@ {
        SensorEvent::KeyBackspace
    } else {
        SensorEvent::KeyPressed { key: key }
    }
}

/// Whether a key named `key` appears in `keys`.
pub open spec fn held(keys: Seq<String>, key: Seq<char>) -> bool {
    exists|i: int| 0 <= i < keys.len() && (#[trigger] keys[i])@ == key
}

/// The events for the keys of `keys` (in order) that are not in `last`.
pub open spec fn new_key_events(keys: Seq<String>, last: Seq<String>) -> Seq<SensorEvent>
    decreases keys.len(),
{
    if keys.len() == 0 {
        seq![]
    } else {
        let rest = new_key_events(keys.drop_last(), last);
        if held(last, keys.last()@) {
            rest
        } else {
            rest.push(key_event(keys.last()))
        }
    }
}

/// What one poll of the devices reports: a key event for every key down now
/// that was not down at the last poll, then a mouse movement if the mouse
/// moved.
pub open spec fn poll_events(keys: Seq<String>, last_keys: Seq<String>, mouse: (i32, i32), last_mouse: (i32, i32)) -> Seq<SensorEvent> {
    let moved: Seq<SensorEvent> = if mouse != last_mouse {
        seq![SensorEvent::MouseMoved { x: mouse.0, y: mouse.1 }]
    } else {
        seq![]
    };
    new_key_events(keys, last_keys) + moved
}

/// Whether a key named `key` appears in `keys`.
fn is_held(keys: &Vec<String>, key: &String) -> (r: bool)
    ensures
        r == held(keys@, key@),
{
    let mut i: usize = 0;
    while i < keys.len()
        invariant
            i <= keys@.len(),
            forall|j: int| 0 <= j < i ==> (#[trigger] keys@[j])@ != key@,
        decreases keys@.len() - i,
    {
        if keys[i] == *key {
            return true;
        }
        i = i + 1;
    }
    false
}

/// The events of one poll of the devices, given the keys down (by name) and
/// the mouse position now and at the last poll.
pub fn input_events(keys: &Vec<String>, last_keys: &Vec<String>, mouse: (i32, i32), last_mouse: (i32, i32)) -> (events: Vec<SensorEvent>)
    ensures
        events@ == poll_events(keys@, last_keys@, mouse, last_mouse),
{
    let backspace = String::from_str("Backspace");
    let mut events: Vec<SensorEvent> = Vec::new();
    let mut i: usize = 0;
    while i < keys.len()
        invariant
            i <= keys@.len(),
            backspace@ == "Backspace"@,
            events@ == new_key_events(keys@.take(i as int), last_keys@),
        decreases keys@.len() - i,
    {
        proof {
            let t = keys@.take(i + 1);
            assert(t.drop_last() =~= keys@.take(i as int));
            assert(t.last() == keys@[i as int]);
        }
        if !is_held(last_keys, &keys[i]) {
            if keys[i] == backspace {
                events.push(SensorEvent::KeyBackspace);
            } else {
                events.push(SensorEvent::KeyPressed { key: keys[i].clone() });
            }
        }
        i = i + 1;
    }
    assert(keys@.take(keys@.len() as int) =~= keys@);
    let ghost key_part = events@;
    if mouse.0 != last_mouse.0 || mouse.1 != last_mouse.1 {
        events.push(SensorEvent::MouseMoved { x: mouse.0, y: mouse.1 });
    }
    assert(events@ =~= poll_events(keys@, last_keys@, mouse, last_mouse));
    events
}

/// Only new presses are reported: keys that were already down at the last
/// poll produce no key event, so polling the same keys twice reports no
/// key event the second time.
pub proof fn lemma_held_keys_are_not_repeated(keys: Seq<String>, last: Seq<String>)
    requires
        forall|i: int| 0 <= i < keys.len() ==> held(last, (#[trigger] keys[i])@),
    ensures
        new_key_events(keys, last).len() == 0,
    decreases keys.len(),
{
    if keys.len() > 0 {
        let rest = keys.drop_last();
        assert forall|i: int| 0 <= i < rest.len() implies held(last, (#[trigger] rest[i])@) by {
            assert(rest[i] == keys[i]);
        }
        lemma_held_keys_are_not_repeated(rest, last);
        assert(held(last, keys[keys.len() - 1]@));
    }
}

/// A poll with the same keys and mouse position as the last one reports
/// nothing.
pub proof fn lemma_unchanged_poll_reports_nothing(keys: Seq<String>, mouse: (i32, i32))
    ensures
        poll_events(keys, keys, mouse, mouse).len() == 0,
{
    assert forall|i: int| 0 <= i < keys.len() implies held(keys, (#[trigger] keys[i])@) by {}
    lemma_held_keys_are_not_repeated(keys, keys);
}

proof fn lemma_new_key_events_follow_fresh_keys(keys: Seq<String>, last: Seq<String>)
    ensures
        ({
            let f = keys.filter(|k: String| !held(last, k@));
            let ev = new_key_events(keys, last);
            &&& ev.len() == f.len()
            &&& forall|i: int| 0 <= i < f.len() ==> ev[i] == key_event(#[trigger] f[i])
        }),
    decreases keys.len(),
{
    let p = |k: String| !held(last, k@);
    if keys.len() > 0 {
        let r = keys.drop_last();
        let k = keys.last();
        lemma_new_key_events_follow_fresh_keys(r, last);
        assert(keys == r.push(k));
        r.lemma_filter_push(k, p);
    } else {
        reveal(Seq::filter);
    }
}

/// What a poll reports: one key event per key down now that was not down at
/// the last poll (no key of `last_keys` has its name), in the order of
/// `keys` — a backspace for the key named "Backspace", a key press carrying
/// the key otherwise — and after them one movement to the new mouse
/// position exactly when the position changed in either coordinate.
pub proof fn lemma_poll_reports_new_keys_and_moves(keys: Seq<String>, last_keys: Seq<String>, mouse: (i32, i32), last_mouse: (i32, i32))
    ensures
        ({
            let ev = poll_events(keys, last_keys, mouse, last_mouse);
            let fresh = keys.filter(|k: String| !(exists|j: int| 0 <= j < last_keys.len() && (#[trigger] last_keys[j])@ == k@));
            let moved = mouse.0 != last_mouse.0 || mouse.1 != last_mouse.1;
            &&& ev.len() == fresh.len() + if moved { 1int } else { 0int }
            &&& forall|i: int| 0 <= i < fresh.len() ==> ev[i] == if (#[trigger] fresh[i])@ == "Backspace"@ {
                SensorEvent::KeyBackspace
            } else {
                SensorEvent::KeyPressed { key: fresh[i] }
            }
            &&& moved ==> ev[ev.len() - 1] == (SensorEvent::MouseMoved { x: mouse.0, y: mouse.1 })
        }),
{
    lemma_new_key_events_follow_fresh_keys(keys, last_keys);
    assert((|k: String| !held(last_keys, k@)) =~= (|k: String| !(exists|j: int| 0 <= j < last_keys.len() && (#[trigger] last_keys[j])@ == k@)));
    let ev = poll_events(keys, last_keys, mouse, last_mouse);
    let kev = new_key_events(keys, last_keys);
    let fresh = keys.filter(|k: String| !(exists|j: int| 0 <= j < last_keys.len() && (#[trigger] last_keys[j])@ == k@));
    assert forall|i: int| 0 <= i < fresh.len() implies ev[i] == if (#[trigger] fresh[i])@ == "Backspace"@ {
        SensorEvent::KeyBackspace
    } else {
        SensorEvent::KeyPressed { key: fresh[i] }
    } by {
        assert(ev[i] == kev[i]);
    }
}

} // verus!
