use vstd::prelude::*;
use crate::sensors::event::SensorEvent;
use crate::sensors::plan::{sends_key, SensorAction};
use crate::sensors::random::{gen_range, gen_ratio, thread_rng};
use crate::state::SimulationMode;

verus! {

/// The `i`-th lower-case letter.
pub open spec fn letter(i: int) -> char {
    "abcdefghijklmnopqrstuvwxyz"@[i]
}

/// The lower-case letter at `i` as a one-letter string.
pub fn letter_string(i: usize) -> (s: String)
    requires
        i < 26,
    ensures
        s@ == seq![letter(i as int)],
{
    let all = "abcdefghijklmnopqrstuvwxyz";
    proof {
        reveal_strlit("abcdefghijklmnopqrstuvwxyz");
    }
    let piece = all.substring_char(i, i + 1);
    assert(piece@ =~= seq![letter(i as int)]);
    String::from_str(piece)
}

/// Normal typing: one letter, then 180 ms.
pub open spec fn normal_typing(actions: Seq<SensorAction>, l: int) -> bool {
    &&& actions.len() == 2
    &&& sends_key(actions[0], seq![letter(l)])
    &&& actions[1] == SensorAction::Sleep(180)
}

/// Debugging: a burst of letters 70 ms apart, then backspaces 60 ms apart,
/// then 300 ms.
pub open spec fn debugging_typing(actions: Seq<SensorAction>, letters: Seq<usize>, backspaces: nat) -> bool {
    let n = letters.len();
    &&& actions.len() == 2 * n + 2 * backspaces + 1
    &&& forall|j: int| 0 <= j < n ==> sends_key(#[trigger] actions[2 * j], seq![letter(letters[j] as int)])
        && actions[2 * j + 1] == SensorAction::Sleep(70)
    &&& forall|j: int| 0 <= j < backspaces ==> #[trigger] actions[2 * n + 2 * j] == SensorAction::Send(SensorEvent::KeyBackspace)
        && actions[2 * n + 2 * j + 1] == SensorAction::Sleep(60)
    &&& actions[(2 * n + 2 * backspaces) as int] == SensorAction::Sleep(300)
}

/// Reading: at most one letter, then 1200 ms.
pub open spec fn reading_typing(actions: Seq<SensorAction>, l: Option<int>) -> bool {
    match l {
        Some(l) => actions.len() == 2 && sends_key(actions[0], seq![letter(l)])
            && actions[1] == SensorAction::Sleep(1200),
        None => actions == seq![SensorAction::Sleep(1200)],
    }
}

/// One round of normal typing with the letter at `l`.
pub fn normal_round(l: usize) -> (actions: Vec<SensorAction>)
    requires
        l < 26,
    ensures
        normal_typing(actions@, l as int),
{
    let mut actions = Vec::new();
    actions.push(SensorAction::Send(SensorEvent::KeyPressed { key: letter_string(l) }));
    actions.push(SensorAction::Sleep(180));
    actions
}

/// One round of debugging: the letters at `letters`, then `backspaces`
/// backspaces.
pub fn debugging_round(letters: &Vec<usize>, backspaces: usize) -> (actions: Vec<SensorAction>)
    requires
        forall|j: int| 0 <= j < letters@.len() ==> letters@[j] < 26,
        2 * letters@.len() + 2 * backspaces + 1 <= usize::MAX,
    ensures
        debugging_typing(actions@, letters@, backspaces as nat),
{
    let mut actions: Vec<SensorAction> = Vec::new();
    let n = letters.len();
    let mut j: usize = 0;
    while j < n
        invariant
            n == letters@.len(),
            j <= n,
            forall|k: int| 0 <= k < letters@.len() ==> letters@[k] < 26,
            actions@.len() == 2 * j,
            forall|k: int| 0 <= k < j ==> sends_key(#[trigger] actions@[2 * k], seq![letter(letters@[k] as int)])
                && actions@[2 * k + 1] == SensorAction::Sleep(70),
        decreases n - j,
    {
        actions.push(SensorAction::Send(SensorEvent::KeyPressed { key: letter_string(letters[j]) }));
        actions.push(SensorAction::Sleep(70));
        j = j + 1;
    }
    let mut b: usize = 0;
    while b < backspaces
        invariant
            n == letters@.len(),
            2 * n + 2 * backspaces + 1 <= usize::MAX,
            b <= backspaces,
            actions@.len() == 2 * n + 2 * b,
            forall|k: int| 0 <= k < n ==> sends_key(#[trigger] actions@[2 * k], seq![letter(letters@[k] as int)])
                && actions@[2 * k + 1] == SensorAction::Sleep(70),
            forall|k: int| 0 <= k < b ==> #[trigger] actions@[2 * n + 2 * k] == SensorAction::Send(SensorEvent::KeyBackspace)
                && actions@[2 * n + 2 * k + 1] == SensorAction::Sleep(60),
        decreases backspaces - b,
    {
        actions.push(SensorAction::Send(SensorEvent::KeyBackspace));
        actions.push(SensorAction::Sleep(60));
        b = b + 1;
    }
    actions.push(SensorAction::Sleep(300));
    actions
}

/// One round of reading: the letter at `l` when there is one.
pub fn reading_round(l: Option<usize>) -> (actions: Vec<SensorAction>)
    requires
        l matches Some(l) ==> l < 26,
    ensures
        reading_typing(actions@, match l { Some(l) => Some(l as int), None => None }),
{
    let mut actions = Vec::new();
    if let Some(l) = l {
        actions.push(SensorAction::Send(SensorEvent::KeyPressed { key: letter_string(l) }));
    }
    actions.push(SensorAction::Sleep(1200));
    proof {
        if l is None {
            assert(actions@ =~= seq![SensorAction::Sleep(1200)]);
        }
    }
    actions
}

/// A random letter index.
fn random_letter(rng: &mut rand::rngs::ThreadRng) -> (l: usize)
    ensures
        l < 26,
{
    gen_range(rng, 0, 26) as usize
}

/// One round of simulated typing in `mode`, with random letters: in normal
/// mode one letter; in debugging mode a burst of 3 to 7 letters followed by
/// 2 to 5 backspaces; in reading mode a letter with probability 3/20.
pub fn keyboard_round(mode: SimulationMode) -> (actions: Vec<SensorAction>)
    ensures
        mode == SimulationMode::Normal ==> exists|l: int| 0 <= l < 26 && #[trigger] normal_typing(actions@, l),
        mode == SimulationMode::Debugging ==> exists|letters: Seq<usize>, b: nat|
            3 <= letters.len() < 8 && 2 <= b < 6
            && (forall|j: int| 0 <= j < letters.len() ==> letters[j] < 26)
            && #[trigger] debugging_typing(actions@, letters, b),
        mode == SimulationMode::Reading ==> exists|l: Option<int>|
            (l matches Some(i) ==> 0 <= i < 26) && #[trigger] reading_typing(actions@, l),
{
    let mut rng = thread_rng();
    match mode {
        SimulationMode::Normal => {
            let l = random_letter(&mut rng);
            let actions = normal_round(l);
            assert(normal_typing(actions@, l as int));
            actions
        },
        SimulationMode::Debugging => {
            let burst_len = gen_range(&mut rng, 3, 8) as usize;
            let mut letters: Vec<usize> = Vec::new();
            let mut k: usize = 0;
            while k < burst_len
                invariant
                    k <= burst_len,
                    letters@.len() == k,
                    forall|j: int| 0 <= j < letters@.len() ==> letters@[j] < 26,
                decreases burst_len - k,
            {
                letters.push(random_letter(&mut rng));
                k = k + 1;
            }
            let backspaces = gen_range(&mut rng, 2, 6) as usize;
            let actions = debugging_round(&letters, backspaces);
            assert(debugging_typing(actions@, letters@, backspaces as nat));
            actions
        },
        SimulationMode::Reading => {
            let typed = if gen_ratio(&mut rng, 3, 20) {
                Some(random_letter(&mut rng))
            } else {
                None
            };
            let actions = reading_round(typed);
            let ghost l = match typed { Some(l) => Some(l as int), None => None };
            assert(reading_typing(actions@, l));
            actions
        },
    }
}

} // verus!
