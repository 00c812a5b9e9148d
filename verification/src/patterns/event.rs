use vstd::prelude::*;

verus! {

/// A pattern recognised in the recent sensor events.
///
/// Rates are kept as the integers they are computed from: the backspace
/// ratio is `backspaces / total` over the last 5 s, the typing burst rate is
/// `keys / 2` keys per second over the last 2 s, and the window instability
/// rate is `changes * 2` changes per minute over the last 30 s.
#[derive(Debug, Clone)]
pub enum PatternEvent {
    RepeatedWindowTitle { title: String, count: u32 },
    HighBackspaceRate { backspaces: usize, total: usize },
    TypingBurst { keys: usize },
    WindowInstability { changes: usize },
}

} // verus!
