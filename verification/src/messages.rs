//! The typed messages that panels exchange, and their propagation ranks.

use vstd::prelude::*;

use crate::filter::FilterMode;

verus! {

/// A keyboard event, reduced to what the panels decide on. The embedding
/// around the library maps its terminal events onto this type.
#[derive(Clone, Copy, Debug, PartialEq, Eq, Structural)]
pub enum Key {
    Up,
    Down,
    Left,
    Right,
    Enter,
    Esc,
    Backspace,
    Tab,
    CtrlC,
    Char(char),
    Other,
}

/// Whether a panel currently owns the keyboard focus.
#[derive(Clone, Copy, Debug, PartialEq, Eq, Structural)]
pub enum Focus {
    Off,
    ON,
}

/// A single-shot directive: acted on at most once per origination.
#[derive(Debug, PartialEq)]
pub enum OnceOperation {
    ShowFile { file: String },
    JumpToContentView,
    JumpToFiler,
    OpenCommitModal,
    CloseCommitModal,
    SetCommitById { commit_id: String },
    ShowHelpModal,
    CloseHelpModal,
}

/// An idempotent state-sync notification, safe to deliver to every panel.
#[derive(Debug, PartialEq)]
pub enum MultipleTimesOperation {
    Filtering { query: String, mode: FilterMode },
    SetUp,
    ChangeShowCommit,
}

/// A message travelling through the dispatcher.
#[derive(Debug, PartialEq)]
pub enum Message {
    MultipleTimes(MultipleTimesOperation),
    Once(OnceOperation),
    NoAction,
    Error { _message: String },
}

/// The propagation rank of a message. Every handler must answer a message
/// with one of strictly smaller rank (or `NoAction`), so any chain of
/// follow-up messages is finite and dispatch terminates.
///
/// `SetCommitById` sits above the sync notifications because handling it
/// re-issues both a modal close and a "displayed commit changed" broadcast.
pub open spec fn message_rank(m: &Message) -> nat {
    match m {
        Message::Once(OnceOperation::SetCommitById { .. }) => 3,
        Message::MultipleTimes(_) => 2,
        Message::Once(_) => 1,
        Message::NoAction => 0,
        Message::Error { .. } => 0,
    }
}

/// A reply that a handler may give to `m` without breaking the descent of
/// ranks that bounds message propagation: `NoAction`, or anything of
/// strictly smaller rank.
pub open spec fn reply_ok(m: &Message, r: &Message) -> bool {
    message_rank(r) < message_rank(m) || r is NoAction
}

} // verus!
