use vstd::prelude::*;

verus! {

/// A role that the moderation core asks the platform to grant or revoke.
#[derive(Clone, Copy, Debug, PartialEq, Eq, Structural)]
pub enum Role {
    /// The ledger-backed marker of an active mute.
    Mute,
    /// The marker of a user with a history of temporary measures.
    Htm,
}

/// What a moderation-log entry reports.
#[derive(Debug)]
pub enum LogEvent {
    SpamMute { duration_ms: u64 },
    /// A message removed for `word`; `text` is what the message said.
    BlockedWord { word: String, text: String },
    MuteEvasion { mute_id: usize },
    HtmEvasion,
}

/// An action for the host platform to carry out. Each one is performed on its
/// own: the failure of one does not cancel the others.
#[derive(Debug)]
pub enum Effect {
    AssignRole { user: u64, role: Role },
    RemoveRole { user: u64, role: Role },
    /// Engage the platform's native timed suppression until `until` (ms).
    Suppress { user: u64, until: u64 },
    DeleteMessage { channel: u64, message: u64 },
    /// Tell the author privately which blocked word removed their message,
    /// quoting the message `text`.
    NoticeBlockedWord { user: u64, word: String, text: String },
    /// Tell a watcher privately that one of their triggers was mentioned.
    NoticeHighlight { user: u64, word: String, channel: u64, message: u64 },
    Log { actor: u64, target: u64, event: LogEvent },
}

} // verus!
