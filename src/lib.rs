//! Automated moderation core: a sanction ledger, the mute lifecycle, the
//! spam/flood heuristic, the blocklist matcher, highlight triggers and the
//! ordered detector pipeline that ties them together.
//!
//! Every decision is made on plain values. The host runtime performs the
//! effects that these functions hand back (role changes, deletions, private
//! notices, log entries) and feeds in what only it can observe (the time,
//! channel history, permissions).

pub mod blocklist;
pub mod commands;
pub mod effects;
pub mod event;
pub mod highlights;
pub mod ledger;
pub mod mute;
pub mod pipeline;
pub mod spam;
pub mod text;
pub mod trigger_index;

pub use blocklist::{blocklist_outcome, handle_blocklist, Blocklist, BlocklistError};
pub use commands::{
    format_count, kick_user, mute_user, parse_mute_duration, warn_user, CommandError,
};
pub use effects::{Effect, LogEvent, Role};
pub use event::{HistoryMessage, MemberJoinEvent, MessageEvent, ModerationEvent, Verdict};
pub use highlights::{
    highlight_applicable, plan_notifications, HighlightEntry, HighlightError, Highlights,
    MEMBER_QUOTA, MIN_TRIGGER_LEN, PRIVILEGED_QUOTA,
};
pub use ledger::{
    Annotation, Ledger, LedgerView, NoteCategory, SanctionKind, SanctionRecord, SanctionType,
};
pub use mute::{apply_mute, expire_mute, on_rejoin, DAY_MS, TIMEOUT_MAX_MS};
pub use pipeline::{
    first_stage, next_stage, verdict_or_skip, DispatchOutcome, MessageContext, Moderation, Stage,
};
pub use spam::{
    handle_spam, is_spam, spam_eligible, BURST_SPAN_MS, HISTORY_WINDOW, SPAM_MUTE_MS,
};
pub use text::{chars_of, contains_chars, same_text, starts_with, strip_invisible};
pub use trigger_index::TriggerGroup;
