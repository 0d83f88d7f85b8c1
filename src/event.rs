use vstd::prelude::*;

verus! {

/// A chat message as the detectors see it. Times are in milliseconds.
#[derive(Debug)]
pub struct MessageEvent {
    pub id: u64,
    pub author_id: u64,
    pub channel_id: u64,
    pub guild_id: u64,
    pub text: String,
    pub attachment_urls: Vec<String>,
    pub mention_ids: Vec<u64>,
    pub author_account_age_ms: u64,
    pub author_has_default_avatar: bool,
}

/// A member (re)joining a guild.
#[derive(Clone, Copy, Debug, PartialEq, Eq, Structural)]
pub struct MemberJoinEvent {
    pub user_id: u64,
    pub guild_id: u64,
}

/// An inbound event for the moderation pipeline.
#[derive(Debug)]
pub enum ModerationEvent {
    Message(MessageEvent),
    MemberJoin(MemberJoinEvent),
}

/// A message that preceded the one under inspection in the same channel.
#[derive(Debug)]
pub struct HistoryMessage {
    pub id: u64,
    pub author_id: u64,
    pub text: String,
    pub timestamp_ms: u64,
    pub mention_count: u32,
}

/// How a detector dealt with an event.
#[derive(Clone, Copy, Debug, PartialEq, Eq, Structural)]
pub enum Verdict {
    NotApplicable,
    /// Claimed the event; later detectors and the command hand-off are skipped.
    HandledStop,
    HandledContinue,
}

} // verus!
