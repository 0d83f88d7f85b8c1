use vstd::prelude::*;

use crate::effects::{Effect, LogEvent};
use crate::event::{HistoryMessage, MessageEvent, Verdict};
use crate::ledger::{Ledger, SanctionRecord};
use crate::mute::{after_apply, apply_effects, apply_mute, new_mute_record, DAY_MS};

verus! {

/// How many earlier messages the detector inspects.
pub const HISTORY_WINDOW: usize = 10;

/// Matching messages must fall within this span (2 minutes) to count as a burst.
pub const BURST_SPAN_MS: u64 = 120_000;

/// How long a spammer is muted: 30 minutes.
pub const SPAM_MUTE_MS: u64 = 1_800_000;

/// Only messages that mention someone, from accounts younger than a day, are inspected.
pub open spec fn spam_eligible_spec(mentions: nat, account_age_ms: u64) -> bool {
    mentions > 0 && account_age_ms < DAY_MS
}

pub open spec fn is_repeat(m: HistoryMessage, author: u64, text: Seq<char>) -> bool {
    m.author_id == author && m.text@ == text
}

/// Number of messages in `h` by `author` with exactly `text`.
pub open spec fn repeat_count(h: Seq<HistoryMessage>, author: u64, text: Seq<char>) -> nat
    decreases h.len(),
{
    if h.len() == 0 {
        0
    } else {
        repeat_count(h.drop_last(), author, text) + if is_repeat(h.last(), author, text) {
            1nat
        } else {
            0nat
        }
    }
}

/// Earliest timestamp among the repeats in `h` (meaningful when there is one).
pub open spec fn repeat_min_ts(h: Seq<HistoryMessage>, author: u64, text: Seq<char>) -> int
    decreases h.len(),
{
    if h.len() == 0 {
        0
    } else {
        let p = repeat_min_ts(h.drop_last(), author, text);
        if !is_repeat(h.last(), author, text) {
            p
        } else if repeat_count(h.drop_last(), author, text) == 0 || h.last().timestamp_ms < p {
            h.last().timestamp_ms as int
        } else {
            p
        }
    }
}

/// Latest timestamp among the repeats in `h` (meaningful when there is one).
pub open spec fn repeat_max_ts(h: Seq<HistoryMessage>, author: u64, text: Seq<char>) -> int
    decreases h.len(),
{
    if h.len() == 0 {
        0
    } else {
        let p = repeat_max_ts(h.drop_last(), author, text);
        if !is_repeat(h.last(), author, text) {
            p
        } else if repeat_count(h.drop_last(), author, text) == 0 || h.last().timestamp_ms > p {
            h.last().timestamp_ms as int
        } else {
            p
        }
    }
}

/// Number of messages in `h` by `author`.
pub open spec fn author_count(h: Seq<HistoryMessage>, author: u64) -> nat
    decreases h.len(),
{
    if h.len() == 0 {
        0
    } else {
        author_count(h.drop_last(), author) + if h.last().author_id == author {
            1nat
        } else {
            0nat
        }
    }
}

/// Total mentions in the messages of `h` by `author`.
pub open spec fn author_mentions(h: Seq<HistoryMessage>, author: u64) -> nat
    decreases h.len(),
{
    if h.len() == 0 {
        0
    } else {
        author_mentions(h.drop_last(), author) + if h.last().author_id == author {
            h.last().mention_count as nat
        } else {
            0nat
        }
    }
}

/// The repeats span less than two minutes (there must be at least two).
pub open spec fn repeats_in_burst(h: Seq<HistoryMessage>, author: u64, text: Seq<char>) -> bool {
    repeat_count(h, author, text) >= 2 && repeat_max_ts(h, author, text) - repeat_min_ts(
        h,
        author,
        text,
    ) < BURST_SPAN_MS
}

/// Repeat-content flood: more than three earlier copies of the message, in a burst.
pub open spec fn repeat_flood(h: Seq<HistoryMessage>, author: u64, text: Seq<char>) -> bool {
    repeat_count(h, author, text) > 3 && repeats_in_burst(h, author, text)
}

/// Mention flood: a default avatar, more than three earlier messages by the
/// author carrying at least 1.5 mentions each on average, and the repeats in a burst.
pub open spec fn mention_flood(
    h: Seq<HistoryMessage>,
    author: u64,
    text: Seq<char>,
    default_avatar: bool,
) -> bool {
    &&& default_avatar
    &&& author_count(h, author) > 3
    &&& 2 * author_mentions(h, author) >= 3 * author_count(h, author)
    &&& repeats_in_burst(h, author, text)
}

pub open spec fn spam_verdict(
    h: Seq<HistoryMessage>,
    author: u64,
    text: Seq<char>,
    default_avatar: bool,
) -> bool {
    repeat_flood(h, author, text) || mention_flood(h, author, text, default_avatar)
}

/// One deletion for each message of `h` by `author`, in order.
pub open spec fn author_deletions(h: Seq<HistoryMessage>, author: u64, channel: u64) -> Seq<Effect>
    decreases h.len(),
{
    if h.len() == 0 {
        Seq::empty()
    } else {
        let p = author_deletions(h.drop_last(), author, channel);
        if h.last().author_id == author {
            p.push(Effect::DeleteMessage { channel, message: h.last().id })
        } else {
            p
        }
    }
}

/// Whether the message qualifies for spam inspection at all.
pub fn spam_eligible(ev: &MessageEvent) -> (r: bool)
    ensures
        r == spam_eligible_spec(ev.mention_ids@.len(), ev.author_account_age_ms),
{
    ev.mention_ids.len() > 0 && ev.author_account_age_ms < DAY_MS
}

/// Whether `history` (the messages before `ev`) shows `ev` to be part of a
/// repeat-content or mention flood.
pub fn is_spam(ev: &MessageEvent, history: &Vec<HistoryMessage>) -> (r: bool)
    ensures
        r == spam_verdict(history@, ev.author_id, ev.text@, ev.author_has_default_avatar),
{
    let author = ev.author_id;
    let ghost text = ev.text@;
    let mut repeats: u64 = 0;
    let mut min_ts: u64 = 0;
    let mut max_ts: u64 = 0;
    let mut by_author: u64 = 0;
    let mut mentions: u128 = 0;
    let mut i: usize = 0;
    while i < history.len()
        invariant
            i <= history@.len(),
            repeats == repeat_count(history@.take(i as int), author, text),
            repeats > 0 ==> min_ts == repeat_min_ts(history@.take(i as int), author, text),
            repeats > 0 ==> max_ts == repeat_max_ts(history@.take(i as int), author, text),
            by_author == author_count(history@.take(i as int), author),
            mentions == author_mentions(history@.take(i as int), author),
            repeats > 0 ==> min_ts <= max_ts,
            repeats <= i,
            by_author <= i,
            mentions <= i * 0xffff_ffffu128,
            text == ev.text@,
            i <= usize::MAX,
        decreases history@.len() - i,
    {
        let m = &history[i];
        let ghost pre = history@.take(i as int);
        assert(history@.take(i + 1).drop_last() =~= pre);
        assert(history@.take(i + 1).last() == *m);
        if m.author_id == author {
            by_author = by_author + 1;
            mentions = mentions + m.mention_count as u128;
            if m.text == ev.text {
                if repeats == 0 || m.timestamp_ms < min_ts {
                    min_ts = m.timestamp_ms;
                }
                if repeats == 0 || m.timestamp_ms > max_ts {
                    max_ts = m.timestamp_ms;
                }
                repeats = repeats + 1;
            }
        }
        i = i + 1;
    }
    assert(history@.take(i as int) =~= history@);
    let burst = repeats >= 2 && max_ts - min_ts < BURST_SPAN_MS;
    let repeat = repeats > 3 && burst;
    let mention = ev.author_has_default_avatar && by_author > 3 && 2 * mentions >= 3 * (
    by_author as u128) && burst;
    repeat || mention
}

/// The effects of a positive verdict after the mute's own: the log entry,
/// then the removal of the author's messages in the window.
pub open spec fn spam_cleanup(
    bot_id: u64,
    author: u64,
    channel: u64,
    h: Seq<HistoryMessage>,
) -> Seq<Effect> {
    seq![Effect::Log { actor: bot_id, target: author, event: LogEvent::SpamMute { duration_ms: SPAM_MUTE_MS } }]
        + author_deletions(h, author, channel)
}

/// The spam/flood detector. An eligible message whose history shows a flood
/// gets its author muted for 30 minutes by `bot_id` with reason "spam", a log
/// entry and the deletion of the author's messages in the window; it then
/// claims the event. Any other message is left alone.
pub fn handle_spam(
    ledger: &mut Ledger,
    ev: &MessageEvent,
    history: &Vec<HistoryMessage>,
    now: u64,
    bot_id: u64,
    evidence: String,
) -> (r: (Verdict, Vec<Effect>))
    requires
        now + SPAM_MUTE_MS <= u64::MAX,
    ensures
        !(spam_eligible_spec(ev.mention_ids@.len(), ev.author_account_age_ms) && spam_verdict(
            history@,
            ev.author_id,
            ev.text@,
            ev.author_has_default_avatar,
        )) ==> r.0 == Verdict::NotApplicable && r.1@.len() == 0 && final(ledger)@ == old(ledger)@,
        (spam_eligible_spec(ev.mention_ids@.len(), ev.author_account_age_ms) && spam_verdict(
            history@,
            ev.author_id,
            ev.text@,
            ev.author_has_default_avatar,
        )) ==> {
            &&& r.0 == Verdict::HandledStop
            &&& exists|rec: SanctionRecord|
                new_mute_record(bot_id, ev.author_id, now, SPAM_MUTE_MS, "spam"@, evidence@, rec)
                    && final(ledger)@.records == after_apply(old(ledger)@.records, ev.author_id, rec)
            &&& final(ledger)@.notes == old(ledger)@.notes
            &&& r.1@ == apply_effects(ev.author_id, now, SPAM_MUTE_MS) + spam_cleanup(
                bot_id,
                ev.author_id,
                ev.channel_id,
                history@,
            )
        },
{
    if !spam_eligible(ev) || !is_spam(ev, history) {
        return (Verdict::NotApplicable, Vec::new());
    }
    let author = ev.author_id;
    let mut effects = apply_mute(
        ledger,
        bot_id,
        author,
        now,
        SPAM_MUTE_MS,
        Some(String::from_str("spam")),
        evidence,
    );
    let ghost muted = effects@;
    effects.push(
        Effect::Log { actor: bot_id, target: author, event: LogEvent::SpamMute { duration_ms: SPAM_MUTE_MS } },
    );
    let ghost logged = effects@;
    let mut i: usize = 0;
    while i < history.len()
        invariant
            i <= history@.len(),
            effects@ == logged + author_deletions(history@.take(i as int), author, ev.channel_id),
        decreases history@.len() - i,
    {
        assert(history@.take(i + 1).drop_last() =~= history@.take(i as int));
        if history[i].author_id == author {
            effects.push(Effect::DeleteMessage { channel: ev.channel_id, message: history[i].id });
        }
        assert(effects@ =~= logged + author_deletions(history@.take(i + 1), author, ev.channel_id));
        i = i + 1;
    }
    assert(history@.take(i as int) =~= history@);
    assert(effects@ =~= muted + spam_cleanup(bot_id, author, ev.channel_id, history@));
    proof {
        reveal_strlit("spam");
    }
    (Verdict::HandledStop, effects)
}

} // verus!
