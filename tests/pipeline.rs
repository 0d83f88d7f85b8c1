use robbb_core::{
    first_stage, format_count, highlight_applicable, kick_user, next_stage, parse_mute_duration,
    plan_notifications, strip_invisible, verdict_or_skip, warn_user, CommandError, Effect,
    HighlightError, Highlights, HistoryMessage, Ledger, MemberJoinEvent, MessageContext,
    MessageEvent, Moderation, Role, SanctionKind, Stage, Verdict, MEMBER_QUOTA,
};

const BOT: u64 = 1;
const NOW: u64 = 1_700_000_000_000;

fn message(author: u64, text: &str, mentions: usize, age_ms: u64) -> MessageEvent {
    MessageEvent {
        id: 55,
        author_id: author,
        channel_id: 8,
        guild_id: 3,
        text: text.to_string(),
        attachment_urls: Vec::new(),
        mention_ids: (0..mentions as u64).collect(),
        author_account_age_ms: age_ms,
        author_has_default_avatar: false,
    }
}

fn context(history: Option<Vec<HistoryMessage>>) -> MessageContext {
    MessageContext {
        history,
        author_is_mod: false,
        channel_excluded: false,
        now: NOW,
        bot_id: BOT,
        evidence: "https://example.invalid/m/55".to_string(),
    }
}

#[test]
fn spam_claim_skips_everything_after_it() {
    let mut m = Moderation::new();
    m.blocklist.add("buy".to_string()).unwrap();
    m.highlights.add(9, "buy", MEMBER_QUOTA).unwrap();
    let history: Vec<HistoryMessage> = (0..4)
        .map(|i| HistoryMessage { id: 10 + i, author_id: 2, text: "buy now".to_string(), timestamp_ms: NOW - i * 1000, mention_count: 1 })
        .collect();
    let ev = message(2, "buy now", 1, 60_000);
    let out = m.handle_message(&ev, context(Some(history)));
    assert_eq!(out.spam, Verdict::HandledStop);
    assert_eq!(out.blocklist, None);
    assert!(!out.run_highlights);
    assert!(!out.hand_off);
    assert_eq!(out.stages, vec![Stage::SpamCheck]);
    assert_eq!(out.verdicts, vec![Verdict::HandledStop]);
    assert_eq!(m.ledger.notes_len(), 0);
    assert_eq!(m.ledger.active_mute(2), Some(0));
    assert_eq!(m.ledger.record(0).unwrap().reason, "spam");
    assert_eq!(m.ledger.record(0).unwrap().kind, SanctionKind::Mute { start: NOW, end: NOW + 1_800_000, active: true });
    let deletions = out.effects.iter().filter(|e| matches!(e, Effect::DeleteMessage { channel: 8, .. })).count();
    assert_eq!(deletions, 4);
    assert!(out.effects.iter().any(|e| matches!(e, Effect::Suppress { user: 2, .. })));
}

#[test]
fn blocked_word_stops_before_highlights() {
    let mut m = Moderation::new();
    m.blocklist.add("foo".to_string()).unwrap();
    m.highlights.add(9, "bar", MEMBER_QUOTA).unwrap();
    let ev = message(2, "hello foo bar", 0, 10 * 86_400_000);
    let out = m.handle_message(&ev, context(None));
    assert_eq!(out.spam, Verdict::NotApplicable);
    assert_eq!(out.blocklist, Some(Verdict::HandledStop));
    assert!(!out.run_highlights);
    assert!(!out.hand_off);
    assert_eq!(out.stages, vec![Stage::SpamCheck, Stage::BlocklistCheck]);
    assert!(out.effects.iter().any(|e| matches!(e, Effect::DeleteMessage { channel: 8, message: 55 })));
    assert_eq!(out.effects.iter().filter(|e| matches!(e, Effect::Log { .. })).count(), 1);
    assert_eq!(m.ledger.notes_len(), 1);
    assert_eq!(m.ledger.len(), 0);
}

#[test]
fn unclaimed_message_reaches_highlights_and_commands() {
    let mut m = Moderation::new();
    let ev = message(2, "plain text", 0, 10 * 86_400_000);
    let out = m.handle_message(&ev, context(None));
    assert_eq!(out.blocklist, Some(Verdict::NotApplicable));
    assert!(out.run_highlights);
    assert!(out.hand_off);
    assert!(out.effects.is_empty());
    assert_eq!(out.stages, vec![Stage::SpamCheck, Stage::BlocklistCheck, Stage::HighlightScan, Stage::CommandHandoff]);
    let cmd = message(2, "!help", 0, 10 * 86_400_000);
    let out_cmd = m.handle_message(&cmd, context(None));
    assert!(!out_cmd.run_highlights);
    assert!(out_cmd.hand_off);
}

#[test]
fn stage_order_and_detector_failure() {
    assert_eq!(first_stage(), Stage::SpamCheck);
    assert_eq!(next_stage(Stage::SpamCheck, Verdict::HandledStop), Stage::Done);
    assert_eq!(next_stage(Stage::SpamCheck, Verdict::NotApplicable), Stage::BlocklistCheck);
    assert_eq!(next_stage(Stage::BlocklistCheck, Verdict::HandledStop), Stage::Done);
    assert_eq!(next_stage(Stage::BlocklistCheck, Verdict::HandledContinue), Stage::HighlightScan);
    assert_eq!(next_stage(Stage::HighlightScan, Verdict::HandledStop), Stage::CommandHandoff);
    assert_eq!(next_stage(Stage::CommandHandoff, Verdict::NotApplicable), Stage::Done);
    let failed: Result<Verdict, String> = Err("history unavailable".to_string());
    assert_eq!(verdict_or_skip(&failed), Verdict::NotApplicable);
    let ok: Result<Verdict, String> = Ok(Verdict::HandledStop);
    assert_eq!(verdict_or_skip(&ok), Verdict::HandledStop);
}

#[test]
fn rejoin_goes_through_join_handler() {
    let mut m = Moderation::new();
    robbb_core::apply_mute(&mut m.ledger, BOT, 4, NOW, 2 * 3_600_000, None, String::new());
    let effects = m.handle_join(MemberJoinEvent { user_id: 4, guild_id: 3 }, false, NOW + 5, BOT);
    assert!(matches!(effects[0], Effect::AssignRole { user: 4, role: Role::Mute }));
    assert_eq!(m.ledger.len(), 1);
    assert_eq!(m.ledger.notes_len(), 1);
}

#[test]
fn trigger_matches_case_insensitively_once() {
    let mut h = Highlights::new();
    h.add(9, "linux", MEMBER_QUOTA).unwrap();
    let ev = message(2, "I love Linux", 0, 0);
    assert!(highlight_applicable(&ev, false));
    let found = h.matching(&ev.text);
    assert_eq!(found.len(), 1);
    assert_eq!(found[0].owners, vec![9]);
    let notices = plan_notifications(&found, ev.author_id, &vec![9], ev.channel_id, ev.id);
    assert_eq!(notices.len(), 1);
    assert!(matches!(&notices[0], Effect::NoticeHighlight { user: 9, word, channel: 8, message: 55 } if word == "linux"));
}

#[test]
fn trigger_is_stored_lower_case() {
    let mut h = Highlights::new();
    h.add(9, "RuSt", MEMBER_QUOTA).unwrap();
    assert_eq!(h.triggers_for(9), vec!["rust".to_string()]);
    h.add(9, "go!", MEMBER_QUOTA).unwrap();
    h.add(10, "zig", MEMBER_QUOTA).unwrap();
    h.add(9, "c++", MEMBER_QUOTA).unwrap();
    assert_eq!(h.triggers_for(9), vec!["rust".to_string(), "go!".to_string(), "c++".to_string()]);
    assert_eq!(h.add(9, "rust", MEMBER_QUOTA), Err(HighlightError::AlreadyPresent));
}

#[test]
fn highlight_notices_skip_author_unreadable_and_duplicates() {
    let mut h = Highlights::new();
    h.add(9, "linux", MEMBER_QUOTA).unwrap();
    h.add(9, "love", MEMBER_QUOTA).unwrap();
    h.add(2, "linux", MEMBER_QUOTA).unwrap();
    h.add(11, "linux", MEMBER_QUOTA).unwrap();
    h.add(12, "windows", MEMBER_QUOTA).unwrap();
    let found = h.matching("I love Linux");
    assert_eq!(found.len(), 2);
    assert_eq!(found[0].trigger, "linux");
    assert_eq!(found[0].owners, vec![9, 2, 11]);
    assert_eq!(found[1].owners, vec![9]);
    let notices = plan_notifications(&found, 2, &vec![9, 2, 12], 8, 55);
    assert_eq!(notices.len(), 1);
    assert!(matches!(&notices[0], Effect::NoticeHighlight { user: 9, word, .. } if word == "linux"));
}

#[test]
fn removed_trigger_no_longer_matches() {
    let mut h = Highlights::new();
    h.add(9, "linux", MEMBER_QUOTA).unwrap();
    h.add(10, "linux", MEMBER_QUOTA).unwrap();
    assert_eq!(h.matching("linux rocks")[0].owners, vec![9, 10]);
    assert!(h.remove(9, "LINUX"));
    assert!(!h.remove(9, "linux"));
    let found = h.matching("linux rocks");
    assert_eq!(found.len(), 1);
    assert_eq!(found[0].owners, vec![10]);
    assert!(h.watches(10, "linux"));
    assert!(!h.watches(9, "linux"));
}

#[test]
fn highlight_quota_and_length() {
    let mut h = Highlights::new();
    assert_eq!(h.add(9, "ab", MEMBER_QUOTA), Err(HighlightError::TooShort));
    assert_eq!(h.add(9, "é", MEMBER_QUOTA), Err(HighlightError::TooShort));
    assert_eq!(h.add(8, "éa", MEMBER_QUOTA), Ok(()));
    for w in ["one", "two", "three", "four"] {
        h.add(9, w, MEMBER_QUOTA).unwrap();
    }
    assert_eq!(h.add(9, "five", MEMBER_QUOTA), Err(HighlightError::QuotaExceeded));
    assert_eq!(h.add(9, "five", 20), Ok(()));
    assert_eq!(h.count_for(9), 5);
    h.clear_for(9);
    assert_eq!(h.count_for(9), 0);
    assert_eq!(h.len(), 1);
    assert_eq!(h.triggers_for(8), vec!["éa".to_string()]);
}

#[test]
fn excluded_channel_or_command_skips_highlights() {
    assert!(!highlight_applicable(&message(2, "linux", 0, 0), true));
    assert!(!highlight_applicable(&message(2, "!hl add linux", 0, 0), false));
}

#[test]
fn ordinal_counts() {
    assert_eq!(format_count(1), "1st");
    assert_eq!(format_count(2), "2nd");
    assert_eq!(format_count(3), "3rd");
    assert_eq!(format_count(4), "4th");
    assert_eq!(format_count(0), "0th");
    assert_eq!(format_count(11), "11th");
    assert_eq!(format_count(22), "22th");
    assert_eq!(format_count(-7), "-7th");
    assert_eq!(format_count(i32::MIN), "-2147483648th");
}

#[test]
fn warn_counts_accumulate() {
    let mut ledger = Ledger::new();
    assert_eq!(warn_user(&mut ledger, 5, 6, "rude".to_string(), String::new(), NOW), 1);
    kick_user(&mut ledger, 5, 6, "rude again".to_string(), String::new(), NOW);
    assert_eq!(warn_user(&mut ledger, 5, 6, "still rude".to_string(), String::new(), NOW), 2);
    assert_eq!(warn_user(&mut ledger, 5, 7, "other".to_string(), String::new(), NOW), 1);
    assert_eq!(ledger.record(1).unwrap().kind, SanctionKind::Kick);
}

#[test]
fn mute_durations_parse() {
    assert_eq!(parse_mute_duration("2h 37min"), Ok(9_420_000));
    assert_eq!(parse_mute_duration("40days"), Ok(40 * 86_400_000));
    assert_eq!(parse_mute_duration("soon"), Err(CommandError::MalformedDuration));
    assert_eq!(parse_mute_duration("18446744073709551615s 1000ms"), Err(CommandError::DurationTextTooLong));
    assert_eq!(parse_mute_duration("5124095576030431h15s"), Err(CommandError::DurationTooLong));
}

#[test]
fn mute_command_refuses_unrepresentable_end() {
    let mut ledger = Ledger::new();
    let r = robbb_core::mute_user(&mut ledger, 5, 6, u64::MAX, None, String::new(), NOW);
    assert_eq!(r.err(), Some(CommandError::DurationTooLong));
    assert_eq!(ledger.len(), 0);
    let ok = robbb_core::mute_user(&mut ledger, 5, 6, 60_000, Some("calm down".to_string()), String::new(), NOW).unwrap();
    assert_eq!(ok.len(), 2);
    assert_eq!(ledger.record(0).unwrap().reason, "calm down");
}

#[test]
fn strips_only_invisible_characters() {
    assert_eq!(strip_invisible("a\u{200b}b\u{200c}c\u{200d}d\u{200e}e\u{200f}f\u{2060}"), "abcdef\u{2060}");
    assert_eq!(strip_invisible(""), "");
}
