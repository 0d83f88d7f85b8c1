use robbb_core::{
    handle_blocklist, is_spam, spam_eligible, Blocklist, BlocklistError, Effect, HistoryMessage,
    Ledger, LogEvent, MessageEvent, NoteCategory, Verdict, DAY_MS,
};

const AUTHOR: u64 = 500;
const BOT: u64 = 1;
const NOW: u64 = 1_700_000_000_000;

fn message(text: &str, mentions: usize, age_ms: u64, default_avatar: bool) -> MessageEvent {
    MessageEvent {
        id: 9_000,
        author_id: AUTHOR,
        channel_id: 77,
        guild_id: 3,
        text: text.to_string(),
        attachment_urls: Vec::new(),
        mention_ids: (0..mentions as u64).map(|m| 100 + m).collect(),
        author_account_age_ms: age_ms,
        author_has_default_avatar: default_avatar,
    }
}

fn prior(id: u64, author: u64, text: &str, ts: u64, mentions: u32) -> HistoryMessage {
    HistoryMessage { id, author_id: author, text: text.to_string(), timestamp_ms: ts, mention_count: mentions }
}

#[test]
fn account_exactly_one_day_old_is_not_eligible() {
    assert!(!spam_eligible(&message("hi @a", 1, DAY_MS, true)));
    assert!(!spam_eligible(&message("hi @a", 1, 24 * 3_600_000, true)));
}

#[test]
fn account_just_under_one_day_is_eligible() {
    let just_under = (23 * 3600 + 59 * 60 + 59) * 1000;
    assert!(spam_eligible(&message("hi @a", 1, just_under, true)));
}

#[test]
fn message_without_mentions_is_not_eligible() {
    assert!(!spam_eligible(&message("hi", 0, 1000, true)));
}

#[test]
fn three_duplicates_are_not_spam_four_are() {
    let ev = message("@everyone buy now", 1, 1000, false);
    let three: Vec<HistoryMessage> = (0..3).map(|i| prior(i + 1, AUTHOR, "@everyone buy now", NOW - i * 30_000, 0)).collect();
    assert!(!is_spam(&ev, &three));
    let four: Vec<HistoryMessage> = (0..4).map(|i| prior(i + 1, AUTHOR, "@everyone buy now", NOW - i * 30_000, 0)).collect();
    assert!(is_spam(&ev, &four));
}

#[test]
fn duplicates_spread_over_two_minutes_are_not_spam() {
    let ev = message("@everyone buy now", 1, 1000, false);
    let spread: Vec<HistoryMessage> = (0..5).map(|i| prior(i + 1, AUTHOR, "@everyone buy now", NOW - i * 30_000, 0)).collect();
    assert!(!is_spam(&ev, &spread));
    let just_inside: Vec<HistoryMessage> = (0..5).map(|i| prior(i + 1, AUTHOR, "@everyone buy now", NOW - i * 29_999, 0)).collect();
    assert!(is_spam(&ev, &just_inside));
}

#[test]
fn other_authors_and_texts_do_not_count() {
    let ev = message("@everyone buy now", 1, 1000, false);
    let mut h = vec![
        prior(1, AUTHOR, "@everyone buy now", NOW, 0),
        prior(2, AUTHOR, "@everyone buy now", NOW - 1000, 0),
        prior(3, AUTHOR, "@everyone buy now", NOW - 2000, 0),
    ];
    h.push(prior(4, 999, "@everyone buy now", NOW - 3000, 0));
    h.push(prior(5, AUTHOR, "something else", NOW - 4000, 0));
    assert!(!is_spam(&ev, &h));
}

#[test]
fn mention_flood_needs_default_avatar() {
    let ev_default = message("@a @b hi", 2, 1000, true);
    let ev_custom = message("@a @b hi", 2, 1000, false);
    let h = vec![
        prior(1, AUTHOR, "@a @b hi", NOW, 2),
        prior(2, AUTHOR, "@a @b hi", NOW - 1000, 2),
        prior(3, AUTHOR, "other @c @d", NOW - 2000, 2),
        prior(4, AUTHOR, "more @e", NOW - 3000, 0),
    ];
    assert!(is_spam(&ev_default, &h));
    assert!(!is_spam(&ev_custom, &h));
}

#[test]
fn mention_flood_needs_one_and_a_half_mentions_each() {
    let ev = message("@a @b hi", 2, 1000, true);
    let h = vec![
        prior(1, AUTHOR, "@a @b hi", NOW, 2),
        prior(2, AUTHOR, "@a @b hi", NOW - 1000, 2),
        prior(3, AUTHOR, "other @c", NOW - 2000, 1),
        prior(4, AUTHOR, "more @e", NOW - 3000, 0),
    ];
    assert!(!is_spam(&ev, &h));
}

#[test]
fn blocked_word_deletes_notes_and_stops() {
    let mut ledger = Ledger::new();
    let mut bl = Blocklist::new();
    assert_eq!(bl.add("foo".to_string()), Ok(()));
    let ev = message("hello foo bar", 0, DAY_MS * 100, false);
    let (verdict, effects) = handle_blocklist(&mut ledger, &mut bl, &ev, false, NOW, BOT).unwrap();
    assert_eq!(verdict, Verdict::HandledStop);
    assert_eq!(effects.len(), 3);
    assert!(matches!(&effects[0], Effect::NoticeBlockedWord { user: AUTHOR, word, text } if word == "foo" && text == "hello foo bar"));
    assert!(matches!(&effects[1], Effect::Log { actor: BOT, target: AUTHOR, event: LogEvent::BlockedWord { word, text } } if word == "foo" && text == "hello foo bar"));
    assert!(matches!(effects[2], Effect::DeleteMessage { channel: 77, message: 9_000 }));
    assert_eq!(ledger.notes_len(), 1);
    let note = ledger.note(0).unwrap();
    assert_eq!(note.category, NoteCategory::BlocklistViolation);
    assert_eq!(note.target_id, AUTHOR);
    assert_eq!(note.note_text, "Message deleted because of word `foo`");
    assert_eq!(ledger.len(), 0);
}

#[test]
fn invisible_characters_do_not_hide_a_blocked_word() {
    let mut ledger = Ledger::new();
    let mut bl = Blocklist::new();
    bl.add("foo".to_string()).unwrap();
    let ev = message("f\u{200b}o\u{200d}o!", 0, DAY_MS, false);
    let (verdict, effects) = handle_blocklist(&mut ledger, &mut bl, &ev, false, NOW, BOT).unwrap();
    assert_eq!(verdict, Verdict::HandledStop);
    assert!(matches!(&effects[0], Effect::NoticeBlockedWord { word, .. } if word == "foo"));
}

#[test]
fn clean_message_passes_blocklist() {
    let mut ledger = Ledger::new();
    let mut bl = Blocklist::new();
    bl.add("foo".to_string()).unwrap();
    bl.add("ba+r".to_string()).unwrap();
    let ev = message("nothing to see", 0, DAY_MS, false);
    let (verdict, effects) = handle_blocklist(&mut ledger, &mut bl, &ev, false, NOW, BOT).unwrap();
    assert_eq!(verdict, Verdict::NotApplicable);
    assert!(effects.is_empty());
    let ev2 = message("a baaar here", 0, DAY_MS, false);
    let (verdict2, effects2) = handle_blocklist(&mut ledger, &mut bl, &ev2, false, NOW, BOT).unwrap();
    assert_eq!(verdict2, Verdict::HandledStop);
    assert!(matches!(&effects2[0], Effect::NoticeBlockedWord { word, .. } if word == "baaar"));
}

#[test]
fn moderator_managing_blocklist_is_exempt() {
    let mut ledger = Ledger::new();
    let mut bl = Blocklist::new();
    bl.add("foo".to_string()).unwrap();
    let ev = message("!blocklist remove foo", 0, DAY_MS, false);
    let (verdict, _) = handle_blocklist(&mut ledger, &mut bl, &ev, true, NOW, BOT).unwrap();
    assert_eq!(verdict, Verdict::NotApplicable);
    let (verdict_member, _) = handle_blocklist(&mut ledger, &mut bl, &ev, false, NOW, BOT).unwrap();
    assert_eq!(verdict_member, Verdict::HandledStop);
}

#[test]
fn invalid_pattern_is_refused() {
    let mut bl = Blocklist::new();
    assert_eq!(bl.add("foo(".to_string()), Err(BlocklistError::InvalidPattern));
    assert_eq!(bl.len(), 0);
}

#[test]
fn blocklist_is_a_set_and_removal_takes_effect() {
    let mut ledger = Ledger::new();
    let mut bl = Blocklist::new();
    bl.add("foo".to_string()).unwrap();
    bl.add("foo".to_string()).unwrap();
    bl.add("bar".to_string()).unwrap();
    assert_eq!(bl.len(), 2);
    assert_eq!(bl.combined_source(), "foo|bar");
    let ev = message("foo", 0, DAY_MS, false);
    assert_eq!(handle_blocklist(&mut ledger, &mut bl, &ev, false, NOW, BOT).unwrap().0, Verdict::HandledStop);
    assert!(bl.remove("foo"));
    assert!(!bl.remove("foo"));
    assert!(!bl.contains("foo"));
    assert_eq!(handle_blocklist(&mut ledger, &mut bl, &ev, false, NOW, BOT).unwrap().0, Verdict::NotApplicable);
}

#[test]
fn empty_blocklist_matches_nothing() {
    let mut ledger = Ledger::new();
    let mut bl = Blocklist::new();
    let ev = message("anything", 0, DAY_MS, false);
    assert_eq!(handle_blocklist(&mut ledger, &mut bl, &ev, false, NOW, BOT).unwrap().0, Verdict::NotApplicable);
}

#[test]
fn oversized_combined_pattern_reports_unavailable_matcher() {
    let mut ledger = Ledger::new();
    let mut bl = Blocklist::new();
    for n in 100..112 {
        assert_eq!(bl.add(format!("\\w{{{}}}", n)), Ok(()));
    }
    let ev = message("short text", 0, DAY_MS, false);
    let r = handle_blocklist(&mut ledger, &mut bl, &ev, false, NOW, BOT);
    assert_eq!(r.err(), Some(BlocklistError::MatcherUnavailable));
    assert_eq!(ledger.notes_len(), 0);
}
