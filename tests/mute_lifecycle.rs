use robbb_core::{
    apply_mute, expire_mute, on_rejoin, Effect, Ledger, NoteCategory, Role, SanctionKind,
    SanctionType, DAY_MS, TIMEOUT_MAX_MS,
};

const BOT: u64 = 1;
const USER: u64 = 42;
const NOW: u64 = 1_700_000_000_000;
const HOUR_MS: u64 = 3_600_000;

fn active_mutes(ledger: &Ledger, user: u64) -> usize {
    let mut n = 0;
    for id in 0..ledger.len() {
        let r = ledger.record(id).unwrap();
        if r.target_id == user {
            if let SanctionKind::Mute { active: true, .. } = r.kind {
                n += 1;
            }
        }
    }
    n
}

#[test]
fn forty_day_mute_is_role_only() {
    let mut ledger = Ledger::new();
    let effects = apply_mute(&mut ledger, BOT, USER, NOW, 40 * DAY_MS, Some("spam".to_string()), "link".to_string());
    assert_eq!(ledger.len(), 1);
    let rec = ledger.record(0).unwrap();
    assert_eq!(rec.kind, SanctionKind::Mute { start: NOW, end: NOW + 40 * DAY_MS, active: true });
    assert_eq!(rec.reason, "spam");
    assert_eq!(effects.len(), 1);
    assert!(matches!(effects[0], Effect::AssignRole { user: USER, role: Role::Mute }));
    assert!(!effects.iter().any(|e| matches!(e, Effect::Suppress { .. })));
}

#[test]
fn short_mute_also_engages_platform_timeout() {
    let mut ledger = Ledger::new();
    let effects = apply_mute(&mut ledger, BOT, USER, NOW, 30 * 60_000, None, String::new());
    assert_eq!(ledger.record(0).unwrap().reason, "no reason");
    assert_eq!(effects.len(), 2);
    assert!(matches!(effects[1], Effect::Suppress { user: USER, until } if until == NOW + 1_800_000));
}

#[test]
fn cap_boundary_is_inclusive() {
    let mut ledger = Ledger::new();
    let at_cap = apply_mute(&mut ledger, BOT, USER, NOW, TIMEOUT_MAX_MS, None, String::new());
    assert_eq!(at_cap.len(), 2);
    let over = apply_mute(&mut ledger, BOT, USER, NOW, TIMEOUT_MAX_MS + 1, None, String::new());
    assert_eq!(over.len(), 1);
}

#[test]
fn reapply_restarts_and_keeps_one_active() {
    let mut ledger = Ledger::new();
    apply_mute(&mut ledger, BOT, USER, NOW, HOUR_MS, None, String::new());
    apply_mute(&mut ledger, BOT, USER, NOW + 10, 2 * HOUR_MS, None, String::new());
    assert_eq!(ledger.len(), 2);
    assert_eq!(active_mutes(&ledger, USER), 1);
    assert_eq!(ledger.active_mute(USER), Some(1));
    assert_eq!(ledger.record(0).unwrap().kind, SanctionKind::Mute { start: NOW, end: NOW + HOUR_MS, active: false });
    assert_eq!(ledger.record(1).unwrap().kind, SanctionKind::Mute { start: NOW + 10, end: NOW + 10 + 2 * HOUR_MS, active: true });
}

#[test]
fn apply_and_expire_sequence_never_has_two_active() {
    let mut ledger = Ledger::new();
    apply_mute(&mut ledger, BOT, 7, NOW, HOUR_MS, None, String::new());
    for step in 0..6u64 {
        if step % 3 == 2 {
            let e = expire_mute(&mut ledger, USER);
            assert!(matches!(e[0], Effect::RemoveRole { user: USER, role: Role::Mute }));
        } else {
            apply_mute(&mut ledger, BOT, USER, NOW + step, HOUR_MS, None, String::new());
        }
        assert!(active_mutes(&ledger, USER) <= 1);
    }
    assert_eq!(active_mutes(&ledger, USER), 0);
    assert_eq!(active_mutes(&ledger, 7), 1);
    assert_eq!(ledger.count(USER, SanctionType::Mute), 4);
}

#[test]
fn rejoin_with_active_mute_reapplies_role() {
    let mut ledger = Ledger::new();
    apply_mute(&mut ledger, BOT, USER, NOW, 2 * HOUR_MS, None, String::new());
    let effects = on_rejoin(&mut ledger, BOT, USER, false, NOW + 60_000);
    assert_eq!(ledger.len(), 1);
    assert_eq!(ledger.count(USER, SanctionType::Mute), 1);
    assert_eq!(ledger.record(0).unwrap().kind, SanctionKind::Mute { start: NOW, end: NOW + 2 * HOUR_MS, active: true });
    assert_eq!(ledger.notes_len(), 1);
    let note = ledger.note(0).unwrap();
    assert_eq!(note.category, NoteCategory::MuteEvasion);
    assert_eq!(note.target_id, USER);
    assert_eq!(effects.len(), 2);
    assert!(matches!(effects[0], Effect::AssignRole { user: USER, role: Role::Mute }));
}

#[test]
fn rejoin_twice_gives_same_roles_and_no_new_sanction() {
    let mut ledger = Ledger::new();
    apply_mute(&mut ledger, BOT, USER, NOW, 2 * HOUR_MS, None, String::new());
    let first = on_rejoin(&mut ledger, BOT, USER, true, NOW + 1);
    let second = on_rejoin(&mut ledger, BOT, USER, true, NOW + 2);
    assert_eq!(ledger.len(), 1);
    assert_eq!(format!("{:?}", first), format!("{:?}", second));
    assert_eq!(first.len(), 4);
    assert!(matches!(first[1], Effect::AssignRole { user: USER, role: Role::Htm }));
    assert_eq!(ledger.notes_len(), 4);
}

#[test]
fn rejoin_without_mute_or_htm_does_nothing() {
    let mut ledger = Ledger::new();
    let effects = on_rejoin(&mut ledger, BOT, USER, false, NOW);
    assert!(effects.is_empty());
    assert_eq!(ledger.notes_len(), 0);
}

#[test]
fn expired_mute_is_not_reapplied_on_rejoin() {
    let mut ledger = Ledger::new();
    apply_mute(&mut ledger, BOT, USER, NOW, HOUR_MS, None, String::new());
    expire_mute(&mut ledger, USER);
    assert_eq!(ledger.active_mute(USER), None);
    assert!(on_rejoin(&mut ledger, BOT, USER, false, NOW).is_empty());
}

#[test]
fn deactivate_is_idempotent() {
    let mut ledger = Ledger::new();
    apply_mute(&mut ledger, BOT, USER, NOW, HOUR_MS, None, String::new());
    ledger.deactivate_mute(0);
    ledger.deactivate_mute(0);
    ledger.deactivate_mute(99);
    assert_eq!(ledger.record(0).unwrap().kind, SanctionKind::Mute { start: NOW, end: NOW + HOUR_MS, active: false });
    assert_eq!(ledger.len(), 1);
}
