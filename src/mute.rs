use vstd::prelude::*;

use crate::effects::{Effect, LogEvent, Role};
use crate::ledger::{
    cleared_mutes, is_active_mute_of, single_active_mute, is_latest_active_mute, Annotation, Ledger, NoteCategory, SanctionKind,
    SanctionRecord,
};

verus! {

/// One day in milliseconds.
pub const DAY_MS: u64 = 86_400_000;

/// Longest native timeout the platform accepts: 28 days, in milliseconds.
pub const TIMEOUT_MAX_MS: u64 = 2_419_200_000;

/// The reason stored when a mute is applied without one.
pub open spec fn reason_or_default(reason: Option<String>) -> Seq<char> {
    match reason {
        Some(r) => r@,
        None => "no reason"@,
    }
}

/// The record that `apply_mute` writes.
pub open spec fn new_mute_record(
    actor: u64,
    user: u64,
    now: u64,
    duration_ms: u64,
    reason: Seq<char>,
    evidence: Seq<char>,
    rec: SanctionRecord,
) -> bool {
    &&& rec.actor_id == actor
    &&& rec.target_id == user
    &&& rec.kind == SanctionKind::Mute { start: now, end: (now + duration_ms) as u64, active: true }
    &&& rec.reason@ == reason
    &&& rec.created_at == now
    &&& rec.evidence_ref@ == evidence
}

/// The ledger's sanctions after a mute is applied to `user`: every earlier
/// active mute of that user deactivated, then the new record appended.
pub open spec fn after_apply(
    rs: Seq<SanctionRecord>,
    user: u64,
    rec: SanctionRecord,
) -> Seq<SanctionRecord> {
    cleared_mutes(rs, user).push(rec)
}

/// The effects of applying a mute: the role always; the platform timeout as
/// well when the duration is within its cap.
pub open spec fn apply_effects(user: u64, now: u64, duration_ms: u64) -> Seq<Effect> {
    let role = seq![Effect::AssignRole { user, role: Role::Mute }];
    if duration_ms <= TIMEOUT_MAX_MS {
        role.push(Effect::Suppress { user, until: (now + duration_ms) as u64 })
    } else {
        role
    }
}

/// The effects of rejoining: the HTM role and its log entry when the flag is
/// set, then the mute role and its log entry when a mute is active.
pub open spec fn rejoin_effects(actor: u64, user: u64, htm: bool, mute: Option<usize>) -> Seq<
    Effect,
> {
    let h = if htm {
        seq![
            Effect::Log { actor, target: user, event: LogEvent::HtmEvasion },
            Effect::AssignRole { user, role: Role::Htm },
        ]
    } else {
        Seq::empty()
    };
    match mute {
        Some(id) => h + seq![
            Effect::AssignRole { user, role: Role::Mute },
            Effect::Log { actor, target: user, event: LogEvent::MuteEvasion { mute_id: id } },
        ],
        None => h,
    }
}

/// The notes written on rejoining, by category, one per evasion caught.
pub open spec fn rejoin_note_categories(htm: bool, mute: Option<usize>) -> Seq<NoteCategory> {
    let h = if htm {
        seq![NoteCategory::HtmEvasion]
    } else {
        Seq::empty()
    };
    if mute.is_some() {
        h.push(NoteCategory::MuteEvasion)
    } else {
        h
    }
}

/// The notes appended to `before` to give `after` are system notes about
/// `user`, written at `now`, of the given categories in order.
pub open spec fn appended_notes(
    before: Seq<Annotation>,
    after: Seq<Annotation>,
    actor: u64,
    user: u64,
    now: u64,
    cats: Seq<NoteCategory>,
) -> bool {
    &&& after.len() == before.len() + cats.len()
    &&& after.subrange(0, before.len() as int) == before
    &&& forall|k: int|
        0 <= k < cats.len() ==> {
            let n = #[trigger] after[before.len() + k];
            &&& n.actor_id == actor
            &&& n.target_id == user
            &&& n.created_at == now
            &&& n.category == cats[k]
        }
}

/// Mutes `user` for `duration_ms` from `now`, restarting any mute already in
/// force. The ledger record is the authority; the returned effects grant the
/// mute role and, for durations within the platform cap, the native timeout.
pub fn apply_mute(
    ledger: &mut Ledger,
    actor: u64,
    user: u64,
    now: u64,
    duration_ms: u64,
    reason: Option<String>,
    evidence: String,
) -> (effects: Vec<Effect>)
    requires
        now + duration_ms <= u64::MAX,
    ensures
        exists|rec: SanctionRecord|
            new_mute_record(actor, user, now, duration_ms, reason_or_default(reason), evidence@, rec)
                && final(ledger)@.records == after_apply(old(ledger)@.records, user, rec),
        final(ledger)@.notes == old(ledger)@.notes,
        effects@ == apply_effects(user, now, duration_ms),
{
    let end = now + duration_ms;
    ledger.deactivate_mutes_of(user);
    let reason_text = match reason {
        Some(r) => r,
        None => String::from_str("no reason"),
    };
    let rec = SanctionRecord {
        actor_id: actor,
        target_id: user,
        kind: SanctionKind::Mute { start: now, end, active: true },
        reason: reason_text,
        created_at: now,
        evidence_ref: evidence,
    };
    let ghost g = rec;
    ledger.append(rec);
    let mut effects = Vec::new();
    effects.push(Effect::AssignRole { user, role: Role::Mute });
    if duration_ms <= TIMEOUT_MAX_MS {
        effects.push(Effect::Suppress { user, until: end });
    }
    proof {
        reveal_strlit("no reason");
        assert(new_mute_record(actor, user, now, duration_ms, reason_or_default(reason), evidence@, g));
    }
    assert(ledger@.records == after_apply(old(ledger)@.records, user, g));
    assert(effects@ =~= apply_effects(user, now, duration_ms));
    effects
}

/// Ends every mute of `user` in force and revokes the mute role.
pub fn expire_mute(ledger: &mut Ledger, user: u64) -> (effects: Vec<Effect>)
    ensures
        final(ledger)@.records == cleared_mutes(old(ledger)@.records, user),
        final(ledger)@.notes == old(ledger)@.notes,
        effects@ == seq![Effect::RemoveRole { user, role: Role::Mute }],
{
    ledger.deactivate_mutes_of(user);
    let mut effects = Vec::new();
    effects.push(Effect::RemoveRole { user, role: Role::Mute });
    assert(effects@ =~= seq![Effect::RemoveRole { user, role: Role::Mute }]);
    effects
}

fn evasion_note(actor: u64, user: u64, now: u64, category: NoteCategory, text: &str) -> (n:
    Annotation)
    ensures
        n.actor_id == actor,
        n.target_id == user,
        n.created_at == now,
        n.category == category,
        n.note_text@ == text@,
{
    Annotation {
        actor_id: actor,
        target_id: user,
        note_text: String::from_str(text),
        created_at: now,
        category,
    }
}

/// Handles a user rejoining. A user flagged `htm` gets that role back; a user
/// with an active mute gets the mute role back. Each evasion caught is noted in
/// the ledger; no sanction is written and the mute's timing is left as it was.
pub fn on_rejoin(ledger: &mut Ledger, actor: u64, user: u64, htm: bool, now: u64) -> (effects: Vec<
    Effect,
>)
    ensures
        final(ledger)@.records == old(ledger)@.records,
        exists|m: Option<usize>|
            is_latest_active_mute(old(ledger)@.records, user, m) && effects@ == rejoin_effects(
                actor,
                user,
                htm,
                m,
            ) && appended_notes(
                old(ledger)@.notes,
                final(ledger)@.notes,
                actor,
                user,
                now,
                rejoin_note_categories(htm, m),
            ),
{
    let ghost notes0 = ledger@.notes;
    let mut effects = Vec::new();
    if htm {
        effects.push(Effect::Log { actor, target: user, event: LogEvent::HtmEvasion });
        effects.push(Effect::AssignRole { user, role: Role::Htm });
        ledger.add_note(
            evasion_note(actor, user, now, NoteCategory::HtmEvasion, "rejoined with HTM; role re-applied"),
        );
    }
    let m = ledger.active_mute(user);
    if let Some(id) = m {
        effects.push(Effect::AssignRole { user, role: Role::Mute });
        effects.push(Effect::Log { actor, target: user, event: LogEvent::MuteEvasion { mute_id: id } });
        ledger.add_note(
            evasion_note(actor, user, now, NoteCategory::MuteEvasion, "mute evasion detected; mute role re-applied"),
        );
    }
    assert(effects@ =~= rejoin_effects(actor, user, htm, m));
    let ghost cats = rejoin_note_categories(htm, m);
    assert(ledger@.notes.subrange(0, notes0.len() as int) =~= notes0);
    assert(appended_notes(notes0, ledger@.notes, actor, user, now, cats));
    effects
}

/// One call of the mute lifecycle for a single user, as the ledger sees it.
pub enum MuteStep {
    /// `apply_mute`, writing the given record.
    Apply(SanctionRecord),
    /// `expire_mute`.
    Expire,
}

/// The ledger's sanctions after running `steps` for `user` one after another.
pub open spec fn run_steps(rs: Seq<SanctionRecord>, user: u64, steps: Seq<MuteStep>) -> Seq<
    SanctionRecord,
>
    decreases steps.len(),
{
    if steps.len() == 0 {
        rs
    } else {
        let next = match steps[0] {
            MuteStep::Apply(rec) => after_apply(rs, user, rec),
            MuteStep::Expire => cleared_mutes(rs, user),
        };
        run_steps(next, user, steps.drop_first())
    }
}

proof fn lemma_cleared_has_none(rs: Seq<SanctionRecord>, user: u64)
    ensures
        forall|i: int|
            0 <= i < rs.len() ==> !is_active_mute_of(#[trigger] cleared_mutes(rs, user)[i], user),
{
}

/// Whatever the ledger held before, a single apply or expire for a user
/// leaves at most one active mute of that user.
pub proof fn lemma_step_single_active(rs: Seq<SanctionRecord>, user: u64, step: MuteStep)
    ensures
        single_active_mute(
            match step {
                MuteStep::Apply(rec) => after_apply(rs, user, rec),
                MuteStep::Expire => cleared_mutes(rs, user),
            },
            user,
        ),
{
    lemma_cleared_has_none(rs, user);
    match step {
        MuteStep::Apply(rec) => {
            let a = after_apply(rs, user, rec);
            assert forall|i: int, j: int|
                0 <= i < a.len() && 0 <= j < a.len() && #[trigger] is_active_mute_of(a[i], user)
                    && #[trigger] is_active_mute_of(a[j], user) implies i == j by {
                if i < rs.len() {
                    assert(a[i] == cleared_mutes(rs, user)[i]);
                }
                if j < rs.len() {
                    assert(a[j] == cleared_mutes(rs, user)[j]);
                }
            }
        },
        MuteStep::Expire => {},
    }
}

/// After any sequence of non-concurrent apply and expire calls for one user,
/// at most one active mute of that user exists, provided that held at the
/// start or at least one call was made.
pub proof fn lemma_single_active_mute(rs: Seq<SanctionRecord>, user: u64, steps: Seq<MuteStep>)
    requires
        single_active_mute(rs, user) || steps.len() > 0,
    ensures
        single_active_mute(run_steps(rs, user, steps), user),
    decreases steps.len(),
{
    if steps.len() > 0 {
        lemma_step_single_active(rs, user, steps[0]);
        let next = match steps[0] {
            MuteStep::Apply(rec) => after_apply(rs, user, rec),
            MuteStep::Expire => cleared_mutes(rs, user),
        };
        lemma_single_active_mute(next, user, steps.drop_first());
    }
}

/// Rejoining twice in a row gives the same outcome: `on_rejoin` leaves the
/// sanctions as they were, so the second call finds the same active mute
/// (the most recent one is unique) and hands back the same effects.
pub proof fn lemma_rejoin_idempotent(
    rs: Seq<SanctionRecord>,
    actor: u64,
    user: u64,
    htm: bool,
    first: Option<usize>,
    second: Option<usize>,
)
    requires
        is_latest_active_mute(rs, user, first),
        is_latest_active_mute(rs, user, second),
    ensures
        first == second,
        rejoin_effects(actor, user, htm, first) == rejoin_effects(actor, user, htm, second),
        rejoin_note_categories(htm, first) == rejoin_note_categories(htm, second),
{
    match (first, second) {
        (Some(a), Some(b)) => {
            if a < b {
                assert(is_active_mute_of(rs[b as int], user));
            } else if b < a {
                assert(is_active_mute_of(rs[a as int], user));
            }
        },
        (Some(a), None) => {
            assert(is_active_mute_of(rs[a as int], user));
        },
        (None, Some(b)) => {
            assert(is_active_mute_of(rs[b as int], user));
        },
        (None, None) => {},
    }
}

} // verus!
