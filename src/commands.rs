use vstd::prelude::*;

use crate::effects::Effect;
use crate::ledger::{count_of, Ledger, SanctionKind, SanctionRecord, SanctionType};
use crate::mute::{after_apply, apply_effects, apply_mute, new_mute_record, reason_or_default};

verus! {

/// The duration humantime reads from `s`, in whole milliseconds, or `None`
/// when it rejects the text.
pub uninterp spec fn humantime_ms(s: Seq<char>) -> Option<nat>;

/// Longest duration text accepted, in characters. Longer texts can reach a
/// total of `u64::MAX` seconds plus a carried second, on which humantime panics.
pub const MAX_DURATION_TEXT: usize = 20;

/// Relies on `humantime::parse_duration` (and `Duration::as_millis`): whether
/// the text parses, and to what, depends on the text alone.
#[verifier::external_body]
fn humantime_millis(s: &str) -> (r: Option<u128>)
    requires
        s@.len() <= MAX_DURATION_TEXT,
    ensures
        r matches Some(ms) ==> humantime_ms(s@) == Some(ms as nat),
        r is None ==> humantime_ms(s@) is None,
{
    humantime::parse_duration(s).ok().map(|d| d.as_millis())
}

/// Why a moderator's command was refused; shown to the moderator.
#[derive(Clone, Copy, Debug, PartialEq, Eq, Structural)]
pub enum CommandError {
    MalformedDuration,
    /// The duration text is longer than `MAX_DURATION_TEXT` characters.
    DurationTextTooLong,
    /// The mute would end beyond the representable time range.
    DurationTooLong,
}

/// Reads a mute duration such as `2h 30min`, in milliseconds. Texts longer
/// than `MAX_DURATION_TEXT` characters are refused before parsing.
pub fn parse_mute_duration(text: &str) -> (r: Result<u64, CommandError>)
    ensures
        text@.len() > MAX_DURATION_TEXT ==> r == Err::<u64, CommandError>(
            CommandError::DurationTextTooLong,
        ),
        text@.len() <= MAX_DURATION_TEXT ==> r == match humantime_ms(text@) {
            None => Err::<u64, CommandError>(CommandError::MalformedDuration),
            Some(ms) => if ms <= u64::MAX {
                Ok::<u64, CommandError>(ms as u64)
            } else {
                Err::<u64, CommandError>(CommandError::DurationTooLong)
            },
        },
{
    if text.unicode_len() > MAX_DURATION_TEXT {
        return Err(CommandError::DurationTextTooLong);
    }
    match humantime_millis(text) {
        None => Err(CommandError::MalformedDuration),
        Some(ms) => if ms <= u64::MAX as u128 {
            Ok(ms as u64)
        } else {
            Err(CommandError::DurationTooLong)
        },
    }
}

/// A moderator mutes `user` for `duration_ms` from `now`. Refused, with the
/// ledger untouched, when the end time would not be representable.
pub fn mute_user(
    ledger: &mut Ledger,
    actor: u64,
    user: u64,
    duration_ms: u64,
    reason: Option<String>,
    evidence: String,
    now: u64,
) -> (r: Result<Vec<Effect>, CommandError>)
    ensures
        now + duration_ms > u64::MAX ==> r == Err::<Vec<Effect>, CommandError>(
            CommandError::DurationTooLong,
        ) && final(ledger)@ == old(ledger)@,
        now + duration_ms <= u64::MAX ==> r is Ok,
        r matches Ok(effects) ==> {
            &&& exists|rec: SanctionRecord|
                new_mute_record(
                    actor,
                    user,
                    now,
                    duration_ms,
                    reason_or_default(reason),
                    evidence@,
                    rec,
                ) && final(ledger)@.records == after_apply(old(ledger)@.records, user, rec)
            &&& final(ledger)@.notes == old(ledger)@.notes
            &&& effects@ == apply_effects(user, now, duration_ms)
        },
{
    if duration_ms > u64::MAX - now {
        return Err(CommandError::DurationTooLong);
    }
    Ok(apply_mute(ledger, actor, user, now, duration_ms, reason, evidence))
}

/// Records a warning against `user` and returns how many warnings they now
/// have, this one included.
pub fn warn_user(
    ledger: &mut Ledger,
    actor: u64,
    user: u64,
    reason: String,
    evidence: String,
    now: u64,
) -> (n: usize)
    ensures
        final(ledger)@.notes == old(ledger)@.notes,
        final(ledger)@.records.len() == old(ledger)@.records.len() + 1,
        final(ledger)@.records.drop_last() == old(ledger)@.records,
        ({
            let w = final(ledger)@.records.last();
            &&& w.actor_id == actor
            &&& w.target_id == user
            &&& w.kind == SanctionKind::Warn
            &&& w.reason@ == reason@
            &&& w.created_at == now
            &&& w.evidence_ref@ == evidence@
        }),
        n == count_of(old(ledger)@.records, user, SanctionType::Warn) + 1,
        n == count_of(final(ledger)@.records, user, SanctionType::Warn),
{
    ledger.append(
        SanctionRecord {
            actor_id: actor,
            target_id: user,
            kind: SanctionKind::Warn,
            reason,
            created_at: now,
            evidence_ref: evidence,
        },
    );
    assert(ledger@.records.drop_last() =~= old(ledger)@.records);
    ledger.count(user, SanctionType::Warn)
}

/// Records a kick of `user`; returns the record's id.
pub fn kick_user(
    ledger: &mut Ledger,
    actor: u64,
    user: u64,
    reason: String,
    evidence: String,
    now: u64,
) -> (id: usize)
    ensures
        id == old(ledger)@.records.len(),
        final(ledger)@.notes == old(ledger)@.notes,
        final(ledger)@.records.len() == old(ledger)@.records.len() + 1,
        final(ledger)@.records.drop_last() == old(ledger)@.records,
        ({
            let k = final(ledger)@.records.last();
            &&& k.actor_id == actor
            &&& k.target_id == user
            &&& k.kind == SanctionKind::Kick
            &&& k.reason@ == reason@
            &&& k.created_at == now
            &&& k.evidence_ref@ == evidence@
        }),
{
    let id = ledger.append(
        SanctionRecord {
            actor_id: actor,
            target_id: user,
            kind: SanctionKind::Kick,
            reason,
            created_at: now,
            evidence_ref: evidence,
        },
    );
    assert(ledger@.records.drop_last() =~= old(ledger)@.records);
    id
}

pub open spec fn digit_char(d: nat) -> char {
    if d == 0 {
        '0'
    } else if d == 1 {
        '1'
    } else if d == 2 {
        '2'
    } else if d == 3 {
        '3'
    } else if d == 4 {
        '4'
    } else if d == 5 {
        '5'
    } else if d == 6 {
        '6'
    } else if d == 7 {
        '7'
    } else if d == 8 {
        '8'
    } else {
        '9'
    }
}

/// The decimal digits of `n`, most significant first.
pub open spec fn decimal(n: nat) -> Seq<char>
    decreases n,
{
    if n < 10 {
        seq![digit_char(n)]
    } else {
        decimal(n / 10).push(digit_char(n % 10))
    }
}

/// `n` in decimal, with a leading `-` when negative.
pub open spec fn signed_decimal(n: int) -> Seq<char> {
    if n < 0 {
        seq!['-'] + decimal((-n) as nat)
    } else {
        decimal(n as nat)
    }
}

/// How a count reads as an ordinal: `1st`, `2nd`, `3rd`, otherwise the
/// number followed by `th`.
pub open spec fn ordinal_text(n: int) -> Seq<char> {
    if n == 1 {
        "1st"@
    } else if n == 2 {
        "2nd"@
    } else if n == 3 {
        "3rd"@
    } else {
        signed_decimal(n) + "th"@
    }
}

fn digit_str(d: u64) -> (r: &'static str)
    requires
        d < 10,
    ensures
        r@ == seq![digit_char(d as nat)],
{
    proof {
        reveal_strlit("0");
        reveal_strlit("1");
        reveal_strlit("2");
        reveal_strlit("3");
        reveal_strlit("4");
        reveal_strlit("5");
        reveal_strlit("6");
        reveal_strlit("7");
        reveal_strlit("8");
        reveal_strlit("9");
    }
    let r = if d == 0 {
        "0"
    } else if d == 1 {
        "1"
    } else if d == 2 {
        "2"
    } else if d == 3 {
        "3"
    } else if d == 4 {
        "4"
    } else if d == 5 {
        "5"
    } else if d == 6 {
        "6"
    } else if d == 7 {
        "7"
    } else if d == 8 {
        "8"
    } else {
        "9"
    };
    assert(r@ =~= seq![digit_char(d as nat)]);
    r
}

fn push_decimal(out: &mut String, n: u64)
    ensures
        final(out)@ == old(out)@ + decimal(n as nat),
    decreases n,
{
    if n >= 10 {
        push_decimal(out, n / 10);
    }
    out.append(digit_str(n % 10));
    assert(final(out)@ =~= old(out)@ + decimal(n as nat));
}

/// Formats a count as an ordinal: `1st`, `2nd`, `3rd`, then `4th`, `5th`, ...
/// (every other number takes `th`).
pub fn format_count(num: i32) -> (r: String)
    ensures
        r@ == ordinal_text(num as int),
{
    proof {
        reveal_strlit("1st");
        reveal_strlit("2nd");
        reveal_strlit("3rd");
        reveal_strlit("th");
        reveal_strlit("-");
    }
    if num == 1 {
        return String::from_str("1st");
    } else if num == 2 {
        return String::from_str("2nd");
    } else if num == 3 {
        return String::from_str("3rd");
    }
    let mut out = String::new();
    let wide = num as i64;
    if wide < 0 {
        out.append("-");
        push_decimal(&mut out, (-wide) as u64);
    } else {
        push_decimal(&mut out, wide as u64);
    }
    out.append("th");
    assert(out@ =~= ordinal_text(num as int));
    out
}

} // verus!
