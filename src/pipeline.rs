use vstd::prelude::*;

use crate::blocklist::{
    blocked_effects, blocked_note, blocklist_exempt, handle_blocklist, join_alternatives,
    regex_accepts, regex_find, Blocklist, BlocklistError,
};
use crate::effects::Effect;
use crate::event::{HistoryMessage, MemberJoinEvent, MessageEvent, Verdict};
use crate::highlights::{highlight_applicable, Highlights};
use crate::ledger::{is_latest_active_mute, Ledger, SanctionRecord};
use crate::mute::{
    after_apply, appended_notes, apply_effects, new_mute_record, on_rejoin, rejoin_effects,
    rejoin_note_categories,
};
use crate::spam::{handle_spam, spam_cleanup, spam_eligible_spec, spam_verdict, SPAM_MUTE_MS};
use crate::text::{has_prefix, is_substring, strip_invisible_spec};

verus! {

/// Where a message stands in the detector pipeline.
#[derive(Clone, Copy, Debug, PartialEq, Eq, Structural)]
pub enum Stage {
    SpamCheck,
    BlocklistCheck,
    /// Observational: whatever it finds, the pipeline goes on.
    HighlightScan,
    /// Hand the message to the command layer.
    CommandHandoff,
    Done,
}

pub open spec fn next_stage_spec(s: Stage, v: Verdict) -> Stage {
    match s {
        Stage::SpamCheck => if v == Verdict::HandledStop {
            Stage::Done
        } else {
            Stage::BlocklistCheck
        },
        Stage::BlocklistCheck => if v == Verdict::HandledStop {
            Stage::Done
        } else {
            Stage::HighlightScan
        },
        Stage::HighlightScan => Stage::CommandHandoff,
        Stage::CommandHandoff => Stage::Done,
        Stage::Done => Stage::Done,
    }
}

/// The stages run from `s` on when each one in turn reports the next verdict
/// of `vs`; the walk ends at `Done` or when the verdicts run out.
pub open spec fn stages_run(s: Stage, vs: Seq<Verdict>) -> Seq<Stage>
    decreases vs.len(),
{
    if s == Stage::Done {
        Seq::empty()
    } else if vs.len() == 0 {
        seq![s]
    } else {
        seq![s] + stages_run(next_stage_spec(s, vs[0]), vs.drop_first())
    }
}

/// The first stage of every message.
pub fn first_stage() -> (r: Stage)
    ensures
        r == Stage::SpamCheck,
{
    Stage::SpamCheck
}

/// The stage after `s` once it has reported `v`.
pub fn next_stage(s: Stage, v: Verdict) -> (r: Stage)
    ensures
        r == next_stage_spec(s, v),
{
    match s {
        Stage::SpamCheck => if v == Verdict::HandledStop {
            Stage::Done
        } else {
            Stage::BlocklistCheck
        },
        Stage::BlocklistCheck => if v == Verdict::HandledStop {
            Stage::Done
        } else {
            Stage::HighlightScan
        },
        Stage::HighlightScan => Stage::CommandHandoff,
        Stage::CommandHandoff => Stage::Done,
        Stage::Done => Stage::Done,
    }
}

/// A detector that failed counts as not applicable.
pub fn verdict_or_skip<E>(r: &Result<Verdict, E>) -> (v: Verdict)
    ensures
        v == match r {
            Ok(v) => *v,
            Err(_) => Verdict::NotApplicable,
        },
{
    match r {
        Ok(v) => *v,
        Err(_) => Verdict::NotApplicable,
    }
}

/// Once the spam detector claims a message, nothing after it runs: neither
/// the blocklist, nor the highlight scan, nor the command hand-off.
pub proof fn lemma_spam_stop_short_circuits(vs: Seq<Verdict>)
    requires
        vs.len() > 0,
        vs[0] == Verdict::HandledStop,
    ensures
        stages_run(Stage::SpamCheck, vs) == seq![Stage::SpamCheck],
        !stages_run(Stage::SpamCheck, vs).contains(Stage::BlocklistCheck),
        !stages_run(Stage::SpamCheck, vs).contains(Stage::HighlightScan),
        !stages_run(Stage::SpamCheck, vs).contains(Stage::CommandHandoff),
{
    assert(stages_run(Stage::Done, vs.drop_first()) == Seq::<Stage>::empty());
    assert(stages_run(Stage::SpamCheck, vs) =~= seq![Stage::SpamCheck]);
    let r = stages_run(Stage::SpamCheck, vs);
    assert(r[0] == Stage::SpamCheck);
}

/// What the host knows about a message besides the event itself.
pub struct MessageContext {
    /// The messages before this one (newest first), when fetched; `None` when
    /// the fetch failed or was not needed.
    pub history: Option<Vec<HistoryMessage>>,
    pub author_is_mod: bool,
    /// The channel is a thread or lies in a staff-only category.
    pub channel_excluded: bool,
    pub now: u64,
    pub bot_id: u64,
    /// Where the evidence for an automatic sanction can be found.
    pub evidence: String,
}

/// What the pipeline decided for one message.
pub struct DispatchOutcome {
    pub spam: Verdict,
    /// `None` when the blocklist did not run.
    pub blocklist: Option<Verdict>,
    /// The blocklist's failure, reported to the error sink.
    pub blocklist_error: Option<BlocklistError>,
    pub effects: Vec<Effect>,
    /// Start the (off-path) highlight scan for this message.
    pub run_highlights: bool,
    /// Hand the message on to the command layer.
    pub hand_off: bool,
    /// The stages the message went through, in order.
    pub stages: Vec<Stage>,
    /// The verdict of each stage that reported one, in order.
    pub verdicts: Vec<Verdict>,
}

/// The shared moderation state: ledger, blocklist and highlight watch lists.
pub struct Moderation {
    pub ledger: Ledger,
    pub blocklist: Blocklist,
    pub highlights: Highlights,
}

pub open spec fn spam_claims(ev: MessageEvent, history: Option<Vec<HistoryMessage>>) -> bool {
    match history {
        Some(h) => spam_eligible_spec(ev.mention_ids@.len(), ev.author_account_age_ms)
            && spam_verdict(h@, ev.author_id, ev.text@, ev.author_has_default_avatar),
        None => false,
    }
}

impl Moderation {
    /// Empty state.
    pub fn new() -> (r: Moderation)
        ensures
            r.ledger@.records.len() == 0,
            r.ledger@.notes.len() == 0,
            r.blocklist.patterns().len() == 0,
            r.highlights.entries().len() == 0,
            r.highlights.wf(),
            r.blocklist.wf(),
    {
        Moderation { ledger: Ledger::new(), blocklist: Blocklist::new(), highlights: Highlights::new() }
    }

    /// Runs the message detectors in order: spam, then blocklist; a claim
    /// stops the pipeline there. Otherwise the highlight scan is requested
    /// (unless the channel or message is excluded) and the message is handed
    /// to the command layer.
    pub fn handle_message(&mut self, ev: &MessageEvent, ctx: MessageContext) -> (out: DispatchOutcome)
        requires
            ctx.now + SPAM_MUTE_MS <= u64::MAX,
            old(self).blocklist.wf(),
        ensures
            final(self).blocklist.wf(),
            final(self).highlights == old(self).highlights,
            final(self).blocklist.patterns() == old(self).blocklist.patterns(),
            (out.spam == Verdict::HandledStop) == spam_claims(*ev, ctx.history),
            out.spam == Verdict::HandledStop ==> {
                &&& out.blocklist.is_none()
                &&& !out.run_highlights
                &&& !out.hand_off
                &&& exists|rec: SanctionRecord|
                    new_mute_record(
                        ctx.bot_id,
                        ev.author_id,
                        ctx.now,
                        SPAM_MUTE_MS,
                        "spam"@,
                        ctx.evidence@,
                        rec,
                    ) && final(self).ledger@.records == after_apply(
                        old(self).ledger@.records,
                        ev.author_id,
                        rec,
                    )
                &&& final(self).ledger@.notes == old(self).ledger@.notes
                &&& out.effects@ == apply_effects(ev.author_id, ctx.now, SPAM_MUTE_MS) + spam_cleanup(
                    ctx.bot_id,
                    ev.author_id,
                    ev.channel_id,
                    ctx.history->0@,
                )
            },
            out.spam != Verdict::HandledStop ==> out.spam == Verdict::NotApplicable
                && out.blocklist.is_some(),
            out.blocklist == Some(Verdict::HandledStop) ==> {
                &&& !out.run_highlights
                &&& !out.hand_off
                &&& exists|w: Seq<char>|
                    is_substring(w, strip_invisible_spec(ev.text@)) && blocked_effects(
                        *ev,
                        w,
                        ctx.bot_id,
                        out.effects@,
                    ) && blocked_note(*ev, w, ctx.bot_id, ctx.now, final(self).ledger@.notes.last())
                &&& final(self).ledger@.records == old(self).ledger@.records
                &&& final(self).ledger@.notes.drop_last() == old(self).ledger@.notes
            },
            out.blocklist == Some(Verdict::NotApplicable) ==> {
                &&& out.hand_off
                &&& out.run_highlights == (!ctx.channel_excluded && !has_prefix(ev.text@, "!"@))
                &&& out.effects@.len() == 0
                &&& final(self).ledger@ == old(self).ledger@
            },
            out.blocklist.is_some() ==> out.blocklist == Some(Verdict::HandledStop) || out.blocklist
                == Some(Verdict::NotApplicable),
            out.blocklist_error.is_some() <==> out.blocklist.is_some() && !blocklist_exempt(
                *ev,
                ctx.author_is_mod,
            ) && old(self).blocklist.patterns().len() > 0 && !regex_accepts(join_alternatives(old(self).blocklist.patterns())),
            out.blocklist_error.is_some() ==> out.blocklist == Some(Verdict::NotApplicable),
            out.stages@ == stages_run(Stage::SpamCheck, out.verdicts@),
            out.verdicts@.len() > 0 && out.verdicts@[0] == out.spam,
            out.blocklist.is_some() <==> out.stages@.contains(Stage::BlocklistCheck),
            out.blocklist matches Some(v) ==> out.verdicts@.len() > 1 && out.verdicts@[1] == v,
            out.hand_off <==> out.stages@.contains(Stage::CommandHandoff),
            out.run_highlights ==> out.stages@.contains(Stage::HighlightScan),
            !spam_claims(*ev, ctx.history) && !blocklist_exempt(*ev, ctx.author_is_mod)
                && old(self).blocklist.patterns().len() > 0 && regex_accepts(
                join_alternatives(old(self).blocklist.patterns()),
            ) ==> match regex_find(
                join_alternatives(old(self).blocklist.patterns()),
                strip_invisible_spec(ev.text@),
            ) {
                Some(w) => out.blocklist == Some(Verdict::HandledStop) && blocked_effects(
                    *ev,
                    w,
                    ctx.bot_id,
                    out.effects@,
                ) && blocked_note(*ev, w, ctx.bot_id, ctx.now, final(self).ledger@.notes.last()),
                None => out.blocklist == Some(Verdict::NotApplicable) && out.hand_off,
            },
    {
        let mut stages: Vec<Stage> = Vec::new();
        let mut verdicts: Vec<Verdict> = Vec::new();
        let mut stage = first_stage();
        stages.push(stage);
        let spam = match &ctx.history {
            Some(h) => handle_spam(&mut self.ledger, ev, h, ctx.now, ctx.bot_id, ctx.evidence),
            None => (Verdict::NotApplicable, Vec::new()),
        };
        verdicts.push(spam.0);
        stage = next_stage(stage, spam.0);
        if stage == Stage::Done {
            proof {
                assert(stages_run(Stage::Done, verdicts@.drop_first()) == Seq::<Stage>::empty());
                assert(stages@ =~= stages_run(Stage::SpamCheck, verdicts@));
                assert(stages@ =~= seq![Stage::SpamCheck]);
                assert(!stages@.contains(Stage::CommandHandoff));
                assert(!stages@.contains(Stage::BlocklistCheck));
            }
            return DispatchOutcome {
                spam: spam.0,
                blocklist: None,
                blocklist_error: None,
                effects: spam.1,
                run_highlights: false,
                hand_off: false,
                stages,
                verdicts,
            };
        }
        stages.push(stage);
        let checked = handle_blocklist(
            &mut self.ledger,
            &mut self.blocklist,
            ev,
            ctx.author_is_mod,
            ctx.now,
            ctx.bot_id,
        );
        let (blocked, effects, blocklist_error) = match checked {
            Ok((v, e)) => (v, e, None),
            Err(e) => (Verdict::NotApplicable, Vec::new(), Some(e)),
        };
        verdicts.push(blocked);
        stage = next_stage(stage, blocked);
        let ghost vs = verdicts@;
        assert(vs.drop_first() =~= seq![blocked]);
        assert(vs.drop_first().drop_first() =~= Seq::<Verdict>::empty());
        if stage == Stage::Done {
            proof {
                assert(stages_run(Stage::Done, vs.drop_first().drop_first()) == Seq::<Stage>::empty());
                assert(stages_run(Stage::BlocklistCheck, vs.drop_first()) =~= seq![Stage::BlocklistCheck]);
                assert(stages@ =~= stages_run(Stage::SpamCheck, vs));
                assert(stages@ =~= seq![Stage::SpamCheck, Stage::BlocklistCheck]);
                assert(!stages@.contains(Stage::CommandHandoff));
                assert(stages@[1] == Stage::BlocklistCheck);
            }
            return DispatchOutcome {
                spam: spam.0,
                blocklist: Some(blocked),
                blocklist_error,
                effects,
                run_highlights: false,
                hand_off: false,
                stages,
                verdicts,
            };
        }
        stages.push(stage);
        verdicts.push(Verdict::HandledContinue);
        stage = next_stage(stage, Verdict::HandledContinue);
        stages.push(stage);
        proof {
            let v3 = verdicts@;
            assert(v3.drop_first() =~= seq![blocked, Verdict::HandledContinue]);
            assert(v3.drop_first().drop_first() =~= seq![Verdict::HandledContinue]);
            assert(v3.drop_first().drop_first().drop_first() =~= Seq::<Verdict>::empty());
            assert(stages_run(Stage::CommandHandoff, Seq::<Verdict>::empty()) == seq![Stage::CommandHandoff]);
            assert(stages_run(Stage::HighlightScan, seq![Verdict::HandledContinue]) =~= seq![
                Stage::HighlightScan,
                Stage::CommandHandoff,
            ]);
            assert(stages_run(Stage::BlocklistCheck, v3.drop_first()) =~= seq![
                Stage::BlocklistCheck,
                Stage::HighlightScan,
                Stage::CommandHandoff,
            ]);
            assert(stages@ =~= stages_run(Stage::SpamCheck, v3));
            assert(stages@[1] == Stage::BlocklistCheck);
            assert(stages@[2] == Stage::HighlightScan);
            assert(stages@[3] == Stage::CommandHandoff);
        }
        DispatchOutcome {
            spam: spam.0,
            blocklist: Some(blocked),
            blocklist_error,
            effects,
            run_highlights: highlight_applicable(ev, ctx.channel_excluded),
            hand_off: stage == Stage::CommandHandoff,
            stages,
            verdicts,
        }
    }

    /// A member joined: the evasion checks of `on_rejoin`, which no detector
    /// can stop.
    pub fn handle_join(&mut self, ev: MemberJoinEvent, htm: bool, now: u64, bot_id: u64) -> (r: Vec<Effect>)
        ensures
            final(self).ledger@.records == old(self).ledger@.records,
            final(self).highlights == old(self).highlights,
            final(self).blocklist == old(self).blocklist,
            exists|m: Option<usize>|
                is_latest_active_mute(old(self).ledger@.records, ev.user_id, m) && r@ == rejoin_effects(
                    bot_id,
                    ev.user_id,
                    htm,
                    m,
                ) && appended_notes(
                    old(self).ledger@.notes,
                    final(self).ledger@.notes,
                    bot_id,
                    ev.user_id,
                    now,
                    rejoin_note_categories(htm, m),
                ),
    {
        on_rejoin(&mut self.ledger, bot_id, ev.user_id, htm, now)
    }
}

} // verus!
