use vstd::prelude::*;

verus! {

/// What a sanction does. Only the `active` flag of a mute ever changes after
/// the record is written, and only from `true` to `false`.
#[derive(Clone, Copy, Debug, PartialEq, Eq, Structural)]
pub enum SanctionKind {
    Warn,
    Mute { start: u64, end: u64, active: bool },
    Kick,
    Ban,
}

/// The kind of a sanction without its payload, used for counting.
#[derive(Clone, Copy, Debug, PartialEq, Eq, Structural)]
pub enum SanctionType {
    Warn,
    Mute,
    Kick,
    Ban,
}

/// A punitive moderation action recorded against a user. Its id is its
/// position in the ledger.
#[derive(Debug)]
pub struct SanctionRecord {
    pub actor_id: u64,
    pub target_id: u64,
    pub kind: SanctionKind,
    pub reason: String,
    pub created_at: u64,
    pub evidence_ref: String,
}

/// Why an automated note was written.
#[derive(Clone, Copy, Debug, PartialEq, Eq, Structural)]
pub enum NoteCategory {
    BlocklistViolation,
    MuteEvasion,
    HtmEvasion,
}

/// A non-punitive informational note. Its id is its position in the ledger.
#[derive(Debug)]
pub struct Annotation {
    pub actor_id: u64,
    pub target_id: u64,
    pub note_text: String,
    pub created_at: u64,
    pub category: NoteCategory,
}

/// The abstract content of a ledger: every sanction and every note, in the
/// order they were written.
pub struct LedgerView {
    pub records: Seq<SanctionRecord>,
    pub notes: Seq<Annotation>,
}

/// Append-only store of sanctions and notes. Nothing is ever removed; the
/// only change to an existing entry is deactivating a mute.
pub struct Ledger {
    records: Vec<SanctionRecord>,
    notes: Vec<Annotation>,
}

pub open spec fn type_of(k: SanctionKind) -> SanctionType {
    match k {
        SanctionKind::Warn => SanctionType::Warn,
        SanctionKind::Mute { .. } => SanctionType::Mute,
        SanctionKind::Kick => SanctionType::Kick,
        SanctionKind::Ban => SanctionType::Ban,
    }
}

/// `r` is a mute of `user` that is still in force.
pub open spec fn is_active_mute_of(r: SanctionRecord, user: u64) -> bool {
    r.target_id == user && match r.kind {
        SanctionKind::Mute { active, .. } => active,
        _ => false,
    }
}

/// The same record with its mute flag cleared; other kinds are unchanged.
pub open spec fn deactivated(r: SanctionRecord) -> SanctionRecord {
    match r.kind {
        SanctionKind::Mute { start, end, .. } => SanctionRecord {
            kind: SanctionKind::Mute { start, end, active: false },
            ..r
        },
        _ => r,
    }
}

/// Every active mute of `user` deactivated, everything else kept.
pub open spec fn cleared_mutes(rs: Seq<SanctionRecord>, user: u64) -> Seq<SanctionRecord> {
    Seq::new(
        rs.len(),
        |i: int| if is_active_mute_of(rs[i], user) { deactivated(rs[i]) } else { rs[i] },
    )
}

/// Number of sanctions of type `t` against `user`.
pub open spec fn count_of(rs: Seq<SanctionRecord>, user: u64, t: SanctionType) -> nat
    decreases rs.len(),
{
    if rs.len() == 0 {
        0
    } else {
        count_of(rs.drop_last(), user, t) + if rs.last().target_id == user && type_of(
            rs.last().kind,
        ) == t {
            1nat
        } else {
            0nat
        }
    }
}

/// At most one active mute of `user` is recorded.
pub open spec fn single_active_mute(rs: Seq<SanctionRecord>, user: u64) -> bool {
    forall|i: int, j: int|
        0 <= i < rs.len() && 0 <= j < rs.len() && #[trigger] is_active_mute_of(rs[i], user)
            && #[trigger] is_active_mute_of(rs[j], user) ==> i == j
}

/// `Some(i)` names the most recent active mute of `user`; `None` says there is none.
pub open spec fn is_latest_active_mute(rs: Seq<SanctionRecord>, user: u64, r: Option<usize>) -> bool {
    match r {
        Some(i) => {
            &&& i < rs.len()
            &&& is_active_mute_of(rs[i as int], user)
            &&& forall|j: int| i < j < rs.len() ==> !is_active_mute_of(#[trigger] rs[j], user)
        },
        None => forall|j: int| 0 <= j < rs.len() ==> !is_active_mute_of(#[trigger] rs[j], user),
    }
}

impl View for Ledger {
    type V = LedgerView;

    closed spec fn view(&self) -> LedgerView {
        LedgerView { records: self.records@, notes: self.notes@ }
    }
}

impl Ledger {
    /// An empty ledger.
    pub fn new() -> (r: Ledger)
        ensures
            r@.records.len() == 0,
            r@.notes.len() == 0,
    {
        Ledger { records: Vec::new(), notes: Vec::new() }
    }

    /// Number of sanctions recorded.
    pub fn len(&self) -> (r: usize)
        ensures
            r == self@.records.len(),
    {
        self.records.len()
    }

    /// Number of notes recorded.
    pub fn notes_len(&self) -> (r: usize)
        ensures
            r == self@.notes.len(),
    {
        self.notes.len()
    }

    /// The sanction with the given id, if there is one.
    pub fn record(&self, id: usize) -> (r: Option<&SanctionRecord>)
        ensures
            id < self@.records.len() ==> r == Some(&self@.records[id as int]),
            id >= self@.records.len() ==> r.is_none(),
    {
        if id < self.records.len() {
            Some(&self.records[id])
        } else {
            None
        }
    }

    /// The note with the given id, if there is one.
    pub fn note(&self, id: usize) -> (r: Option<&Annotation>)
        ensures
            id < self@.notes.len() ==> r == Some(&self@.notes[id as int]),
            id >= self@.notes.len() ==> r.is_none(),
    {
        if id < self.notes.len() {
            Some(&self.notes[id])
        } else {
            None
        }
    }

    /// Writes a sanction and returns its id.
    pub fn append(&mut self, rec: SanctionRecord) -> (id: usize)
        ensures
            id == old(self)@.records.len(),
            final(self)@.records == old(self)@.records.push(rec),
            final(self)@.notes == old(self)@.notes,
    {
        let id = self.records.len();
        self.records.push(rec);
        id
    }

    /// Writes a note and returns its id.
    pub fn add_note(&mut self, note: Annotation) -> (id: usize)
        ensures
            id == old(self)@.notes.len(),
            final(self)@.notes == old(self)@.notes.push(note),
            final(self)@.records == old(self)@.records,
    {
        let id = self.notes.len();
        self.notes.push(note);
        id
    }

    /// The id of the most recent active mute of `user`, if any.
    pub fn active_mute(&self, user: u64) -> (r: Option<usize>)
        ensures
            is_latest_active_mute(self@.records, user, r),
    {
        let mut i: usize = self.records.len();
        while i > 0
            invariant
                i <= self.records@.len(),
                forall|j: int| i <= j < self.records@.len() ==> !is_active_mute_of(
                    #[trigger] self.records@[j],
                    user,
                ),
            decreases i,
        {
            i = i - 1;
            let r = &self.records[i];
            if r.target_id == user {
                if let SanctionKind::Mute { active: true, .. } = r.kind {
                    return Some(i);
                }
            }
        }
        None
    }

    /// Number of sanctions of type `t` recorded against `user`.
    pub fn count(&self, user: u64, t: SanctionType) -> (r: usize)
        ensures
            r == count_of(self@.records, user, t),
    {
        let mut n: usize = 0;
        let mut i: usize = 0;
        while i < self.records.len()
            invariant
                i <= self.records@.len(),
                n == count_of(self.records@.take(i as int), user, t),
                n <= i,
            decreases self.records@.len() - i,
        {
            let r = &self.records[i];
            assert(self.records@.take(i + 1).drop_last() =~= self.records@.take(i as int));
            let same_type = match (r.kind, t) {
                (SanctionKind::Warn, SanctionType::Warn) => true,
                (SanctionKind::Mute { .. }, SanctionType::Mute) => true,
                (SanctionKind::Kick, SanctionType::Kick) => true,
                (SanctionKind::Ban, SanctionType::Ban) => true,
                _ => false,
            };
            if r.target_id == user && same_type {
                n = n + 1;
            }
            i = i + 1;
        }
        assert(self.records@.take(i as int) =~= self.records@);
        n
    }

    /// Clears the active flag of the mute with id `id`. Doing so on a mute
    /// that is already inactive, on another kind or on an unknown id changes
    /// nothing.
    pub fn deactivate_mute(&mut self, id: usize)
        ensures
            final(self)@.notes == old(self)@.notes,
            id < old(self)@.records.len() ==> final(self)@.records == old(self)@.records.update(
                id as int,
                deactivated(old(self)@.records[id as int]),
            ),
            id >= old(self)@.records.len() ==> final(self)@.records == old(self)@.records,
    {
        if id < self.records.len() {
            if let SanctionKind::Mute { start, end, active: _ } = self.records[id].kind {
                self.records[id].kind = SanctionKind::Mute { start, end, active: false };
            }
        }
    }

    /// Deactivates every active mute of `user`.
    pub fn deactivate_mutes_of(&mut self, user: u64)
        ensures
            final(self)@.notes == old(self)@.notes,
            final(self)@.records == cleared_mutes(old(self)@.records, user),
    {
        let ghost before = self.records@;
        let mut i: usize = 0;
        while i < self.records.len()
            invariant
                self.records@.len() == before.len(),
                i <= before.len(),
                self.notes@ == old(self).notes@,
                before == old(self).records@,
                forall|j: int|
                    0 <= j < i ==> #[trigger] self.records@[j] == cleared_mutes(before, user)[j],
                forall|j: int| i <= j < before.len() ==> #[trigger] self.records@[j] == before[j],
            decreases before.len() - i,
        {
            if self.records[i].target_id == user {
                if let SanctionKind::Mute { start, end, active: true } = self.records[i].kind {
                    self.records[i].kind = SanctionKind::Mute { start, end, active: false };
                }
            }
            i = i + 1;
        }
        assert(self.records@ =~= cleared_mutes(before, user));
    }
}

} // verus!
