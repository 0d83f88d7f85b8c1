use vstd::prelude::*;

use crate::effects::{Effect, LogEvent};
use crate::event::{MessageEvent, Verdict};
use crate::ledger::{Annotation, Ledger, NoteCategory};
use crate::text::{has_prefix, is_substring, same_text, starts_with, strip_invisible, strip_invisible_spec};

verus! {

#[verifier::external_type_specification]
#[verifier::external_body]
pub struct ExRegex(regex::Regex);

#[verifier::external_type_specification]
#[verifier::external_body]
pub struct ExRegexError(regex::Error);

/// The regex crate accepts `p` as a pattern (its syntax and its size limit).
pub uninterp spec fn regex_accepts(p: Seq<char>) -> bool;

/// The leftmost-first match of pattern `p` in `hay`, as the regex crate finds it.
pub uninterp spec fn regex_find(p: Seq<char>, hay: Seq<char>) -> Option<Seq<char>>;

/// A compiled regular expression, with the pattern it was compiled from.
pub struct Matcher {
    re: regex::Regex,
    source: Ghost<Seq<char>>,
}

impl Matcher {
    /// The pattern this matcher was compiled from.
    pub closed spec fn source(&self) -> Seq<char> {
        self.source@
    }
}

/// Relies on `regex::Regex::new`: it fails exactly on the patterns the crate
/// rejects, which depends on the pattern text alone.
#[verifier::external_body]
fn compile_matcher(p: &str) -> (r: Result<Matcher, regex::Error>)
    ensures
        r.is_ok() == regex_accepts(p@),
        r matches Ok(m) ==> m.source() == p@,
{
    regex::Regex::new(p).map(|re| Matcher { re, source: Ghost(p@) })
}

/// Relies on `regex::Regex::find` and `Match::as_str`: the first match
/// depends on the pattern and the haystack alone, and is a piece of the
/// haystack.
#[verifier::external_body]
fn find_first(m: &Matcher, hay: &str) -> (r: Option<String>)
    ensures
        match r {
            Some(w) => regex_find(m.source(), hay@) == Some(w@),
            None => regex_find(m.source(), hay@) is None,
        },
        r matches Some(w) ==> is_substring(w@, hay@),
{
    m.re.find(hay).map(|x| x.as_str().to_string())
}

/// Why the blocklist refused a request.
#[derive(Clone, Copy, Debug, PartialEq, Eq, Structural)]
pub enum BlocklistError {
    /// The pattern is not a valid regular expression.
    InvalidPattern,
    /// The patterns could not be combined into one matcher.
    MatcherUnavailable,
}

/// The patterns joined into one alternation, in order.
pub open spec fn join_alternatives(ps: Seq<Seq<char>>) -> Seq<char>
    decreases ps.len(),
{
    if ps.len() == 0 {
        Seq::empty()
    } else if ps.len() == 1 {
        ps[0]
    } else {
        join_alternatives(ps.drop_last()) + seq!['|'] + ps.last()
    }
}

/// `ps` without any entry equal to `p`.
pub open spec fn without(ps: Seq<Seq<char>>, p: Seq<char>) -> Seq<Seq<char>>
    decreases ps.len(),
{
    if ps.len() == 0 {
        ps
    } else {
        let rest = without(ps.drop_last(), p);
        if ps.last() == p {
            rest
        } else {
            rest.push(ps.last())
        }
    }
}

/// The text of the note written for a blocked word.
pub open spec fn blocked_note_text(word: Seq<char>) -> Seq<char> {
    "Message deleted because of word `"@ + word + "`"@
}

/// The effects of a blocked word `w` in `ev`: the private notice to the
/// author and the log entry, both naming the word and quoting the message,
/// then the deletion of the message.
pub open spec fn blocked_effects(ev: MessageEvent, w: Seq<char>, bot_id: u64, e: Seq<Effect>) -> bool {
    &&& e.len() == 3
    &&& e[0] matches Effect::NoticeBlockedWord { user, word, text } && user == ev.author_id
        && word@ == w && text@ == ev.text@
    &&& e[1] matches Effect::Log { actor, target, event: LogEvent::BlockedWord { word, text } }
        && actor == bot_id && target == ev.author_id && word@ == w && text@ == ev.text@
    &&& e[2] == Effect::DeleteMessage { channel: ev.channel_id, message: ev.id }
}

/// The note written for a blocked word `w` in `ev`.
pub open spec fn blocked_note(ev: MessageEvent, w: Seq<char>, bot_id: u64, now: u64, n: Annotation) -> bool {
    &&& n.actor_id == bot_id
    &&& n.target_id == ev.author_id
    &&& n.note_text@ == blocked_note_text(w)
    &&& n.created_at == now
    &&& n.category == NoteCategory::BlocklistViolation
}

/// A moderator managing the blocklist is not matched against their own command.
pub open spec fn blocklist_exempt(ev: MessageEvent, author_is_mod: bool) -> bool {
    author_is_mod && has_prefix(ev.text@, "!blocklist"@)
}

/// Acts on a blocked word `word` found in `ev`: notes it in the ledger
/// against the author and returns the notice, log and deletion effects. The
/// event is claimed.
pub fn blocklist_outcome(ledger: &mut Ledger, ev: &MessageEvent, word: String, now: u64, bot_id: u64) -> (r: (Verdict, Vec<Effect>))
    ensures
        r.0 == Verdict::HandledStop,
        blocked_effects(*ev, word@, bot_id, r.1@),
        final(ledger)@.records == old(ledger)@.records,
        final(ledger)@.notes.len() == old(ledger)@.notes.len() + 1,
        final(ledger)@.notes.drop_last() == old(ledger)@.notes,
        blocked_note(*ev, word@, bot_id, now, final(ledger)@.notes.last()),
{
    let mut text = String::from_str("Message deleted because of word `");
    text.append(word.as_str());
    text.append("`");
    proof {
        reveal_strlit("Message deleted because of word `");
        reveal_strlit("`");
    }
    let note = Annotation {
        actor_id: bot_id,
        target_id: ev.author_id,
        note_text: text,
        created_at: now,
        category: NoteCategory::BlocklistViolation,
    };
    ledger.add_note(note);
    assert(ledger@.notes.drop_last() =~= old(ledger)@.notes);
    let mut effects = Vec::new();
    effects.push(
        Effect::NoticeBlockedWord { user: ev.author_id, word: word.clone(), text: ev.text.clone() },
    );
    effects.push(
        Effect::Log {
            actor: bot_id,
            target: ev.author_id,
            event: LogEvent::BlockedWord { word, text: ev.text.clone() },
        },
    );
    effects.push(Effect::DeleteMessage { channel: ev.channel_id, message: ev.id });
    (Verdict::HandledStop, effects)
}

/// The blocklist detector. Unless the author is a moderator managing the
/// blocklist, looks for a banned pattern in the message; on a match it acts
/// as `blocklist_outcome` says and claims the event. A matcher that cannot
/// be built is reported as an error and changes nothing else.
pub fn handle_blocklist(
    ledger: &mut Ledger,
    blocklist: &mut Blocklist,
    ev: &MessageEvent,
    author_is_mod: bool,
    now: u64,
    bot_id: u64,
) -> (r: Result<(Verdict, Vec<Effect>), BlocklistError>)
    requires
        old(blocklist).wf(),
    ensures
        final(blocklist).wf(),
        final(blocklist).patterns() == old(blocklist).patterns(),
        blocklist_exempt(*ev, author_is_mod) ==> (r matches Ok((v, _)) && v
            == Verdict::NotApplicable),
        !blocklist_exempt(*ev, author_is_mod) && old(blocklist).patterns().len() == 0 ==> (
        r matches Ok((v, _)) && v == Verdict::NotApplicable),
        !blocklist_exempt(*ev, author_is_mod) && old(blocklist).patterns().len() > 0
            && !regex_accepts(
            join_alternatives(old(blocklist).patterns()),
        ) ==> r.is_err(),
        !blocklist_exempt(*ev, author_is_mod) && old(blocklist).patterns().len() > 0
            && regex_accepts(join_alternatives(old(blocklist).patterns())) ==> match regex_find(
            join_alternatives(old(blocklist).patterns()),
            strip_invisible_spec(ev.text@),
        ) {
            Some(w) => r matches Ok((v, e)) && v == Verdict::HandledStop && blocked_effects(
                *ev,
                w,
                bot_id,
                e@,
            ) && blocked_note(*ev, w, bot_id, now, final(ledger)@.notes.last()),
            None => r matches Ok((v, e)) && v == Verdict::NotApplicable,
        },
        match r {
            Err(_) => {
                &&& !blocklist_exempt(*ev, author_is_mod)
                &&& old(blocklist).patterns().len() > 0
                &&& !regex_accepts(join_alternatives(old(blocklist).patterns()))
                &&& final(ledger)@ == old(ledger)@
            },
            Ok((v, e)) => if v == Verdict::NotApplicable {
                e@.len() == 0 && final(ledger)@ == old(ledger)@
            } else {
                &&& v == Verdict::HandledStop
                &&& exists|w: Seq<char>|
                    is_substring(w, strip_invisible_spec(ev.text@)) && blocked_effects(
                        *ev,
                        w,
                        bot_id,
                        e@,
                    ) && blocked_note(*ev, w, bot_id, now, final(ledger)@.notes.last())
                &&& final(ledger)@.records == old(ledger)@.records
                &&& final(ledger)@.notes.len() == old(ledger)@.notes.len() + 1
                &&& final(ledger)@.notes.drop_last() == old(ledger)@.notes
            },
        },
{
    if author_is_mod && starts_with(ev.text.as_str(), "!blocklist") {
        return Ok((Verdict::NotApplicable, Vec::new()));
    }
    match blocklist.find_blocked(ev.text.as_str()) {
        Err(e) => Err(e),
        Ok(None) => Ok((Verdict::NotApplicable, Vec::new())),
        Ok(Some(word)) => {
            let ghost w = word@;
            let r = blocklist_outcome(ledger, ev, word, now, bot_id);
            assert(is_substring(w, strip_invisible_spec(ev.text@)) && blocked_effects(*ev, w, bot_id, r.1@)
                    && blocked_note(*ev, w, bot_id, now, ledger@.notes.last()));
            Ok(r)
        },
    }
}

/// The set of banned patterns and the matcher compiled from them. The matcher
/// is built on first use and dropped whenever the set changes.
pub struct Blocklist {
    patterns: Vec<String>,
    matcher: Option<Matcher>,
}

impl Blocklist {
    /// The banned patterns, in insertion order.
    pub closed spec fn patterns(&self) -> Seq<Seq<char>> {
        self.patterns@.map_values(|s: String| s@)
    }

    /// Whether a compiled matcher is cached.
    pub closed spec fn is_compiled(&self) -> bool {
        self.matcher.is_some()
    }

    /// A cached matcher is never stale: it was compiled from the combined
    /// pattern of the current set, which the regex crate accepted.
    pub closed spec fn wf(&self) -> bool {
        self.matcher matches Some(m) ==> m.source() == join_alternatives(self.patterns())
            && regex_accepts(m.source())
    }

    /// An empty blocklist.
    pub fn new() -> (r: Blocklist)
        ensures
            r.patterns().len() == 0,
            !r.is_compiled(),
            r.wf(),
    {
        Blocklist { patterns: Vec::new(), matcher: None }
    }

    /// Number of patterns.
    pub fn len(&self) -> (r: usize)
        ensures
            r == self.patterns().len(),
    {
        self.patterns.len()
    }

    /// Whether `pattern` is in the set.
    pub fn contains(&self, pattern: &str) -> (r: bool)
        ensures
            r == self.patterns().contains(pattern@),
    {
        let mut i: usize = 0;
        while i < self.patterns.len()
            invariant
                i <= self.patterns@.len(),
                forall|k: int| 0 <= k < i ==> self.patterns@[k]@ != pattern@,
            decreases self.patterns@.len() - i,
        {
            if same_text(self.patterns[i].as_str(), pattern) {
                assert(self.patterns()[i as int] == pattern@);
                return true;
            }
            i = i + 1;
        }
        assert forall|k: int| 0 <= k < self.patterns().len() implies self.patterns()[k]
            != pattern@ by {
            assert(self.patterns()[k] == self.patterns@[k]@);
        }
        false
    }

    /// Adds a pattern. A pattern the regex crate rejects is refused and
    /// changes nothing; one already present changes nothing; a new one is
    /// appended and drops the cached matcher.
    pub fn add(&mut self, pattern: String) -> (r: Result<(), BlocklistError>)
        requires
            old(self).wf(),
        ensures
            final(self).wf(),
            r.is_err() <==> !regex_accepts(pattern@),
            r.is_err() ==> r == Err::<(), BlocklistError>(BlocklistError::InvalidPattern),
            r.is_err() || old(self).patterns().contains(pattern@) ==> final(self).patterns()
                == old(self).patterns() && final(self).is_compiled() == old(self).is_compiled(),
            r.is_ok() && !old(self).patterns().contains(pattern@) ==> final(self).patterns()
                == old(self).patterns().push(pattern@) && !final(self).is_compiled(),
    {
        if compile_matcher(pattern.as_str()).is_err() {
            return Err(BlocklistError::InvalidPattern);
        }
        if self.contains(pattern.as_str()) {
            return Ok(());
        }
        let ghost p = pattern@;
        self.patterns.push(pattern);
        self.matcher = None;
        assert(self.patterns() =~= old(self).patterns().push(p));
        Ok(())
    }

    /// Removes a pattern; says whether it was there. Any change drops the
    /// cached matcher.
    pub fn remove(&mut self, pattern: &str) -> (r: bool)
        requires
            old(self).wf(),
        ensures
            final(self).wf(),
            r == old(self).patterns().contains(pattern@),
            final(self).patterns() == without(old(self).patterns(), pattern@),
            r ==> !final(self).is_compiled(),
            !r ==> final(self).is_compiled() == old(self).is_compiled(),
    {
        let mut kept: Vec<String> = Vec::new();
        let mut found = false;
        let mut i: usize = 0;
        while i < self.patterns.len()
            invariant
                i <= self.patterns@.len(),
                kept@.map_values(|s: String| s@) == without(
                    self.patterns().subrange(0, i as int),
                    pattern@,
                ),
                found == self.patterns().subrange(0, i as int).contains(pattern@),
            decreases self.patterns@.len() - i,
        {
            let ghost pre = self.patterns().subrange(0, i as int);
            assert(self.patterns().subrange(0, i + 1).drop_last() =~= pre);
            assert(self.patterns().subrange(0, i + 1) =~= pre.push(self.patterns@[i as int]@));
            proof {
                lemma_push_contains(pre, self.patterns@[i as int]@, pattern@);
            }
            if same_text(self.patterns[i].as_str(), pattern) {
                found = true;
            } else {
                kept.push(self.patterns[i].clone());
                assert(kept@.map_values(|s: String| s@) =~= without(pre, pattern@).push(
                    self.patterns@[i as int]@,
                ));
            }
            i = i + 1;
        }
        assert(self.patterns().subrange(0, i as int) =~= self.patterns());
        if found {
            self.patterns = kept;
            self.matcher = None;
        } else {
            proof {
                lemma_without_absent(self.patterns(), pattern@);
            }
        }
        found
    }

    /// The combined pattern: every entry as one alternation.
    pub fn combined_source(&self) -> (r: String)
        ensures
            r@ == join_alternatives(self.patterns()),
    {
        let mut out = String::new();
        let mut i: usize = 0;
        while i < self.patterns.len()
            invariant
                i <= self.patterns@.len(),
                out@ == join_alternatives(self.patterns().subrange(0, i as int)),
            decreases self.patterns@.len() - i,
        {
            let ghost pre = self.patterns().subrange(0, i as int);
            assert(self.patterns().subrange(0, i + 1).drop_last() =~= pre);
            if i > 0 {
                out.append("|");
                proof {
                    reveal_strlit("|");
                }
            }
            out.append(self.patterns[i].as_str());
            assert(out@ =~= join_alternatives(self.patterns().subrange(0, i + 1)));
            i = i + 1;
        }
        assert(self.patterns().subrange(0, i as int) =~= self.patterns());
        out
    }

    /// Looks for a banned pattern in `text` after stripping its invisible
    /// code points, building the matcher first when none is cached. An empty
    /// blocklist matches nothing. A match is a piece of the stripped text.
    pub fn find_blocked(&mut self, text: &str) -> (r: Result<Option<String>, BlocklistError>)
        requires
            old(self).wf(),
        ensures
            final(self).wf(),
            final(self).patterns() == old(self).patterns(),
            old(self).patterns().len() == 0 ==> r == Ok::<Option<String>, BlocklistError>(None),
            old(self).patterns().len() > 0 ==> (r.is_err() <==> !regex_accepts(
                join_alternatives(old(self).patterns()),
            )),
            r.is_err() ==> r == Err::<Option<String>, BlocklistError>(
                BlocklistError::MatcherUnavailable,
            ) && !final(self).is_compiled(),
            old(self).patterns().len() > 0 && r.is_ok() ==> final(self).is_compiled(),
            r matches Ok(Some(w)) ==> is_substring(w@, strip_invisible_spec(text@)),
            old(self).patterns().len() > 0 && regex_accepts(join_alternatives(old(self).patterns()))
                ==> match r {
                Ok(Some(w)) => regex_find(
                    join_alternatives(old(self).patterns()),
                    strip_invisible_spec(text@),
                ) == Some(w@),
                Ok(None) => regex_find(
                    join_alternatives(old(self).patterns()),
                    strip_invisible_spec(text@),
                ) is None,
                Err(_) => false,
            },
    {
        if self.patterns.len() == 0 {
            return Ok(None);
        }
        if self.matcher.is_none() {
            let source = self.combined_source();
            match compile_matcher(source.as_str()) {
                Ok(m) => {
                    self.matcher = Some(m);
                },
                Err(_) => {
                    return Err(BlocklistError::MatcherUnavailable);
                },
            }
        }
        let normalized = strip_invisible(text);
        match &self.matcher {
            Some(m) => Ok(find_first(m, normalized.as_str())),
            None => Ok(None),
        }
    }
}

proof fn lemma_push_contains(ps: Seq<Seq<char>>, x: Seq<char>, p: Seq<char>)
    ensures
        ps.push(x).contains(p) == (ps.contains(p) || x == p),
{
    let s1 = ps.push(x);
    if s1.contains(p) {
        let k = choose|k: int| 0 <= k < s1.len() && s1[k] == p;
        if k < ps.len() {
            assert(ps[k] == p);
        }
    }
    if ps.contains(p) {
        let k = choose|k: int| 0 <= k < ps.len() && ps[k] == p;
        assert(s1[k] == p);
    }
    if x == p {
        assert(s1[ps.len() as int] == p);
    }
}

proof fn lemma_without_absent(ps: Seq<Seq<char>>, p: Seq<char>)
    requires
        !ps.contains(p),
    ensures
        without(ps, p) == ps,
    decreases ps.len(),
{
    if ps.len() > 0 {
        assert(!ps.drop_last().contains(p)) by {
            if ps.drop_last().contains(p) {
                let k = choose|k: int| 0 <= k < ps.drop_last().len() && ps.drop_last()[k] == p;
                assert(ps[k] == p);
            }
        }
        lemma_without_absent(ps.drop_last(), p);
        assert(ps.last() != p) by {
            assert(ps[ps.len() - 1] == ps.last());
        }
        assert(ps.drop_last().push(ps.last()) =~= ps);
    }
}

} // verus!
