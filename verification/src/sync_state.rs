use vstd::prelude::*;

use crate::search_meta::views;
use crate::sync_types::{opt_view, SyncCooldown, SyncFailure, SyncReport, SyncResume, SyncStats};

verus! {

/// What the index remembers of a session file from the previous sync.
#[derive(Debug, Clone)]
pub struct ExistingFile {
    pub path: String,
    pub session_id: Option<String>,
    pub modified_at: i64,
    pub size: i64,
    pub tail_record: Option<String>,
}

/// A session file a sync considers.
#[derive(Debug, Clone)]
pub struct CandidateFile {
    pub path: String,
    pub modified_at: i64,
    pub size: i64,
    pub effective_time: String,
}

/// How a changed session file was brought into the index.
#[derive(Debug, Clone)]
pub enum CandidateOutcome {
    /// New records were appended to the thread the file already had.
    Appended,
    /// The thread was rebuilt from the whole file; `fallback` when the file
    /// was indexed before; `session_id` is the session the file now indexes.
    Rebuilt { fallback: bool, session_id: Option<String> },
    /// The file could not be indexed.
    Failed { error: String },
}

/// A file row the cleanup removes, and the session it deletes first, if any.
#[derive(Debug, Clone)]
pub struct CleanupAction {
    pub path: String,
    pub delete_session: Option<String>,
}

/// The first remembered state of `path`.
pub open spec fn lookup(existing: Seq<ExistingFile>, path: Seq<char>) -> Option<ExistingFile>
    decreases existing.len(),
{
    if existing.len() == 0 {
        None
    } else if existing[0].path@ == path {
        Some(existing[0])
    } else {
        lookup(existing.drop_first(), path)
    }
}

/// The session the index had for `path`, if any.
pub open spec fn previous_session(existing: Seq<ExistingFile>, path: Seq<char>) -> Option<Seq<char>> {
    match lookup(existing, path) {
        Some(e) => opt_view(e.session_id),
        None => None,
    }
}

/// A file is unchanged when the index remembers it with the same modification
/// time and size.
pub open spec fn unchanged(existing: Seq<ExistingFile>, c: CandidateFile) -> bool {
    match lookup(existing, c.path@) {
        Some(e) => e.modified_at == c.modified_at && e.size == c.size,
        None => false,
    }
}

/// The set holding the value of an option, if any.
pub open spec fn opt_set(o: Option<Seq<char>>) -> Set<Seq<char>> {
    match o {
        Some(x) => set![x],
        None => Set::empty(),
    }
}

/// The row the index keeps for a file once it is indexed: the candidate's
/// path, modification time and size, with the session and last record.
pub fn file_record(candidate: &CandidateFile, session_id: Option<String>, tail_record: Option<String>) -> (r: ExistingFile)
    ensures
        r.path@ == candidate.path@,
        r.modified_at == candidate.modified_at,
        r.size == candidate.size,
        r.session_id == session_id,
        r.tail_record == tail_record,
{
    ExistingFile {
        path: candidate.path.clone(),
        session_id,
        modified_at: candidate.modified_at,
        size: candidate.size,
        tail_record,
    }
}

/// A path no earlier row has is found at its own row.
pub proof fn lemma_lookup_finds(existing: Seq<ExistingFile>, i: int)
    requires
        0 <= i < existing.len(),
        forall|k: int| 0 <= k < i ==> (#[trigger] existing[k]).path@ != existing[i].path@,
    ensures
        lookup(existing, existing[i].path@) == Some(existing[i]),
    decreases i,
{
    if i > 0 {
        let rest = existing.drop_first();
        assert forall|k: int| 0 <= k < i - 1 implies (#[trigger] rest[k]).path@ != rest[i - 1].path@ by {
            assert(rest[k] == existing[k + 1]);
        }
        assert(existing[0].path@ != existing[i].path@);
        lemma_lookup_finds(rest, i - 1);
    }
}

/// The position of the first remembered state of `path`, if any.
pub fn find_existing(existing: &Vec<ExistingFile>, path: &String) -> (r: Option<usize>)
    ensures
        match r {
            Some(i) => i < existing.len() && lookup(existing@, path@) == Some(existing@[i as int]),
            None => lookup(existing@, path@).is_none(),
        },
{
    let mut i: usize = 0;
    assert(existing@.skip(0) == existing@);
    while i < existing.len()
        invariant
            i <= existing.len(),
            lookup(existing@, path@) == lookup(existing@.skip(i as int), path@),
        decreases existing.len() - i,
    {
        assert(existing@.skip(i as int).drop_first() == existing@.skip(i + 1 as int));
        if existing[i].path == *path {
            return Some(i);
        }
        i += 1;
    }
    None
}

/// The session the index had for `path`, if any.
pub fn previous_session_id(existing: &Vec<ExistingFile>, path: &String) -> (r: Option<String>)
    ensures
        opt_view(r) == previous_session(existing@, path@),
{
    match find_existing(existing, path) {
        Some(i) => match &existing[i].session_id {
            Some(s) => Some(s.clone()),
            None => None,
        },
        None => None,
    }
}

/// Whether the index remembers `candidate` with the same modification time
/// and size.
pub fn is_unchanged(existing: &Vec<ExistingFile>, candidate: &CandidateFile) -> (r: bool)
    ensures
        r == unchanged(existing@, *candidate),
{
    match find_existing(existing, &candidate.path) {
        Some(i) => existing[i].modified_at == candidate.modified_at && existing[i].size
            == candidate.size,
        None => false,
    }
}

/// The sessions the index had for `paths`.
pub open spec fn sessions_of(existing: Seq<ExistingFile>, paths: Seq<String>) -> Set<Seq<char>>
    decreases paths.len(),
{
    if paths.len() == 0 {
        Set::empty()
    } else {
        sessions_of(existing, paths.drop_last()).union(
            opt_set(previous_session(existing, paths.last()@)),
        )
    }
}

/// The cleanup after an unscoped sync: each remembered file that the run did
/// not see, in remembered order, with its session when no seen file keeps it.
pub open spec fn cleanup_of(
    existing: Seq<ExistingFile>,
    seen: Set<Seq<char>>,
    retained: Set<Seq<char>>,
) -> Seq<(Seq<char>, Option<Seq<char>>)>
    decreases existing.len(),
{
    if existing.len() == 0 {
        seq![]
    } else {
        let prev = cleanup_of(existing.drop_last(), seen, retained);
        let e = existing.last();
        if seen.contains(e.path@) {
            prev
        } else {
            let del = match opt_view(e.session_id) {
                Some(sid) => if retained.contains(sid) {
                    None
                } else {
                    Some(sid)
                },
                None => None,
            };
            prev.push((e.path@, del))
        }
    }
}

/// The view of a list of cleanup actions.
pub open spec fn actions_view(a: Seq<CleanupAction>) -> Seq<(Seq<char>, Option<Seq<char>>)> {
    a.map_values(|x: CleanupAction| (x.path@, opt_view(x.delete_session)))
}

/// The bookkeeping of a sync run: what it saw, which sessions it keeps, its
/// counters and failures.
pub struct SyncLedger {
    pub existing: Vec<ExistingFile>,
    pub seen_paths: Vec<String>,
    pub retained_session_ids: Vec<String>,
    pub stats: SyncStats,
    pub failures: Vec<SyncFailure>,
}

impl SyncLedger {
    /// The paths the run saw.
    pub open spec fn seen(&self) -> Set<Seq<char>> {
        views(self.seen_paths@).to_set()
    }

    /// The sessions that stay indexed whatever the cleanup finds.
    pub open spec fn retained(&self) -> Set<Seq<char>> {
        views(self.retained_session_ids@).to_set()
    }

    /// Every file the run scanned is counted once, as skipped, indexed or
    /// failed; every indexed file was appended or rebuilt; one failure is
    /// recorded per failed file; nothing is removed before the cleanup.
    pub open spec fn wf(&self) -> bool {
        self.wf_pending(0)
    }

    /// `wf`, with `pending` scanned files whose outcome is still to be recorded.
    pub open spec fn wf_pending(&self, pending: int) -> bool {
        &&& self.stats.scanned_files == self.stats.skipped_files + self.stats.indexed_files
            + self.stats.failed_files + pending
        &&& self.stats.indexed_files == self.stats.appended_files + self.stats.rebuilt_files
        &&& self.stats.fallback_rebuilt_files <= self.stats.rebuilt_files
        &&& self.failures.len() == self.stats.failed_files
        &&& self.stats.removed_files == 0
    }

    /// Adds `s` to the seen paths.
    fn add_seen(&mut self, s: &String)
        ensures
            final(self).seen() == old(self).seen().insert(s@),
            final(self).retained() == old(self).retained(),
            final(self).existing == old(self).existing,
            final(self).stats == old(self).stats,
            final(self).failures == old(self).failures,
    {
        let ghost before = self.seen_paths@;
        self.seen_paths.push(s.clone());
        assert(views(self.seen_paths@) =~= views(before).push(s@));
        assert(views(self.seen_paths@).to_set() =~= views(before).to_set().insert(s@)) by {
            views(before).lemma_push_to_set_commute(s@);
        }
    }

    /// Adds `o`'s session to the retained sessions, if any.
    fn retain(&mut self, o: Option<String>)
        ensures
            final(self).retained() == old(self).retained().union(opt_set(opt_view(o))),
            final(self).seen() == old(self).seen(),
            final(self).existing == old(self).existing,
            final(self).stats == old(self).stats,
            final(self).failures == old(self).failures,
    {
        match o {
            Some(s) => {
                let ghost before = self.retained_session_ids@;
                let ghost sv = s@;
                self.retained_session_ids.push(s);
                assert(views(self.retained_session_ids@) =~= views(before).push(sv));
                assert(views(self.retained_session_ids@).to_set() =~= views(before).to_set().insert(
                    sv,
                )) by {
                    views(before).lemma_push_to_set_commute(sv);
                }
                assert(views(before).to_set().insert(sv) =~= views(before).to_set().union(
                    set![sv],
                ));
            },
            None => {
                assert(self.retained().union(Set::empty()) =~= self.retained());
            },
        }
    }

    /// Starts the bookkeeping of a run: the unchanged files that stay out of
    /// the budget count as scanned, skipped and seen, and their sessions stay.
    pub fn new(existing: Vec<ExistingFile>, unchanged_paths: &Vec<String>) -> (r: Self)
        ensures
            r.wf(),
            r.existing@ == existing@,
            r.seen() == views(unchanged_paths@).to_set(),
            r.retained() == sessions_of(existing@, unchanged_paths@),
            r.stats.scanned_files == unchanged_paths.len(),
            r.stats.skipped_files == unchanged_paths.len(),
            r.stats.indexed_files == 0,
            r.stats.failed_files == 0,
            r.stats.threads == 0,
            r.stats.messages == 0,
            r.stats.events == 0,
            r.failures@.len() == 0,
    {
        let mut ledger = SyncLedger {
            existing,
            seen_paths: Vec::new(),
            retained_session_ids: Vec::new(),
            stats: SyncStats {
                scanned_files: unchanged_paths.len(),
                indexed_files: 0,
                appended_files: 0,
                rebuilt_files: 0,
                fallback_rebuilt_files: 0,
                skipped_files: unchanged_paths.len(),
                failed_files: 0,
                removed_files: 0,
                threads: 0,
                messages: 0,
                events: 0,
            },
            failures: Vec::new(),
        };
        let ghost ex = ledger.existing@;
        assert(views(ledger.seen_paths@).to_set() =~= Set::empty());
        assert(views(ledger.retained_session_ids@).to_set() =~= Set::empty());
        let mut i: usize = 0;
        while i < unchanged_paths.len()
            invariant
                i <= unchanged_paths.len(),
                ledger.existing@ == ex,
                ledger.wf(),
                ledger.stats.scanned_files == unchanged_paths.len(),
                ledger.stats.skipped_files == unchanged_paths.len(),
                ledger.stats.indexed_files == 0,
                ledger.stats.failed_files == 0,
                ledger.stats.threads == 0,
                ledger.stats.messages == 0,
                ledger.stats.events == 0,
                ledger.failures@.len() == 0,
                ledger.seen() == views(unchanged_paths@.take(i as int)).to_set(),
                ledger.retained() == sessions_of(ex, unchanged_paths@.take(i as int)),
            decreases unchanged_paths.len() - i,
        {
            let ghost prefix = unchanged_paths@.take(i as int);
            assert(unchanged_paths@.take(i + 1 as int) == prefix.push(unchanged_paths@[i as int]));
            assert(views(prefix.push(unchanged_paths@[i as int])) =~= views(prefix).push(
                unchanged_paths@[i as int]@,
            ));
            proof {
                views(prefix).lemma_push_to_set_commute(unchanged_paths@[i as int]@);
            }
            assert(unchanged_paths@.take(i + 1 as int).drop_last() == prefix);
            assert(unchanged_paths@.take(i + 1 as int).last() == unchanged_paths@[i as int]);
            ledger.add_seen(&unchanged_paths[i]);
            let prev = previous_session_id(&ledger.existing, &unchanged_paths[i]);
            ledger.retain(prev);
            i += 1;
        }
        assert(unchanged_paths@.take(unchanged_paths.len() as int) == unchanged_paths@);
        ledger
    }

    /// Counts `candidate` as scanned and seen, and tells whether it is
    /// unchanged; an unchanged file is counted as skipped and keeps its
    /// session.
    pub fn begin_candidate(&mut self, candidate: &CandidateFile) -> (skip: bool)
        requires
            old(self).wf(),
            old(self).stats.scanned_files < usize::MAX,
        ensures
            skip ==> final(self).wf(),
            !skip ==> final(self).wf_pending(1),
            skip == unchanged(old(self).existing@, *candidate),
            final(self).existing == old(self).existing,
            final(self).seen() == old(self).seen().insert(candidate.path@),
            final(self).failures == old(self).failures,
            final(self).stats == (SyncStats {
                scanned_files: (old(self).stats.scanned_files + 1) as usize,
                skipped_files: if skip {
                    (old(self).stats.skipped_files + 1) as usize
                } else {
                    old(self).stats.skipped_files
                },
                ..old(self).stats
            }),
            skip ==> final(self).retained() == old(self).retained().union(
                opt_set(previous_session(old(self).existing@, candidate.path@)),
            ),
            !skip ==> final(self).retained() == old(self).retained(),
    {
        self.stats.scanned_files = self.stats.scanned_files + 1;
        self.add_seen(&candidate.path);
        if is_unchanged(&self.existing, candidate) {
            self.stats.skipped_files = self.stats.skipped_files + 1;
            let prev = previous_session_id(&self.existing, &candidate.path);
            self.retain(prev);
            true
        } else {
            false
        }
    }

    /// Records how a changed file ended: appended and rebuilt files count as
    /// indexed, failed files as failed with their error; the session the file
    /// keeps stays indexed (for a failure, the one it had before).
    pub fn record_outcome(&mut self, path: &String, outcome: CandidateOutcome)
        requires
            old(self).wf_pending(1),
        ensures
            final(self).existing == old(self).existing,
            final(self).seen() == old(self).seen(),
            final(self).stats.scanned_files == old(self).stats.scanned_files,
            final(self).stats.skipped_files == old(self).stats.skipped_files,
            final(self).stats.removed_files == 0,
            final(self).stats.threads == old(self).stats.threads,
            final(self).stats.messages == old(self).stats.messages,
            final(self).stats.events == old(self).stats.events,
            final(self).wf(),
            match outcome {
                CandidateOutcome::Appended => {
                    &&& final(self).stats.indexed_files == old(self).stats.indexed_files + 1
                    &&& final(self).stats.appended_files == old(self).stats.appended_files + 1
                    &&& final(self).stats.rebuilt_files == old(self).stats.rebuilt_files
                    &&& final(self).stats.failed_files == old(self).stats.failed_files
                    &&& final(self).failures == old(self).failures
                    &&& final(self).retained() == old(self).retained().union(
                        opt_set(previous_session(old(self).existing@, path@)),
                    )
                },
                CandidateOutcome::Rebuilt { fallback, session_id } => {
                    &&& final(self).stats.indexed_files == old(self).stats.indexed_files + 1
                    &&& final(self).stats.rebuilt_files == old(self).stats.rebuilt_files + 1
                    &&& final(self).stats.appended_files == old(self).stats.appended_files
                    &&& final(self).stats.fallback_rebuilt_files == old(
                        self,
                    ).stats.fallback_rebuilt_files + if fallback {
                        1int
                    } else {
                        0int
                    }
                    &&& final(self).stats.failed_files == old(self).stats.failed_files
                    &&& final(self).failures == old(self).failures
                    &&& final(self).retained() == old(self).retained().union(
                        opt_set(opt_view(session_id)),
                    )
                },
                CandidateOutcome::Failed { error } => {
                    &&& final(self).stats.failed_files == old(self).stats.failed_files + 1
                    &&& final(self).stats.indexed_files == old(self).stats.indexed_files
                    &&& final(self).failures@ == old(self).failures@.push(
                        final(self).failures@.last(),
                    )
                    &&& final(self).failures@.last().path@ == path@
                    &&& final(self).failures@.last().error@ == error@
                    &&& final(self).retained() == old(self).retained().union(
                        opt_set(previous_session(old(self).existing@, path@)),
                    )
                },
            },
    {
        match outcome {
            CandidateOutcome::Appended => {
                self.stats.indexed_files = self.stats.indexed_files + 1;
                self.stats.appended_files = self.stats.appended_files + 1;
                let prev = previous_session_id(&self.existing, path);
                self.retain(prev);
            },
            CandidateOutcome::Rebuilt { fallback, session_id } => {
                self.stats.indexed_files = self.stats.indexed_files + 1;
                self.stats.rebuilt_files = self.stats.rebuilt_files + 1;
                if fallback {
                    self.stats.fallback_rebuilt_files = self.stats.fallback_rebuilt_files + 1;
                }
                self.retain(session_id);
            },
            CandidateOutcome::Failed { error } => {
                self.stats.failed_files = self.stats.failed_files + 1;
                let prev = previous_session_id(&self.existing, path);
                self.retain(prev);
                self.failures.push(SyncFailure { path: path.clone(), error });
            },
        }
    }

    /// The cleanup of a sync: nothing for a scoped request; otherwise every
    /// remembered file the run did not see, deleting its session unless the
    /// run keeps that session.
    pub fn cleanup_plan(&self, scoped: bool) -> (r: Vec<CleanupAction>)
        ensures
            scoped ==> r@.len() == 0,
            !scoped ==> actions_view(r@) == cleanup_of(
                self.existing@,
                self.seen(),
                self.retained(),
            ),
    {
        let mut out: Vec<CleanupAction> = Vec::new();
        if scoped {
            return out;
        }
        let mut i: usize = 0;
        while i < self.existing.len()
            invariant
                i <= self.existing.len(),
                actions_view(out@) == cleanup_of(
                    self.existing@.take(i as int),
                    self.seen(),
                    self.retained(),
                ),
            decreases self.existing.len() - i,
        {
            let e = &self.existing[i];
            assert(self.existing@.take(i + 1 as int).drop_last() == self.existing@.take(i as int));
            assert(self.existing@.take(i + 1 as int).last() == self.existing@[i as int]);
            if !self.has_seen(&e.path) {
                let del = match &e.session_id {
                    Some(sid) => if self.keeps(sid) {
                        None
                    } else {
                        Some(sid.clone())
                    },
                    None => None,
                };
                let ghost before = out@;
                out.push(CleanupAction { path: e.path.clone(), delete_session: del });
                assert(actions_view(out@) =~= actions_view(before).push(
                    (e.path@, opt_view(del)),
                ));
            }
            i += 1;
        }
        assert(self.existing@.take(self.existing.len() as int) == self.existing@);
        out
    }

    /// Whether the run saw `path`.
    pub fn has_seen(&self, path: &String) -> (r: bool)
        ensures
            r == self.seen().contains(path@),
    {
        contains_string(&self.seen_paths, path)
    }

    /// Whether the run keeps session `sid`.
    pub fn keeps(&self, sid: &String) -> (r: bool)
        ensures
            r == self.retained().contains(sid@),
    {
        contains_string(&self.retained_session_ids, sid)
    }

    /// The report of the run: the counters with the number of removed files
    /// and the index totals, the failures, and `partial` when some file failed
    /// or a checkpoint was saved for a later run.
    pub fn finish(
        self,
        removed_files: usize,
        threads: usize,
        messages: usize,
        events: usize,
        cooldown: SyncCooldown,
        resume: SyncResume,
    ) -> (r: SyncReport)
        ensures
            r.stats == (SyncStats { removed_files, threads, messages, events, ..self.stats }),
            r.failures == self.failures,
            r.partial == (self.failures@.len() > 0 || resume.state@ == seq!['s', 'a', 'v', 'e', 'd']),
            self.wf() ==> {
                &&& r.stats.scanned_files == r.stats.indexed_files + r.stats.skipped_files
                    + r.stats.failed_files
                &&& r.stats.indexed_files == r.stats.appended_files + r.stats.rebuilt_files
                &&& r.failures@.len() == r.stats.failed_files
            },
            r.cooldown == cooldown,
            r.resume == resume,
    {
        let mut stats = self.stats;
        stats.removed_files = removed_files;
        stats.threads = threads;
        stats.messages = messages;
        stats.events = events;
        let saved = is_saved(&resume.state);
        SyncReport {
            partial: self.failures.len() > 0 || saved,
            stats,
            failures: self.failures,
            cooldown,
            resume,
        }
    }
}

/// Whether a checkpoint state is `saved`.
pub fn is_saved(state: &String) -> (r: bool)
    ensures
        r == (state@ == seq!['s', 'a', 'v', 'e', 'd']),
{
    let cs = crate::text::chars_of(state.as_str());
    let r = cs.len() == 5 && cs[0] == 's' && cs[1] == 'a' && cs[2] == 'v' && cs[3] == 'e' && cs[4]
        == 'd';
    assert(r ==> cs@ =~= seq!['s', 'a', 'v', 'e', 'd']);
    r
}

/// Whether `s` is one of `items`.
pub fn contains_string(items: &Vec<String>, s: &String) -> (r: bool)
    ensures
        r == views(items@).to_set().contains(s@),
{
    let mut i: usize = 0;
    while i < items.len()
        invariant
            i <= items.len(),
            forall|j: int| 0 <= j < i ==> items@[j]@ != s@,
        decreases items.len() - i,
    {
        if items[i] == *s {
            assert(views(items@)[i as int] == s@);
            return true;
        }
        i += 1;
    }
    assert(!views(items@).contains(s@)) by {
        if views(items@).contains(s@) {
            let j = choose|j: int| 0 <= j < views(items@).len() && views(items@)[j] == s@;
            assert(items@[j]@ == s@);
        }
    }
    false
}

/// The cleanup never deletes a session the run keeps, and never removes a
/// file the run saw.
pub proof fn lemma_cleanup_spares_kept(
    existing: Seq<ExistingFile>,
    seen: Set<Seq<char>>,
    retained: Set<Seq<char>>,
)
    ensures
        forall|k: int|
            0 <= k < cleanup_of(existing, seen, retained).len() ==> {
                let a = #[trigger] cleanup_of(existing, seen, retained)[k];
                &&& !seen.contains(a.0)
                &&& (a.1 matches Some(sid) ==> !retained.contains(sid))
            },
    decreases existing.len(),
{
    if existing.len() > 0 {
        lemma_cleanup_spares_kept(existing.drop_last(), seen, retained);
    }
}

/// Every remembered file that the run did not see is removed by the cleanup.
pub proof fn lemma_cleanup_covers_unseen(
    existing: Seq<ExistingFile>,
    seen: Set<Seq<char>>,
    retained: Set<Seq<char>>,
    i: int,
)
    requires
        0 <= i < existing.len(),
        !seen.contains(existing[i].path@),
    ensures
        exists|k: int|
            0 <= k < cleanup_of(existing, seen, retained).len() && (#[trigger] cleanup_of(
                existing,
                seen,
                retained,
            )[k]).0 == existing[i].path@,
    decreases existing.len(),
{
    let c = cleanup_of(existing, seen, retained);
    if i == existing.len() - 1 {
        assert(c[c.len() - 1].0 == existing[i].path@);
    } else {
        lemma_cleanup_covers_unseen(existing.drop_last(), seen, retained, i);
        let k = choose|k: int|
            0 <= k < cleanup_of(existing.drop_last(), seen, retained).len() && (#[trigger] cleanup_of(
                existing.drop_last(),
                seen,
                retained,
            )[k]).0 == existing[i].path@;
        assert(c[k] == cleanup_of(existing.drop_last(), seen, retained)[k]);
    }
}

} // verus!
