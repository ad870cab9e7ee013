use vstd::prelude::*;

use crate::search_meta::views;
use crate::sync_state::{lookup, unchanged, CandidateFile, ExistingFile, is_unchanged};
use crate::sync_types::{
    opt_string_clone, opt_view, same_request, SyncCooldown, SyncCooldownPolicy, SyncPlan,
    SyncPreflight, SyncReport, SyncRequest, SyncResume, SyncScope, SyncStats,
};

verus! {

/// Why a sync could not be planned.
#[derive(Debug, Clone)]
pub enum SyncPlanError {
    /// A scope bound is not an RFC 3339 time.
    InvalidScopeTime { flag: String },
    /// A scope bound could not be formatted back.
    ScopeTimeFormat,
    /// `--recent 0`.
    ZeroRecent,
    /// `--budget-files 0`.
    ZeroBudget,
    /// `--since` is later than `--until`.
    InvertedRange,
    /// A modification time outside the range of the time crate.
    InvalidModifiedTime,
    /// A stored refresh time that is not RFC 3339.
    RefreshTimestamp { value: String },
    /// The end of a cooldown could not be computed or formatted.
    CooldownTimeFormat,
    /// A cooldown interval that is not a number with an `s`, `m` or `h` unit.
    InvalidCooldown { value: String },
}

impl SyncPlanError {
    /// The text shown for the error.
    pub open spec fn spec_message(&self) -> Seq<char> {
        match self {
            SyncPlanError::InvalidScopeTime { flag } => flag@
                + " 需要使用 RFC3339 时间，例如 2026-04-12T10:30:00Z"@,
            SyncPlanError::ScopeTimeFormat => "failed to format time"@,
            SyncPlanError::ZeroRecent => "--recent 需要大于 0"@,
            SyncPlanError::ZeroBudget => "--budget-files 需要大于 0"@,
            SyncPlanError::InvertedRange => "无效的同步时间范围: --since 不能晚于 --until"@,
            SyncPlanError::InvalidModifiedTime => "invalid modified time"@,
            SyncPlanError::RefreshTimestamp { value } => "failed to parse sync refresh timestamp "@
                + value@,
            SyncPlanError::CooldownTimeFormat => "failed to format cooldown time"@,
            SyncPlanError::InvalidCooldown { value } => "--cooldown 需要使用 s / m / h 单位，例如 30m: "@
                + value@,
        }
    }

    /// The text shown for the error.
    pub fn message(&self) -> (r: String)
        ensures
            r@ == self.spec_message(),
    {
        match self {
            SyncPlanError::InvalidScopeTime { flag } => {
                let mut s = flag.clone();
                s.append(" 需要使用 RFC3339 时间，例如 2026-04-12T10:30:00Z");
                s
            },
            SyncPlanError::ScopeTimeFormat => "failed to format time".to_owned(),
            SyncPlanError::ZeroRecent => "--recent 需要大于 0".to_owned(),
            SyncPlanError::ZeroBudget => "--budget-files 需要大于 0".to_owned(),
            SyncPlanError::InvertedRange => "无效的同步时间范围: --since 不能晚于 --until".to_owned(),
            SyncPlanError::InvalidModifiedTime => "invalid modified time".to_owned(),
            SyncPlanError::RefreshTimestamp { value } => {
                let mut s = "failed to parse sync refresh timestamp ".to_owned();
                s.append(value.as_str());
                s
            },
            SyncPlanError::CooldownTimeFormat => "failed to format cooldown time".to_owned(),
            SyncPlanError::InvalidCooldown { value } => {
                let mut s = "--cooldown 需要使用 s / m / h 单位，例如 30m: ".to_owned();
                s.append(value.as_str());
                s
            },
        }
    }
}

/// The action a preflight recommends.
pub enum PreflightAction {
    Skip,
    HeavySync,
    Sync,
}

/// The action a preflight recommends: skip when there is nothing or nothing
/// changed; a heavy sync from 1 GB in all, a 100 MB file or 100 changed files;
/// otherwise a sync.
pub open spec fn preflight_action(
    total_files: int,
    changed_files: int,
    total_bytes: int,
    largest_file_bytes: int,
) -> PreflightAction {
    if total_files == 0 || changed_files == 0 {
        PreflightAction::Skip
    } else if total_bytes >= 1_000_000_000 || largest_file_bytes >= 100_000_000 || changed_files
        >= 100 {
        PreflightAction::HeavySync
    } else {
        PreflightAction::Sync
    }
}

/// The name of a recommended action.
pub open spec fn action_name(a: PreflightAction) -> Seq<char> {
    match a {
        PreflightAction::Skip => "skip"@,
        PreflightAction::HeavySync => "heavy-sync"@,
        PreflightAction::Sync => "sync"@,
    }
}

/// The reason given with the recommended action.
pub open spec fn preflight_reason(
    total_files: int,
    changed_files: int,
    total_bytes: int,
    largest_file_bytes: int,
    scoped: bool,
) -> Seq<char> {
    if total_files == 0 {
        if scoped {
            "当前范围内未发现可同步的会话文件"@
        } else {
            "未发现可同步的会话文件"@
        }
    } else if changed_files == 0 {
        "未检测到发生变化的会话文件"@
    } else if total_bytes >= 1_000_000_000 || largest_file_bytes >= 100_000_000 || changed_files
        >= 100 {
        "检测到大体量或高变更同步，建议关注本次同步成本"@
    } else {
        "检测到有变更文件，建议执行同步"@
    }
}

/// The recommended action and its reason for a sync of `total_files` files of
/// which `changed_files` changed.
pub fn classify_preflight(
    total_files: usize,
    changed_files: usize,
    total_bytes: u64,
    largest_file_bytes: u64,
    scoped: bool,
) -> (r: (String, String))
    ensures
        r.0@ == action_name(
            preflight_action(
                total_files as int,
                changed_files as int,
                total_bytes as int,
                largest_file_bytes as int,
            ),
        ),
        r.1@ == preflight_reason(
            total_files as int,
            changed_files as int,
            total_bytes as int,
            largest_file_bytes as int,
            scoped,
        ),
{
    if total_files == 0 {
        let reason = if scoped {
            "当前范围内未发现可同步的会话文件".to_owned()
        } else {
            "未发现可同步的会话文件".to_owned()
        };
        return ("skip".to_owned(), reason);
    }
    if changed_files == 0 {
        return ("skip".to_owned(), "未检测到发生变化的会话文件".to_owned());
    }
    if total_bytes >= 1_000_000_000 || largest_file_bytes >= 100_000_000 || changed_files >= 100 {
        return (
            "heavy-sync".to_owned(),
            "检测到大体量或高变更同步，建议关注本次同步成本".to_owned(),
        );
    }
    ("sync".to_owned(), "检测到有变更文件，建议执行同步".to_owned())
}

/// The candidates that changed since the last sync, in order.
pub open spec fn changed_of(existing: Seq<ExistingFile>, cands: Seq<CandidateFile>) -> Seq<
    CandidateFile,
>
    decreases cands.len(),
{
    if cands.len() == 0 {
        seq![]
    } else {
        let prev = changed_of(existing, cands.drop_last());
        if unchanged(existing, cands.last()) {
            prev
        } else {
            prev.push(cands.last())
        }
    }
}

/// The paths of the candidates that did not change, in order.
pub open spec fn unchanged_paths_of(existing: Seq<ExistingFile>, cands: Seq<CandidateFile>) -> Seq<
    Seq<char>,
>
    decreases cands.len(),
{
    if cands.len() == 0 {
        seq![]
    } else {
        let prev = unchanged_paths_of(existing, cands.drop_last());
        if unchanged(existing, cands.last()) {
            prev.push(cands.last().path@)
        } else {
            prev
        }
    }
}

/// The summed sizes of the candidates, each read as `u64`.
pub open spec fn total_size(cands: Seq<CandidateFile>) -> int
    decreases cands.len(),
{
    if cands.len() == 0 {
        0
    } else {
        total_size(cands.drop_last()) + (cands.last().size as u64) as int
    }
}

/// The largest size of the candidates, read as `u64`; zero when there are none.
pub open spec fn largest_size(cands: Seq<CandidateFile>) -> int
    decreases cands.len(),
{
    if cands.len() == 0 {
        0
    } else {
        let prev = largest_size(cands.drop_last());
        let s = (cands.last().size as u64) as int;
        if s > prev {
            s
        } else {
            prev
        }
    }
}

proof fn lemma_total_size_prefix(cands: Seq<CandidateFile>, i: int)
    requires
        0 <= i <= cands.len(),
    ensures
        total_size(cands.take(i)) <= total_size(cands),
    decreases cands.len() - i,
{
    if i < cands.len() {
        lemma_total_size_prefix(cands, i + 1);
        assert(cands.take(i + 1).drop_last() == cands.take(i));
    } else {
        assert(cands.take(i) == cands);
    }
}

proof fn lemma_largest_bound(cands: Seq<CandidateFile>)
    ensures
        0 <= largest_size(cands) <= u64::MAX,
    decreases cands.len(),
{
    if cands.len() > 0 {
        lemma_largest_bound(cands.drop_last());
    }
}

/// Candidates split into the changed ones and the paths of the unchanged
/// ones, with the byte counts of all of them.
pub struct PreparedCandidates {
    pub changed: Vec<CandidateFile>,
    pub unchanged_paths: Vec<String>,
    pub total_bytes: u64,
    pub largest_file_bytes: u64,
}

/// Splits the candidates into changed files and unchanged paths, and sums and
/// maximizes their sizes.
pub fn partition_candidates(candidates: Vec<CandidateFile>, existing: &Vec<ExistingFile>) -> (r:
    PreparedCandidates)
    requires
        total_size(candidates@) <= u64::MAX,
    ensures
        r.changed@ == changed_of(existing@, candidates@),
        views(r.unchanged_paths@) == unchanged_paths_of(existing@, candidates@),
        r.total_bytes == total_size(candidates@),
        r.largest_file_bytes == largest_size(candidates@),
        r.changed@.len() + r.unchanged_paths@.len() == candidates@.len(),
{
    let mut changed: Vec<CandidateFile> = Vec::new();
    let mut unchanged_paths: Vec<String> = Vec::new();
    let mut total_bytes: u64 = 0;
    let mut largest_file_bytes: u64 = 0;
    let mut i: usize = 0;
    while i < candidates.len()
        invariant
            i <= candidates.len(),
            total_size(candidates@) <= u64::MAX,
            changed@ == changed_of(existing@, candidates@.take(i as int)),
            views(unchanged_paths@) == unchanged_paths_of(existing@, candidates@.take(i as int)),
            total_bytes == total_size(candidates@.take(i as int)),
            largest_file_bytes == largest_size(candidates@.take(i as int)),
            changed@.len() + unchanged_paths@.len() == i,
        decreases candidates.len() - i,
    {
        let c = &candidates[i];
        let ghost prefix = candidates@.take(i as int);
        assert(candidates@.take(i + 1 as int).drop_last() == prefix);
        assert(candidates@.take(i + 1 as int).last() == candidates@[i as int]);
        proof {
            lemma_total_size_prefix(candidates@, i + 1);
        }
        let size = c.size as u64;
        total_bytes = total_bytes + size;
        if size > largest_file_bytes {
            largest_file_bytes = size;
        }
        if is_unchanged(existing, c) {
            let ghost before = unchanged_paths@;
            unchanged_paths.push(c.path.clone());
            assert(views(unchanged_paths@) =~= views(before).push(c.path@));
        } else {
            changed.push(c.clone_candidate());
        }
        i += 1;
    }
    assert(candidates@.take(candidates.len() as int) == candidates@);
    PreparedCandidates { changed, unchanged_paths, total_bytes, largest_file_bytes }
}

impl CandidateFile {
    /// A copy of the candidate.
    pub fn clone_candidate(&self) -> (r: CandidateFile)
        ensures
            r == *self,
    {
        CandidateFile {
            path: self.path.clone(),
            modified_at: self.modified_at,
            size: self.size,
            effective_time: self.effective_time.clone(),
        }
    }
}

/// The paths of the candidates.
pub open spec fn paths_of(cands: Seq<CandidateFile>) -> Seq<Seq<char>> {
    cands.map_values(|c: CandidateFile| c.path@)
}

/// Splits the changed candidates at the file budget: the ones this run
/// processes and the paths left for a later run. A budget of zero is refused.
pub fn split_budgeted_candidates(candidates: Vec<CandidateFile>, budget_files: Option<usize>) -> (r:
    Result<(Vec<CandidateFile>, Vec<String>), SyncPlanError>)
    ensures
        budget_files == Some(0usize) <==> r is Err,
        r is Err ==> r->Err_0 is ZeroBudget,
        r matches Ok((run, rest)) ==> match budget_files {
            None => run@ == candidates@ && rest@.len() == 0,
            Some(limit) => if candidates@.len() <= limit {
                run@ == candidates@ && rest@.len() == 0
            } else {
                run@ == candidates@.take(limit as int) && views(rest@) == paths_of(
                    candidates@.skip(limit as int),
                )
            },
        },
{
    let limit = match budget_files {
        None => return Ok((candidates, Vec::new())),
        Some(l) => l,
    };
    if limit == 0 {
        return Err(SyncPlanError::ZeroBudget);
    }
    if candidates.len() <= limit {
        return Ok((candidates, Vec::new()));
    }
    let mut run: Vec<CandidateFile> = Vec::new();
    let mut rest: Vec<String> = Vec::new();
    let mut i: usize = 0;
    while i < candidates.len()
        invariant
            i <= candidates.len(),
            limit < candidates.len(),
            i <= limit ==> run@ == candidates@.take(i as int) && rest@.len() == 0,
            i > limit ==> run@ == candidates@.take(limit as int) && views(rest@) == paths_of(
                candidates@.subrange(limit as int, i as int),
            ),
        decreases candidates.len() - i,
    {
        if i < limit {
            run.push(candidates[i].clone_candidate());
            assert(candidates@.take(i + 1 as int) == candidates@.take(i as int).push(
                candidates@[i as int],
            ));
        } else {
            let ghost before = rest@;
            rest.push(candidates[i].path.clone());
            assert(candidates@.subrange(limit as int, i + 1 as int) == candidates@.subrange(
                limit as int,
                i as int,
            ).push(candidates@[i as int]));
            assert(views(rest@) =~= views(before).push(candidates@[i as int].path@));
            assert(paths_of(candidates@.subrange(limit as int, i + 1 as int)) =~= paths_of(
                candidates@.subrange(limit as int, i as int),
            ).push(candidates@[i as int].path@));
        }
        i += 1;
    }
    assert(candidates@.subrange(limit as int, candidates.len() as int) == candidates@.skip(
        limit as int,
    ));
    Ok((run, rest))
}

/// The last candidate with path `p`, if any.
pub open spec fn last_with_path(cands: Seq<CandidateFile>, p: Seq<char>) -> Option<CandidateFile>
    decreases cands.len(),
{
    if cands.len() == 0 {
        None
    } else if cands.last().path@ == p {
        Some(cands.last())
    } else {
        last_with_path(cands.drop_last(), p)
    }
}

/// The candidates of a saved checkpoint, in the saved order: each pending path
/// that some candidate has, once, taking the last candidate with that path.
pub open spec fn resume_of(cands: Seq<CandidateFile>, pending: Seq<Seq<char>>) -> (
    Seq<CandidateFile>,
    Set<Seq<char>>,
)
    decreases pending.len(),
{
    if pending.len() == 0 {
        (seq![], Set::empty())
    } else {
        let prev = resume_of(cands, pending.drop_last());
        let p = pending.last();
        if prev.1.contains(p) {
            prev
        } else {
            match last_with_path(cands, p) {
                Some(c) => (prev.0.push(c), prev.1.insert(p)),
                None => prev,
            }
        }
    }
}

/// The position of the last candidate with path `p`.
fn find_last_candidate(cands: &Vec<CandidateFile>, p: &String) -> (r: Option<usize>)
    ensures
        match r {
            Some(i) => i < cands.len() && last_with_path(cands@, p@) == Some(cands@[i as int]),
            None => last_with_path(cands@, p@).is_none(),
        },
{
    let mut n: usize = cands.len();
    assert(cands@.take(n as int) == cands@);
    while n > 0
        invariant
            n <= cands.len(),
            last_with_path(cands@, p@) == last_with_path(cands@.take(n as int), p@),
        decreases n,
    {
        assert(cands@.take(n as int).last() == cands@[n - 1]);
        assert(cands@.take(n as int).drop_last() == cands@.take(n - 1 as int));
        if cands[n - 1].path == *p {
            return Some(n - 1);
        }
        n -= 1;
    }
    None
}

/// No two candidates share a path.
pub open spec fn distinct_paths(cands: Seq<CandidateFile>) -> bool {
    forall|i: int, j: int| 0 <= i < j < cands.len() ==> cands[i].path@ != cands[j].path@
}

proof fn lemma_last_with_own_path(cands: Seq<CandidateFile>, i: int)
    requires
        distinct_paths(cands),
        0 <= i < cands.len(),
    ensures
        last_with_path(cands, cands[i].path@) == Some(cands[i]),
    decreases cands.len(),
{
    if i < cands.len() - 1 {
        let rest = cands.drop_last();
        assert(rest[i] == cands[i]);
        assert(distinct_paths(rest)) by {
            assert forall|a: int, b: int| 0 <= a < b < rest.len() implies rest[a].path@ != rest[b].path@ by {
                assert(rest[a] == cands[a] && rest[b] == cands[b]);
            }
        }
        lemma_last_with_own_path(rest, i);
    }
}

proof fn lemma_resume_prefix(cands: Seq<CandidateFile>, limit: int, k: int)
    requires
        distinct_paths(cands),
        0 <= limit <= cands.len(),
        0 <= k <= cands.len() - limit,
    ensures
        resume_of(cands, paths_of(cands.skip(limit)).take(k)).0 == cands.skip(limit).take(k),
        resume_of(cands, paths_of(cands.skip(limit)).take(k)).1 == paths_of(
            cands.skip(limit).take(k),
        ).to_set(),
    decreases k,
{
    let rest = cands.skip(limit);
    if k == 0 {
        assert(paths_of(rest).take(0) =~= seq![]);
        assert(rest.take(0) =~= seq![]);
        assert(paths_of(rest.take(0)) =~= seq![]);
        assert(paths_of(rest.take(0)).to_set() =~= Set::empty());
    } else {
        let j = k - 1;
        lemma_resume_prefix(cands, limit, j);
        let pend = paths_of(rest).take(k);
        assert(pend.drop_last() =~= paths_of(rest).take(j));
        assert(pend.last() == rest[j].path@);
        assert(rest[j] == cands[limit + j]);
        assert(!paths_of(rest.take(j)).to_set().contains(rest[j].path@)) by {
            if paths_of(rest.take(j)).to_set().contains(rest[j].path@) {
                let i = paths_of(rest.take(j)).index_of(rest[j].path@);
                assert(paths_of(rest.take(j))[i] == rest[i].path@);
                assert(rest[i] == cands[limit + i]);
            }
        }
        lemma_last_with_own_path(cands, limit + j);
        assert(rest.take(k) =~= rest.take(j).push(rest[j]));
        assert(paths_of(rest.take(k)) =~= paths_of(rest.take(j)).push(rest[j].path@));
        paths_of(rest.take(j)).lemma_push_to_set_commute(rest[j].path@);
    }
}

/// Resuming from the checkpoint a budgeted run saves picks up exactly the
/// files that run left, in the order it left them, when the next run finds
/// the same candidates (which never share a path).
pub proof fn lemma_resume_continues_budget(cands: Seq<CandidateFile>, limit: int)
    requires
        distinct_paths(cands),
        0 <= limit <= cands.len(),
    ensures
        resume_of(cands, paths_of(cands.skip(limit))).0 == cands.skip(limit),
{
    let rest = cands.skip(limit);
    lemma_resume_prefix(cands, limit, rest.len() as int);
    assert(paths_of(rest).take(rest.len() as int) =~= paths_of(rest));
    assert(rest.take(rest.len() as int) =~= rest);
}

/// Orders the candidates as a saved checkpoint lists them.
pub fn resume_candidates(candidates: Vec<CandidateFile>, pending_paths: &Vec<String>) -> (r: Vec<
    CandidateFile,
>)
    ensures
        r@ == resume_of(candidates@, views(pending_paths@)).0,
{
    let ghost pend = views(pending_paths@);
    let mut resumed: Vec<CandidateFile> = Vec::new();
    let mut used: Vec<String> = Vec::new();
    let mut i: usize = 0;
    while i < pending_paths.len()
        invariant
            i <= pending_paths.len(),
            pend == views(pending_paths@),
            resumed@ == resume_of(candidates@, pend.take(i as int)).0,
            views(used@).to_set() == resume_of(candidates@, pend.take(i as int)).1,
        decreases pending_paths.len() - i,
    {
        assert(pend.take(i + 1 as int).drop_last() == pend.take(i as int));
        assert(pend.take(i + 1 as int).last() == pending_paths@[i as int]@);
        let p = &pending_paths[i];
        if !crate::sync_state::contains_string(&used, p) {
            match find_last_candidate(&candidates, p) {
                Some(k) => {
                    resumed.push(candidates[k].clone_candidate());
                    let ghost before = used@;
                    used.push(p.clone());
                    assert(views(used@) =~= views(before).push(p@));
                    proof {
                        views(before).lemma_push_to_set_commute(p@);
                    }
                },
                None => {},
            }
        }
        i += 1;
    }
    assert(pend.take(pending_paths.len() as int) == pend);
    resumed
}

/// The checkpoint a budgeted run saved: its request and the paths it left.
#[derive(Debug, Clone)]
pub struct SyncCheckpoint {
    pub request: SyncRequest,
    pub pending_paths: Vec<String>,
}

/// The candidates of a run: with a checkpoint saved for the same request,
/// those it left, in its order; otherwise all of them. The flag tells
/// whether the run resumes a checkpoint.
pub fn apply_resume_state(
    candidates: Vec<CandidateFile>,
    request: &SyncRequest,
    checkpoint: Option<SyncCheckpoint>,
) -> (r: (Vec<CandidateFile>, bool))
    ensures
        match checkpoint {
            Some(c) => if same_request(c.request, *request) {
                r.0@ == resume_of(candidates@, views(c.pending_paths@)).0 && r.1
            } else {
                r.0@ == candidates@ && !r.1
            },
            None => r.0@ == candidates@ && !r.1,
        },
        (checkpoint matches Some(c) && {
            ||| opt_view(c.request.since) != opt_view(request.since)
            ||| opt_view(c.request.until) != opt_view(request.until)
            ||| opt_view(c.request.path) != opt_view(request.path)
            ||| c.request.recent != request.recent
            ||| c.request.budget_files != request.budget_files
        }) ==> (r.0@ == candidates@ && !r.1),
{
    match checkpoint {
        Some(c) => if c.request.same_as(request) {
            (resume_candidates(candidates, &c.pending_paths), true)
        } else {
            (candidates, false)
        },
        None => (candidates, false),
    }
}

/// A sync run ready to index: its plan, the changed candidates it processes,
/// the unchanged paths it passes over, and the changed paths left for a later
/// run.
#[derive(Debug)]
pub struct PreparedSyncRun {
    pub plan: SyncPlan,
    pub run_candidates: Vec<CandidateFile>,
    pub unchanged_paths: Vec<String>,
    pub remaining_paths: Vec<String>,
    pub resumed_from_checkpoint: bool,
}

/// Prepares a run over `candidates` (already ordered as the run takes them):
/// splits them into changed and unchanged files, plans the preflight, and
/// splits the changed ones at the file budget. The scope records the budget
/// and the number of candidates. A budget of zero is refused.
pub fn prepare_sync_run(
    scope: SyncScope,
    candidates: Vec<CandidateFile>,
    resumed: bool,
    existing: &Vec<ExistingFile>,
    request: &SyncRequest,
) -> (r: Result<PreparedSyncRun, SyncPlanError>)
    requires
        total_size(candidates@) <= u64::MAX,
    ensures
        request.budget_files == Some(0usize) <==> r is Err,
        r is Err ==> r->Err_0 is ZeroBudget,
        r matches Ok(p) ==> {
            let changed = changed_of(existing@, candidates@);
            let unchanged = unchanged_paths_of(existing@, candidates@);
            let total = candidates@.len() as int;
            &&& p.plan.scope == SyncScope {
                budget_files: request.budget_files,
                candidate_files: candidates@.len() as usize,
                ..scope
            }
            &&& p.plan.preflight.total_files == total
            &&& p.plan.preflight.changed_files == changed.len()
            &&& p.plan.preflight.unchanged_files == unchanged.len()
            &&& p.plan.preflight.total_bytes == total_size(candidates@)
            &&& p.plan.preflight.largest_file_bytes == largest_size(candidates@)
            &&& p.plan.preflight.recommended_action@ == action_name(
                preflight_action(
                    total,
                    changed.len() as int,
                    total_size(candidates@),
                    largest_size(candidates@),
                ),
            )
            &&& p.plan.preflight.reason@ == preflight_reason(
                total,
                changed.len() as int,
                total_size(candidates@),
                largest_size(candidates@),
                request.spec_is_scoped(),
            )
            &&& views(p.unchanged_paths@) == unchanged
            &&& p.resumed_from_checkpoint == resumed
            &&& match request.budget_files {
                Some(limit) if changed.len() > limit => {
                    &&& p.run_candidates@ == changed.take(limit as int)
                    &&& views(p.remaining_paths@) == paths_of(changed.skip(limit as int))
                },
                _ => p.run_candidates@ == changed && p.remaining_paths@.len() == 0,
            }
        },
{
    let count = candidates.len();
    let prepared = partition_candidates(candidates, existing);
    let preflight = build_preflight(&prepared, request.is_scoped());
    let PreparedCandidates { changed, unchanged_paths, .. } = prepared;
    let (run_candidates, remaining_paths) = split_budgeted_candidates(changed, request.budget_files)?;
    let mut scope = scope;
    scope.budget_files = request.budget_files;
    scope.candidate_files = count;
    Ok(PreparedSyncRun {
        plan: SyncPlan { scope, preflight },
        run_candidates,
        unchanged_paths,
        remaining_paths,
        resumed_from_checkpoint: resumed,
    })
}

/// Whether the lock heartbeat is due at this position of a loop (every 32nd).
pub fn heartbeat_due(index: usize) -> (r: bool)
    ensures
        r == (index % 32 == 0),
{
    index % 32 == 0
}

/// A checkpoint report.
pub fn build_sync_resume(
    state_path: String,
    state: String,
    budget_files: Option<usize>,
    resumed_from_checkpoint: bool,
    processed_files: usize,
    remaining_files: usize,
    reason: Option<String>,
) -> (r: SyncResume)
    ensures
        r == (SyncResume {
            state,
            state_path,
            budget_files,
            resumed_from_checkpoint,
            processed_files,
            remaining_files,
            reason,
        }),
{
    SyncResume {
        state,
        state_path,
        budget_files,
        resumed_from_checkpoint,
        processed_files,
        remaining_files,
        reason,
    }
}

/// What becomes of the checkpoint file after a run.
#[derive(Debug, Clone)]
pub enum ResumeAction {
    /// Save these paths for the next run.
    Save(Vec<String>),
    /// Remove the consumed checkpoint.
    Clear,
    /// Leave it as it is.
    Keep,
}

/// The checkpoint after a run: saved while changed files remain; completed
/// (and cleared) when a checkpoint was resumed and nothing remains; idle
/// otherwise.
pub fn plan_resume(
    state_path: String,
    budget_files: Option<usize>,
    remaining_paths: &Vec<String>,
    resumed_from_checkpoint: bool,
    processed_files: usize,
) -> (r: (SyncResume, ResumeAction))
    ensures
        r.0.state_path == state_path,
        r.0.budget_files == budget_files,
        r.0.processed_files == processed_files,
        remaining_paths@.len() > 0 ==> {
            &&& r.0.state@ == "saved"@
            &&& r.0.resumed_from_checkpoint == resumed_from_checkpoint
            &&& r.0.remaining_files == remaining_paths@.len()
            &&& opt_view(r.0.reason) == Some(
                "Remaining changed files were saved for the next sync run."@,
            )
            &&& r.1 matches ResumeAction::Save(paths) && views(paths@) == views(remaining_paths@)
        },
        remaining_paths@.len() == 0 && resumed_from_checkpoint ==> {
            &&& r.0.state@ == "completed"@
            &&& r.0.resumed_from_checkpoint
            &&& r.0.remaining_files == 0
            &&& opt_view(r.0.reason) == Some("Saved sync state was consumed and cleared."@)
            &&& r.1 is Clear
        },
        remaining_paths@.len() == 0 && !resumed_from_checkpoint ==> {
            &&& r.0.state@ == "idle"@
            &&& !r.0.resumed_from_checkpoint
            &&& r.0.remaining_files == 0
            &&& r.0.reason.is_none()
            &&& r.1 is Keep
        },
{
    if remaining_paths.len() > 0 {
        let paths = crate::search_meta::clone_strings(remaining_paths.as_slice());
        let resume = build_sync_resume(
            state_path,
            "saved".to_owned(),
            budget_files,
            resumed_from_checkpoint,
            processed_files,
            remaining_paths.len(),
            Some("Remaining changed files were saved for the next sync run.".to_owned()),
        );
        return (resume, ResumeAction::Save(paths));
    }
    if resumed_from_checkpoint {
        let resume = build_sync_resume(
            state_path,
            "completed".to_owned(),
            budget_files,
            true,
            processed_files,
            0,
            Some("Saved sync state was consumed and cleared.".to_owned()),
        );
        return (resume, ResumeAction::Clear);
    }
    (
        build_sync_resume(state_path, "idle".to_owned(), budget_files, false, processed_files, 0, None),
        ResumeAction::Keep,
    )
}

/// The plan reported when the cooldown skips a sync: the requested scope with
/// no candidates, and a skip preflight.
pub fn build_cooldown_skip_plan(request: &SyncRequest) -> (r: SyncPlan)
    ensures
        opt_view(r.scope.since) == opt_view(request.since),
        opt_view(r.scope.until) == opt_view(request.until),
        opt_view(r.scope.path) == opt_view(request.path),
        r.scope.recent == request.recent,
        r.scope.budget_files == request.budget_files,
        r.scope.candidate_files == 0,
        r.preflight.total_files == 0,
        r.preflight.changed_files == 0,
        r.preflight.unchanged_files == 0,
        r.preflight.total_bytes == 0,
        r.preflight.largest_file_bytes == 0,
        r.preflight.recommended_action@ == "skip"@,
        r.preflight.reason@ == "最近刚同步过，命中冷却时间"@,
{
    SyncPlan {
        scope: SyncScope {
            since: opt_string_clone(&request.since),
            until: opt_string_clone(&request.until),
            path: opt_string_clone(&request.path),
            recent: request.recent,
            budget_files: request.budget_files,
            candidate_files: 0,
        },
        preflight: SyncPreflight {
            total_files: 0,
            changed_files: 0,
            unchanged_files: 0,
            total_bytes: 0,
            largest_file_bytes: 0,
            recommended_action: "skip".to_owned(),
            reason: "最近刚同步过，命中冷却时间".to_owned(),
        },
    }
}

/// The counters of a run that indexed nothing: `skipped` files scanned and
/// skipped, and the index totals.
pub open spec fn idle_stats(skipped: usize, threads: usize, messages: usize, events: usize) -> SyncStats {
    SyncStats {
        scanned_files: skipped,
        indexed_files: 0,
        appended_files: 0,
        rebuilt_files: 0,
        fallback_rebuilt_files: 0,
        skipped_files: skipped,
        failed_files: 0,
        removed_files: 0,
        threads,
        messages,
        events,
    }
}

/// The report of a run that indexed nothing (a cooldown skip with
/// `skipped == 0`, or a preflight skip with every file skipped): not partial
/// and without failures.
pub fn idle_sync_report(
    skipped: usize,
    threads: usize,
    messages: usize,
    events: usize,
    cooldown: SyncCooldown,
    resume: SyncResume,
) -> (r: SyncReport)
    ensures
        r.stats == idle_stats(skipped, threads, messages, events),
        !r.partial,
        r.failures@.len() == 0,
        r.cooldown == cooldown,
        r.resume == resume,
{
    SyncReport {
        partial: false,
        stats: SyncStats {
            scanned_files: skipped,
            indexed_files: 0,
            appended_files: 0,
            rebuilt_files: 0,
            fallback_rebuilt_files: 0,
            skipped_files: skipped,
            failed_files: 0,
            removed_files: 0,
            threads,
            messages,
            events,
        },
        failures: Vec::new(),
        cooldown,
        resume,
    }
}

/// The preflight of a prepared run.
pub fn build_preflight(prepared: &PreparedCandidates, scoped: bool) -> (r: SyncPreflight)
    requires
        prepared.changed@.len() + prepared.unchanged_paths@.len() <= usize::MAX,
    ensures
        r.total_files == prepared.changed@.len() + prepared.unchanged_paths@.len(),
        r.changed_files == prepared.changed@.len(),
        r.unchanged_files == prepared.unchanged_paths@.len(),
        r.total_bytes == prepared.total_bytes,
        r.largest_file_bytes == prepared.largest_file_bytes,
        r.recommended_action@ == action_name(
            preflight_action(
                r.total_files as int,
                r.changed_files as int,
                r.total_bytes as int,
                r.largest_file_bytes as int,
            ),
        ),
        r.reason@ == preflight_reason(
            r.total_files as int,
            r.changed_files as int,
            r.total_bytes as int,
            r.largest_file_bytes as int,
            scoped,
        ),
{
    let total_files = prepared.changed.len() + prepared.unchanged_paths.len();
    let (recommended_action, reason) = classify_preflight(
        total_files,
        prepared.changed.len(),
        prepared.total_bytes,
        prepared.largest_file_bytes,
        scoped,
    );
    SyncPreflight {
        total_files,
        changed_files: prepared.changed.len(),
        unchanged_files: prepared.unchanged_paths.len(),
        total_bytes: prepared.total_bytes,
        largest_file_bytes: prepared.largest_file_bytes,
        recommended_action,
        reason,
    }
}

/// A sync where no file changed is recommended to be skipped.
pub proof fn lemma_nothing_changed_skips(total: int, bytes: int, largest: int)
    ensures
        preflight_action(total, 0, bytes, largest) is Skip,
{
}

/// Syncing again over files of which none changed since the index recorded
/// them indexes nothing: every candidate is unchanged, in order, and the
/// preflight recommends a skip (the run then reports `idle_stats`: every file
/// scanned and skipped, none indexed, failed or removed).
pub proof fn lemma_repeat_sync_is_idle(existing: Seq<ExistingFile>, cands: Seq<CandidateFile>)
    requires
        forall|i: int| 0 <= i < cands.len() ==> unchanged(existing, #[trigger] cands[i]),
    ensures
        changed_of(existing, cands) == Seq::<CandidateFile>::empty(),
        unchanged_paths_of(existing, cands) == paths_of(cands),
        preflight_action(cands.len() as int, 0, total_size(cands), largest_size(cands)) is Skip,
    decreases cands.len(),
{
    if cands.len() > 0 {
        let p = cands.drop_last();
        assert forall|i: int| 0 <= i < p.len() implies unchanged(existing, #[trigger] p[i]) by {
            assert(p[i] == cands[i]);
        }
        lemma_repeat_sync_is_idle(existing, p);
        assert(unchanged(existing, cands[cands.len() - 1]));
        assert(paths_of(cands) =~= paths_of(p).push(cands.last().path@));
    } else {
        assert(paths_of(cands) =~= Seq::<Seq<char>>::empty());
    }
}

/// A file the index does not remember, or remembers with another
/// modification time or size, is indexed again: it is among the changed
/// candidates.
pub proof fn lemma_modified_file_is_reindexed(existing: Seq<ExistingFile>, cands: Seq<CandidateFile>, i: int)
    requires
        0 <= i < cands.len(),
        lookup(existing, cands[i].path@) matches Some(e) ==> (e.modified_at != cands[i].modified_at
            || e.size != cands[i].size),
    ensures
        changed_of(existing, cands).contains(cands[i]),
    decreases cands.len(),
{
    let prev = changed_of(existing, cands.drop_last());
    if i == cands.len() - 1 {
        assert(cands.last() == cands[i]);
        assert(!unchanged(existing, cands[i]));
        assert(prev.push(cands[i])[prev.len() as int] == cands[i]);
    } else {
        assert(cands.drop_last()[i] == cands[i]);
        lemma_modified_file_is_reindexed(existing, cands.drop_last(), i);
        let k = choose|k: int| 0 <= k < prev.len() && prev[k] == cands[i];
        if !unchanged(existing, cands.last()) {
            assert(prev.push(cands.last())[k] == cands[i]);
        }
    }
}

/// Two runs over the same files: when the first run recorded every one of
/// its candidates (as `file_record` does, so no file failed) and the second
/// run finds only files of the first with the same path, modification time
/// and size (none added or changed), the second run indexes nothing: every
/// candidate is unchanged and the preflight recommends a skip, so it reports
/// `idle_stats` (every file scanned and skipped; none indexed, failed or
/// removed).
pub proof fn lemma_second_run_is_idle(
    first: Seq<CandidateFile>,
    records: Seq<ExistingFile>,
    second: Seq<CandidateFile>,
)
    requires
        distinct_paths(first),
        records.len() == first.len(),
        forall|i: int|
            0 <= i < first.len() ==> {
                &&& (#[trigger] records[i]).path@ == first[i].path@
                &&& records[i].modified_at == first[i].modified_at
                &&& records[i].size == first[i].size
            },
        forall|j: int|
            0 <= j < second.len() ==> exists|i: int|
                0 <= i < first.len() && (#[trigger] first[i]).path@ == (#[trigger] second[j]).path@
                    && first[i].modified_at == second[j].modified_at && first[i].size == second[j].size,
    ensures
        changed_of(records, second) == Seq::<CandidateFile>::empty(),
        unchanged_paths_of(records, second) == paths_of(second),
        preflight_action(second.len() as int, 0, total_size(second), largest_size(second)) is Skip,
{
    assert forall|j: int| 0 <= j < second.len() implies unchanged(records, #[trigger] second[j]) by {
        let i = choose|i: int|
            0 <= i < first.len() && (#[trigger] first[i]).path@ == second[j].path@
                && first[i].modified_at == second[j].modified_at && first[i].size == second[j].size;
        assert forall|k: int| 0 <= k < i implies (#[trigger] records[k]).path@ != records[i].path@ by {
            assert(records[k].path@ == first[k].path@);
        }
        crate::sync_state::lemma_lookup_finds(records, i);
    }
    lemma_repeat_sync_is_idle(records, second);
}

} // verus!
