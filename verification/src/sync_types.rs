use vstd::prelude::*;

verus! {

/// Counters of one sync run.
#[derive(Debug, Clone, Copy)]
pub struct SyncStats {
    pub scanned_files: usize,
    pub indexed_files: usize,
    pub appended_files: usize,
    pub rebuilt_files: usize,
    pub fallback_rebuilt_files: usize,
    pub skipped_files: usize,
    pub failed_files: usize,
    pub removed_files: usize,
    pub threads: usize,
    pub messages: usize,
    pub events: usize,
}

/// A session file that could not be indexed, and why.
#[derive(Debug, Clone)]
pub struct SyncFailure {
    pub path: String,
    pub error: String,
}

/// The scope a sync was asked for.
#[derive(Debug, Clone)]
pub struct SyncRequest {
    pub since: Option<String>,
    pub until: Option<String>,
    pub path: Option<String>,
    pub recent: Option<usize>,
    pub budget_files: Option<usize>,
}

/// The scope a sync actually covered.
#[derive(Debug, Clone)]
pub struct SyncScope {
    pub since: Option<String>,
    pub until: Option<String>,
    pub path: Option<String>,
    pub recent: Option<usize>,
    pub budget_files: Option<usize>,
    pub candidate_files: usize,
}

/// The size of a sync and what is recommended before running it.
#[derive(Debug, Clone)]
pub struct SyncPreflight {
    pub total_files: usize,
    pub changed_files: usize,
    pub unchanged_files: usize,
    pub total_bytes: u64,
    pub largest_file_bytes: u64,
    pub recommended_action: String,
    pub reason: String,
}

/// Scope and preflight of a sync.
#[derive(Debug, Clone)]
pub struct SyncPlan {
    pub scope: SyncScope,
    pub preflight: SyncPreflight,
}

/// The state of the budgeted-sync checkpoint after a run.
#[derive(Debug, Clone)]
pub struct SyncResume {
    pub state: String,
    pub state_path: String,
    pub budget_files: Option<usize>,
    pub resumed_from_checkpoint: bool,
    pub processed_files: usize,
    pub remaining_files: usize,
    pub reason: Option<String>,
}

/// The cooldown between syncs of the same scope.
#[derive(Debug, Clone)]
pub struct SyncCooldown {
    pub state: String,
    pub interval: String,
    pub interval_seconds: u64,
    pub last_completed_at: Option<String>,
    pub next_allowed_at: Option<String>,
    pub reason: Option<String>,
}

/// The cooldown a sync was asked to honor.
#[derive(Debug, Clone)]
pub struct SyncCooldownPolicy {
    pub force: bool,
    pub interval: String,
    pub interval_seconds: u64,
}

/// The outcome of a sync run.
#[derive(Debug, Clone)]
pub struct SyncReport {
    pub stats: SyncStats,
    pub partial: bool,
    pub failures: Vec<SyncFailure>,
    pub cooldown: SyncCooldown,
    pub resume: SyncResume,
}

/// Whether the sync lock of an index is held, and by whom.
#[derive(Debug, Clone)]
pub struct SyncLockStatus {
    pub state: String,
    pub lock_path: String,
    pub pid: Option<u32>,
    pub started_at: Option<String>,
    pub heartbeat_at: Option<String>,
    pub reason: Option<String>,
}

/// Counts and location of an index.
#[derive(Debug, Clone)]
pub struct StatusSummary {
    pub index_path: String,
    pub fts_available: bool,
    pub files: usize,
    pub threads: usize,
    pub messages: usize,
    pub events: usize,
    pub sync_lock: SyncLockStatus,
}

/// The view of an optional string.
pub open spec fn opt_view(o: Option<String>) -> Option<Seq<char>> {
    match o {
        Some(s) => Some(s@),
        None => None,
    }
}

/// Equality of optional strings.
pub fn opt_string_eq(a: &Option<String>, b: &Option<String>) -> (r: bool)
    ensures
        r == (opt_view(*a) == opt_view(*b)),
{
    match (a, b) {
        (Some(x), Some(y)) => *x == *y,
        (None, None) => true,
        _ => false,
    }
}

/// A copy of an optional string.
pub fn opt_string_clone(a: &Option<String>) -> (r: Option<String>)
    ensures
        opt_view(r) == opt_view(*a),
{
    match a {
        Some(x) => Some(x.clone()),
        None => None,
    }
}

/// Two sync requests ask for the same scope.
pub open spec fn same_request(a: SyncRequest, b: SyncRequest) -> bool {
    &&& opt_view(a.since) == opt_view(b.since)
    &&& opt_view(a.until) == opt_view(b.until)
    &&& opt_view(a.path) == opt_view(b.path)
    &&& a.recent == b.recent
    &&& a.budget_files == b.budget_files
}

/// Two requests ask for the same scope exactly when they agree on every
/// field: `since`, `until`, `path`, `recent` and `budget_files`. In
/// particular a request with another `since` is never the same scope.
pub proof fn lemma_same_request_is_field_equality(a: SyncRequest, b: SyncRequest)
    ensures
        same_request(a, b) <==> {
            &&& opt_view(a.since) == opt_view(b.since)
            &&& opt_view(a.until) == opt_view(b.until)
            &&& opt_view(a.path) == opt_view(b.path)
            &&& a.recent == b.recent
            &&& a.budget_files == b.budget_files
        },
        opt_view(a.since) != opt_view(b.since) ==> !same_request(a, b),
        same_request(a, a),
        same_request(a, b) ==> same_request(b, a),
{
}

impl SyncRequest {
    /// Whether the request narrows the files a sync covers (`since`, `until`,
    /// `path` or `recent`); the budget does not narrow it.
    pub open spec fn spec_is_scoped(&self) -> bool {
        self.since.is_some() || self.until.is_some() || self.path.is_some() || self.recent.is_some()
    }

    /// Whether the request narrows the files a sync covers.
    pub fn is_scoped(&self) -> (r: bool)
        ensures
            r == self.spec_is_scoped(),
    {
        self.since.is_some() || self.until.is_some() || self.path.is_some() || self.recent.is_some()
    }

    /// Whether two requests ask for the same scope: every field agrees.
    pub fn same_as(&self, other: &SyncRequest) -> (r: bool)
        ensures
            r == same_request(*self, *other),
            r ==> opt_view(self.since) == opt_view(other.since),
            r ==> opt_view(self.until) == opt_view(other.until),
            r ==> opt_view(self.path) == opt_view(other.path),
            r ==> self.recent == other.recent && self.budget_files == other.budget_files,
    {
        opt_string_eq(&self.since, &other.since) && opt_string_eq(&self.until, &other.until)
            && opt_string_eq(&self.path, &other.path) && self.recent == other.recent
            && self.budget_files == other.budget_files
    }
}

} // verus!
