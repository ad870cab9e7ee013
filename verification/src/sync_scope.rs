use vstd::prelude::*;

use crate::search_meta::views;
use crate::sync_plan::SyncPlanError;
use crate::sync_state::CandidateFile;
use crate::sync_types::{opt_string_clone, opt_view, SyncRequest, SyncScope};
use crate::text::{
    chars_lt, chars_of, contains_chars, contains_seq, lemma_seq_lt_irreflexive,
    lemma_seq_lt_transitive, seq_lt, spec_to_lowercase, string_from_chars, to_lowercase, trim,
    trimmed,
};
use crate::time_fmt::{
    format_utc, normalize_rfc3339, parse_rfc3339, parse_rollout_stamp, spec_format_utc,
    spec_normalize_rfc3339, spec_parse_rfc3339,
    spec_parse_rollout_stamp,
};

verus! {

/// A session file found under the sessions directory.
#[derive(Debug, Clone)]
pub struct ScannedFile {
    pub path: String,
    pub file_name: Option<String>,
    pub modified_at: i64,
    pub size: i64,
}

/// A path is in scope when there is no path filter or its lower-cased form
/// holds the (lower-cased) filter.
pub open spec fn in_path_scope(path: Seq<char>, filter: Option<Seq<char>>) -> bool {
    match filter {
        None => true,
        Some(f) => contains_seq(spec_to_lowercase(path), f),
    }
}

/// Whether `path` is in the path scope.
pub fn matches_path_scope(path: &str, filter: Option<&str>) -> (r: bool)
    ensures
        r == in_path_scope(
            path@,
            match filter {
                Some(f) => Some(f@),
                None => None,
            },
        ),
{
    match filter {
        None => true,
        Some(f) => {
            let lower = to_lowercase(path);
            contains_chars(&chars_of(lower.as_str()), &chars_of(f))
        },
    }
}

/// A time is in scope when it is not before `since` and not after `until`
/// (string order, as both are RFC 3339 texts).
pub open spec fn in_time_scope(t: Seq<char>, since: Option<Seq<char>>, until: Option<Seq<char>>) -> bool {
    &&& (since matches Some(s) ==> !seq_lt(t, s))
    &&& (until matches Some(u) ==> !seq_lt(u, t))
}

/// Whether `t` is in the time scope.
pub fn matches_time_scope(t: &str, since: Option<&str>, until: Option<&str>) -> (r: bool)
    ensures
        r == in_time_scope(
            t@,
            match since {
                Some(s) => Some(s@),
                None => None,
            },
            match until {
                Some(u) => Some(u@),
                None => None,
            },
        ),
{
    let tc = chars_of(t);
    if let Some(s) = since {
        if chars_lt(&tc, &chars_of(s)) {
            return false;
        }
    }
    if let Some(u) = until {
        if chars_lt(&chars_of(u), &tc) {
            return false;
        }
    }
    true
}

/// A scope bound as stored: absent or blank stays absent; otherwise the RFC
/// 3339 time it denotes, formatted again as given; an error when it is not
/// RFC 3339 or cannot be formatted.
pub open spec fn normalized_scope_time(value: Option<Seq<char>>) -> Option<Option<Option<Seq<char>>>> {
    match value {
        None => Some(Some(None)),
        Some(v) => if trimmed(v).len() == 0 {
            Some(Some(None))
        } else {
            match spec_normalize_rfc3339(v) {
                None => None,
                Some(None) => Some(None),
                Some(Some(s)) => Some(Some(Some(s))),
            }
        },
    }
}

/// Normalizes a scope bound given with `flag` (see `normalized_scope_time`:
/// `None` there is the parse error, `Some(None)` the format error).
pub fn normalize_scope_time(value: Option<&str>, flag: &str) -> (r: Result<Option<String>, SyncPlanError>)
    ensures
        ({
            let v = match value {
                Some(x) => Some(x@),
                None => None,
            };
            match normalized_scope_time(v) {
                None => r matches Err(SyncPlanError::InvalidScopeTime { flag: f }) && f@ == flag@,
                Some(None) => r matches Err(SyncPlanError::ScopeTimeFormat),
                Some(Some(o)) => r matches Ok(x) && opt_view(x) == o,
            }
        }),
{
    let value = match value {
        None => return Ok(None),
        Some(v) => v,
    };
    let t = trim(value);
    if t.as_str().is_empty() {
        return Ok(None);
    }
    assert(t@.len() != 0);
    match normalize_rfc3339(value) {
        None => Err(SyncPlanError::InvalidScopeTime { flag: flag.to_owned() }),
        Some(None) => Err(SyncPlanError::ScopeTimeFormat),
        Some(Some(s)) => Ok(Some(s)),
    }
}

/// The checks a sync request passes before any file is read, in order: the
/// `since` and `until` bounds, `recent` and the budget not zero, and `since`
/// not after `until`. The result is the pair of normalized bounds.
pub open spec fn request_error(request: SyncRequest) -> Option<SyncPlanError> {
    match normalized_scope_time(opt_view(request.since)) {
        None => Some(SyncPlanError::InvalidScopeTime { flag: arbitrary() }),
        Some(None) => Some(SyncPlanError::ScopeTimeFormat),
        Some(Some(since)) => match normalized_scope_time(opt_view(request.until)) {
            None => Some(SyncPlanError::InvalidScopeTime { flag: arbitrary() }),
            Some(None) => Some(SyncPlanError::ScopeTimeFormat),
            Some(Some(until)) => if request.recent == Some(0usize) {
                Some(SyncPlanError::ZeroRecent)
            } else if request.budget_files == Some(0usize) {
                Some(SyncPlanError::ZeroBudget)
            } else if since is Some && until is Some && seq_lt(until.unwrap(), since.unwrap()) {
                Some(SyncPlanError::InvertedRange)
            } else {
                None
            },
        },
    }
}

/// `e` is the error the request has (see `request_error`); an invalid time
/// names its flag.
pub open spec fn is_request_error(e: SyncPlanError, request: SyncRequest) -> bool {
    match (e, request_error(request)) {
        (SyncPlanError::InvalidScopeTime { flag }, Some(SyncPlanError::InvalidScopeTime { .. })) => flag@
            == "--since"@ || flag@ == "--until"@,
        (SyncPlanError::ScopeTimeFormat, Some(SyncPlanError::ScopeTimeFormat)) => true,
        (SyncPlanError::ZeroRecent, Some(SyncPlanError::ZeroRecent)) => true,
        (SyncPlanError::ZeroBudget, Some(SyncPlanError::ZeroBudget)) => true,
        (SyncPlanError::InvertedRange, Some(SyncPlanError::InvertedRange)) => true,
        _ => false,
    }
}

/// Checks a sync request and returns its normalized time bounds.
pub fn validate_sync_request(request: &SyncRequest) -> (r: Result<
    (Option<String>, Option<String>),
    SyncPlanError,
>)
    ensures
        r is Ok <==> request_error(*request).is_none(),
        r matches Ok((s, u)) ==> Some(Some(opt_view(s))) == normalized_scope_time(
            opt_view(request.since),
        ) && Some(Some(opt_view(u))) == normalized_scope_time(opt_view(request.until)),
        r matches Err(e) ==> is_request_error(e, *request),
{
    let since = match &request.since {
        Some(s) => normalize_scope_time(Some(s.as_str()), "--since")?,
        None => None,
    };
    let until = match &request.until {
        Some(u) => normalize_scope_time(Some(u.as_str()), "--until")?,
        None => None,
    };
    if request.recent == Some(0usize) {
        return Err(SyncPlanError::ZeroRecent);
    }
    if request.budget_files == Some(0usize) {
        return Err(SyncPlanError::ZeroBudget);
    }
    if let (Some(s), Some(u)) = (&since, &until) {
        if crate::text::str_lt(u.as_str(), s.as_str()) {
            return Err(SyncPlanError::InvertedRange);
        }
    }
    Ok((since, until))
}

/// Whether `s` ends with `suffix`.
pub open spec fn has_suffix(s: Seq<char>, suffix: Seq<char>) -> bool {
    s.len() >= suffix.len() && s.skip(s.len() - suffix.len()) == suffix
}

/// Whether `s` starts with `prefix`.
pub open spec fn has_prefix(s: Seq<char>, prefix: Seq<char>) -> bool {
    s.len() >= prefix.len() && s.take(prefix.len() as int) == prefix
}

/// The last position among the first `n` where `pat` occurs in `s`.
pub open spec fn last_match_in(s: Seq<char>, pat: Seq<char>, n: nat) -> Option<int>
    decreases n,
{
    if n == 0 {
        None
    } else {
        let i = n - 1;
        if i + pat.len() <= s.len() && s.subrange(i, i + pat.len()) == pat {
            Some(i)
        } else {
            last_match_in(s, pat, (n - 1) as nat)
        }
    }
}

/// The part of `s` before the last occurrence of `pat`, or all of `s` when
/// `pat` does not occur (`rsplit_once(pat)` keeping the left side).
pub open spec fn before_last(s: Seq<char>, pat: Seq<char>) -> Seq<char> {
    match last_match_in(s, pat, s.len()) {
        Some(i) => s.take(i),
        None => s,
    }
}

/// The timestamp text of a rollout file name: the name without `.jsonl` and
/// `rollout-`, cut before its last `-session-`.
pub open spec fn rollout_stamp_text(file_name: Seq<char>) -> Option<Seq<char>> {
    if has_suffix(file_name, ".jsonl"@) {
        let stem = file_name.take(file_name.len() - ".jsonl"@.len());
        if has_prefix(stem, "rollout-"@) {
            Some(before_last(stem.skip("rollout-"@.len() as int), "-session-"@))
        } else {
            None
        }
    } else {
        None
    }
}

/// The session time a rollout file name carries, as RFC 3339 UTC text.
pub open spec fn session_timestamp_of(file_name: Seq<char>) -> Option<Seq<char>> {
    match rollout_stamp_text(file_name) {
        None => None,
        Some(t) => match spec_parse_rollout_stamp(t) {
            None => None,
            Some(n) => spec_format_utc(n),
        },
    }
}

/// Whether `s` ends with `suffix`.
fn ends_with(s: &Vec<char>, suffix: &Vec<char>) -> (r: bool)
    ensures
        r == has_suffix(s@, suffix@),
{
    if s.len() < suffix.len() {
        return false;
    }
    let start = s.len() - suffix.len();
    let mut k: usize = 0;
    while k < suffix.len()
        invariant
            k <= suffix.len(),
            start + suffix.len() == s.len(),
            forall|j: int| 0 <= j < k ==> s@[start + j] == suffix@[j],
        decreases suffix.len() - k,
    {
        if s[start + k] != suffix[k] {
            assert(s@.skip(start as int)[k as int] != suffix@[k as int]);
            return false;
        }
        k += 1;
    }
    assert(s@.skip(start as int) =~= suffix@);
    true
}

/// Whether `s` starts with `prefix`.
fn starts_with(s: &Vec<char>, prefix: &Vec<char>) -> (r: bool)
    ensures
        r == has_prefix(s@, prefix@),
{
    if s.len() < prefix.len() {
        return false;
    }
    let mut k: usize = 0;
    while k < prefix.len()
        invariant
            k <= prefix.len() <= s.len(),
            forall|j: int| 0 <= j < k ==> s@[j] == prefix@[j],
        decreases prefix.len() - k,
    {
        if s[k] != prefix[k] {
            assert(s@.take(prefix.len() as int)[k as int] != prefix@[k as int]);
            return false;
        }
        k += 1;
    }
    assert(s@.take(prefix.len() as int) =~= prefix@);
    true
}

/// The characters of `s` from `a` to `b`.
fn slice_chars(s: &Vec<char>, a: usize, b: usize) -> (r: Vec<char>)
    requires
        a <= b <= s.len(),
    ensures
        r@ == s@.subrange(a as int, b as int),
{
    let mut out: Vec<char> = Vec::new();
    let mut i: usize = a;
    while i < b
        invariant
            a <= i <= b <= s.len(),
            out@ == s@.subrange(a as int, i as int),
        decreases b - i,
    {
        out.push(s[i]);
        i += 1;
    }
    out
}

/// Whether `pat` occurs in `s` at `i`.
fn occurs_at(s: &Vec<char>, pat: &Vec<char>, i: usize) -> (r: bool)
    requires
        i <= s.len(),
    ensures
        r == (i + pat.len() <= s.len() && s@.subrange(i as int, i + pat.len()) == pat@),
{
    if pat.len() > s.len() - i {
        return false;
    }
    let mut k: usize = 0;
    while k < pat.len()
        invariant
            k <= pat.len(),
            i + pat.len() <= s.len(),
            forall|j: int| 0 <= j < k ==> s@[i + j] == pat@[j],
        decreases pat.len() - k,
    {
        if s[i + k] != pat[k] {
            assert(s@.subrange(i as int, i + pat.len())[k as int] != pat@[k as int]);
            return false;
        }
        k += 1;
    }
    assert(s@.subrange(i as int, i + pat.len()) =~= pat@);
    true
}

/// The part of `s` before the last occurrence of `pat`, or all of `s`.
fn cut_before_last(s: &Vec<char>, pat: &Vec<char>) -> (r: Vec<char>)
    ensures
        r@ == before_last(s@, pat@),
{
    let mut n: usize = s.len();
    while n > 0
        invariant
            n <= s.len(),
            last_match_in(s@, pat@, s.len() as nat) == last_match_in(s@, pat@, n as nat),
        decreases n,
    {
        if occurs_at(s, pat, n - 1) {
            return slice_chars(s, 0, n - 1);
        }
        n -= 1;
    }
    s.clone()
}

/// The session time a rollout file name carries (`rollout-<stamp>[-session-…].jsonl`),
/// as RFC 3339 UTC text.
pub fn extract_session_timestamp(file_name: &str) -> (r: Option<String>)
    ensures
        opt_view(r) == session_timestamp_of(file_name@),
{
    let name = chars_of(file_name);
    let suffix = chars_of(".jsonl");
    if !ends_with(&name, &suffix) {
        return None;
    }
    let stem = slice_chars(&name, 0, name.len() - suffix.len());
    assert(stem@ == file_name@.take(file_name@.len() - ".jsonl"@.len()));
    let prefix = chars_of("rollout-");
    if !starts_with(&stem, &prefix) {
        return None;
    }
    let rest = slice_chars(&stem, prefix.len(), stem.len());
    assert(rest@ == stem@.skip("rollout-"@.len() as int));
    let sep = chars_of("-session-");
    let stamp = cut_before_last(&rest, &sep);
    let stamp_s = string_from_chars(stamp.as_slice());
    match parse_rollout_stamp(stamp_s.as_str()) {
        None => None,
        Some(n) => format_utc(n),
    }
}

/// The time a candidate is scoped by: the time its rollout file name carries,
/// else its modification time as RFC 3339 UTC text; `None` when neither
/// exists.
pub open spec fn candidate_time(file_name: Option<Seq<char>>, modified_at: i64) -> Option<Seq<char>> {
    let from_name = match file_name {
        Some(n) => session_timestamp_of(n),
        None => None,
    };
    match from_name {
        Some(t) => Some(t),
        None => spec_format_utc(modified_at as int),
    }
}

/// The time a candidate is scoped by.
pub fn resolve_candidate_time(file_name: &Option<String>, modified_at: i64) -> (r: Result<
    String,
    SyncPlanError,
>)
    ensures
        match candidate_time(opt_view(*file_name), modified_at) {
            Some(t) => r matches Ok(s) && s@ == t,
            None => r matches Err(SyncPlanError::InvalidModifiedTime),
        },
{
    if let Some(name) = file_name {
        if let Some(t) = extract_session_timestamp(name.as_str()) {
            return Ok(t);
        }
    }
    match format_utc(modified_at as i128) {
        Some(t) => Ok(t),
        None => Err(SyncPlanError::InvalidModifiedTime),
    }
}

/// Candidates come newest first, and by path among equal times.
pub open spec fn cand_lt(a: CandidateFile, b: CandidateFile) -> bool {
    seq_lt(b.effective_time@, a.effective_time@) || (a.effective_time@ == b.effective_time@
        && seq_lt(a.path@, b.path@))
}

/// A sequence of candidates in that order.
pub open spec fn cands_sorted(s: Seq<CandidateFile>) -> bool {
    forall|i: int, j: int| 0 <= i < j < s.len() ==> !cand_lt(#[trigger] s[j], #[trigger] s[i])
}

proof fn lemma_cand_lt_order(a: CandidateFile, b: CandidateFile, c: CandidateFile)
    ensures
        !cand_lt(a, a),
        cand_lt(a, b) && cand_lt(b, c) ==> cand_lt(a, c),
{
    lemma_seq_lt_irreflexive(a.effective_time@);
    lemma_seq_lt_irreflexive(a.path@);
    if cand_lt(a, b) && cand_lt(b, c) {
        if seq_lt(b.effective_time@, a.effective_time@) && seq_lt(
            c.effective_time@,
            b.effective_time@,
        ) {
            lemma_seq_lt_transitive(c.effective_time@, b.effective_time@, a.effective_time@);
        }
        if a.effective_time@ == b.effective_time@ && b.effective_time@ == c.effective_time@ {
            lemma_seq_lt_transitive(a.path@, b.path@, c.path@);
        }
    }
}

/// Whether `a` comes before `b` among candidates.
fn candidate_before(a: &CandidateFile, b: &CandidateFile) -> (r: bool)
    ensures
        r == cand_lt(*a, *b),
{
    let at = chars_of(a.effective_time.as_str());
    let bt = chars_of(b.effective_time.as_str());
    if chars_lt(&bt, &at) {
        return true;
    }
    if a.effective_time == b.effective_time {
        return crate::text::str_lt(a.path.as_str(), b.path.as_str());
    }
    false
}

/// The candidates in order: newest first, then by path; equal candidates keep
/// their order.
pub fn sort_candidates(cands: Vec<CandidateFile>) -> (r: Vec<CandidateFile>)
    ensures
        cands_sorted(r@),
        r@.to_multiset() == cands@.to_multiset(),
{
    broadcast use vstd::seq_lib::group_to_multiset_ensures;

    let mut out: Vec<CandidateFile> = Vec::new();
    let mut i: usize = 0;
    while i < cands.len()
        invariant
            i <= cands.len(),
            cands_sorted(out@),
            out@.to_multiset() == cands@.take(i as int).to_multiset(),
        decreases cands.len() - i,
    {
        let x = cands[i].clone_candidate();
        let mut j: usize = 0;
        while j < out.len() && !candidate_before(&x, &out[j])
            invariant
                j <= out.len(),
                forall|k: int| 0 <= k < j ==> !cand_lt(x, #[trigger] out@[k]),
            decreases out.len() - j,
        {
            j += 1;
        }
        let ghost old_out = out@;
        out.insert(j, x);
        proof {
            assert(out@ == old_out.insert(j as int, x));
            vstd::seq_lib::to_multiset_insert(old_out, j as int, x);
            assert forall|p: int, q: int| 0 <= p < q < out@.len() implies !cand_lt(
                #[trigger] out@[q],
                #[trigger] out@[p],
            ) by {
                if q < j {
                    assert(out@[p] == old_out[p] && out@[q] == old_out[q]);
                } else if q == j {
                    assert(out@[p] == old_out[p]);
                } else if p < j {
                    assert(out@[p] == old_out[p] && out@[q] == old_out[q - 1]);
                    if cand_lt(old_out[q - 1], old_out[p]) {
                        assert(!cand_lt(old_out[q - 1], old_out[p]));
                    }
                } else if p == j {
                    assert(out@[q] == old_out[q - 1]);
                    assert(cand_lt(x, old_out[j as int]));
                    lemma_cand_lt_order(old_out[q - 1], x, old_out[j as int]);
                    if q - 1 > j {
                        assert(!cand_lt(old_out[q - 1], old_out[j as int]));
                    }
                    lemma_cand_lt_order(old_out[j as int], x, old_out[j as int]);
                } else {
                    assert(out@[p] == old_out[p - 1] && out@[q] == old_out[q - 1]);
                }
            }
            assert(cands@.take(i + 1 as int) == cands@.take(i as int).push(cands@[i as int]));
            vstd::seq_lib::to_multiset_build(cands@.take(i as int), cands@[i as int]);
        }
        i += 1;
    }
    assert(cands@.take(cands.len() as int) == cands@);
    out
}

/// What a candidate is made of: path, modification time, size, scope time.
pub open spec fn cand_view(c: CandidateFile) -> (Seq<char>, i64, i64, Seq<char>) {
    (c.path@, c.modified_at, c.size, c.effective_time@)
}

/// The views of candidates.
pub open spec fn cand_views(cs: Seq<CandidateFile>) -> Seq<(Seq<char>, i64, i64, Seq<char>)> {
    cs.map_values(|c: CandidateFile| cand_view(c))
}

/// A file name with the extension `jsonl`: it ends with `.jsonl` and has a
/// stem before it.
pub open spec fn is_session_name(file_name: Option<Seq<char>>) -> bool {
    match file_name {
        Some(n) => n.len() > ".jsonl"@.len() && has_suffix(n, ".jsonl"@),
        None => false,
    }
}

/// Whether a file name has the extension `jsonl`.
pub fn is_session_file_name(file_name: &Option<String>) -> (r: bool)
    ensures
        r == is_session_name(opt_view(*file_name)),
{
    match file_name {
        None => false,
        Some(n) => {
            let name = chars_of(n.as_str());
            let suffix = chars_of(".jsonl");
            name.len() > suffix.len() && ends_with(&name, &suffix)
        },
    }
}

/// The candidates among the first `n` scanned files, in scan order: the
/// session files in the path scope, each with its scope time, that are in the
/// time scope; `None` when such a file in the path scope has no scope time.
pub open spec fn scoped_upto(
    files: Seq<ScannedFile>,
    filter: Option<Seq<char>>,
    since: Option<Seq<char>>,
    until: Option<Seq<char>>,
    n: nat,
) -> Option<Seq<(Seq<char>, i64, i64, Seq<char>)>>
    decreases n,
{
    if n == 0 {
        Some(seq![])
    } else {
        match scoped_upto(files, filter, since, until, (n - 1) as nat) {
            None => None,
            Some(prev) => {
                let f = files[n - 1];
                if !is_session_name(opt_view(f.file_name)) || !in_path_scope(f.path@, filter) {
                    Some(prev)
                } else {
                    match candidate_time(opt_view(f.file_name), f.modified_at) {
                        None => None,
                        Some(t) => if in_time_scope(t, since, until) {
                            Some(prev.push((f.path@, f.modified_at, f.size, t)))
                        } else {
                            Some(prev)
                        },
                    }
                }
            },
        }
    }
}

proof fn lemma_scoped_none_stays(
    files: Seq<ScannedFile>,
    filter: Option<Seq<char>>,
    since: Option<Seq<char>>,
    until: Option<Seq<char>>,
    n: nat,
    m: nat,
)
    requires
        n <= m,
        scoped_upto(files, filter, since, until, n) is None,
    ensures
        scoped_upto(files, filter, since, until, m) is None,
    decreases m,
{
    if m > n {
        lemma_scoped_none_stays(files, filter, since, until, n, (m - 1) as nat);
    }
}

/// Every scoped candidate is in the path scope and its time in the time
/// scope.
pub proof fn lemma_scoped_in_scope(
    files: Seq<ScannedFile>,
    filter: Option<Seq<char>>,
    since: Option<Seq<char>>,
    until: Option<Seq<char>>,
    n: nat,
)
    ensures
        scoped_upto(files, filter, since, until, n) matches Some(s) ==> forall|k: int|
            0 <= k < s.len() ==> in_path_scope((#[trigger] s[k]).0, filter) && in_time_scope(s[k].3, since, until),
    decreases n,
{
    if n > 0 {
        lemma_scoped_in_scope(files, filter, since, until, (n - 1) as nat);
        if let Some(prev) = scoped_upto(files, filter, since, until, (n - 1) as nat) {
            if let Some(s) = scoped_upto(files, filter, since, until, n) {
                assert forall|k: int| 0 <= k < s.len() implies in_path_scope((#[trigger] s[k]).0, filter)
                    && in_time_scope(s[k].3, since, until) by {
                    if k < prev.len() {
                        assert(s[k] == prev[k]);
                    }
                }
            }
        }
    }
}

/// The path filter of a request, lower-cased.
pub open spec fn path_filter_of(request: SyncRequest) -> Option<Seq<char>> {
    match request.path {
        Some(p) => Some(spec_to_lowercase(p@)),
        None => None,
    }
}

/// Whether a file found under the sessions directory can be a candidate of
/// `request`: a session file in the path scope. Other files need not be
/// looked at further.
pub fn wanted_file(path: &str, file_name: &Option<String>, request: &SyncRequest) -> (r: bool)
    ensures
        r == (is_session_name(opt_view(*file_name)) && in_path_scope(path@, path_filter_of(*request))),
{
    if !is_session_file_name(file_name) {
        return false;
    }
    match &request.path {
        Some(p) => {
            let filter = to_lowercase(p.as_str());
            matches_path_scope(path, Some(filter.as_str()))
        },
        None => matches_path_scope(path, None),
    }
}

/// The candidates of the scanned files in scan order, before ordering and the
/// `recent` cut, for a request whose bounds normalize to `since` and `until`.
pub open spec fn scoped_candidates(
    files: Seq<ScannedFile>,
    request: SyncRequest,
    since: Option<Seq<char>>,
    until: Option<Seq<char>>,
) -> Option<Seq<(Seq<char>, i64, i64, Seq<char>)>> {
    scoped_upto(files, path_filter_of(request), since, until, files.len())
}

/// The number of candidates kept by a `recent` limit.
pub open spec fn kept_count(len: nat, recent: Option<usize>) -> nat {
    match recent {
        Some(k) => if (k as nat) < len { k as nat } else { len },
        None => len,
    }
}

/// Keeps the first `limit` candidates.
fn truncate_candidates(cands: &mut Vec<CandidateFile>, limit: usize)
    ensures
        final(cands)@ == old(cands)@.take(kept_count(old(cands)@.len(), Some(limit)) as int),
{
    if limit < cands.len() {
        cands.truncate(limit);
    }
}

/// The session files of a sync scope: checks the request, keeps the scanned
/// session files in the path and time scopes, orders them newest first (then
/// by path) and keeps the `recent` newest. The scope records the normalized
/// bounds and the number of candidates.
pub fn select_candidates(files: Vec<ScannedFile>, request: &SyncRequest) -> (r: Result<
    (SyncScope, Vec<CandidateFile>),
    SyncPlanError,
>)
    ensures
        request_error(*request) is Some ==> (r matches Err(e) && is_request_error(e, *request)),
        request_error(*request) is None ==> {
            let since = normalized_scope_time(opt_view(request.since))->0->0;
            let until = normalized_scope_time(opt_view(request.until))->0->0;
            match scoped_candidates(files@, *request, since, until) {
                None => r matches Err(SyncPlanError::InvalidModifiedTime),
                Some(all) => r matches Ok((scope, cands)) && {
                    &&& opt_view(scope.since) == since
                    &&& opt_view(scope.until) == until
                    &&& opt_view(scope.path) == opt_view(request.path)
                    &&& scope.recent == request.recent
                    &&& scope.budget_files == request.budget_files
                    &&& scope.candidate_files == cands.len()
                    &&& cands.len() == kept_count(all.len(), request.recent)
                    &&& exists|ordered: Seq<CandidateFile>|
                        {
                            &&& cands_sorted(ordered)
                            &&& cand_views(ordered).to_multiset() == all.to_multiset()
                            &&& cands@ == ordered.take(cands.len() as int)
                        }
                },
            }
        },
{
    let (since, until) = validate_sync_request(request)?;
    let filter: Option<String> = match &request.path {
        Some(p) => Some(to_lowercase(p.as_str())),
        None => None,
    };
    let ghost gsince = opt_view(since);
    let ghost guntil = opt_view(until);
    let ghost gfilter = path_filter_of(*request);
    assert(opt_view(filter) == gfilter);
    let mut out: Vec<CandidateFile> = Vec::new();
    let mut i: usize = 0;
    while i < files.len()
        invariant
            i <= files.len(),
            gsince == opt_view(since),
            guntil == opt_view(until),
            gfilter == opt_view(filter),
            gfilter == path_filter_of(*request),
            request_error(*request) is None,
            Some(Some(gsince)) == normalized_scope_time(opt_view(request.since)),
            Some(Some(guntil)) == normalized_scope_time(opt_view(request.until)),
            scoped_upto(files@, gfilter, gsince, guntil, i as nat) == Some(cand_views(out@)),
        decreases files.len() - i,
    {
        let f = &files[i];
        let ghost prev = cand_views(out@);
        if !is_session_file_name(&f.file_name) {
            i += 1;
            continue;
        }
        let in_path = match &filter {
            Some(fl) => matches_path_scope(f.path.as_str(), Some(fl.as_str())),
            None => matches_path_scope(f.path.as_str(), None),
        };
        if !in_path {
            i += 1;
            continue;
        }
        let t = match resolve_candidate_time(&f.file_name, f.modified_at) {
            Ok(t) => t,
            Err(e) => {
                proof {
                    lemma_scoped_none_stays(files@, gfilter, gsince, guntil, (i + 1) as nat, files@.len());
                }
                return Err(e);
            },
        };
        let keep = match (&since, &until) {
            (Some(s), Some(u)) => matches_time_scope(t.as_str(), Some(s.as_str()), Some(u.as_str())),
            (Some(s), None) => matches_time_scope(t.as_str(), Some(s.as_str()), None),
            (None, Some(u)) => matches_time_scope(t.as_str(), None, Some(u.as_str())),
            (None, None) => matches_time_scope(t.as_str(), None, None),
        };
        if keep {
            out.push(
                CandidateFile {
                    path: f.path.clone(),
                    modified_at: f.modified_at,
                    size: f.size,
                    effective_time: t,
                },
            );
            assert(cand_views(out@) =~= prev.push(cand_view(out@.last())));
        }
        i += 1;
    }
    assert(files@.len() == i);
    let ghost all = cand_views(out@);
    let mut ordered = sort_candidates(out);
    proof {
        assert(cand_views(ordered@).to_multiset() == all.to_multiset()) by {
            lemma_views_multiset(ordered@, out@);
        }
    }
    let ghost full = ordered@;
    proof {
        broadcast use vstd::seq_lib::group_to_multiset_ensures;

        assert(cand_views(full).to_multiset().len() == all.to_multiset().len());
        assert(full.len() == cand_views(full).len());
        assert(full.len() == all.len());
    }
    if let Some(limit) = request.recent {
        truncate_candidates(&mut ordered, limit);
    }
    let scope = SyncScope {
        since,
        until,
        path: opt_string_clone(&request.path),
        recent: request.recent,
        budget_files: request.budget_files,
        candidate_files: ordered.len(),
    };
    assert(ordered@ == full.take(ordered.len() as int));
    assert(ordered.len() == kept_count(all.len(), request.recent));
    assert(cands_sorted(full) && cand_views(full).to_multiset() == all.to_multiset() && ordered@
        == full.take(ordered.len() as int));
    Ok((scope, ordered))
}

proof fn lemma_views_multiset(a: Seq<CandidateFile>, b: Seq<CandidateFile>)
    requires
        a.to_multiset() == b.to_multiset(),
    ensures
        cand_views(a).to_multiset() == cand_views(b).to_multiset(),
    decreases a.len(),
{
    broadcast use vstd::seq_lib::group_to_multiset_ensures;
    broadcast use vstd::multiset::group_multiset_axioms;

    assert(a.to_multiset().len() == a.len());
    assert(b.to_multiset().len() == b.len());
    if a.len() == 0 {
        assert(b.len() == 0);
        assert(cand_views(a) =~= cand_views(b));
    } else {
        let x = a.last();
        let ad = a.drop_last();
        assert(a =~= ad.push(x));
        assert(a.to_multiset() =~= ad.to_multiset().insert(x));
        assert(a.to_multiset().count(x) > 0);
        assert(b.contains(x));
        let k = choose|k: int| 0 <= k < b.len() && b[k] == x;
        let br = b.remove(k);
        assert(br.to_multiset() == b.to_multiset().remove(x));
        assert(ad.to_multiset() =~= br.to_multiset());
        lemma_views_multiset(ad, br);
        let vx = cand_view(x);
        assert(cand_views(a) =~= cand_views(ad).push(vx));
        assert(cand_views(a).to_multiset() =~= cand_views(ad).to_multiset().insert(vx));
        assert(cand_views(b).remove(k) =~= cand_views(br));
        assert(cand_views(b)[k] == vx);
        assert(cand_views(b).remove(k).to_multiset() == cand_views(b).to_multiset().remove(vx));
        assert(cand_views(b).contains(vx));
        assert(cand_views(b).to_multiset().count(vx) > 0);
        assert(cand_views(b).to_multiset() =~= cand_views(br).to_multiset().insert(vx));
    }
}

} // verus!
