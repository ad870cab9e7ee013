use vstd::prelude::*;

use time::OffsetDateTime;

use crate::sync_plan::SyncPlanError;
use crate::sync_types::{opt_view, same_request, SyncCooldown, SyncCooldownPolicy, SyncRequest};
use crate::time_fmt::{
    format_utc, parse_rfc3339, shift_rfc3339, spec_format_utc, spec_parse_rfc3339, spec_shift_rfc3339,
};

verus! {

/// The reason given when `--force` bypasses the cooldown.
pub open spec fn forced_reason() -> Seq<char> {
    "已通过 --force 跳过冷却检查"@
}

/// The reason given when the cooldown skips a sync.
pub open spec fn active_reason() -> Seq<char> {
    "最近刚同步过，命中冷却时间"@
}

/// The end of the cooldown that follows a sync completed at `completed_at`:
/// the instant (nanoseconds) `interval_seconds` later, and the offset the
/// completion time was written with; an error when the completion time is
/// not RFC 3339.
pub open spec fn cooldown_end(completed_at: Seq<char>, interval_seconds: u64) -> Result<
    (int, int),
    SyncPlanError,
> {
    match spec_parse_rfc3339(completed_at) {
        None => Err(SyncPlanError::RefreshTimestamp { value: arbitrary() }),
        Some(p) => Ok((p.0 + (interval_seconds as i64) * 1_000_000_000, p.1)),
    }
}

/// The RFC 3339 text of the cooldown end: the completion time moved on by the
/// interval (on its own date-time and offset). An error when the completion
/// time is not RFC 3339, or the end cannot be represented or formatted.
pub open spec fn next_allowed_text(completed_at: Seq<char>, interval_seconds: u64) -> Result<
    Seq<char>,
    SyncPlanError,
> {
    match spec_parse_rfc3339(completed_at) {
        None => Err(SyncPlanError::RefreshTimestamp { value: arbitrary() }),
        Some(_) => match spec_shift_rfc3339(completed_at, (interval_seconds as i64) as int) {
            None => Err(SyncPlanError::CooldownTimeFormat),
            Some(s) => Ok(s),
        },
    }
}

/// Errors agree in kind; a refresh-time error names the given text.
pub open spec fn same_error(got: SyncPlanError, want: SyncPlanError, completed_at: Seq<char>) -> bool {
    match want {
        SyncPlanError::RefreshTimestamp { .. } => got matches SyncPlanError::RefreshTimestamp {
            value,
        } && value@ == completed_at,
        SyncPlanError::CooldownTimeFormat => got is CooldownTimeFormat,
        _ => false,
    }
}

/// The end of the cooldown after a sync completed at `completed_at`.
fn cooldown_end_of(completed_at: &str, interval_seconds: u64) -> (r: Result<(i128, i32), SyncPlanError>)
    ensures
        match cooldown_end(completed_at@, interval_seconds) {
            Ok(end) => r matches Ok(x) && x.0 as int == end.0 && x.1 as int == end.1,
            Err(e) => r matches Err(g) && same_error(g, e, completed_at@),
        },
{
    let (nanos, offset) = match parse_rfc3339(completed_at) {
        None => return Err(SyncPlanError::RefreshTimestamp { value: completed_at.to_owned() }),
        Some(p) => p,
    };
    let secs: i64 = interval_seconds as i64;
    assert(-0x8000_0000_0000_0000 <= secs < 0x8000_0000_0000_0000);
    let step: i128 = (secs as i128) * 1_000_000_000i128;
    Ok((nanos + step, offset))
}

/// When the next sync of the same scope is allowed: the completion time plus
/// the interval, as RFC 3339 text at the completion time's offset.
pub fn next_allowed_at(completed_at: &str, interval_seconds: u64) -> (r: Result<String, SyncPlanError>)
    ensures
        match next_allowed_text(completed_at@, interval_seconds) {
            Ok(t) => r matches Ok(s) && s@ == t,
            Err(e) => r matches Err(g) && same_error(g, e, completed_at@),
        },
{
    if parse_rfc3339(completed_at).is_none() {
        return Err(SyncPlanError::RefreshTimestamp { value: completed_at.to_owned() });
    }
    match shift_rfc3339(completed_at, interval_seconds as i64) {
        Some(s) => Ok(s),
        None => Err(SyncPlanError::CooldownTimeFormat),
    }
}

/// Whether the cooldown after a sync completed at `completed_at` still runs at
/// the instant `now_nanos`.
pub fn is_cooldown_active(completed_at: &str, interval_seconds: u64, now_nanos: i128) -> (r: Result<
    bool,
    SyncPlanError,
>)
    ensures
        match cooldown_end(completed_at@, interval_seconds) {
            Ok(end) => r matches Ok(b) && b == (now_nanos < end.0),
            Err(e) => r matches Err(g) && same_error(g, e, completed_at@),
        },
{
    let (end, _) = cooldown_end_of(completed_at, interval_seconds)?;
    Ok(now_nanos < end)
}

/// Whether every character of `s` is an ASCII digit.
pub open spec fn all_digits(s: Seq<char>) -> bool {
    forall|i: int| 0 <= i < s.len() ==> '0' <= #[trigger] s[i] <= '9'
}

/// The number a string of decimal digits writes.
pub open spec fn digits_value(s: Seq<char>) -> int
    decreases s.len(),
{
    if s.len() == 0 {
        0
    } else {
        digits_value(s.drop_last()) * 10 + (s.last() as int - '0' as int)
    }
}

/// The seconds of an interval unit: `s`, `m` or `h`; zero for anything else.
pub open spec fn unit_seconds(c: char) -> int {
    if c == 's' {
        1
    } else if c == 'm' {
        60
    } else if c == 'h' {
        3600
    } else {
        0
    }
}

/// The seconds a cooldown interval such as `30m` stands for: decimal digits
/// followed by one unit, `s`, `m` or `h`; `None` for any other text or a
/// number of seconds beyond `u64`.
pub open spec fn cooldown_seconds(s: Seq<char>) -> Option<int> {
    if s.len() >= 2 && all_digits(s.drop_last()) && unit_seconds(s.last()) > 0 && digits_value(
        s.drop_last(),
    ) * unit_seconds(s.last()) <= u64::MAX {
        Some(digits_value(s.drop_last()) * unit_seconds(s.last()))
    } else {
        None
    }
}

proof fn lemma_digits_nonneg(s: Seq<char>, k: int)
    requires
        all_digits(s),
        0 <= k <= s.len(),
    ensures
        digits_value(s.take(k)) >= 0,
    decreases k,
{
    if k > 0 {
        lemma_digits_nonneg(s, k - 1);
        assert(s.take(k).drop_last() == s.take(k - 1));
        assert(s.take(k).last() == s[k - 1]);
    }
}

proof fn lemma_digits_monotone(s: Seq<char>, j: int, k: int)
    requires
        all_digits(s),
        0 <= j <= k <= s.len(),
    ensures
        digits_value(s.take(j)) <= digits_value(s.take(k)),
    decreases k - j,
{
    if j < k {
        lemma_digits_monotone(s, j, k - 1);
        lemma_digits_nonneg(s, k - 1);
        assert(s.take(k).drop_last() == s.take(k - 1));
        assert(s.take(k).last() == s[k - 1]);
    }
}

/// Reads a cooldown interval such as `45s`, `30m` or `2h` as seconds.
pub fn parse_cooldown_interval(raw: &str) -> (r: Result<u64, SyncPlanError>)
    ensures
        match cooldown_seconds(raw@) {
            Some(n) => r == Ok::<u64, SyncPlanError>(n as u64),
            None => r matches Err(SyncPlanError::InvalidCooldown { value }) && value@ == raw@,
        },
{
    let cs = crate::text::chars_of(raw);
    let n = cs.len();
    if n < 2 {
        return Err(SyncPlanError::InvalidCooldown { value: raw.to_owned() });
    }
    let last = cs[n - 1];
    let unit: u64 = if last == 's' {
        1
    } else if last == 'm' {
        60
    } else if last == 'h' {
        3600
    } else {
        return Err(SyncPlanError::InvalidCooldown { value: raw.to_owned() });
    };
    let ghost digits = cs@.drop_last();
    assert(unit as int == unit_seconds(cs@.last()));
    let mut acc: u64 = 0;
    let mut i: usize = 0;
    while i < n - 1
        invariant
            n == cs.len(),
            n >= 2,
            cs@ == raw@,
            digits == cs@.drop_last(),
            i <= n - 1,
            all_digits(digits.take(i as int)),
            acc as int == digits_value(digits.take(i as int)),
        decreases n - 1 - i,
    {
        let c = cs[i];
        assert(digits[i as int] == c);
        if !('0' <= c && c <= '9') {
            assert(!all_digits(digits));
            return Err(SyncPlanError::InvalidCooldown { value: raw.to_owned() });
        }
        let d: u64 = ((c as u32) - ('0' as u32)) as u64;
        assert(digits.take(i + 1 as int).drop_last() == digits.take(i as int));
        assert(digits.take(i + 1 as int).last() == c);
        assert(all_digits(digits.take(i + 1 as int))) by {
            assert forall|k: int| 0 <= k < i + 1 implies '0' <= #[trigger] digits.take(i + 1 as int)[k] <= '9' by {
                if k < i {
                    assert(digits.take(i + 1 as int)[k] == digits.take(i as int)[k]);
                }
            }
        }
        let next = match acc.checked_mul(10) {
            Some(t) => t.checked_add(d),
            None => None,
        };
        match next {
            Some(v) => {
                acc = v;
            },
            None => {
                proof {
                    if all_digits(digits) {
                        lemma_digits_monotone(digits, i + 1, digits.len() as int);
                        assert(digits.take(digits.len() as int) == digits);
                    }
                }
                return Err(SyncPlanError::InvalidCooldown { value: raw.to_owned() });
            },
        }
        i += 1;
    }
    assert(digits.take(i as int) == digits);
    match acc.checked_mul(unit) {
        Some(v) => Ok(v),
        None => Err(SyncPlanError::InvalidCooldown { value: raw.to_owned() }),
    }
}

/// The cooldown of a sync and whether it skips the run.
#[derive(Debug, Clone)]
pub struct SyncCooldownDecision {
    pub cooldown: SyncCooldown,
    pub should_skip: bool,
}

/// The last completed sync of a scope, as recorded after it.
#[derive(Debug, Clone)]
pub struct SyncRefreshState {
    pub request: SyncRequest,
    pub completed_at: String,
}

/// The cooldown decision for `request` at the instant `now_nanos`, given the
/// recorded last sync. A record of another scope counts as none. Without a
/// record the run goes ahead (`ready`, or `bypassed` with the forced reason).
/// With one, the cooldown reports when it completed and when the next run is
/// allowed; `--force` runs anyway, and otherwise the run is skipped (`active`)
/// while `now_nanos` is before the cooldown end.
pub fn decide_cooldown(
    request: &SyncRequest,
    policy: &SyncCooldownPolicy,
    refresh: Option<&SyncRefreshState>,
    now_nanos: i128,
) -> (r: Result<SyncCooldownDecision, SyncPlanError>)
    ensures
        ({
            let rec = match refresh {
                Some(s) => if same_request(s.request, *request) {
                    Some(s.completed_at@)
                } else {
                    None
                },
                None => None,
            };
            match rec {
                None => r matches Ok(d) && {
                    &&& d.cooldown.state@ == (if policy.force {
                        "bypassed"@
                    } else {
                        "ready"@
                    })
                    &&& d.cooldown.interval@ == policy.interval@
                    &&& d.cooldown.interval_seconds == policy.interval_seconds
                    &&& d.cooldown.last_completed_at.is_none()
                    &&& d.cooldown.next_allowed_at.is_none()
                    &&& opt_view(d.cooldown.reason) == (if policy.force {
                        Some(forced_reason())
                    } else {
                        None
                    })
                    &&& !d.should_skip
                },
                Some(c) => match (next_allowed_text(c, policy.interval_seconds), cooldown_end(
                    c,
                    policy.interval_seconds,
                )) {
                    (Ok(next), Ok(end)) => r matches Ok(d) && {
                        let active = !policy.force && now_nanos < end.0;
                        &&& d.cooldown.state@ == (if policy.force {
                            "bypassed"@
                        } else if active {
                            "active"@
                        } else {
                            "ready"@
                        })
                        &&& d.cooldown.interval@ == policy.interval@
                        &&& d.cooldown.interval_seconds == policy.interval_seconds
                        &&& opt_view(d.cooldown.last_completed_at) == Some(c)
                        &&& opt_view(d.cooldown.next_allowed_at) == Some(next)
                        &&& opt_view(d.cooldown.reason) == (if policy.force {
                            Some(forced_reason())
                        } else if active {
                            Some(active_reason())
                        } else {
                            None
                        })
                        &&& d.should_skip == active
                    },
                    (Err(e), _) => r matches Err(g) && same_error(g, e, c),
                    (_, Err(e)) => r matches Err(g) && same_error(g, e, c),
                },
            }
        }),
        (refresh matches Some(s) && {
            ||| opt_view(s.request.since) != opt_view(request.since)
            ||| opt_view(s.request.until) != opt_view(request.until)
            ||| opt_view(s.request.path) != opt_view(request.path)
            ||| s.request.recent != request.recent
            ||| s.request.budget_files != request.budget_files
        }) ==> (r matches Ok(d) && !d.should_skip && d.cooldown.last_completed_at.is_none()
            && d.cooldown.next_allowed_at.is_none()),
{
    let mut cooldown = SyncCooldown {
        state: if policy.force {
            "bypassed".to_owned()
        } else {
            "ready".to_owned()
        },
        interval: policy.interval.clone(),
        interval_seconds: policy.interval_seconds,
        last_completed_at: None,
        next_allowed_at: None,
        reason: None,
    };
    let state = match refresh {
        Some(s) => if s.request.same_as(request) {
            Some(s)
        } else {
            None
        },
        None => None,
    };
    if let Some(state) = state {
        cooldown.last_completed_at = Some(state.completed_at.clone());
        cooldown.next_allowed_at = Some(
            next_allowed_at(state.completed_at.as_str(), policy.interval_seconds)?,
        );
        if policy.force {
            cooldown.reason = Some("已通过 --force 跳过冷却检查".to_owned());
            return Ok(SyncCooldownDecision { cooldown, should_skip: false });
        }
        if is_cooldown_active(state.completed_at.as_str(), policy.interval_seconds, now_nanos)? {
            cooldown.state = "active".to_owned();
            cooldown.reason = Some("最近刚同步过，命中冷却时间".to_owned());
            return Ok(SyncCooldownDecision { cooldown, should_skip: true });
        }
    } else if policy.force {
        cooldown.reason = Some("已通过 --force 跳过冷却检查".to_owned());
    }
    Ok(SyncCooldownDecision { cooldown, should_skip: false })
}

/// Reads the clock: `OffsetDateTime::now_utc()`, as nanoseconds since the Unix
/// epoch (`unix_timestamp_nanos`). Nothing is stated of the result: it is the
/// time of the call.
#[verifier::external_body]
pub(crate) fn now_utc_nanos() -> (r: i128) {
    OffsetDateTime::now_utc().unix_timestamp_nanos()
}

/// The cooldown decision for `request` now (see `decide_cooldown`, which
/// states it for every instant the clock may give).
pub fn evaluate_sync_cooldown(
    request: &SyncRequest,
    policy: &SyncCooldownPolicy,
    refresh: Option<&SyncRefreshState>,
) -> (r: Result<SyncCooldownDecision, SyncPlanError>)
    ensures
        exists|now: i128| #[trigger] decide_cooldown_result(request, policy, refresh, now, r),
{
    let now = now_utc_nanos();
    let r = decide_cooldown(request, policy, refresh, now);
    assert(decide_cooldown_result(request, policy, refresh, now, r));
    r
}

/// `r` is a result `decide_cooldown` may give at the instant `now`.
pub open spec fn decide_cooldown_result(
    request: &SyncRequest,
    policy: &SyncCooldownPolicy,
    refresh: Option<&SyncRefreshState>,
    now: i128,
    r: Result<SyncCooldownDecision, SyncPlanError>,
) -> bool {
    call_ensures(decide_cooldown, (request, policy, refresh, now), r)
}

/// `r` is the RFC 3339 UTC text of the instant `now` (nanoseconds since the
/// Unix epoch), or `None` exactly when that instant cannot be formatted.
pub open spec fn utc_text_at(now: i128, r: Option<String>) -> bool {
    match r {
        Some(s) => spec_format_utc(now as int) == Some(s@),
        None => spec_format_utc(now as int).is_none(),
    }
}

/// The current time as RFC 3339 UTC text; `None` when it cannot be formatted.
pub fn now_rfc3339() -> (r: Option<String>)
    ensures
        exists|now: i128| #[trigger] utc_text_at(now, r),
{
    let now = now_utc_nanos();
    let r = format_utc(now);
    assert(utc_text_at(now, r));
    r
}

/// Records a completed sync in its cooldown: completed at `completed_at`, the
/// next run allowed one interval later.
pub fn record_completion(cooldown: &mut SyncCooldown, completed_at: String) -> (r: Result<
    (),
    SyncPlanError,
>)
    ensures
        match next_allowed_text(completed_at@, old(cooldown).interval_seconds) {
            Ok(next) => r is Ok && {
                &&& final(cooldown).state == old(cooldown).state
                &&& final(cooldown).interval == old(cooldown).interval
                &&& final(cooldown).interval_seconds == old(cooldown).interval_seconds
                &&& final(cooldown).reason == old(cooldown).reason
                &&& opt_view(final(cooldown).last_completed_at) == Some(completed_at@)
                &&& opt_view(final(cooldown).next_allowed_at) == Some(next)
            },
            Err(e) => r matches Err(g) && same_error(g, e, completed_at@),
        },
{
    let next = next_allowed_at(completed_at.as_str(), cooldown.interval_seconds)?;
    cooldown.last_completed_at = Some(completed_at);
    cooldown.next_allowed_at = Some(next);
    Ok(())
}

} // verus!
