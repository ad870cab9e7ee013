use vstd::prelude::*;

use crate::search_meta::{join_strings, views};
use crate::sync_types::{opt_string_clone, opt_view, SyncLockStatus};
use crate::text::{decimal, decimal_string, join};
use crate::sync_cooldown::now_utc_nanos;
use crate::time_fmt::{parse_rfc3339, spec_parse_rfc3339};

verus! {

/// How long a heartbeat keeps a sync lock alive: 30 minutes, in nanoseconds.
pub open spec fn stale_window_nanos() -> int {
    1_800_000_000_000
}

/// The sync lock file.
#[derive(Debug, Clone)]
pub struct SyncLockFile {
    pub pid: u32,
    pub command: String,
    pub index_path: String,
    pub started_at: String,
    pub heartbeat_at: String,
}

/// What is found where the sync lock lives.
#[derive(Debug, Clone)]
pub enum LockFileContents {
    /// No lock file.
    Missing,
    /// A lock file that reads as a lock.
    Parsed(SyncLockFile),
    /// A lock file that does not; the parse error, and the file's
    /// modification time (nanoseconds since the Unix epoch) when it is known.
    Unparsable { error: String, modified_nanos: Option<i128> },
}

/// Whether a lock last seen alive at `then` (nanoseconds) is stale at `now`:
/// more than the window has passed.
pub open spec fn stale_since(then: int, now: int) -> bool {
    now - then > stale_window_nanos()
}

/// Whether more than the window has passed from `then` to `now`.
fn elapsed_beyond_window(then: i128, now: i128) -> (r: bool)
    ensures
        r == stale_since(then as int, now as int),
{
    match now.checked_sub(then) {
        Some(d) => d > 1_800_000_000_000i128,
        None => now > then,
    }
}

/// A heartbeat is stale when it is not RFC 3339 or older than the window.
pub open spec fn heartbeat_stale(heartbeat_at: Seq<char>, now: int) -> bool {
    match spec_parse_rfc3339(heartbeat_at) {
        Some(p) => stale_since(p.0, now),
        None => true,
    }
}

/// Whether the heartbeat `heartbeat_at` is stale at `now_nanos`.
pub fn is_heartbeat_stale(heartbeat_at: &str, now_nanos: i128) -> (r: bool)
    ensures
        r == heartbeat_stale(heartbeat_at@, now_nanos as int),
{
    match parse_rfc3339(heartbeat_at) {
        Some((nanos, _)) => elapsed_beyond_window(nanos, now_nanos),
        None => true,
    }
}

/// The reason given for a lock whose heartbeat expired.
pub open spec fn expired_reason() -> Seq<char> {
    "最近心跳已过期"@
}

/// The status of the sync lock at `lock_path` at the instant `now_nanos`:
/// idle without a lock file; for a readable lock, `stale` (with a reason)
/// when its heartbeat is stale, else `running`, with its pid and times; for
/// an unreadable one, stale when its modification time is unknown or older
/// than the window, with the parse error as reason.
pub fn lock_status(lock_path: String, contents: LockFileContents, now_nanos: i128) -> (r: SyncLockStatus)
    ensures
        r.lock_path == lock_path,
        match contents {
            LockFileContents::Missing => {
                &&& r.state@ == "idle"@
                &&& r.pid.is_none()
                &&& r.started_at.is_none()
                &&& r.heartbeat_at.is_none()
                &&& r.reason.is_none()
            },
            LockFileContents::Parsed(lock) => {
                let stale = heartbeat_stale(lock.heartbeat_at@, now_nanos as int);
                &&& r.state@ == (if stale {
                    "stale"@
                } else {
                    "running"@
                })
                &&& r.pid == Some(lock.pid)
                &&& opt_view(r.started_at) == Some(lock.started_at@)
                &&& opt_view(r.heartbeat_at) == Some(lock.heartbeat_at@)
                &&& opt_view(r.reason) == (if stale {
                    Some(expired_reason())
                } else {
                    None
                })
            },
            LockFileContents::Unparsable { error, modified_nanos } => {
                let stale = match modified_nanos {
                    Some(m) => stale_since(m as int, now_nanos as int),
                    None => true,
                };
                &&& r.state@ == (if stale {
                    "stale"@
                } else {
                    "running"@
                })
                &&& r.pid.is_none()
                &&& r.started_at.is_none()
                &&& r.heartbeat_at.is_none()
                &&& opt_view(r.reason) == Some("锁文件不可解析: "@ + error@)
            },
        },
{
    match contents {
        LockFileContents::Missing => SyncLockStatus {
            state: "idle".to_owned(),
            lock_path,
            pid: None,
            started_at: None,
            heartbeat_at: None,
            reason: None,
        },
        LockFileContents::Parsed(lock) => {
            let stale = is_heartbeat_stale(lock.heartbeat_at.as_str(), now_nanos);
            SyncLockStatus {
                state: if stale {
                    "stale".to_owned()
                } else {
                    "running".to_owned()
                },
                lock_path,
                pid: Some(lock.pid),
                started_at: Some(lock.started_at),
                heartbeat_at: Some(lock.heartbeat_at),
                reason: if stale {
                    Some("最近心跳已过期".to_owned())
                } else {
                    None
                },
            }
        },
        LockFileContents::Unparsable { error, modified_nanos } => {
            let stale = match modified_nanos {
                Some(m) => elapsed_beyond_window(m, now_nanos),
                None => true,
            };
            let mut reason = "锁文件不可解析: ".to_owned();
            reason.append(error.as_str());
            SyncLockStatus {
                state: if stale {
                    "stale".to_owned()
                } else {
                    "running".to_owned()
                },
                lock_path,
                pid: None,
                started_at: None,
                heartbeat_at: None,
                reason: Some(reason),
            }
        },
    }
}

/// The details shown of a conflicting lock: its pid, its last heartbeat and
/// its reason, those it has.
pub open spec fn conflict_details(s: SyncLockStatus) -> Seq<Seq<char>> {
    (match s.pid {
        Some(p) => seq!["pid="@ + decimal(p as nat)],
        None => seq![],
    }) + (match s.heartbeat_at {
        Some(h) => seq!["最近心跳 "@ + h@],
        None => seq![],
    }) + (match s.reason {
        Some(r) => seq![r@],
        None => seq![],
    })
}

/// The message refusing a sync while another holds the lock.
pub open spec fn conflict_message(s: SyncLockStatus) -> Seq<char> {
    let details = conflict_details(s);
    if details.len() == 0 {
        "已有 sync 正在运行，请稍后重试"@
    } else {
        "已有 sync 正在运行（"@ + join(details, "，"@) + "），请稍后重试"@
    }
}

/// `r` is a status `lock_status` may give at the instant `now`.
pub open spec fn lock_status_result(
    lock_path: String,
    contents: LockFileContents,
    now: i128,
    r: SyncLockStatus,
) -> bool {
    call_ensures(lock_status, (lock_path, contents, now), r)
}

/// The status of the sync lock at `lock_path` now (see `lock_status`, which
/// states it for every instant the clock may give).
pub fn current_lock_status(lock_path: String, contents: LockFileContents) -> (r: SyncLockStatus)
    ensures
        exists|now: i128| #[trigger] lock_status_result(lock_path, contents, now, r),
{
    let ghost path = lock_path;
    let ghost given = contents;
    let now = now_utc_nanos();
    let r = lock_status(lock_path, contents, now);
    assert(lock_status_result(path, given, now, r));
    r
}


/// The message refusing a sync while another holds the lock.
pub fn describe_lock_conflict(status: &SyncLockStatus) -> (r: String)
    ensures
        r@ == conflict_message(*status),
{
    let mut details: Vec<String> = Vec::new();
    assert(views(details@) =~= seq![]);
    if let Some(pid) = status.pid {
        let mut d = "pid=".to_owned();
        let n = decimal_string(pid as u64);
        d.append(n.as_str());
        details.push(d);
    }
    let ghost d1 = views(details@);
    if let Some(h) = &status.heartbeat_at {
        let mut d = "最近心跳 ".to_owned();
        d.append(h.as_str());
        details.push(d);
    }
    let ghost d2 = views(details@);
    if let Some(r) = &status.reason {
        details.push(r.clone());
    }
    assert(views(details@) =~= conflict_details(*status));
    if details.len() == 0 {
        return "已有 sync 正在运行，请稍后重试".to_owned();
    }
    let joined = join_strings(details.as_slice(), "，");
    let mut r = "已有 sync 正在运行（".to_owned();
    r.append(joined.as_str());
    r.append("），请稍后重试");
    r
}

/// What to do when the lock file already exists.
#[derive(Debug, Clone)]
pub enum LockConflict {
    /// Remove the stale lock and try again.
    Reclaim,
    /// Refuse, with this message.
    Refuse(String),
}

/// When the lock already exists: a stale lock is reclaimed; a live one
/// refuses the sync with `describe_lock_conflict`.
pub fn resolve_lock_conflict(status: &SyncLockStatus) -> (r: LockConflict)
    ensures
        status.state@ == "stale"@ ==> r is Reclaim,
        status.state@ != "stale"@ ==> (r matches LockConflict::Refuse(m) && m@ == conflict_message(
            *status,
        )),
{
    if crate::text::str_eq(status.state.as_str(), "stale") {
        LockConflict::Reclaim
    } else {
        LockConflict::Refuse(describe_lock_conflict(status))
    }
}

/// How many times the lock is tried before giving up on a lock that keeps
/// coming back stale.
pub fn lock_attempts() -> (r: usize)
    ensures
        r == 2,
{
    2
}

/// The message when a stale lock could not be taken over.
pub fn lock_takeover_failed(lock_path: &str) -> (r: String)
    ensures
        r@ == "无法接管过期的 sync 锁: "@ + lock_path@,
{
    let mut r = "无法接管过期的 sync 锁: ".to_owned();
    r.append(lock_path);
    r
}

/// The lock written by a sync started at `now`: this process, the `sync`
/// command, the index, started and last alive now.
pub fn new_lock_file(pid: u32, index_path: String, now: String) -> (r: SyncLockFile)
    ensures
        r.pid == pid,
        r.command@ == "sync"@,
        r.index_path == index_path,
        r.started_at@ == now@,
        r.heartbeat_at@ == now@,
{
    SyncLockFile {
        pid,
        command: "sync".to_owned(),
        index_path,
        started_at: now.clone(),
        heartbeat_at: now,
    }
}

/// Records a heartbeat at `now`.
pub fn beat(lock: &mut SyncLockFile, now: String)
    ensures
        final(lock).heartbeat_at == now,
        final(lock).pid == old(lock).pid,
        final(lock).command == old(lock).command,
        final(lock).index_path == old(lock).index_path,
        final(lock).started_at == old(lock).started_at,
{
    lock.heartbeat_at = now;
}

} // verus!
