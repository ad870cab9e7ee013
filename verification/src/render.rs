use vstd::prelude::*;

use crate::doctor::{DoctorIssue, DoctorRepairAction};
use crate::sync_types::{opt_string_clone, opt_view, SyncLockStatus, SyncPreflight, SyncRequest};
use crate::text::{decimal, decimal_string, str_eq};

verus! {

/// How a health status is shown.
pub open spec fn status_label(status: Seq<char>) -> Seq<char> {
    if status == "healthy"@ {
        "正常"@
    } else {
        "需关注"@
    }
}

/// How a health status is shown.
pub fn render_status(status: &str) -> (r: &'static str)
    ensures
        r@ == status_label(status@),
{
    if str_eq(status, "healthy") {
        "正常"
    } else {
        "需关注"
    }
}

/// How a lock state is shown.
pub open spec fn lock_state_label(state: Seq<char>) -> Seq<char> {
    if state == "running"@ {
        "运行中"@
    } else if state == "stale"@ {
        "过期"@
    } else {
        "空闲"@
    }
}

/// How the state of the sync lock is shown.
pub fn render_lock_state(lock: &SyncLockStatus) -> (r: &'static str)
    ensures
        r@ == lock_state_label(lock.state@),
{
    if str_eq(lock.state.as_str(), "running") {
        "运行中"
    } else if str_eq(lock.state.as_str(), "stale") {
        "过期"
    } else {
        "空闲"
    }
}

/// A listed line: `- [code] summary`, with ` (path)` when there is a path.
pub open spec fn listed_line(code: Seq<char>, summary: Seq<char>, path: Option<Seq<char>>) -> Seq<char> {
    match path {
        Some(p) => "- ["@ + code + "] "@ + summary + " ("@ + p + ")"@,
        None => "- ["@ + code + "] "@ + summary,
    }
}

fn listed(code: &str, summary: &str, path: &Option<String>) -> (r: String)
    ensures
        r@ == listed_line(code@, summary@, opt_view(*path)),
{
    let mut s = "- [".to_owned();
    s.append(code);
    s.append("] ");
    s.append(summary);
    if let Some(p) = path {
        s.append(" (");
        s.append(p.as_str());
        s.append(")");
    }
    s
}

/// How an issue is listed.
pub fn render_issue_line(issue: &DoctorIssue) -> (r: String)
    ensures
        r@ == listed_line(issue.code@, issue.summary@, opt_view(issue.path)),
{
    listed(issue.code.as_str(), issue.summary.as_str(), &issue.path)
}

/// How a repair is listed.
pub fn render_repair_line(action: &DoctorRepairAction) -> (r: String)
    ensures
        r@ == listed_line(action.code@, action.summary@, opt_view(action.path)),
{
    listed(action.code.as_str(), action.summary.as_str(), &action.path)
}

/// How a recommended sync action is shown.
pub open spec fn action_label(action: Seq<char>) -> Seq<char> {
    if action == "skip"@ {
        "跳过同步"@
    } else if action == "heavy-sync"@ {
        "执行同步（预计较重）"@
    } else if action == "rebuild-needed"@ {
        "建议重建"@
    } else {
        "执行同步"@
    }
}

/// How a recommended sync action is shown.
pub fn render_action(preflight: &SyncPreflight) -> (r: &'static str)
    ensures
        r@ == action_label(preflight.recommended_action@),
{
    let a = preflight.recommended_action.as_str();
    if str_eq(a, "skip") {
        "跳过同步"
    } else if str_eq(a, "heavy-sync") {
        "执行同步（预计较重）"
    } else if str_eq(a, "rebuild-needed") {
        "建议重建"
    } else {
        "执行同步"
    }
}

/// How a scope time bound is shown: the bound, or `全部`.
pub fn render_scope_bound(value: Option<&str>) -> (r: &str)
    ensures
        r@ == (match value {
            Some(v) => v@,
            None => "全部"@,
        }),
{
    match value {
        Some(v) => v,
        None => "全部",
    }
}

/// How a scope path filter is shown: the filter, or `全部`.
pub fn render_scope_path(value: Option<&str>) -> (r: &str)
    ensures
        r@ == (match value {
            Some(v) => v@,
            None => "全部"@,
        }),
{
    match value {
        Some(v) => v,
        None => "全部",
    }
}

/// How a `recent` limit is shown.
pub fn render_scope_recent(value: Option<usize>) -> (r: String)
    ensures
        r@ == (match value {
            Some(n) => "最近 "@ + decimal(n as nat) + " 个文件"@,
            None => "不限制"@,
        }),
{
    match value {
        Some(n) => {
            let mut s = "最近 ".to_owned();
            let d = decimal_string(n as u64);
            s.append(d.as_str());
            s.append(" 个文件");
            s
        },
        None => "不限制".to_owned(),
    }
}

/// An elapsed time as shown: whole milliseconds below a second, else seconds
/// with two decimals (truncated).
pub open spec fn duration_text(ms: u64) -> Seq<char> {
    if ms < 1000 {
        decimal(ms as nat) + "ms"@
    } else {
        let hundredths = (ms % 1000) / 10;
        decimal((ms / 1000) as nat) + "."@ + (if hundredths < 10 {
            "0"@
        } else {
            seq![]
        }) + decimal(hundredths as nat) + "s"@
    }
}

/// How an elapsed time in milliseconds is shown.
pub fn format_duration(ms: u64) -> (r: String)
    ensures
        r@ == duration_text(ms),
{
    if ms < 1000 {
        let mut s = decimal_string(ms);
        s.append("ms");
        return s;
    }
    let hundredths = (ms % 1000) / 10;
    let mut s = decimal_string(ms / 1000);
    s.append(".");
    if hundredths < 10 {
        s.append("0");
    }
    let h = decimal_string(hundredths);
    s.append(h.as_str());
    s.append("s");
    s
}

/// How a cooldown state is shown.
pub open spec fn cooldown_state_label(state: Seq<char>) -> Seq<char> {
    if state == "active"@ {
        "命中冷却，跳过本次同步"@
    } else if state == "bypassed"@ {
        "已通过 --force 跳过冷却检查"@
    } else {
        "未命中冷却"@
    }
}

/// How the state of the sync cooldown is shown.
pub fn render_cooldown_state(state: &str) -> (r: &'static str)
    ensures
        r@ == cooldown_state_label(state@),
{
    if str_eq(state, "active") {
        "命中冷却，跳过本次同步"
    } else if str_eq(state, "bypassed") {
        "已通过 --force 跳过冷却检查"
    } else {
        "未命中冷却"
    }
}

/// The sync request of the command line's scope options.
pub fn build_request(
    since: &Option<String>,
    until: &Option<String>,
    path: &Option<String>,
    recent: Option<usize>,
    budget_files: Option<usize>,
) -> (r: SyncRequest)
    ensures
        opt_view(r.since) == opt_view(*since),
        opt_view(r.until) == opt_view(*until),
        opt_view(r.path) == opt_view(*path),
        r.recent == recent,
        r.budget_files == budget_files,
{
    SyncRequest {
        since: opt_string_clone(since),
        until: opt_string_clone(until),
        path: opt_string_clone(path),
        recent,
        budget_files,
    }
}

} // verus!
