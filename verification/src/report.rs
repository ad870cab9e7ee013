use vstd::prelude::*;

use crate::doctor::{DoctorIssue, DoctorRepairAction, DoctorReport};
use crate::read::{EventRecord, MessageRecord, ThreadRecord};
use crate::render::{
    action_label, cooldown_state_label, listed_line, lock_state_label, render_action,
    render_cooldown_state, render_issue_line, render_lock_state, render_repair_line,
    render_scope_recent, render_status, status_label,
};
use crate::restore::{
    pin_action_label, render_pin_action, render_thread_action, thread_action_label,
    RestoreAppThreadReport,
};
use crate::search_meta::{join_strings, views};
use crate::search_rank::{EventSearchHit, MessageSearchHit, ThreadSearchHit};
use crate::sync_types::{opt_view, StatusSummary, SyncFailure, SyncPlan, SyncReport};
use crate::text::{decimal, decimal_string, join};

verus! {

// ---------------------------------------------------------------- pieces

/// The text, or `d` when there is none.
pub open spec fn opt_or(o: Option<Seq<char>>, d: Seq<char>) -> Seq<char> {
    match o {
        Some(v) => v,
        None => d,
    }
}

/// How a flag is shown (`Display` of `bool`).
pub open spec fn bool_text(b: bool) -> Seq<char> {
    if b {
        "true"@
    } else {
        "false"@
    }
}

/// A line `label` + value when there is a value, else no line.
pub open spec fn opt_line(label: Seq<char>, o: Option<Seq<char>>) -> Seq<Seq<char>> {
    match o {
        Some(v) => seq![label + v],
        None => seq![],
    }
}

/// Lines joined by new lines.
pub open spec fn lines_text(lines: Seq<Seq<char>>) -> Seq<char> {
    join(lines, "\n"@)
}

/// How a `recent` limit is shown.
pub open spec fn recent_label(value: Option<usize>) -> Seq<char> {
    match value {
        Some(n) => "最近 "@ + decimal(n as nat) + " 个文件"@,
        None => "不限制"@,
    }
}

fn cat(a: &str, b: &str) -> (r: String)
    ensures
        r@ == a@ + b@,
{
    let mut s = a.to_owned();
    s.append(b);
    s
}

fn num(label: &str, n: usize) -> (r: String)
    ensures
        r@ == label@ + decimal(n as nat),
{
    let d = decimal_string(n as u64);
    cat(label, d.as_str())
}

fn flag(label: &str, b: bool) -> (r: String)
    ensures
        r@ == label@ + bool_text(b),
{
    if b {
        cat(label, "true")
    } else {
        cat(label, "false")
    }
}

fn or_text(label: &str, o: &Option<String>, d: &str) -> (r: String)
    ensures
        r@ == label@ + opt_or(opt_view(*o), d@),
{
    match o {
        Some(v) => cat(label, v.as_str()),
        None => cat(label, d),
    }
}

fn push_line(lines: &mut Vec<String>, s: String)
    ensures
        views(final(lines)@) == views(old(lines)@).push(s@),
{
    let ghost before = lines@;
    let ghost sv = s@;
    lines.push(s);
    assert(views(lines@) =~= views(before).push(sv));
}

fn push_opt(lines: &mut Vec<String>, label: &str, o: &Option<String>)
    ensures
        views(final(lines)@) == views(old(lines)@) + opt_line(label@, opt_view(*o)),
{
    match o {
        Some(v) => push_line(lines, cat(label, v.as_str())),
        None => {},
    }
    assert(views(lines@) =~= views(old(lines)@) + opt_line(label@, opt_view(*o)));
}

fn lines_string(lines: &Vec<String>) -> (r: String)
    ensures
        r@ == lines_text(views(lines@)),
{
    join_strings(lines.as_slice(), "\n")
}

// ---------------------------------------------------------------- sync

/// The headline of a sync: partial, nothing to update, or done.
pub open spec fn sync_header(partial: bool, action: Seq<char>) -> Seq<char> {
    if partial {
        "同步完成（部分失败）"@
    } else if action == "skip"@ {
        "同步完成（无需更新）"@
    } else {
        "同步完成"@
    }
}

/// How a failed file is listed.
pub open spec fn failure_line(f: SyncFailure) -> Seq<char> {
    "- "@ + f.path@ + " "@ + f.error@
}

/// The lines of a sync report: the scope, the cooldown, the preflight (with
/// the sizes as shown), the headline and the counts, then one line per
/// failed file.
pub open spec fn sync_report_lines(
    plan: SyncPlan,
    report: SyncReport,
    sessions_dir: Seq<char>,
    index_dir: Seq<char>,
    total_size: Seq<char>,
    largest_size: Seq<char>,
) -> Seq<Seq<char>> {
    let scope = plan.scope;
    let pre = plan.preflight;
    let c = report.cooldown;
    let st = report.stats;
    seq![
        "同步范围"@,
        "时间起点: "@ + opt_or(opt_view(scope.since), "全部"@),
        "时间终点: "@ + opt_or(opt_view(scope.until), "全部"@),
        "路径过滤: "@ + opt_or(opt_view(scope.path), "全部"@),
        "最近活跃: "@ + recent_label(scope.recent),
        "候选文件: "@ + decimal(scope.candidate_files as nat),
        seq![],
        "同步冷却"@,
        "冷却间隔: "@ + c.interval@,
        "冷却状态: "@ + cooldown_state_label(c.state@),
        "最近刷新: "@ + opt_or(opt_view(c.last_completed_at), "无"@),
        "下次允许: "@ + opt_or(opt_view(c.next_allowed_at), "无"@),
        seq![],
        "同步预检"@,
        "会话文件: "@ + decimal(pre.total_files as nat),
        "变更文件: "@ + decimal(pre.changed_files as nat),
        "未变更文件: "@ + decimal(pre.unchanged_files as nat),
        "总大小: "@ + total_size,
        "最大文件: "@ + largest_size,
        "推荐动作: "@ + action_label(pre.recommended_action@),
        "原因: "@ + pre.reason@,
        seq![],
        sync_header(report.partial, pre.recommended_action@),
        "会话目录: "@ + sessions_dir,
        "索引目录: "@ + index_dir,
        "扫描文件: "@ + decimal(st.scanned_files as nat),
        "新增/重建: "@ + decimal(st.indexed_files as nat),
        "尾部追加: "@ + decimal(st.appended_files as nat),
        "整条重建: "@ + decimal(st.rebuilt_files as nat),
        "回退重建: "@ + decimal(st.fallback_rebuilt_files as nat),
        "跳过未变更: "@ + decimal(st.skipped_files as nat),
        "失败文件: "@ + decimal(st.failed_files as nat),
        "移除失效文件: "@ + decimal(st.removed_files as nat),
        "线程总数: "@ + decimal(st.threads as nat),
        "消息总数: "@ + decimal(st.messages as nat),
        "事件总数: "@ + decimal(st.events as nat),
    ] + report.failures@.map_values(|f: SyncFailure| failure_line(f))
}

/// The text report of a sync.
pub open spec fn sync_report_text_spec(
    plan: SyncPlan,
    report: SyncReport,
    sessions_dir: Seq<char>,
    index_dir: Seq<char>,
    total_size: Seq<char>,
    largest_size: Seq<char>,
) -> Seq<char> {
    lines_text(sync_report_lines(plan, report, sessions_dir, index_dir, total_size, largest_size))
}

fn header_text(partial: bool, action: &str) -> (r: String)
    ensures
        r@ == sync_header(partial, action@),
{
    if partial {
        "同步完成（部分失败）".to_owned()
    } else if crate::text::str_eq(action, "skip") {
        "同步完成（无需更新）".to_owned()
    } else {
        "同步完成".to_owned()
    }
}

/// The text report of a sync; the total and largest sizes come already
/// formatted.
pub fn sync_report_text(
    plan: &SyncPlan,
    report: &SyncReport,
    sessions_dir: &str,
    index_dir: &str,
    total_size: &str,
    largest_size: &str,
) -> (r: String)
    ensures
        r@ == sync_report_text_spec(*plan, *report, sessions_dir@, index_dir@, total_size@, largest_size@),
{
    let scope = &plan.scope;
    let pre = &plan.preflight;
    let c = &report.cooldown;
    let st = &report.stats;
    let mut lines: Vec<String> = Vec::new();
    push_line(&mut lines, "同步范围".to_owned());
    push_line(&mut lines, or_text("时间起点: ", &scope.since, "全部"));
    push_line(&mut lines, or_text("时间终点: ", &scope.until, "全部"));
    push_line(&mut lines, or_text("路径过滤: ", &scope.path, "全部"));
    let recent = render_scope_recent(scope.recent);
    push_line(&mut lines, cat("最近活跃: ", recent.as_str()));
    push_line(&mut lines, num("候选文件: ", scope.candidate_files));
    push_line(&mut lines, String::new());
    push_line(&mut lines, "同步冷却".to_owned());
    push_line(&mut lines, cat("冷却间隔: ", c.interval.as_str()));
    push_line(&mut lines, cat("冷却状态: ", render_cooldown_state(c.state.as_str())));
    push_line(&mut lines, or_text("最近刷新: ", &c.last_completed_at, "无"));
    push_line(&mut lines, or_text("下次允许: ", &c.next_allowed_at, "无"));
    push_line(&mut lines, String::new());
    push_line(&mut lines, "同步预检".to_owned());
    push_line(&mut lines, num("会话文件: ", pre.total_files));
    push_line(&mut lines, num("变更文件: ", pre.changed_files));
    push_line(&mut lines, num("未变更文件: ", pre.unchanged_files));
    push_line(&mut lines, cat("总大小: ", total_size));
    push_line(&mut lines, cat("最大文件: ", largest_size));
    push_line(&mut lines, cat("推荐动作: ", render_action(pre)));
    push_line(&mut lines, cat("原因: ", pre.reason.as_str()));
    push_line(&mut lines, String::new());
    push_line(&mut lines, header_text(report.partial, pre.recommended_action.as_str()));
    push_line(&mut lines, cat("会话目录: ", sessions_dir));
    push_line(&mut lines, cat("索引目录: ", index_dir));
    push_line(&mut lines, num("扫描文件: ", st.scanned_files));
    push_line(&mut lines, num("新增/重建: ", st.indexed_files));
    push_line(&mut lines, num("尾部追加: ", st.appended_files));
    push_line(&mut lines, num("整条重建: ", st.rebuilt_files));
    push_line(&mut lines, num("回退重建: ", st.fallback_rebuilt_files));
    push_line(&mut lines, num("跳过未变更: ", st.skipped_files));
    push_line(&mut lines, num("失败文件: ", st.failed_files));
    push_line(&mut lines, num("移除失效文件: ", st.removed_files));
    push_line(&mut lines, num("线程总数: ", st.threads));
    push_line(&mut lines, num("消息总数: ", st.messages));
    push_line(&mut lines, num("事件总数: ", st.events));
    let ghost head = views(lines@);
    let ghost fs = report.failures@;
    let mut i: usize = 0;
    while i < report.failures.len()
        invariant
            i <= fs.len(),
            fs == report.failures@,
            views(lines@) == head + fs.take(i as int).map_values(|f: SyncFailure| failure_line(f)),
        decreases fs.len() - i,
    {
        let f = &report.failures[i];
        let mut s = cat("- ", f.path.as_str());
        s.append(" ");
        s.append(f.error.as_str());
        assert(fs.take(i + 1 as int).map_values(|f: SyncFailure| failure_line(f)) =~= fs.take(
            i as int,
        ).map_values(|f: SyncFailure| failure_line(f)).push(failure_line(fs[i as int])));
        push_line(&mut lines, s);
        i += 1;
    }
    assert(fs.take(fs.len() as int) == fs);
    assert(views(lines@) =~= sync_report_lines(
        *plan,
        *report,
        sessions_dir@,
        index_dir@,
        total_size@,
        largest_size@,
    ));
    lines_string(&lines)
}

// ---------------------------------------------------------------- status

/// A line with the pid of the lock holder, when known.
pub open spec fn pid_line(pid: Option<u32>) -> Seq<Seq<char>> {
    match pid {
        Some(n) => seq!["锁 PID: "@ + decimal(n as nat)],
        None => seq![],
    }
}

fn push_pid(lines: &mut Vec<String>, pid: Option<u32>)
    ensures
        views(final(lines)@) == views(old(lines)@) + pid_line(pid),
{
    match pid {
        Some(n) => {
            let d = decimal_string(n as u64);
            push_line(lines, cat("锁 PID: ", d.as_str()));
        },
        None => {},
    }
    assert(views(lines@) =~= views(old(lines)@) + pid_line(pid));
}

/// The lines of the index status: the counts and the sync lock, with the
/// lock holder's pid, start, heartbeat and reason when known.
pub open spec fn status_lines(status: StatusSummary, cli_version: Seq<char>) -> Seq<Seq<char>> {
    let lock = status.sync_lock;
    seq![
        "索引状态"@,
        "CLI 版本: "@ + cli_version,
        "索引文件: "@ + status.index_path@,
        "FTS5 可用: "@ + bool_text(status.fts_available),
        "同步锁: "@ + lock_state_label(lock.state@),
        "文件数: "@ + decimal(status.files as nat),
        "线程数: "@ + decimal(status.threads as nat),
        "消息数: "@ + decimal(status.messages as nat),
        "事件数: "@ + decimal(status.events as nat),
    ] + pid_line(lock.pid) + opt_line("开始时间: "@, opt_view(lock.started_at)) + opt_line(
        "最近心跳: "@,
        opt_view(lock.heartbeat_at),
    ) + opt_line("锁说明: "@, opt_view(lock.reason))
}

/// The text of the index status.
pub fn status_text(status: &StatusSummary, cli_version: &str) -> (r: String)
    ensures
        r@ == lines_text(status_lines(*status, cli_version@)),
{
    let lock = &status.sync_lock;
    let mut lines: Vec<String> = Vec::new();
    push_line(&mut lines, "索引状态".to_owned());
    push_line(&mut lines, cat("CLI 版本: ", cli_version));
    push_line(&mut lines, cat("索引文件: ", status.index_path.as_str()));
    push_line(&mut lines, flag("FTS5 可用: ", status.fts_available));
    push_line(&mut lines, cat("同步锁: ", render_lock_state(lock)));
    push_line(&mut lines, num("文件数: ", status.files));
    push_line(&mut lines, num("线程数: ", status.threads));
    push_line(&mut lines, num("消息数: ", status.messages));
    push_line(&mut lines, num("事件数: ", status.events));
    push_pid(&mut lines, lock.pid);
    push_opt(&mut lines, "开始时间: ", &lock.started_at);
    push_opt(&mut lines, "最近心跳: ", &lock.heartbeat_at);
    push_opt(&mut lines, "锁说明: ", &lock.reason);
    assert(views(lines@) =~= status_lines(*status, cli_version@));
    lines_string(&lines)
}

// ---------------------------------------------------------------- search

/// How a thread hit is listed.
pub open spec fn thread_hit_line(h: ThreadSearchHit) -> Seq<char> {
    "- ["@ + h.session_id@ + "] "@ + h.title@ + " "@ + h.snippet@
}

/// How a message hit is listed.
pub open spec fn message_hit_line(h: MessageSearchHit) -> Seq<char> {
    "- ["@ + h.session_id@ + "] "@ + h.role@ + " "@ + h.snippet@
}

/// How an event hit is listed.
pub open spec fn event_hit_line(h: EventSearchHit) -> Seq<char> {
    "- ["@ + h.session_id@ + "] "@ + h.event_type@ + " "@ + h.snippet@
}

fn bracketed(id: &str, kind: &str, snippet: &str) -> (r: String)
    ensures
        r@ == "- ["@ + id@ + "] "@ + kind@ + " "@ + snippet@,
{
    let mut s = cat("- [", id);
    s.append("] ");
    s.append(kind);
    s.append(" ");
    s.append(snippet);
    s
}

/// The text of a thread search: the query, the number of hits, one line per
/// hit.
pub fn thread_search_text(query: &str, hits: &Vec<ThreadSearchHit>) -> (r: String)
    ensures
        r@ == lines_text(
            seq!["线程搜索: "@ + query@, "命中条数: "@ + decimal(hits@.len())] + hits@.map_values(
                |h: ThreadSearchHit| thread_hit_line(h),
            ),
        ),
{
    let mut lines: Vec<String> = Vec::new();
    push_line(&mut lines, cat("线程搜索: ", query));
    push_line(&mut lines, num("命中条数: ", hits.len()));
    let ghost head = views(lines@);
    let mut i: usize = 0;
    while i < hits.len()
        invariant
            i <= hits@.len(),
            views(lines@) == head + hits@.take(i as int).map_values(|h: ThreadSearchHit| thread_hit_line(h)),
        decreases hits@.len() - i,
    {
        let h = &hits[i];
        assert(hits@.take(i + 1 as int).map_values(|h: ThreadSearchHit| thread_hit_line(h)) =~= hits@.take(
            i as int,
        ).map_values(|h: ThreadSearchHit| thread_hit_line(h)).push(thread_hit_line(hits@[i as int])));
        push_line(&mut lines, bracketed(h.session_id.as_str(), h.title.as_str(), h.snippet.as_str()));
        i += 1;
    }
    assert(hits@.take(hits@.len() as int) == hits@);
    assert(views(lines@) =~= seq!["线程搜索: "@ + query@, "命中条数: "@ + decimal(hits@.len())] + hits@.map_values(
                |h: ThreadSearchHit| thread_hit_line(h),
            ));
    lines_string(&lines)
}

/// The text of a message search: the query, the number of hits, one line per
/// hit.
pub fn message_search_text(query: &str, hits: &Vec<MessageSearchHit>) -> (r: String)
    ensures
        r@ == lines_text(
            seq!["消息搜索: "@ + query@, "命中条数: "@ + decimal(hits@.len())] + hits@.map_values(
                |h: MessageSearchHit| message_hit_line(h),
            ),
        ),
{
    let mut lines: Vec<String> = Vec::new();
    push_line(&mut lines, cat("消息搜索: ", query));
    push_line(&mut lines, num("命中条数: ", hits.len()));
    let ghost head = views(lines@);
    let mut i: usize = 0;
    while i < hits.len()
        invariant
            i <= hits@.len(),
            views(lines@) == head + hits@.take(i as int).map_values(|h: MessageSearchHit| message_hit_line(h)),
        decreases hits@.len() - i,
    {
        let h = &hits[i];
        assert(hits@.take(i + 1 as int).map_values(|h: MessageSearchHit| message_hit_line(h)) =~= hits@.take(
            i as int,
        ).map_values(|h: MessageSearchHit| message_hit_line(h)).push(message_hit_line(hits@[i as int])));
        push_line(&mut lines, bracketed(h.session_id.as_str(), h.role.as_str(), h.snippet.as_str()));
        i += 1;
    }
    assert(hits@.take(hits@.len() as int) == hits@);
    assert(views(lines@) =~= seq!["消息搜索: "@ + query@, "命中条数: "@ + decimal(hits@.len())] + hits@.map_values(
                |h: MessageSearchHit| message_hit_line(h),
            ));
    lines_string(&lines)
}

/// The text of an event search: the query, the number of hits, one line per
/// hit.
pub fn event_search_text(query: &str, hits: &Vec<EventSearchHit>) -> (r: String)
    ensures
        r@ == lines_text(
            seq!["事件搜索: "@ + query@, "命中条数: "@ + decimal(hits@.len())] + hits@.map_values(
                |h: EventSearchHit| event_hit_line(h),
            ),
        ),
{
    let mut lines: Vec<String> = Vec::new();
    push_line(&mut lines, cat("事件搜索: ", query));
    push_line(&mut lines, num("命中条数: ", hits.len()));
    let ghost head = views(lines@);
    let mut i: usize = 0;
    while i < hits.len()
        invariant
            i <= hits@.len(),
            views(lines@) == head + hits@.take(i as int).map_values(|h: EventSearchHit| event_hit_line(h)),
        decreases hits@.len() - i,
    {
        let h = &hits[i];
        assert(hits@.take(i + 1 as int).map_values(|h: EventSearchHit| event_hit_line(h)) =~= hits@.take(
            i as int,
        ).map_values(|h: EventSearchHit| event_hit_line(h)).push(event_hit_line(hits@[i as int])));
        push_line(&mut lines, bracketed(h.session_id.as_str(), h.event_type.as_str(), h.snippet.as_str()));
        i += 1;
    }
    assert(hits@.take(hits@.len() as int) == hits@);
    assert(views(lines@) =~= seq!["事件搜索: "@ + query@, "命中条数: "@ + decimal(hits@.len())] + hits@.map_values(
                |h: EventSearchHit| event_hit_line(h),
            ));
    lines_string(&lines)
}

// ---------------------------------------------------------------- reads

/// How a message is listed: its time (empty when unknown), role and text.
pub open spec fn message_line(m: MessageRecord) -> Seq<char> {
    "- "@ + opt_or(opt_view(m.timestamp), seq![]) + " "@ + m.role@ + " "@ + m.text@
}

/// How an event is listed: its time (empty when unknown), type and summary.
pub open spec fn event_line(e: EventRecord) -> Seq<char> {
    "- "@ + opt_or(opt_view(e.timestamp), seq![]) + " "@ + e.event_type@ + " "@ + e.summary@
}

fn timed_line(timestamp: &Option<String>, kind: &str, text: &str) -> (r: String)
    ensures
        r@ == "- "@ + opt_or(opt_view(*timestamp), seq![]) + " "@ + kind@ + " "@ + text@,
{
    let mut s = "- ".to_owned();
    match timestamp {
        Some(t) => s.append(t.as_str()),
        None => {},
    }
    s.append(" ");
    s.append(kind);
    s.append(" ");
    s.append(text);
    s
}

fn push_message_lines(lines: &mut Vec<String>, messages: &Vec<MessageRecord>)
    ensures
        views(final(lines)@) == views(old(lines)@) + messages@.map_values(|m: MessageRecord| message_line(m)),
{
    let ghost head = views(lines@);
    let mut i: usize = 0;
    while i < messages.len()
        invariant
            i <= messages@.len(),
            views(lines@) == head + messages@.take(i as int).map_values(|m: MessageRecord| message_line(m)),
        decreases messages@.len() - i,
    {
        let m = &messages[i];
        assert(messages@.take(i + 1 as int).map_values(|m: MessageRecord| message_line(m)) =~= messages@.take(
            i as int,
        ).map_values(|m: MessageRecord| message_line(m)).push(message_line(messages@[i as int])));
        push_line(lines, timed_line(&m.timestamp, m.role.as_str(), m.text.as_str()));
        i += 1;
    }
    assert(messages@.take(messages@.len() as int) == messages@);
}

/// The text of a thread read: the thread, its counts, then its messages.
pub fn thread_read_text(thread: &ThreadRecord, messages: &Vec<MessageRecord>) -> (r: String)
    ensures
        r@ == lines_text(
            seq![
                "线程: "@ + thread.session_id@,
                "标题: "@ + thread.title@,
                "消息数: "@ + decimal(thread.message_count as nat),
                "事件数: "@ + decimal(thread.event_count as nat),
            ] + messages@.map_values(|m: MessageRecord| message_line(m)),
        ),
{
    let mut lines: Vec<String> = Vec::new();
    push_line(&mut lines, cat("线程: ", thread.session_id.as_str()));
    push_line(&mut lines, cat("标题: ", thread.title.as_str()));
    push_line(&mut lines, num("消息数: ", thread.message_count));
    push_line(&mut lines, num("事件数: ", thread.event_count));
    push_message_lines(&mut lines, messages);
    assert(views(lines@) =~= seq![
                "线程: "@ + thread.session_id@,
                "标题: "@ + thread.title@,
                "消息数: "@ + decimal(thread.message_count as nat),
                "事件数: "@ + decimal(thread.event_count as nat),
            ] + messages@.map_values(|m: MessageRecord| message_line(m)));
    lines_string(&lines)
}

/// The text of a message read: the session, the number of messages, then
/// the messages.
pub fn message_read_text(session_id: &str, messages: &Vec<MessageRecord>) -> (r: String)
    ensures
        r@ == lines_text(
            seq!["消息线程: "@ + session_id@, "返回条数: "@ + decimal(messages@.len())]
                + messages@.map_values(|m: MessageRecord| message_line(m)),
        ),
{
    let mut lines: Vec<String> = Vec::new();
    push_line(&mut lines, cat("消息线程: ", session_id));
    push_line(&mut lines, num("返回条数: ", messages.len()));
    push_message_lines(&mut lines, messages);
    assert(views(lines@) =~= seq!["消息线程: "@ + session_id@, "返回条数: "@ + decimal(messages@.len())]
                + messages@.map_values(|m: MessageRecord| message_line(m)));
    lines_string(&lines)
}

/// The text of an event read: the session, the number of events, then the
/// events.
pub fn event_read_text(session_id: &str, events: &Vec<EventRecord>) -> (r: String)
    ensures
        r@ == lines_text(
            seq!["事件线程: "@ + session_id@, "返回条数: "@ + decimal(events@.len())]
                + events@.map_values(|e: EventRecord| event_line(e)),
        ),
{
    let mut lines: Vec<String> = Vec::new();
    push_line(&mut lines, cat("事件线程: ", session_id));
    push_line(&mut lines, num("返回条数: ", events.len()));
    let ghost head = views(lines@);
    let mut i: usize = 0;
    while i < events.len()
        invariant
            i <= events@.len(),
            views(lines@) == head + events@.take(i as int).map_values(|e: EventRecord| event_line(e)),
        decreases events@.len() - i,
    {
        let e = &events[i];
        assert(events@.take(i + 1 as int).map_values(|e: EventRecord| event_line(e)) =~= events@.take(
            i as int,
        ).map_values(|e: EventRecord| event_line(e)).push(event_line(events@[i as int])));
        push_line(&mut lines, timed_line(&e.timestamp, e.event_type.as_str(), e.summary.as_str()));
        i += 1;
    }
    assert(events@.take(events@.len() as int) == events@);
    assert(views(lines@) =~= seq!["事件线程: "@ + session_id@, "返回条数: "@ + decimal(events@.len())]
                + events@.map_values(|e: EventRecord| event_line(e)));
    lines_string(&lines)
}

// ---------------------------------------------------------------- doctor

/// How an issue is listed.
pub open spec fn issue_line(i: DoctorIssue) -> Seq<char> {
    listed_line(i.code@, i.summary@, opt_view(i.path))
}

/// How a repair is listed.
pub open spec fn repair_line(a: DoctorRepairAction) -> Seq<char> {
    listed_line(a.code@, a.summary@, opt_view(a.path))
}

/// A titled section after a blank line, or nothing when it has no lines.
pub open spec fn section(title: Seq<char>, lines: Seq<Seq<char>>) -> Seq<Seq<char>> {
    if lines.len() == 0 {
        seq![]
    } else {
        seq![seq![], title] + lines
    }
}

/// The lines of a health check: status, counts of issues and repairs, the
/// advice, the index status, then the issues and the repairs.
pub open spec fn doctor_lines(report: DoctorReport) -> Seq<Seq<char>> {
    let st = report.status_summary;
    let lock = st.sync_lock;
    seq![
        "索引健康检查"@,
        "健康状态: "@ + status_label(report.status@),
        "发现问题: "@ + decimal(report.issues@.len()),
        "修复动作: "@ + decimal(report.repaired_actions@.len()),
        "建议: "@ + report.recommendation@,
        seq![],
        "当前索引"@,
        "索引文件: "@ + st.index_path@,
        "FTS5 可用: "@ + bool_text(st.fts_available),
        "同步锁: "@ + lock_state_label(lock.state@),
        "文件数: "@ + decimal(st.files as nat),
        "线程数: "@ + decimal(st.threads as nat),
        "消息数: "@ + decimal(st.messages as nat),
        "事件数: "@ + decimal(st.events as nat),
    ] + pid_line(lock.pid) + opt_line("锁说明: "@, opt_view(lock.reason)) + section(
        "问题列表"@,
        report.issues@.map_values(|i: DoctorIssue| issue_line(i)),
    ) + section("修复记录"@, report.repaired_actions@.map_values(|a: DoctorRepairAction| repair_line(a)))
}

fn push_issue_section(lines: &mut Vec<String>, issues: &Vec<DoctorIssue>)
    ensures
        views(final(lines)@) == views(old(lines)@) + section(
            "问题列表"@,
            issues@.map_values(|i: DoctorIssue| issue_line(i)),
        ),
{
    if issues.len() == 0 {
        assert(issues@.map_values(|i: DoctorIssue| issue_line(i)).len() == 0);
        assert(views(lines@) =~= views(old(lines)@) + seq![]);
        return;
    }
    push_line(lines, String::new());
    push_line(lines, "问题列表".to_owned());
    let ghost head = views(lines@);
    let mut i: usize = 0;
    while i < issues.len()
        invariant
            i <= issues@.len(),
            views(lines@) == head + issues@.take(i as int).map_values(|x: DoctorIssue| issue_line(x)),
        decreases issues@.len() - i,
    {
        assert(issues@.take(i + 1 as int).map_values(|x: DoctorIssue| issue_line(x)) =~= issues@.take(
            i as int,
        ).map_values(|x: DoctorIssue| issue_line(x)).push(issue_line(issues@[i as int])));
        push_line(lines, render_issue_line(&issues[i]));
        i += 1;
    }
    assert(issues@.take(issues@.len() as int) == issues@);
    assert(views(lines@) =~= views(old(lines)@) + section(
        "问题列表"@,
        issues@.map_values(|x: DoctorIssue| issue_line(x)),
    ));
}

fn push_repair_section(lines: &mut Vec<String>, actions: &Vec<DoctorRepairAction>)
    ensures
        views(final(lines)@) == views(old(lines)@) + section(
            "修复记录"@,
            actions@.map_values(|a: DoctorRepairAction| repair_line(a)),
        ),
{
    if actions.len() == 0 {
        assert(actions@.map_values(|a: DoctorRepairAction| repair_line(a)).len() == 0);
        assert(views(lines@) =~= views(old(lines)@) + seq![]);
        return;
    }
    push_line(lines, String::new());
    push_line(lines, "修复记录".to_owned());
    let ghost head = views(lines@);
    let mut i: usize = 0;
    while i < actions.len()
        invariant
            i <= actions@.len(),
            views(lines@) == head + actions@.take(i as int).map_values(|a: DoctorRepairAction| repair_line(a)),
        decreases actions@.len() - i,
    {
        assert(actions@.take(i + 1 as int).map_values(|a: DoctorRepairAction| repair_line(a)) =~= actions@.take(
            i as int,
        ).map_values(|a: DoctorRepairAction| repair_line(a)).push(repair_line(actions@[i as int])));
        push_line(lines, render_repair_line(&actions[i]));
        i += 1;
    }
    assert(actions@.take(actions@.len() as int) == actions@);
    assert(views(lines@) =~= views(old(lines)@) + section(
        "修复记录"@,
        actions@.map_values(|a: DoctorRepairAction| repair_line(a)),
    ));
}

/// The text of a health check.
pub fn doctor_text(report: &DoctorReport) -> (r: String)
    ensures
        r@ == lines_text(doctor_lines(*report)),
{
    let st = &report.status_summary;
    let lock = &st.sync_lock;
    let mut lines: Vec<String> = Vec::new();
    push_line(&mut lines, "索引健康检查".to_owned());
    push_line(&mut lines, cat("健康状态: ", render_status(report.status.as_str())));
    push_line(&mut lines, num("发现问题: ", report.issues.len()));
    push_line(&mut lines, num("修复动作: ", report.repaired_actions.len()));
    push_line(&mut lines, cat("建议: ", report.recommendation.as_str()));
    push_line(&mut lines, String::new());
    push_line(&mut lines, "当前索引".to_owned());
    push_line(&mut lines, cat("索引文件: ", st.index_path.as_str()));
    push_line(&mut lines, flag("FTS5 可用: ", st.fts_available));
    push_line(&mut lines, cat("同步锁: ", render_lock_state(lock)));
    push_line(&mut lines, num("文件数: ", st.files));
    push_line(&mut lines, num("线程数: ", st.threads));
    push_line(&mut lines, num("消息数: ", st.messages));
    push_line(&mut lines, num("事件数: ", st.events));
    push_pid(&mut lines, lock.pid);
    push_opt(&mut lines, "锁说明: ", &lock.reason);
    push_issue_section(&mut lines, &report.issues);
    push_repair_section(&mut lines, &report.repaired_actions);
    assert(views(lines@) =~= doctor_lines(*report));
    lines_string(&lines)
}

// ---------------------------------------------------------------- restore

/// The lines of a restore: the thread, the mode, what happens to the row and
/// the pin, the files involved, the backup directory when one was made, then
/// the warnings.
pub open spec fn restore_lines(report: RestoreAppThreadReport) -> Seq<Seq<char>> {
    seq![
        "实验能力：restore-app-thread"@,
        "线程 ID: "@ + report.thread_id@,
        "执行模式: "@ + (if report.dry_run {
            "dry-run"@
        } else {
            "apply"@
        }),
        "线程处理: "@ + thread_action_label(report.thread_action@),
        "Pin 处理: "@ + pin_action_label(report.pin_action@),
        "状态库: "@ + report.state_db_path@,
        "全局状态: "@ + report.global_state_path@,
        "线程标题: "@ + report.thread.title@,
        "线程路径: "@ + report.thread.rollout_path@,
    ] + opt_line("备份目录: "@, opt_view(report.backup_dir)) + section(
        "提示"@,
        report.warnings@.map_values(|w: String| "- "@ + w@),
    )
}

/// The text of a restore.
pub fn restore_text(report: &RestoreAppThreadReport) -> (r: String)
    ensures
        r@ == lines_text(restore_lines(*report)),
{
    let mut lines: Vec<String> = Vec::new();
    push_line(&mut lines, "实验能力：restore-app-thread".to_owned());
    push_line(&mut lines, cat("线程 ID: ", report.thread_id.as_str()));
    if report.dry_run {
        push_line(&mut lines, cat("执行模式: ", "dry-run"));
    } else {
        push_line(&mut lines, cat("执行模式: ", "apply"));
    }
    push_line(&mut lines, cat("线程处理: ", render_thread_action(report.thread_action.as_str())));
    push_line(&mut lines, cat("Pin 处理: ", render_pin_action(report.pin_action.as_str())));
    push_line(&mut lines, cat("状态库: ", report.state_db_path.as_str()));
    push_line(&mut lines, cat("全局状态: ", report.global_state_path.as_str()));
    push_line(&mut lines, cat("线程标题: ", report.thread.title.as_str()));
    push_line(&mut lines, cat("线程路径: ", report.thread.rollout_path.as_str()));
    push_opt(&mut lines, "备份目录: ", &report.backup_dir);
    let ghost before = views(lines@);
    let ws = &report.warnings;
    if ws.len() > 0 {
        push_line(&mut lines, String::new());
        push_line(&mut lines, "提示".to_owned());
        let ghost head = views(lines@);
        let mut i: usize = 0;
        while i < ws.len()
            invariant
                i <= ws@.len(),
                views(lines@) == head + ws@.take(i as int).map_values(|w: String| "- "@ + w@),
            decreases ws@.len() - i,
        {
            assert(ws@.take(i + 1 as int).map_values(|w: String| "- "@ + w@) =~= ws@.take(
                i as int,
            ).map_values(|w: String| "- "@ + w@).push("- "@ + ws@[i as int]@));
            push_line(&mut lines, cat("- ", ws[i].as_str()));
            i += 1;
        }
        assert(ws@.take(ws@.len() as int) == ws@);
    } else {
        assert(ws@.map_values(|w: String| "- "@ + w@).len() == 0);
    }
    assert(views(lines@) =~= restore_lines(*report));
    lines_string(&lines)
}

// ---------------------------------------------------------------- progress

/// A step of a running sync, as reported while it runs.
#[derive(Debug, Clone, Copy)]
pub enum SyncProgressEvent {
    ScanStarted,
    ScanProgress { visited_entries: usize, discovered_files: usize },
    IndexStarted { total_files: usize, processed_files: usize },
    IndexProgress {
        processed_files: usize,
        total_files: usize,
        indexed_files: usize,
        skipped_files: usize,
        failed_files: usize,
    },
    Finished {
        total_files: usize,
        processed_files: usize,
        indexed_files: usize,
        skipped_files: usize,
        failed_files: usize,
        partial: bool,
    },
}

/// The phase a step belongs to: scanning, indexing or finished.
pub open spec fn phase_of(e: SyncProgressEvent) -> Seq<char> {
    match e {
        SyncProgressEvent::ScanStarted | SyncProgressEvent::ScanProgress { .. } => "scanning"@,
        SyncProgressEvent::IndexStarted { .. } | SyncProgressEvent::IndexProgress { .. } => "indexing"@,
        SyncProgressEvent::Finished { .. } => "finished"@,
    }
}

/// The phase of a step.
pub fn progress_phase(e: &SyncProgressEvent) -> (r: &'static str)
    ensures
        r@ == phase_of(*e),
{
    match e {
        SyncProgressEvent::ScanStarted => "scanning",
        SyncProgressEvent::ScanProgress { .. } => "scanning",
        SyncProgressEvent::IndexStarted { .. } => "indexing",
        SyncProgressEvent::IndexProgress { .. } => "indexing",
        SyncProgressEvent::Finished { .. } => "finished",
    }
}

/// `processed/total`.
pub open spec fn fraction(processed: usize, total: usize) -> Seq<char> {
    decimal(processed as nat) + "/"@ + decimal(total as nat)
}

/// The counts after a fraction.
pub open spec fn counts_note(indexed: usize, skipped: usize, failed: usize) -> Seq<char> {
    "（新增/重建 "@ + decimal(indexed as nat) + "，跳过 "@ + decimal(skipped as nat) + "，失败 "@
        + decimal(failed as nat) + "）"@
}

/// The line a step is reported with.
pub open spec fn progress_line_of(e: SyncProgressEvent) -> Seq<char> {
    match e {
        SyncProgressEvent::ScanStarted => "阶段: 扫描候选文件"@,
        SyncProgressEvent::ScanProgress { visited_entries, discovered_files } => "阶段: 扫描候选文件 已访问 "@
            + decimal(visited_entries as nat) + " 项，发现 "@ + decimal(discovered_files as nat) + " 个文件"@,
        SyncProgressEvent::IndexStarted { total_files, processed_files } => "阶段: 写入索引 "@ + fraction(
            processed_files,
            total_files,
        ),
        SyncProgressEvent::IndexProgress {
            processed_files,
            total_files,
            indexed_files,
            skipped_files,
            failed_files,
        } => "阶段: 写入索引 "@ + fraction(processed_files, total_files) + counts_note(
            indexed_files,
            skipped_files,
            failed_files,
        ),
        SyncProgressEvent::Finished {
            total_files,
            processed_files,
            indexed_files,
            skipped_files,
            failed_files,
            ..
        } => "阶段: 完成 "@ + fraction(processed_files, total_files) + counts_note(
            indexed_files,
            skipped_files,
            failed_files,
        ),
    }
}

fn fraction_text(label: &str, processed: usize, total: usize) -> (r: String)
    ensures
        r@ == label@ + fraction(processed, total),
{
    let mut s = num(label, processed);
    s.append("/");
    let t = decimal_string(total as u64);
    s.append(t.as_str());
    s
}

fn append_counts(s: &mut String, indexed: usize, skipped: usize, failed: usize)
    ensures
        final(s)@ == old(s)@ + counts_note(indexed, skipped, failed),
{
    s.append("（新增/重建 ");
    let a = decimal_string(indexed as u64);
    s.append(a.as_str());
    s.append("，跳过 ");
    let b = decimal_string(skipped as u64);
    s.append(b.as_str());
    s.append("，失败 ");
    let c = decimal_string(failed as u64);
    s.append(c.as_str());
    s.append("）");
}

/// The line a step of a running sync is reported with.
pub fn progress_line(e: &SyncProgressEvent) -> (r: String)
    ensures
        r@ == progress_line_of(*e),
{
    match e {
        SyncProgressEvent::ScanStarted => "阶段: 扫描候选文件".to_owned(),
        SyncProgressEvent::ScanProgress { visited_entries, discovered_files } => {
            let mut s = num("阶段: 扫描候选文件 已访问 ", *visited_entries);
            s.append(" 项，发现 ");
            let d = decimal_string(*discovered_files as u64);
            s.append(d.as_str());
            s.append(" 个文件");
            s
        },
        SyncProgressEvent::IndexStarted { total_files, processed_files } => fraction_text(
            "阶段: 写入索引 ",
            *processed_files,
            *total_files,
        ),
        SyncProgressEvent::IndexProgress {
            processed_files,
            total_files,
            indexed_files,
            skipped_files,
            failed_files,
        } => {
            let mut s = fraction_text("阶段: 写入索引 ", *processed_files, *total_files);
            append_counts(&mut s, *indexed_files, *skipped_files, *failed_files);
            s
        },
        SyncProgressEvent::Finished {
            total_files,
            processed_files,
            indexed_files,
            skipped_files,
            failed_files,
            ..
        } => {
            let mut s = fraction_text("阶段: 完成 ", *processed_files, *total_files);
            append_counts(&mut s, *indexed_files, *skipped_files, *failed_files);
            s
        },
    }
}

} // verus!
