use vstd::prelude::*;

use crate::search_meta::views;
use crate::sync_types::{opt_string_clone, opt_view, StatusSummary, SyncLockStatus};
use crate::text::{decimal, decimal_string, str_eq};

verus! {

/// A problem found by the health check.
#[derive(Debug, Clone)]
pub struct DoctorIssue {
    pub code: String,
    pub summary: String,
    pub repairable: bool,
    pub path: Option<String>,
}

/// A repair the health check made or can make: removing a file.
#[derive(Debug, Clone)]
pub struct DoctorRepairAction {
    pub code: String,
    pub summary: String,
    pub path: Option<String>,
}

/// The health check's findings and repairs.
#[derive(Debug, Clone)]
pub struct DoctorReport {
    pub status: String,
    pub recommendation: String,
    pub issues: Vec<DoctorIssue>,
    pub repaired_actions: Vec<DoctorRepairAction>,
    pub status_summary: StatusSummary,
}

/// What was found of a state file.
#[derive(Debug, Clone, Copy, PartialEq, Eq, Structural)]
pub enum StateFileCheck {
    /// There is none.
    Missing,
    /// It reads, with this many pending paths (none for a refresh state).
    Valid { pending: usize },
    /// It does not read.
    Invalid,
}

/// The issues and the repairs of one scan.
#[derive(Debug, Clone)]
pub struct DoctorScan {
    pub issues: Vec<DoctorIssue>,
    pub repair_actions: Vec<DoctorRepairAction>,
}

/// An issue as values: code, summary, repairable, path.
pub open spec fn issue_view(i: DoctorIssue) -> (Seq<char>, Seq<char>, bool, Option<Seq<char>>) {
    (i.code@, i.summary@, i.repairable, opt_view(i.path))
}

/// A repair as values: code, summary, path.
pub open spec fn action_view(a: DoctorRepairAction) -> (Seq<char>, Seq<char>, Option<Seq<char>>) {
    (a.code@, a.summary@, opt_view(a.path))
}

/// Every repair removes the file of a repairable issue with its code, and
/// every repairable issue has its repair.
#[verifier::opaque]
pub open spec fn repairs_match(issues: Seq<DoctorIssue>, actions: Seq<DoctorRepairAction>) -> bool {
    &&& forall|k: int|
        0 <= k < actions.len() ==> exists|j: int|
            0 <= j < issues.len() && (#[trigger] issues[j]).repairable && issues[j].code@
                == (#[trigger] actions[k]).code@ && opt_view(issues[j].path) == opt_view(actions[k].path)
    &&& forall|j: int|
        0 <= j < issues.len() && (#[trigger] issues[j]).repairable ==> exists|k: int|
            0 <= k < actions.len() && issues[j].code@ == (#[trigger] actions[k]).code@ && opt_view(
                issues[j].path,
            ) == opt_view(actions[k].path)
}

fn issue(code: &str, summary: String, repairable: bool, path: Option<String>) -> (r: DoctorIssue)
    ensures
        r.code@ == code@,
        r.summary == summary,
        r.repairable == repairable,
        r.path == path,
{
    DoctorIssue { code: code.to_owned(), summary, repairable, path }
}

fn repair(code: &str, summary: &str, path: &String) -> (r: DoctorRepairAction)
    ensures
        r.code@ == code@,
        r.summary@ == summary@,
        opt_view(r.path) == Some(path@),
{
    DoctorRepairAction { code: code.to_owned(), summary: summary.to_owned(), path: Some(path.clone()) }
}

/// Adds a repairable issue about the file at `path` and its repair.
fn push_repairable(
    scan: &mut DoctorScan,
    code: &str,
    summary: String,
    path: &String,
    repair_summary: &str,
)
    requires
        repairs_match(old(scan).issues@, old(scan).repair_actions@),
    ensures
        repairs_match(final(scan).issues@, final(scan).repair_actions@),
        final(scan).issues@.len() == old(scan).issues@.len() + 1,
        final(scan).issues@.drop_last() == old(scan).issues@,
        issue_view(final(scan).issues@.last()) == (code@, summary@, true, Some(path@)),
        final(scan).repair_actions@.drop_last() == old(scan).repair_actions@,
        action_view(final(scan).repair_actions@.last()) == (code@, repair_summary@, Some(path@)),
{
    reveal(repairs_match);
    let ghost is0 = scan.issues@;
    let ghost as0 = scan.repair_actions@;
    scan.issues.push(issue(code, summary, true, Some(path.clone())));
    scan.repair_actions.push(repair(code, repair_summary, path));
    let ghost is1 = scan.issues@;
    let ghost as1 = scan.repair_actions@;
    assert(is1.drop_last() =~= is0);
    assert(as1.drop_last() =~= as0);
    assert forall|k: int| 0 <= k < as1.len() implies exists|j: int|
        0 <= j < is1.len() && (#[trigger] is1[j]).repairable && is1[j].code@ == (#[trigger] as1[k]).code@
            && opt_view(is1[j].path) == opt_view(as1[k].path) by {
        if k < as0.len() {
            let j = choose|j: int|
                0 <= j < is0.len() && (#[trigger] is0[j]).repairable && is0[j].code@ == as0[k].code@
                    && opt_view(is0[j].path) == opt_view(as0[k].path);
            assert(is1[j] == is0[j]);
        } else {
            assert(is1[is0.len() as int] == is1.last());
        }
    }
    assert forall|j: int| 0 <= j < is1.len() && (#[trigger] is1[j]).repairable implies exists|k: int|
        0 <= k < as1.len() && is1[j].code@ == (#[trigger] as1[k]).code@ && opt_view(is1[j].path)
            == opt_view(as1[k].path) by {
        if j < is0.len() {
            assert(is1[j] == is0[j]);
            let k = choose|k: int|
                0 <= k < as0.len() && is0[j].code@ == (#[trigger] as0[k]).code@ && opt_view(is0[j].path)
                    == opt_view(as0[k].path);
            assert(as1[k] == as0[k]);
        } else {
            assert(as1[as0.len() as int] == as1.last());
        }
    }
}

/// Adds an issue that cannot be repaired.
fn push_unrepairable(scan: &mut DoctorScan, code: &str, summary: String, path: Option<String>)
    requires
        repairs_match(old(scan).issues@, old(scan).repair_actions@),
    ensures
        repairs_match(final(scan).issues@, final(scan).repair_actions@),
        final(scan).issues@.len() == old(scan).issues@.len() + 1,
        final(scan).issues@.drop_last() == old(scan).issues@,
        issue_view(final(scan).issues@.last()) == (code@, summary@, false, opt_view(path)),
        final(scan).repair_actions@ == old(scan).repair_actions@,
{
    reveal(repairs_match);
    let ghost is0 = scan.issues@;
    scan.issues.push(issue(code, summary, false, path));
    let ghost is1 = scan.issues@;
    assert(is1.drop_last() =~= is0);
    assert forall|k: int| 0 <= k < scan.repair_actions@.len() implies exists|j: int|
        0 <= j < is1.len() && (#[trigger] is1[j]).repairable && is1[j].code@
            == (#[trigger] scan.repair_actions@[k]).code@ && opt_view(is1[j].path) == opt_view(
            scan.repair_actions@[k].path,
        ) by {
        let j = choose|j: int|
            0 <= j < is0.len() && (#[trigger] is0[j]).repairable && is0[j].code@
                == scan.repair_actions@[k].code@ && opt_view(is0[j].path) == opt_view(
                scan.repair_actions@[k].path,
            );
        assert(is1[j] == is0[j]);
    }
    assert forall|j: int| 0 <= j < is1.len() && (#[trigger] is1[j]).repairable implies exists|k: int|
        0 <= k < scan.repair_actions@.len() && is1[j].code@ == (#[trigger] scan.repair_actions@[k]).code@
            && opt_view(is1[j].path) == opt_view(scan.repair_actions@[k].path) by {
        assert(j < is0.len());
        assert(is1[j] == is0[j]);
    }
}

/// The summary of a stale-lock issue.
pub open spec fn stale_lock_summary(reason: Option<Seq<char>>) -> Seq<char> {
    match reason {
        Some(r) => "检测到过期的同步锁，可安全清理后恢复后续同步: "@ + r,
        None => "检测到过期的同步锁，可安全清理后恢复后续同步"@,
    }
}

/// The issues of one scan, in order: the lock (stale: repairable; running:
/// not), the resume state (no pending paths or unreadable: repairable), the
/// refresh state (unreadable: repairable), then thread message and event
/// count drift (not repairable).
pub open spec fn scan_codes(
    lock_state: Seq<char>,
    resume: StateFileCheck,
    refresh: StateFileCheck,
    message_mismatches: usize,
    event_mismatches: usize,
) -> Seq<Seq<char>> {
    (if lock_state == "stale"@ {
        seq!["stale_lock"@]
    } else if lock_state == "running"@ {
        seq!["sync_in_progress"@]
    } else {
        seq![]
    }) + (match resume {
        StateFileCheck::Valid { pending } => if pending == 0 {
            seq!["empty_resume_state"@]
        } else {
            seq![]
        },
        StateFileCheck::Invalid => seq!["invalid_resume_state"@],
        StateFileCheck::Missing => seq![],
    }) + (if refresh is Invalid {
        seq!["invalid_refresh_state"@]
    } else {
        seq![]
    }) + (if message_mismatches > 0 {
        seq!["thread_message_count_mismatch"@]
    } else {
        seq![]
    }) + (if event_mismatches > 0 {
        seq!["thread_event_count_mismatch"@]
    } else {
        seq![]
    })
}

/// The codes of issues.
pub open spec fn codes_of(issues: Seq<DoctorIssue>) -> Seq<Seq<char>> {
    issues.map_values(|i: DoctorIssue| i.code@)
}

/// The summary of a count-drift issue.
pub open spec fn drift_summary(kind: Seq<char>, n: usize) -> Seq<char> {
    "有 "@ + decimal(n as nat) + " 个线程的"@ + kind + "计数与明细表不一致，建议重新同步重建统计"@
}

/// An issue says what the scan found of its subject.
pub open spec fn issue_ok(
    i: DoctorIssue,
    lock: SyncLockStatus,
    resume_path: Seq<char>,
    refresh_path: Seq<char>,
    message_mismatches: usize,
    event_mismatches: usize,
) -> bool {
    &&& i.code@ == "stale_lock"@ ==> i.summary@ == stale_lock_summary(opt_view(lock.reason)) && opt_view(
        i.path,
    ) == Some(lock.lock_path@)
    &&& i.code@ == "sync_in_progress"@ ==> opt_view(i.path) == Some(lock.lock_path@)
    &&& (i.code@ == "empty_resume_state"@ || i.code@ == "invalid_resume_state"@) ==> opt_view(i.path)
        == Some(resume_path)
    &&& i.code@ == "invalid_refresh_state"@ ==> opt_view(i.path) == Some(refresh_path)
    &&& i.code@ == "thread_message_count_mismatch"@ ==> i.summary@ == drift_summary(
        "消息"@,
        message_mismatches,
    ) && i.path.is_none()
    &&& i.code@ == "thread_event_count_mismatch"@ ==> i.summary@ == drift_summary("事件"@, event_mismatches)
        && i.path.is_none()
}

/// Every issue says what the scan found of its subject.
#[verifier::opaque]
pub open spec fn issues_ok(
    issues: Seq<DoctorIssue>,
    lock: SyncLockStatus,
    resume_path: Seq<char>,
    refresh_path: Seq<char>,
    message_mismatches: usize,
    event_mismatches: usize,
) -> bool {
    forall|k: int|
        0 <= k < issues.len() ==> issue_ok(
            #[trigger] issues[k],
            lock,
            resume_path,
            refresh_path,
            message_mismatches,
            event_mismatches,
        )
}

proof fn lemma_code_lengths()
    ensures
        "stale_lock"@.len() == 10,
        "sync_in_progress"@.len() == 16,
        "empty_resume_state"@.len() == 18,
        "invalid_resume_state"@.len() == 20,
        "invalid_refresh_state"@.len() == 21,
        "thread_message_count_mismatch"@.len() == 29,
        "thread_event_count_mismatch"@.len() == 27,
{
    reveal_strlit("stale_lock");
    reveal_strlit("sync_in_progress");
    reveal_strlit("empty_resume_state");
    reveal_strlit("invalid_resume_state");
    reveal_strlit("invalid_refresh_state");
    reveal_strlit("thread_message_count_mismatch");
    reveal_strlit("thread_event_count_mismatch");
}

proof fn lemma_issues_ok_push(
    old_issues: Seq<DoctorIssue>,
    issues: Seq<DoctorIssue>,
    lock: SyncLockStatus,
    resume_path: Seq<char>,
    refresh_path: Seq<char>,
    mm: usize,
    em: usize,
)
    requires
        issues_ok(old_issues, lock, resume_path, refresh_path, mm, em),
        issues.len() == old_issues.len() + 1,
        issues.drop_last() == old_issues,
        issue_ok(issues.last(), lock, resume_path, refresh_path, mm, em),
    ensures
        issues_ok(issues, lock, resume_path, refresh_path, mm, em),
        codes_of(issues) == codes_of(old_issues).push(issues.last().code@),
{
    reveal(issues_ok);
    assert forall|k: int| 0 <= k < issues.len() implies issue_ok(
        #[trigger] issues[k],
        lock,
        resume_path,
        refresh_path,
        mm,
        em,
    ) by {
        if k < old_issues.len() {
            assert(issues[k] == old_issues[k]);
        }
    }
    assert(codes_of(issues) =~= codes_of(old_issues).push(issues.last().code@));
}

/// The codes the lock adds.
pub open spec fn lock_codes(lock_state: Seq<char>) -> Seq<Seq<char>> {
    if lock_state == "stale"@ {
        seq!["stale_lock"@]
    } else if lock_state == "running"@ {
        seq!["sync_in_progress"@]
    } else {
        seq![]
    }
}

/// The codes the resume state adds.
pub open spec fn resume_codes(resume: StateFileCheck) -> Seq<Seq<char>> {
    match resume {
        StateFileCheck::Valid { pending } => if pending == 0 {
            seq!["empty_resume_state"@]
        } else {
            seq![]
        },
        StateFileCheck::Invalid => seq!["invalid_resume_state"@],
        StateFileCheck::Missing => seq![],
    }
}

/// The codes the refresh state adds.
pub open spec fn refresh_codes(refresh: StateFileCheck) -> Seq<Seq<char>> {
    if refresh is Invalid {
        seq!["invalid_refresh_state"@]
    } else {
        seq![]
    }
}

/// The codes count drift adds.
pub open spec fn drift_codes(mm: usize, em: usize) -> Seq<Seq<char>> {
    (if mm > 0 {
        seq!["thread_message_count_mismatch"@]
    } else {
        seq![]
    }) + (if em > 0 {
        seq!["thread_event_count_mismatch"@]
    } else {
        seq![]
    })
}

fn scan_lock(scan: &mut DoctorScan, lock: &SyncLockStatus, rp: Ghost<Seq<char>>, fp: Ghost<Seq<char>>, mm: usize, em: usize)
    requires
        repairs_match(old(scan).issues@, old(scan).repair_actions@),
        issues_ok(old(scan).issues@, *lock, rp@, fp@, mm, em),
    ensures
        repairs_match(final(scan).issues@, final(scan).repair_actions@),
        issues_ok(final(scan).issues@, *lock, rp@, fp@, mm, em),
        codes_of(final(scan).issues@) == codes_of(old(scan).issues@) + lock_codes(lock.state@),
{
    let ghost s0 = scan.issues@;
    if str_eq(lock.state.as_str(), "stale") {
        let summary = match &lock.reason {
            Some(reason) => {
                let mut s = "检测到过期的同步锁，可安全清理后恢复后续同步: ".to_owned();
                s.append(reason.as_str());
                s
            },
            None => "检测到过期的同步锁，可安全清理后恢复后续同步".to_owned(),
        };
        push_repairable(scan, "stale_lock", summary, &lock.lock_path, "已清理过期的同步锁文件");
        proof {
            lemma_code_lengths();
            lemma_issues_ok_push(s0, scan.issues@, *lock, rp@, fp@, mm, em);
        }
    } else if str_eq(lock.state.as_str(), "running") {
        push_unrepairable(
            scan,
            "sync_in_progress",
            "检测到同步仍在进行，请等待当前同步完成后再重新检查".to_owned(),
            Some(lock.lock_path.clone()),
        );
        proof {
            lemma_code_lengths();
            lemma_issues_ok_push(s0, scan.issues@, *lock, rp@, fp@, mm, em);
        }
    }
    assert(codes_of(scan.issues@) =~= codes_of(s0) + lock_codes(lock.state@));
}

fn scan_states(
    scan: &mut DoctorScan,
    lock: Ghost<SyncLockStatus>,
    resume_path: &String,
    resume: StateFileCheck,
    refresh_path: &String,
    refresh: StateFileCheck,
    mm: usize,
    em: usize,
)
    requires
        repairs_match(old(scan).issues@, old(scan).repair_actions@),
        issues_ok(old(scan).issues@, lock@, resume_path@, refresh_path@, mm, em),
    ensures
        repairs_match(final(scan).issues@, final(scan).repair_actions@),
        issues_ok(final(scan).issues@, lock@, resume_path@, refresh_path@, mm, em),
        codes_of(final(scan).issues@) == codes_of(old(scan).issues@) + resume_codes(resume)
            + refresh_codes(refresh),
{
    let ghost s0 = scan.issues@;
    match resume {
        StateFileCheck::Valid { pending } => {
            if pending == 0 {
                push_repairable(
                    scan,
                    "empty_resume_state",
                    "续跑状态文件里没有待处理文件，说明本地检查点已经失效".to_owned(),
                    resume_path,
                    "已清理空的续跑状态文件",
                );
                proof {
                    lemma_code_lengths();
                    lemma_issues_ok_push(s0, scan.issues@, lock@, resume_path@, refresh_path@, mm, em);
                }
            }
        },
        StateFileCheck::Invalid => {
            push_repairable(
                scan,
                "invalid_resume_state",
                "续跑状态文件已损坏，无法继续安全恢复增量同步".to_owned(),
                resume_path,
                "已清理损坏的续跑状态文件",
            );
            proof {
                lemma_code_lengths();
                lemma_issues_ok_push(s0, scan.issues@, lock@, resume_path@, refresh_path@, mm, em);
            }
        },
        StateFileCheck::Missing => {},
    }
    let ghost s1 = scan.issues@;
    assert(codes_of(s1) =~= codes_of(s0) + resume_codes(resume));
    if let StateFileCheck::Invalid = refresh {
        push_repairable(
            scan,
            "invalid_refresh_state",
            "冷却状态文件已损坏，可能导致后续同步判断失真".to_owned(),
            refresh_path,
            "已清理损坏的冷却状态文件",
        );
        proof {
            lemma_code_lengths();
            lemma_issues_ok_push(s1, scan.issues@, lock@, resume_path@, refresh_path@, mm, em);
        }
    }
    assert(codes_of(scan.issues@) =~= codes_of(s1) + refresh_codes(refresh));
}

fn scan_drift(
    scan: &mut DoctorScan,
    lock: Ghost<SyncLockStatus>,
    rp: Ghost<Seq<char>>,
    fp: Ghost<Seq<char>>,
    mm: usize,
    em: usize,
)
    requires
        repairs_match(old(scan).issues@, old(scan).repair_actions@),
        issues_ok(old(scan).issues@, lock@, rp@, fp@, mm, em),
    ensures
        repairs_match(final(scan).issues@, final(scan).repair_actions@),
        issues_ok(final(scan).issues@, lock@, rp@, fp@, mm, em),
        codes_of(final(scan).issues@) == codes_of(old(scan).issues@) + drift_codes(mm, em),
{
    let ghost s0 = scan.issues@;
    if mm > 0 {
        push_unrepairable(scan, "thread_message_count_mismatch", drift_text("消息", mm), None);
        proof {
            lemma_code_lengths();
            lemma_issues_ok_push(s0, scan.issues@, lock@, rp@, fp@, mm, em);
        }
    }
    let ghost s1 = scan.issues@;
    if em > 0 {
        push_unrepairable(scan, "thread_event_count_mismatch", drift_text("事件", em), None);
        proof {
            lemma_code_lengths();
            lemma_issues_ok_push(s1, scan.issues@, lock@, rp@, fp@, mm, em);
        }
    }
    assert(codes_of(scan.issues@) =~= codes_of(s0) + drift_codes(mm, em));
}

/// Scans the index state: the lock status, the resume and refresh state
/// files (at `resume_path` and `refresh_path`), and the number of threads
/// whose message and event counts drifted from their rows.
pub fn collect_doctor_scan(
    lock: &SyncLockStatus,
    resume_path: &String,
    resume: StateFileCheck,
    refresh_path: &String,
    refresh: StateFileCheck,
    message_mismatches: usize,
    event_mismatches: usize,
) -> (r: DoctorScan)
    ensures
        codes_of(r.issues@) == scan_codes(lock.state@, resume, refresh, message_mismatches, event_mismatches),
        repairs_match(r.issues@, r.repair_actions@),
        issues_ok(r.issues@, *lock, resume_path@, refresh_path@, message_mismatches, event_mismatches),
{
    let mut scan = DoctorScan { issues: Vec::new(), repair_actions: Vec::new() };
    assert(codes_of(scan.issues@) =~= seq![]);
    proof {
        reveal(repairs_match);
        reveal(issues_ok);
    }
    scan_lock(&mut scan, lock, Ghost(resume_path@), Ghost(refresh_path@), message_mismatches, event_mismatches);
    scan_states(
        &mut scan,
        Ghost(*lock),
        resume_path,
        resume,
        refresh_path,
        refresh,
        message_mismatches,
        event_mismatches,
    );
    scan_drift(&mut scan, Ghost(*lock), Ghost(resume_path@), Ghost(refresh_path@), message_mismatches, event_mismatches);
    assert(codes_of(scan.issues@) =~= scan_codes(
        lock.state@,
        resume,
        refresh,
        message_mismatches,
        event_mismatches,
    ));
    scan
}

/// The summary of a count-drift issue.
fn drift_text(kind: &str, n: usize) -> (r: String)
    ensures
        r@ == drift_summary(kind@, n),
{
    let mut s = "有 ".to_owned();
    let d = decimal_string(n as u64);
    s.append(d.as_str());
    s.append(" 个线程的");
    s.append(kind);
    s.append("计数与明细表不一致，建议重新同步重建统计");
    s
}

/// Whether some issue is repairable.
pub open spec fn any_repairable(issues: Seq<DoctorIssue>) -> bool {
    exists|j: int| 0 <= j < issues.len() && (#[trigger] issues[j]).repairable
}

/// Whether some issue has one of the count-drift codes.
pub open spec fn any_drift(issues: Seq<DoctorIssue>) -> bool {
    exists|j: int|
        0 <= j < issues.len() && ((#[trigger] issues[j]).code@ == "thread_message_count_mismatch"@
            || issues[j].code@ == "thread_event_count_mismatch"@)
}

/// Whether some issue says a sync is running.
pub open spec fn any_running(issues: Seq<DoctorIssue>) -> bool {
    exists|j: int| 0 <= j < issues.len() && (#[trigger] issues[j]).code@ == "sync_in_progress"@
}

/// The advice for a set of issues.
pub open spec fn recommendation_for(issues: Seq<DoctorIssue>) -> Seq<char> {
    if issues.len() == 0 {
        "可以继续使用当前索引"@
    } else if any_repairable(issues) && any_drift(issues) {
        "可先运行 codex-threads doctor --repair 清理本地状态，再执行重新同步处理索引漂移"@
    } else if any_repairable(issues) {
        "可运行 codex-threads doctor --repair 清理本地状态问题"@
    } else if any_drift(issues) {
        "建议重新同步以重建受影响的索引统计"@
    } else if any_running(issues) {
        "请等待当前同步完成后，再重新执行 doctor 检查"@
    } else {
        "请根据问题描述继续处理"@
    }
}

/// The advice for a set of issues.
pub fn build_recommendation(issues: &Vec<DoctorIssue>) -> (r: String)
    ensures
        r@ == recommendation_for(issues@),
{
    if issues.len() == 0 {
        return "可以继续使用当前索引".to_owned();
    }
    let mut repairable = false;
    let mut drift = false;
    let mut running = false;
    let mut i: usize = 0;
    while i < issues.len()
        invariant
            i <= issues.len(),
            repairable == exists|j: int| 0 <= j < i && (#[trigger] issues@[j]).repairable,
            drift == exists|j: int|
                0 <= j < i && ((#[trigger] issues@[j]).code@ == "thread_message_count_mismatch"@
                    || issues@[j].code@ == "thread_event_count_mismatch"@),
            running == exists|j: int| 0 <= j < i && (#[trigger] issues@[j]).code@ == "sync_in_progress"@,
        decreases issues.len() - i,
    {
        let c = issues[i].code.as_str();
        if issues[i].repairable {
            repairable = true;
        }
        if str_eq(c, "thread_message_count_mismatch") || str_eq(c, "thread_event_count_mismatch") {
            drift = true;
        }
        if str_eq(c, "sync_in_progress") {
            running = true;
        }
        i += 1;
    }
    if repairable && drift {
        "可先运行 codex-threads doctor --repair 清理本地状态，再执行重新同步处理索引漂移".to_owned()
    } else if repairable {
        "可运行 codex-threads doctor --repair 清理本地状态问题".to_owned()
    } else if drift {
        "建议重新同步以重建受影响的索引统计".to_owned()
    } else if running {
        "请等待当前同步完成后，再重新执行 doctor 检查".to_owned()
    } else {
        "请根据问题描述继续处理".to_owned()
    }
}

/// The report of a health check: `healthy` without issues, else
/// `attention`, with the advice for the issues.
pub fn build_doctor_report(
    issues: Vec<DoctorIssue>,
    repaired_actions: Vec<DoctorRepairAction>,
    status_summary: StatusSummary,
) -> (r: DoctorReport)
    ensures
        r.status@ == (if issues@.len() == 0 {
            "healthy"@
        } else {
            "attention"@
        }),
        r.recommendation@ == recommendation_for(issues@),
        r.issues == issues,
        r.repaired_actions == repaired_actions,
        r.status_summary == status_summary,
{
    let recommendation = build_recommendation(&issues);
    let status = if issues.len() == 0 {
        "healthy".to_owned()
    } else {
        "attention".to_owned()
    };
    DoctorReport { status, recommendation, issues, repaired_actions, status_summary }
}

/// A mismatch count as read from the index: absent counts as none.
pub fn mismatch_count(count: Option<i64>) -> (r: usize)
    ensures
        r == match count {
            Some(c) => c as usize,
            None => 0usize,
        },
{
    match count {
        Some(c) => c as usize,
        None => 0,
    }
}

} // verus!
