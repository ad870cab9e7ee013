use codex_threads::doctor::{build_doctor_report, build_recommendation, collect_doctor_scan, mismatch_count, DoctorIssue, StateFileCheck};
use codex_threads::json::{parse_json_line, JsonValue};
use codex_threads::lock::{
    current_lock_status, describe_lock_conflict, is_heartbeat_stale, lock_status, resolve_lock_conflict, LockConflict, LockFileContents, SyncLockFile};
use codex_threads::read::{resolve_session_id, ReadError};
use codex_threads::render::{
    format_duration, render_cooldown_state, render_issue_line, render_scope_recent, render_status,
};
use codex_threads::restore::{
    backup_dir_name, backup_targets, build_thread_record, current_backup_dir_name, collect_warnings, contains_pinned_thread,
    ensure_rollout_path_is_safe, ensure_thread_is_pinned, ensure_threads_schema, parse_rfc3339_ms,
    plan_pin, sanitize_component, sqlite_sidecar_path, thread_action, RestoreError,
};
use codex_threads::sync_types::{StatusSummary, SyncLockStatus};

fn lock(state: &str, reason: Option<&str>) -> SyncLockStatus {
    SyncLockStatus {
        state: state.to_string(),
        lock_path: "/i/sync.lock.json".to_string(),
        pid: Some(42),
        started_at: None,
        heartbeat_at: Some("2026-04-12T10:00:00Z".to_string()),
        reason: reason.map(|r| r.to_string()),
    }
}

const T0: i128 = 1_775_988_000_000_000_000;

#[test]
fn lock_heartbeat_goes_stale_after_thirty_minutes() {
    assert!(!is_heartbeat_stale("2026-04-12T10:00:00Z", T0 + 1_800_000_000_000));
    assert!(is_heartbeat_stale("2026-04-12T10:00:00Z", T0 + 1_800_000_000_001));
    assert!(is_heartbeat_stale("not a time", T0));
}

#[test]
fn lock_status_reads_the_lock_file() {
    let idle = lock_status("/i/l".to_string(), LockFileContents::Missing, T0);
    assert_eq!(idle.state, "idle");
    let file = SyncLockFile {
        pid: 7,
        command: "sync".to_string(),
        index_path: "/i/threads.sqlite3".to_string(),
        started_at: "2026-04-12T10:00:00Z".to_string(),
        heartbeat_at: "2026-04-12T10:00:00Z".to_string(),
    };
    let running = lock_status("/i/l".to_string(), LockFileContents::Parsed(file.clone()), T0 + 1);
    assert_eq!(running.state, "running");
    assert_eq!(running.pid, Some(7));
    assert_eq!(running.reason, None);
    let stale = lock_status("/i/l".to_string(), LockFileContents::Parsed(file), T0 + 3_600_000_000_000);
    assert_eq!(stale.state, "stale");
    assert_eq!(stale.reason.as_deref(), Some("最近心跳已过期"));
    let broken = lock_status(
        "/i/l".to_string(),
        LockFileContents::Unparsable { error: "EOF".to_string(), modified_nanos: Some(T0) },
        T0 + 5,
    );
    assert_eq!(broken.state, "running");
    assert_eq!(broken.reason.as_deref(), Some("锁文件不可解析: EOF"));
}

#[test]
fn lock_conflicts_are_described_or_reclaimed() {
    assert_eq!(
        describe_lock_conflict(&lock("running", None)),
        "已有 sync 正在运行（pid=42，最近心跳 2026-04-12T10:00:00Z），请稍后重试"
    );
    let mut bare = lock("running", None);
    bare.pid = None;
    bare.heartbeat_at = None;
    assert_eq!(describe_lock_conflict(&bare), "已有 sync 正在运行，请稍后重试");
    assert!(matches!(resolve_lock_conflict(&lock("stale", None)), LockConflict::Reclaim));
    assert!(matches!(resolve_lock_conflict(&lock("running", None)), LockConflict::Refuse(_)));
}

fn summary() -> StatusSummary {
    StatusSummary {
        index_path: "/i/threads.sqlite3".to_string(),
        fts_available: true,
        files: 1,
        threads: 1,
        messages: 1,
        events: 1,
        sync_lock: lock("idle", None),
    }
}

#[test]
fn doctor_reports_a_healthy_index() {
    let scan = collect_doctor_scan(&lock("idle", None), &"/i/r".to_string(), StateFileCheck::Missing, &"/i/f".to_string(), StateFileCheck::Missing, 0, 0);
    assert!(scan.issues.is_empty());
    let report = build_doctor_report(scan.issues, Vec::new(), summary());
    assert_eq!(report.status, "healthy");
    assert_eq!(report.recommendation, "可以继续使用当前索引");
    assert_eq!(render_status(&report.status), "正常");
}

#[test]
fn doctor_finds_repairable_state_and_drift() {
    let scan = collect_doctor_scan(
        &lock("stale", Some("最近心跳已过期")),
        &"/i/sync.resume.json".to_string(),
        StateFileCheck::Valid { pending: 0 },
        &"/i/sync.refresh.json".to_string(),
        StateFileCheck::Invalid,
        2,
        0,
    );
    let codes: Vec<&str> = scan.issues.iter().map(|i| i.code.as_str()).collect();
    assert_eq!(codes, vec!["stale_lock", "empty_resume_state", "invalid_refresh_state", "thread_message_count_mismatch"]);
    assert_eq!(scan.repair_actions.len(), 3);
    assert_eq!(scan.issues[0].summary, "检测到过期的同步锁，可安全清理后恢复后续同步: 最近心跳已过期");
    assert_eq!(scan.issues[3].summary, "有 2 个线程的消息计数与明细表不一致，建议重新同步重建统计");
    assert_eq!(scan.repair_actions[1].path.as_deref(), Some("/i/sync.resume.json"));
    assert_eq!(
        build_recommendation(&scan.issues),
        "可先运行 codex-threads doctor --repair 清理本地状态，再执行重新同步处理索引漂移"
    );
    assert_eq!(render_issue_line(&scan.issues[3]), "- [thread_message_count_mismatch] 有 2 个线程的消息计数与明细表不一致，建议重新同步重建统计");
    assert_eq!(mismatch_count(None), 0);
    assert_eq!(mismatch_count(Some(3)), 3);
}

#[test]
fn doctor_waits_for_a_running_sync() {
    let issues = vec![DoctorIssue { code: "sync_in_progress".to_string(), summary: "s".to_string(), repairable: false, path: None }];
    assert_eq!(build_recommendation(&issues), "请等待当前同步完成后，再重新执行 doctor 检查");
}

#[test]
fn thread_identifiers_resolve_to_one_session() {
    assert!(matches!(resolve_session_id(&vec![], "x"), Err(ReadError::NotFound { .. })));
    assert_eq!(resolve_session_id(&vec!["a".to_string(), "a".to_string()], "x").unwrap(), "a");
    let e = resolve_session_id(&vec!["a".to_string(), "b".to_string()], "x").unwrap_err();
    assert_eq!(e.message(), "线程标识不唯一，请使用更精确的 session_id: x");
}

#[test]
fn thread_record_uses_session_times_or_file_time() {
    assert_eq!(parse_rfc3339_ms("2026-04-12T10:00:00.5Z"), Some(1_775_988_000_500));
    assert_eq!(parse_rfc3339_ms("x"), None);
    let t = build_thread_record("s", "/p".to_string(), "t".to_string(), None, Some("2026-04-12T10:00:00Z"), Some("bad"), 99);
    assert_eq!(t.created_at, 1_775_988_000_000);
    assert_eq!(t.updated_at, 99);
    assert_eq!(t.cwd, "");
    assert!(!t.archived);
}

#[test]
fn restore_checks_schema_and_rollout_path() {
    assert!(matches!(ensure_threads_schema(&vec![]), Err(RestoreError::MissingThreadsTable)));
    let partial: Vec<String> = ["id", "rollout_path", "created_at", "updated_at", "source", "model_provider", "cwd", "title", "sandbox_policy", "approval_mode"].iter().map(|s| s.to_string()).collect();
    let e = ensure_threads_schema(&partial).unwrap_err();
    assert_eq!(e.message(), "当前 Codex App threads 表缺少必要字段: archived, archived_at");
    assert!(ensure_rollout_path_is_safe(Some("s"), "s").is_ok());
    assert!(ensure_rollout_path_is_safe(None, "s").is_ok());
    assert!(matches!(ensure_rollout_path_is_safe(Some("t"), "s"), Err(RestoreError::RolloutPathTaken { .. })));
    assert_eq!(thread_action(true, false), "would_insert");
    assert_eq!(thread_action(false, true), "updated_existing");
}

#[test]
fn pinning_adds_the_thread_once() {
    let mut state = parse_json_line(r#"{"pinned-thread-ids":["already-pinned"],"other":1}"#).unwrap();
    assert_eq!(contains_pinned_thread(&state, "session-alpha").unwrap(), false);
    ensure_thread_is_pinned(&mut state, "session-alpha").unwrap();
    assert_eq!(contains_pinned_thread(&state, "session-alpha").unwrap(), true);
    ensure_thread_is_pinned(&mut state, "session-alpha").unwrap();
    match &state {
        JsonValue::Object(fields) => {
            let pinned = fields.iter().find(|m| m.key == "pinned-thread-ids").unwrap();
            match &pinned.value {
                JsonValue::Array(items) => assert_eq!(items.len(), 2),
                _ => panic!("expected an array"),
            }
        }
        _ => panic!("expected an object"),
    }
    let mut bad = parse_json_line("[1]").unwrap();
    assert!(matches!(ensure_thread_is_pinned(&mut bad, "x"), Err(RestoreError::GlobalStateNotObject)));
    let mut bad_list = parse_json_line(r#"{"pinned-thread-ids":"x"}"#).unwrap();
    assert!(matches!(contains_pinned_thread(&bad_list, "x"), Err(RestoreError::PinnedNotArray)));
    assert!(matches!(ensure_thread_is_pinned(&mut bad_list, "x"), Err(RestoreError::PinnedNotArray)));
}

#[test]
fn pin_plan_follows_flags() {
    let (_, a) = plan_pin(None, "s", false, false).unwrap();
    assert_eq!(a, "skipped");
    let (_, a) = plan_pin(None, "s", true, true).unwrap();
    assert_eq!(a, "would_pin");
    let (v, a) = plan_pin(None, "s", true, false).unwrap();
    assert_eq!(a, "pinned");
    assert_eq!(contains_pinned_thread(&v, "s").unwrap(), true);
    let state = parse_json_line(r#"{"pinned-thread-ids":["s"]}"#).unwrap();
    let (_, a) = plan_pin(Some(state), "s", true, false).unwrap();
    assert_eq!(a, "already_pinned");
}

#[test]
fn backup_names_are_safe() {
    assert_eq!(sanitize_component("a/b c-d_e"), "a_b_c-d_e");
    assert_eq!(backup_dir_name(1700, "t/1"), "restore-app-thread-1700-t_1");
    assert_eq!(backup_dir_name(-5, "t"), "restore-app-thread--5-t");
    assert_eq!(collect_warnings(false).len(), 1);
    assert_eq!(collect_warnings(true).len(), 2);
    assert_eq!(render_scope_recent(Some(20)), "最近 20 个文件");
    assert_eq!(render_scope_recent(None), "不限制");
}

#[test]
fn durations_show_in_milliseconds_then_seconds() {
    assert_eq!(format_duration(0), "0ms");
    assert_eq!(format_duration(999), "999ms");
    assert_eq!(format_duration(1000), "1.00s");
    assert_eq!(format_duration(1234), "1.23s");
    assert_eq!(format_duration(61_050), "61.05s");
}

#[test]
fn cooldown_states_are_described() {
    assert_eq!(render_cooldown_state("active"), "命中冷却，跳过本次同步");
    assert_eq!(render_cooldown_state("bypassed"), "已通过 --force 跳过冷却检查");
    assert_eq!(render_cooldown_state("ready"), "未命中冷却");
}

#[test]
fn lock_status_now_reads_a_missing_lock_as_idle_and_an_old_one_as_stale() {
    let idle = current_lock_status("/idx/sync.lock.json".to_string(), LockFileContents::Missing);
    assert_eq!(idle.state, "idle");
    let old = SyncLockFile {
        pid: 7,
        command: "sync".to_string(),
        index_path: "/idx/threads.sqlite3".to_string(),
        started_at: "2000-01-01T00:00:00Z".to_string(),
        heartbeat_at: "2000-01-01T00:00:00Z".to_string(),
    };
    let stale = current_lock_status("/idx/sync.lock.json".to_string(), LockFileContents::Parsed(old));
    assert_eq!(stale.state, "stale");
    assert_eq!(stale.pid, Some(7));
}

#[test]
fn backup_dir_made_now_names_the_thread() {
    let name = current_backup_dir_name("thread/1");
    assert!(name.starts_with("restore-app-thread-"));
    assert!(name.ends_with("-thread_1"));
}

#[test]
fn sidecar_files_sit_beside_the_state_database() {
    assert_eq!(sqlite_sidecar_path("/home/u/.codex/state_5.sqlite", "-wal"), "/home/u/.codex/state_5.sqlite-wal");
    assert_eq!(
        backup_targets("/h/state_5.sqlite", "/h/.codex-global-state.json", true),
        vec![
            "/h/state_5.sqlite".to_string(),
            "/h/state_5.sqlite-wal".to_string(),
            "/h/state_5.sqlite-shm".to_string(),
            "/h/.codex-global-state.json".to_string(),
        ]
    );
    assert_eq!(backup_targets("/h/state_5.sqlite", "/h/g.json", false).len(), 3);
}
