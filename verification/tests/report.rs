use codex_threads::doctor::{build_doctor_report, DoctorIssue, DoctorRepairAction};
use codex_threads::read::{messages_query, resolve_query, EventRecord, MessageRecord, ThreadRecord};
use codex_threads::search_sql::SqlValue;
use codex_threads::report::{
    doctor_text, event_read_text, progress_line, progress_phase, SyncProgressEvent, message_read_text, message_search_text, restore_text,
    status_text, sync_report_text, thread_read_text, thread_search_text,
};
use codex_threads::restore::{build_restore_report, RestoredAppThread};
use codex_threads::search_meta::SearchExplain;
use codex_threads::search_rank::{MessageSearchHit, ThreadSearchHit};
use codex_threads::sync_types::{
    StatusSummary, SyncCooldown, SyncFailure, SyncLockStatus, SyncPlan, SyncPreflight, SyncReport,
    SyncResume, SyncScope, SyncStats,
};

fn idle_lock() -> SyncLockStatus {
    SyncLockStatus {
        state: "idle".to_string(),
        lock_path: "/idx/sync.lock.json".to_string(),
        pid: None,
        started_at: None,
        heartbeat_at: None,
        reason: None,
    }
}

fn summary(lock: SyncLockStatus) -> StatusSummary {
    StatusSummary {
        index_path: "/idx/threads.sqlite3".to_string(),
        fts_available: true,
        files: 2,
        threads: 2,
        messages: 5,
        events: 3,
        sync_lock: lock,
    }
}

fn plan() -> SyncPlan {
    SyncPlan {
        scope: SyncScope {
            since: None,
            until: None,
            path: Some("session-beta".to_string()),
            recent: Some(1),
            budget_files: None,
            candidate_files: 1,
        },
        preflight: SyncPreflight {
            total_files: 1,
            changed_files: 1,
            unchanged_files: 0,
            total_bytes: 2048,
            largest_file_bytes: 2048,
            recommended_action: "sync".to_string(),
            reason: "检测到有变更文件，建议执行同步".to_string(),
        },
    }
}

fn report(failures: Vec<SyncFailure>) -> SyncReport {
    SyncReport {
        stats: SyncStats {
            scanned_files: 1,
            indexed_files: 1 - failures.len(),
            appended_files: 0,
            rebuilt_files: 1 - failures.len(),
            fallback_rebuilt_files: 0,
            skipped_files: 0,
            failed_files: failures.len(),
            removed_files: 0,
            threads: 1,
            messages: 2,
            events: 1,
        },
        partial: !failures.is_empty(),
        failures,
        cooldown: SyncCooldown {
            state: "ready".to_string(),
            interval: "30m".to_string(),
            interval_seconds: 1800,
            last_completed_at: Some("2026-04-12T10:00:00Z".to_string()),
            next_allowed_at: None,
            reason: None,
        },
        resume: SyncResume {
            state: "idle".to_string(),
            state_path: "/idx/sync.resume.json".to_string(),
            budget_files: None,
            resumed_from_checkpoint: false,
            processed_files: 1,
            remaining_files: 0,
            reason: None,
        },
    }
}

#[test]
fn sync_report_lists_scope_cooldown_preflight_and_counts() {
    let text = sync_report_text(&plan(), &report(Vec::new()), "/s", "/idx", "2.0KB", "2.0KB");
    let lines: Vec<&str> = text.lines().collect();
    assert_eq!(lines[0], "同步范围");
    assert!(lines.contains(&"路径过滤: session-beta"));
    assert!(lines.contains(&"最近活跃: 最近 1 个文件"));
    assert!(lines.contains(&"候选文件: 1"));
    assert!(lines.contains(&"时间起点: 全部"));
    assert!(lines.contains(&"同步冷却"));
    assert!(lines.contains(&"冷却间隔: 30m"));
    assert!(lines.contains(&"冷却状态: 未命中冷却"));
    assert!(lines.contains(&"最近刷新: 2026-04-12T10:00:00Z"));
    assert!(lines.contains(&"下次允许: 无"));
    assert!(lines.contains(&"总大小: 2.0KB"));
    assert!(lines.contains(&"推荐动作: 执行同步"));
    assert!(lines.contains(&"同步完成"));
    assert!(lines.contains(&"整条重建: 1"));
    assert_eq!(*lines.last().unwrap(), "事件总数: 1");
    assert_eq!(lines.len(), 36);
}

#[test]
fn sync_report_marks_partial_runs_and_lists_failures() {
    let failures = vec![SyncFailure { path: "/s/bad.jsonl".to_string(), error: "invalid JSON in /s/bad.jsonl".to_string() }];
    let text = sync_report_text(&plan(), &report(failures), "/s", "/idx", "2.0KB", "2.0KB");
    let lines: Vec<&str> = text.lines().collect();
    assert!(lines.contains(&"同步完成（部分失败）"));
    assert!(lines.contains(&"失败文件: 1"));
    assert_eq!(*lines.last().unwrap(), "- /s/bad.jsonl invalid JSON in /s/bad.jsonl");
}

#[test]
fn skipped_sync_says_nothing_needed_updating() {
    let mut p = plan();
    p.preflight.recommended_action = "skip".to_string();
    let text = sync_report_text(&p, &report(Vec::new()), "/s", "/idx", "0B", "0B");
    assert!(text.lines().any(|l| l == "同步完成（无需更新）"));
    assert!(text.lines().any(|l| l == "推荐动作: 跳过同步"));
}

#[test]
fn status_text_shows_the_lock_holder_when_running() {
    let idle = status_text(&summary(idle_lock()), "0.0.4");
    assert_eq!(
        idle,
        "索引状态\nCLI 版本: 0.0.4\n索引文件: /idx/threads.sqlite3\nFTS5 可用: true\n同步锁: 空闲\n文件数: 2\n线程数: 2\n消息数: 5\n事件数: 3"
    );
    let mut running = idle_lock();
    running.state = "running".to_string();
    running.pid = Some(42);
    running.heartbeat_at = Some("2026-04-12T10:00:00Z".to_string());
    let text = status_text(&summary(running), "0.0.4");
    assert!(text.contains("同步锁: 运行中"));
    assert!(text.ends_with("锁 PID: 42\n最近心跳: 2026-04-12T10:00:00Z"));
}

#[test]
fn search_texts_list_one_line_per_hit() {
    let hit = ThreadSearchHit {
        session_id: "session-alpha".to_string(),
        title: "Build a CLI".to_string(),
        cwd: None,
        path: "/s/a.jsonl".to_string(),
        message_count: 2,
        event_count: 0,
        snippet: "build a [CLI]".to_string(),
        explain: SearchExplain::default(),
        aggregate_text: String::new(),
        started_at: None,
    };
    assert_eq!(
        thread_search_text("CLI", &vec![hit]),
        "线程搜索: CLI\n命中条数: 1\n- [session-alpha] Build a CLI build a [CLI]"
    );
    let m = MessageSearchHit {
        session_id: "s".to_string(),
        title: None,
        timestamp: None,
        role: "user".to_string(),
        text: "hi".to_string(),
        snippet: "hi".to_string(),
        explain: SearchExplain::default(),
    };
    assert_eq!(message_search_text("hi", &vec![m]), "消息搜索: hi\n命中条数: 1\n- [s] user hi");
}

#[test]
fn read_texts_list_records_with_their_times() {
    let thread = ThreadRecord {
        session_id: "s".to_string(),
        title: "T".to_string(),
        cwd: None,
        path: "/s/a.jsonl".to_string(),
        file_name: "a.jsonl".to_string(),
        folder: None,
        started_at: None,
        ended_at: None,
        message_count: 1,
        event_count: 0,
    };
    let messages = vec![MessageRecord {
        session_id: "s".to_string(),
        timestamp: Some("2026-04-12T10:00:01Z".to_string()),
        role: "user".to_string(),
        text: "hello".to_string(),
    }];
    assert_eq!(
        thread_read_text(&thread, &messages),
        "线程: s\n标题: T\n消息数: 1\n事件数: 0\n- 2026-04-12T10:00:01Z user hello"
    );
    assert_eq!(message_read_text("s", &messages), "消息线程: s\n返回条数: 1\n- 2026-04-12T10:00:01Z user hello");
    let events = vec![EventRecord {
        session_id: "s".to_string(),
        timestamp: None,
        event_type: "turn_context".to_string(),
        summary: "cwd=/w".to_string(),
    }];
    assert_eq!(event_read_text("s", &events), "事件线程: s\n返回条数: 1\n-  turn_context cwd=/w");
}

#[test]
fn doctor_text_lists_issues_and_repairs() {
    let issues = vec![DoctorIssue {
        code: "stale_lock".to_string(),
        summary: "检测到过期的同步锁".to_string(),
        repairable: true,
        path: Some("/idx/sync.lock.json".to_string()),
    }];
    let repairs = vec![DoctorRepairAction {
        code: "stale_lock".to_string(),
        summary: "已清理过期的同步锁文件".to_string(),
        path: None,
    }];
    let report = build_doctor_report(issues, repairs, summary(idle_lock()));
    let text = doctor_text(&report);
    let lines: Vec<&str> = text.lines().collect();
    assert_eq!(lines[0], "索引健康检查");
    assert_eq!(lines[1], "健康状态: 需关注");
    assert_eq!(lines[2], "发现问题: 1");
    assert!(lines.contains(&"问题列表"));
    assert!(lines.contains(&"- [stale_lock] 检测到过期的同步锁 (/idx/sync.lock.json)"));
    assert_eq!(*lines.last().unwrap(), "- [stale_lock] 已清理过期的同步锁文件");

    let healthy = build_doctor_report(Vec::new(), Vec::new(), summary(idle_lock()));
    let text = doctor_text(&healthy);
    assert!(text.contains("健康状态: 正常"));
    assert!(!text.contains("问题列表"));
}

#[test]
fn restore_text_shows_the_plan_and_warnings() {
    let thread = RestoredAppThread {
        id: "t1".to_string(),
        rollout_path: "/s/a.jsonl".to_string(),
        title: "T".to_string(),
        cwd: "/w".to_string(),
        created_at: 1,
        updated_at: 2,
        archived: false,
    };
    let report = build_restore_report(
        true,
        thread,
        "would_insert".to_string(),
        "would_pin".to_string(),
        "/h/state_5.sqlite".to_string(),
        "/h/.codex-global-state.json".to_string(),
        None,
        vec!["先退出 App".to_string()],
    );
    let text = restore_text(&report);
    let lines: Vec<&str> = text.lines().collect();
    assert_eq!(lines[0], "实验能力：restore-app-thread");
    assert_eq!(lines[2], "执行模式: dry-run");
    assert_eq!(lines[3], "线程处理: 将新增线程记录");
    assert_eq!(lines[4], "Pin 处理: 将加入 pinned-thread-ids");
    assert!(!text.contains("备份目录"));
    assert_eq!(&lines[lines.len() - 2..], &["提示", "- 先退出 App"]);
}

#[test]
fn progress_lines_name_the_phase_and_the_counts() {
    assert_eq!(progress_line(&SyncProgressEvent::ScanStarted), "阶段: 扫描候选文件");
    let e = SyncProgressEvent::IndexStarted { total_files: 2, processed_files: 0 };
    assert_eq!(progress_line(&e), "阶段: 写入索引 0/2");
    assert_eq!(progress_phase(&e), "indexing");
    let f = SyncProgressEvent::Finished {
        total_files: 2,
        processed_files: 2,
        indexed_files: 2,
        skipped_files: 0,
        failed_files: 0,
        partial: false,
    };
    assert_eq!(progress_line(&f), "阶段: 完成 2/2（新增/重建 2，跳过 0，失败 0）");
    assert_eq!(progress_phase(&f), "finished");
}

#[test]
fn read_queries_bind_the_session_and_the_limit() {
    let q = resolve_query("alpha");
    assert!(q.sql.contains("OR file_name LIKE '%' || ?1 || '%'"));
    assert!(matches!(q.params.as_slice(), [SqlValue::Text(t)] if t == "alpha"));
    let q = messages_query("s", Some(3));
    assert!(q.sql.contains("ORDER BY idx DESC"));
    assert!(matches!(q.params.as_slice(), [SqlValue::Text(t), SqlValue::Integer(3)] if t == "s"));
    let q = messages_query("s", None);
    assert!(!q.sql.contains("LIMIT"));
}
