use codex_threads::sync_cooldown::{
    decide_cooldown, next_allowed_at, parse_cooldown_interval, record_completion, SyncRefreshState,
};
use codex_threads::sync_plan::{
    apply_resume_state, build_cooldown_skip_plan, classify_preflight, partition_candidates,
    plan_resume, prepare_sync_run, resume_candidates, split_budgeted_candidates, ResumeAction,
    SyncCheckpoint, SyncPlanError,
};
use codex_threads::sync_scope::{
    extract_session_timestamp, matches_path_scope, matches_time_scope, normalize_scope_time,
    select_candidates, validate_sync_request, wanted_file, ScannedFile,
};
use codex_threads::sync_state::{CandidateFile, CandidateOutcome, ExistingFile, SyncLedger};
use codex_threads::sync_tail::{decode_tail_record, merge_aggregate_text, scan_tail_buffer, tail_chunk, TailScan};
use codex_threads::sync_types::{SyncCooldown, SyncCooldownPolicy, SyncRequest, SyncResume, SyncScope};

fn request() -> SyncRequest {
    SyncRequest { since: None, until: None, path: None, recent: None, budget_files: None }
}

fn scanned(path: &str, name: &str, modified_at: i64, size: i64) -> ScannedFile {
    ScannedFile {
        path: path.to_string(),
        file_name: Some(name.to_string()),
        modified_at,
        size,
    }
}

fn candidate(path: &str, modified_at: i64, size: i64) -> CandidateFile {
    CandidateFile {
        path: path.to_string(),
        modified_at,
        size,
        effective_time: "2026-04-12T10:00:00Z".to_string(),
    }
}

#[test]
fn rollout_names_carry_their_session_time() {
    assert_eq!(
        extract_session_timestamp("rollout-2026-04-12T10-00-00-session-alpha.jsonl").as_deref(),
        Some("2026-04-12T10:00:00Z")
    );
    assert_eq!(
        extract_session_timestamp("rollout-2026-04-12T11-30-05.jsonl").as_deref(),
        Some("2026-04-12T11:30:05Z")
    );
    assert_eq!(extract_session_timestamp("notes.jsonl"), None);
    assert_eq!(extract_session_timestamp("rollout-bad-session-x.jsonl"), None);
}

#[test]
fn scope_bounds_are_normalized_or_refused() {
    assert_eq!(normalize_scope_time(None, "--since").unwrap(), None);
    assert_eq!(normalize_scope_time(Some("  "), "--since").unwrap(), None);
    assert_eq!(
        normalize_scope_time(Some("2026-04-12T10:30:00+00:00"), "--since").unwrap().as_deref(),
        Some("2026-04-12T10:30:00Z")
    );
    match normalize_scope_time(Some("yesterday"), "--until") {
        Err(e @ SyncPlanError::InvalidScopeTime { .. }) => {
            assert_eq!(e.message(), "--until 需要使用 RFC3339 时间，例如 2026-04-12T10:30:00Z")
        }
        _ => panic!("expected an invalid time"),
    }
}

#[test]
fn requests_are_validated_in_order() {
    let mut r = request();
    r.recent = Some(0);
    assert!(matches!(validate_sync_request(&r), Err(SyncPlanError::ZeroRecent)));
    let mut r = request();
    r.budget_files = Some(0);
    assert!(matches!(validate_sync_request(&r), Err(SyncPlanError::ZeroBudget)));
    let mut r = request();
    r.since = Some("2026-04-13T00:00:00Z".to_string());
    r.until = Some("2026-04-12T00:00:00Z".to_string());
    match validate_sync_request(&r) {
        Err(e @ SyncPlanError::InvertedRange) => {
            assert_eq!(e.message(), "无效的同步时间范围: --since 不能晚于 --until")
        }
        _ => panic!("expected an inverted range"),
    }
}

#[test]
fn path_and_time_scopes_filter_candidates() {
    assert!(matches_path_scope("/A/Alpha-Repo/x.jsonl", Some("alpha-repo")));
    assert!(!matches_path_scope("/A/beta/x.jsonl", Some("alpha")));
    assert!(matches_path_scope("/anything", None));
    assert!(matches_time_scope("2026-04-12T10:00:00Z", Some("2026-04-12T10:00:00Z"), None));
    assert!(!matches_time_scope("2026-04-12T09:00:00Z", Some("2026-04-12T10:00:00Z"), None));
    assert!(!matches_time_scope("2026-04-12T11:00:00Z", None, Some("2026-04-12T10:30:00Z")));
}

#[test]
fn candidates_come_newest_first_and_recent_keeps_the_newest() {
    let files = vec![
        scanned("/s/a.jsonl", "rollout-2026-04-12T10-00-00-session-alpha.jsonl", 0, 10),
        scanned("/s/b.jsonl", "rollout-2026-04-12T11-00-00-session-beta.jsonl", 0, 20),
        scanned("/s/readme.txt", "readme.txt", 0, 5),
        scanned("/s/c.jsonl", "rollout-2026-04-12T09-00-00.jsonl", 0, 30),
    ];
    let mut r = request();
    r.recent = Some(2);
    let (scope, cands) = select_candidates(files, &r).unwrap();
    let paths: Vec<&str> = cands.iter().map(|c| c.path.as_str()).collect();
    assert_eq!(paths, vec!["/s/b.jsonl", "/s/a.jsonl"]);
    assert_eq!(scope.candidate_files, 2);
    assert_eq!(scope.recent, Some(2));
    assert_eq!(cands[0].effective_time, "2026-04-12T11:00:00Z");
}

#[test]
fn time_scope_keeps_files_inside_the_range() {
    let files = vec![
        scanned("/s/a.jsonl", "rollout-2026-04-12T10-00-00-session-alpha.jsonl", 0, 10),
        scanned("/s/b.jsonl", "rollout-2026-04-12T11-00-00-session-beta.jsonl", 0, 20),
    ];
    let mut r = request();
    r.since = Some("2026-04-12T10:30:00Z".to_string());
    let (scope, cands) = select_candidates(files, &r).unwrap();
    assert_eq!(cands.len(), 1);
    assert_eq!(cands[0].path, "/s/b.jsonl");
    assert_eq!(scope.since.as_deref(), Some("2026-04-12T10:30:00Z"));
}

#[test]
fn modification_time_is_used_without_a_rollout_name() {
    let files = vec![scanned("/s/x.jsonl", "x.jsonl", 1_000_000_000, 1)];
    let (_, cands) = select_candidates(files, &request()).unwrap();
    assert_eq!(cands[0].effective_time, "1970-01-01T00:00:01Z");
}

#[test]
fn preflight_recommends_by_size_and_change() {
    assert_eq!(classify_preflight(0, 0, 0, 0, true), ("skip".to_string(), "当前范围内未发现可同步的会话文件".to_string()));
    assert_eq!(classify_preflight(0, 0, 0, 0, false).1, "未发现可同步的会话文件");
    assert_eq!(classify_preflight(3, 0, 10, 5, false), ("skip".to_string(), "未检测到发生变化的会话文件".to_string()));
    assert_eq!(classify_preflight(3, 100, 10, 5, false).0, "heavy-sync");
    assert_eq!(classify_preflight(3, 1, 1_000_000_000, 5, false).0, "heavy-sync");
    assert_eq!(classify_preflight(3, 1, 10, 100_000_000, false).0, "heavy-sync");
    assert_eq!(classify_preflight(3, 1, 10, 5, false), ("sync".to_string(), "检测到有变更文件，建议执行同步".to_string()));
}

#[test]
fn unchanged_files_stay_out_of_the_budget() {
    let existing = vec![ExistingFile {
        path: "/s/a.jsonl".to_string(),
        session_id: Some("sa".to_string()),
        modified_at: 1,
        size: 10,
        tail_record: None,
    }];
    let prepared = partition_candidates(
        vec![candidate("/s/a.jsonl", 1, 10), candidate("/s/b.jsonl", 2, 30), candidate("/s/c.jsonl", 3, 20)],
        &existing,
    );
    assert_eq!(prepared.unchanged_paths, vec!["/s/a.jsonl".to_string()]);
    assert_eq!(prepared.changed.len(), 2);
    assert_eq!(prepared.total_bytes, 60);
    assert_eq!(prepared.largest_file_bytes, 30);
    let (run, rest) = split_budgeted_candidates(prepared.changed, Some(1)).unwrap();
    assert_eq!(run.len(), 1);
    assert_eq!(rest, vec!["/s/c.jsonl".to_string()]);
    assert!(matches!(split_budgeted_candidates(Vec::new(), Some(0)), Err(SyncPlanError::ZeroBudget)));
}

#[test]
fn checkpoint_orders_candidates_as_saved() {
    let cands = vec![candidate("/a", 1, 1), candidate("/b", 1, 1), candidate("/c", 1, 1)];
    let pending = vec!["/c".to_string(), "/x".to_string(), "/a".to_string(), "/c".to_string()];
    let resumed = resume_candidates(cands, &pending);
    let paths: Vec<&str> = resumed.iter().map(|c| c.path.as_str()).collect();
    assert_eq!(paths, vec!["/c", "/a"]);
}

#[test]
fn checkpoint_state_after_a_run() {
    let (saved, action) = plan_resume("/i/sync.resume.json".to_string(), Some(1), &vec!["/b".to_string()], false, 1);
    assert_eq!(saved.state, "saved");
    assert_eq!(saved.remaining_files, 1);
    assert!(matches!(action, ResumeAction::Save(ref p) if p == &vec!["/b".to_string()]));
    let (done, action) = plan_resume("/i/sync.resume.json".to_string(), Some(1), &Vec::new(), true, 1);
    assert_eq!(done.state, "completed");
    assert!(matches!(action, ResumeAction::Clear));
    let (idle, action) = plan_resume("/i/sync.resume.json".to_string(), None, &Vec::new(), false, 0);
    assert_eq!(idle.state, "idle");
    assert_eq!(idle.reason, None);
    assert!(matches!(action, ResumeAction::Keep));
}

fn resume_idle() -> SyncResume {
    SyncResume {
        state: "idle".to_string(),
        state_path: "/i/sync.resume.json".to_string(),
        budget_files: None,
        resumed_from_checkpoint: false,
        processed_files: 0,
        remaining_files: 0,
        reason: None,
    }
}

fn cooldown_ready() -> SyncCooldown {
    SyncCooldown {
        state: "ready".to_string(),
        interval: "15m".to_string(),
        interval_seconds: 900,
        last_completed_at: None,
        next_allowed_at: None,
        reason: None,
    }
}

#[test]
fn ledger_counts_every_file_once_and_cleans_up_unseen_paths() {
    let existing = vec![
        ExistingFile { path: "/s/keep.jsonl".to_string(), session_id: Some("k".to_string()), modified_at: 1, size: 1, tail_record: None },
        ExistingFile { path: "/s/changed.jsonl".to_string(), session_id: Some("c".to_string()), modified_at: 1, size: 1, tail_record: None },
        ExistingFile { path: "/s/gone.jsonl".to_string(), session_id: Some("g".to_string()), modified_at: 1, size: 1, tail_record: None },
        ExistingFile { path: "/s/moved.jsonl".to_string(), session_id: Some("m".to_string()), modified_at: 1, size: 1, tail_record: None },
    ];
    let mut ledger = SyncLedger::new(existing, &vec!["/s/keep.jsonl".to_string()]);
    let changed = candidate("/s/changed.jsonl", 2, 5);
    assert!(!ledger.begin_candidate(&changed));
    ledger.record_outcome(&changed.path, CandidateOutcome::Failed { error: "boom".to_string() });
    let new_path = candidate("/s/new.jsonl", 2, 5);
    assert!(!ledger.begin_candidate(&new_path));
    ledger.record_outcome(&new_path.path, CandidateOutcome::Rebuilt { fallback: false, session_id: Some("m".to_string()) });
    let cleanup = ledger.cleanup_plan(false);
    assert_eq!(cleanup.len(), 2);
    assert_eq!(cleanup[0].path, "/s/gone.jsonl");
    assert_eq!(cleanup[0].delete_session.as_deref(), Some("g"));
    assert_eq!(cleanup[1].path, "/s/moved.jsonl");
    assert_eq!(cleanup[1].delete_session, None);
    assert!(ledger.cleanup_plan(true).is_empty());
    let report = ledger.finish(2, 3, 4, 5, cooldown_ready(), resume_idle());
    assert_eq!(report.stats.scanned_files, 3);
    assert_eq!(report.stats.skipped_files, 1);
    assert_eq!(report.stats.indexed_files, 1);
    assert_eq!(report.stats.rebuilt_files, 1);
    assert_eq!(report.stats.failed_files, 1);
    assert_eq!(report.stats.removed_files, 2);
    assert!(report.partial);
    assert_eq!(report.failures[0].error, "boom");
}

#[test]
fn cooldown_skips_a_recent_sync_of_the_same_scope() {
    let policy = SyncCooldownPolicy { force: false, interval: "15m".to_string(), interval_seconds: 900 };
    let refresh = SyncRefreshState { request: request(), completed_at: "2026-04-12T10:00:00Z".to_string() };
    let completed: i128 = 1_775_988_000_000_000_000;
    let d = decide_cooldown(&request(), &policy, Some(&refresh), completed + 60_000_000_000).unwrap();
    assert!(d.should_skip);
    assert_eq!(d.cooldown.state, "active");
    assert_eq!(d.cooldown.next_allowed_at.as_deref(), Some("2026-04-12T10:15:00Z"));
    assert_eq!(d.cooldown.reason.as_deref(), Some("最近刚同步过，命中冷却时间"));
    let later = decide_cooldown(&request(), &policy, Some(&refresh), completed + 900_000_000_000).unwrap();
    assert!(!later.should_skip);
    assert_eq!(later.cooldown.state, "ready");
    let forced = SyncCooldownPolicy { force: true, ..policy.clone() };
    let f = decide_cooldown(&request(), &forced, Some(&refresh), completed).unwrap();
    assert!(!f.should_skip);
    assert_eq!(f.cooldown.state, "bypassed");
    let mut other = request();
    other.path = Some("x".to_string());
    let o = decide_cooldown(&other, &policy, Some(&refresh), completed).unwrap();
    assert!(!o.should_skip);
    assert_eq!(o.cooldown.last_completed_at, None);
}

#[test]
fn cooldown_records_completion_and_rejects_bad_times() {
    assert_eq!(next_allowed_at("2026-04-12T10:00:00+08:00", 60).unwrap(), "2026-04-12T10:01:00+08:00");
    match next_allowed_at("later", 60) {
        Err(e @ SyncPlanError::RefreshTimestamp { .. }) => {
            assert_eq!(e.message(), "failed to parse sync refresh timestamp later")
        }
        _ => panic!("expected a refresh time error"),
    }
    let mut c = cooldown_ready();
    record_completion(&mut c, "2026-04-12T10:00:00Z".to_string()).unwrap();
    assert_eq!(c.last_completed_at.as_deref(), Some("2026-04-12T10:00:00Z"));
    assert_eq!(c.next_allowed_at.as_deref(), Some("2026-04-12T10:15:00Z"));
    let plan = build_cooldown_skip_plan(&request());
    assert_eq!(plan.preflight.recommended_action, "skip");
    assert_eq!(plan.scope.candidate_files, 0);
}

#[test]
fn tail_records_are_found_backwards() {
    assert!(matches!(scan_tail_buffer(b"abc\n{\"x\":1}\n", false), Ok(TailScan::Found(ref s)) if s == "{\"x\":1}"));
    assert!(matches!(scan_tail_buffer(b"partial", false), Ok(TailScan::NeedMore)));
    assert!(matches!(scan_tail_buffer(b"  whole  ", true), Ok(TailScan::Found(ref s)) if s == "whole"));
    assert!(matches!(scan_tail_buffer(b"\n \n", true), Ok(TailScan::Nothing)));
    assert!(scan_tail_buffer(b"a\n\xff\xfe", false).is_err());
    assert_eq!(decode_tail_record(b" rec \r").unwrap(), "rec");
    assert_eq!(tail_chunk(10_000), (10_000 - 4096, 4096));
    assert_eq!(tail_chunk(100), (0, 100));
}

#[test]
fn appended_text_is_merged_unless_blank() {
    assert_eq!(merge_aggregate_text("old  text", "  "), "old  text");
    assert_eq!(merge_aggregate_text("old  text", " new\tpart "), "old text new part");
}

#[test]
fn cooldown_intervals_read_in_seconds() {
    assert_eq!(parse_cooldown_interval("30m").unwrap(), 1800);
    assert_eq!(parse_cooldown_interval("45s").unwrap(), 45);
    assert_eq!(parse_cooldown_interval("2h").unwrap(), 7200);
    assert_eq!(parse_cooldown_interval("0s").unwrap(), 0);
    for bad in ["", "m", "30", "30d", "3x0m", "-5m", "99999999999999999999s", "5124095576030432h"] {
        match parse_cooldown_interval(bad) {
            Err(e @ SyncPlanError::InvalidCooldown { .. }) => {
                assert_eq!(e.message(), format!("--cooldown 需要使用 s / m / h 单位，例如 30m: {}", bad));
            }
            other => panic!("{:?} read as {:?}", bad, other),
        }
    }
}

#[test]
fn budgeted_run_resumes_where_it_stopped() {
    let all = vec![
        candidate("/s/a.jsonl", 1, 10),
        candidate("/s/b.jsonl", 2, 20),
        candidate("/s/c.jsonl", 3, 30),
    ];
    let (run, rest) = split_budgeted_candidates(all.clone(), Some(1)).unwrap();
    assert_eq!(run.len(), 1);
    assert_eq!(rest, vec!["/s/b.jsonl".to_string(), "/s/c.jsonl".to_string()]);
    let resumed = resume_candidates(all, &rest);
    let paths: Vec<&str> = resumed.iter().map(|c| c.path.as_str()).collect();
    assert_eq!(paths, vec!["/s/b.jsonl", "/s/c.jsonl"]);
}

#[test]
fn a_checkpoint_applies_only_to_the_same_request() {
    let all = vec![candidate("/s/a.jsonl", 1, 10), candidate("/s/b.jsonl", 2, 20)];
    let checkpoint = SyncCheckpoint { request: request(), pending_paths: vec!["/s/b.jsonl".to_string()] };
    let (resumed, flag) = apply_resume_state(all.clone(), &request(), Some(checkpoint.clone()));
    assert!(flag);
    assert_eq!(resumed.len(), 1);
    assert_eq!(resumed[0].path, "/s/b.jsonl");

    let mut other = request();
    other.recent = Some(5);
    let (kept, flag) = apply_resume_state(all.clone(), &other, Some(checkpoint));
    assert!(!flag);
    assert_eq!(kept.len(), 2);

    let (kept, flag) = apply_resume_state(all, &request(), None);
    assert!(!flag);
    assert_eq!(kept.len(), 2);
}

#[test]
fn a_prepared_run_splits_changed_files_at_the_budget() {
    let existing = vec![ExistingFile {
        path: "/s/a.jsonl".to_string(),
        session_id: Some("alpha".to_string()),
        modified_at: 1,
        size: 10,
        tail_record: None,
    }];
    let cands = vec![candidate("/s/a.jsonl", 1, 10), candidate("/s/b.jsonl", 2, 20), candidate("/s/c.jsonl", 3, 30)];
    let scope = SyncScope {
        since: None,
        until: None,
        path: None,
        recent: None,
        budget_files: None,
        candidate_files: 0,
    };
    let mut budgeted = request();
    budgeted.budget_files = Some(1);
    let run = prepare_sync_run(scope.clone(), cands.clone(), false, &existing, &budgeted).unwrap();
    assert_eq!(run.plan.scope.budget_files, Some(1));
    assert_eq!(run.plan.scope.candidate_files, 3);
    assert_eq!(run.plan.preflight.total_files, 3);
    assert_eq!(run.plan.preflight.changed_files, 2);
    assert_eq!(run.plan.preflight.unchanged_files, 1);
    assert_eq!(run.plan.preflight.total_bytes, 60);
    assert_eq!(run.plan.preflight.largest_file_bytes, 30);
    assert_eq!(run.plan.preflight.recommended_action, "sync");
    assert_eq!(run.unchanged_paths, vec!["/s/a.jsonl".to_string()]);
    assert_eq!(run.run_candidates.len(), 1);
    assert_eq!(run.run_candidates[0].path, "/s/b.jsonl");
    assert_eq!(run.remaining_paths, vec!["/s/c.jsonl".to_string()]);

    let mut zero = request();
    zero.budget_files = Some(0);
    assert!(matches!(prepare_sync_run(scope, cands, false, &existing, &zero), Err(SyncPlanError::ZeroBudget)));
}

#[test]
fn only_session_files_in_the_path_scope_are_wanted() {
    let mut r = request();
    assert!(wanted_file("/s/2026/rollout-a.jsonl", &Some("rollout-a.jsonl".to_string()), &r));
    assert!(!wanted_file("/s/2026/notes.txt", &Some("notes.txt".to_string()), &r));
    assert!(!wanted_file("/s", &None, &r));
    r.path = Some("Session-BETA".to_string());
    assert!(wanted_file("/s/rollout-session-beta.jsonl", &Some("rollout-session-beta.jsonl".to_string()), &r));
    assert!(!wanted_file("/s/rollout-session-alpha.jsonl", &Some("rollout-session-alpha.jsonl".to_string()), &r));
}

#[test]
fn selection_reports_the_request_error() {
    let files = vec![scanned("/s/rollout-2026-04-12T10-00-00-a.jsonl", "rollout-2026-04-12T10-00-00-a.jsonl", 1, 10)];
    let mut r = request();
    r.budget_files = Some(0);
    assert!(matches!(select_candidates(files.clone(), &r), Err(SyncPlanError::ZeroBudget)));
    let mut r = request();
    r.since = Some("2026-04-13T00:00:00Z".to_string());
    r.until = Some("2026-04-12T00:00:00Z".to_string());
    assert!(matches!(select_candidates(files, &r), Err(SyncPlanError::InvertedRange)));
}

#[test]
fn syncing_unchanged_files_again_is_idle() {
    let existing = vec![
        ExistingFile { path: "/s/a.jsonl".to_string(), session_id: Some("a".to_string()), modified_at: 1, size: 10, tail_record: None },
        ExistingFile { path: "/s/b.jsonl".to_string(), session_id: Some("b".to_string()), modified_at: 2, size: 20, tail_record: None },
    ];
    let cands = vec![candidate("/s/a.jsonl", 1, 10), candidate("/s/b.jsonl", 2, 20)];
    let scope = SyncScope { since: None, until: None, path: None, recent: None, budget_files: None, candidate_files: 0 };
    let run = prepare_sync_run(scope, cands, false, &existing, &request()).unwrap();
    assert_eq!(run.plan.preflight.changed_files, 0);
    assert_eq!(run.plan.preflight.recommended_action, "skip");
    assert!(run.run_candidates.is_empty());
    assert_eq!(run.unchanged_paths.len(), 2);
}

#[test]
fn a_finished_run_accounts_for_every_scanned_file() {
    let existing = vec![ExistingFile { path: "/s/a.jsonl".to_string(), session_id: Some("a".to_string()), modified_at: 1, size: 10, tail_record: None }];
    let mut ledger = SyncLedger::new(existing, &vec!["/s/a.jsonl".to_string()]);
    let b = candidate("/s/b.jsonl", 2, 20);
    let c = candidate("/s/c.jsonl", 3, 30);
    assert!(!ledger.begin_candidate(&b));
    ledger.record_outcome(&b.path, CandidateOutcome::Rebuilt { fallback: false, session_id: Some("b".to_string()) });
    assert!(!ledger.begin_candidate(&c));
    ledger.record_outcome(&c.path, CandidateOutcome::Failed { error: "invalid JSON in /s/c.jsonl".to_string() });
    let cooldown = SyncCooldown {
        state: "ready".to_string(),
        interval: "30m".to_string(),
        interval_seconds: 1800,
        last_completed_at: None,
        next_allowed_at: None,
        reason: None,
    };
    let resume = SyncResume {
        state: "idle".to_string(),
        state_path: "/idx/sync.resume.json".to_string(),
        budget_files: None,
        resumed_from_checkpoint: false,
        processed_files: 2,
        remaining_files: 0,
        reason: None,
    };
    let report = ledger.finish(0, 2, 4, 1, cooldown, resume);
    let s = &report.stats;
    assert_eq!(s.scanned_files, 3);
    assert_eq!(s.scanned_files, s.indexed_files + s.skipped_files + s.failed_files);
    assert_eq!(report.failures.len(), s.failed_files);
    assert!(report.partial);
}

#[test]
fn far_future_scope_bounds_are_kept_as_given() {
    assert_eq!(
        normalize_scope_time(Some("9999-12-31T23:59:59-01:00"), "--since").unwrap().as_deref(),
        Some("9999-12-31T23:59:59-01:00")
    );
    assert_eq!(
        normalize_scope_time(Some("2026-04-12T12:30:00+02:00"), "--since").unwrap().as_deref(),
        Some("2026-04-12T12:30:00+02:00")
    );
}

#[test]
fn the_next_allowed_time_moves_the_local_time_on() {
    assert_eq!(next_allowed_at("9999-12-31T23:30:00-01:00", 60).unwrap(), "9999-12-31T23:31:00-01:00");
    assert_eq!(next_allowed_at("2026-04-12T10:00:00+08:00", 1800).unwrap(), "2026-04-12T10:30:00+08:00");
    assert!(matches!(next_allowed_at("9999-12-31T23:30:00-01:00", 3600), Err(SyncPlanError::CooldownTimeFormat)));
}

#[test]
fn a_file_record_keeps_the_candidate_state() {
    let c = candidate("/s/a.jsonl", 7, 70);
    let r = codex_threads::sync_state::file_record(&c, Some("a".to_string()), Some("{}".to_string()));
    assert_eq!((r.path.as_str(), r.modified_at, r.size), ("/s/a.jsonl", 7, 70));
    assert_eq!(r.session_id.as_deref(), Some("a"));
}
