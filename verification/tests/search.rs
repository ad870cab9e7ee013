use codex_threads::search_meta::{SearchBackend, SearchExplain, SearchQueryMode};
use codex_threads::search_plan::{
    event_hit, expanded_fts_query, fallback_candidate_limit, should_expand_query_terms, thread_hit,
    SearchCascade, SearchStage, SearchStep, StageOutcome,
};
use codex_threads::search_rank::{finalize_thread_search_report, rank_order, RankKey, ThreadSearchHit};
use codex_threads::search_sql::{
    escape_like, like_pattern, message_like_literal_query, qualified_column, thread_fts_query,
    thread_like_terms_query, EventSearchFilters, MessageSearchFilters, SqlValue,
    ThreadSearchFilters,
};
use codex_threads::search_meta::build_search_meta;

fn texts(params: &[SqlValue]) -> Vec<String> {
    params
        .iter()
        .map(|p| match p {
            SqlValue::Text(s) => s.clone(),
            SqlValue::Integer(i) => format!("#{}", i),
        })
        .collect()
}

#[test]
fn like_patterns_escape_wildcards() {
    assert_eq!(escape_like("50%_a\\b"), "50\\%\\_a\\\\b");
    assert_eq!(like_pattern("x_y"), "%x\\_y%");
    assert_eq!(qualified_column("", "cwd"), "cwd");
    assert_eq!(qualified_column("t", "cwd"), "t.cwd");
}

#[test]
fn fallback_limit_is_five_times_within_bounds() {
    assert_eq!(fallback_candidate_limit(1), 50);
    assert_eq!(fallback_candidate_limit(20), 100);
    assert_eq!(fallback_candidate_limit(100), 250);
    assert_eq!(fallback_candidate_limit(usize::MAX), 250);
}

#[test]
fn expansion_needs_terms_and_a_changed_query() {
    let terms = vec!["CLI".to_string(), "search".to_string()];
    assert!(should_expand_query_terms("CLI search", &terms));
    assert!(!should_expand_query_terms("", &terms));
    assert!(!should_expand_query_terms("x", &[]));
    assert_eq!(expanded_fts_query("CLI/search", "CLI search").as_deref(), Some("CLI search"));
    assert_eq!(expanded_fts_query("CLI search", "CLI search"), None);
    assert_eq!(expanded_fts_query("x", ""), None);
}

#[test]
fn thread_fts_query_binds_filters_in_order() {
    let filters = ThreadSearchFilters {
        since: Some("2026-01-01".to_string()),
        until: None,
        session: Some("s1".to_string()),
        cwd: Some("repo".to_string()),
        path: None,
    };
    let q = thread_fts_query("cli", 7, &filters);
    assert!(q.sql.contains("WHERE threads_fts MATCH ?\n                AND t.session_id = ?\n                AND t.started_at >= ?\n                AND lower(ifnull(t.cwd, '')) LIKE lower(?) ESCAPE '\\'\n            ORDER BY bm25(threads_fts)"));
    assert_eq!(texts(&q.params), vec!["cli", "s1", "2026-01-01", "%repo%", "#7"]);
}

#[test]
fn thread_like_terms_query_repeats_the_condition_per_term() {
    let terms = vec!["a".to_string(), "b%".to_string()];
    let q = thread_like_terms_query(&terms, 50, &ThreadSearchFilters::default());
    assert_eq!(q.sql.matches("lower(title) LIKE lower(?)").count(), 2);
    assert_eq!(
        texts(&q.params),
        vec!["%a%", "%a%", "%a%", "%a%", "%b\\%%", "%b\\%%", "%b\\%%", "%b\\%%", "#50"]
    );
    assert!(q.sql.contains("ORDER BY started_at DESC"));
}

#[test]
fn message_like_query_filters_role_case_insensitively() {
    let filters = MessageSearchFilters {
        since: None,
        until: Some("2026-12-31".to_string()),
        session: None,
        role: Some("user".to_string()),
    };
    let q = message_like_literal_query("hello", 60, &filters);
    assert!(q.sql.contains("WHERE lower(m.text) LIKE lower(?) ESCAPE '\\'\n                AND m.timestamp <= ?\n                AND lower(m.role) = lower(?)"));
    assert_eq!(texts(&q.params), vec!["%hello%", "2026-12-31", "user", "#60"]);
    let _ = EventSearchFilters::default();
}

#[test]
fn blank_query_is_answered_empty() {
    let (_, step) = SearchCascade::start("   ", 10, true);
    match step {
        SearchStep::Empty { meta } => {
            assert_eq!(meta.backend, SearchBackend::Like);
            assert_eq!(meta.query_mode, SearchQueryMode::Literal);
            assert_eq!(meta.ranking, "field_match_then_recency");
        }
        _ => panic!("expected an empty answer"),
    }
}

#[test]
fn cascade_falls_back_from_fts_to_like_and_expands() {
    let (mut c, step) = SearchCascade::start(" CLI/search ", 10, true);
    assert!(matches!(step, SearchStep::Run { stage: SearchStage::FtsLiteral, ref text, limit: 10 } if text == "CLI/search"));
    // a failing full-text query never fails the search
    let step = c.next(StageOutcome::Failed);
    assert!(matches!(step, SearchStep::Run { stage: SearchStage::LikeLiteral, limit: 50, .. }));
    let step = c.next(StageOutcome::Empty);
    assert!(matches!(step, SearchStep::Run { stage: SearchStage::FtsExpanded, ref text, limit: 10 } if text == "CLI search"));
    let step = c.next(StageOutcome::Empty);
    assert!(matches!(step, SearchStep::Run { stage: SearchStage::LikeTerms, ref text, limit: 50 } if text == "CLI search"));
    match c.next(StageOutcome::Empty) {
        SearchStep::Answer { meta } => {
            assert_eq!(meta.backend, SearchBackend::Like);
            assert_eq!(meta.query_mode, SearchQueryMode::Expanded);
        }
        _ => panic!("expected an answer"),
    }
}

#[test]
fn like_failure_fails_the_search() {
    let (mut c, step) = SearchCascade::start("abc", 5, false);
    assert!(matches!(step, SearchStep::Run { stage: SearchStage::LikeLiteral, .. }));
    assert!(matches!(c.next(StageOutcome::Failed), SearchStep::Fail));
}

#[test]
fn found_hits_answer_with_the_stage_backend() {
    let (mut c, _) = SearchCascade::start("abc", 5, true);
    match c.next(StageOutcome::Found) {
        SearchStep::Answer { meta } => {
            assert_eq!(meta.backend, SearchBackend::Fts);
            assert_eq!(meta.ranking, "bm25");
        }
        _ => panic!("expected an answer"),
    }
}

#[test]
fn literal_query_without_expansion_ends_empty() {
    let (mut c, _) = SearchCascade::start("abc", 5, true);
    let _ = c.next(StageOutcome::Empty);
    // "abc" normalizes to itself: no expanded full-text stage, so the
    // search by terms comes next.
    assert!(matches!(c.next(StageOutcome::Empty), SearchStep::Run { stage: SearchStage::LikeTerms, .. }));
    let (mut d, _) = SearchCascade::start("--", 5, true);
    let _ = d.next(StageOutcome::Empty);
    assert!(matches!(d.next(StageOutcome::Empty), SearchStep::Empty { .. }));
}

fn hit(id: &str, title: &str, started: Option<&str>) -> ThreadSearchHit {
    thread_hit(
        id.to_string(),
        title.to_string(),
        None,
        format!("/p/{}.jsonl", id),
        1,
        0,
        title.to_string(),
        started.map(|s| s.to_string()),
        None,
        "x",
    )
}

#[test]
fn like_results_rank_by_score_then_recency_then_id() {
    let terms = vec!["cli".to_string(), "search".to_string()];
    let results = vec![
        hit("b", "cli only", Some("2026-01-02")),
        hit("a", "cli search", Some("2026-01-01")),
        hit("c", "cli only", Some("2026-01-03")),
        hit("d", "cli only", Some("2026-01-03")),
    ];
    let meta = build_search_meta("cli search", &terms, SearchBackend::Like, SearchQueryMode::Expanded, "field_match_then_recency");
    let report = finalize_thread_search_report(results, meta, "cli search", &terms, 3);
    let ids: Vec<&str> = report.results.iter().map(|h| h.session_id.as_str()).collect();
    assert_eq!(ids, vec!["a", "c", "d"]);
    let ranks: Vec<usize> = report.results.iter().map(|h| h.explain.rank).collect();
    assert_eq!(ranks, vec![1, 2, 3]);
    assert_eq!(report.results[0].explain.matched_terms, 2);
    assert!(report.results[0].explain.literal_match);
}

#[test]
fn fts_results_keep_their_order() {
    let terms = vec!["zzz".to_string()];
    let results = vec![hit("b", "x", None), hit("a", "y", None)];
    let meta = build_search_meta("zzz", &terms, SearchBackend::Fts, SearchQueryMode::Literal, "bm25");
    let report = finalize_thread_search_report(results, meta, "zzz", &terms, 10);
    let ids: Vec<&str> = report.results.iter().map(|h| h.session_id.as_str()).collect();
    assert_eq!(ids, vec!["b", "a"]);
}

#[test]
fn rank_order_is_stable_for_equal_keys() {
    let keys = vec![
        RankKey { score: 1, when: None, id: "x".to_string() },
        RankKey { score: 5, when: Some("t".to_string()), id: "y".to_string() },
        RankKey { score: 1, when: None, id: "x".to_string() },
    ];
    assert_eq!(rank_order(&keys), vec![1, 0, 2]);
}

#[test]
fn hits_take_snippets_from_fts_or_excerpt() {
    let h = thread_hit("s".into(), "t".into(), None, "p".into(), 3, 4, "hello world".into(), None, Some("[hi]".into()), "world");
    assert_eq!(h.snippet, "[hi]");
    assert_eq!(h.message_count, 3);
    let h = thread_hit("s".into(), "t".into(), None, "p".into(), 3, 4, "hello world".into(), None, None, "world");
    assert_eq!(h.snippet, "...world...");
    let e = event_hit("s".into(), None, None, "turn_context".into(), "cwd=/x".into(), None, "cwd");
    assert_eq!(e.snippet, "...cwd=/x...");
    let _ = SearchExplain::default();
}

#[test]
fn equal_rank_keys_keep_their_order() {
    let key = |id: &str| RankKey { score: 5, when: Some("2026-04-12T10:00:00Z".to_string()), id: id.to_string() };
    let keys = vec![key("s"), RankKey { score: 9, when: None, id: "a".to_string() }, key("s"), key("s")];
    assert_eq!(rank_order(&keys), vec![1, 0, 2, 3]);
}
