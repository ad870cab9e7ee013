use codex_threads::query::normalize_query_terms;
use codex_threads::search_meta::{
    analyze_match, build_search_meta, SearchBackend, SearchField, SearchQueryMode,
};

#[test]
fn fallback_scoring_prefers_more_complete_term_coverage() {
    let exact = analyze_match(
        "CLI/search",
        &[String::from("CLI"), String::from("search")],
        &[SearchField {
            name: "text",
            text: Some("Please build a CLI search flow"),
            weight: 30,
        }],
        1,
    );
    let partial = analyze_match(
        "CLI/search",
        &[String::from("CLI"), String::from("search")],
        &[SearchField {
            name: "text",
            text: Some("Please build a CLI flow"),
            weight: 30,
        }],
        1,
    );

    assert!(exact.fallback_score > partial.fallback_score);
    assert_eq!(exact.explain.matched_terms, 2);
    assert_eq!(partial.explain.matched_terms, 1);
}

#[test]
fn fallback_score_adds_coverage_literal_and_field_weights() {
    let exact = analyze_match(
        "CLI/search",
        &[String::from("CLI"), String::from("search")],
        &[SearchField { name: "text", text: Some("Please build a CLI search flow"), weight: 30 }],
        1,
    );
    // every term covered (2000), two terms (200), one matching field (30)
    assert_eq!(exact.fallback_score, 2230);
    assert!(!exact.explain.literal_match);
    assert_eq!(exact.explain.matched_fields, vec!["text".to_string()]);
    assert_eq!(exact.explain.rank, 1);

    let literal = analyze_match(
        "cli search",
        &[String::from("cli"), String::from("search")],
        &[
            SearchField { name: "title", text: Some("A CLI SEARCH tool"), weight: 60 },
            SearchField { name: "cwd", text: None, weight: 20 },
        ],
        3,
    );
    // 2000 + literal 500 + 200 + title 60
    assert_eq!(literal.fallback_score, 2760);
    assert!(literal.explain.literal_match);
    assert_eq!(literal.explain.rank, 3);
}

#[test]
fn analysis_without_terms_counts_a_literal_match_as_one_term() {
    let a = analyze_match(
        "--",
        &[],
        &[SearchField { name: "summary", text: Some("x -- y"), weight: 30 }],
        0,
    );
    assert_eq!(a.explain.matched_terms, 1);
    assert!(a.explain.literal_match);
    assert_eq!(a.fallback_score, 500 + 100 + 30);
}

#[test]
fn search_meta_shows_normalized_query_when_it_differs() {
    let terms = vec!["CLI".to_string(), "search".to_string()];
    let meta = build_search_meta(" CLI/search ", &terms, SearchBackend::Like, SearchQueryMode::Literal, "field_match_then_recency");
    assert_eq!(meta.normalized_query.as_deref(), Some("CLI search"));
    assert_eq!(meta.normalized_terms, terms);

    let same = build_search_meta("CLI search", &terms, SearchBackend::Fts, SearchQueryMode::Literal, "bm25");
    assert_eq!(same.normalized_query, None);

    let expanded = build_search_meta("CLI search", &terms, SearchBackend::Fts, SearchQueryMode::Expanded, "bm25");
    assert_eq!(expanded.normalized_query.as_deref(), Some("CLI search"));

    let none = build_search_meta("---", &[], SearchBackend::Like, SearchQueryMode::Expanded, "field_match_then_recency");
    assert_eq!(none.normalized_query, None);
}

#[test]
fn query_terms_are_alphanumeric_runs_of_the_trimmed_query() {
    assert_eq!(normalize_query_terms("  CLI/search, v2! "), vec!["CLI", "search", "v2"]);
    assert_eq!(normalize_query_terms("搜索-fallback"), vec!["搜索", "fallback"]);
    assert!(normalize_query_terms(" -- ").is_empty());
}

#[test]
fn heavy_field_weights_score_without_a_bound() {
    let a = analyze_match(
        "cli",
        &[String::from("cli")],
        &[SearchField { name: "title", text: Some("CLI"), weight: 1 << 50 }],
        1,
    );
    assert_eq!(a.fallback_score, 2000 + 500 + 100 + (1i64 << 50));
}
