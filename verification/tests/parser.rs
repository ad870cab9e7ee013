use codex_threads::json::{compact_json, parse_json_line, JsonValue};
use codex_threads::parser::{
    build_title, fallback_session_id, last_path_segment, parse_session_lines, parse_session_tail, shorten,
    SessionParseError,
};

fn alpha_lines() -> Vec<String> {
    [
        r#"{"timestamp":"2026-04-12T10:00:00Z","type":"session_meta","payload":{"id":"session-alpha","timestamp":"2026-04-12T10:00:00Z","cwd":"/workspace/alpha-repo","originator":"codex_cli_rs","cli_version":"0.53.0"}}"#,
        r#"{"timestamp":"2026-04-12T10:00:01Z","type":"response_item","payload":{"type":"message","role":"user","content":[{"type":"input_text","text":"Please build a CLI for thread search"}]}}"#,
        r#"{"timestamp":"2026-04-12T10:00:02Z","type":"response_item","payload":{"type":"message","role":"assistant","content":[{"type":"output_text","text":"I will build a CLI using Rust and SQLite."}]}}"#,
        r#"{"timestamp":"2026-04-12T10:00:02Z","type":"response_item","payload":{"type":"message","role":"assistant","content":[{"type":"output_text","text":"The C++ parser still needs better symbol-aware search."}]}}"#,
        r#"{"timestamp":"2026-04-12T10:00:03Z","type":"response_item","payload":{"type":"function_call","name":"shell","arguments":"{\"command\":[\"rg\",\"CLI\"]}"}}"#,
        r#"{"timestamp":"2026-04-12T10:00:04Z","type":"event_msg","payload":{"type":"user_message","message":"Please build a CLI for thread search","images":[]}}"#,
        r#"{"timestamp":"2026-04-12T10:00:05Z","type":"event_msg","payload":{"type":"agent_reasoning","text":"Planning CLI surface and indexing layout"}}"#,
        r#"{"timestamp":"2026-04-12T10:00:06Z","type":"turn_context","payload":{"cwd":"/workspace/alpha-repo","approval_policy":"on-request","model":"gpt-5-codex"}}"#,
    ]
    .iter()
    .map(|s| s.to_string())
    .collect()
}

const ALPHA_PATH: &str =
    "/tmp/sessions/2026/04/12/rollout-2026-04-12T10-00-00-session-alpha.jsonl";

#[test]
fn parser_extracts_thread_messages_and_events() {
    let parsed = parse_session_lines(&alpha_lines(), ALPHA_PATH).unwrap();

    assert_eq!(parsed.session_id, "session-alpha");
    assert_eq!(parsed.cwd.as_deref(), Some("/workspace/alpha-repo"));
    assert_eq!(parsed.messages.len(), 3);
    assert_eq!(parsed.events.len(), 4);
    assert!(parsed.title.contains("alpha-repo"));
    assert!(parsed.aggregate_text.contains("Rust and SQLite"));
    assert!(parsed.aggregate_text.contains("C++"));
}

#[test]
fn parsed_session_has_exact_title_times_and_summaries() {
    let parsed = parse_session_lines(&alpha_lines(), ALPHA_PATH).unwrap();
    assert_eq!(parsed.title, "alpha-repo: Please build a CLI for thread search");
    assert_eq!(parsed.started_at.as_deref(), Some("2026-04-12T10:00:00Z"));
    assert_eq!(parsed.ended_at.as_deref(), Some("2026-04-12T10:00:06Z"));
    assert_eq!(parsed.messages[0].role, "user");
    assert_eq!(parsed.messages[0].text, "Please build a CLI for thread search");
    assert_eq!(parsed.messages[0].raw_json, "");
    assert_eq!(parsed.events[0].event_type, "function_call");
    assert_eq!(parsed.events[0].summary, r#"function_call shell {"command":["rg","CLI"]}"#);
    assert_eq!(parsed.events[1].event_type, "user_message");
    assert_eq!(parsed.events[1].summary, "Please build a CLI for thread search");
    assert_eq!(parsed.events[2].summary, "Planning CLI surface and indexing layout");
    assert_eq!(parsed.events[3].event_type, "turn_context");
    assert_eq!(
        parsed.events[3].summary,
        "cwd=/workspace/alpha-repo model=gpt-5-codex approval=on-request"
    );
    assert!(parsed.aggregate_text.starts_with("alpha-repo: Please build a CLI for thread search /workspace/alpha-repo"));
    assert_eq!(
        parsed.tail_record.as_deref(),
        Some(alpha_lines()[7].as_str())
    );
}

#[test]
fn invalid_json_line_is_reported_with_its_position() {
    let lines = vec![
        "{\"timestamp\":\"2026-04-12T12:00:00Z\",\"type\":\"session_meta\"".to_string(),
        "not-json".to_string(),
    ];
    match parse_session_lines(&lines, "/x/y.jsonl") {
        Err(SessionParseError::InvalidJson { line }) => assert_eq!(line, 0),
        Ok(_) => panic!("expected a parse error"),
    }
    let lines = vec!["   ".to_string(), "{}".to_string(), "nope".to_string()];
    match parse_session_lines(&lines, "/x/y.jsonl") {
        Err(SessionParseError::InvalidJson { line }) => assert_eq!(line, 2),
        Ok(_) => panic!("expected a parse error"),
    }
}

#[test]
fn session_without_meta_falls_back_to_file_stem() {
    let lines = vec![
        "".to_string(),
        r#"{"type":"mystery","payload":{"k":1}}"#.to_string(),
    ];
    let parsed = parse_session_lines(&lines, "/a/b/rollout-x.jsonl").unwrap();
    assert_eq!(parsed.session_id, "rollout-x");
    assert_eq!(parsed.title, "rollout-x");
    assert_eq!(parsed.started_at, None);
    assert_eq!(parsed.events.len(), 1);
    assert_eq!(parsed.events[0].event_type, "mystery");
    assert_eq!(parsed.events[0].summary, r#"{"k":1}"#);
    assert_eq!(fallback_session_id("/"), "unknown-session");
}

#[test]
fn tail_of_appended_records_is_parsed() {
    let lines = vec![
        r#"{"timestamp":"2026-04-12T10:00:08Z","type":"response_item","payload":{"type":"message","role":"assistant","content":[{"type":"output_text","text":"The CLI now supports incremental sync."}]}}"#.to_string(),
    ];
    let tail = parse_session_tail(&lines).unwrap();
    assert_eq!(tail.session_id, None);
    assert_eq!(tail.messages.len(), 1);
    assert_eq!(tail.ended_at.as_deref(), Some("2026-04-12T10:00:08Z"));
    assert_eq!(tail.aggregate_text, "The CLI now supports incremental sync.");
    assert_eq!(tail.tail_record.as_deref(), Some(lines[0].as_str()));
}

#[test]
fn titles_combine_folder_and_first_message() {
    assert_eq!(build_title("s1", Some("/w/repo"), Some("  hello   world ")), "repo: hello world");
    assert_eq!(build_title("s1", Some("/w/repo"), None), "repo");
    assert_eq!(build_title("s1", None, Some("hi")), "hi");
    assert_eq!(build_title("s1", None, None), "s1");
    let long = "a".repeat(80);
    assert_eq!(shorten(&long), format!("{}...", "a".repeat(72)));
}

#[test]
fn compact_json_writes_payloads() {
    let v = parse_json_line(r#"{"b": [1, 2.5, "x"], "a": null}"#).unwrap();
    assert_eq!(compact_json(&v), r#"{"a":null,"b":[1,2.5,"x"]}"#);
    assert_eq!(compact_json(&JsonValue::Null), "");
    assert!(parse_json_line("{").is_none());
}

#[test]
fn the_last_path_segment_is_the_file_name() {
    assert_eq!(last_path_segment("/s/2026/04/12/rollout-a.jsonl").as_deref(), Some("rollout-a.jsonl"));
    assert_eq!(last_path_segment("/"), None);
    assert_eq!(fallback_session_id("/s/rollout-a.jsonl"), "rollout-a");
}

#[test]
fn a_thread_row_records_file_name_and_folder() {
    let (name, folder) = codex_threads::parser::thread_location("/s/2026/04/12/rollout-a.jsonl");
    assert_eq!(name, "rollout-a.jsonl");
    assert_eq!(folder.as_deref(), Some("/s/2026/04/12"));
    let (name, folder) = codex_threads::parser::thread_location("/");
    assert_eq!(name, "");
    assert_eq!(folder, None);
}
