use vstd::prelude::*;

use crate::fragments::{
    event_summary, extract_message_text, message_text, or_default, response_summary,
    summarize_event_payload, summarize_response_item, summarize_turn_context,
    turn_context_summary,
};
use crate::json::{
    compact_json, compact_json_of, get, get_str, json_get, json_get_str, parse_json_line,
    spec_parse_json, JsonValue,
};
use crate::search_meta::{join_strings, views};
use crate::sync_types::{opt_string_clone, opt_view};
use crate::text::{join, normalize_text, normalized, trim, trim_for_storage, trimmed, truncated};

verus! {

/// A message of a session.
#[derive(Debug, Clone)]
pub struct ParsedMessage {
    pub timestamp: String,
    pub role: String,
    pub text: String,
    pub raw_json: String,
}

/// A non-message record of a session.
#[derive(Debug, Clone)]
pub struct ParsedEvent {
    pub timestamp: String,
    pub event_type: String,
    pub summary: String,
    pub raw_json: String,
}

/// A message as text: timestamp, role, text, raw JSON.
pub open spec fn message_view(m: ParsedMessage) -> (Seq<char>, Seq<char>, Seq<char>, Seq<char>) {
    (m.timestamp@, m.role@, m.text@, m.raw_json@)
}

/// An event as text: timestamp, type, summary, raw JSON.
pub open spec fn event_view(e: ParsedEvent) -> (Seq<char>, Seq<char>, Seq<char>, Seq<char>) {
    (e.timestamp@, e.event_type@, e.summary@, e.raw_json@)
}

/// The views of messages.
pub open spec fn message_views(ms: Seq<ParsedMessage>) -> Seq<(Seq<char>, Seq<char>, Seq<char>, Seq<char>)> {
    ms.map_values(|m: ParsedMessage| message_view(m))
}

/// The views of events.
pub open spec fn event_views(es: Seq<ParsedEvent>) -> Seq<(Seq<char>, Seq<char>, Seq<char>, Seq<char>)> {
    es.map_values(|e: ParsedEvent| event_view(e))
}

/// What reading the records of a session has gathered so far.
pub struct ScanView {
    pub session_id: Option<Seq<char>>,
    pub cwd: Option<Seq<char>>,
    pub first_user: Option<Seq<char>>,
    pub started: Option<Seq<char>>,
    pub ended: Option<Seq<char>>,
    pub messages: Seq<(Seq<char>, Seq<char>, Seq<char>, Seq<char>)>,
    pub events: Seq<(Seq<char>, Seq<char>, Seq<char>, Seq<char>)>,
    pub tail: Option<Seq<char>>,
}

/// Nothing read yet.
pub open spec fn empty_scan() -> ScanView {
    ScanView {
        session_id: None,
        cwd: None,
        first_user: None,
        started: None,
        ended: None,
        messages: seq![],
        events: seq![],
        tail: None,
    }
}

/// A summary as stored with an event: normalized and cut to 1000 characters.
pub open spec fn stored_summary(s: Seq<char>) -> Seq<char> {
    truncated(normalized(s), 1000)
}

/// The scan after the times of a record with timestamp `ts`: a non-empty
/// timestamp starts the session if nothing did, and ends it.
pub open spec fn with_time(st: ScanView, ts: Seq<char>) -> ScanView {
    if ts.len() > 0 {
        ScanView {
            session_id: st.session_id,
            cwd: st.cwd,
            first_user: st.first_user,
            started: if st.started is None {
                Some(ts)
            } else {
                st.started
            },
            ended: Some(ts),
            messages: st.messages,
            events: st.events,
            tail: st.tail,
        }
    } else {
        st
    }
}

/// The scan with one more event.
pub open spec fn with_event(st: ScanView, ts: Seq<char>, kind: Seq<char>, summary: Seq<char>) -> ScanView {
    ScanView {
        session_id: st.session_id,
        cwd: st.cwd,
        first_user: st.first_user,
        started: st.started,
        ended: st.ended,
        messages: st.messages,
        events: st.events.push((ts, kind, stored_summary(summary), seq![])),
        tail: st.tail,
    }
}

/// The payload of a record (`null` when it has none).
pub open spec fn payload_of(value: JsonValue) -> JsonValue {
    match get(value, "payload"@) {
        Some(p) => p,
        None => JsonValue::Null,
    }
}

/// The scan after a `response_item` record.
pub open spec fn response_step(st: ScanView, ts: Seq<char>, payload: JsonValue) -> ScanView {
    let ptype = or_default(get_str(payload, "type"@), seq![]);
    if ptype == "message"@ {
        let role = or_default(get_str(payload, "role"@), "unknown"@);
        let text = message_text(payload);
        if text.len() > 0 {
            ScanView {
                session_id: st.session_id,
                cwd: st.cwd,
                first_user: if role == "user"@ && st.first_user is None {
                    Some(text)
                } else {
                    st.first_user
                },
                started: st.started,
                ended: st.ended,
                messages: st.messages.push((ts, role, text, seq![])),
                events: st.events,
                tail: st.tail,
            }
        } else {
            st
        }
    } else {
        let kind = if ptype.len() == 0 {
            "response_item"@
        } else {
            ptype
        };
        with_event(st, ts, kind, response_summary(payload))
    }
}

/// The scan after one record. A `session_meta` sets the session id and the
/// working directory from its payload; a `response_item` message with text
/// adds a message (the first from `user` is remembered); other records add
/// an event with a summary of their payload.
pub open spec fn record_step(st: ScanView, value: JsonValue) -> ScanView {
    let ts = or_default(get_str(value, "timestamp"@), seq![]);
    let st = with_time(st, ts);
    let rtype = or_default(get_str(value, "type"@), seq![]);
    let payload = payload_of(value);
    if rtype == "session_meta"@ {
        ScanView {
            session_id: get_str(payload, "id"@),
            cwd: get_str(payload, "cwd"@),
            first_user: st.first_user,
            started: st.started,
            ended: st.ended,
            messages: st.messages,
            events: st.events,
            tail: st.tail,
        }
    } else if rtype == "response_item"@ {
        response_step(st, ts, payload)
    } else if rtype == "event_msg"@ {
        with_event(
            st,
            ts,
            or_default(get_str(payload, "type"@), "event_msg"@),
            event_summary(payload),
        )
    } else if rtype == "turn_context"@ {
        with_event(st, ts, "turn_context"@, turn_context_summary(payload))
    } else {
        with_event(st, ts, rtype, compact_json_of(payload))
    }
}

proof fn lemma_record_step_parts(st: ScanView, value: JsonValue)
    ensures
        ({
            let ts = or_default(get_str(value, "timestamp"@), seq![]);
            let rtype = or_default(get_str(value, "type"@), seq![]);
            let payload = payload_of(value);
            let s1 = with_time(st, ts);
            record_step(st, value) == if rtype == "session_meta"@ {
                ScanView {
                    session_id: get_str(payload, "id"@),
                    cwd: get_str(payload, "cwd"@),
                    first_user: s1.first_user,
                    started: s1.started,
                    ended: s1.ended,
                    messages: s1.messages,
                    events: s1.events,
                    tail: s1.tail,
                }
            } else if rtype == "response_item"@ {
                response_step(s1, ts, payload)
            } else if rtype == "event_msg"@ {
                with_event(
                    s1,
                    ts,
                    or_default(get_str(payload, "type"@), "event_msg"@),
                    event_summary(payload),
                )
            } else if rtype == "turn_context"@ {
                with_event(s1, ts, "turn_context"@, turn_context_summary(payload))
            } else {
                with_event(s1, ts, rtype, compact_json_of(payload))
            }
        }),
{
}

/// The scan with its tail record set.
pub open spec fn with_tail(st: ScanView, tail: Seq<char>) -> ScanView {
    ScanView {
        session_id: st.session_id,
        cwd: st.cwd,
        first_user: st.first_user,
        started: st.started,
        ended: st.ended,
        messages: st.messages,
        events: st.events,
        tail: Some(tail),
    }
}

/// The scan of the first `n` lines: blank lines are passed over; a line
/// that is not JSON stops the scan with its position; every other line is a
/// record and the last such line, trimmed, is the tail record.
pub open spec fn scan_upto(lines: Seq<Seq<char>>, n: nat) -> Result<ScanView, nat>
    decreases n,
{
    if n == 0 {
        Ok(empty_scan())
    } else {
        match scan_upto(lines, (n - 1) as nat) {
            Err(e) => Err(e),
            Ok(st) => {
                let line = lines[n - 1];
                if trimmed(line).len() == 0 {
                    Ok(st)
                } else {
                    match spec_parse_json(line) {
                        None => Err((n - 1) as nat),
                        Some(v) => Ok(with_tail(record_step(st, v), trimmed(line))),
                    }
                }
            },
        }
    }
}

/// The text of the earliest message whose role is `user`, if there is one.
pub open spec fn first_user_text(ms: Seq<(Seq<char>, Seq<char>, Seq<char>, Seq<char>)>) -> Option<Seq<char>>
    decreases ms.len(),
{
    if ms.len() == 0 {
        None
    } else {
        match first_user_text(ms.drop_last()) {
            Some(t) => Some(t),
            None => if ms.last().1 == "user"@ {
                Some(ms.last().2)
            } else {
                None
            },
        }
    }
}

/// Messages appended after a user message leave the earliest one unchanged.
pub proof fn lemma_first_user_stays(
    ms: Seq<(Seq<char>, Seq<char>, Seq<char>, Seq<char>)>,
    more: Seq<(Seq<char>, Seq<char>, Seq<char>, Seq<char>)>,
)
    requires
        first_user_text(ms) is Some,
    ensures
        first_user_text(ms + more) == first_user_text(ms),
    decreases more.len(),
{
    if more.len() == 0 {
        assert(ms + more =~= ms);
    } else {
        lemma_first_user_stays(ms, more.drop_last());
        assert((ms + more).drop_last() =~= ms + more.drop_last());
    }
}

/// One record keeps the remembered user message that of the earliest user
/// message.
proof fn lemma_record_step_first_user(st: ScanView, value: JsonValue)
    requires
        st.first_user == first_user_text(st.messages),
    ensures
        record_step(st, value).first_user == first_user_text(record_step(st, value).messages),
{
    lemma_record_step_parts(st, value);
    let ts = or_default(get_str(value, "timestamp"@), seq![]);
    let s1 = with_time(st, ts);
    let payload = payload_of(value);
    let ptype = or_default(get_str(payload, "type"@), seq![]);
    if ptype == "message"@ {
        let role = or_default(get_str(payload, "role"@), "unknown"@);
        let text = message_text(payload);
        let m = (ts, role, text, seq![]);
        assert(s1.messages.push(m).drop_last() =~= s1.messages);
        assert(s1.messages.push(m).last() == m);
    }
}

/// The user message a scan remembers is the text of the earliest message
/// whose role is `user`: later records never replace it.
pub proof fn lemma_scan_first_user_is_earliest(lines: Seq<Seq<char>>, n: nat)
    ensures
        scan_upto(lines, n) matches Ok(st) ==> st.first_user == first_user_text(st.messages),
    decreases n,
{
    if n > 0 {
        lemma_scan_first_user_is_earliest(lines, (n - 1) as nat);
        if let Ok(st) = scan_upto(lines, (n - 1) as nat) {
            let line = lines[n - 1];
            if trimmed(line).len() != 0 {
                if let Some(v) = spec_parse_json(line) {
                    lemma_record_step_first_user(st, v);
                }
            }
        }
    }
}

/// The non-empty timestamps of the records among the first `n` lines, in
/// order.
pub open spec fn record_stamps(lines: Seq<Seq<char>>, n: nat) -> Seq<Seq<char>>
    decreases n,
{
    if n == 0 {
        seq![]
    } else {
        let prev = record_stamps(lines, (n - 1) as nat);
        let line = lines[n - 1];
        if trimmed(line).len() == 0 {
            prev
        } else {
            match spec_parse_json(line) {
                Some(v) => {
                    let ts = or_default(get_str(v, "timestamp"@), seq![]);
                    if ts.len() > 0 {
                        prev.push(ts)
                    } else {
                        prev
                    }
                },
                None => prev,
            }
        }
    }
}

/// A session starts at the first record timestamp and ends at the last one.
pub proof fn lemma_scan_times(lines: Seq<Seq<char>>, n: nat)
    ensures
        scan_upto(lines, n) matches Ok(st) ==> {
            let stamps = record_stamps(lines, n);
            &&& st.started == (if stamps.len() > 0 {
                Some(stamps[0])
            } else {
                None::<Seq<char>>
            })
            &&& st.ended == (if stamps.len() > 0 {
                Some(stamps.last())
            } else {
                None::<Seq<char>>
            })
        },
    decreases n,
{
    if n > 0 {
        lemma_scan_times(lines, (n - 1) as nat);
        if let Ok(st) = scan_upto(lines, (n - 1) as nat) {
            let line = lines[n - 1];
            if trimmed(line).len() != 0 {
                if let Some(v) = spec_parse_json(line) {
                    lemma_record_step_parts(st, v);
                    let prev = record_stamps(lines, (n - 1) as nat);
                    let ts = or_default(get_str(v, "timestamp"@), seq![]);
                    if ts.len() > 0 && prev.len() > 0 {
                        assert(prev.push(ts)[0] == prev[0]);
                    }
                }
            }
        }
    }
}

/// The records of a session read so far.
pub struct SessionScan {
    pub session_id: Option<String>,
    pub cwd: Option<String>,
    pub first_user_message: Option<String>,
    pub started_at: Option<String>,
    pub ended_at: Option<String>,
    pub messages: Vec<ParsedMessage>,
    pub events: Vec<ParsedEvent>,
    pub tail_record: Option<String>,
}

impl SessionScan {
    /// What the scan holds.
    pub open spec fn view(&self) -> ScanView {
        ScanView {
            session_id: opt_view(self.session_id),
            cwd: opt_view(self.cwd),
            first_user: opt_view(self.first_user_message),
            started: opt_view(self.started_at),
            ended: opt_view(self.ended_at),
            messages: message_views(self.messages@),
            events: event_views(self.events@),
            tail: opt_view(self.tail_record),
        }
    }

    /// Nothing read yet.
    pub fn new() -> (r: SessionScan)
        ensures
            r.view() == empty_scan(),
    {
        let r = SessionScan {
            session_id: None,
            cwd: None,
            first_user_message: None,
            started_at: None,
            ended_at: None,
            messages: Vec::new(),
            events: Vec::new(),
            tail_record: None,
        };
        assert(message_views(r.messages@) =~= seq![]);
        assert(event_views(r.events@) =~= seq![]);
        r
    }

    /// Records the timestamp of a record.
    fn note_time(&mut self, ts: &String)
        ensures
            final(self).view() == with_time(old(self).view(), ts@),
    {
        if !ts.as_str().is_empty() {
            if self.started_at.is_none() {
                self.started_at = Some(ts.clone());
            }
            self.ended_at = Some(ts.clone());
        }
    }

    /// Adds an event.
    fn push_event(&mut self, ts: &String, kind: String, summary: &str)
        ensures
            final(self).view() == with_event(old(self).view(), ts@, kind@, summary@),
    {
        let ghost before = event_views(self.events@);
        let e = ParsedEvent {
            timestamp: ts.clone(),
            event_type: kind,
            summary: trim_for_storage(summary, 1000),
            raw_json: String::new(),
        };
        self.events.push(e);
        assert(event_views(self.events@) =~= before.push(event_view(e)));
    }

    /// Reads a `response_item` record.
    fn apply_response_item(&mut self, ts: &String, payload: &JsonValue)
        ensures
            final(self).view() == response_step(old(self).view(), ts@, *payload),
    {
        let ptype = match json_get_str(payload, "type") {
            Some(t) => t,
            None => "",
        };
        proof {
            reveal_strlit("");
        }
        let ghost st = self.view();
        assert(ptype@ == or_default(get_str(*payload, "type"@), seq![]));
        if crate::text::str_eq(ptype, "message") {
            let role = match json_get_str(payload, "role") {
                Some(r) => r.to_owned(),
                None => "unknown".to_owned(),
            };
            let text = extract_message_text(payload);
            assert(role@ == or_default(get_str(*payload, "role"@), "unknown"@));
            if !text.as_str().is_empty() {
                let is_user = crate::text::str_eq(role.as_str(), "user");
                assert(is_user == (role@ == "user"@));
                if is_user && self.first_user_message.is_none() {
                    self.first_user_message = Some(text.clone());
                    assert(self.view().first_user == Some(message_text(*payload)));
                } else {
                    assert(self.view().first_user == st.first_user);
                }
                let ghost before = message_views(self.messages@);
                let m = ParsedMessage {
                    timestamp: ts.clone(),
                    role,
                    text,
                    raw_json: String::new(),
                };
                self.messages.push(m);
                assert(message_views(self.messages@) =~= before.push(message_view(m)));
                assert(self.view() == response_step(st, ts@, *payload));
            } else {
                assert(message_text(*payload).len() == 0);
                assert(self.view() == st);
                assert(self.view() == response_step(st, ts@, *payload));
            }
        } else {
            let kind = if ptype.is_empty() {
                "response_item".to_owned()
            } else {
                ptype.to_owned()
            };
            let summary = summarize_response_item(payload);
            self.push_event(ts, kind, summary.as_str());
            assert(self.view() == response_step(st, ts@, *payload));
        }
    }

    /// Reads one record.
    pub fn apply_record(&mut self, value: &JsonValue)
        ensures
            final(self).view() == record_step(old(self).view(), *value),
    {
        let ts = match json_get_str(value, "timestamp") {
            Some(t) => t.to_owned(),
            None => String::new(),
        };
        assert(ts@ == or_default(get_str(*value, "timestamp"@), seq![]));
        self.note_time(&ts);
        let ghost st = self.view();
        let rtype = match json_get_str(value, "type") {
            Some(t) => t,
            None => "",
        };
        proof {
            reveal_strlit("");
        }
        assert(rtype@ == or_default(get_str(*value, "type"@), seq![]));
        let null = JsonValue::Null;
        let payload: &JsonValue = match json_get(value, "payload") {
            Some(p) => p,
            None => &null,
        };
        assert(*payload == payload_of(*value));
        proof {
            lemma_record_step_parts(old(self).view(), *value);
        }
        if crate::text::str_eq(rtype, "session_meta") {
            self.session_id = match json_get_str(payload, "id") {
                Some(s) => Some(s.to_owned()),
                None => None,
            };
            self.cwd = match json_get_str(payload, "cwd") {
                Some(s) => Some(s.to_owned()),
                None => None,
            };
        } else if crate::text::str_eq(rtype, "response_item") {
            self.apply_response_item(&ts, payload);
        } else if crate::text::str_eq(rtype, "event_msg") {
            let kind = match json_get_str(payload, "type") {
                Some(t) => t.to_owned(),
                None => "event_msg".to_owned(),
            };
            let summary = summarize_event_payload(payload);
            self.push_event(&ts, kind, summary.as_str());
        } else if crate::text::str_eq(rtype, "turn_context") {
            let summary = summarize_turn_context(payload);
            self.push_event(&ts, "turn_context".to_owned(), summary.as_str());
        } else {
            let summary = compact_json(payload);
            self.push_event(&ts, rtype.to_owned(), summary.as_str());
        }
    }
}

/// Reads the lines of a session file; `Err` gives the position of the first
/// non-blank line that is not JSON.
pub fn scan_session_lines(lines: &Vec<String>) -> (r: Result<SessionScan, usize>)
    ensures
        match scan_upto(views(lines@), lines.len() as nat) {
            Ok(v) => r matches Ok(s) && s.view() == v,
            Err(i) => r matches Err(j) && j as nat == i,
        },
{
    let mut scan = SessionScan::new();
    let mut i: usize = 0;
    while i < lines.len()
        invariant
            i <= lines.len(),
            scan_upto(views(lines@), i as nat) == Ok::<ScanView, nat>(scan.view()),
        decreases lines.len() - i,
    {
        let line = lines[i].as_str();
        assert(views(lines@)[i as int] == line@);
        let t = trim(line);
        if !t.as_str().is_empty() {
            match parse_json_line(line) {
                None => {
                    proof {
                        lemma_scan_error_stays(views(lines@), (i + 1) as nat, lines.len() as nat);
                        lemma_scan_error_below(views(lines@), (i + 1) as nat);
                    }
                    return Err(i);
                },
                Some(v) => {
                    scan.apply_record(&v);
                    scan.tail_record = Some(t);
                },
            }
        }
        i += 1;
    }
    Ok(scan)
}

proof fn lemma_scan_error_below(lines: Seq<Seq<char>>, n: nat)
    ensures
        scan_upto(lines, n) matches Err(i) ==> i < n,
    decreases n,
{
    if n > 0 {
        lemma_scan_error_below(lines, (n - 1) as nat);
    }
}

proof fn lemma_scan_error_stays(lines: Seq<Seq<char>>, n: nat, m: nat)
    requires
        n <= m,
        scan_upto(lines, n) is Err,
    ensures
        scan_upto(lines, m) == scan_upto(lines, n),
    decreases m,
{
    if m > n {
        lemma_scan_error_stays(lines, n, (m - 1) as nat);
    }
}

/// The last component of a path (`Path::file_name`), when it is text.
pub uninterp spec fn spec_file_name(path: Seq<char>) -> Option<Seq<char>>;

/// The file name of a path without its extension (`Path::file_stem`), when
/// it is text.
pub uninterp spec fn spec_file_stem(path: Seq<char>) -> Option<Seq<char>>;

/// Calls `Path::file_name` and `OsStr::to_str`; the result is named by the
/// path.
#[verifier::external_body]
pub(crate) fn path_file_name(path: &str) -> (r: Option<String>)
    ensures
        opt_view(r) == spec_file_name(path@),
{
    std::path::Path::new(path).file_name().and_then(|v| v.to_str()).map(|v| v.to_owned())
}

/// Calls `Path::file_stem` and `OsStr::to_str`; the result is named by the
/// path.
#[verifier::external_body]
fn path_file_stem(path: &str) -> (r: Option<String>)
    ensures
        opt_view(r) == spec_file_stem(path@),
{
    std::path::Path::new(path).file_stem().and_then(|v| v.to_str()).map(|v| v.to_owned())
}

/// The path without its last component (`Path::parent`), if it has one.
pub uninterp spec fn spec_parent(path: Seq<char>) -> Option<Seq<char>>;

/// Calls `Path::parent` and `Path::to_string_lossy` (the text of a path made
/// from text); the result is named by the path.
#[verifier::external_body]
fn path_parent(path: &str) -> (r: Option<String>)
    ensures
        opt_view(r) == spec_parent(path@),
{
    std::path::Path::new(path).parent().map(|v| v.to_string_lossy().into_owned())
}

/// Where a session file sits, as a thread row records it: its file name
/// (empty when it has none) and the folder holding it (when there is one).
pub fn thread_location(path: &str) -> (r: (String, Option<String>))
    ensures
        r.0@ == or_default(spec_file_name(path@), seq![]),
        opt_view(r.1) == spec_parent(path@),
{
    let name = match path_file_name(path) {
        Some(n) => n,
        None => String::new(),
    };
    (name, path_parent(path))
}

/// The last component of a path, when it is text.
pub fn last_path_segment(path: &str) -> (r: Option<String>)
    ensures
        opt_view(r) == spec_file_name(path@),
{
    path_file_name(path)
}

/// The session id of a file without a `session_meta` id: the file stem, or
/// `unknown-session`.
pub open spec fn fallback_id_of(path: Seq<char>) -> Seq<char> {
    or_default(spec_file_stem(path), "unknown-session"@)
}

/// The session id of a file without a `session_meta` id.
pub fn fallback_session_id(path: &str) -> (r: String)
    ensures
        r@ == fallback_id_of(path@),
{
    match path_file_stem(path) {
        Some(s) => s,
        None => "unknown-session".to_owned(),
    }
}

/// A first message as shown in a title: normalized and cut to 72
/// characters.
pub open spec fn shortened(text: Seq<char>) -> Seq<char> {
    truncated(normalized(text), 72)
}

/// A first message as shown in a title.
pub fn shorten(text: &str) -> (r: String)
    ensures
        r@ == shortened(text@),
{
    trim_for_storage(text, 72)
}

/// The title of a session: the last component of its working directory and
/// its first user message, shortened, as `folder: message`; whichever of the
/// two exists; else the session id.
pub open spec fn session_title(
    session_id: Seq<char>,
    cwd: Option<Seq<char>>,
    first_user: Option<Seq<char>>,
) -> Seq<char> {
    let folder = match cwd {
        Some(c) => spec_file_name(c),
        None => None,
    };
    let summary = match first_user {
        Some(t) => Some(shortened(t)),
        None => None,
    };
    match (folder, summary) {
        (Some(f), Some(m)) => f + ": "@ + m,
        (Some(f), None) => f,
        (None, Some(m)) => m,
        (None, None) => session_id,
    }
}

/// The title of a session.
pub fn build_title(session_id: &str, cwd: Option<&str>, first_user_message: Option<&str>) -> (r: String)
    ensures
        r@ == session_title(
            session_id@,
            match cwd {
                Some(c) => Some(c@),
                None => None,
            },
            match first_user_message {
                Some(t) => Some(t@),
                None => None,
            },
        ),
{
    let folder = match cwd {
        Some(c) => last_path_segment(c),
        None => None,
    };
    let summary = match first_user_message {
        Some(t) => Some(shorten(t)),
        None => None,
    };
    match (folder, summary) {
        (Some(f), Some(m)) => {
            let mut s = f;
            s.append(": ");
            s.append(m.as_str());
            s
        },
        (Some(f), None) => f,
        (None, Some(m)) => m,
        (None, None) => session_id.to_owned(),
    }
}

/// The searchable parts of messages: each text normalized and cut to 1200
/// characters.
pub open spec fn message_parts(ms: Seq<(Seq<char>, Seq<char>, Seq<char>, Seq<char>)>) -> Seq<Seq<char>> {
    ms.map_values(|m: (Seq<char>, Seq<char>, Seq<char>, Seq<char>)| truncated(normalized(m.2), 1200))
}

/// The searchable parts of events: each non-empty summary normalized and cut
/// to 600 characters.
pub open spec fn event_parts(es: Seq<(Seq<char>, Seq<char>, Seq<char>, Seq<char>)>) -> Seq<Seq<char>>
    decreases es.len(),
{
    if es.len() == 0 {
        seq![]
    } else {
        let e = es.last();
        event_parts(es.drop_last()) + if e.2.len() > 0 {
            seq![truncated(normalized(e.2), 600)]
        } else {
            seq![]
        }
    }
}

/// The text a session is found by: its title, working directory, messages
/// and event summaries, joined and whitespace-normalized.
pub open spec fn aggregate_of(
    title: Seq<char>,
    cwd: Option<Seq<char>>,
    ms: Seq<(Seq<char>, Seq<char>, Seq<char>, Seq<char>)>,
    es: Seq<(Seq<char>, Seq<char>, Seq<char>, Seq<char>)>,
) -> Seq<char> {
    let head = match cwd {
        Some(c) => seq![title, c],
        None => seq![title],
    };
    normalized(join(head + message_parts(ms) + event_parts(es), "\n"@))
}

/// The searchable text of records appended to a session: their messages and
/// event summaries, joined and whitespace-normalized.
pub open spec fn tail_aggregate_of(
    ms: Seq<(Seq<char>, Seq<char>, Seq<char>, Seq<char>)>,
    es: Seq<(Seq<char>, Seq<char>, Seq<char>, Seq<char>)>,
) -> Seq<char> {
    normalized(join(message_parts(ms) + event_parts(es), "\n"@))
}

/// Appends the searchable parts of messages and events.
fn push_record_parts(parts: &mut Vec<String>, messages: &Vec<ParsedMessage>, events: &Vec<ParsedEvent>)
    ensures
        views(final(parts)@) == views(old(parts)@) + message_parts(message_views(messages@))
            + event_parts(event_views(events@)),
{
    let ghost start = views(parts@);
    let ghost mv = message_views(messages@);
    let mut i: usize = 0;
    while i < messages.len()
        invariant
            i <= messages.len(),
            mv == message_views(messages@),
            views(parts@) == start + message_parts(mv.take(i as int)),
        decreases messages.len() - i,
    {
        let ghost prev = views(parts@);
        let p = trim_for_storage(messages[i].text.as_str(), 1200);
        parts.push(p);
        assert(mv.take(i + 1 as int) =~= mv.take(i as int).push(mv[i as int]));
        assert(message_parts(mv.take(i + 1 as int)) =~= message_parts(mv.take(i as int)).push(p@));
        assert(views(parts@) =~= prev.push(p@));
        i += 1;
    }
    assert(mv.take(messages.len() as int) == mv);
    let ghost mid = views(parts@);
    let ghost ev = event_views(events@);
    let mut j: usize = 0;
    while j < events.len()
        invariant
            j <= events.len(),
            ev == event_views(events@),
            views(parts@) == mid + event_parts(ev.take(j as int)),
        decreases events.len() - j,
    {
        let ghost prev = views(parts@);
        assert(ev.take(j + 1 as int).drop_last() == ev.take(j as int));
        assert(ev.take(j + 1 as int).last() == event_view(events@[j as int]));
        if !events[j].summary.as_str().is_empty() {
            let p = trim_for_storage(events[j].summary.as_str(), 600);
            parts.push(p);
            assert(views(parts@) =~= prev.push(p@));
        }
        assert(views(parts@) =~= mid + event_parts(ev.take(j + 1 as int)));
        j += 1;
    }
    assert(ev.take(events.len() as int) == ev);
    assert(views(parts@) =~= start + message_parts(mv) + event_parts(ev));
}

/// The text a session is found by.
pub fn build_aggregate_text(
    title: &str,
    cwd: Option<&str>,
    messages: &Vec<ParsedMessage>,
    events: &Vec<ParsedEvent>,
) -> (r: String)
    ensures
        r@ == aggregate_of(
            title@,
            match cwd {
                Some(c) => Some(c@),
                None => None,
            },
            message_views(messages@),
            event_views(events@),
        ),
{
    let mut parts: Vec<String> = Vec::new();
    parts.push(title.to_owned());
    if let Some(c) = cwd {
        parts.push(c.to_owned());
    }
    let ghost head = views(parts@);
    assert(head =~= match cwd {
        Some(c) => seq![title@, c@],
        None => seq![title@],
    });
    push_record_parts(&mut parts, messages, events);
    let joined = join_strings(parts.as_slice(), "\n");
    normalize_text(joined.as_str())
}

/// The searchable text of appended records.
pub fn build_tail_aggregate_text(messages: &Vec<ParsedMessage>, events: &Vec<ParsedEvent>) -> (r: String)
    ensures
        r@ == tail_aggregate_of(message_views(messages@), event_views(events@)),
{
    let mut parts: Vec<String> = Vec::new();
    assert(views(parts@) =~= seq![]);
    push_record_parts(&mut parts, messages, events);
    assert(views(parts@) =~= message_parts(message_views(messages@)) + event_parts(
        event_views(events@),
    ));
    let joined = join_strings(parts.as_slice(), "\n");
    normalize_text(joined.as_str())
}

/// Why a session file could not be read.
#[derive(Debug, Clone)]
pub enum SessionParseError {
    /// The non-blank line at this position (from 0) is not JSON.
    InvalidJson { line: usize },
}

/// A session file, read whole.
#[derive(Debug, Clone)]
pub struct ParsedSession {
    pub session_id: String,
    pub cwd: Option<String>,
    pub title: String,
    pub aggregate_text: String,
    pub started_at: Option<String>,
    pub ended_at: Option<String>,
    pub messages: Vec<ParsedMessage>,
    pub events: Vec<ParsedEvent>,
    pub tail_record: Option<String>,
}

/// The session a scan of its file gives: the id it names or the fallback of
/// its path, with its title and searchable text.
pub open spec fn session_matches(p: ParsedSession, scan: ScanView, path: Seq<char>) -> bool {
    let sid = or_default(scan.session_id, fallback_id_of(path));
    let title = session_title(sid, scan.cwd, scan.first_user);
    &&& p.session_id@ == sid
    &&& opt_view(p.cwd) == scan.cwd
    &&& p.title@ == title
    &&& p.aggregate_text@ == aggregate_of(title, scan.cwd, scan.messages, scan.events)
    &&& opt_view(p.started_at) == scan.started
    &&& opt_view(p.ended_at) == scan.ended
    &&& message_views(p.messages@) == scan.messages
    &&& event_views(p.events@) == scan.events
    &&& opt_view(p.tail_record) == scan.tail
}

/// Reads a session file given as its lines and its path.
pub fn parse_session_lines(lines: &Vec<String>, path: &str) -> (r: Result<ParsedSession, SessionParseError>)
    ensures
        match scan_upto(views(lines@), lines.len() as nat) {
            Ok(scan) => r matches Ok(p) && session_matches(p, scan, path@),
            Err(i) => r matches Err(SessionParseError::InvalidJson { line }) && line == i,
        },
        r matches Ok(p) ==> p.title@ == session_title(
            p.session_id@,
            opt_view(p.cwd),
            first_user_text(message_views(p.messages@)),
        ),
        r matches Ok(p) ==> {
            let stamps = record_stamps(views(lines@), lines.len() as nat);
            &&& opt_view(p.started_at) == (if stamps.len() > 0 {
                Some(stamps[0])
            } else {
                None::<Seq<char>>
            })
            &&& opt_view(p.ended_at) == (if stamps.len() > 0 {
                Some(stamps.last())
            } else {
                None::<Seq<char>>
            })
        },
{
    proof {
        lemma_scan_first_user_is_earliest(views(lines@), lines.len() as nat);
        lemma_scan_times(views(lines@), lines.len() as nat);
    }
    let scan = match scan_session_lines(lines) {
        Ok(s) => s,
        Err(i) => return Err(SessionParseError::InvalidJson { line: i }),
    };
    let session_id = match &scan.session_id {
        Some(s) => s.clone(),
        None => fallback_session_id(path),
    };
    let title = match (&scan.cwd, &scan.first_user_message) {
        (Some(c), Some(f)) => build_title(session_id.as_str(), Some(c.as_str()), Some(f.as_str())),
        (Some(c), None) => build_title(session_id.as_str(), Some(c.as_str()), None),
        (None, Some(f)) => build_title(session_id.as_str(), None, Some(f.as_str())),
        (None, None) => build_title(session_id.as_str(), None, None),
    };
    let aggregate_text = match &scan.cwd {
        Some(c) => build_aggregate_text(title.as_str(), Some(c.as_str()), &scan.messages, &scan.events),
        None => build_aggregate_text(title.as_str(), None, &scan.messages, &scan.events),
    };
    Ok(ParsedSession {
        session_id,
        cwd: scan.cwd,
        title,
        aggregate_text,
        started_at: scan.started_at,
        ended_at: scan.ended_at,
        messages: scan.messages,
        events: scan.events,
        tail_record: scan.tail_record,
    })
}

/// Records appended to a session file since the last sync.
#[derive(Debug, Clone)]
pub struct ParsedSessionTail {
    pub session_id: Option<String>,
    pub cwd: Option<String>,
    pub ended_at: Option<String>,
    pub messages: Vec<ParsedMessage>,
    pub events: Vec<ParsedEvent>,
    pub aggregate_text: String,
    pub tail_record: Option<String>,
}

/// Reads the lines appended to a session file: the session id and working
/// directory they name (if any), their last timestamp, messages, events,
/// searchable text and last record.
pub fn parse_session_tail(lines: &Vec<String>) -> (r: Result<ParsedSessionTail, SessionParseError>)
    ensures
        match scan_upto(views(lines@), lines.len() as nat) {
            Ok(scan) => r matches Ok(t) && {
                &&& opt_view(t.session_id) == scan.session_id
                &&& opt_view(t.cwd) == scan.cwd
                &&& opt_view(t.ended_at) == scan.ended
                &&& message_views(t.messages@) == scan.messages
                &&& event_views(t.events@) == scan.events
                &&& t.aggregate_text@ == tail_aggregate_of(scan.messages, scan.events)
                &&& opt_view(t.tail_record) == scan.tail
            },
            Err(i) => r matches Err(SessionParseError::InvalidJson { line }) && line == i,
        },
{
    let scan = match scan_session_lines(lines) {
        Ok(s) => s,
        Err(i) => return Err(SessionParseError::InvalidJson { line: i }),
    };
    let aggregate_text = build_tail_aggregate_text(&scan.messages, &scan.events);
    Ok(ParsedSessionTail {
        session_id: scan.session_id,
        cwd: scan.cwd,
        ended_at: scan.ended_at,
        messages: scan.messages,
        events: scan.events,
        aggregate_text,
        tail_record: scan.tail_record,
    })
}

} // verus!
