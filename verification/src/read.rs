use vstd::prelude::*;

use crate::search_meta::views;
use crate::search_sql::{param_views, ParamView, SqlQuery, SqlValue};
use crate::text::str_eq;

verus! {

/// A thread as stored in the index.
#[derive(Debug, Clone)]
pub struct ThreadRecord {
    pub session_id: String,
    pub title: String,
    pub cwd: Option<String>,
    pub path: String,
    pub file_name: String,
    pub folder: Option<String>,
    pub started_at: Option<String>,
    pub ended_at: Option<String>,
    pub message_count: usize,
    pub event_count: usize,
}

/// A message as stored in the index.
#[derive(Debug, Clone)]
pub struct MessageRecord {
    pub session_id: String,
    pub timestamp: Option<String>,
    pub role: String,
    pub text: String,
}

/// An event as stored in the index.
#[derive(Debug, Clone)]
pub struct EventRecord {
    pub session_id: String,
    pub timestamp: Option<String>,
    pub event_type: String,
    pub summary: String,
}

/// A thread and its messages.
#[derive(Debug, Clone)]
pub struct ThreadRead {
    pub thread: ThreadRecord,
    pub messages: Vec<MessageRecord>,
}

/// Why a thread identifier could not be resolved.
#[derive(Debug, Clone)]
pub enum ReadError {
    /// No thread matches.
    NotFound { identifier: String },
    /// Several threads match.
    Ambiguous { identifier: String },
}

impl ReadError {
    /// The text shown for the error.
    pub open spec fn spec_message(&self) -> Seq<char> {
        match self {
            ReadError::NotFound { identifier } => "未找到线程: "@ + identifier@,
            ReadError::Ambiguous { identifier } => "线程标识不唯一，请使用更精确的 session_id: "@ + identifier@,
        }
    }

    /// The text shown for the error.
    pub fn message(&self) -> (r: String)
        ensures
            r@ == self.spec_message(),
    {
        match self {
            ReadError::NotFound { identifier } => {
                let mut s = "未找到线程: ".to_owned();
                s.append(identifier.as_str());
                s
            },
            ReadError::Ambiguous { identifier } => {
                let mut s = "线程标识不唯一，请使用更精确的 session_id: ".to_owned();
                s.append(identifier.as_str());
                s
            },
        }
    }
}

/// The session an identifier resolves to, given the sessions it matched:
/// none is an error, one distinct session is the answer, several are
/// ambiguous.
pub fn resolve_session_id(matches: &Vec<String>, identifier: &str) -> (r: Result<String, ReadError>)
    ensures
        matches@.len() == 0 ==> (r matches Err(ReadError::NotFound { identifier: i }) && i@ == identifier@),
        matches@.len() > 0 && (forall|k: int| 0 <= k < matches@.len() ==> (#[trigger] matches@[k])@ == matches@[0]@)
            ==> (r matches Ok(s) && s@ == matches@[0]@),
        matches@.len() > 0 && !(forall|k: int| 0 <= k < matches@.len() ==> (#[trigger] matches@[k])@ == matches@[0]@)
            ==> (r matches Err(ReadError::Ambiguous { identifier: i }) && i@ == identifier@),
{
    if matches.len() == 0 {
        return Err(ReadError::NotFound { identifier: identifier.to_owned() });
    }
    let mut k: usize = 1;
    while k < matches.len()
        invariant
            1 <= k <= matches.len(),
            forall|j: int| 0 <= j < k ==> (#[trigger] matches@[j])@ == matches@[0]@,
        decreases matches.len() - k,
    {
        if !str_eq(matches[k].as_str(), matches[0].as_str()) {
            return Err(ReadError::Ambiguous { identifier: identifier.to_owned() });
        }
        k += 1;
    }
    Ok(matches[0].clone())
}

/// The query for the sessions an identifier may name: its session id, its
/// file name with or without `.jsonl`, or a part of the file name; ordered by
/// session id, at most five.
pub fn resolve_query(identifier: &str) -> (r: SqlQuery)
    ensures
        r.sql@ == "\n            SELECT session_id\n            FROM threads\n            WHERE session_id = ?1\n                OR file_name = ?1\n                OR replace(file_name, '.jsonl', '') = ?1\n                OR file_name LIKE '%' || ?1 || '%'\n            ORDER BY session_id\n            LIMIT 5\n            "@,
        param_views(r.params@) == seq![ParamView::Text(identifier@)],
{
    let params = vec![SqlValue::Text(identifier.to_owned())];
    assert(param_views(params@) =~= seq![ParamView::Text(identifier@)]);
    SqlQuery {
        sql: "\n            SELECT session_id\n            FROM threads\n            WHERE session_id = ?1\n                OR file_name = ?1\n                OR replace(file_name, '.jsonl', '') = ?1\n                OR file_name LIKE '%' || ?1 || '%'\n            ORDER BY session_id\n            LIMIT 5\n            ".to_owned(),
        params,
    }
}

/// The query for the thread row of a session.
pub fn thread_query(session_id: &str) -> (r: SqlQuery)
    ensures
        r.sql@ == "\n                SELECT session_id, title, cwd, path, file_name, folder, started_at, ended_at,\n                       message_count, event_count\n                FROM threads\n                WHERE session_id = ?1\n                "@,
        param_views(r.params@) == seq![ParamView::Text(session_id@)],
{
    let params = vec![SqlValue::Text(session_id.to_owned())];
    assert(param_views(params@) =~= seq![ParamView::Text(session_id@)]);
    SqlQuery {
        sql: "\n                SELECT session_id, title, cwd, path, file_name, folder, started_at, ended_at,\n                       message_count, event_count\n                FROM threads\n                WHERE session_id = ?1\n                ".to_owned(),
        params,
    }
}

/// The query for a session's messages in order; with a limit, its last
/// `limit` messages, still in order.
pub fn messages_query(session_id: &str, limit: Option<usize>) -> (r: SqlQuery)
    ensures
        match limit {
            Some(n) => {
                &&& r.sql@ == "\n                SELECT session_id, timestamp, role, text\n                FROM (\n                    SELECT session_id, timestamp, role, text, idx\n                    FROM messages\n                    WHERE session_id = ?1\n                    ORDER BY idx DESC\n                    LIMIT ?2\n                )\n                ORDER BY idx ASC\n                "@
                &&& param_views(r.params@) == seq![ParamView::Text(session_id@), ParamView::Integer(n as i64)]
            },
            None => {
                &&& r.sql@ == "\n                SELECT session_id, timestamp, role, text\n                FROM messages\n                WHERE session_id = ?1\n                ORDER BY idx ASC\n                "@
                &&& param_views(r.params@) == seq![ParamView::Text(session_id@)]
            },
        },
{
    match limit {
        Some(n) => {
            let params = vec![SqlValue::Text(session_id.to_owned()), SqlValue::Integer(n as i64)];
            assert(param_views(params@) =~= seq![ParamView::Text(session_id@), ParamView::Integer(n as i64)]);
            SqlQuery {
                sql: "\n                SELECT session_id, timestamp, role, text\n                FROM (\n                    SELECT session_id, timestamp, role, text, idx\n                    FROM messages\n                    WHERE session_id = ?1\n                    ORDER BY idx DESC\n                    LIMIT ?2\n                )\n                ORDER BY idx ASC\n                ".to_owned(),
                params,
            }
        },
        None => {
            let params = vec![SqlValue::Text(session_id.to_owned())];
            assert(param_views(params@) =~= seq![ParamView::Text(session_id@)]);
            SqlQuery {
                sql: "\n                SELECT session_id, timestamp, role, text\n                FROM messages\n                WHERE session_id = ?1\n                ORDER BY idx ASC\n                ".to_owned(),
                params,
            }
        },
    }
}

/// The query for a session's events in order; with a limit, its last
/// `limit` events, still in order.
pub fn events_query(session_id: &str, limit: Option<usize>) -> (r: SqlQuery)
    ensures
        match limit {
            Some(n) => {
                &&& r.sql@ == "\n                SELECT session_id, timestamp, event_type, summary\n                FROM (\n                    SELECT session_id, timestamp, event_type, summary, idx\n                    FROM events\n                    WHERE session_id = ?1\n                    ORDER BY idx DESC\n                    LIMIT ?2\n                )\n                ORDER BY idx ASC\n                "@
                &&& param_views(r.params@) == seq![ParamView::Text(session_id@), ParamView::Integer(n as i64)]
            },
            None => {
                &&& r.sql@ == "\n                SELECT session_id, timestamp, event_type, summary\n                FROM events\n                WHERE session_id = ?1\n                ORDER BY idx ASC\n                "@
                &&& param_views(r.params@) == seq![ParamView::Text(session_id@)]
            },
        },
{
    match limit {
        Some(n) => {
            let params = vec![SqlValue::Text(session_id.to_owned()), SqlValue::Integer(n as i64)];
            assert(param_views(params@) =~= seq![ParamView::Text(session_id@), ParamView::Integer(n as i64)]);
            SqlQuery {
                sql: "\n                SELECT session_id, timestamp, event_type, summary\n                FROM (\n                    SELECT session_id, timestamp, event_type, summary, idx\n                    FROM events\n                    WHERE session_id = ?1\n                    ORDER BY idx DESC\n                    LIMIT ?2\n                )\n                ORDER BY idx ASC\n                ".to_owned(),
                params,
            }
        },
        None => {
            let params = vec![SqlValue::Text(session_id.to_owned())];
            assert(param_views(params@) =~= seq![ParamView::Text(session_id@)]);
            SqlQuery {
                sql: "\n                SELECT session_id, timestamp, event_type, summary\n                FROM events\n                WHERE session_id = ?1\n                ORDER BY idx ASC\n                ".to_owned(),
                params,
            }
        },
    }
}

} // verus!
