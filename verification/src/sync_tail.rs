use vstd::prelude::*;

use vstd::utf8::{decode_utf8, valid_utf8};

use crate::parser::{event_views, message_views, ParsedSessionTail};
use crate::sync_state::ExistingFile;
use crate::sync_types::{opt_string_clone, opt_view};
use crate::text::{normalize_text, normalized, str_eq, trim, trimmed};

verus! {

/// Calls `std::str::from_utf8`; as its documentation says, it succeeds
/// exactly on valid UTF-8 and the text is what the bytes encode.
#[verifier::external_body]
fn utf8_text(bytes: &[u8]) -> (r: Option<String>)
    ensures
        r is Some <==> valid_utf8(bytes@),
        r matches Some(s) ==> s@ == decode_utf8(bytes@),
{
    match std::str::from_utf8(bytes) {
        Ok(s) => Some(s.to_owned()),
        Err(_) => None,
    }
}

/// A record of a session file that is not UTF-8.
#[derive(Debug, Clone, Copy, PartialEq, Eq, Structural)]
pub enum TailError {
    InvalidUtf8,
}

/// A record line as stored: decoded and trimmed; an error when it is not
/// UTF-8.
pub open spec fn tail_text(bytes: Seq<u8>) -> Option<Seq<char>> {
    if valid_utf8(bytes) {
        Some(trimmed(decode_utf8(bytes)))
    } else {
        None
    }
}

/// A record line as stored.
pub fn decode_tail_record(bytes: &[u8]) -> (r: Result<String, TailError>)
    ensures
        match tail_text(bytes@) {
            Some(t) => r matches Ok(s) && s@ == t,
            None => r == Err::<String, TailError>(TailError::InvalidUtf8),
        },
{
    match utf8_text(bytes) {
        Some(s) => Ok(trim(s.as_str())),
        None => Err(TailError::InvalidUtf8),
    }
}

/// The searchable text after records were appended: as it was when the new
/// text is blank, else both joined and whitespace-normalized.
pub open spec fn merged_aggregate(existing: Seq<char>, delta: Seq<char>) -> Seq<char> {
    if trimmed(delta).len() == 0 {
        existing
    } else {
        normalized(existing + "\n"@ + delta)
    }
}

/// The searchable text after records were appended.
pub fn merge_aggregate_text(existing: &str, delta: &str) -> (r: String)
    ensures
        r@ == merged_aggregate(existing@, delta@),
{
    let t = trim(delta);
    if t.as_str().is_empty() {
        return existing.to_owned();
    }
    let mut joined = existing.to_owned();
    joined.append("\n");
    joined.append(delta);
    normalize_whitespace(joined.as_str())
}

/// `text` with its words joined by single spaces.
pub fn normalize_whitespace(text: &str) -> (r: String)
    ensures
        r@ == normalized(text@),
{
    normalize_text(text)
}

/// What reading backwards from an offset found of the last record.
#[derive(Debug, Clone)]
pub enum TailScan {
    /// The last non-blank record before the offset.
    Found(String),
    /// There is none.
    Nothing,
    /// The bytes read so far hold no complete record; read further back.
    NeedMore,
}

/// The last position of a new line in the first `n` bytes.
pub open spec fn last_newline(bytes: Seq<u8>, n: int) -> Option<int>
    decreases n,
{
    if n <= 0 {
        None
    } else if bytes[n - 1] == 10u8 {
        Some(n - 1)
    } else {
        last_newline(bytes, n - 1)
    }
}

/// What the bytes before an offset (`buffer`, from byte `start` of the file
/// on) tell of the last record: a trailing new line is ignored; the text
/// after the last new line, when not blank, is the record; with the start of
/// the file in the buffer, the whole text (when not blank) or nothing;
/// otherwise more must be read. `None` when a line to decode is not UTF-8.
pub open spec fn tail_scan_of(buffer: Seq<u8>, at_start: bool) -> Option<Option<Option<Seq<char>>>> {
    let search = if buffer.len() > 0 && buffer.last() == 10u8 {
        buffer.drop_last()
    } else {
        buffer
    };
    let after = match last_newline(search, search.len() as int) {
        Some(p) => match tail_text(search.skip(p + 1)) {
            None => None,
            Some(t) => Some(if t.len() > 0 {
                Some(t)
            } else {
                None
            }),
        },
        None => Some(None),
    };
    match after {
        None => None,
        Some(Some(t)) => Some(Some(Some(t))),
        Some(None) => if at_start {
            match tail_text(search) {
                None => None,
                Some(t) => Some(Some(if t.len() > 0 {
                    Some(t)
                } else {
                    None
                })),
            }
        } else {
            Some(None)
        },
    }
}

fn find_last_newline(bytes: &[u8], n: usize) -> (r: Option<usize>)
    requires
        n <= bytes.len(),
    ensures
        match last_newline(bytes@, n as int) {
            Some(p) => r == Some(p as usize) && p < n,
            None => r is None,
        },
{
    let mut k: usize = n;
    while k > 0
        invariant
            k <= n <= bytes.len(),
            last_newline(bytes@, n as int) == last_newline(bytes@, k as int),
        decreases k,
    {
        if bytes[k - 1] == 10u8 {
            return Some(k - 1);
        }
        k -= 1;
    }
    None
}

proof fn lemma_last_newline_below(bytes: Seq<u8>, n: int)
    ensures
        last_newline(bytes, n) matches Some(p) ==> 0 <= p < n,
    decreases n,
{
    if n > 0 {
        lemma_last_newline_below(bytes, n - 1);
    }
}

fn subslice(bytes: &[u8], a: usize, b: usize) -> (r: Vec<u8>)
    requires
        a <= b <= bytes.len(),
    ensures
        r@ == bytes@.subrange(a as int, b as int),
{
    let mut out: Vec<u8> = Vec::new();
    let mut i: usize = a;
    while i < b
        invariant
            a <= i <= b <= bytes.len(),
            out@ == bytes@.subrange(a as int, i as int),
        decreases b - i,
    {
        out.push(bytes[i]);
        i += 1;
    }
    out
}

/// What the bytes before an offset tell of the last record (see
/// `tail_scan_of`).
pub fn scan_tail_buffer(buffer: &[u8], at_start: bool) -> (r: Result<TailScan, TailError>)
    ensures
        match tail_scan_of(buffer@, at_start) {
            None => r == Err::<TailScan, TailError>(TailError::InvalidUtf8),
            Some(Some(Some(t))) => r matches Ok(TailScan::Found(s)) && s@ == t,
            Some(Some(None)) => r matches Ok(TailScan::Nothing),
            Some(None) => r matches Ok(TailScan::NeedMore),
        },
{
    let end: usize = if buffer.len() > 0 && buffer[buffer.len() - 1] == 10u8 {
        buffer.len() - 1
    } else {
        buffer.len()
    };
    let search = subslice(buffer, 0, end);
    let ghost sv = if buffer@.len() > 0 && buffer@.last() == 10u8 {
        buffer@.drop_last()
    } else {
        buffer@
    };
    assert(search@ =~= sv);
    proof {
        lemma_last_newline_below(search@, end as int);
    }
    if let Some(p) = find_last_newline(search.as_slice(), end) {
        let line = subslice(search.as_slice(), p + 1, end);
        assert(line@ =~= search@.skip(p + 1));
        let text = decode_tail_record(line.as_slice())?;
        if !text.as_str().is_empty() {
            return Ok(TailScan::Found(text));
        }
    }
    if at_start {
        let text = decode_tail_record(search.as_slice())?;
        if text.as_str().is_empty() {
            return Ok(TailScan::Nothing);
        }
        return Ok(TailScan::Found(text));
    }
    Ok(TailScan::NeedMore)
}

/// How far back the next read of a backwards scan starts, and how many bytes
/// it reads: up to 4096 bytes before `end`.
pub fn tail_chunk(end: u64) -> (r: (u64, usize))
    ensures
        r.1 == (if end < 4096 {
            end
        } else {
            4096
        }),
        r.0 == end - r.1,
{
    let size: u64 = if end < 4096 {
        end
    } else {
        4096
    };
    (end - size, size as usize)
}

/// The thread of a session as the index holds it.
#[derive(Debug, Clone)]
pub struct ThreadState {
    pub row_id: i64,
    pub session_id: String,
    pub title: String,
    pub cwd: Option<String>,
    pub ended_at: Option<String>,
    pub message_count: usize,
    pub event_count: usize,
    pub aggregate_text: String,
}

/// What the fast path needs of a file the index had: its session, its last
/// record and its old size. It applies when all three are known and the
/// file grew.
pub open spec fn append_basis(existing: Option<ExistingFile>, size: i64) -> Option<(Seq<char>, Seq<char>, i64)> {
    match existing {
        Some(e) => match (e.session_id, e.tail_record) {
            (Some(sid), Some(tail)) => if size > e.size {
                Some((sid@, tail@, e.size))
            } else {
                None
            },
            _ => None,
        },
        None => None,
    }
}

/// The session, last record and old size the fast path compares against,
/// when it applies.
pub fn append_candidate(existing: Option<&ExistingFile>, size: i64) -> (r: Option<(String, String, i64)>)
    ensures
        match append_basis(
            match existing {
                Some(e) => Some(*e),
                None => None,
            },
            size,
        ) {
            Some(b) => r matches Some(x) && x.0@ == b.0 && x.1@ == b.1 && x.2 == b.2,
            None => r is None,
        },
{
    let e = match existing {
        Some(e) => e,
        None => return None,
    };
    match (&e.session_id, &e.tail_record) {
        (Some(sid), Some(tail)) => {
            if size > e.size {
                Some((sid.clone(), tail.clone(), e.size))
            } else {
                None
            }
        },
        _ => None,
    }
}

/// Appended records fit a thread when they name no other session and no
/// other working directory.
pub open spec fn tail_fits(
    tail_session: Option<Seq<char>>,
    tail_cwd: Option<Seq<char>>,
    thread_session: Seq<char>,
    thread_cwd: Option<Seq<char>>,
) -> bool {
    &&& tail_session matches Some(s) ==> s == thread_session
    &&& tail_cwd matches Some(c) ==> thread_cwd == Some(c)
}

/// Whether the appended records fit the thread.
pub fn tail_fits_thread(tail: &ParsedSessionTail, thread: &ThreadState) -> (r: bool)
    ensures
        r == tail_fits(opt_view(tail.session_id), opt_view(tail.cwd), thread.session_id@, opt_view(thread.cwd)),
{
    if let Some(s) = &tail.session_id {
        if !str_eq(s.as_str(), thread.session_id.as_str()) {
            return false;
        }
    }
    if let Some(c) = &tail.cwd {
        match &thread.cwd {
            Some(tc) => {
                if !str_eq(c.as_str(), tc.as_str()) {
                    return false;
                }
            },
            None => {
                return false;
            },
        }
    }
    true
}

/// The thread after records were appended, as the index stores it.
#[derive(Debug, Clone)]
pub struct AppendedThread {
    pub next_message_idx: usize,
    pub next_event_idx: usize,
    pub message_count: usize,
    pub event_count: usize,
    pub ended_at: Option<String>,
    pub aggregate_text: String,
    pub tail_record: Option<String>,
}

/// The thread after records were appended: new messages and events are
/// numbered after the existing ones and counted with them, the end is the
/// last new timestamp (else the old end), the searchable text is merged and
/// the last record is the new one (else the old one).
pub fn append_thread(thread: &ThreadState, tail: &ParsedSessionTail, stored_tail: &Option<String>) -> (r: AppendedThread)
    requires
        thread.message_count + tail.messages@.len() <= usize::MAX,
        thread.event_count + tail.events@.len() <= usize::MAX,
    ensures
        r.next_message_idx == thread.message_count,
        r.next_event_idx == thread.event_count,
        r.message_count == thread.message_count + message_views(tail.messages@).len(),
        r.event_count == thread.event_count + event_views(tail.events@).len(),
        opt_view(r.ended_at) == (match tail.ended_at {
            Some(e) => Some(e@),
            None => opt_view(thread.ended_at),
        }),
        r.aggregate_text@ == merged_aggregate(thread.aggregate_text@, tail.aggregate_text@),
        opt_view(r.tail_record) == (match tail.tail_record {
            Some(t) => Some(t@),
            None => opt_view(*stored_tail),
        }),
{
    AppendedThread {
        next_message_idx: thread.message_count,
        next_event_idx: thread.event_count,
        message_count: thread.message_count + tail.messages.len(),
        event_count: thread.event_count + tail.events.len(),
        ended_at: match &tail.ended_at {
            Some(e) => Some(e.clone()),
            None => opt_string_clone(&thread.ended_at),
        },
        aggregate_text: merge_aggregate_text(thread.aggregate_text.as_str(), tail.aggregate_text.as_str()),
        tail_record: match &tail.tail_record {
            Some(t) => Some(t.clone()),
            None => opt_string_clone(stored_tail),
        },
    }
}

/// Whether a rebuilt file was indexed before (a fallback from the append
/// path or a rewrite).
pub fn rebuilt_as_fallback(existing: Option<&ExistingFile>) -> (r: bool)
    ensures
        r == existing.is_some(),
{
    existing.is_some()
}

/// The session the rebuild of a file replaces, when it names another one.
pub fn session_to_replace(old_session_id: Option<&str>, new_session_id: &str) -> (r: Option<String>)
    ensures
        match old_session_id {
            Some(o) => if o@ != new_session_id@ {
                r matches Some(s) && s@ == o@
            } else {
                r is None
            },
            None => r is None,
        },
{
    match old_session_id {
        Some(o) => if str_eq(o, new_session_id) {
            None
        } else {
            Some(o.to_owned())
        },
        None => None,
    }
}

} // verus!
