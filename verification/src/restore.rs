use vstd::prelude::*;

use crate::json::{member_index, find_member, JsonMember, JsonValue};
use crate::parser::{path_file_name, spec_file_name};
use crate::search_meta::{join_strings, views};
use crate::sync_types::{opt_string_clone, opt_view};
use crate::text::{chars_of, decimal, decimal_string, join, str_eq, string_from_chars};
use crate::time_fmt::{parse_rfc3339, spec_parse_rfc3339};

verus! {

/// A thread row written into the Codex App state.
#[derive(Debug, Clone)]
pub struct RestoredAppThread {
    pub id: String,
    pub rollout_path: String,
    pub title: String,
    pub cwd: String,
    pub created_at: i64,
    pub updated_at: i64,
    pub archived: bool,
}

/// What restoring a thread did or would do.
#[derive(Debug, Clone)]
pub struct RestoreAppThreadReport {
    pub feature: String,
    pub dry_run: bool,
    pub thread_id: String,
    pub thread_action: String,
    pub pin_action: String,
    pub state_db_path: String,
    pub global_state_path: String,
    pub backup_dir: Option<String>,
    pub warnings: Vec<String>,
    pub thread: RestoredAppThread,
}

/// The values a new thread row takes from the most recent existing one.
#[derive(Debug, Clone)]
pub struct InsertDefaults {
    pub source: String,
    pub model_provider: String,
    pub sandbox_policy: String,
    pub approval_mode: String,
}

/// Why a thread could not be restored.
#[derive(Debug, Clone)]
pub enum RestoreError {
    /// The app state has no `threads` table.
    MissingThreadsTable,
    /// The `threads` table lacks these columns.
    MissingColumns { columns: Vec<String> },
    /// Another thread already uses the rollout path.
    RolloutPathTaken { existing: String },
    /// The global state is not a JSON object.
    GlobalStateNotObject,
    /// `pinned-thread-ids` is not an array.
    PinnedNotArray,
}

impl RestoreError {
    /// The text shown for the error.
    pub fn message(&self) -> (r: String)
        ensures
            r@ == self.spec_message(),
    {
        match self {
            RestoreError::MissingThreadsTable => "Codex App 状态库中不存在 threads 表，暂时无法恢复线程视图".to_owned(),
            RestoreError::MissingColumns { columns } => {
                let mut s = "当前 Codex App threads 表缺少必要字段: ".to_owned();
                let j = join_strings(columns.as_slice(), ", ");
                s.append(j.as_str());
                s
            },
            RestoreError::RolloutPathTaken { existing } => {
                let mut s = "state_5.sqlite 中已有其他线程占用了同一个 rollout_path: ".to_owned();
                s.append(existing.as_str());
                s
            },
            RestoreError::GlobalStateNotObject => "Codex 全局状态文件格式无效，顶层不是对象".to_owned(),
            RestoreError::PinnedNotArray => "Codex 全局状态文件里的 pinned-thread-ids 不是数组".to_owned(),
        }
    }

    /// The text shown for the error.
    pub open spec fn spec_message(&self) -> Seq<char> {
        match self {
            RestoreError::MissingThreadsTable => "Codex App 状态库中不存在 threads 表，暂时无法恢复线程视图"@,
            RestoreError::MissingColumns { columns } => "当前 Codex App threads 表缺少必要字段: "@ + join(
                views(columns@),
                ", "@,
            ),
            RestoreError::RolloutPathTaken { existing } => "state_5.sqlite 中已有其他线程占用了同一个 rollout_path: "@
                + existing@,
            RestoreError::GlobalStateNotObject => "Codex 全局状态文件格式无效，顶层不是对象"@,
            RestoreError::PinnedNotArray => "Codex 全局状态文件里的 pinned-thread-ids 不是数组"@,
        }
    }
}

/// Nanoseconds to milliseconds, rounding toward zero.
pub open spec fn millis_of(nanos: int) -> int {
    if nanos >= 0 {
        nanos / 1_000_000
    } else {
        -((-nanos) / 1_000_000)
    }
}

/// The Unix time in milliseconds of an RFC 3339 text, if it is one.
pub open spec fn rfc3339_millis(value: Seq<char>) -> Option<i64> {
    match spec_parse_rfc3339(value) {
        Some(p) => Some(millis_of(p.0) as i64),
        None => None,
    }
}

/// The Unix time in milliseconds of an RFC 3339 text, if it is one.
pub fn parse_rfc3339_ms(value: &str) -> (r: Option<i64>)
    ensures
        r == rfc3339_millis(value@),
{
    match parse_rfc3339(value) {
        Some((nanos, _)) => {
            let ms: i128 = match nanos.checked_div(1_000_000i128) {
                Some(m) => m,
                None => 0,
            };
            Some(ms as i64)
        },
        None => None,
    }
}

/// The time of a session end, in milliseconds: its RFC 3339 time, else the
/// file's modification time.
pub open spec fn time_or_file(t: Option<Seq<char>>, file_ms: i64) -> i64 {
    match t {
        Some(x) => match rfc3339_millis(x) {
            Some(ms) => ms,
            None => file_ms,
        },
        None => file_ms,
    }
}

/// The thread row for a session: its id, rollout path, title and working
/// directory (empty when unknown), created and updated at the session's
/// first and last timestamps (the file's modification time when those do not
/// read), not archived.
pub fn build_thread_record(
    thread_id: &str,
    rollout_path: String,
    title: String,
    cwd: Option<String>,
    started_at: Option<&str>,
    ended_at: Option<&str>,
    file_modified_ms: i64,
) -> (r: RestoredAppThread)
    ensures
        r.id@ == thread_id@,
        r.rollout_path == rollout_path,
        r.title == title,
        r.cwd@ == (match cwd {
            Some(c) => c@,
            None => Seq::<char>::empty(),
        }),
        r.created_at == time_or_file(
            match started_at {
                Some(s) => Some(s@),
                None => None,
            },
            file_modified_ms,
        ),
        r.updated_at == time_or_file(
            match ended_at {
                Some(s) => Some(s@),
                None => None,
            },
            file_modified_ms,
        ),
        !r.archived,
{
    let created_at = match started_at {
        Some(s) => match parse_rfc3339_ms(s) {
            Some(ms) => ms,
            None => file_modified_ms,
        },
        None => file_modified_ms,
    };
    let updated_at = match ended_at {
        Some(s) => match parse_rfc3339_ms(s) {
            Some(ms) => ms,
            None => file_modified_ms,
        },
        None => file_modified_ms,
    };
    RestoredAppThread {
        id: thread_id.to_owned(),
        rollout_path,
        title,
        cwd: match cwd {
            Some(c) => c,
            None => String::new(),
        },
        created_at,
        updated_at,
        archived: false,
    }
}

/// The columns of `threads` a restore writes.
pub open spec fn required_columns() -> Seq<Seq<char>> {
    seq![
        "id"@,
        "rollout_path"@,
        "created_at"@,
        "updated_at"@,
        "source"@,
        "model_provider"@,
        "cwd"@,
        "title"@,
        "sandbox_policy"@,
        "approval_mode"@,
        "archived"@,
        "archived_at"@,
    ]
}

/// The entries of `req` that `cols` lacks, in order.
pub open spec fn absent_from(req: Seq<Seq<char>>, cols: Seq<Seq<char>>) -> Seq<Seq<char>>
    decreases req.len(),
{
    if req.len() == 0 {
        seq![]
    } else {
        let prev = absent_from(req.drop_last(), cols);
        if cols.contains(req.last()) {
            prev
        } else {
            prev.push(req.last())
        }
    }
}

/// The required columns missing from `columns`, in required order.
pub open spec fn missing_columns(columns: Seq<Seq<char>>) -> Seq<Seq<char>> {
    absent_from(required_columns(), columns)
}

fn required_column_list() -> (r: Vec<String>)
    ensures
        views(r@) == required_columns(),
{
    let r = vec![
        "id".to_owned(),
        "rollout_path".to_owned(),
        "created_at".to_owned(),
        "updated_at".to_owned(),
        "source".to_owned(),
        "model_provider".to_owned(),
        "cwd".to_owned(),
        "title".to_owned(),
        "sandbox_policy".to_owned(),
        "approval_mode".to_owned(),
        "archived".to_owned(),
        "archived_at".to_owned(),
    ];
    assert(views(r@) =~= required_columns());
    r
}

/// Checks the columns of the app's `threads` table: there must be some, and
/// every required one.
pub fn ensure_threads_schema(columns: &Vec<String>) -> (r: Result<(), RestoreError>)
    ensures
        columns@.len() == 0 ==> r matches Err(RestoreError::MissingThreadsTable),
        columns@.len() > 0 && missing_columns(views(columns@)).len() == 0 ==> r is Ok,
        columns@.len() > 0 && missing_columns(views(columns@)).len() > 0 ==> (r matches Err(
            RestoreError::MissingColumns { columns: m },
        ) && views(m@) == missing_columns(views(columns@))),
{
    if columns.len() == 0 {
        return Err(RestoreError::MissingThreadsTable);
    }
    let required = required_column_list();
    let ghost req = required_columns();
    let ghost cols = views(columns@);
    let mut missing: Vec<String> = Vec::new();
    let mut i: usize = 0;
    while i < required.len()
        invariant
            i <= required.len(),
            views(required@) == req,
            req == required_columns(),
            cols == views(columns@),
            views(missing@) == absent_from(req.take(i as int), cols),
        decreases required.len() - i,
    {
        let ghost before = views(missing@);
        let present = crate::sync_state::contains_string(columns, &required[i]);
        assert(req.take(i + 1 as int).drop_last() =~= req.take(i as int));
        assert(req.take(i + 1 as int).last() == required@[i as int]@);
        assert(crate::search_meta::views(columns@).to_set().contains(required@[i as int]@) == cols.contains(
            required@[i as int]@,
        ));
        if !present {
            missing.push(required[i].clone());
            assert(views(missing@) =~= before.push(required@[i as int]@));
        }
        i += 1;
    }
    assert(req.take(required.len() as int) =~= req);
    if missing.len() > 0 {
        return Err(RestoreError::MissingColumns { columns: missing });
    }
    Ok(())
}

/// Refuses a rollout path that another thread of the app already uses.
pub fn ensure_rollout_path_is_safe(existing: Option<&str>, thread_id: &str) -> (r: Result<(), RestoreError>)
    ensures
        match existing {
            Some(e) => if e@ == thread_id@ {
                r is Ok
            } else {
                r matches Err(RestoreError::RolloutPathTaken { existing: x }) && x@ == e@
            },
            None => r is Ok,
        },
{
    if let Some(e) = existing {
        if !str_eq(e, thread_id) {
            return Err(RestoreError::RolloutPathTaken { existing: e.to_owned() });
        }
    }
    Ok(())
}

/// What happens to the thread row.
pub open spec fn thread_action_name(dry_run: bool, exists: bool) -> Seq<char> {
    if dry_run {
        if exists {
            "would_update_existing"@
        } else {
            "would_insert"@
        }
    } else if exists {
        "updated_existing"@
    } else {
        "inserted"@
    }
}

/// What happens to the thread row.
pub fn thread_action(dry_run: bool, exists: bool) -> (r: String)
    ensures
        r@ == thread_action_name(dry_run, exists),
{
    if dry_run {
        if exists {
            "would_update_existing".to_owned()
        } else {
            "would_insert".to_owned()
        }
    } else if exists {
        "updated_existing".to_owned()
    } else {
        "inserted".to_owned()
    }
}

/// The defaults of a new row: those of the most recent thread, else
/// `vscode`, `custom`, `workspace-write` and `on-request`.
pub fn insert_defaults(latest: Option<InsertDefaults>) -> (r: InsertDefaults)
    ensures
        match latest {
            Some(d) => r == d,
            None => r.source@ == "vscode"@ && r.model_provider@ == "custom"@ && r.sandbox_policy@
                == "workspace-write"@ && r.approval_mode@ == "on-request"@,
        },
{
    match latest {
        Some(d) => d,
        None => InsertDefaults {
            source: "vscode".to_owned(),
            model_provider: "custom".to_owned(),
            sandbox_policy: "workspace-write".to_owned(),
            approval_mode: "on-request".to_owned(),
        },
    }
}

/// The key of the pinned thread list in the global state.
pub open spec fn pinned_key() -> Seq<char> {
    "pinned-thread-ids"@
}

/// Whether one of `items` is the string `id`.
pub open spec fn has_id(items: Seq<JsonValue>, id: Seq<char>) -> bool {
    exists|k: int| 0 <= k < items.len() && ((#[trigger] items[k]) matches JsonValue::Str(s) && s@ == id)
}

/// Whether the global state pins `id`: an error when it is not an object or
/// its pinned list is not an array; false without a pinned list.
pub open spec fn pinned_in(value: JsonValue, id: Seq<char>) -> Result<bool, RestoreError> {
    match value {
        JsonValue::Object(fields) => match member_index(fields@, pinned_key()) {
            None => Ok(false),
            Some(i) => match fields@[i].value {
                JsonValue::Array(items) => Ok(has_id(items@, id)),
                _ => Err(RestoreError::PinnedNotArray),
            },
        },
        _ => Err(RestoreError::GlobalStateNotObject),
    }
}

/// Whether `items` hold the string `id`.
fn items_have_id(items: &Vec<JsonValue>, id: &str) -> (r: bool)
    ensures
        r == has_id(items@, id@),
{
    let mut k: usize = 0;
    while k < items.len()
        invariant
            k <= items.len(),
            forall|j: int| 0 <= j < k ==> !((#[trigger] items@[j]) matches JsonValue::Str(s) && s@ == id@),
        decreases items.len() - k,
    {
        if let JsonValue::Str(s) = &items[k] {
            if str_eq(s.as_str(), id) {
                return true;
            }
        }
        k += 1;
    }
    false
}

/// Whether the global state pins `id`.
pub fn contains_pinned_thread(value: &JsonValue, thread_id: &str) -> (r: Result<bool, RestoreError>)
    ensures
        match pinned_in(*value, thread_id@) {
            Ok(b) => r == Ok::<bool, RestoreError>(b),
            Err(RestoreError::PinnedNotArray) => r matches Err(RestoreError::PinnedNotArray),
            Err(_) => r matches Err(RestoreError::GlobalStateNotObject),
        },
{
    match value {
        JsonValue::Object(fields) => match find_member(fields, "pinned-thread-ids") {
            None => Ok(false),
            Some(i) => {
                proof {
                    crate::json::lemma_member_index_range(fields@, pinned_key());
                }
                match &fields[i].value {
                    JsonValue::Array(items) => Ok(items_have_id(items, thread_id)),
                    _ => Err(RestoreError::PinnedNotArray),
                }
            },
        },
        _ => Err(RestoreError::GlobalStateNotObject),
    }
}

/// `after` is the global state `before` with `id` pinned: the pinned list
/// gains the string `id` at its end unless it has it; a state without a list
/// gains one holding only `id`.
pub open spec fn pinned_after(before: JsonValue, after: JsonValue, id: Seq<char>) -> bool {
    match (before, after) {
        (JsonValue::Object(f1), JsonValue::Object(f2)) => match member_index(f1@, pinned_key()) {
            None => {
                &&& f2@.len() == f1@.len() + 1
                &&& f2@.drop_last() == f1@
                &&& f2@.last().key@ == pinned_key()
                &&& (f2@.last().value matches JsonValue::Array(items) && items@.len() == 1 && (
                items@[0] matches JsonValue::Str(s) && s@ == id))
            },
            Some(i) => {
                &&& f2@.len() == f1@.len()
                &&& forall|j: int| 0 <= j < f1@.len() && j != i ==> #[trigger] f2@[j] == f1@[j]
                &&& f2@[i].key == f1@[i].key
                &&& match (f1@[i].value, f2@[i].value) {
                    (JsonValue::Array(a1), JsonValue::Array(a2)) => if has_id(a1@, id) {
                        a2@ == a1@
                    } else {
                        &&& a2@.len() == a1@.len() + 1
                        &&& a2@.drop_last() == a1@
                        &&& a2@.last() matches JsonValue::Str(s) && s@ == id
                    },
                    _ => false,
                }
            },
        },
        _ => false,
    }
}

/// Pins `thread_id` in the global state (see `pinned_after`); an error, and
/// the state unchanged, when the state is not an object or its pinned list
/// is not an array.
pub fn ensure_thread_is_pinned(value: &mut JsonValue, thread_id: &str) -> (r: Result<(), RestoreError>)
    ensures
        match pinned_in(*old(value), thread_id@) {
            Ok(_) => r is Ok && pinned_after(*old(value), *final(value), thread_id@),
            Err(RestoreError::PinnedNotArray) => r matches Err(RestoreError::PinnedNotArray)
                && *final(value) == *old(value),
            Err(_) => r matches Err(RestoreError::GlobalStateNotObject) && *final(value) == *old(value),
        },
{
    let mut taken = JsonValue::Null;
    std::mem::swap(value, &mut taken);
    let (restored, r) = pin_in(taken, thread_id);
    *value = restored;
    r
}

fn pin_in(value: JsonValue, thread_id: &str) -> (r: (JsonValue, Result<(), RestoreError>))
    ensures
        match pinned_in(value, thread_id@) {
            Ok(_) => r.1 is Ok && pinned_after(value, r.0, thread_id@),
            Err(RestoreError::PinnedNotArray) => r.1 matches Err(RestoreError::PinnedNotArray) && r.0 == value,
            Err(_) => r.1 matches Err(RestoreError::GlobalStateNotObject) && r.0 == value,
        },
{
    match contains_pinned_thread(&value, thread_id) {
        Err(e) => {
            return (value, Err(e));
        },
        Ok(_) => {},
    }
    match value {
        JsonValue::Object(mut fields) => {
            let ghost f1 = fields@;
            match find_member(&fields, "pinned-thread-ids") {
                None => {
                    let items = vec![JsonValue::Str(thread_id.to_owned())];
                    fields.push(JsonMember { key: "pinned-thread-ids".to_owned(), value: JsonValue::Array(items) });
                    assert(fields@.drop_last() =~= f1);
                    (JsonValue::Object(fields), Ok(()))
                },
                Some(i) => {
                    proof {
                        crate::json::lemma_member_index_range(f1, pinned_key());
                    }
                    let m = fields.remove(i);
                    match m.value {
                        JsonValue::Array(mut items) => {
                            let ghost a1 = items@;
                            if !items_have_id(&items, thread_id) {
                                items.push(JsonValue::Str(thread_id.to_owned()));
                                assert(items@.drop_last() =~= a1);
                            }
                            fields.insert(i, JsonMember { key: m.key, value: JsonValue::Array(items) });
                            assert forall|j: int| 0 <= j < f1.len() && j != i implies #[trigger] fields@[j] == f1[j] by {
                                if j < i {
                                    assert(fields@[j] == f1[j]);
                                } else {
                                    assert(fields@[j] == f1[j]);
                                }
                            }
                            (JsonValue::Object(fields), Ok(()))
                        },
                        other => {
                            assert(false);
                            fields.insert(i, JsonMember { key: m.key, value: other });
                            (JsonValue::Object(fields), Err(RestoreError::PinnedNotArray))
                        },
                    }
                },
            }
        },
        other => {
            assert(false);
            (other, Err(RestoreError::GlobalStateNotObject))
        },
    }
}

/// Two global states agree: the same members in the same order, equal but
/// for the pinned lists, which hold the same items.
pub open spec fn same_state(a: JsonValue, b: JsonValue) -> bool {
    match (a, b) {
        (JsonValue::Object(f1), JsonValue::Object(f2)) => {
            &&& f1@.len() == f2@.len()
            &&& forall|j: int| 0 <= j < f1@.len() ==> (#[trigger] f1@[j]).key == f2@[j].key
            &&& forall|j: int|
                0 <= j < f1@.len() && f1@[j].key@ != pinned_key() ==> #[trigger] f1@[j] == f2@[j]
            &&& forall|j: int|
                0 <= j < f1@.len() && (#[trigger] f1@[j]).key@ == pinned_key() ==> match (
                    f1@[j].value,
                    f2@[j].value,
                ) {
                    (JsonValue::Array(x), JsonValue::Array(y)) => x@ == y@,
                    _ => f1@[j] == f2@[j],
                }
        },
        _ => false,
    }
}

proof fn lemma_member_index_keys(f1: Seq<JsonMember>, f2: Seq<JsonMember>, key: Seq<char>)
    requires
        f1.len() == f2.len(),
        forall|j: int| 0 <= j < f1.len() ==> (#[trigger] f1[j]).key@ == f2[j].key@,
    ensures
        member_index(f1, key) == member_index(f2, key),
    decreases f1.len(),
{
    if f1.len() > 0 {
        assert forall|j: int| 0 <= j < f1.len() - 1 implies (#[trigger] f1.drop_last()[j]).key@
            == f2.drop_last()[j].key@ by {
            assert(f1.drop_last()[j] == f1[j]);
            assert(f2.drop_last()[j] == f2[j]);
        }
        lemma_member_index_keys(f1.drop_last(), f2.drop_last(), key);
        assert(f1.last() == f1[f1.len() - 1]);
        assert(f2.last() == f2[f2.len() - 1]);
    }
}

/// Pinning is idempotent: once `id` is pinned the state pins it, and
/// pinning it again leaves the state as it is.
pub proof fn lemma_pin_idempotent(before: JsonValue, after: JsonValue, again: JsonValue, id: Seq<char>)
    requires
        pinned_in(before, id) is Ok,
        pinned_after(before, after, id),
        pinned_after(after, again, id),
    ensures
        pinned_in(after, id) == Ok::<bool, RestoreError>(true),
        same_state(after, again),
{
    let f1 = before->Object_0@;
    let f2 = after->Object_0@;
    let f3 = again->Object_0@;
    crate::json::lemma_member_index_range(f1, pinned_key());
    match member_index(f1, pinned_key()) {
        None => {
            assert(f2.drop_last() == f1);
            assert(member_index(f2, pinned_key()) == Some(f2.len() - 1));
            assert(f2[f2.len() - 1] == f2.last());
            let items = f2.last().value->Array_0@;
            assert(has_id(items, id)) by {
                assert(items[0] matches JsonValue::Str(s) && s@ == id);
            }
        },
        Some(i) => {
            assert forall|j: int| 0 <= j < f1.len() implies (#[trigger] f1[j]).key@ == f2[j].key@ by {
                if j != i {
                    assert(f2[j] == f1[j]);
                }
            }
            lemma_member_index_keys(f1, f2, pinned_key());
            let a1 = f1[i].value->Array_0@;
            let a2 = f2[i].value->Array_0@;
            if !has_id(a1, id) {
                assert(has_id(a2, id)) by {
                    assert(a2[a2.len() - 1] == a2.last());
                }
            }
        },
    }
    crate::json::lemma_member_index_range(f2, pinned_key());
    crate::json::lemma_member_index_earliest(f2, pinned_key());
    let k = member_index(f2, pinned_key())->Some_0;
    assert(f3.len() == f2.len());
    assert forall|j: int| 0 <= j < f2.len() implies (#[trigger] f2[j]).key == f3[j].key by {
        if j != k {
            assert(f3[j] == f2[j]);
        }
    }
    assert forall|j: int| 0 <= j < f2.len() && f2[j].key@ != pinned_key() implies #[trigger] f2[j] == f3[j] by {
        assert(j != k);
    }
    assert forall|j: int| 0 <= j < f2.len() && (#[trigger] f2[j]).key@ == pinned_key() implies match (
        f2[j].value,
        f3[j].value,
    ) {
        (JsonValue::Array(x), JsonValue::Array(y)) => x@ == y@,
        _ => f2[j] == f3[j],
    } by {
        assert(j >= k);
        if j != k {
            assert(f3[j] == f2[j]);
        }
    }
}

/// The result of planning a pin of `id` into an existing global state.
pub open spec fn pin_outcome(
    before: JsonValue,
    id: Seq<char>,
    dry_run: bool,
    r: Result<(JsonValue, String), RestoreError>,
) -> bool {
    match pinned_in(before, id) {
        Ok(true) => r matches Ok((v, a)) && a@ == "already_pinned"@ && v == before,
        Ok(false) => if dry_run {
            r matches Ok((v, a)) && a@ == "would_pin"@ && v == before
        } else {
            r matches Ok((v, a)) && a@ == "pinned"@ && pinned_after(before, v, id)
        },
        Err(RestoreError::PinnedNotArray) => r matches Err(RestoreError::PinnedNotArray),
        Err(_) => r matches Err(RestoreError::GlobalStateNotObject),
    }
}

/// The pin action and the global state to write: nothing (`skipped`) when
/// not asked; `already_pinned` when the state pins the thread; `would_pin`
/// on a dry run; else the state with the thread pinned, `pinned`. A missing
/// state file counts as an empty object.
pub fn plan_pin(state: Option<JsonValue>, thread_id: &str, pin: bool, dry_run: bool) -> (r: Result<
    (JsonValue, String),
    RestoreError,
>)
    ensures
        !pin ==> (r matches Ok((v, a)) && a@ == "skipped"@ && (v matches JsonValue::Object(f) && f@.len()
            == 0)),
        pin && state is Some ==> pin_outcome(state->Some_0, thread_id@, dry_run, r),
        pin && state is None ==> (r matches Ok((v, a)) && (v matches JsonValue::Object(f) && if dry_run {
            a@ == "would_pin"@ && f@.len() == 0
        } else {
            a@ == "pinned"@ && f@.len() == 1 && f@[0].key@ == pinned_key() && (f@[0].value matches JsonValue::Array(
                items,
            ) && items@.len() == 1 && (items@[0] matches JsonValue::Str(s) && s@ == thread_id@))
        })),
{
    if !pin {
        return Ok((JsonValue::Object(Vec::new()), "skipped".to_owned()));
    }
    let mut value = match state {
        Some(v) => v,
        None => JsonValue::Object(Vec::new()),
    };
    let already = contains_pinned_thread(&value, thread_id)?;
    if already {
        return Ok((value, "already_pinned".to_owned()));
    }
    if dry_run {
        return Ok((value, "would_pin".to_owned()));
    }
    let _ = ensure_thread_is_pinned(&mut value, thread_id);
    Ok((value, "pinned".to_owned()))
}

/// A character kept in a backup directory name.
pub open spec fn safe_char(c: char) -> bool {
    ('a' <= c && c <= 'z') || ('A' <= c && c <= 'Z') || ('0' <= c && c <= '9') || c == '-' || c == '_'
}

/// `value` with every character that is not an ASCII letter, digit, `-` or
/// `_` replaced by `_`.
pub open spec fn sanitized(value: Seq<char>) -> Seq<char> {
    value.map_values(|c: char| if safe_char(c) { c } else { '_' })
}

/// `value` made safe for a file name.
pub fn sanitize_component(value: &str) -> (r: String)
    ensures
        r@ == sanitized(value@),
{
    let cs = chars_of(value);
    let mut out: Vec<char> = Vec::new();
    let mut i: usize = 0;
    while i < cs.len()
        invariant
            i <= cs.len(),
            cs@ == value@,
            out@ == sanitized(cs@.take(i as int)),
        decreases cs.len() - i,
    {
        let c = cs[i];
        let keep = ('a' <= c && c <= 'z') || ('A' <= c && c <= 'Z') || ('0' <= c && c <= '9') || c
            == '-' || c == '_';
        out.push(if keep { c } else { '_' });
        i += 1;
        assert(out@ =~= sanitized(cs@.take(i as int)));
    }
    assert(cs@.take(cs.len() as int) =~= cs@);
    string_from_chars(out.as_slice())
}

/// The decimal text of a signed number.
pub open spec fn signed_decimal(n: i64) -> Seq<char> {
    if n < 0 {
        "-"@ + decimal((-(n as int)) as nat)
    } else {
        decimal(n as nat)
    }
}

/// The name of the backup directory of a restore at Unix time `stamp`.
pub open spec fn backup_dir_name_of(stamp: i64, thread_id: Seq<char>) -> Seq<char> {
    "restore-app-thread-"@ + signed_decimal(stamp) + "-"@ + sanitized(thread_id)
}

/// The name of the backup directory of a restore at Unix time `stamp`.
pub fn backup_dir_name(stamp: i64, thread_id: &str) -> (r: String)
    ensures
        r@ == backup_dir_name_of(stamp, thread_id@),
{
    let mut s = "restore-app-thread-".to_owned();
    if stamp < 0 {
        s.append("-");
        let magnitude: u64 = if stamp == i64::MIN {
            0x8000_0000_0000_0000u64
        } else {
            (-stamp) as u64
        };
        let d = decimal_string(magnitude);
        s.append(d.as_str());
    } else {
        let d = decimal_string(stamp as u64);
        s.append(d.as_str());
    }
    s.append("-");
    let safe = sanitize_component(thread_id);
    s.append(safe.as_str());
    s
}

/// The path with its last component replaced (`Path::with_file_name`).
pub uninterp spec fn spec_with_file_name(path: Seq<char>, name: Seq<char>) -> Seq<char>;

/// Calls `Path::with_file_name` and `to_string_lossy`; the result is named by
/// the path and the name.
#[verifier::external_body]
fn path_with_file_name(path: &str, name: &str) -> (r: String)
    ensures
        r@ == spec_with_file_name(path@, name@),
{
    std::path::Path::new(path).with_file_name(name).to_string_lossy().into_owned()
}

/// Reads the clock: `OffsetDateTime::now_utc().unix_timestamp()`, the whole
/// seconds since the Unix epoch. Nothing is stated of the result: it is the
/// time of the call.
#[verifier::external_body]
fn now_unix_seconds() -> (r: i64) {
    time::OffsetDateTime::now_utc().unix_timestamp()
}

/// The name of the backup directory of a restore made now.
pub fn current_backup_dir_name(thread_id: &str) -> (r: String)
    ensures
        exists|stamp: i64| r@ == #[trigger] backup_dir_name_of(stamp, thread_id@),
{
    let stamp = now_unix_seconds();
    let r = backup_dir_name(stamp, thread_id);
    assert(r@ == backup_dir_name_of(stamp, thread_id@));
    r
}

/// The path of an SQLite side file of the state database: its file name
/// (`state_5.sqlite` when it has none) followed by `suffix`.
pub fn sqlite_sidecar_path(state_db_path: &str, suffix: &str) -> (r: String)
    ensures
        r@ == spec_with_file_name(
            state_db_path@,
            (match spec_file_name(state_db_path@) {
                Some(n) => n,
                None => "state_5.sqlite"@,
            }) + suffix@,
        ),
{
    let mut name = match path_file_name(state_db_path) {
        Some(n) => n,
        None => "state_5.sqlite".to_owned(),
    };
    name.append(suffix);
    path_with_file_name(state_db_path, name.as_str())
}

/// The warnings of a restore: quit the app first; and, when SQLite side
/// files exist, restart it afterwards.
pub fn collect_warnings(sidecar_exists: bool) -> (r: Vec<String>)
    ensures
        views(r@) == seq!["请优先在 Codex App 已退出的前提下执行写入，避免本地 sqlite 状态被重新覆盖。"@] + if sidecar_exists {
            seq!["检测到 sqlite sidecar 文件，请在恢复完成后重启 Codex App 再验证线程视图。"@]
        } else {
            seq![]
        },
{
    let mut warnings: Vec<String> = Vec::new();
    warnings.push("请优先在 Codex App 已退出的前提下执行写入，避免本地 sqlite 状态被重新覆盖。".to_owned());
    if sidecar_exists {
        warnings.push("检测到 sqlite sidecar 文件，请在恢复完成后重启 Codex App 再验证线程视图。".to_owned());
    }
    assert(views(warnings@) =~= seq!["请优先在 Codex App 已退出的前提下执行写入，避免本地 sqlite 状态被重新覆盖。"@] + if sidecar_exists {
        seq!["检测到 sqlite sidecar 文件，请在恢复完成后重启 Codex App 再验证线程视图。"@]
    } else {
        seq![]
    });
    warnings
}

/// How a thread action is shown.
pub open spec fn thread_action_label(action: Seq<char>) -> Seq<char> {
    if action == "would_insert"@ {
        "将新增线程记录"@
    } else if action == "inserted"@ {
        "已新增线程记录"@
    } else if action == "would_update_existing"@ {
        "将更新现有线程记录"@
    } else if action == "updated_existing"@ {
        "已更新现有线程记录"@
    } else {
        "未变更"@
    }
}

/// How a thread action is shown.
pub fn render_thread_action(action: &str) -> (r: &'static str)
    ensures
        r@ == thread_action_label(action@),
{
    if str_eq(action, "would_insert") {
        "将新增线程记录"
    } else if str_eq(action, "inserted") {
        "已新增线程记录"
    } else if str_eq(action, "would_update_existing") {
        "将更新现有线程记录"
    } else if str_eq(action, "updated_existing") {
        "已更新现有线程记录"
    } else {
        "未变更"
    }
}

/// How a pin action is shown.
pub open spec fn pin_action_label(action: Seq<char>) -> Seq<char> {
    if action == "would_pin"@ {
        "将加入 pinned-thread-ids"@
    } else if action == "pinned"@ {
        "已加入 pinned-thread-ids"@
    } else if action == "already_pinned"@ {
        "已经在 pinned-thread-ids 中"@
    } else {
        "未请求"@
    }
}

/// How a pin action is shown.
pub fn render_pin_action(action: &str) -> (r: &'static str)
    ensures
        r@ == pin_action_label(action@),
{
    if str_eq(action, "would_pin") {
        "将加入 pinned-thread-ids"
    } else if str_eq(action, "pinned") {
        "已加入 pinned-thread-ids"
    } else if str_eq(action, "already_pinned") {
        "已经在 pinned-thread-ids 中"
    } else {
        "未请求"
    }
}

/// The files backed up before a restore writes: the state database, its
/// `-wal` and `-shm` side files, and the global state when pinning.
pub fn backup_targets(state_db_path: &str, global_state_path: &str, pin: bool) -> (r: Vec<String>)
    ensures
        r@.len() == (if pin {
            4nat
        } else {
            3nat
        }),
        r@[0]@ == state_db_path@,
        r@[1]@ == spec_with_file_name(
            state_db_path@,
            (match spec_file_name(state_db_path@) {
                Some(n) => n,
                None => "state_5.sqlite"@,
            }) + "-wal"@,
        ),
        r@[2]@ == spec_with_file_name(
            state_db_path@,
            (match spec_file_name(state_db_path@) {
                Some(n) => n,
                None => "state_5.sqlite"@,
            }) + "-shm"@,
        ),
        pin ==> r@[3]@ == global_state_path@,
{
    let mut r: Vec<String> = Vec::new();
    r.push(state_db_path.to_owned());
    r.push(sqlite_sidecar_path(state_db_path, "-wal"));
    r.push(sqlite_sidecar_path(state_db_path, "-shm"));
    if pin {
        r.push(global_state_path.to_owned());
    }
    r
}

/// The report of a restore.
pub fn build_restore_report(
    dry_run: bool,
    thread: RestoredAppThread,
    thread_action: String,
    pin_action: String,
    state_db_path: String,
    global_state_path: String,
    backup_dir: Option<String>,
    warnings: Vec<String>,
) -> (r: RestoreAppThreadReport)
    ensures
        r.feature@ == "restore-app-thread"@,
        r.dry_run == dry_run,
        r.thread_id@ == thread.id@,
        r.thread_action == thread_action,
        r.pin_action == pin_action,
        r.state_db_path == state_db_path,
        r.global_state_path == global_state_path,
        r.backup_dir == backup_dir,
        r.warnings == warnings,
        r.thread == thread,
{
    RestoreAppThreadReport {
        feature: "restore-app-thread".to_owned(),
        dry_run,
        thread_id: thread.id.clone(),
        thread_action,
        pin_action,
        state_db_path,
        global_state_path,
        backup_dir,
        warnings,
        thread,
    }
}

} // verus!
