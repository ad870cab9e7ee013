use vstd::prelude::*;

use crate::sync_types::opt_view;
use crate::text::{chars_of, join, string_from_chars};

verus! {

/// A parameter bound to a `?` of a statement.
#[derive(Debug, Clone)]
pub enum SqlValue {
    Text(String),
    Integer(i64),
}

/// A parameter as a value.
pub enum ParamView {
    Text(Seq<char>),
    Integer(i64),
}

/// The value of a parameter.
pub open spec fn param_view(p: SqlValue) -> ParamView {
    match p {
        SqlValue::Text(s) => ParamView::Text(s@),
        SqlValue::Integer(i) => ParamView::Integer(i),
    }
}

/// The values of parameters.
pub open spec fn param_views(ps: Seq<SqlValue>) -> Seq<ParamView> {
    ps.map_values(|p: SqlValue| param_view(p))
}

/// The views of strings.
pub open spec fn str_views(ss: Seq<String>) -> Seq<Seq<char>> {
    ss.map_values(|s: String| s@)
}

/// A statement and its parameters, in order.
#[derive(Debug, Clone)]
pub struct SqlQuery {
    pub sql: String,
    pub params: Vec<SqlValue>,
}

/// Filters of a thread search.
#[derive(Debug, Clone, Default)]
pub struct ThreadSearchFilters {
    pub since: Option<String>,
    pub until: Option<String>,
    pub session: Option<String>,
    pub cwd: Option<String>,
    pub path: Option<String>,
}

/// Filters of a message search.
#[derive(Debug, Clone, Default)]
pub struct MessageSearchFilters {
    pub since: Option<String>,
    pub until: Option<String>,
    pub session: Option<String>,
    pub role: Option<String>,
}

/// Filters of an event search.
#[derive(Debug, Clone, Default)]
pub struct EventSearchFilters {
    pub since: Option<String>,
    pub until: Option<String>,
    pub session: Option<String>,
    pub event_type: Option<String>,
}

/// `s` with `%`, `_` and `\` escaped by a `\` (for `LIKE ... ESCAPE '\'`).
pub open spec fn escaped(s: Seq<char>) -> Seq<char>
    decreases s.len(),
{
    if s.len() == 0 {
        seq![]
    } else {
        let c = s.last();
        escaped(s.drop_last()) + if c == '%' || c == '_' || c == '\\' {
            seq!['\\', c]
        } else {
            seq![c]
        }
    }
}

/// The `LIKE` pattern that matches texts holding `s`.
pub open spec fn like_pat(s: Seq<char>) -> Seq<char> {
    seq!['%'] + escaped(s) + seq!['%']
}

/// `s` with the `LIKE` wildcards escaped.
pub fn escape_like(value: &str) -> (r: String)
    ensures
        r@ == escaped(value@),
{
    let cs = chars_of(value);
    let mut out: Vec<char> = Vec::new();
    let mut i: usize = 0;
    while i < cs.len()
        invariant
            i <= cs.len(),
            cs@ == value@,
            out@ == escaped(cs@.take(i as int)),
        decreases cs.len() - i,
    {
        assert(cs@.take(i + 1 as int).drop_last() == cs@.take(i as int));
        let c = cs[i];
        if c == '%' || c == '_' || c == '\\' {
            out.push('\\');
        }
        out.push(c);
        i += 1;
        assert(out@ =~= escaped(cs@.take(i as int)));
    }
    assert(cs@.take(cs.len() as int) == cs@);
    string_from_chars(out.as_slice())
}

/// The `LIKE` pattern that matches texts holding `value`.
pub fn like_pattern(value: &str) -> (r: String)
    ensures
        r@ == like_pat(value@),
{
    let mut r = "%".to_owned();
    let e = escape_like(value);
    r.append(e.as_str());
    r.append("%");
    proof {
        reveal_strlit("%");
    }
    r
}

/// A column, prefixed by its table alias when there is one.
pub open spec fn qualified(alias: Seq<char>, column: Seq<char>) -> Seq<char> {
    if alias.len() == 0 {
        column
    } else {
        alias + "."@ + column
    }
}

/// A column, prefixed by its table alias when there is one.
pub fn qualified_column(alias: &str, column: &str) -> (r: String)
    ensures
        r@ == qualified(alias@, column@),
{
    if alias.is_empty() {
        column.to_owned()
    } else {
        let mut r = alias.to_owned();
        r.append(".");
        r.append(column);
        r
    }
}

/// `a` followed by `b`.
fn cat(a: &str, b: &str) -> (r: String)
    ensures
        r@ == a@ + b@,
{
    let mut r = a.to_owned();
    r.append(b);
    r
}

/// The optional text as a text parameter.
pub open spec fn opt_text(o: Option<Seq<char>>) -> Seq<ParamView> {
    match o {
        Some(x) => seq![ParamView::Text(x)],
        None => seq![],
    }
}

/// The conditions of the session and time filters.
pub open spec fn common_conds(
    session: Option<Seq<char>>,
    since: Option<Seq<char>>,
    until: Option<Seq<char>>,
    session_column: Seq<char>,
    time_column: Seq<char>,
) -> Seq<Seq<char>> {
    (if session is Some {
        seq![session_column + " = ?"@]
    } else {
        seq![]
    }) + (if since is Some {
        seq![time_column + " >= ?"@]
    } else {
        seq![]
    }) + (if until is Some {
        seq![time_column + " <= ?"@]
    } else {
        seq![]
    })
}

/// The parameters of the session and time filters.
pub open spec fn common_params(
    session: Option<Seq<char>>,
    since: Option<Seq<char>>,
    until: Option<Seq<char>>,
) -> Seq<ParamView> {
    opt_text(session) + opt_text(since) + opt_text(until)
}

/// Appends a condition and a text parameter.
fn push_condition(conditions: &mut Vec<String>, params: &mut Vec<SqlValue>, cond: String, value: String)
    ensures
        str_views(final(conditions)@) == str_views(old(conditions)@).push(cond@),
        param_views(final(params)@) == param_views(old(params)@).push(ParamView::Text(value@)),
{
    let ghost c0 = str_views(conditions@);
    let ghost p0 = param_views(params@);
    conditions.push(cond);
    params.push(SqlValue::Text(value));
    assert(str_views(conditions@) =~= c0.push(cond@));
    assert(param_views(params@) =~= p0.push(ParamView::Text(value@)));
}

/// Appends the session and time filters.
pub fn push_common_search_filter_conditions(
    conditions: &mut Vec<String>,
    params: &mut Vec<SqlValue>,
    session: Option<&str>,
    since: Option<&str>,
    until: Option<&str>,
    session_column: &str,
    timestamp_column: &str,
)
    ensures
        str_views(final(conditions)@) == str_views(old(conditions)@) + common_conds(
            match session { Some(s) => Some(s@), None => None },
            match since { Some(s) => Some(s@), None => None },
            match until { Some(s) => Some(s@), None => None },
            session_column@,
            timestamp_column@,
        ),
        param_views(final(params)@) == param_views(old(params)@) + common_params(
            match session { Some(s) => Some(s@), None => None },
            match since { Some(s) => Some(s@), None => None },
            match until { Some(s) => Some(s@), None => None },
        ),
{
    let ghost c0 = str_views(conditions@);
    let ghost p0 = param_views(params@);
    if let Some(s) = session {
        push_condition(conditions, params, cat(session_column, " = ?"), s.to_owned());
    }
    let ghost c1 = str_views(conditions@);
    let ghost p1 = param_views(params@);
    if let Some(s) = since {
        push_condition(conditions, params, cat(timestamp_column, " >= ?"), s.to_owned());
    }
    let ghost c2 = str_views(conditions@);
    let ghost p2 = param_views(params@);
    if let Some(u) = until {
        push_condition(conditions, params, cat(timestamp_column, " <= ?"), u.to_owned());
    }
    assert(str_views(conditions@) =~= c0 + common_conds(
        match session { Some(s) => Some(s@), None => None },
        match since { Some(s) => Some(s@), None => None },
        match until { Some(s) => Some(s@), None => None },
        session_column@,
        timestamp_column@,
    ));
    assert(param_views(params@) =~= p0 + common_params(
        match session { Some(s) => Some(s@), None => None },
        match since { Some(s) => Some(s@), None => None },
        match until { Some(s) => Some(s@), None => None },
    ));
}

/// An optional `&str` of an optional `String`.
fn opt_str(o: &Option<String>) -> (r: Option<&str>)
    ensures
        match r {
            Some(s) => opt_view(*o) == Some(s@),
            None => o.is_none(),
        },
{
    match o {
        Some(s) => Some(s.as_str()),
        None => None,
    }
}

/// The conditions of thread filters on table `alias`: session, start time,
/// then `cwd` and `path` holding the given texts.
pub open spec fn thread_filter_conds(f: ThreadSearchFilters, alias: Seq<char>) -> Seq<Seq<char>> {
    common_conds(
        opt_view(f.session),
        opt_view(f.since),
        opt_view(f.until),
        qualified(alias, "session_id"@),
        qualified(alias, "started_at"@),
    ) + (if f.cwd is Some {
        seq!["lower(ifnull("@ + qualified(alias, "cwd"@) + ", '')) LIKE lower(?) ESCAPE '\\'"@]
    } else {
        seq![]
    }) + (if f.path is Some {
        seq!["lower("@ + qualified(alias, "path"@) + ") LIKE lower(?) ESCAPE '\\'"@]
    } else {
        seq![]
    })
}

/// The parameters of thread filters.
pub open spec fn thread_filter_params(f: ThreadSearchFilters) -> Seq<ParamView> {
    common_params(opt_view(f.session), opt_view(f.since), opt_view(f.until)) + (match f.cwd {
        Some(c) => seq![ParamView::Text(like_pat(c@))],
        None => seq![],
    }) + (match f.path {
        Some(p) => seq![ParamView::Text(like_pat(p@))],
        None => seq![],
    })
}

/// Appends the thread filters.
pub fn push_thread_filter_conditions(
    conditions: &mut Vec<String>,
    params: &mut Vec<SqlValue>,
    filters: &ThreadSearchFilters,
    alias: &str,
)
    ensures
        str_views(final(conditions)@) == str_views(old(conditions)@) + thread_filter_conds(*filters, alias@),
        param_views(final(params)@) == param_views(old(params)@) + thread_filter_params(*filters),
{
    let ghost c0 = str_views(conditions@);
    let ghost p0 = param_views(params@);
    let sc = qualified_column(alias, "session_id");
    let tc = qualified_column(alias, "started_at");
    push_common_search_filter_conditions(
        conditions,
        params,
        opt_str(&filters.session),
        opt_str(&filters.since),
        opt_str(&filters.until),
        sc.as_str(),
        tc.as_str(),
    );
    let ghost c1 = str_views(conditions@);
    let ghost p1 = param_views(params@);
    if let Some(cwd) = &filters.cwd {
        let col = qualified_column(alias, "cwd");
        let a = cat("lower(ifnull(", col.as_str());
        let cond = cat(a.as_str(), ", '')) LIKE lower(?) ESCAPE '\\'");
        push_condition(conditions, params, cond, like_pattern(cwd.as_str()));
    }
    let ghost c2 = str_views(conditions@);
    let ghost p2 = param_views(params@);
    if let Some(path) = &filters.path {
        let col = qualified_column(alias, "path");
        let a = cat("lower(", col.as_str());
        let cond = cat(a.as_str(), ") LIKE lower(?) ESCAPE '\\'");
        push_condition(conditions, params, cond, like_pattern(path.as_str()));
    }
    assert(str_views(conditions@) =~= c0 + thread_filter_conds(*filters, alias@));
    assert(param_views(params@) =~= p0 + thread_filter_params(*filters));
}

/// The conditions of message filters on table `alias`: session, time, then
/// the role (case-insensitive).
pub open spec fn message_filter_conds(f: MessageSearchFilters, alias: Seq<char>) -> Seq<Seq<char>> {
    common_conds(
        opt_view(f.session),
        opt_view(f.since),
        opt_view(f.until),
        qualified(alias, "session_id"@),
        qualified(alias, "timestamp"@),
    ) + (if f.role is Some {
        seq!["lower("@ + qualified(alias, "role"@) + ") = lower(?)"@]
    } else {
        seq![]
    })
}

/// The parameters of message filters.
pub open spec fn message_filter_params(f: MessageSearchFilters) -> Seq<ParamView> {
    common_params(opt_view(f.session), opt_view(f.since), opt_view(f.until)) + opt_text(
        opt_view(f.role),
    )
}

/// Appends the message filters.
pub fn push_message_filter_conditions(
    conditions: &mut Vec<String>,
    params: &mut Vec<SqlValue>,
    filters: &MessageSearchFilters,
    alias: &str,
)
    ensures
        str_views(final(conditions)@) == str_views(old(conditions)@) + message_filter_conds(*filters, alias@),
        param_views(final(params)@) == param_views(old(params)@) + message_filter_params(*filters),
{
    let ghost c0 = str_views(conditions@);
    let ghost p0 = param_views(params@);
    let sc = qualified_column(alias, "session_id");
    let tc = qualified_column(alias, "timestamp");
    push_common_search_filter_conditions(
        conditions,
        params,
        opt_str(&filters.session),
        opt_str(&filters.since),
        opt_str(&filters.until),
        sc.as_str(),
        tc.as_str(),
    );
    if let Some(role) = &filters.role {
        let col = qualified_column(alias, "role");
        let a = cat("lower(", col.as_str());
        let cond = cat(a.as_str(), ") = lower(?)");
        push_condition(conditions, params, cond, role.clone());
    }
    assert(str_views(conditions@) =~= c0 + message_filter_conds(*filters, alias@));
    assert(param_views(params@) =~= p0 + message_filter_params(*filters));
}

/// The conditions of event filters on table `alias`: session, time, then
/// the event type (case-insensitive).
pub open spec fn event_filter_conds(f: EventSearchFilters, alias: Seq<char>) -> Seq<Seq<char>> {
    common_conds(
        opt_view(f.session),
        opt_view(f.since),
        opt_view(f.until),
        qualified(alias, "session_id"@),
        qualified(alias, "timestamp"@),
    ) + (if f.event_type is Some {
        seq!["lower("@ + qualified(alias, "event_type"@) + ") = lower(?)"@]
    } else {
        seq![]
    })
}

/// The parameters of event filters.
pub open spec fn event_filter_params(f: EventSearchFilters) -> Seq<ParamView> {
    common_params(opt_view(f.session), opt_view(f.since), opt_view(f.until)) + opt_text(
        opt_view(f.event_type),
    )
}

/// Appends the event filters.
pub fn push_event_filter_conditions(
    conditions: &mut Vec<String>,
    params: &mut Vec<SqlValue>,
    filters: &EventSearchFilters,
    alias: &str,
)
    ensures
        str_views(final(conditions)@) == str_views(old(conditions)@) + event_filter_conds(*filters, alias@),
        param_views(final(params)@) == param_views(old(params)@) + event_filter_params(*filters),
{
    let ghost c0 = str_views(conditions@);
    let ghost p0 = param_views(params@);
    let sc = qualified_column(alias, "session_id");
    let tc = qualified_column(alias, "timestamp");
    push_common_search_filter_conditions(
        conditions,
        params,
        opt_str(&filters.session),
        opt_str(&filters.since),
        opt_str(&filters.until),
        sc.as_str(),
        tc.as_str(),
    );
    if let Some(event_type) = &filters.event_type {
        let col = qualified_column(alias, "event_type");
        let a = cat("lower(", col.as_str());
        let cond = cat(a.as_str(), ") = lower(?)");
        push_condition(conditions, params, cond, event_type.clone());
    }
    assert(str_views(conditions@) =~= c0 + event_filter_conds(*filters, alias@));
    assert(param_views(params@) =~= p0 + event_filter_params(*filters));
}

/// The text between conditions.
pub open spec fn and_sep() -> Seq<char> {
    "\n                AND "@
}

/// `prefix`, the conditions joined by `AND`, `suffix`.
pub open spec fn statement(prefix: Seq<char>, conds: Seq<Seq<char>>, suffix: Seq<char>) -> Seq<char> {
    prefix + join(conds, and_sep()) + suffix
}

/// `prefix`, the conditions joined by `AND`, `suffix`.
fn build_statement(prefix: &str, conditions: &Vec<String>, suffix: &str) -> (r: String)
    ensures
        r@ == statement(prefix@, str_views(conditions@), suffix@),
{
    let joined = crate::search_meta::join_strings(conditions.as_slice(), "\n                AND ");
    assert(crate::search_meta::views(conditions@) =~= str_views(conditions@));
    let mut r = prefix.to_owned();
    r.append(joined.as_str());
    r.append(suffix);
    r
}

/// The limit parameter.
fn push_limit(params: &mut Vec<SqlValue>, limit: usize)
    ensures
        param_views(final(params)@) == param_views(old(params)@).push(ParamView::Integer(limit as i64)),
{
    let ghost p0 = param_views(params@);
    params.push(SqlValue::Integer(limit as i64));
    assert(param_views(params@) =~= p0.push(ParamView::Integer(limit as i64)));
}

/// The `LIKE` condition of a thread search term: title, cwd, path or
/// aggregate text holds it.
pub open spec fn thread_like_cond() -> Seq<char> {
    "(\n                    lower(title) LIKE lower(?) ESCAPE '\\'\n                    OR lower(ifnull(cwd, '')) LIKE lower(?) ESCAPE '\\'\n                    OR lower(path) LIKE lower(?) ESCAPE '\\'\n                    OR lower(aggregate_text) LIKE lower(?) ESCAPE '\\'\n                )"@
}

/// Four copies of the pattern of `s`.
pub open spec fn four_patterns(s: Seq<char>) -> Seq<ParamView> {
    seq![
        ParamView::Text(like_pat(s)),
        ParamView::Text(like_pat(s)),
        ParamView::Text(like_pat(s)),
        ParamView::Text(like_pat(s)),
    ]
}

/// The full-text query of a thread search.
pub fn thread_fts_query(query: &str, limit: usize, filters: &ThreadSearchFilters) -> (r: SqlQuery)
    ensures
        r.sql@ == statement(
            "\n            SELECT\n                t.session_id,\n                t.title,\n                t.cwd,\n                t.path,\n                t.message_count,\n                t.event_count,\n                t.aggregate_text,\n                t.started_at,\n                snippet(threads_fts, 4, '[', ']', '…', 12)\n            FROM threads_fts\n            JOIN threads t ON t.id = threads_fts.rowid\n            WHERE "@,
            seq!["threads_fts MATCH ?"@] + thread_filter_conds(*filters, "t"@),
            "\n            ORDER BY bm25(threads_fts)\n            LIMIT ?\n            "@,
        ),
        param_views(r.params@) == seq![ParamView::Text(query@)] + thread_filter_params(*filters)
            + seq![ParamView::Integer(limit as i64)],
{
    let mut conditions: Vec<String> = vec!["threads_fts MATCH ?".to_owned()];
    let mut params: Vec<SqlValue> = vec![SqlValue::Text(query.to_owned())];
    assert(str_views(conditions@) =~= seq!["threads_fts MATCH ?"@]);
    assert(param_views(params@) =~= seq![ParamView::Text(query@)]);
    push_thread_filter_conditions(&mut conditions, &mut params, filters, "t");
    push_limit(&mut params, limit);
    let sql = build_statement("\n            SELECT\n                t.session_id,\n                t.title,\n                t.cwd,\n                t.path,\n                t.message_count,\n                t.event_count,\n                t.aggregate_text,\n                t.started_at,\n                snippet(threads_fts, 4, '[', ']', '…', 12)\n            FROM threads_fts\n            JOIN threads t ON t.id = threads_fts.rowid\n            WHERE ", &conditions, "\n            ORDER BY bm25(threads_fts)\n            LIMIT ?\n            ");
    SqlQuery { sql, params }
}

/// The literal `LIKE` query of a thread search.
pub fn thread_like_literal_query(original_query: &str, limit: usize, filters: &ThreadSearchFilters) -> (r: SqlQuery)
    ensures
        r.sql@ == statement("\n            SELECT session_id, title, cwd, path, message_count, event_count, aggregate_text, started_at\n            FROM threads\n            WHERE "@, seq![thread_like_cond()] + thread_filter_conds(*filters, ""@), "\n            ORDER BY started_at DESC\n            LIMIT ?\n            "@),
        param_views(r.params@) == four_patterns(original_query@) + thread_filter_params(*filters)
            + seq![ParamView::Integer(limit as i64)],
{
    let mut conditions: Vec<String> = vec!["(\n                    lower(title) LIKE lower(?) ESCAPE '\\'\n                    OR lower(ifnull(cwd, '')) LIKE lower(?) ESCAPE '\\'\n                    OR lower(path) LIKE lower(?) ESCAPE '\\'\n                    OR lower(aggregate_text) LIKE lower(?) ESCAPE '\\'\n                )".to_owned()];
    let pattern = like_pattern(original_query);
    let mut params: Vec<SqlValue> = vec![
        SqlValue::Text(pattern.clone()),
        SqlValue::Text(pattern.clone()),
        SqlValue::Text(pattern.clone()),
        SqlValue::Text(pattern),
    ];
    assert(str_views(conditions@) =~= seq![thread_like_cond()]);
    assert(param_views(params@) =~= four_patterns(original_query@));
    push_thread_filter_conditions(&mut conditions, &mut params, filters, "");
    push_limit(&mut params, limit);
    let sql = build_statement("\n            SELECT session_id, title, cwd, path, message_count, event_count, aggregate_text, started_at\n            FROM threads\n            WHERE ", &conditions, "\n            ORDER BY started_at DESC\n            LIMIT ?\n            ");
    SqlQuery { sql, params }
}

/// The conditions for terms: one `cond` per term.
pub open spec fn per_term(terms: Seq<Seq<char>>, cond: Seq<char>) -> Seq<Seq<char>> {
    Seq::new(terms.len(), |i: int| cond)
}

/// The parameters for terms: `k` copies of each term's pattern.
pub open spec fn term_patterns(terms: Seq<Seq<char>>, k: nat) -> Seq<ParamView>
    decreases terms.len(),
{
    if terms.len() == 0 {
        seq![]
    } else {
        term_patterns(terms.drop_last(), k) + Seq::new(k, |i: int| ParamView::Text(like_pat(terms.last())))
    }
}

/// Appends `cond` and `k` copies of each term's pattern, per term.
fn push_term_conditions(
    conditions: &mut Vec<String>,
    params: &mut Vec<SqlValue>,
    terms: &[String],
    cond: &str,
    k: usize,
)
    requires
        old(conditions)@.len() == 0,
        old(params)@.len() == 0,
    ensures
        str_views(final(conditions)@) == per_term(crate::search_meta::views(terms@), cond@),
        param_views(final(params)@) == term_patterns(crate::search_meta::views(terms@), k as nat),
{
    let ghost tv = crate::search_meta::views(terms@);
    let mut i: usize = 0;
    while i < terms.len()
        invariant
            i <= terms.len(),
            tv == crate::search_meta::views(terms@),
            str_views(conditions@) == per_term(tv.take(i as int), cond@),
            param_views(params@) == term_patterns(tv.take(i as int), k as nat),
        decreases terms.len() - i,
    {
        let ghost c0 = str_views(conditions@);
        let ghost p0 = param_views(params@);
        conditions.push(cond.to_owned());
        assert(str_views(conditions@) =~= c0.push(cond@));
        let ghost c1 = str_views(conditions@);
        let pattern = like_pattern(terms[i].as_str());
        let mut j: usize = 0;
        while j < k
            invariant
                j <= k,
                param_views(params@) == p0 + Seq::new(j as nat, |x: int| ParamView::Text(like_pat(tv[i as int]))),
                tv == crate::search_meta::views(terms@),
                i < terms.len(),
                pattern@ == like_pat(terms@[i as int]@),
            decreases k - j,
        {
            let ghost pj = param_views(params@);
            params.push(SqlValue::Text(pattern.clone()));
            assert(param_views(params@) =~= pj.push(ParamView::Text(pattern@)));
            assert(p0 + Seq::new((j + 1) as nat, |x: int| ParamView::Text(like_pat(tv[i as int]))) =~= (p0
                + Seq::new(j as nat, |x: int| ParamView::Text(like_pat(tv[i as int])))).push(
                ParamView::Text(like_pat(tv[i as int])),
            ));
            j += 1;
        }
        assert(tv.take(i + 1 as int).drop_last() =~= tv.take(i as int));
        assert(tv.take(i + 1 as int).last() == tv[i as int]);
        assert(per_term(tv.take(i + 1 as int), cond@) =~= per_term(tv.take(i as int), cond@).push(cond@));
        assert(str_views(conditions@) == c1);
        assert(str_views(conditions@) =~= per_term(tv.take(i + 1 as int), cond@));
        i += 1;
    }
    assert(tv.take(terms.len() as int) =~= tv);
}

/// The `LIKE` query of a thread search by terms: every term held somewhere.
pub fn thread_like_terms_query(query_terms: &[String], limit: usize, filters: &ThreadSearchFilters) -> (r: SqlQuery)
    ensures
        r.sql@ == statement(
            "\n            SELECT session_id, title, cwd, path, message_count, event_count, aggregate_text, started_at\n            FROM threads\n            WHERE "@,
            per_term(crate::search_meta::views(query_terms@), thread_like_cond()) + thread_filter_conds(*filters, ""@),
            "\n            ORDER BY started_at DESC\n            LIMIT ?\n            "@,
        ),
        param_views(r.params@) == term_patterns(crate::search_meta::views(query_terms@), 4)
            + thread_filter_params(*filters) + seq![ParamView::Integer(limit as i64)],
{
    let mut conditions: Vec<String> = Vec::new();
    let mut params: Vec<SqlValue> = Vec::new();
    push_term_conditions(&mut conditions, &mut params, query_terms, "(\n                    lower(title) LIKE lower(?) ESCAPE '\\'\n                    OR lower(ifnull(cwd, '')) LIKE lower(?) ESCAPE '\\'\n                    OR lower(path) LIKE lower(?) ESCAPE '\\'\n                    OR lower(aggregate_text) LIKE lower(?) ESCAPE '\\'\n                )", 4);
    push_thread_filter_conditions(&mut conditions, &mut params, filters, "");
    push_limit(&mut params, limit);
    let sql = build_statement("\n            SELECT session_id, title, cwd, path, message_count, event_count, aggregate_text, started_at\n            FROM threads\n            WHERE ", &conditions, "\n            ORDER BY started_at DESC\n            LIMIT ?\n            ");
    SqlQuery { sql, params }
}

/// The `LIKE` condition of a message search term.
pub open spec fn message_like_cond() -> Seq<char> {
    "lower(m.text) LIKE lower(?) ESCAPE '\\'"@
}

/// The full-text query of a message search.
pub fn message_fts_query(query: &str, limit: usize, filters: &MessageSearchFilters) -> (r: SqlQuery)
    ensures
        r.sql@ == statement(
            "\n            SELECT\n                m.session_id,\n                t.title,\n                m.timestamp,\n                m.role,\n                m.text,\n                snippet(messages_fts, 2, '[', ']', '…', 12)\n            FROM messages_fts\n            JOIN messages m ON m.id = messages_fts.rowid\n            LEFT JOIN threads t ON t.session_id = m.session_id\n            WHERE "@,
            seq!["messages_fts MATCH ?"@] + message_filter_conds(*filters, "m"@),
            "\n            ORDER BY bm25(messages_fts)\n            LIMIT ?\n            "@,
        ),
        param_views(r.params@) == seq![ParamView::Text(query@)] + message_filter_params(*filters)
            + seq![ParamView::Integer(limit as i64)],
{
    let mut conditions: Vec<String> = vec!["messages_fts MATCH ?".to_owned()];
    let mut params: Vec<SqlValue> = vec![SqlValue::Text(query.to_owned())];
    assert(str_views(conditions@) =~= seq!["messages_fts MATCH ?"@]);
    assert(param_views(params@) =~= seq![ParamView::Text(query@)]);
    push_message_filter_conditions(&mut conditions, &mut params, filters, "m");
    push_limit(&mut params, limit);
    let sql = build_statement("\n            SELECT\n                m.session_id,\n                t.title,\n                m.timestamp,\n                m.role,\n                m.text,\n                snippet(messages_fts, 2, '[', ']', '…', 12)\n            FROM messages_fts\n            JOIN messages m ON m.id = messages_fts.rowid\n            LEFT JOIN threads t ON t.session_id = m.session_id\n            WHERE ", &conditions, "\n            ORDER BY bm25(messages_fts)\n            LIMIT ?\n            ");
    SqlQuery { sql, params }
}

/// The literal `LIKE` query of a message search.
pub fn message_like_literal_query(original_query: &str, limit: usize, filters: &MessageSearchFilters) -> (r: SqlQuery)
    ensures
        r.sql@ == statement("\n            SELECT m.session_id, t.title, m.timestamp, m.role, m.text\n            FROM messages m\n            LEFT JOIN threads t ON t.session_id = m.session_id\n            WHERE "@, seq![message_like_cond()] + message_filter_conds(*filters, "m"@), "\n            ORDER BY m.timestamp DESC\n            LIMIT ?\n            "@),
        param_views(r.params@) == seq![ParamView::Text(like_pat(original_query@))] + message_filter_params(
            *filters,
        ) + seq![ParamView::Integer(limit as i64)],
{
    let mut conditions: Vec<String> = vec!["lower(m.text) LIKE lower(?) ESCAPE '\\'".to_owned()];
    let mut params: Vec<SqlValue> = vec![SqlValue::Text(like_pattern(original_query))];
    assert(str_views(conditions@) =~= seq![message_like_cond()]);
    assert(param_views(params@) =~= seq![ParamView::Text(like_pat(original_query@))]);
    push_message_filter_conditions(&mut conditions, &mut params, filters, "m");
    push_limit(&mut params, limit);
    let sql = build_statement("\n            SELECT m.session_id, t.title, m.timestamp, m.role, m.text\n            FROM messages m\n            LEFT JOIN threads t ON t.session_id = m.session_id\n            WHERE ", &conditions, "\n            ORDER BY m.timestamp DESC\n            LIMIT ?\n            ");
    SqlQuery { sql, params }
}

/// The `LIKE` query of a message search by terms.
pub fn message_like_terms_query(query_terms: &[String], limit: usize, filters: &MessageSearchFilters) -> (r: SqlQuery)
    ensures
        r.sql@ == statement(
            "\n            SELECT m.session_id, t.title, m.timestamp, m.role, m.text\n            FROM messages m\n            LEFT JOIN threads t ON t.session_id = m.session_id\n            WHERE "@,
            per_term(crate::search_meta::views(query_terms@), message_like_cond()) + message_filter_conds(*filters, "m"@),
            "\n            ORDER BY m.timestamp DESC\n            LIMIT ?\n            "@,
        ),
        param_views(r.params@) == term_patterns(crate::search_meta::views(query_terms@), 1)
            + message_filter_params(*filters) + seq![ParamView::Integer(limit as i64)],
{
    let mut conditions: Vec<String> = Vec::new();
    let mut params: Vec<SqlValue> = Vec::new();
    push_term_conditions(&mut conditions, &mut params, query_terms, "lower(m.text) LIKE lower(?) ESCAPE '\\'", 1);
    push_message_filter_conditions(&mut conditions, &mut params, filters, "m");
    push_limit(&mut params, limit);
    let sql = build_statement("\n            SELECT m.session_id, t.title, m.timestamp, m.role, m.text\n            FROM messages m\n            LEFT JOIN threads t ON t.session_id = m.session_id\n            WHERE ", &conditions, "\n            ORDER BY m.timestamp DESC\n            LIMIT ?\n            ");
    SqlQuery { sql, params }
}

/// The `LIKE` condition of an event search term: type or summary holds it.
pub open spec fn event_like_cond() -> Seq<char> {
    "(lower(e.event_type) LIKE lower(?) ESCAPE '\\' OR lower(e.summary) LIKE lower(?) ESCAPE '\\')"@
}

/// The full-text query of an event search.
pub fn event_fts_query(query: &str, limit: usize, filters: &EventSearchFilters) -> (r: SqlQuery)
    ensures
        r.sql@ == statement(
            "\n            SELECT\n                e.session_id,\n                t.title,\n                e.timestamp,\n                e.event_type,\n                e.summary,\n                snippet(events_fts, 2, '[', ']', '…', 12)\n            FROM events_fts\n            JOIN events e ON e.id = events_fts.rowid\n            LEFT JOIN threads t ON t.session_id = e.session_id\n            WHERE "@,
            seq!["events_fts MATCH ?"@] + event_filter_conds(*filters, "e"@),
            "\n            ORDER BY bm25(events_fts), e.timestamp DESC\n            LIMIT ?\n            "@,
        ),
        param_views(r.params@) == seq![ParamView::Text(query@)] + event_filter_params(*filters)
            + seq![ParamView::Integer(limit as i64)],
{
    let mut conditions: Vec<String> = vec!["events_fts MATCH ?".to_owned()];
    let mut params: Vec<SqlValue> = vec![SqlValue::Text(query.to_owned())];
    assert(str_views(conditions@) =~= seq!["events_fts MATCH ?"@]);
    assert(param_views(params@) =~= seq![ParamView::Text(query@)]);
    push_event_filter_conditions(&mut conditions, &mut params, filters, "e");
    push_limit(&mut params, limit);
    let sql = build_statement("\n            SELECT\n                e.session_id,\n                t.title,\n                e.timestamp,\n                e.event_type,\n                e.summary,\n                snippet(events_fts, 2, '[', ']', '…', 12)\n            FROM events_fts\n            JOIN events e ON e.id = events_fts.rowid\n            LEFT JOIN threads t ON t.session_id = e.session_id\n            WHERE ", &conditions, "\n            ORDER BY bm25(events_fts), e.timestamp DESC\n            LIMIT ?\n            ");
    SqlQuery { sql, params }
}

/// The literal `LIKE` query of an event search.
pub fn event_like_literal_query(original_query: &str, limit: usize, filters: &EventSearchFilters) -> (r: SqlQuery)
    ensures
        r.sql@ == statement("\n            SELECT e.session_id, t.title, e.timestamp, e.event_type, e.summary\n            FROM events e\n            LEFT JOIN threads t ON t.session_id = e.session_id\n            WHERE "@, seq![event_like_cond()] + event_filter_conds(*filters, "e"@), "\n            ORDER BY e.timestamp DESC\n            LIMIT ?\n            "@),
        param_views(r.params@) == seq![
            ParamView::Text(like_pat(original_query@)),
            ParamView::Text(like_pat(original_query@)),
        ] + event_filter_params(*filters) + seq![ParamView::Integer(limit as i64)],
{
    let mut conditions: Vec<String> = vec![
        "(lower(e.event_type) LIKE lower(?) ESCAPE '\\' OR lower(e.summary) LIKE lower(?) ESCAPE '\\')".to_owned(),
    ];
    let pattern = like_pattern(original_query);
    let mut params: Vec<SqlValue> = vec![SqlValue::Text(pattern.clone()), SqlValue::Text(pattern)];
    assert(str_views(conditions@) =~= seq![event_like_cond()]);
    assert(param_views(params@) =~= seq![
        ParamView::Text(like_pat(original_query@)),
        ParamView::Text(like_pat(original_query@)),
    ]);
    push_event_filter_conditions(&mut conditions, &mut params, filters, "e");
    push_limit(&mut params, limit);
    let sql = build_statement("\n            SELECT e.session_id, t.title, e.timestamp, e.event_type, e.summary\n            FROM events e\n            LEFT JOIN threads t ON t.session_id = e.session_id\n            WHERE ", &conditions, "\n            ORDER BY e.timestamp DESC\n            LIMIT ?\n            ");
    SqlQuery { sql, params }
}

/// The `LIKE` query of an event search by terms.
pub fn event_like_terms_query(query_terms: &[String], limit: usize, filters: &EventSearchFilters) -> (r: SqlQuery)
    ensures
        r.sql@ == statement(
            "\n            SELECT e.session_id, t.title, e.timestamp, e.event_type, e.summary\n            FROM events e\n            LEFT JOIN threads t ON t.session_id = e.session_id\n            WHERE "@,
            per_term(crate::search_meta::views(query_terms@), event_like_cond()) + event_filter_conds(*filters, "e"@),
            "\n            ORDER BY e.timestamp DESC\n            LIMIT ?\n            "@,
        ),
        param_views(r.params@) == term_patterns(crate::search_meta::views(query_terms@), 2)
            + event_filter_params(*filters) + seq![ParamView::Integer(limit as i64)],
{
    let mut conditions: Vec<String> = Vec::new();
    let mut params: Vec<SqlValue> = Vec::new();
    push_term_conditions(
        &mut conditions,
        &mut params,
        query_terms,
        "(lower(e.event_type) LIKE lower(?) ESCAPE '\\' OR lower(e.summary) LIKE lower(?) ESCAPE '\\')",
        2,
    );
    push_event_filter_conditions(&mut conditions, &mut params, filters, "e");
    push_limit(&mut params, limit);
    let sql = build_statement("\n            SELECT e.session_id, t.title, e.timestamp, e.event_type, e.summary\n            FROM events e\n            LEFT JOIN threads t ON t.session_id = e.session_id\n            WHERE ", &conditions, "\n            ORDER BY e.timestamp DESC\n            LIMIT ?\n            ");
    SqlQuery { sql, params }
}

} // verus!
