use vstd::prelude::*;

use crate::output::excerpt;
use crate::search_meta::{
    analyze_match, clone_strings, lemma_small_fields_fit, covered_of_views, field_view, field_views, lemma_analysis_by_views,
    any_literal, covered_terms, fallback_score_of, lemma_field_hit_reported, literal_of_views, lower_all,
    matched_names, names_of_views, score_of_views, views,
    SearchBackend, SearchExplain, SearchField, SearchMeta, SearchReport,
};
use crate::sync_types::{opt_string_clone, opt_view};
use crate::text::{
    chars_lt, chars_of, contains_seq, lemma_seq_lt_irreflexive, lemma_seq_lt_total, lemma_seq_lt_transitive,
    seq_lt, spec_to_lowercase, str_lt, trimmed,
};

verus! {

/// A thread found by a search.
#[derive(Debug, Clone)]
pub struct ThreadSearchHit {
    pub session_id: String,
    pub title: String,
    pub cwd: Option<String>,
    pub path: String,
    pub message_count: usize,
    pub event_count: usize,
    pub snippet: String,
    pub explain: SearchExplain,
    pub aggregate_text: String,
    pub started_at: Option<String>,
}

/// A message found by a search.
#[derive(Debug, Clone)]
pub struct MessageSearchHit {
    pub session_id: String,
    pub title: Option<String>,
    pub timestamp: Option<String>,
    pub role: String,
    pub text: String,
    pub snippet: String,
    pub explain: SearchExplain,
}

/// An event found by a search.
#[derive(Debug, Clone)]
pub struct EventSearchHit {
    pub session_id: String,
    pub title: Option<String>,
    pub timestamp: Option<String>,
    pub event_type: String,
    pub summary: String,
    pub snippet: String,
    pub explain: SearchExplain,
}

/// A field view.
pub open spec fn fv(name: Seq<char>, text: Option<Seq<char>>, weight: i64) -> (Seq<char>, Option<Seq<char>>, i64) {
    (name, text, weight)
}

/// The searchable fields of a thread: title (60), cwd (20), path (25) and
/// aggregate text (40).
pub open spec fn thread_field_views(h: ThreadSearchHit) -> Seq<(Seq<char>, Option<Seq<char>>, i64)> {
    seq![
        fv("title"@, Some(h.title@), 60),
        fv("cwd"@, opt_view(h.cwd), 20),
        fv("path"@, Some(h.path@), 25),
        fv("aggregate_text"@, Some(h.aggregate_text@), 40),
    ]
}

/// The searchable field of a message: its text (40).
pub open spec fn message_field_views(h: MessageSearchHit) -> Seq<(Seq<char>, Option<Seq<char>>, i64)> {
    seq![fv("text"@, Some(h.text@), 40)]
}

/// The searchable fields of an event: type (50) and summary (30).
pub open spec fn event_field_views(h: EventSearchHit) -> Seq<(Seq<char>, Option<Seq<char>>, i64)> {
    seq![fv("event_type"@, Some(h.event_type@), 50), fv("summary"@, Some(h.summary@), 30)]
}

/// Fields `analyze_match` can take: few, with bounded weights.
pub open spec fn fields_ok(fs: Seq<SearchField>) -> bool {
    &&& fs.len() <= 0x10_0000
    &&& forall|i: int| 0 <= i < fs.len() ==> -0x100_0000_0000 <= #[trigger] fs[i].weight <= 0x100_0000_0000
}

/// The searchable fields of a thread.
pub fn thread_search_fields<'a>(hit: &'a ThreadSearchHit) -> (r: Vec<SearchField<'a>>)
    ensures
        field_views(r@) == thread_field_views(*hit),
        fields_ok(r@),
{
    let cwd: Option<&'a str> = match &hit.cwd {
        Some(c) => Some(c.as_str()),
        None => None,
    };
    let r = vec![
        SearchField { name: "title", text: Some(hit.title.as_str()), weight: 60 },
        SearchField { name: "cwd", text: cwd, weight: 20 },
        SearchField { name: "path", text: Some(hit.path.as_str()), weight: 25 },
        SearchField { name: "aggregate_text", text: Some(hit.aggregate_text.as_str()), weight: 40 },
    ];
    assert(field_views(r@) =~= thread_field_views(*hit));
    r
}

/// The searchable field of a message.
pub fn message_search_fields<'a>(hit: &'a MessageSearchHit) -> (r: Vec<SearchField<'a>>)
    ensures
        field_views(r@) == message_field_views(*hit),
        fields_ok(r@),
{
    let r = vec![SearchField { name: "text", text: Some(hit.text.as_str()), weight: 40 }];
    assert(field_views(r@) =~= message_field_views(*hit));
    r
}

/// The searchable fields of an event.
pub fn event_search_fields<'a>(hit: &'a EventSearchHit) -> (r: Vec<SearchField<'a>>)
    ensures
        field_views(r@) == event_field_views(*hit),
        fields_ok(r@),
{
    let r = vec![
        SearchField { name: "event_type", text: Some(hit.event_type.as_str()), weight: 50 },
        SearchField { name: "summary", text: Some(hit.summary.as_str()), weight: 30 },
    ];
    assert(field_views(r@) =~= event_field_views(*hit));
    r
}

/// The order of a ranking: higher score first, then later time first (a
/// missing time last), then session id.
pub struct RankKey {
    pub score: i64,
    pub when: Option<String>,
    pub id: String,
}

/// A rank key as values.
pub open spec fn key_view(k: RankKey) -> (int, Option<Seq<char>>, Seq<char>) {
    (k.score as int, opt_view(k.when), k.id@)
}

/// Order of optional texts: absent first, then by text.
pub open spec fn opt_lt(a: Option<Seq<char>>, b: Option<Seq<char>>) -> bool {
    match (a, b) {
        (None, Some(_)) => true,
        (Some(x), Some(y)) => seq_lt(x, y),
        _ => false,
    }
}

/// Whether a hit with key `a` is ranked before one with key `b`.
pub open spec fn key_before(a: (int, Option<Seq<char>>, Seq<char>), b: (int, Option<Seq<char>>, Seq<char>)) -> bool {
    a.0 > b.0 || (a.0 == b.0 && (opt_lt(b.1, a.1) || (a.1 == b.1 && seq_lt(a.2, b.2))))
}

proof fn lemma_key_order(
    a: (int, Option<Seq<char>>, Seq<char>),
    b: (int, Option<Seq<char>>, Seq<char>),
    c: (int, Option<Seq<char>>, Seq<char>),
)
    ensures
        !key_before(a, a),
        key_before(a, b) && key_before(b, c) ==> key_before(a, c),
        !key_before(a, b) && !key_before(b, a) ==> a == b,
{
    lemma_seq_lt_irreflexive(a.2);
    if a.1 is Some {
        lemma_seq_lt_irreflexive(a.1.unwrap());
    }
    if key_before(a, b) && key_before(b, c) {
        if a.1 is Some && b.1 is Some && c.1 is Some && seq_lt(c.1.unwrap(), b.1.unwrap()) && seq_lt(
            b.1.unwrap(),
            a.1.unwrap(),
        ) {
            lemma_seq_lt_transitive(c.1.unwrap(), b.1.unwrap(), a.1.unwrap());
        }
        if seq_lt(a.2, b.2) && seq_lt(b.2, c.2) {
            lemma_seq_lt_transitive(a.2, b.2, c.2);
        }
    }
    if !key_before(a, b) && !key_before(b, a) {
        lemma_seq_lt_total(a.2, b.2);
        if a.1 is Some && b.1 is Some {
            lemma_seq_lt_total(a.1.unwrap(), b.1.unwrap());
        }
    }
}

/// Whether `a` is ranked before `b`.
fn rank_before(a: &RankKey, b: &RankKey) -> (r: bool)
    ensures
        r == key_before(key_view(*a), key_view(*b)),
{
    if a.score != b.score {
        return a.score > b.score;
    }
    match (&a.when, &b.when) {
        (Some(x), Some(y)) => {
            if str_lt(y.as_str(), x.as_str()) {
                return true;
            }
            if !(*x == *y) {
                return false;
            }
        },
        (Some(_), None) => {
            return true;
        },
        (None, Some(_)) => {
            return false;
        },
        (None, None) => {},
    }
    str_lt(a.id.as_str(), b.id.as_str())
}

/// `order` lists each position below `n` once.
pub open spec fn is_order(order: Seq<usize>, n: nat) -> bool {
    &&& order.len() == n
    &&& order.no_duplicates()
    &&& forall|k: int| 0 <= k < order.len() ==> #[trigger] order[k] < n
}

/// `order` ranks the keys: no key comes after one ranked below it, and equal
/// keys keep the order of their positions (a stable sort).
pub open spec fn ranks(keys: Seq<(int, Option<Seq<char>>, Seq<char>)>, order: Seq<usize>) -> bool {
    forall|i: int, j: int|
        0 <= i < j < order.len() ==> {
            &&& !key_before(keys[#[trigger] order[j] as int], keys[#[trigger] order[i] as int])
            &&& (keys[order[i] as int] == keys[order[j] as int] ==> order[i] < order[j])
        }
}

/// The views of keys.
pub open spec fn key_views(keys: Seq<RankKey>) -> Seq<(int, Option<Seq<char>>, Seq<char>)> {
    keys.map_values(|k: RankKey| key_view(k))
}

/// The positions of the keys in ranking order; equal keys keep their order.
pub fn rank_order(keys: &Vec<RankKey>) -> (order: Vec<usize>)
    ensures
        is_order(order@, keys.len() as nat),
        ranks(key_views(keys@), order@),
{
    let ghost kv = key_views(keys@);
    let mut order: Vec<usize> = Vec::new();
    let mut i: usize = 0;
    while i < keys.len()
        invariant
            i <= keys.len(),
            kv == key_views(keys@),
            is_order(order@, i as nat),
            ranks(kv, order@),
        decreases keys.len() - i,
    {
        let mut j: usize = 0;
        while j < order.len() && !rank_before(&keys[i], &keys[order[j]])
            invariant
                j <= order.len(),
                i < keys.len(),
                kv == key_views(keys@),
                is_order(order@, i as nat),
                forall|k: int| 0 <= k < j ==> !key_before(kv[i as int], kv[#[trigger] order@[k] as int]),
            decreases order.len() - j,
        {
            assert(order@[j as int] < i);
            j += 1;
        }
        let ghost old_order = order@;
        order.insert(j, i);
        proof {
            assert(order@ == old_order.insert(j as int, i));
            assert forall|p: int, q: int| 0 <= p < q < order@.len() implies {
                &&& !key_before(kv[#[trigger] order@[q] as int], kv[#[trigger] order@[p] as int])
                &&& (kv[order@[p] as int] == kv[order@[q] as int] ==> order@[p] < order@[q])
            } by {
                if q < j {
                    assert(order@[p] == old_order[p] && order@[q] == old_order[q]);
                } else if q == j {
                    assert(order@[p] == old_order[p]);
                    assert(old_order[p] < i);
                } else if p < j {
                    assert(order@[p] == old_order[p] && order@[q] == old_order[q - 1]);
                } else if p == j {
                    assert(order@[q] == old_order[q - 1]);
                    assert(key_before(kv[i as int], kv[old_order[j as int] as int]));
                    lemma_key_order(kv[old_order[q - 1] as int], kv[i as int], kv[old_order[j as int] as int]);
                    if q - 1 > j {
                        assert(!key_before(kv[old_order[q - 1] as int], kv[old_order[j as int] as int]));
                    }
                    lemma_key_order(kv[old_order[j as int] as int], kv[i as int], kv[old_order[j as int] as int]);
                } else {
                    assert(order@[p] == old_order[p - 1] && order@[q] == old_order[q - 1]);
                }
            }
            assert forall|k: int| 0 <= k < order@.len() implies #[trigger] order@[k] < i + 1 by {
                if k < j {
                    assert(order@[k] == old_order[k]);
                } else if k > j {
                    assert(order@[k] == old_order[k - 1]);
                }
            }
            assert forall|a: int, b: int| 0 <= a < b < order@.len() implies order@[a] != order@[b] by {
                if a < j && b < j {
                    assert(order@[a] == old_order[a] && order@[b] == old_order[b]);
                } else if a < j && b == j {
                    assert(order@[a] == old_order[a]);
                } else if a < j && b > j {
                    assert(order@[a] == old_order[a] && order@[b] == old_order[b - 1]);
                } else if a == j {
                    assert(order@[b] == old_order[b - 1]);
                } else {
                    assert(order@[a] == old_order[a - 1] && order@[b] == old_order[b - 1]);
                }
            }
        }
        i += 1;
    }
    order
}

/// The positions below `n` in their order.
fn identity_order(n: usize) -> (order: Vec<usize>)
    ensures
        is_order(order@, n as nat),
        forall|k: int| 0 <= k < n ==> order@[k] == k,
{
    let mut order: Vec<usize> = Vec::new();
    let mut i: usize = 0;
    while i < n
        invariant
            i <= n,
            order@.len() == i,
            forall|k: int| 0 <= k < i ==> order@[k] == k,
        decreases n - i,
    {
        order.push(i);
        i += 1;
    }
    order
}

/// `e` explains a hit with fields `v` at `rank` for the query.
pub open spec fn explains(
    e: SearchExplain,
    query: Seq<char>,
    terms: Seq<Seq<char>>,
    v: Seq<(Seq<char>, Option<Seq<char>>, i64)>,
    rank: int,
) -> bool {
    &&& e.rank == rank
    &&& views(e.matched_fields@) == names_of_views(query, terms, v)
    &&& e.literal_match == literal_of_views(query, v)
    &&& e.matched_terms == covered_of_views(query, terms, v)
}

/// A hit's field `name` with text `text` is reported as `e` says: when its
/// lower-cased text holds the lower-cased trimmed query, the match is literal
/// and the field is among the matching ones; when it holds some lower-cased
/// term, the field is among the matching ones; when it holds every term
/// (and there are terms), every term counts as covered.
pub open spec fn reports_field(
    query: Seq<char>,
    terms: Seq<Seq<char>>,
    text: Seq<char>,
    name: Seq<char>,
    e: SearchExplain,
) -> bool {
    let lq = spec_to_lowercase(trimmed(query));
    let lt = spec_to_lowercase(text);
    let lts = lower_all(terms);
    &&& (lq.len() > 0 && contains_seq(lt, lq)) ==> e.literal_match && views(e.matched_fields@).contains(name)
    &&& (exists|j: int| 0 <= j < lts.len() && contains_seq(lt, #[trigger] lts[j])) ==> views(
        e.matched_fields@,
    ).contains(name)
    &&& (terms.len() > 0 && forall|j: int| 0 <= j < lts.len() ==> contains_seq(lt, #[trigger] lts[j]))
        ==> e.matched_terms == terms.len()
}

/// What the analysis of fields `fs` says of the field `name` with text
/// `text` and weight `w`: when its lower-cased text holds the lower-cased
/// trimmed query, the match is literal, the field is named among the
/// matching ones and the score is at least `w`; when it holds some
/// lower-cased term, the field is named and the score is at least `w`; when
/// it holds every term (and there are terms), every term is covered.
pub open spec fn analysis_reports_field(
    query: Seq<char>,
    terms: Seq<Seq<char>>,
    fs: Seq<SearchField>,
    text: Seq<char>,
    name: Seq<char>,
    w: int,
) -> bool {
    let lq = spec_to_lowercase(trimmed(query));
    let lt = spec_to_lowercase(text);
    let lts = lower_all(terms);
    &&& (lq.len() > 0 && contains_seq(lt, lq)) ==> {
        &&& any_literal(lq, fs)
        &&& matched_names(lq, lts, fs).contains(name)
        &&& fallback_score_of(query, terms, fs) >= w
    }
    &&& (exists|j: int| 0 <= j < lts.len() && contains_seq(lt, #[trigger] lts[j])) ==> {
        &&& matched_names(lq, lts, fs).contains(name)
        &&& fallback_score_of(query, terms, fs) >= w
    }
    &&& (terms.len() > 0 && forall|j: int| 0 <= j < lts.len() ==> contains_seq(lt, #[trigger] lts[j]))
        ==> covered_terms(query, terms, fs) == terms.len()
}

/// A thread is matched through its title (weight 60), its working directory
/// (20, when it has one), its path (25) and its aggregate (message) text
/// (40): when one of them holds the query or a term, the analysis of the
/// thread's fields names it among the matching fields and the score includes
/// its weight; when one holds every term, every term is covered.
pub proof fn lemma_thread_fields_reported(query: Seq<char>, terms: Seq<Seq<char>>, h: ThreadSearchHit, fs: Seq<SearchField>)
    requires
        field_views(fs) == thread_field_views(h),
    ensures
        analysis_reports_field(query, terms, fs, h.aggregate_text@, "aggregate_text"@, 40),
        analysis_reports_field(query, terms, fs, h.title@, "title"@, 60),
        analysis_reports_field(query, terms, fs, h.path@, "path"@, 25),
        h.cwd matches Some(c) ==> analysis_reports_field(query, terms, fs, c@, "cwd"@, 20),
{
    assert(field_views(fs).len() == 4);
    assert forall|k: int| 0 <= k < fs.len() implies #[trigger] fs[k].weight >= 0 by {
        assert(field_views(fs)[k] == field_view(fs[k]));
    }
    assert(field_views(fs)[0] == field_view(fs[0]));
    assert(field_views(fs)[1] == field_view(fs[1]));
    assert(field_views(fs)[2] == field_view(fs[2]));
    assert(field_views(fs)[3] == field_view(fs[3]));
    lemma_field_hit_reported(query, terms, fs, 0);
    if h.cwd is Some {
        lemma_field_hit_reported(query, terms, fs, 1);
    }
    lemma_field_hit_reported(query, terms, fs, 2);
    lemma_field_hit_reported(query, terms, fs, 3);
}

/// An event is matched through its type (weight 50) and its summary (30):
/// when one of them holds the query or a term, the analysis of the event's
/// fields names it among the matching fields and the score includes its
/// weight; when one holds every term, every term is covered.
pub proof fn lemma_event_fields_reported(query: Seq<char>, terms: Seq<Seq<char>>, h: EventSearchHit, fs: Seq<SearchField>)
    requires
        field_views(fs) == event_field_views(h),
    ensures
        analysis_reports_field(query, terms, fs, h.summary@, "summary"@, 30),
        analysis_reports_field(query, terms, fs, h.event_type@, "event_type"@, 50),
{
    assert(field_views(fs).len() == 2);
    assert forall|k: int| 0 <= k < fs.len() implies #[trigger] fs[k].weight >= 0 by {
        assert(field_views(fs)[k] == field_view(fs[k]));
    }
    assert(field_views(fs)[0] == field_view(fs[0]));
    assert(field_views(fs)[1] == field_view(fs[1]));
    lemma_field_hit_reported(query, terms, fs, 0);
    lemma_field_hit_reported(query, terms, fs, 1);
}

/// A message is matched through its text (weight 40): when the text holds
/// the query or a term, the analysis of the message's field names `text` and
/// the score includes its weight; when it holds every term, every term is
/// covered.
pub proof fn lemma_message_text_reported(
    query: Seq<char>,
    terms: Seq<Seq<char>>,
    h: MessageSearchHit,
    fs: Seq<SearchField>,
)
    requires
        field_views(fs) == message_field_views(h),
    ensures
        analysis_reports_field(query, terms, fs, h.text@, "text"@, 40),
{
    assert(field_views(fs).len() == 1);
    assert forall|k: int| 0 <= k < fs.len() implies #[trigger] fs[k].weight >= 0 by {
        assert(field_views(fs)[k] == field_view(fs[k]));
    }
    assert(field_views(fs)[0] == field_view(fs[0]));
    lemma_field_hit_reported(query, terms, fs, 0);
}

/// The fallback score of a message text: its one field, `text`, of weight 40.
pub open spec fn text_field_score(query: Seq<char>, terms: Seq<Seq<char>>, text: Seq<char>) -> int {
    score_of_views(query, terms, seq![("text"@, Some(text), 40i64)])
}

/// Down a ranking, the score never rises, and among equal scores the time
/// never rises (a missing time comes last): a hit ranked before another has
/// at least its score, and with the same score is not earlier.
pub proof fn lemma_ranked_scores(keys: Seq<(int, Option<Seq<char>>, Seq<char>)>, order: Seq<usize>, i: int, j: int)
    requires
        ranks(keys, order),
        0 <= i < j < order.len(),
    ensures
        keys[order[i] as int].0 >= keys[order[j] as int].0,
        keys[order[i] as int].0 == keys[order[j] as int].0 ==> !opt_lt(keys[order[i] as int].1, keys[order[j] as int].1),
{
    assert(!key_before(keys[order[j] as int], keys[order[i] as int]));
}

/// The number of hits a report keeps.
pub open spec fn kept(n: nat, limit: usize) -> nat {
    if n < limit {
        n
    } else {
        limit as nat
    }
}

/// The analysis bounds `analyze_match` needs, for a list of terms.
pub open spec fn terms_ok(terms: Seq<String>) -> bool {
    terms.len() <= 0x100_0000_0000
}

// ---------------------------------------------------------------- threads

/// The rank key of a thread: its fallback score, start time and session id.
pub open spec fn thread_key(query: Seq<char>, terms: Seq<Seq<char>>, h: ThreadSearchHit) -> (int, Option<Seq<char>>, Seq<char>) {
    (score_of_views(query, terms, thread_field_views(h)), opt_view(h.started_at), h.session_id@)
}

/// Two threads agree but for their explanation.
pub open spec fn same_thread(a: ThreadSearchHit, b: ThreadSearchHit) -> bool {
    &&& a.session_id@ == b.session_id@
    &&& a.title@ == b.title@
    &&& opt_view(a.cwd) == opt_view(b.cwd)
    &&& a.path@ == b.path@
    &&& a.message_count == b.message_count
    &&& a.event_count == b.event_count
    &&& a.snippet@ == b.snippet@
    &&& a.aggregate_text@ == b.aggregate_text@
    &&& opt_view(a.started_at) == opt_view(b.started_at)
}

/// A copy of a thread hit with another explanation.
fn thread_with_explain(h: &ThreadSearchHit, explain: SearchExplain) -> (r: ThreadSearchHit)
    ensures
        same_thread(r, *h),
        r.explain == explain,
{
    ThreadSearchHit {
        session_id: h.session_id.clone(),
        title: h.title.clone(),
        cwd: opt_string_clone(&h.cwd),
        path: h.path.clone(),
        message_count: h.message_count,
        event_count: h.event_count,
        snippet: h.snippet.clone(),
        explain,
        aggregate_text: h.aggregate_text.clone(),
        started_at: opt_string_clone(&h.started_at),
    }
}

/// The report of a thread search: with `LIKE`, the hits ranked by
/// `thread_key`; with FTS, in the order found; at most `limit` of them, each
/// explained at its rank (from 1).
pub fn finalize_thread_search_report(
    results: Vec<ThreadSearchHit>,
    search: SearchMeta,
    query: &str,
    query_terms: &[String],
    limit: usize,
) -> (r: SearchReport<ThreadSearchHit>)
    requires
        terms_ok(query_terms@),
    ensures
        r.search == search,
        r.results@.len() == kept(results@.len(), limit),
        exists|order: Seq<usize>|
            {
                &&& is_order(order, results@.len())
                &&& (search.backend == SearchBackend::Like ==> ranks(
                    results@.map_values(|h: ThreadSearchHit| thread_key(query@, views(query_terms@), h)),
                    order,
                ))
                &&& (search.backend == SearchBackend::Fts ==> forall|k: int|
                    0 <= k < order.len() ==> order[k] == k)
                &&& forall|k: int|
                    0 <= k < r.results@.len() ==> {
                        &&& same_thread(#[trigger] r.results@[k], results@[order[k] as int])
                        &&& explains(
                            r.results@[k].explain,
                            query@,
                            views(query_terms@),
                            thread_field_views(r.results@[k]),
                            k + 1,
                        )
                    }
            },
        forall|k: int|
            0 <= k < r.results@.len() ==> {
                &&& reports_field(
                    query@,
                    views(query_terms@),
                    (#[trigger] r.results@[k]).aggregate_text@,
                    "aggregate_text"@,
                    r.results@[k].explain,
                )
                &&& reports_field(query@, views(query_terms@), r.results@[k].title@, "title"@, r.results@[k].explain)
                &&& reports_field(query@, views(query_terms@), r.results@[k].path@, "path"@, r.results@[k].explain)
                &&& r.results@[k].cwd matches Some(c) ==> reports_field(
                    query@,
                    views(query_terms@),
                    c@,
                    "cwd"@,
                    r.results@[k].explain,
                )
            },
        search.backend == SearchBackend::Like ==> forall|i: int, j: int|
            0 <= i < j < r.results@.len() ==> {
                let si = score_of_views(query@, views(query_terms@), thread_field_views(#[trigger] r.results@[i]));
                let sj = score_of_views(query@, views(query_terms@), thread_field_views(#[trigger] r.results@[j]));
                &&& si >= sj
                &&& si == sj ==> !opt_lt(opt_view(r.results@[i].started_at), opt_view(r.results@[j].started_at))
            },
{
    let ghost tv = views(query_terms@);
    let ghost keyf = |h: ThreadSearchHit| thread_key(query@, tv, h);
    let order = if search.backend == SearchBackend::Like {
        let mut keys: Vec<RankKey> = Vec::new();
        let mut i: usize = 0;
        while i < results.len()
            invariant
                i <= results.len(),
                terms_ok(query_terms@),
                tv == views(query_terms@),
                keys@.len() == i,
                forall|k: int| 0 <= k < i ==> key_view(#[trigger] keys@[k]) == thread_key(query@, tv, results@[k]),
            decreases results.len() - i,
        {
            let fields = thread_search_fields(&results[i]);
            proof {
                lemma_small_fields_fit(query@, views(query_terms@), fields@);
            }
            let a = analyze_match(query, query_terms, fields.as_slice(), 0);
            proof {
                lemma_analysis_by_views(query@, tv, fields@);
            }
            keys.push(RankKey { score: a.fallback_score, when: opt_string_clone(&results[i].started_at), id: results[i].session_id.clone() });
            i += 1;
        }
        let order = rank_order(&keys);
        proof {
            assert(key_views(keys@) =~= results@.map_values(keyf));
        }
        order
    } else {
        identity_order(results.len())
    };
    let n: usize = if results.len() < limit {
        results.len()
    } else {
        limit
    };
    let mut out: Vec<ThreadSearchHit> = Vec::new();
    let mut k: usize = 0;
    while k < n
        invariant
            k <= n,
            n == kept(results@.len(), limit),
            terms_ok(query_terms@),
            tv == views(query_terms@),
            is_order(order@, results@.len()),
            out@.len() == k,
            forall|m: int|
                0 <= m < k ==> {
                    &&& same_thread(#[trigger] out@[m], results@[order@[m] as int])
                    &&& explains(out@[m].explain, query@, tv, thread_field_views(out@[m]), m + 1)
                    &&& reports_field(query@, tv, out@[m].aggregate_text@, "aggregate_text"@, out@[m].explain)
                    &&& reports_field(query@, tv, out@[m].title@, "title"@, out@[m].explain)
                    &&& reports_field(query@, tv, out@[m].path@, "path"@, out@[m].explain)
                    &&& out@[m].cwd matches Some(c) ==> reports_field(query@, tv, c@, "cwd"@, out@[m].explain)
                },
        decreases n - k,
    {
        let h = &results[order[k]];
        let fields = thread_search_fields(h);
        proof {
            lemma_small_fields_fit(query@, views(query_terms@), fields@);
        }
        let a = analyze_match(query, query_terms, fields.as_slice(), k + 1);
        proof {
            lemma_analysis_by_views(query@, tv, fields@);
            assert(field_views(fields@).len() == 4);
            assert(field_views(fields@)[0] == thread_field_views(*h)[0]);
            assert(field_views(fields@)[0] == field_view(fields@[0]));
            assert(field_views(fields@)[2] == field_view(fields@[2]));
            assert(field_views(fields@)[3] == field_view(fields@[3]));
            assert(field_views(fields@)[1] == field_view(fields@[1]));
            lemma_field_hit_reported(query@, tv, fields@, 0);
            if h.cwd is Some {
                lemma_field_hit_reported(query@, tv, fields@, 1);
            }
            lemma_field_hit_reported(query@, tv, fields@, 2);
            lemma_field_hit_reported(query@, tv, fields@, 3);
        }
        let hit = thread_with_explain(h, a.explain);
        assert(thread_field_views(hit) == thread_field_views(*h));
        out.push(hit);
        k += 1;
    }
    proof {
        if search.backend == SearchBackend::Like {
            assert forall|i: int, j: int| 0 <= i < j < out@.len() implies {
                let si = score_of_views(query@, tv, thread_field_views(#[trigger] out@[i]));
                let sj = score_of_views(query@, tv, thread_field_views(#[trigger] out@[j]));
                &&& si >= sj
                &&& si == sj ==> !opt_lt(opt_view(out@[i].started_at), opt_view(out@[j].started_at))
            } by {
                lemma_ranked_scores(results@.map_values(keyf), order@, i, j);
                assert(thread_field_views(out@[i]) == thread_field_views(results@[order@[i] as int]));
                assert(thread_field_views(out@[j]) == thread_field_views(results@[order@[j] as int]));
            }
        }
    }
    SearchReport { search, results: out }
}

// ---------------------------------------------------------------- messages

/// The rank key of a message: its fallback score, timestamp and session id.
pub open spec fn message_key(query: Seq<char>, terms: Seq<Seq<char>>, h: MessageSearchHit) -> (int, Option<Seq<char>>, Seq<char>) {
    (score_of_views(query, terms, message_field_views(h)), opt_view(h.timestamp), h.session_id@)
}

/// A message is ranked by the fallback score of its text: the first part of
/// its rank key is the score of its `text` field.
pub proof fn lemma_message_key_is_text_score(query: Seq<char>, terms: Seq<Seq<char>>, h: MessageSearchHit)
    ensures
        message_key(query, terms, h).0 == text_field_score(query, terms, h.text@),
{
    assert(message_field_views(h) =~= seq![("text"@, Some(h.text@), 40i64)]);
}

/// Two messages agree but for their explanation.
pub open spec fn same_message(a: MessageSearchHit, b: MessageSearchHit) -> bool {
    &&& a.session_id@ == b.session_id@
    &&& opt_view(a.title) == opt_view(b.title)
    &&& opt_view(a.timestamp) == opt_view(b.timestamp)
    &&& a.role@ == b.role@
    &&& a.text@ == b.text@
    &&& a.snippet@ == b.snippet@
}

/// A copy of a message hit with another explanation.
fn message_with_explain(h: &MessageSearchHit, explain: SearchExplain) -> (r: MessageSearchHit)
    ensures
        same_message(r, *h),
        r.explain == explain,
{
    MessageSearchHit {
        session_id: h.session_id.clone(),
        title: opt_string_clone(&h.title),
        timestamp: opt_string_clone(&h.timestamp),
        role: h.role.clone(),
        text: h.text.clone(),
        snippet: h.snippet.clone(),
        explain,
    }
}

/// The report of a message search: with `LIKE`, the hits ranked by
/// `message_key`; with FTS, in the order found; at most `limit` of them, each
/// explained at its rank (from 1).
pub fn finalize_message_search_report(
    results: Vec<MessageSearchHit>,
    search: SearchMeta,
    query: &str,
    query_terms: &[String],
    limit: usize,
) -> (r: SearchReport<MessageSearchHit>)
    requires
        terms_ok(query_terms@),
    ensures
        r.search == search,
        r.results@.len() == kept(results@.len(), limit),
        exists|order: Seq<usize>|
            {
                &&& is_order(order, results@.len())
                &&& (search.backend == SearchBackend::Like ==> ranks(
                    results@.map_values(|h: MessageSearchHit| message_key(query@, views(query_terms@), h)),
                    order,
                ))
                &&& (search.backend == SearchBackend::Fts ==> forall|k: int|
                    0 <= k < order.len() ==> order[k] == k)
                &&& forall|k: int|
                    0 <= k < r.results@.len() ==> {
                        &&& same_message(#[trigger] r.results@[k], results@[order[k] as int])
                        &&& explains(
                            r.results@[k].explain,
                            query@,
                            views(query_terms@),
                            message_field_views(r.results@[k]),
                            k + 1,
                        )
                    }
            },
        forall|k: int|
            0 <= k < r.results@.len() ==> reports_field(
                query@,
                views(query_terms@),
                (#[trigger] r.results@[k]).text@,
                "text"@,
                r.results@[k].explain,
            ),
        search.backend == SearchBackend::Like ==> forall|i: int, j: int|
            0 <= i < j < r.results@.len() ==> {
                let si = text_field_score(query@, views(query_terms@), (#[trigger] r.results@[i]).text@);
                let sj = text_field_score(query@, views(query_terms@), (#[trigger] r.results@[j]).text@);
                &&& si >= sj
                &&& si == sj ==> !opt_lt(opt_view(r.results@[i].timestamp), opt_view(r.results@[j].timestamp))
            },
{
    let ghost tv = views(query_terms@);
    let ghost keyf = |h: MessageSearchHit| message_key(query@, tv, h);
    let order = if search.backend == SearchBackend::Like {
        let mut keys: Vec<RankKey> = Vec::new();
        let mut i: usize = 0;
        while i < results.len()
            invariant
                i <= results.len(),
                terms_ok(query_terms@),
                tv == views(query_terms@),
                keys@.len() == i,
                forall|k: int| 0 <= k < i ==> key_view(#[trigger] keys@[k]) == message_key(query@, tv, results@[k]),
            decreases results.len() - i,
        {
            let fields = message_search_fields(&results[i]);
            proof {
                lemma_small_fields_fit(query@, views(query_terms@), fields@);
            }
            let a = analyze_match(query, query_terms, fields.as_slice(), 0);
            proof {
                lemma_analysis_by_views(query@, tv, fields@);
            }
            keys.push(RankKey { score: a.fallback_score, when: opt_string_clone(&results[i].timestamp), id: results[i].session_id.clone() });
            i += 1;
        }
        let order = rank_order(&keys);
        proof {
            assert(key_views(keys@) =~= results@.map_values(keyf));
        }
        order
    } else {
        identity_order(results.len())
    };
    let n: usize = if results.len() < limit {
        results.len()
    } else {
        limit
    };
    let mut out: Vec<MessageSearchHit> = Vec::new();
    let mut k: usize = 0;
    while k < n
        invariant
            k <= n,
            n == kept(results@.len(), limit),
            terms_ok(query_terms@),
            tv == views(query_terms@),
            is_order(order@, results@.len()),
            out@.len() == k,
            forall|m: int|
                0 <= m < k ==> {
                    &&& same_message(#[trigger] out@[m], results@[order@[m] as int])
                    &&& explains(out@[m].explain, query@, tv, message_field_views(out@[m]), m + 1)
                    &&& reports_field(query@, tv, out@[m].text@, "text"@, out@[m].explain)
                },
        decreases n - k,
    {
        let h = &results[order[k]];
        let fields = message_search_fields(h);
        proof {
            lemma_small_fields_fit(query@, views(query_terms@), fields@);
        }
        let a = analyze_match(query, query_terms, fields.as_slice(), k + 1);
        proof {
            lemma_analysis_by_views(query@, tv, fields@);
            assert(field_views(fields@).len() == 1);
            assert(field_views(fields@)[0] == field_view(fields@[0]));
            lemma_field_hit_reported(query@, tv, fields@, 0);
        }
        let hit = message_with_explain(h, a.explain);
        assert(message_field_views(hit) == message_field_views(*h));
        out.push(hit);
        k += 1;
    }
    proof {
        if search.backend == SearchBackend::Like {
            assert forall|i: int, j: int| 0 <= i < j < out@.len() implies {
                let si = text_field_score(query@, tv, (#[trigger] out@[i]).text@);
                let sj = text_field_score(query@, tv, (#[trigger] out@[j]).text@);
                &&& si >= sj
                &&& si == sj ==> !opt_lt(opt_view(out@[i].timestamp), opt_view(out@[j].timestamp))
            } by {
                lemma_ranked_scores(results@.map_values(keyf), order@, i, j);
                assert(message_field_views(results@[order@[i] as int]) =~= seq![("text"@, Some(out@[i].text@), 40i64)]);
                assert(message_field_views(results@[order@[j] as int]) =~= seq![("text"@, Some(out@[j].text@), 40i64)]);
            }
        }
    }
    SearchReport { search, results: out }
}

// ---------------------------------------------------------------- events

/// The rank key of an event: its fallback score, timestamp and session id.
pub open spec fn event_key(query: Seq<char>, terms: Seq<Seq<char>>, h: EventSearchHit) -> (int, Option<Seq<char>>, Seq<char>) {
    (score_of_views(query, terms, event_field_views(h)), opt_view(h.timestamp), h.session_id@)
}

/// Two events agree but for their explanation.
pub open spec fn same_event(a: EventSearchHit, b: EventSearchHit) -> bool {
    &&& a.session_id@ == b.session_id@
    &&& opt_view(a.title) == opt_view(b.title)
    &&& opt_view(a.timestamp) == opt_view(b.timestamp)
    &&& a.event_type@ == b.event_type@
    &&& a.summary@ == b.summary@
    &&& a.snippet@ == b.snippet@
}

/// A copy of an event hit with another explanation.
fn event_with_explain(h: &EventSearchHit, explain: SearchExplain) -> (r: EventSearchHit)
    ensures
        same_event(r, *h),
        r.explain == explain,
{
    EventSearchHit {
        session_id: h.session_id.clone(),
        title: opt_string_clone(&h.title),
        timestamp: opt_string_clone(&h.timestamp),
        event_type: h.event_type.clone(),
        summary: h.summary.clone(),
        snippet: h.snippet.clone(),
        explain,
    }
}

/// The report of an event search: with `LIKE`, the hits ranked by
/// `event_key`; with FTS, in the order found; at most `limit` of them, each
/// explained at its rank (from 1).
pub fn finalize_event_search_report(
    results: Vec<EventSearchHit>,
    search: SearchMeta,
    query: &str,
    query_terms: &[String],
    limit: usize,
) -> (r: SearchReport<EventSearchHit>)
    requires
        terms_ok(query_terms@),
    ensures
        r.search == search,
        r.results@.len() == kept(results@.len(), limit),
        exists|order: Seq<usize>|
            {
                &&& is_order(order, results@.len())
                &&& (search.backend == SearchBackend::Like ==> ranks(
                    results@.map_values(|h: EventSearchHit| event_key(query@, views(query_terms@), h)),
                    order,
                ))
                &&& (search.backend == SearchBackend::Fts ==> forall|k: int|
                    0 <= k < order.len() ==> order[k] == k)
                &&& forall|k: int|
                    0 <= k < r.results@.len() ==> {
                        &&& same_event(#[trigger] r.results@[k], results@[order[k] as int])
                        &&& explains(
                            r.results@[k].explain,
                            query@,
                            views(query_terms@),
                            event_field_views(r.results@[k]),
                            k + 1,
                        )
                    }
            },
        forall|k: int|
            0 <= k < r.results@.len() ==> {
                &&& reports_field(
                    query@,
                    views(query_terms@),
                    (#[trigger] r.results@[k]).summary@,
                    "summary"@,
                    r.results@[k].explain,
                )
                &&& reports_field(
                    query@,
                    views(query_terms@),
                    r.results@[k].event_type@,
                    "event_type"@,
                    r.results@[k].explain,
                )
            },
        search.backend == SearchBackend::Like ==> forall|i: int, j: int|
            0 <= i < j < r.results@.len() ==> {
                let si = score_of_views(query@, views(query_terms@), event_field_views(#[trigger] r.results@[i]));
                let sj = score_of_views(query@, views(query_terms@), event_field_views(#[trigger] r.results@[j]));
                &&& si >= sj
                &&& si == sj ==> !opt_lt(opt_view(r.results@[i].timestamp), opt_view(r.results@[j].timestamp))
            },
{
    let ghost tv = views(query_terms@);
    let ghost keyf = |h: EventSearchHit| event_key(query@, tv, h);
    let order = if search.backend == SearchBackend::Like {
        let mut keys: Vec<RankKey> = Vec::new();
        let mut i: usize = 0;
        while i < results.len()
            invariant
                i <= results.len(),
                terms_ok(query_terms@),
                tv == views(query_terms@),
                keys@.len() == i,
                forall|k: int| 0 <= k < i ==> key_view(#[trigger] keys@[k]) == event_key(query@, tv, results@[k]),
            decreases results.len() - i,
        {
            let fields = event_search_fields(&results[i]);
            proof {
                lemma_small_fields_fit(query@, views(query_terms@), fields@);
            }
            let a = analyze_match(query, query_terms, fields.as_slice(), 0);
            proof {
                lemma_analysis_by_views(query@, tv, fields@);
            }
            keys.push(RankKey { score: a.fallback_score, when: opt_string_clone(&results[i].timestamp), id: results[i].session_id.clone() });
            i += 1;
        }
        let order = rank_order(&keys);
        proof {
            assert(key_views(keys@) =~= results@.map_values(keyf));
        }
        order
    } else {
        identity_order(results.len())
    };
    let n: usize = if results.len() < limit {
        results.len()
    } else {
        limit
    };
    let mut out: Vec<EventSearchHit> = Vec::new();
    let mut k: usize = 0;
    while k < n
        invariant
            k <= n,
            n == kept(results@.len(), limit),
            terms_ok(query_terms@),
            tv == views(query_terms@),
            is_order(order@, results@.len()),
            out@.len() == k,
            forall|m: int|
                0 <= m < k ==> {
                    &&& same_event(#[trigger] out@[m], results@[order@[m] as int])
                    &&& explains(out@[m].explain, query@, tv, event_field_views(out@[m]), m + 1)
                    &&& reports_field(query@, tv, out@[m].summary@, "summary"@, out@[m].explain)
                    &&& reports_field(query@, tv, out@[m].event_type@, "event_type"@, out@[m].explain)
                },
        decreases n - k,
    {
        let h = &results[order[k]];
        let fields = event_search_fields(h);
        proof {
            lemma_small_fields_fit(query@, views(query_terms@), fields@);
        }
        let a = analyze_match(query, query_terms, fields.as_slice(), k + 1);
        proof {
            lemma_analysis_by_views(query@, tv, fields@);
            assert(field_views(fields@).len() == 2);
            assert(field_views(fields@)[0] == field_view(fields@[0]));
            assert(field_views(fields@)[1] == field_view(fields@[1]));
            lemma_field_hit_reported(query@, tv, fields@, 0);
            lemma_field_hit_reported(query@, tv, fields@, 1);
        }
        let hit = event_with_explain(h, a.explain);
        assert(event_field_views(hit) == event_field_views(*h));
        out.push(hit);
        k += 1;
    }
    proof {
        if search.backend == SearchBackend::Like {
            assert forall|i: int, j: int| 0 <= i < j < out@.len() implies {
                let si = score_of_views(query@, tv, event_field_views(#[trigger] out@[i]));
                let sj = score_of_views(query@, tv, event_field_views(#[trigger] out@[j]));
                &&& si >= sj
                &&& si == sj ==> !opt_lt(opt_view(out@[i].timestamp), opt_view(out@[j].timestamp))
            } by {
                lemma_ranked_scores(results@.map_values(keyf), order@, i, j);
                assert(event_field_views(out@[i]) == event_field_views(results@[order@[i] as int]));
                assert(event_field_views(out@[j]) == event_field_views(results@[order@[j] as int]));
            }
        }
    }
    SearchReport { search, results: out }
}

} // verus!
