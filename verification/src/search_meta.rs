use vstd::prelude::*;

use crate::text::{
    chars_of, contains_chars, contains_seq, join, spec_to_lowercase, string_from_chars, to_lowercase,
    trim, trimmed,
};

verus! {

/// Which search engine produced a result list.
#[derive(Debug, Clone, Copy, PartialEq, Eq, Structural)]
pub enum SearchBackend {
    Fts,
    Like,
}

/// Whether the query was used as typed or expanded into its terms.
#[derive(Debug, Clone, Copy, PartialEq, Eq, Structural)]
pub enum SearchQueryMode {
    Literal,
    Expanded,
}

/// How a search was answered.
#[derive(Debug, Clone)]
pub struct SearchMeta {
    pub backend: SearchBackend,
    pub query_mode: SearchQueryMode,
    pub ranking: &'static str,
    pub normalized_query: Option<String>,
    pub normalized_terms: Vec<String>,
}

/// Why a result matched: its rank, the fields that matched, how many query
/// terms it covers and whether the query matched literally.
#[derive(Debug, Clone)]
pub struct SearchExplain {
    pub rank: usize,
    pub matched_fields: Vec<String>,
    pub matched_terms: usize,
    pub literal_match: bool,
}

impl Default for SearchExplain {
    fn default() -> (r: Self)
        ensures
            r.rank == 0,
            r.matched_fields@.len() == 0,
            r.matched_terms == 0,
            !r.literal_match,
    {
        SearchExplain { rank: 0, matched_fields: Vec::new(), matched_terms: 0, literal_match: false }
    }
}

/// A search answer: how it was answered and the hits.
#[derive(Debug, Clone)]
pub struct SearchReport<T> {
    pub search: SearchMeta,
    pub results: Vec<T>,
}

/// A searchable field of a hit, with the weight a match in it adds.
#[derive(Debug, Clone, Copy)]
pub struct SearchField<'a> {
    pub name: &'static str,
    pub text: Option<&'a str>,
    pub weight: i64,
}

/// The explanation of a hit and the score it is ranked by in `LIKE` searches.
#[derive(Debug, Clone)]
pub struct SearchMatchAnalysis {
    pub explain: SearchExplain,
    pub fallback_score: i64,
}

/// The views of a list of strings.
pub open spec fn views(ss: Seq<String>) -> Seq<Seq<char>> {
    ss.map_values(|s: String| s@)
}

/// The query shown as normalized: the joined terms, when there are terms and
/// the search was expanded or the joined terms differ from the trimmed query.
pub open spec fn normalized_query_of(
    query: Seq<char>,
    terms: Seq<Seq<char>>,
    mode: SearchQueryMode,
) -> Option<Seq<char>> {
    if terms.len() == 0 {
        None
    } else {
        let joined = join(terms, seq![' ']);
        if mode == SearchQueryMode::Expanded || joined != trimmed(query) {
            Some(joined)
        } else {
            None
        }
    }
}

/// Copies of `ss`.
pub fn clone_strings(ss: &[String]) -> (r: Vec<String>)
    ensures
        views(r@) == views(ss@),
{
    let mut out: Vec<String> = Vec::new();
    let mut i: usize = 0;
    while i < ss.len()
        invariant
            i <= ss.len(),
            out.len() == i,
            views(out@) == views(ss@.take(i as int)),
        decreases ss.len() - i,
    {
        let ghost before = out@;
        let c = ss[i].clone();
        assert(c@ == ss@[i as int]@);
        out.push(c);
        assert(ss@.take(i + 1 as int) == ss@.take(i as int).push(ss@[i as int]));
        assert forall|j: int| 0 <= j < i + 1 implies #[trigger] out@[j]@ == ss@.take(i + 1 as int)[j]@ by {
            if j < i {
                assert(out@[j] == before[j]);
                assert(views(before)[j] == views(ss@.take(i as int))[j]);
            }
        }
        assert(views(out@) =~= views(ss@.take(i + 1 as int)));
        i += 1;
    }
    assert(ss@.take(ss.len() as int) == ss@);
    out
}

/// The terms joined by single spaces.
pub fn join_terms(terms: &[String]) -> (r: String)
    ensures
        r@ == join(views(terms@), seq![' ']),
{
    let mut out: Vec<char> = Vec::new();
    let mut i: usize = 0;
    while i < terms.len()
        invariant
            i <= terms.len(),
            out@ == join(views(terms@.take(i as int)), seq![' ']),
        decreases terms.len() - i,
    {
        let ghost prev = views(terms@.take(i as int));
        assert(views(terms@.take(i + 1 as int)) == prev.push(terms@[i as int]@));
        assert(views(terms@.take(i + 1 as int)).drop_last() == prev);
        if i > 0 {
            out.push(' ');
            assert(seq![' '] == seq![' ']);
        }
        let t = chars_of(terms[i].as_str());
        crate::text::push_chars(&mut out, &t);
        i += 1;
    }
    assert(terms@.take(terms.len() as int) == terms@);
    string_from_chars(out.as_slice())
}

/// `parts` joined with `sep` between consecutive parts.
pub fn join_strings(parts: &[String], sep: &str) -> (r: String)
    ensures
        r@ == join(views(parts@), sep@),
{
    let sepc = chars_of(sep);
    let mut out: Vec<char> = Vec::new();
    let mut i: usize = 0;
    while i < parts.len()
        invariant
            i <= parts.len(),
            sepc@ == sep@,
            out@ == join(views(parts@.take(i as int)), sep@),
        decreases parts.len() - i,
    {
        let ghost prev = views(parts@.take(i as int));
        assert(views(parts@.take(i + 1 as int)) == prev.push(parts@[i as int]@));
        assert(views(parts@.take(i + 1 as int)).drop_last() == prev);
        if i > 0 {
            crate::text::push_chars(&mut out, &sepc);
        }
        let t = chars_of(parts[i].as_str());
        crate::text::push_chars(&mut out, &t);
        i += 1;
    }
    assert(parts@.take(parts.len() as int) == parts@);
    string_from_chars(out.as_slice())
}

/// Describes how a search was answered.
pub fn build_search_meta(
    query: &str,
    normalized_terms: &[String],
    backend: SearchBackend,
    query_mode: SearchQueryMode,
    ranking: &'static str,
) -> (r: SearchMeta)
    ensures
        r.backend == backend,
        r.query_mode == query_mode,
        r.ranking == ranking,
        views(r.normalized_terms@) == views(normalized_terms@),
        r.normalized_query.is_some() == normalized_query_of(
            query@,
            views(normalized_terms@),
            query_mode,
        ).is_some(),
        r.normalized_query.is_some() ==> r.normalized_query.unwrap()@ == normalized_query_of(
            query@,
            views(normalized_terms@),
            query_mode,
        ).unwrap(),
{
    let trimmed_query = trim(query);
    let normalized_query = if normalized_terms.len() == 0 {
        None
    } else {
        let joined = join_terms(normalized_terms);
        if query_mode == SearchQueryMode::Expanded || joined != trimmed_query {
            Some(joined)
        } else {
            None
        }
    };
    SearchMeta {
        backend,
        query_mode,
        ranking,
        normalized_query,
        normalized_terms: clone_strings(normalized_terms),
    }
}

/// The lower-cased text of a field, if it has one.
pub open spec fn lower_text(f: SearchField) -> Option<Seq<char>> {
    match f.text {
        Some(t) => Some(spec_to_lowercase(t@)),
        None => None,
    }
}

/// How many of `terms` occur in `text`.
pub open spec fn count_terms_in(text: Seq<char>, terms: Seq<Seq<char>>) -> nat
    decreases terms.len(),
{
    if terms.len() == 0 {
        0
    } else {
        count_terms_in(text, terms.drop_last()) + if contains_seq(text, terms.last()) {
            1nat
        } else {
            0nat
        }
    }
}

/// Whether the lower-cased query occurs in a field.
pub open spec fn field_literal(lq: Seq<char>, f: SearchField) -> bool {
    match lower_text(f) {
        Some(lt) => lq.len() > 0 && contains_seq(lt, lq),
        None => false,
    }
}

/// Whether a field matches: literally, or through at least one term.
pub open spec fn field_matches(lq: Seq<char>, lterms: Seq<Seq<char>>, f: SearchField) -> bool {
    match lower_text(f) {
        Some(lt) => (lq.len() > 0 && contains_seq(lt, lq)) || count_terms_in(lt, lterms) > 0,
        None => false,
    }
}

/// The names of the matching fields, in field order.
pub open spec fn matched_names(
    lq: Seq<char>,
    lterms: Seq<Seq<char>>,
    fields: Seq<SearchField>,
) -> Seq<Seq<char>>
    decreases fields.len(),
{
    if fields.len() == 0 {
        seq![]
    } else {
        let prev = matched_names(lq, lterms, fields.drop_last());
        if field_matches(lq, lterms, fields.last()) {
            prev.push(fields.last().name@)
        } else {
            prev
        }
    }
}

/// The summed weight of the matching fields.
pub open spec fn matched_weight(lq: Seq<char>, lterms: Seq<Seq<char>>, fields: Seq<SearchField>) -> int
    decreases fields.len(),
{
    if fields.len() == 0 {
        0
    } else {
        matched_weight(lq, lterms, fields.drop_last()) + if field_matches(
            lq,
            lterms,
            fields.last(),
        ) {
            fields.last().weight as int
        } else {
            0
        }
    }
}

/// Whether some field holds the query literally.
pub open spec fn any_literal(lq: Seq<char>, fields: Seq<SearchField>) -> bool
    decreases fields.len(),
{
    if fields.len() == 0 {
        false
    } else {
        any_literal(lq, fields.drop_last()) || field_literal(lq, fields.last())
    }
}

/// Whether some field holds `term`.
pub open spec fn term_found(term: Seq<char>, fields: Seq<SearchField>) -> bool
    decreases fields.len(),
{
    if fields.len() == 0 {
        false
    } else {
        term_found(term, fields.drop_last()) || match lower_text(fields.last()) {
            Some(lt) => contains_seq(lt, term),
            None => false,
        }
    }
}

/// How many of `lterms` some field holds.
pub open spec fn terms_found(lterms: Seq<Seq<char>>, fields: Seq<SearchField>) -> nat
    decreases lterms.len(),
{
    if lterms.len() == 0 {
        0
    } else {
        terms_found(lterms.drop_last(), fields) + if term_found(lterms.last(), fields) {
            1nat
        } else {
            0nat
        }
    }
}

/// The lower-cased terms.
pub open spec fn lower_all(terms: Seq<Seq<char>>) -> Seq<Seq<char>> {
    terms.map_values(|t: Seq<char>| spec_to_lowercase(t))
}

/// The number of terms a hit covers: with terms, how many of them some field
/// holds; without terms, one when the query matched literally.
pub open spec fn covered_terms(query: Seq<char>, terms: Seq<Seq<char>>, fields: Seq<SearchField>) -> nat {
    let lq = spec_to_lowercase(trimmed(query));
    if terms.len() > 0 {
        terms_found(lower_all(terms), fields)
    } else if any_literal(lq, fields) {
        1
    } else {
        0
    }
}

/// The fallback ranking score: 2000 when every term is covered, 500 for a
/// literal match, 100 per covered term, plus the weights of matching fields.
pub open spec fn fallback_score_of(
    query: Seq<char>,
    terms: Seq<Seq<char>>,
    fields: Seq<SearchField>,
) -> int {
    let lq = spec_to_lowercase(trimmed(query));
    let covered = covered_terms(query, terms, fields);
    (if terms.len() > 0 && covered == terms.len() {
        2000int
    } else {
        0int
    }) + (if any_literal(lq, fields) {
        500int
    } else {
        0int
    }) + covered * 100 + matched_weight(lq, lower_all(terms), fields)
}

proof fn lemma_count_terms_in_bound(text: Seq<char>, terms: Seq<Seq<char>>)
    ensures
        count_terms_in(text, terms) <= terms.len(),
    decreases terms.len(),
{
    if terms.len() > 0 {
        lemma_count_terms_in_bound(text, terms.drop_last());
    }
}

proof fn lemma_terms_found_bound(lterms: Seq<Seq<char>>, fields: Seq<SearchField>)
    ensures
        terms_found(lterms, fields) <= lterms.len(),
    decreases lterms.len(),
{
    if lterms.len() > 0 {
        lemma_terms_found_bound(lterms.drop_last(), fields);
    }
}

proof fn lemma_matched_weight_bound(lq: Seq<char>, lterms: Seq<Seq<char>>, fields: Seq<SearchField>)
    requires
        forall|i: int|
            0 <= i < fields.len() ==> -0x100_0000_0000 <= #[trigger] fields[i].weight
                <= 0x100_0000_0000,
    ensures
        -0x100_0000_0000 * fields.len() <= matched_weight(lq, lterms, fields) <= 0x100_0000_0000
            * fields.len(),
    decreases fields.len(),
{
    if fields.len() > 0 {
        let p = fields.drop_last();
        assert forall|i: int| 0 <= i < p.len() implies -0x100_0000_0000 <= #[trigger] p[i].weight
            <= 0x100_0000_0000 by {
            assert(p[i] == fields[i]);
        }
        lemma_matched_weight_bound(lq, lterms, p);
        assert(fields.last() == fields[fields.len() - 1]);
    }
}

/// How many of `terms` occur in `text` (computed).
fn count_terms(text: &Vec<char>, lterms: &Vec<Vec<char>>) -> (r: usize)
    ensures
        r == count_terms_in(text@, lterms@.map_values(|t: Vec<char>| t@)),
{
    let ghost ts = lterms@.map_values(|t: Vec<char>| t@);
    let mut n: usize = 0;
    let mut j: usize = 0;
    while j < lterms.len()
        invariant
            j <= lterms.len(),
            ts == lterms@.map_values(|t: Vec<char>| t@),
            n == count_terms_in(text@, ts.take(j as int)),
            n <= j,
        decreases lterms.len() - j,
    {
        assert(ts.take(j + 1 as int).drop_last() == ts.take(j as int));
        if contains_chars(text, &lterms[j]) {
            n += 1;
        }
        j += 1;
    }
    assert(ts.take(lterms.len() as int) == ts);
    n
}

/// The lower-cased terms, as character vectors.
fn lower_terms_of(normalized_terms: &[String]) -> (r: Vec<Vec<char>>)
    ensures
        r@.map_values(|t: Vec<char>| t@) == lower_all(views(normalized_terms@)),
{
    let ghost lts = lower_all(views(normalized_terms@));
    let mut lower_terms: Vec<Vec<char>> = Vec::new();
    let mut k: usize = 0;
    while k < normalized_terms.len()
        invariant
            k <= normalized_terms.len(),
            lower_terms.len() == k,
            lts == lower_all(views(normalized_terms@)),
            lower_terms@.map_values(|t: Vec<char>| t@) == lts.take(k as int),
        decreases normalized_terms.len() - k,
    {
        let l = to_lowercase(normalized_terms[k].as_str());
        let cs = chars_of(l.as_str());
        assert(cs@ == lts[k as int]);
        let ghost before = lower_terms@;
        lower_terms.push(cs);
        k += 1;
        assert forall|j: int| 0 <= j < k implies #[trigger] lower_terms@[j]@ == lts.take(
            k as int,
        )[j] by {
            if j < k - 1 {
                assert(lower_terms@[j] == before[j]);
                assert(before.map_values(|t: Vec<char>| t@)[j] == lts.take(k - 1 as int)[j]);
            }
        }
        assert(lower_terms@.map_values(|t: Vec<char>| t@) =~= lts.take(k as int));
    }
    assert(lts.take(normalized_terms.len() as int) == lts);
    lower_terms
}

/// Every running total of the matching fields' weights, field by field, fits
/// in `i64`.
pub open spec fn weights_fit(lq: Seq<char>, lterms: Seq<Seq<char>>, fields: Seq<SearchField>) -> bool {
    forall|n: int|
        0 <= n <= fields.len() ==> i64::MIN <= #[trigger] matched_weight(lq, lterms, fields.take(n))
            <= i64::MAX
}

/// The score of a hit can be computed in `i64`: the running totals of the
/// matching weights, the term bonus and the whole score fit.
pub open spec fn score_fits(query: Seq<char>, terms: Seq<Seq<char>>, fields: Seq<SearchField>) -> bool {
    &&& weights_fit(spec_to_lowercase(trimmed(query)), lower_all(terms), fields)
    &&& covered_terms(query, terms, fields) * 100 + 2500 <= i64::MAX
    &&& i64::MIN <= fallback_score_of(query, terms, fields) <= i64::MAX
}

/// At most 2^20 fields with weights within 2^40, and at most 2^40 terms,
/// always leave the score room in `i64`.
pub proof fn lemma_small_fields_fit(query: Seq<char>, terms: Seq<Seq<char>>, fields: Seq<SearchField>)
    requires
        fields.len() <= 0x10_0000,
        terms.len() <= 0x100_0000_0000,
        forall|i: int|
            0 <= i < fields.len() ==> -0x100_0000_0000 <= #[trigger] fields[i].weight
                <= 0x100_0000_0000,
    ensures
        score_fits(query, terms, fields),
{
    let lq = spec_to_lowercase(trimmed(query));
    let lts = lower_all(terms);
    assert forall|n: int| 0 <= n <= fields.len() implies i64::MIN <= #[trigger] matched_weight(
        lq,
        lts,
        fields.take(n),
    ) <= i64::MAX by {
        let p = fields.take(n);
        assert forall|i: int| 0 <= i < p.len() implies -0x100_0000_0000 <= #[trigger] p[i].weight
            <= 0x100_0000_0000 by {
            assert(p[i] == fields[i]);
        }
        lemma_matched_weight_bound(lq, lts, p);
    }
    lemma_terms_found_bound(lts, fields);
    lemma_matched_weight_bound(lq, lts, fields);
}

/// The names of the matching fields, their summed weight and whether some
/// field holds the query literally.
fn scan_fields(lower_query: &Vec<char>, lower_terms: &Vec<Vec<char>>, fields: &[SearchField<'_>]) -> (r: (
    Vec<String>,
    i64,
    bool,
))
    requires
        weights_fit(lower_query@, lower_terms@.map_values(|t: Vec<char>| t@), fields@),
    ensures
        views(r.0@) == matched_names(
            lower_query@,
            lower_terms@.map_values(|t: Vec<char>| t@),
            fields@,
        ),
        r.1 == matched_weight(lower_query@, lower_terms@.map_values(|t: Vec<char>| t@), fields@),
        r.2 == any_literal(lower_query@, fields@),
{
    let ghost lq = lower_query@;
    let ghost lts = lower_terms@.map_values(|t: Vec<char>| t@);
    let mut matched_fields: Vec<String> = Vec::new();
    let mut literal_match = false;
    let mut field_score: i64 = 0;
    let mut i: usize = 0;
    while i < fields.len()
        invariant
            i <= fields.len(),
            weights_fit(lq, lts, fields@),
            lq == lower_query@,
            lts == lower_terms@.map_values(|t: Vec<char>| t@),
            views(matched_fields@) == matched_names(lq, lts, fields@.take(i as int)),
            field_score == matched_weight(lq, lts, fields@.take(i as int)),
            literal_match == any_literal(lq, fields@.take(i as int)),
        decreases fields.len() - i,
    {
        let ghost prefix = fields@.take(i as int);
        assert(fields@.take(i + 1 as int).drop_last() == prefix);
        assert(fields@.take(i + 1 as int).last() == fields@[i as int]);
        assert(i64::MIN <= matched_weight(lq, lts, fields@.take(i + 1 as int)) <= i64::MAX);
        let field = fields[i];
        match field.text {
            Some(text) => {
                let lower_s = to_lowercase(text);
                let lower_text = chars_of(lower_s.as_str());
                let field_literal_match = lower_query.len() > 0 && contains_chars(
                    &lower_text,
                    lower_query,
                );
                let field_term_matches = count_terms(&lower_text, lower_terms);
                if field_literal_match || field_term_matches > 0 {
                    let ghost before = matched_fields@;
                    let name = string_from_chars(chars_of(field.name).as_slice());
                    matched_fields.push(name);
                    field_score = field_score + field.weight;
                    assert(views(matched_fields@) =~= views(before).push(field.name@));
                }
                literal_match = literal_match || field_literal_match;
            },
            None => {},
        }
        i += 1;
    }
    assert(fields@.take(fields.len() as int) == fields@);
    (matched_fields, field_score, literal_match)
}

/// How many of the lower-cased terms some field holds.
fn count_found_terms(lower_terms: &Vec<Vec<char>>, fields: &[SearchField<'_>]) -> (r: usize)
    ensures
        r == terms_found(lower_terms@.map_values(|t: Vec<char>| t@), fields@),
        r <= lower_terms.len(),
{
    let ghost lts = lower_terms@.map_values(|t: Vec<char>| t@);
    let mut matched_terms: usize = 0;
    let mut t: usize = 0;
    while t < lower_terms.len()
        invariant
            t <= lower_terms.len(),
            lts == lower_terms@.map_values(|x: Vec<char>| x@),
            matched_terms == terms_found(lts.take(t as int), fields@),
            matched_terms <= t,
        decreases lower_terms.len() - t,
    {
        assert(lts.take(t + 1 as int).drop_last() == lts.take(t as int));
        assert(lts.take(t + 1 as int).last() == lts[t as int]);
        let mut found = false;
        let mut f: usize = 0;
        while f < fields.len() && !found
            invariant
                f <= fields.len(),
                found == term_found(lts[t as int], fields@.take(f as int)),
                lts == lower_terms@.map_values(|x: Vec<char>| x@),
                t < lower_terms.len(),
            decreases fields.len() - f,
        {
            assert(fields@.take(f + 1 as int).drop_last() == fields@.take(f as int));
            assert(fields@.take(f + 1 as int).last() == fields@[f as int]);
            match fields[f].text {
                Some(text) => {
                    let lower_s = to_lowercase(text);
                    let lower_text = chars_of(lower_s.as_str());
                    if contains_chars(&lower_text, &lower_terms[t]) {
                        found = true;
                    }
                },
                None => {},
            }
            f += 1;
        }
        proof {
            if found {
                lemma_term_found_prefix(lts[t as int], fields@, f as int);
            } else {
                assert(fields@.take(f as int) == fields@);
            }
        }
        if found {
            matched_terms += 1;
        }
        t += 1;
    }
    assert(lts.take(lower_terms.len() as int) == lts);
    matched_terms
}

/// Explains and scores how a hit matches a query: which fields hold the
/// query or a term, how many terms are covered, and the fallback score.
pub fn analyze_match(
    query: &str,
    normalized_terms: &[String],
    fields: &[SearchField<'_>],
    rank: usize,
) -> (r: SearchMatchAnalysis)
    requires
        score_fits(query@, views(normalized_terms@), fields@),
    ensures
        r.explain.rank == rank,
        views(r.explain.matched_fields@) == matched_names(
            spec_to_lowercase(trimmed(query@)),
            lower_all(views(normalized_terms@)),
            fields@,
        ),
        r.explain.literal_match == any_literal(spec_to_lowercase(trimmed(query@)), fields@),
        r.explain.matched_terms == covered_terms(query@, views(normalized_terms@), fields@),
        r.fallback_score == fallback_score_of(query@, views(normalized_terms@), fields@),
{
    let trimmed_query = trim(query);
    let lower_query_s = to_lowercase(trimmed_query.as_str());
    let lower_query = chars_of(lower_query_s.as_str());
    let term_count = normalized_terms.len();
    let lower_terms = lower_terms_of(normalized_terms);
    let ghost lts = lower_all(views(normalized_terms@));
    let (matched_fields, field_score, literal_match) = scan_fields(
        &lower_query,
        &lower_terms,
        fields,
    );
    let matched_terms: usize = if term_count > 0 {
        count_found_terms(&lower_terms, fields)
    } else if literal_match {
        1
    } else {
        0
    };
    assert(fields@.take(fields.len() as int) == fields@);
    let full_term_coverage_bonus: i64 = if term_count > 0 && matched_terms == term_count {
        2000
    } else {
        0
    };
    let literal_bonus: i64 = if literal_match {
        500
    } else {
        0
    };
    let fallback_score = full_term_coverage_bonus + literal_bonus + (matched_terms as i64 * 100)
        + field_score;
    SearchMatchAnalysis {
        explain: SearchExplain { rank, matched_fields, matched_terms, literal_match },
        fallback_score,
    }
}

/// A term found in a prefix of the fields is found in all of them.
proof fn lemma_term_found_prefix(term: Seq<char>, fields: Seq<SearchField>, n: int)
    requires
        0 <= n <= fields.len(),
        term_found(term, fields.take(n)),
    ensures
        term_found(term, fields),
    decreases fields.len() - n,
{
    if n < fields.len() {
        assert(fields.take(n + 1).drop_last() == fields.take(n));
        lemma_term_found_prefix(term, fields, n + 1);
    } else {
        assert(fields.take(n) == fields);
    }
}

/// A field as text: its name, its text, its weight.
pub open spec fn field_view(f: SearchField) -> (Seq<char>, Option<Seq<char>>, i64) {
    (
        f.name@,
        match f.text {
            Some(t) => Some(t@),
            None => None,
        },
        f.weight,
    )
}

/// The views of fields.
pub open spec fn field_views(fs: Seq<SearchField>) -> Seq<(Seq<char>, Option<Seq<char>>, i64)> {
    fs.map_values(|f: SearchField| field_view(f))
}

/// Some fields with the given views.
pub open spec fn fields_with(v: Seq<(Seq<char>, Option<Seq<char>>, i64)>) -> Seq<SearchField<'static>> {
    choose|fs: Seq<SearchField<'static>>| field_views(fs) == v
}

/// The fallback score of fields given by their views.
pub open spec fn score_of_views(
    query: Seq<char>,
    terms: Seq<Seq<char>>,
    v: Seq<(Seq<char>, Option<Seq<char>>, i64)>,
) -> int {
    fallback_score_of(query, terms, fields_with(v))
}

/// The matching field names of fields given by their views.
pub open spec fn names_of_views(
    query: Seq<char>,
    terms: Seq<Seq<char>>,
    v: Seq<(Seq<char>, Option<Seq<char>>, i64)>,
) -> Seq<Seq<char>> {
    matched_names(spec_to_lowercase(trimmed(query)), lower_all(terms), fields_with(v))
}

/// Whether the query occurs literally in fields given by their views.
pub open spec fn literal_of_views(query: Seq<char>, v: Seq<(Seq<char>, Option<Seq<char>>, i64)>) -> bool {
    any_literal(spec_to_lowercase(trimmed(query)), fields_with(v))
}

/// The covered terms of fields given by their views.
pub open spec fn covered_of_views(
    query: Seq<char>,
    terms: Seq<Seq<char>>,
    v: Seq<(Seq<char>, Option<Seq<char>>, i64)>,
) -> nat {
    covered_terms(query, terms, fields_with(v))
}

proof fn lemma_fields_congruent(lq: Seq<char>, lterms: Seq<Seq<char>>, a: Seq<SearchField>, b: Seq<SearchField>)
    requires
        field_views(a) == field_views(b),
    ensures
        matched_names(lq, lterms, a) == matched_names(lq, lterms, b),
        matched_weight(lq, lterms, a) == matched_weight(lq, lterms, b),
        any_literal(lq, a) == any_literal(lq, b),
        forall|t: Seq<char>| term_found(t, a) == #[trigger] term_found(t, b),
    decreases a.len(),
{
    assert(a.len() == field_views(a).len());
    assert(b.len() == field_views(b).len());
    if a.len() > 0 {
        assert(field_views(a.drop_last()) =~= field_views(a).drop_last());
        assert(field_views(b.drop_last()) =~= field_views(b).drop_last());
        lemma_fields_congruent(lq, lterms, a.drop_last(), b.drop_last());
        assert(field_view(a.last()) == field_views(a)[a.len() - 1]);
        assert(field_view(b.last()) == field_views(b)[b.len() - 1]);
        assert(lower_text(a.last()) == lower_text(b.last()));
        assert forall|t: Seq<char>| term_found(t, a) == #[trigger] term_found(t, b) by {
            assert(term_found(t, a.drop_last()) == term_found(t, b.drop_last()));
        }
    }
}

proof fn lemma_terms_found_congruent(lterms: Seq<Seq<char>>, a: Seq<SearchField>, b: Seq<SearchField>)
    requires
        forall|t: Seq<char>| term_found(t, a) == #[trigger] term_found(t, b),
    ensures
        terms_found(lterms, a) == terms_found(lterms, b),
    decreases lterms.len(),
{
    if lterms.len() > 0 {
        lemma_terms_found_congruent(lterms.drop_last(), a, b);
        assert(term_found(lterms.last(), a) == term_found(lterms.last(), b));
    }
}

proof fn lemma_named_when_matches(lq: Seq<char>, lterms: Seq<Seq<char>>, fs: Seq<SearchField>, i: int)
    requires
        0 <= i < fs.len(),
        field_matches(lq, lterms, fs[i]),
    ensures
        matched_names(lq, lterms, fs).contains(fs[i].name@),
    decreases fs.len(),
{
    let prev = matched_names(lq, lterms, fs.drop_last());
    if i == fs.len() - 1 {
        assert(fs.last() == fs[i]);
        assert(prev.push(fs[i].name@)[prev.len() as int] == fs[i].name@);
    } else {
        assert(fs.drop_last()[i] == fs[i]);
        lemma_named_when_matches(lq, lterms, fs.drop_last(), i);
        let k = choose|k: int| 0 <= k < prev.len() && prev[k] == fs[i].name@;
        if field_matches(lq, lterms, fs.last()) {
            assert(prev.push(fs.last().name@)[k] == fs[i].name@);
        }
    }
}

proof fn lemma_literal_at(lq: Seq<char>, fs: Seq<SearchField>, i: int)
    requires
        0 <= i < fs.len(),
        field_literal(lq, fs[i]),
    ensures
        any_literal(lq, fs),
    decreases fs.len(),
{
    if i == fs.len() - 1 {
        assert(fs.last() == fs[i]);
    } else {
        assert(fs.drop_last()[i] == fs[i]);
        lemma_literal_at(lq, fs.drop_last(), i);
    }
}

proof fn lemma_term_at(term: Seq<char>, fs: Seq<SearchField>, i: int)
    requires
        0 <= i < fs.len(),
        fs[i].text is Some,
        contains_seq(spec_to_lowercase(fs[i].text.unwrap()@), term),
    ensures
        term_found(term, fs),
    decreases fs.len(),
{
    if i == fs.len() - 1 {
        assert(fs.last() == fs[i]);
    } else {
        assert(fs.drop_last()[i] == fs[i]);
        lemma_term_at(term, fs.drop_last(), i);
    }
}

proof fn lemma_all_terms_found(lterms: Seq<Seq<char>>, fs: Seq<SearchField>)
    requires
        forall|j: int| 0 <= j < lterms.len() ==> term_found(#[trigger] lterms[j], fs),
    ensures
        terms_found(lterms, fs) == lterms.len(),
    decreases lterms.len(),
{
    if lterms.len() > 0 {
        let p = lterms.drop_last();
        assert forall|j: int| 0 <= j < p.len() implies term_found(#[trigger] p[j], fs) by {
            assert(p[j] == lterms[j]);
        }
        lemma_all_terms_found(p, fs);
        assert(term_found(lterms[lterms.len() - 1], fs));
    }
}

proof fn lemma_count_positive(text: Seq<char>, terms: Seq<Seq<char>>, j: int)
    requires
        0 <= j < terms.len(),
        contains_seq(text, terms[j]),
    ensures
        count_terms_in(text, terms) > 0,
    decreases terms.len(),
{
    if j < terms.len() - 1 {
        assert(terms.drop_last()[j] == terms[j]);
        lemma_count_positive(text, terms.drop_last(), j);
    }
}

/// What a search reports of a field that holds the query or its terms: a
/// field whose lower-cased text holds the lower-cased trimmed query makes the
/// match literal and is named among the matching fields; one that holds some
/// lower-cased term is named too; and one that holds every term (when there
/// are terms) makes every term covered.
pub proof fn lemma_field_hit_reported(query: Seq<char>, terms: Seq<Seq<char>>, fs: Seq<SearchField>, i: int)
    requires
        0 <= i < fs.len(),
        fs[i].text is Some,
    ensures
        ({
            let lq = spec_to_lowercase(trimmed(query));
            let lts = lower_all(terms);
            let lt = spec_to_lowercase(fs[i].text.unwrap()@);
            &&& (lq.len() > 0 && contains_seq(lt, lq)) ==> any_literal(lq, fs) && matched_names(
                lq,
                lts,
                fs,
            ).contains(fs[i].name@)
            &&& (exists|j: int| 0 <= j < lts.len() && contains_seq(lt, #[trigger] lts[j])) ==> matched_names(
                lq,
                lts,
                fs,
            ).contains(fs[i].name@)
            &&& (terms.len() > 0 && forall|j: int| 0 <= j < lts.len() ==> contains_seq(lt, #[trigger] lts[j]))
                ==> covered_terms(query, terms, fs) == terms.len()
            &&& ((forall|k: int| 0 <= k < fs.len() ==> #[trigger] fs[k].weight >= 0) && ((lq.len() > 0
                && contains_seq(lt, lq)) || exists|j: int| 0 <= j < lts.len() && contains_seq(lt, #[trigger] lts[j])))
                ==> fallback_score_of(query, terms, fs) >= fs[i].weight
        }),
{
    let lq = spec_to_lowercase(trimmed(query));
    let lts = lower_all(terms);
    let lt = spec_to_lowercase(fs[i].text.unwrap()@);
    assert(lower_text(fs[i]) == Some(lt));
    if lq.len() > 0 && contains_seq(lt, lq) {
        lemma_literal_at(lq, fs, i);
        lemma_named_when_matches(lq, lts, fs, i);
    }
    if exists|j: int| 0 <= j < lts.len() && contains_seq(lt, #[trigger] lts[j]) {
        let j = choose|j: int| 0 <= j < lts.len() && contains_seq(lt, #[trigger] lts[j]);
        lemma_count_positive(lt, lts, j);
        lemma_named_when_matches(lq, lts, fs, i);
    }
    if terms.len() > 0 && forall|j: int| 0 <= j < lts.len() ==> contains_seq(lt, #[trigger] lts[j]) {
        assert forall|j: int| 0 <= j < lts.len() implies term_found(#[trigger] lts[j], fs) by {
            lemma_term_at(lts[j], fs, i);
        }
        lemma_all_terms_found(lts, fs);
    }
    if (forall|k: int| 0 <= k < fs.len() ==> #[trigger] fs[k].weight >= 0) && ((lq.len() > 0 && contains_seq(
        lt,
        lq,
    )) || exists|j: int| 0 <= j < lts.len() && contains_seq(lt, #[trigger] lts[j])) {
        if !(lq.len() > 0 && contains_seq(lt, lq)) {
            let j = choose|j: int| 0 <= j < lts.len() && contains_seq(lt, #[trigger] lts[j]);
            lemma_count_positive(lt, lts, j);
        }
        lemma_field_weight_counts(query, terms, fs, i);
    }
}

proof fn lemma_matched_weight_at(lq: Seq<char>, lterms: Seq<Seq<char>>, fs: Seq<SearchField>, i: int)
    requires
        forall|k: int| 0 <= k < fs.len() ==> #[trigger] fs[k].weight >= 0,
    ensures
        matched_weight(lq, lterms, fs) >= 0,
        0 <= i < fs.len() && field_matches(lq, lterms, fs[i]) ==> matched_weight(lq, lterms, fs)
            >= fs[i].weight,
    decreases fs.len(),
{
    if fs.len() > 0 {
        let p = fs.drop_last();
        assert forall|k: int| 0 <= k < p.len() implies #[trigger] p[k].weight >= 0 by {
            assert(p[k] == fs[k]);
        }
        assert(fs.last() == fs[fs.len() - 1]);
        if i == fs.len() - 1 {
            lemma_matched_weight_at(lq, lterms, p, 0);
        } else {
            lemma_matched_weight_at(lq, lterms, p, i);
            if 0 <= i < p.len() {
                assert(p[i] == fs[i]);
            }
        }
    }
}

/// With no negative weight, a matching field adds its weight to the fallback
/// score.
pub proof fn lemma_field_weight_counts(query: Seq<char>, terms: Seq<Seq<char>>, fs: Seq<SearchField>, i: int)
    requires
        forall|k: int| 0 <= k < fs.len() ==> #[trigger] fs[k].weight >= 0,
        0 <= i < fs.len(),
        field_matches(spec_to_lowercase(trimmed(query)), lower_all(terms), fs[i]),
    ensures
        fallback_score_of(query, terms, fs) >= fs[i].weight,
{
    lemma_matched_weight_at(spec_to_lowercase(trimmed(query)), lower_all(terms), fs, i);
}

/// What `analyze_match` reports of fields depends only on their views.
pub proof fn lemma_analysis_by_views(query: Seq<char>, terms: Seq<Seq<char>>, fs: Seq<SearchField>)
    ensures
        fallback_score_of(query, terms, fs) == score_of_views(query, terms, field_views(fs)),
        matched_names(spec_to_lowercase(trimmed(query)), lower_all(terms), fs) == names_of_views(
            query,
            terms,
            field_views(fs),
        ),
        any_literal(spec_to_lowercase(trimmed(query)), fs) == literal_of_views(query, field_views(fs)),
        covered_terms(query, terms, fs) == covered_of_views(query, terms, field_views(fs)),
{
    let v = field_views(fs);
    assert(exists|g: Seq<SearchField>| field_views(g) == v);
    let g = fields_with(v);
    let lq = spec_to_lowercase(trimmed(query));
    lemma_fields_congruent(lq, lower_all(terms), fs, g);
    lemma_terms_found_congruent(lower_all(terms), fs, g);
}

} // verus!
