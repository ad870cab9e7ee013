use vstd::prelude::*;

use crate::output::{excerpt, excerpt_of};
use crate::query::{normalize_query_terms, query_terms};
use crate::search_meta::{
    build_search_meta, join_terms, normalized_query_of, views, SearchBackend, SearchExplain,
    SearchMeta, SearchQueryMode,
};
use crate::search_rank::{EventSearchHit, MessageSearchHit, ThreadSearchHit};
use crate::sync_types::opt_view;
use crate::text::{join, str_eq, trim, trimmed};

verus! {

/// How many hits the `LIKE` stages fetch for a limit: five times the limit,
/// at least 50 and at most 250.
pub open spec fn fallback_limit_of(limit: usize) -> usize {
    let five: int = if limit * 5 > usize::MAX {
        usize::MAX as int
    } else {
        limit * 5
    };
    let at_least: int = if five < 50 {
        50
    } else {
        five
    };
    (if at_least > 250 {
        250
    } else {
        at_least
    }) as usize
}

/// How many hits the `LIKE` stages fetch for a limit.
pub fn fallback_candidate_limit(limit: usize) -> (r: usize)
    ensures
        r == fallback_limit_of(limit),
        50 <= r <= 250,
{
    let five: usize = if limit > usize::MAX / 5 {
        usize::MAX
    } else {
        limit * 5
    };
    let at_least: usize = if five < 50 {
        50
    } else {
        five
    };
    if at_least > 250 {
        250
    } else {
        at_least
    }
}

/// Whether a search by terms is possible: a normalized query and terms.
pub fn should_expand_query_terms(normalized_query: &str, query_terms: &[String]) -> (r: bool)
    ensures
        r == (normalized_query@.len() > 0 && query_terms@.len() > 0),
{
    !normalized_query.is_empty() && query_terms.len() > 0
}

/// The full-text query of the expanded stage: the normalized query, when it
/// is not empty and differs from the query as typed.
pub open spec fn expanded_query_of(original: Seq<char>, normalized: Seq<char>) -> Option<Seq<char>> {
    if normalized.len() > 0 && normalized != original {
        Some(normalized)
    } else {
        None
    }
}

/// The full-text query of the expanded stage.
pub fn expanded_fts_query(original_query: &str, normalized_query: &str) -> (r: Option<String>)
    ensures
        opt_view(r) == expanded_query_of(original_query@, normalized_query@),
{
    if !normalized_query.is_empty() && !str_eq(normalized_query, original_query) {
        Some(normalized_query.to_owned())
    } else {
        None
    }
}

/// The stages of a search, in the order they may run.
#[derive(Debug, Clone, Copy, PartialEq, Eq, Structural)]
pub enum SearchStage {
    /// Full-text search with the query as typed.
    FtsLiteral,
    /// `LIKE` search with the query as typed.
    LikeLiteral,
    /// Full-text search with the normalized query.
    FtsExpanded,
    /// `LIKE` search requiring every term.
    LikeTerms,
}

/// The position of a stage in the order stages run.
pub open spec fn stage_index(s: SearchStage) -> int {
    match s {
        SearchStage::FtsLiteral => 0,
        SearchStage::LikeLiteral => 1,
        SearchStage::FtsExpanded => 2,
        SearchStage::LikeTerms => 3,
    }
}

/// What a stage gave.
#[derive(Debug, Clone, Copy, PartialEq, Eq, Structural)]
pub enum StageOutcome {
    /// The query failed.
    Failed,
    /// It found nothing.
    Empty,
    /// It found hits.
    Found,
}

/// What the searcher does next.
#[derive(Debug, Clone)]
pub enum SearchStep {
    /// Run `stage` with `text` (the full-text query for FTS stages, and the
    /// text excerpts are cut around) fetching at most `limit` hits.
    Run { stage: SearchStage, text: String, limit: usize },
    /// Answer with the hits of the stage just run, under this description.
    Answer { meta: SearchMeta },
    /// Answer with no hits, under this description.
    Empty { meta: SearchMeta },
    /// Fail with the error of the stage just run.
    Fail,
}

/// The state of a search between stages.
#[derive(Debug, Clone)]
pub struct SearchCascade {
    pub query: String,
    pub terms: Vec<String>,
    pub normalized_query: String,
    pub limit: usize,
    pub fallback_limit: usize,
    pub fts_available: bool,
    pub stage: SearchStage,
}

/// The normalized query: the terms joined by spaces, or the query when it
/// has no terms.
pub open spec fn normalized_of(query: Seq<char>, terms: Seq<Seq<char>>) -> Seq<char> {
    if terms.len() == 0 {
        query
    } else {
        join(terms, seq![' '])
    }
}

/// A description of how a search was answered.
pub open spec fn describes(
    m: SearchMeta,
    query: Seq<char>,
    terms: Seq<Seq<char>>,
    backend: SearchBackend,
    mode: SearchQueryMode,
) -> bool {
    &&& m.backend == backend
    &&& m.query_mode == mode
    &&& m.ranking@ == (if backend == SearchBackend::Fts {
        "bm25"@
    } else {
        "field_match_then_recency"@
    })
    &&& views(m.normalized_terms@) == terms
    &&& opt_view(m.normalized_query) == normalized_query_of(query, terms, mode)
}

impl SearchCascade {
    /// The cascade is consistent with its query.
    pub open spec fn wf(&self) -> bool {
        &&& self.query@ == trimmed(self.query@)
        &&& self.query@.len() > 0
        &&& views(self.terms@) == query_terms(self.query@)
        &&& self.normalized_query@ == normalized_of(self.query@, views(self.terms@))
        &&& self.fallback_limit == fallback_limit_of(self.limit)
        &&& self.terms@.len() <= 0x100_0000_0000
    }

    /// Whether the expanded full-text stage runs after the literal stages
    /// found nothing.
    pub open spec fn expands_fts(&self) -> bool {
        self.fts_available && self.query@.len() > 0 && self.terms@.len() > 0 && expanded_query_of(
            self.query@,
            self.normalized_query@,
        ) is Some
    }

    /// Whether the `LIKE` stage by terms runs.
    pub open spec fn expands_like(&self) -> bool {
        self.normalized_query@.len() > 0 && self.terms@.len() > 0
    }

    fn meta(&self, backend: SearchBackend, mode: SearchQueryMode) -> (r: SearchMeta)
        ensures
            describes(r, self.query@, views(self.terms@), backend, mode),
    {
        let ranking: &'static str = if backend == SearchBackend::Fts {
            "bm25"
        } else {
            "field_match_then_recency"
        };
        build_search_meta(self.query.as_str(), self.terms.as_slice(), backend, mode, ranking)
    }

    /// Starts a search for `query` returning at most `limit` hits. A blank
    /// query is answered at once with nothing. Otherwise the first stage is
    /// the literal full-text search when the index has full-text tables, else
    /// the literal `LIKE` search.
    pub fn start(query: &str, limit: usize, fts_available: bool) -> (r: (SearchCascade, SearchStep))
        requires
            query@.len() <= 0x100_0000_0000,
        ensures
            trimmed(query@).len() == 0 ==> (r.1 matches SearchStep::Empty { meta } && describes(
                meta,
                trimmed(query@),
                seq![],
                SearchBackend::Like,
                SearchQueryMode::Literal,
            )),
            trimmed(query@).len() > 0 ==> {
                &&& r.0.wf()
                &&& r.0.query@ == trimmed(query@)
                &&& r.0.limit == limit
                &&& r.0.fts_available == fts_available
                &&& if fts_available {
                    &&& r.0.stage == SearchStage::FtsLiteral
                    &&& r.1 matches SearchStep::Run { stage, text, limit: l } && stage
                        == SearchStage::FtsLiteral && text@ == r.0.query@ && l == limit
                } else {
                    &&& r.0.stage == SearchStage::LikeLiteral
                    &&& r.1 matches SearchStep::Run { stage, text, limit: l } && stage
                        == SearchStage::LikeLiteral && text@ == r.0.query@ && l == fallback_limit_of(
                        limit,
                    )
                }
            },
    {
        let original = trim(query);
        let terms = normalize_query_terms(original.as_str());
        proof {
            crate::text::lemma_trimmed_idempotent(query@);
        }
        let normalized_query = if terms.len() == 0 {
            original.clone()
        } else {
            join_terms(terms.as_slice())
        };
        let fallback_limit = fallback_candidate_limit(limit);
        let stage = if fts_available {
            SearchStage::FtsLiteral
        } else {
            SearchStage::LikeLiteral
        };
        let cascade = SearchCascade {
            query: original,
            terms,
            normalized_query,
            limit,
            fallback_limit,
            fts_available,
            stage,
        };
        if cascade.query.as_str().is_empty() {
            let no_terms: Vec<String> = Vec::new();
            let meta = build_search_meta(
                cascade.query.as_str(),
                no_terms.as_slice(),
                SearchBackend::Like,
                SearchQueryMode::Literal,
                "field_match_then_recency",
            );
            assert(views(no_terms@) =~= seq![]);
            return (cascade, SearchStep::Empty { meta });
        }
        proof {
            crate::query::lemma_query_terms_bound(cascade.query@);
            crate::text::lemma_trimmed_idempotent(query@);
        }
        let step = if fts_available {
            SearchStep::Run { stage: SearchStage::FtsLiteral, text: cascade.query.clone(), limit }
        } else {
            SearchStep::Run {
                stage: SearchStage::LikeLiteral,
                text: cascade.query.clone(),
                limit: fallback_limit,
            }
        };
        (cascade, step)
    }

    /// The step after the stage that ran gave `outcome`.
    ///
    /// A full-text stage never fails the search: a failure counts as no hits.
    /// A `LIKE` stage that fails fails the search. A stage with hits answers
    /// with them (the `LIKE` stage by terms answers even without hits). Each
    /// next stage comes later in the stage order.
    pub fn next(&mut self, outcome: StageOutcome) -> (r: SearchStep)
        requires
            old(self).wf(),
        ensures
            final(self).wf(),
            final(self).query == old(self).query,
            final(self).terms == old(self).terms,
            final(self).limit == old(self).limit,
            final(self).fts_available == old(self).fts_available,
            r matches SearchStep::Run { stage, .. } ==> stage == final(self).stage && stage_index(stage)
                > stage_index(old(self).stage),
            !(r matches SearchStep::Run { .. }) ==> final(self).stage == old(self).stage,
            (old(self).stage == SearchStage::FtsLiteral || old(self).stage == SearchStage::FtsExpanded)
                ==> !(r is Fail),
            (old(self).stage == SearchStage::LikeLiteral || old(self).stage == SearchStage::LikeTerms)
                ==> (r is Fail <==> outcome == StageOutcome::Failed),
            outcome == StageOutcome::Found ==> (r matches SearchStep::Answer { meta } && describes(
                meta,
                old(self).query@,
                views(old(self).terms@),
                if old(self).stage == SearchStage::FtsLiteral || old(self).stage
                    == SearchStage::FtsExpanded {
                    SearchBackend::Fts
                } else {
                    SearchBackend::Like
                },
                if old(self).stage == SearchStage::FtsLiteral || old(self).stage
                    == SearchStage::LikeLiteral {
                    SearchQueryMode::Literal
                } else {
                    SearchQueryMode::Expanded
                },
            )),
            outcome != StageOutcome::Found ==> match old(self).stage {
                SearchStage::FtsLiteral => r matches SearchStep::Run { stage, text, limit } && stage
                    == SearchStage::LikeLiteral && text@ == old(self).query@ && limit
                    == old(self).fallback_limit,
                SearchStage::LikeLiteral => outcome == StageOutcome::Empty ==> old(self).after_literal(r),
                SearchStage::FtsExpanded => old(self).like_terms_step(r),
                SearchStage::LikeTerms => outcome == StageOutcome::Empty ==> (r matches SearchStep::Answer {
                    meta,
                } && describes(
                    meta,
                    old(self).query@,
                    views(old(self).terms@),
                    SearchBackend::Like,
                    SearchQueryMode::Expanded,
                )),
            },
    {
        match self.stage {
            SearchStage::FtsLiteral => {
                if outcome == StageOutcome::Found {
                    return SearchStep::Answer {
                        meta: self.meta(SearchBackend::Fts, SearchQueryMode::Literal),
                    };
                }
                self.stage = SearchStage::LikeLiteral;
                SearchStep::Run {
                    stage: SearchStage::LikeLiteral,
                    text: self.query.clone(),
                    limit: self.fallback_limit,
                }
            },
            SearchStage::LikeLiteral => {
                if outcome == StageOutcome::Failed {
                    return SearchStep::Fail;
                }
                if outcome == StageOutcome::Found {
                    return SearchStep::Answer {
                        meta: self.meta(SearchBackend::Like, SearchQueryMode::Literal),
                    };
                }
                if self.fts_available && should_expand_query_terms(
                    self.query.as_str(),
                    self.terms.as_slice(),
                ) {
                    if let Some(q) = expanded_fts_query(
                        self.query.as_str(),
                        self.normalized_query.as_str(),
                    ) {
                        self.stage = SearchStage::FtsExpanded;
                        return SearchStep::Run {
                            stage: SearchStage::FtsExpanded,
                            text: q,
                            limit: self.limit,
                        };
                    }
                }
                self.start_like_terms()
            },
            SearchStage::FtsExpanded => {
                if outcome == StageOutcome::Found {
                    return SearchStep::Answer {
                        meta: self.meta(SearchBackend::Fts, SearchQueryMode::Expanded),
                    };
                }
                self.start_like_terms()
            },
            SearchStage::LikeTerms => {
                if outcome == StageOutcome::Failed {
                    return SearchStep::Fail;
                }
                SearchStep::Answer { meta: self.meta(SearchBackend::Like, SearchQueryMode::Expanded) }
            },
        }
    }

    /// The step after the literal stages found nothing: the expanded
    /// full-text stage when it runs, else what `like_terms_step` says.
    pub open spec fn after_literal(&self, r: SearchStep) -> bool {
        if self.expands_fts() {
            r matches SearchStep::Run { stage, text, limit } && stage == SearchStage::FtsExpanded
                && text@ == self.normalized_query@ && limit == self.limit
        } else {
            self.like_terms_step(r)
        }
    }

    /// The `LIKE` stage by terms with the normalized query, when it runs;
    /// else an answer with nothing.
    pub open spec fn like_terms_step(&self, r: SearchStep) -> bool {
        if self.expands_like() {
            r matches SearchStep::Run { stage, text, limit } && stage == SearchStage::LikeTerms
                && text@ == self.normalized_query@ && limit == self.fallback_limit
        } else {
            r matches SearchStep::Empty { meta } && describes(
                meta,
                self.query@,
                views(self.terms@),
                SearchBackend::Like,
                SearchQueryMode::Expanded,
            )
        }
    }

    fn start_like_terms(&mut self) -> (r: SearchStep)
        requires
            old(self).wf(),
            old(self).stage == SearchStage::LikeLiteral || old(self).stage == SearchStage::FtsExpanded,
        ensures
            old(self).like_terms_step(r),
            final(self).wf(),
            final(self).query == old(self).query,
            final(self).terms == old(self).terms,
            final(self).normalized_query == old(self).normalized_query,
            final(self).limit == old(self).limit,
            final(self).fallback_limit == old(self).fallback_limit,
            final(self).fts_available == old(self).fts_available,
            r matches SearchStep::Run { stage, .. } ==> final(self).stage == stage,
            !(r matches SearchStep::Run { .. }) ==> final(self).stage == old(self).stage,
    {
        if should_expand_query_terms(self.normalized_query.as_str(), self.terms.as_slice()) {
            self.stage = SearchStage::LikeTerms;
            SearchStep::Run {
                stage: SearchStage::LikeTerms,
                text: self.normalized_query.clone(),
                limit: self.fallback_limit,
            }
        } else {
            SearchStep::Empty { meta: self.meta(SearchBackend::Like, SearchQueryMode::Expanded) }
        }
    }
}

/// The snippet of a hit: the one the full-text engine cut, else an excerpt
/// of `source` around `query`.
pub open spec fn snippet_of(fts_snippet: Option<Seq<char>>, source: Seq<char>, query: Seq<char>) -> Seq<char> {
    match fts_snippet {
        Some(s) => s,
        None => excerpt_of(source, query, 120),
    }
}

fn snippet_or_excerpt(fts_snippet: Option<String>, source: &str, query: &str) -> (r: String)
    ensures
        r@ == snippet_of(opt_view(fts_snippet), source@, query@),
{
    match fts_snippet {
        Some(s) => s,
        None => excerpt(source, query, 120),
    }
}

/// A thread hit from a result row; the counts are read as stored.
pub fn thread_hit(
    session_id: String,
    title: String,
    cwd: Option<String>,
    path: String,
    message_count: i64,
    event_count: i64,
    aggregate_text: String,
    started_at: Option<String>,
    fts_snippet: Option<String>,
    snippet_query: &str,
) -> (r: ThreadSearchHit)
    ensures
        r.session_id == session_id,
        r.title == title,
        r.cwd == cwd,
        r.path == path,
        r.message_count == message_count as usize,
        r.event_count == event_count as usize,
        r.aggregate_text == aggregate_text,
        r.started_at == started_at,
        r.snippet@ == snippet_of(opt_view(fts_snippet), aggregate_text@, snippet_query@),
        r.explain.rank == 0 && r.explain.matched_fields@.len() == 0 && r.explain.matched_terms == 0
            && !r.explain.literal_match,
{
    let snippet = snippet_or_excerpt(fts_snippet, aggregate_text.as_str(), snippet_query);
    ThreadSearchHit {
        session_id,
        title,
        cwd,
        path,
        message_count: message_count as usize,
        event_count: event_count as usize,
        snippet,
        explain: SearchExplain::default(),
        aggregate_text,
        started_at,
    }
}

/// A message hit from a result row.
pub fn message_hit(
    session_id: String,
    title: Option<String>,
    timestamp: Option<String>,
    role: String,
    text: String,
    fts_snippet: Option<String>,
    snippet_query: &str,
) -> (r: MessageSearchHit)
    ensures
        r.session_id == session_id,
        r.title == title,
        r.timestamp == timestamp,
        r.role == role,
        r.text == text,
        r.snippet@ == snippet_of(opt_view(fts_snippet), text@, snippet_query@),
        r.explain.rank == 0 && r.explain.matched_fields@.len() == 0 && r.explain.matched_terms == 0
            && !r.explain.literal_match,
{
    let snippet = snippet_or_excerpt(fts_snippet, text.as_str(), snippet_query);
    MessageSearchHit {
        session_id,
        title,
        timestamp,
        role,
        text,
        snippet,
        explain: SearchExplain::default(),
    }
}

/// An event hit from a result row; excerpts are cut from `type summary`.
pub fn event_hit(
    session_id: String,
    title: Option<String>,
    timestamp: Option<String>,
    event_type: String,
    summary: String,
    fts_snippet: Option<String>,
    snippet_query: &str,
) -> (r: EventSearchHit)
    ensures
        r.session_id == session_id,
        r.title == title,
        r.timestamp == timestamp,
        r.event_type == event_type,
        r.summary == summary,
        r.snippet@ == snippet_of(opt_view(fts_snippet), event_type@ + " "@ + summary@, snippet_query@),
        r.explain.rank == 0 && r.explain.matched_fields@.len() == 0 && r.explain.matched_terms == 0
            && !r.explain.literal_match,
{
    let mut source = event_type.clone();
    source.append(" ");
    source.append(summary.as_str());
    let snippet = snippet_or_excerpt(fts_snippet, source.as_str(), snippet_query);
    EventSearchHit {
        session_id,
        title,
        timestamp,
        event_type,
        summary,
        snippet,
        explain: SearchExplain::default(),
    }
}

} // verus!
