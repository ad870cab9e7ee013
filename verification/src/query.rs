use vstd::prelude::*;

use crate::text::{
    chars_of, is_alphanumeric, runs, split_by, spec_is_alphanumeric, string_from_chars, trim_chars,
    trimmed,
};

verus! {

/// Characters that separate query terms: everything that is not alphanumeric.
pub open spec fn term_sep() -> spec_fn(char) -> bool {
    |c: char| !spec_is_alphanumeric(c)
}

/// The terms of a query: the maximal runs of alphanumeric characters of the
/// trimmed query, in order.
pub open spec fn query_terms(query: Seq<char>) -> Seq<Seq<char>> {
    runs(trimmed(query), term_sep())
}

/// Splits a query into its alphanumeric terms, dropping every other character.
pub fn normalize_query_terms(query: &str) -> (r: Vec<String>)
    ensures
        r@.map_values(|t: String| t@) == query_terms(query@),
{
    let cs = chars_of(query);
    let s = trim_chars(&cs);
    let mut done: Vec<String> = Vec::new();
    let mut cur: Vec<char> = Vec::new();
    let mut i: usize = 0;
    while i < s.len()
        invariant
            i <= s.len(),
            split_by(s@.take(i as int), term_sep()) == (
                done@.map_values(|w: String| w@),
                cur@,
            ),
        decreases s.len() - i,
    {
        let c = s[i];
        let ghost before = s@.take(i as int);
        assert(s@.take(i + 1 as int).drop_last() == before);
        if !is_alphanumeric(c) {
            if cur.len() > 0 {
                let w = string_from_chars(cur.as_slice());
                cur = Vec::new();
                done.push(w);
                assert(done@.map_values(|w: String| w@) == split_by(before, term_sep()).0.push(
                    split_by(before, term_sep()).1,
                ));
            }
        } else {
            cur.push(c);
        }
        i += 1;
    }
    assert(s@.take(s.len() as int) == s@);
    if cur.len() > 0 {
        let w = string_from_chars(cur.as_slice());
        done.push(w);
    }
    done
}

/// A query has no more terms than characters.
pub proof fn lemma_query_terms_bound(query: Seq<char>)
    ensures
        query_terms(query).len() <= query.len(),
{
    crate::text::lemma_trimmed_idempotent(query);
    crate::text::lemma_split_by_bound(trimmed(query), term_sep());
}

} // verus!
