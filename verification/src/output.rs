use vstd::prelude::*;

use vstd::string::{StrSliceExecFns, StringSliceAdditionalSpecFns};
use vstd::utf8::{decode_utf8, encode_utf8, is_char_boundary};

use crate::text::{
    chars_of, spec_to_lowercase, split_whitespace, string_from_chars, to_lowercase, trim, trimmed,
    words,
};

verus! {

/// Whether `needle` occurs in `hay` at byte `i`.
pub open spec fn bytes_at(hay: Seq<u8>, needle: Seq<u8>, i: int) -> bool {
    0 <= i && i + needle.len() <= hay.len() && hay.subrange(i, i + needle.len()) == needle
}

/// The first byte position of `needle` in `hay` among the first `n`
/// positions (`str::find`).
pub open spec fn find_from(hay: Seq<u8>, needle: Seq<u8>, n: nat) -> Option<int>
    decreases n,
{
    if n == 0 {
        None
    } else {
        match find_from(hay, needle, (n - 1) as nat) {
            Some(i) => Some(i),
            None => if bytes_at(hay, needle, n - 1) {
                Some(n - 1)
            } else {
                None
            },
        }
    }
}

/// The first byte position of `needle` in `hay` (`str::find`).
pub open spec fn find_bytes(hay: Seq<u8>, needle: Seq<u8>) -> Option<int> {
    find_from(hay, needle, (hay.len() + 1) as nat)
}

/// The position of the first of `terms`, taken in order, that occurs in
/// `hay`.
pub open spec fn first_term_at(hay: Seq<u8>, terms: Seq<Seq<u8>>) -> Option<int>
    decreases terms.len(),
{
    if terms.len() == 0 {
        None
    } else {
        match find_bytes(hay, terms[0]) {
            Some(i) => Some(i),
            None => first_term_at(hay, terms.drop_first()),
        }
    }
}

/// The UTF-8 bytes of the lower-cased words of a query.
pub open spec fn lowered_terms(query: Seq<char>) -> Seq<Seq<u8>> {
    words(query).map_values(|w: Seq<char>| encode_utf8(spec_to_lowercase(w)))
}

/// The excerpt of `text` shown for `query`: the trimmed text cut to a window
/// of `width` bytes that starts where the first query word (lower-cased, in
/// query order) first occurs in the lower-cased text, or at the start; the
/// whole trimmed text when that window does not fall on character
/// boundaries; `...` on both sides when anything was cut.
pub open spec fn excerpt_of(text: Seq<char>, query: Seq<char>, width: usize) -> Seq<char> {
    let n = trimmed(text);
    if n.len() == 0 {
        seq![]
    } else {
        let nb = encode_utf8(n);
        let lower = encode_utf8(spec_to_lowercase(n));
        let start: int = match first_term_at(lower, lowered_terms(query)) {
            Some(i) => i,
            None => 0,
        };
        let reach: int = if start + width > usize::MAX {
            usize::MAX as int
        } else {
            start + width
        };
        let end: int = if reach < nb.len() {
            reach
        } else {
            nb.len() as int
        };
        let slice = if start <= end && is_char_boundary(nb, start) && is_char_boundary(nb, end) {
            decode_utf8(nb.subrange(start, end))
        } else {
            n
        };
        if start > 0 || end < nb.len() {
            "..."@ + slice + "..."@
        } else {
            slice
        }
    }
}

/// Whether `needle` occurs in `hay` at `i`.
fn bytes_match_at(hay: &[u8], needle: &[u8], i: usize) -> (r: bool)
    requires
        i <= hay.len(),
    ensures
        r == bytes_at(hay@, needle@, i as int),
{
    if needle.len() > hay.len() - i {
        return false;
    }
    let mut k: usize = 0;
    while k < needle.len()
        invariant
            k <= needle.len(),
            i + needle.len() <= hay.len(),
            forall|j: int| 0 <= j < k ==> hay@[i + j] == needle@[j],
        decreases needle.len() - k,
    {
        if hay[i + k] != needle[k] {
            assert(hay@.subrange(i as int, i + needle.len())[k as int] != needle@[k as int]);
            return false;
        }
        k += 1;
    }
    assert(hay@.subrange(i as int, i + needle.len()) =~= needle@);
    true
}

/// The first byte position of `needle` in `hay`.
fn find_in(hay: &[u8], needle: &[u8]) -> (r: Option<usize>)
    ensures
        match r {
            Some(i) => find_bytes(hay@, needle@) == Some(i as int),
            None => find_bytes(hay@, needle@) is None,
        },
{
    let mut i: usize = 0;
    loop
        invariant
            i <= hay.len(),
            find_from(hay@, needle@, i as nat) is None,
        decreases hay.len() - i,
    {
        if bytes_match_at(hay, needle, i) {
            proof {
                lemma_find_stays(hay@, needle@, (i + 1) as nat, (hay.len() + 1) as nat);
            }
            return Some(i);
        }
        if i == hay.len() {
            return None;
        }
        i += 1;
    }
}

proof fn lemma_find_stays(hay: Seq<u8>, needle: Seq<u8>, n: nat, m: nat)
    requires
        n <= m,
        find_from(hay, needle, n) is Some,
    ensures
        find_from(hay, needle, m) == find_from(hay, needle, n),
    decreases m,
{
    if m > n {
        lemma_find_stays(hay, needle, n, (m - 1) as nat);
    }
}

proof fn lemma_find_below(hay: Seq<u8>, needle: Seq<u8>, n: nat)
    ensures
        find_from(hay, needle, n) matches Some(i) ==> 0 <= i < n && bytes_at(hay, needle, i),
    decreases n,
{
    if n > 0 {
        lemma_find_below(hay, needle, (n - 1) as nat);
    }
}

/// The lower-cased words of a query, as bytes.
fn query_term_bytes(query: &str) -> (r: Vec<Vec<u8>>)
    ensures
        r@.map_values(|b: Vec<u8>| b@) == lowered_terms(query@),
{
    let qc = chars_of(query);
    let ws = split_whitespace(&qc);
    let ghost wv = ws@.map_values(|w: Vec<char>| w@);
    let mut out: Vec<Vec<u8>> = Vec::new();
    let mut i: usize = 0;
    while i < ws.len()
        invariant
            i <= ws.len(),
            wv == ws@.map_values(|w: Vec<char>| w@),
            wv == words(query@),
            out@.map_values(|b: Vec<u8>| b@) == lowered_terms(query@).take(i as int),
        decreases ws.len() - i,
    {
        let w = string_from_chars(ws[i].as_slice());
        let lw = to_lowercase(w.as_str());
        let b = lw.as_str().as_bytes_vec();
        let ghost prev = out@.map_values(|b: Vec<u8>| b@);
        out.push(b);
        assert(wv[i as int] == ws@[i as int]@);
        assert(out@.map_values(|b: Vec<u8>| b@) =~= prev.push(b@));
        assert(lowered_terms(query@).take(i + 1 as int) =~= lowered_terms(query@).take(i as int).push(
            encode_utf8(spec_to_lowercase(wv[i as int])),
        ));
        i += 1;
    }
    assert(lowered_terms(query@).take(ws.len() as int) =~= lowered_terms(query@));
    out
}

/// The position of the first query word that occurs in `hay`.
fn first_term_in(hay: &[u8], terms: &Vec<Vec<u8>>) -> (r: Option<usize>)
    ensures
        match r {
            Some(i) => first_term_at(hay@, terms@.map_values(|b: Vec<u8>| b@)) == Some(i as int),
            None => first_term_at(hay@, terms@.map_values(|b: Vec<u8>| b@)) is None,
        },
{
    let ghost tv = terms@.map_values(|b: Vec<u8>| b@);
    assert(tv.skip(0) =~= tv);
    let mut i: usize = 0;
    while i < terms.len()
        invariant
            i <= terms.len(),
            tv == terms@.map_values(|b: Vec<u8>| b@),
            first_term_at(hay@, tv) == first_term_at(hay@, tv.skip(i as int)),
        decreases terms.len() - i,
    {
        assert(tv.skip(i as int)[0] == terms@[i as int]@);
        assert(tv.skip(i as int).drop_first() =~= tv.skip(i + 1 as int));
        if let Some(p) = find_in(hay, terms[i].as_slice()) {
            return Some(p);
        }
        i += 1;
    }
    None
}

/// `...` + `s` + `...`.
fn ellipsize(s: &str) -> (r: String)
    ensures
        r@ == "..."@ + s@ + "..."@,
{
    let mut r = "...".to_owned();
    r.append(s);
    r.append("...");
    r
}

/// The excerpt of `text` shown for `query` (see `excerpt_of`).
pub fn excerpt(text: &str, query: &str, width: usize) -> (r: String)
    ensures
        r@ == excerpt_of(text@, query@, width),
{
    let normalized = trim(text);
    let n = normalized.as_str();
    if n.is_empty() {
        return String::new();
    }
    let lower = to_lowercase(n);
    let terms = query_term_bytes(query);
    let start: usize = match first_term_in(lower.as_str().as_bytes(), &terms) {
        Some(i) => i,
        None => 0,
    };
    let nb = n.as_bytes();
    let reach = start.saturating_add(width);
    let end: usize = if reach < nb.len() {
        reach
    } else {
        nb.len()
    };
    proof {
        vstd::utf8::encode_utf8_decode_utf8(n@);
    }
    let whole = start > 0 || end < nb.len();
    if start <= end && n.is_char_boundary(start) && n.is_char_boundary(end) {
        let (_, rest) = n.split_at(start);
        proof {
            vstd::utf8::encode_utf8_valid_utf8(n@);
            vstd::utf8::valid_utf8_split(n.spec_bytes(), start as int);
            lemma_char_boundary_shift(n.spec_bytes(), start as int, end as int);
        }
        let (slice, _) = rest.split_at(end - start);
        proof {
            vstd::utf8::encode_utf8_decode_utf8(slice@);
            assert(slice.spec_bytes() =~= n.spec_bytes().subrange(start as int, end as int));
        }
        if whole {
            ellipsize(slice)
        } else {
            slice.to_owned()
        }
    } else {
        if whole {
            ellipsize(n)
        } else {
            n.to_owned()
        }
    }
}

proof fn lemma_char_boundary_shift(bytes: Seq<u8>, start: int, end: int)
    requires
        vstd::utf8::valid_utf8(bytes),
        0 <= start <= end <= bytes.len(),
        is_char_boundary(bytes, start),
        is_char_boundary(bytes, end),
    ensures
        is_char_boundary(bytes.subrange(start, bytes.len() as int), end - start),
{
    let rest = bytes.subrange(start, bytes.len() as int);
    vstd::utf8::valid_utf8_split(bytes, start);
    if end == bytes.len() {
        vstd::utf8::is_char_boundary_start_end_of_seq(rest);
        assert(rest.len() == end - start);
    } else if end > start {
        vstd::utf8::is_char_boundary_iff_not_is_continuation_byte(bytes, end);
        assert(rest[end - start] == bytes[end]);
        vstd::utf8::is_char_boundary_iff_not_is_continuation_byte(rest, end - start);
    }
}

} // verus!
