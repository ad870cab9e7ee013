use vstd::prelude::*;

use crate::text::{chars_of, string_from_chars, trim, trimmed};

verus! {

/// A capability that must be enabled explicitly.
#[derive(Debug, Clone, Copy, PartialEq, Eq, Structural, PartialOrd, Ord, Hash)]
pub enum ExperimentalFeature {
    RestoreAppThread,
}

/// Why experimental options were refused.
#[derive(Debug, Clone)]
pub enum ExperimentalError {
    /// A feature name that names no feature.
    Unknown { name: String },
    /// An empty entry in the comma-separated list.
    EmptyEntry,
    /// The feature is used without being enabled.
    NotEnabled { feature: ExperimentalFeature },
}

/// The name of a feature.
pub open spec fn feature_name(f: ExperimentalFeature) -> Seq<char> {
    match f {
        ExperimentalFeature::RestoreAppThread => "restore-app-thread"@,
    }
}

/// The feature a name denotes.
pub open spec fn feature_named(name: Seq<char>) -> Option<ExperimentalFeature> {
    if name == "restore-app-thread"@ {
        Some(ExperimentalFeature::RestoreAppThread)
    } else {
        None
    }
}

impl ExperimentalError {
    /// The text shown for the error.
    pub open spec fn spec_message(&self) -> Seq<char> {
        match self {
            ExperimentalError::Unknown { name } => "未知实验能力: "@ + name@ + "。当前可用值: restore-app-thread"@,
            ExperimentalError::EmptyEntry => "--enable-experimentals 里不能包含空的 feature 名，请使用 --enable-experimentals restore-app-thread"@,
            ExperimentalError::NotEnabled { feature } => "这个能力当前仍处于实验阶段。请显式添加 --enable-experimentals "@
                + feature_name(*feature) + " 后再执行。"@,
        }
    }

    /// The text shown for the error.
    pub fn message(&self) -> (r: String)
        ensures
            r@ == self.spec_message(),
    {
        match self {
            ExperimentalError::Unknown { name } => {
                let mut s = "未知实验能力: ".to_owned();
                s.append(name.as_str());
                s.append("。当前可用值: restore-app-thread");
                s
            },
            ExperimentalError::EmptyEntry => "--enable-experimentals 里不能包含空的 feature 名，请使用 --enable-experimentals restore-app-thread".to_owned(),
            ExperimentalError::NotEnabled { feature } => {
                let mut s = "这个能力当前仍处于实验阶段。请显式添加 --enable-experimentals ".to_owned();
                s.append(feature.as_str());
                s.append(" 后再执行。");
                s
            },
        }
    }
}

impl ExperimentalFeature {
    /// The feature named `value`; an error naming `value` when there is none.
    pub fn parse(value: &str) -> (r: Result<ExperimentalFeature, ExperimentalError>)
        ensures
            match feature_named(value@) {
                Some(f) => r == Ok::<ExperimentalFeature, ExperimentalError>(f),
                None => r matches Err(ExperimentalError::Unknown { name }) && name@ == value@,
            },
    {
        if crate::text::str_eq(value, "restore-app-thread") {
            Ok(ExperimentalFeature::RestoreAppThread)
        } else {
            Err(ExperimentalError::Unknown { name: value.to_owned() })
        }
    }

    /// The name of the feature.
    pub fn as_str(&self) -> (r: &'static str)
        ensures
            r@ == feature_name(*self),
    {
        match self {
            ExperimentalFeature::RestoreAppThread => "restore-app-thread",
        }
    }
}

/// The pieces of `s` between commas, empty ones included (`str::split(',')`).
pub open spec fn comma_pieces(s: Seq<char>) -> Seq<Seq<char>>
    decreases s.len(),
{
    if s.len() == 0 {
        seq![seq![]]
    } else {
        let prev = comma_pieces(s.drop_last());
        if s.last() == ',' {
            prev.push(seq![])
        } else {
            prev.update(prev.len() - 1, prev.last().push(s.last()))
        }
    }
}

proof fn lemma_comma_pieces_nonempty(s: Seq<char>)
    ensures
        comma_pieces(s).len() >= 1,
    decreases s.len(),
{
    if s.len() > 0 {
        lemma_comma_pieces_nonempty(s.drop_last());
    }
}

/// The outcome of reading the entries from the `n`-th piece on: the first
/// blank entry or unknown name (trimmed) is the error; else every entry
/// names a feature.
pub open spec fn entries_outcome(pieces: Seq<Seq<char>>, n: int) -> Result<(), Option<Seq<char>>>
    decreases pieces.len() - n,
{
    if n >= pieces.len() || n < 0 {
        Ok(())
    } else {
        let t = trimmed(pieces[n]);
        if t.len() == 0 {
            Err(None)
        } else if feature_named(t) is None {
            Err(Some(t))
        } else {
            entries_outcome(pieces, n + 1)
        }
    }
}

/// The features enabled for a run.
#[derive(Debug, Clone)]
pub struct ExperimentalFeatures {
    pub enabled: Vec<ExperimentalFeature>,
}

impl ExperimentalFeatures {
    /// Whether `f` is enabled.
    pub open spec fn has(&self, f: ExperimentalFeature) -> bool {
        self.enabled@.contains(f)
    }

    /// No feature twice.
    pub open spec fn wf(&self) -> bool {
        self.enabled@.no_duplicates()
    }

    /// No feature enabled.
    pub fn none() -> (r: ExperimentalFeatures)
        ensures
            r.wf(),
            forall|f: ExperimentalFeature| !r.has(f),
    {
        ExperimentalFeatures { enabled: Vec::new() }
    }

    /// Reads `--enable-experimentals`: comma-separated feature names, each
    /// trimmed. Absent, nothing is enabled; an empty entry or an unknown name
    /// (the first in order) is refused; otherwise the named features are
    /// enabled.
    pub fn parse_csv(raw: Option<&str>) -> (r: Result<ExperimentalFeatures, ExperimentalError>)
        ensures
            match raw {
                None => r matches Ok(fs) && fs.wf() && forall|f: ExperimentalFeature| !fs.has(f),
                Some(s) => match entries_outcome(comma_pieces(s@), 0) {
                    Ok(()) => r matches Ok(fs) && fs.wf() && forall|f: ExperimentalFeature|
                        fs.has(f) <==> exists|k: int|
                            0 <= k < comma_pieces(s@).len() && feature_named(
                                trimmed(#[trigger] comma_pieces(s@)[k]),
                            ) == Some(f),
                    Err(None) => r matches Err(ExperimentalError::EmptyEntry),
                    Err(Some(name)) => r matches Err(ExperimentalError::Unknown { name: n })
                        && n@ == name,
                },
            },
    {
        let text = match raw {
            None => return Ok(ExperimentalFeatures::none()),
            Some(r) => r,
        };
        let pieces = split_commas(text);
        let ghost ps = comma_pieces(text@);
        let mut enabled: Vec<ExperimentalFeature> = Vec::new();
        let mut i: usize = 0;
        while i < pieces.len()
            invariant
                i <= pieces.len(),
                raw == Some(text),
                ps == comma_pieces(text@),
                views_of(pieces@) == ps,
                entries_outcome(ps, 0) == entries_outcome(ps, i as int),
                enabled@.no_duplicates(),
                forall|f: ExperimentalFeature|
                    enabled@.contains(f) <==> exists|k: int|
                        0 <= k < i && feature_named(trimmed(#[trigger] ps[k])) == Some(f),
            decreases pieces.len() - i,
        {
            let t = trim(pieces[i].as_str());
            assert(ps[i as int] == pieces@[i as int]@);
            if t.as_str().is_empty() {
                return Err(ExperimentalError::EmptyEntry);
            }
            let f = ExperimentalFeature::parse(t.as_str())?;
            let ghost before = enabled@;
            if !contains_feature(&enabled, f) {
                enabled.push(f);
            }
            proof {
                assert forall|g: ExperimentalFeature|
                    enabled@.contains(g) <==> exists|k: int|
                        0 <= k < i + 1 && feature_named(trimmed(#[trigger] ps[k])) == Some(g) by {
                    if enabled@.contains(g) && !before.contains(g) {
                        assert(feature_named(trimmed(ps[i as int])) == Some(g));
                    }
                    if exists|k: int| 0 <= k < i + 1 && feature_named(trimmed(#[trigger] ps[k])) == Some(g) {
                        let k = choose|k: int| 0 <= k < i + 1 && feature_named(trimmed(#[trigger] ps[k])) == Some(g);
                        if k < i {
                            assert(before.contains(g));
                            assert(enabled@.contains(g)) by {
                                let j = choose|j: int| 0 <= j < before.len() && before[j] == g;
                                assert(enabled@[j] == g);
                            }
                        } else {
                            assert(g == f);
                            if before.contains(f) {
                                let j = choose|j: int| 0 <= j < before.len() && before[j] == f;
                                assert(enabled@[j] == f);
                            } else {
                                assert(enabled@[enabled@.len() - 1] == f);
                            }
                        }
                    }
                }
            }
            i += 1;
        }
        Ok(ExperimentalFeatures { enabled })
    }

    /// Succeeds when `feature` is enabled; otherwise the error tells how to
    /// enable it.
    pub fn ensure_enabled(&self, feature: ExperimentalFeature) -> (r: Result<(), ExperimentalError>)
        ensures
            r is Ok <==> self.has(feature),
            r matches Err(e) ==> e == (ExperimentalError::NotEnabled { feature }),
    {
        if contains_feature(&self.enabled, feature) {
            Ok(())
        } else {
            Err(ExperimentalError::NotEnabled { feature })
        }
    }
}

/// The views of strings.
pub open spec fn views_of(ss: Seq<String>) -> Seq<Seq<char>> {
    ss.map_values(|s: String| s@)
}

/// Whether `f` is in `fs`.
fn contains_feature(fs: &Vec<ExperimentalFeature>, f: ExperimentalFeature) -> (r: bool)
    ensures
        r == fs@.contains(f),
{
    let mut i: usize = 0;
    while i < fs.len()
        invariant
            i <= fs.len(),
            forall|j: int| 0 <= j < i ==> fs@[j] != f,
        decreases fs.len() - i,
    {
        if fs[i] == f {
            return true;
        }
        i += 1;
    }
    false
}

/// The pieces of `s` between commas.
fn split_commas(s: &str) -> (r: Vec<String>)
    ensures
        views_of(r@) == comma_pieces(s@),
{
    let cs = chars_of(s);
    let mut done: Vec<String> = Vec::new();
    let mut cur: Vec<char> = Vec::new();
    let mut i: usize = 0;
    while i < cs.len()
        invariant
            i <= cs.len(),
            cs@ == s@,
            views_of(done@).push(cur@) == comma_pieces(cs@.take(i as int)),
        decreases cs.len() - i,
    {
        let ghost before = cs@.take(i as int);
        assert(cs@.take(i + 1 as int).drop_last() == before);
        let c = cs[i];
        if c == ',' {
            let piece = string_from_chars(cur.as_slice());
            done.push(piece);
            cur = Vec::new();
            assert(views_of(done@).push(cur@) =~= comma_pieces(before).push(seq![]));
        } else {
            cur.push(c);
            let ghost p = comma_pieces(before);
            assert(views_of(done@).push(cur@) =~= p.update(p.len() - 1, p.last().push(c)));
        }
        i += 1;
    }
    assert(cs@.take(cs.len() as int) == cs@);
    let last = string_from_chars(cur.as_slice());
    done.push(last);
    assert(views_of(done@) =~= comma_pieces(s@));
    done
}

} // verus!
