//! Term selection from a morpheme analysis, and query tokenization.
//!
//! The analyzer itself runs outside the library; what it returned (or that
//! it failed) is handed in, and the rules below decide which terms to keep.
use vstd::prelude::*;
use crate::link::str_eq;
use crate::ngram::{bigrams, bigram_spec, graphemes_of};
use crate::text::{
    lower_of, lowercase, split_whitespace, strip_punct, strip_punctuation, strip_whitespace,
    strip_ws, words,
};

verus! {

/// One morpheme of an analysis: its surface form and its part-of-speech tag
/// (the first detail field; `None` where the analyzer gave no details).
#[derive(Clone, Debug)]
pub struct Morpheme {
    pub surface: String,
    pub tag: Option<String>,
}

pub open spec fn is_prefix(p: Seq<char>, s: Seq<char>) -> bool {
    p.len() <= s.len() && s.subrange(0, p.len() as int) == p
}

/// Content-bearing tags: common, proper and dependent nouns, numerals,
/// foreign (Latin) words and numbers.
pub open spec fn keep_tag(t: Seq<char>) -> bool {
    is_prefix("NNG"@, t) || is_prefix("NNP"@, t) || is_prefix("NNB"@, t) || is_prefix("NR"@, t)
        || is_prefix("SL"@, t) || is_prefix("SN"@, t)
}

/// Whether the analyzer did not know the morpheme.
pub open spec fn unknown_tag(tag: Option<String>) -> bool {
    tag is None || tag->0@ == "UNK"@
}

/// The term a morpheme contributes, if any.
pub open spec fn term_of(m: Morpheme) -> Option<Seq<char>> {
    if unknown_tag(m.tag) {
        let c = strip_punct(lower_of(m.surface@));
        if c.len() > 0 { Some(c) } else { None }
    } else if keep_tag(m.tag->0@) {
        let l = lower_of(m.surface@);
        if l.len() > 0 { Some(l) } else { None }
    } else {
        None
    }
}

/// The terms of an analysis, in order.
pub open spec fn terms_spec(ms: Seq<Morpheme>) -> Seq<Seq<char>>
    decreases ms.len(),
{
    if ms.len() == 0 {
        Seq::empty()
    } else {
        match term_of(ms.last()) {
            Some(t) => terms_spec(ms.drop_last()).push(t),
            None => terms_spec(ms.drop_last()),
        }
    }
}

/// The fallback terms of a text: each word lowercased and stripped of
/// punctuation, empty results dropped.
pub open spec fn word_terms(ws: Seq<Seq<char>>) -> Seq<Seq<char>>
    decreases ws.len(),
{
    if ws.len() == 0 {
        Seq::empty()
    } else {
        let c = strip_punct(lower_of(ws.last()));
        if c.len() > 0 {
            word_terms(ws.drop_last()).push(c)
        } else {
            word_terms(ws.drop_last())
        }
    }
}

/// Terms of `text` given the analysis; `None` means the analyzer failed.
pub open spec fn tokenize_spec(text: Seq<char>, analysis: Option<Seq<Morpheme>>) -> Seq<Seq<char>> {
    match analysis {
        Some(ms) => terms_spec(ms),
        None => word_terms(words(text)),
    }
}

pub open spec fn views(v: Seq<String>) -> Seq<Seq<char>> {
    v.map_values(|s: String| s@)
}

pub open spec fn analysis_view(a: Option<Vec<Morpheme>>) -> Option<Seq<Morpheme>> {
    match a {
        Some(v) => Some(v@),
        None => None,
    }
}

/// Whether `s` begins with `p`.
pub fn has_prefix(s: &str, p: &str) -> (r: bool)
    ensures
        r == is_prefix(p@, s@),
{
    let n = p.unicode_len();
    if n > s.unicode_len() {
        return false;
    }
    let mut i: usize = 0;
    while i < n
        invariant
            n == p@.len(),
            n <= s@.len(),
            i <= n,
            forall|j: int| 0 <= j < i ==> s@[j] == p@[j],
        decreases n - i,
    {
        if s.get_char(i) != p.get_char(i) {
            assert(s@.subrange(0, n as int)[i as int] != p@[i as int]);
            return false;
        }
        i = i + 1;
    }
    assert(s@.subrange(0, n as int) =~= p@);
    true
}

fn is_kept_tag(t: &str) -> (r: bool)
    ensures
        r == keep_tag(t@),
{
    has_prefix(t, "NNG") || has_prefix(t, "NNP") || has_prefix(t, "NNB") || has_prefix(t, "NR")
        || has_prefix(t, "SL") || has_prefix(t, "SN")
}

fn morpheme_term(m: &Morpheme) -> (r: Option<String>)
    ensures
        match r {
            Some(s) => term_of(*m) == Some(s@),
            None => term_of(*m) is None,
        },
{
    let unknown = match &m.tag {
        None => true,
        Some(t) => str_eq(t.as_str(), "UNK"),
    };
    if unknown {
        let lower = lowercase(m.surface.as_str());
        let cleaned = strip_punctuation(lower.as_str());
        if cleaned.as_str().is_empty() { None } else { Some(cleaned) }
    } else {
        let t = m.tag.as_ref().unwrap();
        if is_kept_tag(t.as_str()) {
            let lower = lowercase(m.surface.as_str());
            if lower.as_str().is_empty() { None } else { Some(lower) }
        } else {
            None
        }
    }
}

/// Keeps the content-bearing morphemes, lowercased; unknown morphemes are
/// lowercased and stripped to alphanumeric and CJK characters.
pub fn terms_from_morphemes(morphemes: &Vec<Morpheme>) -> (r: Vec<String>)
    ensures
        views(r@) == terms_spec(morphemes@),
{
    let mut out: Vec<String> = Vec::new();
    let mut i: usize = 0;
    while i < morphemes.len()
        invariant
            i <= morphemes@.len(),
            views(out@) == terms_spec(morphemes@.subrange(0, i as int)),
        decreases morphemes@.len() - i,
    {
        let ghost pre = morphemes@.subrange(0, i as int + 1);
        assert(pre.drop_last() =~= morphemes@.subrange(0, i as int));
        assert(pre.last() == morphemes@[i as int]);
        match morpheme_term(&morphemes[i]) {
            Some(t) => {
                let ghost before = views(out@);
                out.push(t);
                assert(views(out@) =~= before.push(t@));
            },
            None => {},
        }
        i = i + 1;
    }
    assert(morphemes@.subrange(0, morphemes@.len() as int) =~= morphemes@);
    out
}

/// Fallback when the analyzer fails: whitespace split, lowercase,
/// punctuation strip, empty words dropped.
pub fn terms_from_words(text: &str) -> (r: Vec<String>)
    ensures
        views(r@) == word_terms(words(text@)),
{
    let ws = split_whitespace(text);
    let ghost wv = ws@.map_values(|w: String| w@);
    let mut out: Vec<String> = Vec::new();
    let mut i: usize = 0;
    while i < ws.len()
        invariant
            wv == ws@.map_values(|w: String| w@),
            i <= ws@.len(),
            views(out@) == word_terms(wv.subrange(0, i as int)),
        decreases ws@.len() - i,
    {
        let ghost pre = wv.subrange(0, i as int + 1);
        assert(pre.drop_last() =~= wv.subrange(0, i as int));
        assert(pre.last() == ws@[i as int]@);
        let lower = lowercase(ws[i].as_str());
        let cleaned = strip_punctuation(lower.as_str());
        if !cleaned.as_str().is_empty() {
            let ghost before = views(out@);
            out.push(cleaned);
            assert(views(out@) =~= before.push(cleaned@));
        }
        i = i + 1;
    }
    assert(wv.subrange(0, wv.len() as int) =~= wv);
    out
}

/// Terms of `text` from the analyzer's result, or from the whitespace
/// fallback where the analyzer failed (`None`).
pub fn tokenize_analysis(text: &str, analysis: &Option<Vec<Morpheme>>) -> (r: Vec<String>)
    ensures
        views(r@) == tokenize_spec(text@, analysis_view(*analysis)),
{
    match analysis {
        Some(ms) => terms_from_morphemes(ms),
        None => terms_from_words(text),
    }
}

/// Query terms: the analyzer's terms, or where it yields none, the
/// character bigrams of the whitespace-stripped query.
pub open spec fn query_terms_spec(query: Seq<char>, analysis: Option<Seq<Morpheme>>) -> Seq<Seq<char>> {
    let t = tokenize_spec(query, analysis);
    if t.len() > 0 {
        t
    } else if strip_ws(query).len() == 0 {
        Seq::empty()
    } else {
        bigram_spec(graphemes_of(strip_ws(query)))
    }
}

/// Tokenizes a search query given the analyzer's result for it.
pub fn tokenize_query(query: &str, analysis: &Option<Vec<Morpheme>>) -> (r: Vec<String>)
    ensures
        views(r@) == query_terms_spec(query@, analysis_view(*analysis)),
{
    let tokens = tokenize_analysis(query, analysis);
    if tokens.len() == 0 {
        let stripped = strip_whitespace(query);
        if stripped.as_str().is_empty() {
            let empty: Vec<String> = Vec::new();
            assert(views(empty@) =~= Seq::<Seq<char>>::empty());
            return empty;
        }
        return bigrams(stripped.as_str());
    }
    tokens
}

} // verus!
