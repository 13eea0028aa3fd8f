//! Highlight spans: every case-insensitive occurrence of a query term, as
//! byte ranges, sorted and merged where they overlap or touch.
use vstd::prelude::*;
use vstd::utf8::encode_utf8;
use crate::text::{lowercase, lower_of};

verus! {

/// A highlighted byte range `[start, end)` of a message's text.
#[derive(Clone, Copy, Debug, PartialEq, Eq, Structural)]
pub struct HighlightRange {
    /// Byte offset of the match start.
    pub start: usize,
    /// Byte offset of the match end (exclusive).
    pub end: usize,
}

/// Whether `p` occurs in `t` at byte `i`.
pub open spec fn occurs_at(t: Seq<u8>, p: Seq<u8>, i: int) -> bool {
    0 <= i && i + p.len() <= t.len() && t.subrange(i, i + p.len()) == p
}

/// The occurrences of `p` in `t` found by scanning from `from`: each search
/// resumes at the end of the previous match, so they do not overlap.
pub open spec fn occ_from(t: Seq<u8>, p: Seq<u8>, from: int) -> Seq<(int, int)>
    decreases t.len() + 1 - from,
{
    if p.len() == 0 || from < 0 || from + p.len() > t.len() {
        Seq::empty()
    } else if occurs_at(t, p, from) {
        seq![(from, from + p.len())] + occ_from(t, p, from + p.len())
    } else {
        occ_from(t, p, from + 1)
    }
}

/// The occurrences of every term, term by term.
pub open spec fn spans_of(t: Seq<u8>, terms: Seq<Seq<u8>>) -> Seq<(int, int)>
    decreases terms.len(),
{
    if terms.len() == 0 {
        Seq::empty()
    } else {
        spans_of(t, terms.drop_last()) + occ_from(t, terms.last(), 0)
    }
}

pub open spec fn pairs(v: Seq<HighlightRange>) -> Seq<(int, int)> {
    v.map_values(|r: HighlightRange| (r.start as int, r.end as int))
}

/// Whether some span covers byte `p`.
pub open spec fn covered(s: Seq<(int, int)>, p: int) -> bool {
    exists|k: int| 0 <= k < s.len() && #[trigger] s[k].0 <= p && p < s[k].1
}

/// Non-empty ranges in increasing order, with a gap between any two.
pub open spec fn canonical(v: Seq<HighlightRange>) -> bool {
    &&& forall|k: int| 0 <= k < v.len() ==> #[trigger] v[k].start < v[k].end
    &&& forall|a: int, b: int| 0 <= a < b < v.len() ==> #[trigger] v[a].end < #[trigger] v[b].start
}

/// `v` is the merge of `spans`: the fewest sorted, separated ranges that
/// cover exactly the bytes the spans cover.
pub open spec fn merge_of(v: Seq<HighlightRange>, spans: Seq<(int, int)>) -> bool {
    &&& canonical(v)
    &&& forall|p: int| covered(pairs(v), p) <==> covered(spans, p)
}

pub open spec fn bytes_of(terms: Seq<String>) -> Seq<Seq<u8>> {
    terms.map_values(|s: String| encode_utf8(s@))
}

pub open spec fn sorted_by_start(v: Seq<HighlightRange>) -> bool {
    forall|a: int, b: int| 0 <= a < b < v.len() ==> #[trigger] v[a].start <= #[trigger] v[b].start
}

fn matches_at(t: &Vec<u8>, p: &Vec<u8>, i: usize) -> (r: bool)
    requires
        i + p@.len() <= t@.len(),
    ensures
        r == occurs_at(t@, p@, i as int),
{
    let n = t.len();
    let mut j: usize = 0;
    while j < p.len()
        invariant
            n == t@.len(),
            i + p@.len() <= t@.len(),
            j <= p@.len(),
            forall|k: int| 0 <= k < j ==> t@[i + k] == p@[k],
        decreases p@.len() - j,
    {
        if t[i + j] != p[j] {
            assert(t@.subrange(i as int, i + p@.len())[j as int] != p@[j as int]);
            return false;
        }
        j = j + 1;
    }
    assert(t@.subrange(i as int, i + p@.len()) =~= p@);
    true
}

/// Appends the occurrences of `p` in `t`.
fn push_occurrences(t: &Vec<u8>, p: &Vec<u8>, out: &mut Vec<HighlightRange>)
    ensures
        pairs(final(out)@) == pairs(old(out)@) + occ_from(t@, p@, 0),
        old(out)@.len() <= final(out)@.len(),
        final(out)@.subrange(0, old(out)@.len() as int) == old(out)@,
        forall|k: int| old(out)@.len() <= k < final(out)@.len() ==> #[trigger] final(out)@[k].start < final(out)@[k].end,
{
    if p.len() == 0 || p.len() > t.len() {
        assert(out@.subrange(0, out@.len() as int) =~= out@);
        assert(pairs(out@) =~= pairs(out@) + occ_from(t@, p@, 0));
        return;
    }
    let mut i: usize = 0;
    assert(out@.subrange(0, out@.len() as int) =~= out@);
    while i <= t.len() - p.len()
        invariant
            0 < p@.len() <= t@.len(),
            pairs(old(out)@) + occ_from(t@, p@, 0) == pairs(out@) + occ_from(t@, p@, i as int),
            out@.subrange(0, old(out)@.len() as int) == old(out)@,
            old(out)@.len() <= out@.len(),
            forall|k: int| old(out)@.len() <= k < out@.len() ==> #[trigger] out@[k].start < out@[k].end,
        decreases t@.len() + 1 - i,
    {
        if matches_at(t, p, i) {
            let ghost before = pairs(out@);
            let ghost prev = out@;
            out.push(HighlightRange { start: i, end: i + p.len() });
            assert(out@.subrange(0, old(out)@.len() as int) =~= prev.subrange(0, old(out)@.len() as int));
            assert(pairs(out@) =~= before.push((i as int, i + p@.len())));
            assert(before + occ_from(t@, p@, i as int) =~= pairs(out@) + occ_from(t@, p@, i + p@.len()));
            i = i + p.len();
        } else {
            i = i + 1;
        }
    }
    assert(pairs(out@) + occ_from(t@, p@, i as int) =~= pairs(out@));
}

/// Sorts by start; ranges with equal starts keep their order.
fn sort_by_start(v: &Vec<HighlightRange>) -> (r: Vec<HighlightRange>)
    ensures
        r@.len() == v@.len(),
        sorted_by_start(r@),
        forall|k: int| 0 <= k < r@.len() ==> v@.contains(#[trigger] r@[k]),
        forall|j: int| 0 <= j < v@.len() ==> r@.contains(#[trigger] v@[j]),
{
    let mut r: Vec<HighlightRange> = Vec::new();
    let mut i: usize = 0;
    while i < v.len()
        invariant
            i <= v@.len(),
            r@.len() == i,
            sorted_by_start(r@),
            forall|k: int| 0 <= k < r@.len() ==> v@.contains(#[trigger] r@[k]),
            forall|j: int| 0 <= j < i ==> r@.contains(#[trigger] v@[j]),
        decreases v@.len() - i,
    {
        let e = v[i];
        let mut pos: usize = 0;
        while pos < r.len() && r[pos].start <= e.start
            invariant
                pos <= r@.len(),
                forall|k: int| 0 <= k < pos ==> #[trigger] r@[k].start <= e.start,
            decreases r@.len() - pos,
        {
            pos = pos + 1;
        }
        let ghost old_r = r@;
        assert(forall|k: int| pos <= k < old_r.len() ==> #[trigger] old_r[k].start > e.start) by {
            assert forall|k: int| pos <= k < old_r.len() implies #[trigger] old_r[k].start > e.start by {
                if pos < old_r.len() {
                    assert(old_r[pos as int].start > e.start);
                    if k > pos {
                        assert(old_r[pos as int].start <= old_r[k].start);
                    }
                }
            }
        }
        r.insert(pos, e);
        assert(r@ == old_r.insert(pos as int, e));
        assert forall|a: int, b: int| 0 <= a < b < r@.len() implies #[trigger] r@[a].start <= #[trigger] r@[b].start by {
            if b < pos {
                assert(r@[a] == old_r[a] && r@[b] == old_r[b]);
            } else if b == pos {
                assert(r@[a] == old_r[a]);
            } else if a < pos {
                assert(r@[a] == old_r[a] && r@[b] == old_r[b - 1]);
            } else if a == pos {
                assert(r@[b] == old_r[b - 1]);
            } else {
                assert(r@[a] == old_r[a - 1] && r@[b] == old_r[b - 1]);
            }
        }
        assert forall|k: int| 0 <= k < r@.len() implies v@.contains(#[trigger] r@[k]) by {
            if k < pos {
                assert(r@[k] == old_r[k]);
            } else if k == pos {
                assert(v@[i as int] == e);
            } else {
                assert(r@[k] == old_r[k - 1]);
            }
        }
        assert forall|j: int| 0 <= j < i + 1 implies r@.contains(#[trigger] v@[j]) by {
            if j == i {
                assert(r@[pos as int] == e);
            } else {
                assert(old_r.contains(v@[j]));
                let k0 = choose|k0: int| 0 <= k0 < old_r.len() && old_r[k0] == v@[j];
                if k0 < pos {
                    assert(r@[k0] == old_r[k0]);
                } else {
                    assert(r@[k0 + 1] == old_r[k0]);
                }
            }
        }
        i = i + 1;
    }
    r
}


proof fn lemma_covered_push(x: Seq<(int, int)>, y: (int, int))
    ensures
        forall|p: int| #[trigger] covered(x.push(y), p) == (covered(x, p) || (y.0 <= p && p < y.1)),
{
    assert forall|p: int| #[trigger] covered(x.push(y), p) == (covered(x, p) || (y.0 <= p && p < y.1)) by {
        if covered(x, p) {
            let k = choose|k: int| 0 <= k < x.len() && #[trigger] x[k].0 <= p && p < x[k].1;
            assert(x.push(y)[k] == x[k]);
        }
        if y.0 <= p && p < y.1 {
            assert(x.push(y)[x.len() as int] == y);
        }
        if covered(x.push(y), p) {
            let k = choose|k: int| 0 <= k < x.push(y).len() && #[trigger] x.push(y)[k].0 <= p && p < x.push(y)[k].1;
            if k < x.len() {
                assert(x.push(y)[k] == x[k]);
            }
        }
    }
}

proof fn lemma_covered_extend(x: Seq<(int, int)>, k: int, ne: int, y: (int, int))
    requires
        0 <= k < x.len(),
        x[k].0 <= y.0 <= x[k].1,
        ne == if x[k].1 >= y.1 { x[k].1 } else { y.1 },
    ensures
        forall|p: int| #[trigger] covered(x.update(k, (x[k].0, ne)), p) == (covered(x, p) || (y.0 <= p && p < y.1)),
{
    let z = x.update(k, (x[k].0, ne));
    assert forall|p: int| #[trigger] covered(z, p) == (covered(x, p) || (y.0 <= p && p < y.1)) by {
        if covered(x, p) {
            let j = choose|j: int| 0 <= j < x.len() && #[trigger] x[j].0 <= p && p < x[j].1;
            if j == k {
                assert(z[k].0 <= p && p < z[k].1);
            } else {
                assert(z[j] == x[j]);
            }
        }
        if y.0 <= p && p < y.1 {
            assert(z[k].0 <= p && p < z[k].1);
        }
        if covered(z, p) {
            let j = choose|j: int| 0 <= j < z.len() && #[trigger] z[j].0 <= p && p < z[j].1;
            if j != k {
                assert(z[j] == x[j]);
            } else if p < x[k].1 {
                assert(x[k].0 <= p);
            }
        }
    }
}

/// Merges ranges sorted by start: a range that starts at or before the end
/// of the range being built extends it, any other starts a new one.
fn merge_overlapping(ranges: &mut Vec<HighlightRange>)
    requires
        sorted_by_start(old(ranges)@),
        forall|k: int| 0 <= k < old(ranges)@.len() ==> #[trigger] old(ranges)@[k].start < old(ranges)@[k].end,
    ensures
        merge_of(final(ranges)@, pairs(old(ranges)@)),
{
    let ghost s = ranges@;
    if ranges.len() <= 1 {
        return;
    }
    let mut merged: Vec<HighlightRange> = Vec::new();
    merged.push(ranges[0]);
    proof {
        assert(pairs(merged@) =~= pairs(s.subrange(0, 1)));
    }
    let mut i: usize = 1;
    while i < ranges.len()
        invariant
            ranges@ == s,
            sorted_by_start(s),
            forall|k: int| 0 <= k < s.len() ==> #[trigger] s[k].start < s[k].end,
            1 <= i <= s.len(),
            merged@.len() >= 1,
            canonical(merged@),
            forall|i2: int| i <= i2 < s.len() ==> merged@.last().start <= #[trigger] s[i2].start,
            forall|p: int| covered(pairs(merged@), p) <==> covered(pairs(s.subrange(0, i as int)), p),
        decreases s.len() - i,
    {
        let r = ranges[i];
        let last = merged.len() - 1;
        let lr = merged[last];
        let ghost m = merged@;
        proof {
            assert(pairs(s.subrange(0, i as int + 1)) =~= pairs(s.subrange(0, i as int)).push((r.start as int, r.end as int)));
            lemma_covered_push(pairs(s.subrange(0, i as int)), (r.start as int, r.end as int));
        }
        if r.start <= lr.end {
            let ne = if lr.end >= r.end { lr.end } else { r.end };
            merged.set(last, HighlightRange { start: lr.start, end: ne });
            proof {
                assert(pairs(merged@) =~= pairs(m).update(last as int, (lr.start as int, ne as int)));
                lemma_covered_extend(pairs(m), last as int, ne as int, (r.start as int, r.end as int));
                assert forall|a: int, b: int| 0 <= a < b < merged@.len() implies #[trigger] merged@[a].end < #[trigger] merged@[b].start by {
                    assert(m[a].end < m[b].start);
                }
            }
        } else {
            merged.push(r);
            proof {
                assert(pairs(merged@) =~= pairs(m).push((r.start as int, r.end as int)));
                lemma_covered_push(pairs(m), (r.start as int, r.end as int));
                assert forall|a: int, b: int| 0 <= a < b < merged@.len() implies #[trigger] merged@[a].end < #[trigger] merged@[b].start by {
                    if b == merged@.len() - 1 && a < last {
                        assert(m[a].end < m[last as int].start);
                    }
                }
            }
        }
        i = i + 1;
    }
    proof {
        assert(s.subrange(0, s.len() as int) =~= s);
    }
    *ranges = merged;
}

/// Highlight ranges of already-lowercased text and terms: every occurrence
/// of every non-empty term (scanning on after each match), sorted by start
/// and merged where they overlap or touch.
pub fn find_highlights_lowered(text_lower: &str, tokens_lower: &[String]) -> (r: Vec<HighlightRange>)
    ensures
        merge_of(r@, spans_of(encode_utf8(text_lower@), bytes_of(tokens_lower@))),
{
    let t = text_lower.as_bytes_vec();
    let mut all: Vec<HighlightRange> = Vec::new();
    let mut k: usize = 0;
    while k < tokens_lower.len()
        invariant
            t@ == encode_utf8(text_lower@),
            k <= tokens_lower@.len(),
            pairs(all@) == spans_of(t@, bytes_of(tokens_lower@.subrange(0, k as int))),
            forall|j: int| 0 <= j < all@.len() ==> #[trigger] all@[j].start < all@[j].end,
        decreases tokens_lower@.len() - k,
    {
        let p = tokens_lower[k].as_str().as_bytes_vec();
        let ghost before = all@;
        push_occurrences(&t, &p, &mut all);
        proof {
            let terms = bytes_of(tokens_lower@.subrange(0, k as int + 1));
            assert(terms.drop_last() =~= bytes_of(tokens_lower@.subrange(0, k as int)));
            assert(terms.last() == p@);
            assert forall|j: int| 0 <= j < all@.len() implies #[trigger] all@[j].start < all@[j].end by {
                if j < before.len() {
                    assert(all@[j] == all@.subrange(0, before.len() as int)[j]);
                }
            }
        }
        k = k + 1;
    }
    proof {
        assert(tokens_lower@.subrange(0, tokens_lower@.len() as int) =~= tokens_lower@);
    }
    let mut sorted = sort_by_start(&all);
    proof {
        assert forall|p: int| covered(pairs(sorted@), p) <==> covered(pairs(all@), p) by {
            if covered(pairs(sorted@), p) {
                let j = choose|j: int| 0 <= j < pairs(sorted@).len() && #[trigger] pairs(sorted@)[j].0 <= p && p < pairs(sorted@)[j].1;
                assert(all@.contains(sorted@[j]));
                let j2 = choose|j2: int| 0 <= j2 < all@.len() && all@[j2] == sorted@[j];
                assert(pairs(all@)[j2].0 <= p && p < pairs(all@)[j2].1);
            }
            if covered(pairs(all@), p) {
                let j = choose|j: int| 0 <= j < pairs(all@).len() && #[trigger] pairs(all@)[j].0 <= p && p < pairs(all@)[j].1;
                assert(sorted@.contains(all@[j]));
                let j2 = choose|j2: int| 0 <= j2 < sorted@.len() && sorted@[j2] == all@[j];
                assert(pairs(sorted@)[j2].0 <= p && p < pairs(sorted@)[j2].1);
            }
        }
        assert forall|j: int| 0 <= j < sorted@.len() implies #[trigger] sorted@[j].start < sorted@[j].end by {
            assert(all@.contains(sorted@[j]));
        }
    }
    merge_overlapping(&mut sorted);
    sorted
}

/// The term list as the highlighter compares it: each term lowercased, as bytes.
pub open spec fn lowered_terms(tokens: Seq<String>) -> Seq<Seq<u8>> {
    tokens.map_values(|s: String| encode_utf8(lower_of(s@)))
}

/// Case-insensitive highlight ranges of `tokens` in `text`, as byte offsets
/// into the lowercased text.
pub fn find_highlights(text: &str, tokens: &[String]) -> (r: Vec<HighlightRange>)
    ensures
        merge_of(r@, spans_of(encode_utf8(lower_of(text@)), lowered_terms(tokens@))),
{
    let text_lower = lowercase(text);
    let mut lows: Vec<String> = Vec::new();
    let mut k: usize = 0;
    while k < tokens.len()
        invariant
            k <= tokens@.len(),
            lows@.len() == k,
            forall|j: int| 0 <= j < k ==> (#[trigger] lows@[j])@ == lower_of(tokens@[j]@),
        decreases tokens@.len() - k,
    {
        lows.push(lowercase(tokens[k].as_str()));
        k = k + 1;
    }
    proof {
        assert(bytes_of(lows@) =~= lowered_terms(tokens@));
    }
    find_highlights_lowered(text_lower.as_str(), lows.as_slice())
}

} // verus!
