//! Character bigrams over extended grapheme clusters.
use vstd::prelude::*;
use unicode_segmentation::UnicodeSegmentation;

verus! {

/// The extended grapheme clusters of a character sequence, in order.
pub uninterp spec fn graphemes_of(s: Seq<char>) -> Seq<Seq<char>>;

/// Relies on unicode_segmentation's `graphemes(true)`: the extended grapheme
/// clusters of `text`, in order, each as its own string.
#[verifier::external_body]
fn graphemes(text: &str) -> (r: Vec<String>)
    ensures
        r@.map_values(|g: String| g@) == graphemes_of(text@),
{
    text.graphemes(true).map(|g| g.to_string()).collect()
}

/// Each pair of neighbouring clusters, joined; nothing for fewer than two.
pub open spec fn bigram_spec(g: Seq<Seq<char>>) -> Seq<Seq<char>> {
    if g.len() < 2 {
        Seq::empty()
    } else {
        Seq::new((g.len() - 1) as nat, |i: int| g[i] + g[i + 1])
    }
}

/// Bigrams of a sequence of clusters that a segmenter has already produced.
pub fn bigrams_of_clusters(clusters: &Vec<String>) -> (r: Vec<String>)
    ensures
        r@.map_values(|b: String| b@) == bigram_spec(clusters@.map_values(|g: String| g@)),
{
    let ghost g = clusters@.map_values(|g: String| g@);
    let mut out: Vec<String> = Vec::new();
    if clusters.len() < 2 {
        assert(out@.map_values(|b: String| b@) =~= bigram_spec(g));
        return out;
    }
    let mut i: usize = 0;
    while i < clusters.len() - 1
        invariant
            g == clusters@.map_values(|g: String| g@),
            clusters@.len() >= 2,
            i + 1 <= clusters@.len(),
            out@.len() == i,
            forall|j: int| 0 <= j < i ==> #[trigger] out@[j]@ == g[j] + g[j + 1],
        decreases clusters@.len() - i,
    {
        let mut b = clusters[i].clone();
        b.append(clusters[i + 1].as_str());
        out.push(b);
        i = i + 1;
    }
    assert(out@.map_values(|b: String| b@) =~= bigram_spec(g));
    out
}

/// Character bigrams of `text`, over grapheme clusters: "abc" gives "ab", "bc".
pub fn bigrams(text: &str) -> (r: Vec<String>)
    ensures
        r@.map_values(|b: String| b@) == bigram_spec(graphemes_of(text@)),
{
    let clusters = graphemes(text);
    bigrams_of_clusters(&clusters)
}

} // verus!
