//! Text normalisation: whitespace stripping, punctuation stripping, case
//! folding and the CJK / Hangul classification used by the tokenizer.
use vstd::prelude::*;

verus! {

/// The Unicode `White_Space` property.
pub open spec fn is_ws(c: char) -> bool {
    let u = c as u32;
    (0x09 <= u && u <= 0x0D) || u == 0x20 || u == 0x85 || u == 0xA0 || u == 0x1680
        || (0x2000 <= u && u <= 0x200A) || u == 0x2028 || u == 0x2029 || u == 0x202F
        || u == 0x205F || u == 0x3000
}

/// `s` with every whitespace character removed, all others kept in order.
pub open spec fn strip_ws(s: Seq<char>) -> Seq<char>
    decreases s.len(),
{
    if s.len() == 0 {
        Seq::empty()
    } else if is_ws(s.last()) {
        strip_ws(s.drop_last())
    } else {
        strip_ws(s.drop_last()).push(s.last())
    }
}

/// Relies on str::chars: the characters of `s`, in order.
#[verifier::external_body]
pub(crate) fn chars_of(s: &str) -> (r: Vec<char>)
    ensures
        r@ == s@,
{
    s.chars().collect()
}

/// Relies on String::push: appends one character.
#[verifier::external_body]
pub(crate) fn push_char(s: &mut String, c: char)
    ensures
        final(s)@ == old(s)@.push(c),
{
    s.push(c)
}

/// Whether `c` is in the Unicode whitespace class.
pub fn is_whitespace_char(c: char) -> (r: bool)
    ensures
        r == is_ws(c),
{
    let u = c as u32;
    (0x09 <= u && u <= 0x0D) || u == 0x20 || u == 0x85 || u == 0xA0 || u == 0x1680
        || (0x2000 <= u && u <= 0x200A) || u == 0x2028 || u == 0x2029 || u == 0x202F
        || u == 0x205F || u == 0x3000
}

/// Removes every Unicode whitespace character and keeps all others verbatim.
pub fn strip_whitespace(text: &str) -> (r: String)
    ensures
        r@ == strip_ws(text@),
{
    let cs = chars_of(text);
    let mut out = String::new();
    let mut i: usize = 0;
    while i < cs.len()
        invariant
            i <= cs@.len(),
            cs@ == text@,
            out@ == strip_ws(cs@.subrange(0, i as int)),
        decreases cs@.len() - i,
    {
        let c = cs[i];
        proof {
            let pre = cs@.subrange(0, i as int + 1);
            assert(pre.drop_last() =~= cs@.subrange(0, i as int));
            assert(pre.last() == c);
        }
        if !is_whitespace_char(c) {
            push_char(&mut out, c);
        }
        i = i + 1;
    }
    proof {
        assert(cs@.subrange(0, cs@.len() as int) =~= cs@);
    }
    out
}


/// What `str::to_lowercase` makes of a character sequence.
pub uninterp spec fn lower_of(s: Seq<char>) -> Seq<char>;

/// Whether `char::is_alphanumeric` holds of a character.
pub uninterp spec fn alnum_of(c: char) -> bool;

/// Relies on str::to_lowercase: the result depends on the characters alone,
/// and the empty string stays empty.
#[verifier::external_body]
pub(crate) fn lowercase(s: &str) -> (r: String)
    ensures
        r@ == lower_of(s@),
        s@.len() == 0 ==> r@.len() == 0,
{
    s.to_lowercase()
}

/// Relies on char::is_alphanumeric (Unicode `Alphabetic` or `Numeric`).
#[verifier::external_body]
pub(crate) fn is_alphanumeric_char(c: char) -> (r: bool)
    ensures
        r == alnum_of(c),
{
    c.is_alphanumeric()
}

/// Hangul syllables and jamo blocks, and CJK unified ideographs with
/// extension A.
pub open spec fn is_cjk_spec(c: char) -> bool {
    let u = c as u32;
    (0xAC00 <= u && u <= 0xD7AF) || (0x1100 <= u && u <= 0x11FF) || (0x3130 <= u && u
        <= 0x318F) || (0xA960 <= u && u <= 0xA97F) || (0xD7B0 <= u && u <= 0xD7FF) || (0x4E00
        <= u && u <= 0x9FFF) || (0x3400 <= u && u <= 0x4DBF)
}

/// Whether a character survives punctuation stripping.
pub open spec fn keeps_char(c: char) -> bool {
    alnum_of(c) || is_cjk_spec(c)
}

/// `s` with only the alphanumeric and CJK characters kept, in order.
pub open spec fn strip_punct(s: Seq<char>) -> Seq<char>
    decreases s.len(),
{
    if s.len() == 0 {
        Seq::empty()
    } else if keeps_char(s.last()) {
        strip_punct(s.drop_last()).push(s.last())
    } else {
        strip_punct(s.drop_last())
    }
}

/// Whether `c` lies in a Hangul or CJK-ideograph block.
pub fn is_cjk(c: char) -> (r: bool)
    ensures
        r == is_cjk_spec(c),
{
    let u = c as u32;
    (0xAC00 <= u && u <= 0xD7AF) || (0x1100 <= u && u <= 0x11FF) || (0x3130 <= u && u
        <= 0x318F) || (0xA960 <= u && u <= 0xA97F) || (0xD7B0 <= u && u <= 0xD7FF) || (0x4E00
        <= u && u <= 0x9FFF) || (0x3400 <= u && u <= 0x4DBF)
}

/// Keeps only alphanumeric and CJK characters.
pub fn strip_punctuation(s: &str) -> (r: String)
    ensures
        r@ == strip_punct(s@),
{
    let cs = chars_of(s);
    let mut out = String::new();
    let mut i: usize = 0;
    while i < cs.len()
        invariant
            i <= cs@.len(),
            cs@ == s@,
            out@ == strip_punct(cs@.subrange(0, i as int)),
        decreases cs@.len() - i,
    {
        let c = cs[i];
        proof {
            let pre = cs@.subrange(0, i as int + 1);
            assert(pre.drop_last() =~= cs@.subrange(0, i as int));
            assert(pre.last() == c);
        }
        if is_alphanumeric_char(c) || is_cjk(c) {
            push_char(&mut out, c);
        }
        i = i + 1;
    }
    proof {
        assert(cs@.subrange(0, cs@.len() as int) =~= cs@);
    }
    out
}

/// The words of `s`: its maximal runs of non-whitespace characters, in order.
pub open spec fn words(s: Seq<char>) -> Seq<Seq<char>>
    decreases s.len(),
{
    words_acc(s, Seq::empty())
}

/// Splits `s` into words, `cur` being a word already begun before `s`.
pub open spec fn words_acc(s: Seq<char>, cur: Seq<char>) -> Seq<Seq<char>>
    decreases s.len(),
{
    if s.len() == 0 {
        if cur.len() == 0 {
            Seq::empty()
        } else {
            seq![cur]
        }
    } else if is_ws(s[0]) {
        if cur.len() == 0 {
            words_acc(s.drop_first(), cur)
        } else {
            seq![cur] + words_acc(s.drop_first(), Seq::empty())
        }
    } else {
        words_acc(s.drop_first(), cur.push(s[0]))
    }
}

/// Splits on runs of Unicode whitespace; no word is empty.
pub fn split_whitespace(s: &str) -> (r: Vec<String>)
    ensures
        r@.map_values(|w: String| w@) == words(s@),
{
    let cs = chars_of(s);
    let mut out: Vec<String> = Vec::new();
    let mut cur = String::new();
    let mut i: usize = 0;
    assert(cs@.subrange(0, cs@.len() as int) =~= cs@);
    while i < cs.len()
        invariant
            i <= cs@.len(),
            cs@ == s@,
            out@.map_values(|w: String| w@) + words_acc(cs@.subrange(i as int, cs@.len() as int), cur@)
                == words(s@),
        decreases cs@.len() - i,
    {
        let c = cs[i];
        let ghost rest = cs@.subrange(i as int, cs@.len() as int);
        assert(rest.drop_first() =~= cs@.subrange(i as int + 1, cs@.len() as int));
        assert(rest[0] == c);
        if is_whitespace_char(c) {
            if !cur.as_str().is_empty() {
                let ghost before = out@.map_values(|w: String| w@);
                let w = cur;
                cur = String::new();
                out.push(w);
                assert(out@.map_values(|w: String| w@) =~= before.push(w@));
                assert(before + (seq![w@] + words_acc(rest.drop_first(), Seq::empty()))
                    =~= before.push(w@) + words_acc(rest.drop_first(), Seq::empty()));
            }
        } else {
            push_char(&mut cur, c);
        }
        i = i + 1;
    }
    if !cur.as_str().is_empty() {
        let ghost before = out@.map_values(|w: String| w@);
        out.push(cur);
        assert(out@.map_values(|w: String| w@) =~= before.push(cur@));
    }
    out
}

} // verus!

verus! {

pub open spec fn is_digit(c: char) -> bool {
    '0' <= c && c <= '9'
}

pub open spec fn all_digits(s: Seq<char>) -> bool {
    forall|i: int| 0 <= i < s.len() ==> is_digit(#[trigger] s[i])
}

/// The value of a string of decimal digits.
pub open spec fn digits_val(s: Seq<char>) -> int
    decreases s.len(),
{
    if s.len() == 0 {
        0
    } else {
        digits_val(s.drop_last()) * 10 + (s.last() as int - '0' as int)
    }
}

/// An optionally signed decimal integer: `[+-]?[0-9]+`.
pub open spec fn parse_int_spec(s: Seq<char>) -> Option<int> {
    if s.len() > 0 && (s[0] == '-' || s[0] == '+') {
        let d = s.drop_first();
        if d.len() > 0 && all_digits(d) {
            Some(if s[0] == '-' { -digits_val(d) } else { digits_val(d) })
        } else {
            None
        }
    } else if s.len() > 0 && all_digits(s) {
        Some(digits_val(s))
    } else {
        None
    }
}

/// What `str::parse` gives for an integer type with bounds `lo..=hi`.
pub open spec fn parse_in_range(s: Seq<char>, lo: int, hi: int) -> Option<int> {
    match parse_int_spec(s) {
        Some(v) => if lo <= v <= hi { Some(v) } else { None },
        None => None,
    }
}

proof fn lemma_digits_val_nonneg(s: Seq<char>)
    requires
        all_digits(s),
    ensures
        digits_val(s) >= 0,
    decreases s.len(),
{
    if s.len() > 0 {
        assert(is_digit(s[s.len() - 1]));
        assert(all_digits(s.drop_last())) by {
            assert forall|i: int| 0 <= i < s.drop_last().len() implies is_digit(#[trigger] s.drop_last()[i]) by {
                assert(s.drop_last()[i] == s[i]);
            }
        }
        lemma_digits_val_nonneg(s.drop_last());
    }
}

/// Above every magnitude an `i64` can hold: accumulated digits saturate here.
const PARSE_CAP: i128 = 0x8000_0000_0000_0001;

/// Parses `[+-]?[0-9]+` into an integer within `lo..=hi`.
pub fn parse_int_in(s: &str, lo: i64, hi: i64) -> (r: Option<i64>)
    ensures
        match r {
            Some(v) => parse_in_range(s@, lo as int, hi as int) == Some(v as int),
            None => parse_in_range(s@, lo as int, hi as int) is None,
        },
{
    let cs = chars_of(s);
    if cs.len() == 0 {
        return None;
    }
    let neg = cs[0] == '-';
    let start: usize = if cs[0] == '-' || cs[0] == '+' { 1 } else { 0 };
    if start == cs.len() {
        return None;
    }
    let ghost d = cs@.subrange(start as int, cs@.len() as int);
    proof {
        if start == 1 {
            assert(d =~= s@.drop_first());
        } else {
            assert(d =~= s@);
        }
    }
    let mut acc: i128 = 0;
    let mut i: usize = start;
    while i < cs.len()
        invariant
            cs@ == s@,
            start <= i <= cs@.len(),
            start == 1 ==> d == s@.drop_first(),
            start == 0 ==> d == s@,
            start == 1 <==> (s@[0] == '-' || s@[0] == '+'),
            neg <==> s@[0] == '-',
            0 < s@.len(),
            0 <= acc <= PARSE_CAP,
            d == cs@.subrange(start as int, cs@.len() as int),
            all_digits(cs@.subrange(start as int, i as int)),
            acc as int == if digits_val(cs@.subrange(start as int, i as int)) < PARSE_CAP {
                digits_val(cs@.subrange(start as int, i as int))
            } else {
                PARSE_CAP as int
            },
        decreases cs@.len() - i,
    {
        let c = cs[i];
        let ghost pre = cs@.subrange(start as int, i as int);
        let ghost next = cs@.subrange(start as int, i as int + 1);
        assert(next.drop_last() =~= pre);
        assert(next.last() == c);
        if !('0' <= c && c <= '9') {
            assert(!all_digits(d)) by {
                assert(d[i - start] == c);
            }
            return None;
        }
        let dv: i128 = (c as u32 - '0' as u32) as i128;
        proof {
            lemma_digits_val_nonneg(pre);
            assert(all_digits(next)) by {
                assert forall|k: int| 0 <= k < next.len() implies is_digit(#[trigger] next[k]) by {
                    if k < pre.len() {
                        assert(next[k] == pre[k]);
                    }
                }
            }
            assert(digits_val(next) == digits_val(pre) * 10 + dv);
            if digits_val(pre) >= PARSE_CAP {
                assert(digits_val(pre) * 10 + dv >= PARSE_CAP) by (nonlinear_arith)
                    requires digits_val(pre) >= PARSE_CAP, dv >= 0;
            }
        }
        let v = acc * 10 + dv;
        acc = if v < PARSE_CAP { v } else { PARSE_CAP };
        i = i + 1;
    }
    proof {
        assert(cs@.subrange(start as int, cs@.len() as int) == d);
        if start == 1 {
            assert(d =~= s@.drop_first());
        } else {
            assert(d =~= s@);
        }
    }
    let v: i128 = if neg { -acc } else { acc };
    if (lo as i128) <= v && v <= (hi as i128) {
        Some(v as i64)
    } else {
        None
    }
}

} // verus!

verus! {

/// Stripping keeps exactly the characters outside the whitespace class, in
/// order: it equals filtering by "not whitespace", leaves no whitespace
/// behind, keeps every other character, and stripping twice is stripping
/// once.
pub proof fn lemma_strip_whitespace_exact(s: Seq<char>)
    ensures
        strip_ws(s) == s.filter(|c: char| !is_ws(c)),
        forall|i: int| 0 <= i < strip_ws(s).len() ==> !is_ws(#[trigger] strip_ws(s)[i]),
        forall|i: int| 0 <= i < s.len() && !is_ws(s[i]) ==> strip_ws(s).contains(#[trigger] s[i]),
        strip_ws(strip_ws(s)) == strip_ws(s),
    decreases s.len(),
{
    let pred = |c: char| !is_ws(c);
    reveal(Seq::filter);
    if s.len() == 0 {
        assert(s.filter(pred) =~= strip_ws(s));
    }
    if s.len() > 0 {
        lemma_strip_whitespace_exact(s.drop_last());
        let t = strip_ws(s.drop_last());
        assert(t == s.drop_last().filter(pred));
        assert(s.filter(pred) == (if pred(s.last()) { s.drop_last().filter(pred).push(s.last()) } else { s.drop_last().filter(pred) }));
        assert forall|i: int| 0 <= i < s.len() && !is_ws(s[i]) implies strip_ws(s).contains(#[trigger] s[i]) by {
            if i < s.len() - 1 {
                assert(s.drop_last()[i] == s[i]);
                assert(t.contains(s[i]));
                if !is_ws(s.last()) {
                    let w = choose|w: int| 0 <= w < t.len() && t[w] == s[i];
                    assert(t.push(s.last())[w] == s[i]);
                }
            } else {
                assert(strip_ws(s) == t.push(s.last()));
                assert(strip_ws(s)[t.len() as int] == s[i]);
            }
        }
        if !is_ws(s.last()) {
            let u = t.push(s.last());
            assert(u.drop_last() =~= t);
            assert(u.last() == s.last());
            assert(strip_ws(u) == strip_ws(t).push(s.last()));
        }
    }
}

} // verus!
