//! Rewriting a text at the matches of a regular expression.
//!
//! The `regex` crate finds the matches; everything that is done with them
//! (cutting the text into the parts between the matches and the matched words,
//! and joining the parts again with replacements) is verified here.

use vstd::prelude::*;
use vstd::string::*;
use vstd::utf8::*;
use crate::strings::owned;

verus! {

broadcast use {encode_utf8_valid_utf8, encode_utf8_decode_utf8};

/// The matches of `pattern` in `text`, as byte ranges in the order in which the
/// `regex` crate reports them, or `None` when `pattern` is not a valid regex.
pub uninterp spec fn regex_matches(pattern: Seq<char>, text: Seq<char>) -> Option<Seq<(usize, usize)>>;

/// Byte ranges that can be cut out of `bytes`: each lies within `bytes`, starts
/// and ends on a character boundary, and each ends before the next one starts.
pub open spec fn spans_well_formed(bytes: Seq<u8>, spans: Seq<(usize, usize)>) -> bool {
    &&& forall|i: int|
        0 <= i < spans.len() ==> {
            &&& (#[trigger] spans[i]).0 <= spans[i].1 <= bytes.len()
            &&& is_char_boundary(bytes, spans[i].0 as int)
            &&& is_char_boundary(bytes, spans[i].1 as int)
        }
    &&& forall|i: int, j: int|
        0 <= i < j < spans.len() ==> (#[trigger] spans[i]).1 <= (#[trigger] spans[j]).0
}

/// Compiles `pattern` with `regex::Regex::new` and lists the byte ranges of
/// `Regex::find_iter` over `text`. The claims are the ones the `regex`
/// documentation makes of `find_iter` and of `Match`: the matches do not
/// overlap and come in order, and their offsets fall on character boundaries
/// inside the haystack. Which ranges are reported is left to the name
/// `regex_matches`.
#[verifier::external_body]
pub(crate) fn find_matches(pattern: &str, text: &str) -> (r: Option<Vec<(usize, usize)>>)
    ensures
        match r {
            Some(v) => regex_matches(pattern@, text@) == Some(v@) && spans_well_formed(
                text.spec_bytes(),
                v@,
            ),
            None => regex_matches(pattern@, text@) is None,
        },
{
    match regex::Regex::new(pattern) {
        Ok(re) => Some(re.find_iter(text).map(|m| (m.start(), m.end())).collect()),
        Err(_) => None,
    }
}

/// Start (in bytes) of the `i`-th part between matches.
pub open spec fn gap_start(spans: Seq<(usize, usize)>, i: int) -> int {
    if i == 0 {
        0
    } else {
        spans[i - 1].1 as int
    }
}

/// End (in bytes) of the `i`-th part between matches in a text of `len` bytes.
pub open spec fn gap_end(len: int, spans: Seq<(usize, usize)>, i: int) -> int {
    if i < spans.len() {
        spans[i].0 as int
    } else {
        len
    }
}

/// The parts of `text` before, between and after the matched ranges:
/// one more than there are ranges.
pub open spec fn span_gaps(text: Seq<char>, spans: Seq<(usize, usize)>) -> Seq<Seq<char>> {
    let bytes = encode_utf8(text);
    Seq::new(
        spans.len() + 1,
        |i: int|
            decode_utf8(bytes.subrange(gap_start(spans, i), gap_end(bytes.len() as int, spans, i))),
    )
}

/// The matched parts of `text`, one for each range.
pub open spec fn span_words(text: Seq<char>, spans: Seq<(usize, usize)>) -> Seq<Seq<char>> {
    let bytes = encode_utf8(text);
    Seq::new(
        spans.len(),
        |i: int| decode_utf8(bytes.subrange(spans[i].0 as int, spans[i].1 as int)),
    )
}

/// `gaps[0] + fills[0] + gaps[1] + ... + fills[n-1] + gaps[n]`.
pub open spec fn interleave(gaps: Seq<Seq<char>>, fills: Seq<Seq<char>>) -> Seq<char>
    decreases fills.len(),
{
    if fills.len() == 0 {
        gaps[0]
    } else {
        interleave(gaps.drop_last(), fills.drop_last()) + fills.last() + gaps.last()
    }
}

/// The text in which each matched range is replaced by the corresponding entry
/// of `fills`.
pub open spec fn rewrite(text: Seq<char>, spans: Seq<(usize, usize)>, fills: Seq<Seq<char>>) -> Seq<
    char,
> {
    interleave(span_gaps(text, spans), fills)
}

/// A position that is a character boundary of a valid text is one of the text
/// that starts at an earlier boundary, and of the text that ends at a later one.
proof fn lemma_boundary_in_subrange(bytes: Seq<u8>, lo: int, hi: int, k: int)
    requires
        valid_utf8(bytes),
        0 <= lo <= k <= hi <= bytes.len(),
        is_char_boundary(bytes, lo),
        is_char_boundary(bytes, hi),
        is_char_boundary(bytes, k),
    ensures
        valid_utf8(bytes.subrange(lo, hi)),
        is_char_boundary(bytes.subrange(lo, hi), k - lo),
{
    broadcast use valid_utf8_split, is_char_boundary_start_end_of_seq;

    let upper = bytes.subrange(0, hi);
    assert(valid_utf8(upper));
    let sub = upper.subrange(lo, hi);
    assert(sub =~= bytes.subrange(lo, hi));
    if lo < hi {
        is_char_boundary_iff_not_is_continuation_byte(bytes, lo);
        is_char_boundary_iff_not_is_continuation_byte(upper, lo);
    }
    assert(is_char_boundary(upper, lo));
    valid_utf8_split(upper, lo);
    assert(valid_utf8(sub));
    if k == hi {
        is_char_boundary_start_end_of_seq(sub);
    } else {
        is_char_boundary_iff_not_is_continuation_byte(bytes, k);
        is_char_boundary_iff_not_is_continuation_byte(sub, k - lo);
    }
}

/// Splitting a valid text at a boundary splits its characters.
proof fn lemma_decode_concat(bytes: Seq<u8>, lo: int, mid: int, hi: int)
    requires
        valid_utf8(bytes),
        0 <= lo <= mid <= hi <= bytes.len(),
        is_char_boundary(bytes, lo),
        is_char_boundary(bytes, mid),
        is_char_boundary(bytes, hi),
    ensures
        decode_utf8(bytes.subrange(lo, hi)) == decode_utf8(bytes.subrange(lo, mid)) + decode_utf8(
            bytes.subrange(mid, hi),
        ),
{
    lemma_boundary_in_subrange(bytes, lo, hi, mid);
    let sub = bytes.subrange(lo, hi);
    decode_utf8_split(sub, mid - lo);
    assert(sub.subrange(0, mid - lo) =~= bytes.subrange(lo, mid));
    assert(sub.subrange(mid - lo, sub.len() as int) =~= bytes.subrange(mid, hi));
}

/// Cuts `text` at the given ranges into the parts between them and the matched
/// parts.
pub fn split_at_spans(text: &str, spans: &Vec<(usize, usize)>) -> (r: (Vec<String>, Vec<String>))
    requires
        spans_well_formed(text.spec_bytes(), spans@),
    ensures
        r.0.deep_view() =~= span_gaps(text@, spans@),
        r.1.deep_view() =~= span_words(text@, spans@),
{
    let ghost bytes = text.spec_bytes();
    let ghost len = bytes.len() as int;
    proof {
        is_char_boundary_start_end_of_seq(bytes);
        assert(bytes.subrange(0, len) =~= bytes);
    }
    let mut gaps: Vec<String> = Vec::new();
    let mut words: Vec<String> = Vec::new();
    let mut rest: &str = text;
    let mut pos: usize = 0;
    let n = spans.len();
    for i in 0..n
        invariant
            n == spans@.len(),
            bytes == text.spec_bytes(),
            len == bytes.len(),
            valid_utf8(bytes),
            spans_well_formed(bytes, spans@),
            pos == gap_start(spans@, i as int),
            0 <= pos <= len,
            is_char_boundary(bytes, pos as int),
            is_char_boundary(bytes, len),
            i < n ==> pos <= spans@[i as int].0,
            rest.spec_bytes() == bytes.subrange(pos as int, len),
            gaps@.len() == i,
            words@.len() == i,
            forall|k: int| 0 <= k < i ==> (#[trigger] gaps@[k])@ == span_gaps(text@, spans@)[k],
            forall|k: int| 0 <= k < i ==> (#[trigger] words@[k])@ == span_words(text@, spans@)[k],
    {
        let (s, e) = spans[i];
        proof {
            assert(spans@[i as int] == (s, e));
            lemma_boundary_in_subrange(bytes, pos as int, len, s as int);
        }
        let (gap, tail) = rest.split_at(s - pos);
        proof {
            assert(gap.spec_bytes() =~= bytes.subrange(pos as int, s as int));
            assert(tail.spec_bytes() =~= bytes.subrange(s as int, len));
            lemma_boundary_in_subrange(bytes, s as int, len, e as int);
        }
        let (word, tail2) = tail.split_at(e - s);
        proof {
            assert(word.spec_bytes() =~= bytes.subrange(s as int, e as int));
            assert(tail2.spec_bytes() =~= bytes.subrange(e as int, len));
            assert(decode_utf8(gap.spec_bytes()) == gap@);
            assert(decode_utf8(word.spec_bytes()) == word@);
            assert(decode_utf8(encode_utf8(text@)) == text@);
            if i + 1 < n {
                assert(spans@[i as int].1 <= spans@[i + 1].0);
            }
        }
        gaps.push(owned(gap));
        words.push(owned(word));
        rest = tail2;
        pos = e;
    }
    proof {
        assert(decode_utf8(rest.spec_bytes()) == rest@);
    }
    gaps.push(owned(rest));
    (gaps, words)
}

/// Joins the parts between matches with the given replacements:
/// `gaps[0] + fills[0] + gaps[1] + ... + gaps[n]`.
pub fn join_parts(gaps: &Vec<String>, fills: &Vec<String>) -> (r: String)
    requires
        gaps@.len() == fills@.len() + 1,
    ensures
        r@ == interleave(gaps.deep_view(), fills.deep_view()),
{
    let mut out = owned(gaps[0].as_str());
    let n = fills.len();
    for i in 0..n
        invariant
            n == fills@.len(),
            gaps@.len() == n + 1,
            out@ == interleave(gaps.deep_view().take(i + 1), fills.deep_view().take(i as int)),
    {
        proof {
            let g = gaps.deep_view().take(i + 2);
            let f = fills.deep_view().take(i + 1);
            assert(g.drop_last() =~= gaps.deep_view().take(i + 1));
            assert(f.drop_last() =~= fills.deep_view().take(i as int));
        }
        out.append(fills[i].as_str());
        out.append(gaps[i + 1].as_str());
    }
    proof {
        assert(gaps.deep_view().take(n + 1) =~= gaps.deep_view());
        assert(fills.deep_view().take(n as int) =~= fills.deep_view());
    }
    out
}

/// Putting every matched part back in its place gives the text again: cutting
/// a text at well-formed ranges loses nothing.
pub proof fn lemma_rewrite_with_words_is_identity(text: Seq<char>, spans: Seq<(usize, usize)>)
    requires
        spans_well_formed(encode_utf8(text), spans),
    ensures
        rewrite(text, spans, span_words(text, spans)) == text,
{
    let bytes = encode_utf8(text);
    let len = bytes.len() as int;
    let n = spans.len() as int;
    let gaps = span_gaps(text, spans);
    let words = span_words(text, spans);
    lemma_prefix_interleave(text, spans, n);
    assert(gaps.take(n + 1) =~= gaps);
    assert(words.take(n) =~= words);
    assert(gap_end(len, spans, n) == len);
    assert(bytes.subrange(0, len) =~= bytes);
    assert(decode_utf8(bytes) == text);
}

/// The first `m` matched parts with the parts around them give back the text
/// up to the end of the `m`-th part between matches.
proof fn lemma_prefix_interleave(text: Seq<char>, spans: Seq<(usize, usize)>, m: int)
    requires
        spans_well_formed(encode_utf8(text), spans),
        0 <= m <= spans.len(),
    ensures
        interleave(span_gaps(text, spans).take(m + 1), span_words(text, spans).take(m))
            == decode_utf8(
            encode_utf8(text).subrange(0, gap_end(encode_utf8(text).len() as int, spans, m)),
        ),
    decreases m,
{
    let bytes = encode_utf8(text);
    let len = bytes.len() as int;
    let gaps = span_gaps(text, spans);
    let words = span_words(text, spans);
    is_char_boundary_start_end_of_seq(bytes);
    if m == 0 {
        assert(gaps.take(1).len() == 1);
        assert(gaps.take(1)[0] == gaps[0]);
        if spans.len() > 0 {
            assert(spans[0].0 <= len);
        }
    } else {
        lemma_prefix_interleave(text, spans, m - 1);
        let g = gaps.take(m + 1);
        let w = words.take(m);
        assert(g.drop_last() =~= gaps.take(m));
        assert(w.drop_last() =~= words.take(m - 1));
        let s = spans[m - 1].0 as int;
        let e = spans[m - 1].1 as int;
        let end = gap_end(len, spans, m);
        assert(spans[m - 1].0 <= spans[m - 1].1);
        if m < spans.len() {
            assert(spans[m - 1].1 <= spans[m].0);
            assert(spans[m].0 <= spans[m].1 <= len);
        }
        assert(gap_end(len, spans, m - 1) == s);
        assert(w.last() == decode_utf8(bytes.subrange(s, e)));
        assert(g.last() == decode_utf8(bytes.subrange(e, end)));
        lemma_decode_concat(bytes, 0, s, e);
        lemma_decode_concat(bytes, 0, e, end);
    }
}

} // verus!
