//! Reading the transcript that the whisper command line prints.
//!
//! Whisper prints one line per recognised segment, such as
//! `[00:00:00.000 --> 00:00:02.500]   Hello there.`; every other line is
//! ignored.

use vstd::prelude::*;
use vstd::string::*;
use crate::strings::{push_char, char_is_whitespace, is_whitespace};

verus! {

/// A segment of transcribed audio.
#[derive(Clone, Debug)]
pub struct TranscriptSegment {
    pub start_time: String,
    pub end_time: String,
    pub content: String,
}

/// `s` without its leading white space.
pub open spec fn trim_start(s: Seq<char>) -> Seq<char>
    decreases s.len(),
{
    if s.len() > 0 && char_is_whitespace(s[0]) {
        trim_start(s.drop_first())
    } else {
        s
    }
}

/// `s` without its trailing white space.
pub open spec fn trim_end(s: Seq<char>) -> Seq<char>
    decreases s.len(),
{
    if s.len() > 0 && char_is_whitespace(s.last()) {
        trim_end(s.drop_last())
    } else {
        s
    }
}

/// `s` without leading and trailing white space (`str::trim`).
pub open spec fn trimmed(s: Seq<char>) -> Seq<char> {
    trim_end(trim_start(s))
}

/// A line without the carriage return of a `\r\n` line ending.
pub open spec fn strip_cr(line: Seq<char>) -> Seq<char> {
    if line.len() > 0 && line.last() == '\r' {
        line.drop_last()
    } else {
        line
    }
}

/// The lines of `s`, where `current` is the start of the first line that was
/// already read (`str::lines`: lines end at `\n` or `\r\n`; the last line
/// needs no line ending).
pub open spec fn lines_from(s: Seq<char>, current: Seq<char>) -> Seq<Seq<char>>
    decreases s.len(),
{
    if s.len() == 0 {
        if current.len() == 0 {
            seq![]
        } else {
            seq![current]
        }
    } else if s[0] == '\n' {
        seq![strip_cr(current)] + lines_from(s.drop_first(), seq![])
    } else {
        lines_from(s.drop_first(), current.push(s[0]))
    }
}

/// The lines of `s`.
pub open spec fn text_lines(s: Seq<char>) -> Seq<Seq<char>> {
    lines_from(s, seq![])
}

/// The first position at or after `i` that holds `c`.
pub open spec fn find_char_from(s: Seq<char>, c: char, i: int) -> Option<int>
    decreases s.len() - i,
{
    if i < 0 || i >= s.len() {
        None
    } else if s[i] == c {
        Some(i)
    } else {
        find_char_from(s, c, i + 1)
    }
}

/// Whether the arrow `-->` starts at position `i` of `s`.
pub open spec fn arrow_at(s: Seq<char>, i: int) -> bool {
    0 <= i && i + 3 <= s.len() && s[i] == '-' && s[i + 1] == '-' && s[i + 2] == '>'
}

/// The first position at or after `i` where an arrow `-->` starts.
pub open spec fn find_arrow_from(s: Seq<char>, i: int) -> Option<int>
    decreases s.len() - i,
{
    if i < 0 || i + 3 > s.len() {
        None
    } else if arrow_at(s, i) {
        Some(i)
    } else {
        find_arrow_from(s, i + 1)
    }
}

/// The segment a line describes, as (start time, end time, content): a line
/// that starts with `[`, has a `]`, and between them an arrow `-->`. The times
/// are the trimmed texts around the first arrow, the content the trimmed text
/// after the first `]`.
pub open spec fn segment_of_line(line: Seq<char>) -> Option<(Seq<char>, Seq<char>, Seq<char>)> {
    if line.len() > 0 && line[0] == '[' {
        match find_char_from(line, ']', 0) {
            Some(b) => {
                let times = line.subrange(1, b);
                match find_arrow_from(times, 0) {
                    Some(a) => Some(
                        (
                            trimmed(times.take(a)),
                            trimmed(times.skip(a + 3)),
                            trimmed(line.skip(b + 1)),
                        ),
                    ),
                    None => None,
                }
            },
            None => None,
        }
    } else {
        None
    }
}

/// The segments described by a list of lines, in order.
pub open spec fn segments_of_lines(lines: Seq<Seq<char>>) -> Seq<(Seq<char>, Seq<char>, Seq<char>)>
    decreases lines.len(),
{
    if lines.len() == 0 {
        seq![]
    } else {
        match segment_of_line(lines[0]) {
            Some(seg) => seq![seg] + segments_of_lines(lines.drop_first()),
            None => segments_of_lines(lines.drop_first()),
        }
    }
}

/// The segments of a whisper transcript.
pub open spec fn whisper_segments(output: Seq<char>) -> Seq<(Seq<char>, Seq<char>, Seq<char>)> {
    segments_of_lines(text_lines(output))
}

/// A segment as its three texts.
pub open spec fn segment_view(s: TranscriptSegment) -> (Seq<char>, Seq<char>, Seq<char>) {
    (s.start_time@, s.end_time@, s.content@)
}

/// An optional position as an integer.
pub open spec fn as_int_option(r: Option<usize>) -> Option<int> {
    match r {
        Some(i) => Some(i as int),
        None => None,
    }
}

/// An optional segment as its three texts.
pub open spec fn segment_option_view(r: Option<TranscriptSegment>) -> Option<(Seq<char>, Seq<char>, Seq<char>)> {
    match r {
        Some(s) => Some(segment_view(s)),
        None => None,
    }
}

/// The characters `v[lo..hi]` as a `String`.
fn string_of(v: &Vec<char>, lo: usize, hi: usize) -> (r: String)
    requires
        lo <= hi <= v@.len(),
    ensures
        r@ == v@.subrange(lo as int, hi as int),
{
    let mut out = String::new();
    let mut i = lo;
    while i < hi
        invariant
            lo <= i <= hi <= v@.len(),
            out@ == v@.subrange(lo as int, i as int),
        decreases hi - i,
    {
        push_char(&mut out, v[i]);
        assert(out@ =~= v@.subrange(lo as int, i + 1));
        i = i + 1;
    }
    out
}

proof fn lemma_trim_start_step(s: Seq<char>, lo: int, hi: int)
    requires
        0 <= lo < hi <= s.len(),
        char_is_whitespace(s[lo]),
    ensures
        trim_start(s.subrange(lo, hi)) == trim_start(s.subrange(lo + 1, hi)),
{
    assert(s.subrange(lo, hi).drop_first() =~= s.subrange(lo + 1, hi));
}

proof fn lemma_trim_end_step(s: Seq<char>, lo: int, hi: int)
    requires
        0 <= lo < hi <= s.len(),
        char_is_whitespace(s[hi - 1]),
    ensures
        trim_end(s.subrange(lo, hi)) == trim_end(s.subrange(lo, hi - 1)),
{
    assert(s.subrange(lo, hi).drop_last() =~= s.subrange(lo, hi - 1));
}

/// `v[lo..hi]` trimmed, as a `String`.
fn trimmed_string(v: &Vec<char>, lo: usize, hi: usize) -> (r: String)
    requires
        lo <= hi <= v@.len(),
    ensures
        r@ == trimmed(v@.subrange(lo as int, hi as int)),
{
    let mut a = lo;
    while a < hi && is_whitespace(v[a])
        invariant
            lo <= a <= hi <= v@.len(),
            trim_start(v@.subrange(lo as int, hi as int)) == trim_start(v@.subrange(a as int, hi as int)),
        decreases hi - a,
    {
        proof {
            lemma_trim_start_step(v@, a as int, hi as int);
        }
        a = a + 1;
    }
    assert(trim_start(v@.subrange(a as int, hi as int)) == v@.subrange(a as int, hi as int)) by {
        if a < hi {
            assert(v@.subrange(a as int, hi as int)[0] == v@[a as int]);
        }
    }
    let mut b = hi;
    while b > a && is_whitespace(v[b - 1])
        invariant
            lo <= a <= b <= hi <= v@.len(),
            trim_end(v@.subrange(a as int, hi as int)) == trim_end(v@.subrange(a as int, b as int)),
        decreases b - a,
    {
        proof {
            lemma_trim_end_step(v@, a as int, b as int);
        }
        b = b - 1;
    }
    assert(trim_end(v@.subrange(a as int, b as int)) == v@.subrange(a as int, b as int)) by {
        if a < b {
            assert(v@.subrange(a as int, b as int).last() == v@[b - 1]);
        }
    }
    string_of(v, a, b)
}

/// The first position at or after `from` that holds `c`.
fn find_char(v: &Vec<char>, c: char, from: usize) -> (r: Option<usize>)
    requires
        from <= v@.len(),
    ensures
        as_int_option(r) == find_char_from(v@, c, from as int),
        r matches Some(i) ==> from <= i < v@.len() && v@[i as int] == c,
{
    let mut i = from;
    while i < v.len()
        invariant
            from <= i <= v@.len(),
            find_char_from(v@, c, from as int) == find_char_from(v@, c, i as int),
        decreases v@.len() - i,
    {
        if v[i] == c {
            return Some(i);
        }
        i = i + 1;
    }
    None
}

/// The first position at or after `from` in `v[lo..hi]` (counted from `lo`)
/// where an arrow `-->` starts.
fn find_arrow(v: &Vec<char>, lo: usize, hi: usize) -> (r: Option<usize>)
    requires
        lo <= hi <= v@.len(),
    ensures
        as_int_option(r) == find_arrow_from(v@.subrange(lo as int, hi as int), 0),
        r matches Some(i) ==> i + 3 <= hi - lo,
{
    let ghost s = v@.subrange(lo as int, hi as int);
    let mut i: usize = 0;
    while hi - lo >= 3 && i <= hi - lo - 3
        invariant
            lo <= hi <= v@.len(),
            i <= hi - lo,
            s == v@.subrange(lo as int, hi as int),
            find_arrow_from(s, 0) == find_arrow_from(s, i as int),
        decreases hi - lo - i,
    {
        if v[lo + i] == '-' && v[lo + i + 1] == '-' && v[lo + i + 2] == '>' {
            return Some(i);
        }
        i = i + 1;
    }
    None
}

/// The segment a line describes, if it describes one.
fn parse_line(line: &Vec<char>) -> (r: Option<TranscriptSegment>)
    ensures
        segment_option_view(r) == segment_of_line(line@),
{
    if line.len() > 0 && line[0] == '[' {
        match find_char(line, ']', 0) {
            Some(b) => {
                assert(b >= 1);
                let ghost times = line@.subrange(1, b as int);
                match find_arrow(line, 1, b) {
                    Some(a) => {
                        assert(times.take(a as int) =~= line@.subrange(1, 1 + a));
                        assert(times.skip(a + 3) =~= line@.subrange(1 + a + 3, b as int));
                        assert(line@.skip(b + 1) =~= line@.subrange(b + 1, line@.len() as int));
                        let start = trimmed_string(line, 1, 1 + a);
                        let end = trimmed_string(line, 1 + a + 3, b);
                        let content = trimmed_string(line, b + 1, line.len());
                        Some(TranscriptSegment { start_time: start, end_time: end, content })
                    },
                    None => None,
                }
            },
            None => None,
        }
    } else {
        None
    }
}

/// Reads the segments of a whisper transcript, in the order of their lines.
pub fn parse_whisper_output(output: &str) -> (r: Vec<TranscriptSegment>)
    ensures
        r@.map_values(|s: TranscriptSegment| segment_view(s)) == whisper_segments(output@),
{
    let mut segments: Vec<TranscriptSegment> = Vec::new();
    let mut current: Vec<char> = Vec::new();
    proof {
        assert(output@.skip(0) =~= output@);
        assert(segments@.map_values(|s: TranscriptSegment| segment_view(s)) =~= Seq::empty());
    }
    for c in it: output.chars()
        invariant
            it.seq() == output@,
            whisper_segments(output@) == segments@.map_values(
                |s: TranscriptSegment| segment_view(s),
            ) + segments_of_lines(lines_from(output@.skip(it.index() as int), current@)),
    {
        let ghost rest = output@.skip(it.index() as int);
        let ghost before = segments@.map_values(|s: TranscriptSegment| segment_view(s));
        proof {
            assert(rest[0] == c);
            assert(rest.drop_first() =~= output@.skip(it.index() + 1));
        }
        if c == '\n' {
            let ghost read = current@;
            if current.len() > 0 && current[current.len() - 1] == '\r' {
                current.pop();
                assert(current@ =~= read.drop_last());
            }
            let ghost stripped = current@;
            assert(stripped == strip_cr(read));
            let found = parse_line(&current);
            proof {
                let tail = lines_from(output@.skip(it.index() + 1), seq![]);
                assert((seq![stripped] + tail).drop_first() =~= tail);
                assert((seq![stripped] + tail)[0] == stripped);
            }
            match found {
                Some(seg) => {
                    segments.push(seg);
                    assert(segments@.map_values(|s: TranscriptSegment| segment_view(s)) =~= before
                        + seq![segment_view(seg)]);
                },
                None => {},
            }
            current = Vec::new();
        } else {
            current.push(c);
        }
    }
    proof {
        assert(output@.skip(output@.len() as int) =~= Seq::<char>::empty());
    }
    let ghost done = segments@.map_values(|s: TranscriptSegment| segment_view(s));
    assert(whisper_segments(output@) == done + segments_of_lines(lines_from(Seq::<char>::empty(), current@)));
    if current.len() == 0 {
        assert(done + segments_of_lines(Seq::<Seq<char>>::empty()) =~= done);
    }
    if current.len() > 0 {
        let found = parse_line(&current);
        match found {
            Some(seg) => {
                let ghost before = segments@.map_values(|s: TranscriptSegment| segment_view(s));
                segments.push(seg);
                assert(segments@.map_values(|s: TranscriptSegment| segment_view(s)) =~= before
                    + seq![segment_view(seg)]);
            },
            None => {},
        }
        proof {
            assert(seq![current@].drop_first() =~= Seq::<Seq<char>>::empty());
            assert(segments_of_lines(seq![current@]) == match segment_of_line(current@) {
                Some(seg) => seq![seg] + segments_of_lines(Seq::<Seq<char>>::empty()),
                None => segments_of_lines(Seq::<Seq<char>>::empty()),
            });
            assert(segments_of_lines(Seq::<Seq<char>>::empty()) =~= Seq::empty());
            assert(done + Seq::<(Seq<char>, Seq<char>, Seq<char>)>::empty() =~= done);
        }
    }
    segments
}

} // verus!

verus! {

/// Looking from `i` on, the first position that holds `c` is `j` when `j`
/// holds it and nothing between them does.
proof fn lemma_first_char_at(x: Seq<char>, c: char, i: int, j: int)
    requires
        0 <= i <= j < x.len(),
        x[j] == c,
        forall|k: int| i <= k < j ==> x[k] != c,
    ensures
        find_char_from(x, c, i) == Some(j),
    decreases j - i,
{
    if i < j {
        lemma_first_char_at(x, c, i + 1, j);
    }
}

/// Looking from `i` on, the first arrow starts at `j` when one starts there
/// and none starts between them.
proof fn lemma_first_arrow_at(x: Seq<char>, i: int, j: int)
    requires
        0 <= i <= j,
        arrow_at(x, j),
        forall|k: int| i <= k < j ==> !arrow_at(x, k),
    ensures
        find_arrow_from(x, i) == Some(j),
    decreases j - i,
{
    if i < j {
        lemma_first_arrow_at(x, i + 1, j);
    }
}

/// A whisper line `[start --> end]content`, whose start has no `]` and no
/// arrow and whose end has no `]`, is read as the trimmed start and end times
/// and the trimmed content, whatever the content holds: the times stop at the
/// first `]` and at the first arrow.
pub proof fn lemma_timed_line_read(start: Seq<char>, end: Seq<char>, content: Seq<char>)
    requires
        forall|k: int| 0 <= k < start.len() ==> start[k] != ']',
        forall|k: int| 0 <= k < end.len() ==> end[k] != ']',
        forall|k: int| !arrow_at(start, k),
    ensures
        segment_of_line(seq!['['] + start + seq!['-', '-', '>'] + end + seq![']'] + content) == Some(
            (trimmed(start), trimmed(end), trimmed(content)),
        ),
{
    let line = seq!['['] + start + seq!['-', '-', '>'] + end + seq![']'] + content;
    let b: int = 1 + start.len() as int + 3 + end.len() as int;
    assert forall|k: int| 0 <= k < b implies line[k] != ']' by {
        if 1 <= k < 1 + start.len() {
            assert(line[k] == start[k - 1]);
        } else if 1 + start.len() + 3 <= k < b {
            assert(line[k] == end[k - 1 - start.len() - 3]);
        }
    }
    lemma_first_char_at(line, ']', 0, b);
    let times = line.subrange(1, b);
    assert(times =~= start + seq!['-', '-', '>'] + end);
    let a = start.len() as int;
    assert forall|k: int| 0 <= k < a implies !arrow_at(times, k) by {
        if arrow_at(times, k) {
            if k + 3 <= a {
                assert(arrow_at(start, k));
            } else {
                assert(times[k + 2] == '-');
            }
        }
    }
    assert(arrow_at(times, a));
    lemma_first_arrow_at(times, 0, a);
    assert(times.take(a) =~= start);
    assert(times.skip(a + 3) =~= end);
    assert(line.skip(b + 1) =~= content);
}

} // verus!
