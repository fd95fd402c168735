//! The decisions of the speech screen: the recording button, the labels of
//! the voices and of the transcript segments, and the choice of a voice.

use vstd::prelude::*;
use vstd::string::*;
use crate::strings::{owned, concat2, concat3, push_char};
use crate::kokoro::Speaker;
use crate::transcript::TranscriptSegment;
use crate::number_words::{all_ascii_digits, digits_value};

verus! {

/// What the recorder is told to do when the recording button is pressed.
pub enum RecorderAction {
    Start,
    Stop,
}

/// The recording button: whether a recording runs, and the button's text and
/// colour.
pub struct RecordingButton {
    pub is_recording: bool,
    pub label: String,
    pub color: String,
}

/// The text and colour of the button while nothing is recorded.
pub open spec fn idle_button(b: RecordingButton) -> bool {
    !b.is_recording && b.label@ == "Start Recording"@ && b.color@ == "!bg-blue-500 hover:bg-blue-700"@
}

/// The text and colour of the button while a recording runs.
pub open spec fn recording_button(b: RecordingButton) -> bool {
    b.is_recording && b.label@ == "Stop Recording"@ && b.color@ == "!bg-red-500 hover:bg-red-700"@
}

impl RecordingButton {
    /// The button before anything is recorded.
    pub fn new() -> (r: Self)
        ensures
            idle_button(r),
    {
        RecordingButton {
            is_recording: false,
            label: owned("Start Recording"),
            color: owned("!bg-blue-500 hover:bg-blue-700"),
        }
    }

    /// Presses the button: a running recording is stopped, otherwise one is
    /// started; the button shows the new state.
    pub fn toggle(&mut self) -> (r: RecorderAction)
        ensures
            old(self).is_recording ==> r is Stop && idle_button(*final(self)),
            !old(self).is_recording ==> r is Start && recording_button(*final(self)),
    {
        if self.is_recording {
            self.is_recording = false;
            self.label = owned("Start Recording");
            self.color = owned("!bg-blue-500 hover:bg-blue-700");
            RecorderAction::Stop
        } else {
            self.is_recording = true;
            self.label = owned("Stop Recording");
            self.color = owned("!bg-red-500 hover:bg-red-700");
            RecorderAction::Start
        }
    }

    /// The class attribute of the button.
    pub fn class(&self) -> (r: String)
        ensures
            r@ == self.color@ + " text-white cursor-pointer font-normal py-2 px-4 rounded"@,
    {
        concat2(self.color.as_str(), " text-white cursor-pointer font-normal py-2 px-4 rounded")
    }

    /// Whether a recording may be transcribed: only when none runs.
    pub fn can_convert(&self) -> (r: bool)
        ensures
            r == !self.is_recording,
    {
        !self.is_recording
    }
}

/// The text before the first `.` (all of it when there is none).
pub open spec fn before_first_dot(s: Seq<char>) -> Seq<char>
    decreases s.len(),
{
    if s.len() == 0 {
        s
    } else if s[0] == '.' {
        seq![]
    } else {
        seq![s[0]] + before_first_dot(s.drop_first())
    }
}

/// A time stamp without its fraction of a second.
pub fn time_label(t: &str) -> (r: String)
    ensures
        r@ == before_first_dot(t@),
{
    let mut out = String::new();
    let mut done = false;
    proof {
        assert(t@.skip(0) =~= t@);
        assert(out@ + before_first_dot(t@) =~= before_first_dot(t@));
    }
    for c in it: t.chars()
        invariant
            it.seq() == t@,
            !done ==> before_first_dot(t@) == out@ + before_first_dot(t@.skip(it.index() as int)),
            done ==> before_first_dot(t@) == out@,
    {
        let ghost rest = t@.skip(it.index() as int);
        proof {
            assert(rest[0] == c);
            assert(rest.drop_first() =~= t@.skip(it.index() + 1));
        }
        if !done {
            if c == '.' {
                done = true;
                assert(out@ + Seq::<char>::empty() =~= out@);
            } else {
                let ghost before = out@;
                push_char(&mut out, c);
                assert(before + before_first_dot(rest) =~= out@ + before_first_dot(rest.drop_first()));
            }
        }
    }
    proof {
        if !done {
            assert(t@.skip(t@.len() as int) =~= Seq::<char>::empty());
            assert(out@ + Seq::<char>::empty() =~= out@);
        }
    }
    out
}

/// The heading of a transcript segment: its start and end times without
/// fractions of a second.
pub fn segment_heading(segment: &TranscriptSegment) -> (r: String)
    ensures
        r@ == before_first_dot(segment.start_time@) + " - "@ + before_first_dot(segment.end_time@)
            + ":"@,
{
    let start = time_label(segment.start_time.as_str());
    let end = time_label(segment.end_time.as_str());
    let mut s = concat3(start.as_str(), " - ", end.as_str());
    s.append(":");
    s
}

/// How a voice is listed: its name and, in brackets, its gender.
pub fn speaker_option_label(speaker: &Speaker) -> (r: String)
    ensures
        r@ == speaker.name@ + " ("@ + speaker.gender@ + ")"@,
{
    let mut s = concat3(speaker.name.as_str(), " (", speaker.gender.as_str());
    s.append(")");
    s
}

/// The digits of an unsigned number: the text without a leading `+`.
pub open spec fn unsigned_digits(s: Seq<char>) -> Seq<char> {
    if s.len() > 0 && s[0] == '+' {
        s.drop_first()
    } else {
        s
    }
}

/// The value of a text as an unsigned number (`str::parse::<usize>`): an
/// optional `+` and then one or more ASCII digits, worth at most
/// `usize::MAX`.
pub open spec fn parsed_usize(s: Seq<char>) -> Option<nat> {
    let digits = unsigned_digits(s);
    if digits.len() > 0 && all_ascii_digits(digits) && digits_value(digits) <= usize::MAX {
        Some(digits_value(digits))
    } else {
        None
    }
}

/// The voice chosen in the list: the number in the value, as a voice index;
/// 0 when the value is not a number.
pub fn speaker_choice(value: &str) -> (r: u32)
    ensures
        r == match parsed_usize(value@) {
            Some(n) => (n as usize) as u32,
            None => 0u32,
        },
{
    let cs = crate::strings::chars_of(value);
    let mut start: usize = 0;
    if cs.len() > 0 && cs[0] == '+' {
        start = 1;
    }
    let ghost digits = unsigned_digits(value@);
    assert(digits =~= value@.subrange(start as int, value@.len() as int));
    if start >= cs.len() {
        return 0;
    }
    let mut acc: usize = 0;
    let mut i = start;
    while i < cs.len()
        invariant
            cs@ == value@,
            start <= i <= cs@.len(),
            digits == value@.subrange(start as int, value@.len() as int),
            digits == unsigned_digits(value@),
            all_ascii_digits(value@.subrange(start as int, i as int)),
            acc == digits_value(value@.subrange(start as int, i as int)),
        decreases cs@.len() - i,
    {
        let c = cs[i];
        let ghost prefix = value@.subrange(start as int, i as int);
        let ghost next = value@.subrange(start as int, i + 1);
        proof {
            assert(next.drop_last() =~= prefix);
            assert(next.last() == c);
        }
        if !('0' <= c && c <= '9') {
            proof {
                assert(digits[i - start] == c);
                assert(!('0' <= digits[i - start] <= '9'));
                assert(!all_ascii_digits(digits));
                assert(parsed_usize(value@) is None);
            }
            return 0;
        }
        let d = (c as u32 - '0' as u32) as usize;
        match acc.checked_mul(10) {
            Some(m) => match m.checked_add(d) {
                Some(v) => {
                    acc = v;
                },
                None => {
                    proof {
                        assert(digits.take(i - start + 1) =~= next);
                        if all_ascii_digits(digits) {
                            lemma_digits_value_prefix_bound(digits, i - start + 1);
                        }
                        assert(parsed_usize(value@) is None);
                    }
                    return 0;
                },
            },
            None => {
                proof {
                    assert(digits.take(i - start + 1) =~= next);
                    if all_ascii_digits(digits) {
                        lemma_digits_value_prefix_bound(digits, i - start + 1);
                    }
                    assert(parsed_usize(value@) is None);
                }
                return 0;
            },
        }
        assert(all_ascii_digits(next)) by {
            assert forall|k: int| 0 <= k < next.len() implies '0' <= #[trigger] next[k] <= '9' by {
                if k < prefix.len() {
                    assert(next[k] == prefix[k]);
                }
            }
        }
        i = i + 1;
    }
    assert(value@.subrange(start as int, i as int) =~= digits);
    acc as u32
}

/// The value of a run of digits is at least the value of any prefix of it.
pub(crate) proof fn lemma_digits_value_prefix_bound(digits: Seq<char>, k: int)
    requires
        0 <= k <= digits.len(),
        all_ascii_digits(digits),
    ensures
        digits_value(digits.take(k)) <= digits_value(digits),
    decreases digits.len() - k,
{
    if k < digits.len() {
        lemma_digits_value_prefix_bound(digits, k + 1);
        let t = digits.take(k + 1);
        assert(t.drop_last() =~= digits.take(k));
        assert(t.last() == digits[k]);
        assert('0' <= digits[k]);
    } else {
        assert(digits.take(k) =~= digits);
    }
}

/// The file the Kokoro engine writes its audio to, below the directory `dir`.
pub fn kokoro_output_file(dir: &str) -> (r: String)
    ensures
        r@ == dir@ + "/assets/audios/output/audio_output_kokoro.wav"@,
{
    concat2(dir, "/assets/audios/output/audio_output_kokoro.wav")
}

/// The text the speech screen offers to speak at first.
pub fn initial_text() -> (r: &'static str)
    ensures
        r@ == "Venya is a voice-first AI assistant that listens, learns, and grows with you \u{2014} helping you manage your day, reflect, read books, and spark conversations."@,
{
    "Venya is a voice-first AI assistant that listens, learns, and grows with you \u{2014} helping you manage your day, reflect, read books, and spark conversations."
}

/// The log filter used when `RUST_LOG` is not set.
pub fn default_log_filter() -> (r: &'static str)
    ensures
        r@ == "xd_tts=info,app=info,trainer=info"@,
{
    "xd_tts=info,app=info,trainer=info"
}

/// The heading of the navigation bar.
pub fn title_heading(title: &str) -> (r: String)
    ensures
        r@ == title@ + "! \u{1F32D}"@,
{
    concat2(title, "! \u{1F32D}")
}

} // verus!
