//! The voices of the Kokoro speech engine and the engine's session state:
//! which voice speaks, and where the generated audio is written.

use vstd::prelude::*;
use vstd::string::*;
use crate::strings::owned;
use crate::text_normalizer::{TextNormalizer, normalized, default_lookup};

verus! {

/// A speaker with its identifier, name, gender and native language.
pub struct Speaker {
    pub id: u32,
    pub name: String,
    pub gender: String,
    pub native_language: String,
}

/// Name, gender and native language of each voice, in identifier order.
pub open spec fn speaker_table() -> Seq<(Seq<char>, Seq<char>, Seq<char>)> {
    seq![
        ("Heart"@, "Female"@, "American English"@),
        ("Alloy"@, "Female"@, "American English"@),
        ("Aoede"@, "Female"@, "American English"@),
        ("Bella"@, "Female"@, "American English"@),
        ("Jessica"@, "Female"@, "American English"@),
        ("Kore"@, "Female"@, "American English"@),
        ("Nicole"@, "Female"@, "American English"@),
        ("Nova"@, "Female"@, "American English"@),
        ("River"@, "Female"@, "American English"@),
        ("Sarah"@, "Female"@, "American English"@),
        ("Sky"@, "Female"@, "American English"@),
        ("Adam"@, "Male"@, "American English"@),
        ("Echo"@, "Male"@, "American English"@),
        ("Eric"@, "Male"@, "American English"@),
        ("Fenrir"@, "Male"@, "American English"@),
        ("Liam"@, "Male"@, "American English"@),
        ("Michael"@, "Male"@, "American English"@),
        ("Onyx"@, "Male"@, "American English"@),
        ("Puck"@, "Male"@, "American English"@),
        ("Santa"@, "Male"@, "American English"@),
        ("Alice"@, "Female"@, "British English"@),
        ("Emma"@, "Female"@, "British English"@),
        ("Isabella"@, "Female"@, "British English"@),
        ("Lily"@, "Female"@, "British English"@),
        ("Daniel"@, "Male"@, "British English"@),
        ("Fable"@, "Male"@, "British English"@),
        ("George"@, "Male"@, "British English"@),
        ("Lewis"@, "Male"@, "British English"@),
        ("Alpha"@, "Female"@, "Japanese"@),
        ("Gongitsune"@, "Female"@, "Japanese"@),
        ("Nezumi"@, "Female"@, "Japanese"@),
        ("Tebukuro"@, "Female"@, "Japanese"@),
        ("Kumo"@, "Male"@, "Japanese"@),
        ("Xiaobei"@, "Female"@, "Mandarin Chinese"@),
        ("Xiaoni"@, "Female"@, "Mandarin Chinese"@),
        ("Xiaoxiao"@, "Female"@, "Mandarin Chinese"@),
        ("Xiaoyi"@, "Female"@, "Mandarin Chinese"@),
        ("Yunjian"@, "Male"@, "Mandarin Chinese"@),
        ("Yunxi"@, "Male"@, "Mandarin Chinese"@),
        ("Yunxia"@, "Male"@, "Mandarin Chinese"@),
        ("Yunyang"@, "Male"@, "Mandarin Chinese"@),
        ("Dora"@, "Female"@, "Spanish"@),
        ("Alex"@, "Male"@, "Spanish"@),
        ("Santa"@, "Male"@, "Spanish"@),
        ("Siwis"@, "Female"@, "French"@),
        ("Alpha"@, "Female"@, "Hindi"@),
        ("Beta"@, "Female"@, "Hindi"@),
        ("Omega"@, "Male"@, "Hindi"@),
        ("Psi"@, "Male"@, "Hindi"@),
        ("Sara"@, "Female"@, "Italian"@),
        ("Nicola"@, "Male"@, "Italian"@),
        ("Dora"@, "Female"@, "Brazilian Portuguese"@),
        ("Alex"@, "Male"@, "Brazilian Portuguese"@),
        ("Santa"@, "Male"@, "Brazilian Portuguese"@),
    ]
}

/// The speaker at position `i` of the list has identifier `i` and the
/// description `speaker_table()[i]`.
pub open spec fn is_speaker_list(speakers: Seq<Speaker>) -> bool {
    &&& speakers.len() == speaker_table().len()
    &&& forall|i: int|
        0 <= i < speakers.len() ==> {
            &&& (#[trigger] speakers[i]).id == i
            &&& speakers[i].name@ == speaker_table()[i].0
            &&& speakers[i].gender@ == speaker_table()[i].1
            &&& speakers[i].native_language@ == speaker_table()[i].2
        }
}

fn speaker(id: u32, name: &str, gender: &str, native_language: &str) -> (r: Speaker)
    ensures
        r.id == id,
        r.name@ == name@,
        r.gender@ == gender@,
        r.native_language@ == native_language@,
{
    Speaker {
        id,
        name: owned(name),
        gender: owned(gender),
        native_language: owned(native_language),
    }
}

/// The predefined speakers of the engine, in several languages and genders.
pub fn set_available_speakers() -> (r: Vec<Speaker>)
    ensures
        is_speaker_list(r@),
{
    let v = vec![
        speaker(0, "Heart", "Female", "American English"),
        speaker(1, "Alloy", "Female", "American English"),
        speaker(2, "Aoede", "Female", "American English"),
        speaker(3, "Bella", "Female", "American English"),
        speaker(4, "Jessica", "Female", "American English"),
        speaker(5, "Kore", "Female", "American English"),
        speaker(6, "Nicole", "Female", "American English"),
        speaker(7, "Nova", "Female", "American English"),
        speaker(8, "River", "Female", "American English"),
        speaker(9, "Sarah", "Female", "American English"),
        speaker(10, "Sky", "Female", "American English"),
        speaker(11, "Adam", "Male", "American English"),
        speaker(12, "Echo", "Male", "American English"),
        speaker(13, "Eric", "Male", "American English"),
        speaker(14, "Fenrir", "Male", "American English"),
        speaker(15, "Liam", "Male", "American English"),
        speaker(16, "Michael", "Male", "American English"),
        speaker(17, "Onyx", "Male", "American English"),
        speaker(18, "Puck", "Male", "American English"),
        speaker(19, "Santa", "Male", "American English"),
        speaker(20, "Alice", "Female", "British English"),
        speaker(21, "Emma", "Female", "British English"),
        speaker(22, "Isabella", "Female", "British English"),
        speaker(23, "Lily", "Female", "British English"),
        speaker(24, "Daniel", "Male", "British English"),
        speaker(25, "Fable", "Male", "British English"),
        speaker(26, "George", "Male", "British English"),
        speaker(27, "Lewis", "Male", "British English"),
        speaker(28, "Alpha", "Female", "Japanese"),
        speaker(29, "Gongitsune", "Female", "Japanese"),
        speaker(30, "Nezumi", "Female", "Japanese"),
        speaker(31, "Tebukuro", "Female", "Japanese"),
        speaker(32, "Kumo", "Male", "Japanese"),
        speaker(33, "Xiaobei", "Female", "Mandarin Chinese"),
        speaker(34, "Xiaoni", "Female", "Mandarin Chinese"),
        speaker(35, "Xiaoxiao", "Female", "Mandarin Chinese"),
        speaker(36, "Xiaoyi", "Female", "Mandarin Chinese"),
        speaker(37, "Yunjian", "Male", "Mandarin Chinese"),
        speaker(38, "Yunxi", "Male", "Mandarin Chinese"),
        speaker(39, "Yunxia", "Male", "Mandarin Chinese"),
        speaker(40, "Yunyang", "Male", "Mandarin Chinese"),
        speaker(41, "Dora", "Female", "Spanish"),
        speaker(42, "Alex", "Male", "Spanish"),
        speaker(43, "Santa", "Male", "Spanish"),
        speaker(44, "Siwis", "Female", "French"),
        speaker(45, "Alpha", "Female", "Hindi"),
        speaker(46, "Beta", "Female", "Hindi"),
        speaker(47, "Omega", "Male", "Hindi"),
        speaker(48, "Psi", "Male", "Hindi"),
        speaker(49, "Sara", "Female", "Italian"),
        speaker(50, "Nicola", "Male", "Italian"),
        speaker(51, "Dora", "Female", "Brazilian Portuguese"),
        speaker(52, "Alex", "Male", "Brazilian Portuguese"),
        speaker(53, "Santa", "Male", "Brazilian Portuguese"),
    ];
    assert(is_speaker_list(v@));
    v
}

/// What the engine is asked to say: the voice, the text as it is to be spoken
/// and the file the audio goes to.
pub struct SpeechRequest {
    pub speaker_id: i32,
    pub text: String,
    pub audio_output_file: String,
}

/// The session state of the Kokoro engine: its voices, the chosen voice, the
/// output file and the file of the last generated audio.
pub struct Kokoro {
    pub speakers: Vec<Speaker>,
    pub current_speaker: u32,
    pub audio_output_file: String,
    pub current_audio_file_path: Option<String>,
}

impl Kokoro {
    /// A session with the predefined voices, the first voice chosen and no
    /// audio generated yet.
    pub fn new(audio_output_file: String) -> (r: Self)
        ensures
            is_speaker_list(r.speakers@),
            r.current_speaker == 0,
            r.audio_output_file@ == audio_output_file@,
            r.current_audio_file_path is None,
    {
        Kokoro {
            speakers: set_available_speakers(),
            current_speaker: 0,
            audio_output_file,
            current_audio_file_path: None,
        }
    }

    /// The available speakers.
    pub fn get_speakers(&self) -> (r: &Vec<Speaker>)
        ensures
            r@ == self.speakers@,
    {
        &self.speakers
    }

    /// Chooses the speaker at position `index`; nothing else changes.
    pub fn set_speaker(&mut self, index: u32)
        ensures
            final(self).current_speaker == index,
            final(self).speakers@ == old(self).speakers@,
            final(self).audio_output_file@ == old(self).audio_output_file@,
            final(self).current_audio_file_path == old(self).current_audio_file_path,
    {
        self.current_speaker = index;
    }

    /// The request for speaking `text`: the identifier of the chosen speaker,
    /// the text normalised for speech, and the output file. The chosen index
    /// must name a speaker.
    pub fn speech_request(&self, text: &str) -> (r: SpeechRequest)
        requires
            self.current_speaker < self.speakers@.len(),
        ensures
            r.speaker_id == self.speakers@[self.current_speaker as int].id as i32,
            r.text@ == normalized(default_lookup(), text@),
            r.audio_output_file@ == self.audio_output_file@,
    {
        let sid = self.speakers[self.current_speaker as usize].id as i32;
        let normalizer = TextNormalizer::new();
        let text = normalizer.normalize(text);
        SpeechRequest { speaker_id: sid, text, audio_output_file: owned(self.audio_output_file.as_str()) }
    }

    /// Records that the audio was written to the output file, which becomes
    /// the file of the last generated audio.
    pub fn audio_written(&mut self)
        ensures
            final(self).current_audio_file_path matches Some(p) && p@ == old(self).audio_output_file@,
            final(self).speakers@ == old(self).speakers@,
            final(self).current_speaker == old(self).current_speaker,
            final(self).audio_output_file@ == old(self).audio_output_file@,
    {
        self.current_audio_file_path = Some(owned(self.audio_output_file.as_str()));
    }
}

} // verus!
