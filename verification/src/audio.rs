//! Audio recording and playback: the errors of the player, the files of the
//! recorder, the WAV formats, and the whisper transcription command.

use vstd::prelude::*;
use vstd::string::*;
use crate::strings::{owned, concat2};

verus! {

/// Errors of the audio player.
#[derive(Debug)]
pub enum AudioPlayerError {
    /// Error during audio stream initialization.
    StreamInitError(String),
    /// Error during audio sink initialization.
    SinkInitError(String),
    /// Audio file not found.
    FileNotFound(String),
    /// Could not open audio file.
    FileOpenError(String),
    /// Audio decoding error.
    DecodingError(String),
    /// Audio sink is unavailable.
    SinkUnavailable,
    /// Error acquiring lock.
    LockError(String),
    /// Device error.
    DeviceError(String),
    /// Audio device not found.
    DeviceNotFound(String),
    /// Error listing audio devices.
    DeviceListError(String),
    /// No default audio device available.
    NoDefaultDevice,
}

/// The text of a player error.
pub open spec fn player_error_text(e: AudioPlayerError) -> Seq<char> {
    match e {
        AudioPlayerError::StreamInitError(m) => "Audio stream initialization error: "@ + m@,
        AudioPlayerError::SinkInitError(m) => "Audio sink initialization error: "@ + m@,
        AudioPlayerError::FileNotFound(p) => "Audio file not found: "@ + p@,
        AudioPlayerError::FileOpenError(m) => "Could not open audio file: "@ + m@,
        AudioPlayerError::DecodingError(m) => "Audio decoding error: "@ + m@,
        AudioPlayerError::SinkUnavailable => "Audio sink is unavailable"@,
        AudioPlayerError::LockError(m) => "Lock error: "@ + m@,
        AudioPlayerError::DeviceError(m) => "Device error: "@ + m@,
        AudioPlayerError::DeviceNotFound(n) => "Audio device not found: "@ + n@,
        AudioPlayerError::DeviceListError(m) => "Error listing audio devices: "@ + m@,
        AudioPlayerError::NoDefaultDevice => "No default audio device available"@,
    }
}

impl AudioPlayerError {
    /// The text of the error, as it is shown to the user.
    pub fn message(&self) -> (r: String)
        ensures
            r@ == player_error_text(*self),
    {
        match self {
            AudioPlayerError::StreamInitError(m) => concat2(
                "Audio stream initialization error: ",
                m.as_str(),
            ),
            AudioPlayerError::SinkInitError(m) => concat2(
                "Audio sink initialization error: ",
                m.as_str(),
            ),
            AudioPlayerError::FileNotFound(p) => concat2("Audio file not found: ", p.as_str()),
            AudioPlayerError::FileOpenError(m) => concat2("Could not open audio file: ", m.as_str()),
            AudioPlayerError::DecodingError(m) => concat2("Audio decoding error: ", m.as_str()),
            AudioPlayerError::SinkUnavailable => owned("Audio sink is unavailable"),
            AudioPlayerError::LockError(m) => concat2("Lock error: ", m.as_str()),
            AudioPlayerError::DeviceError(m) => concat2("Device error: ", m.as_str()),
            AudioPlayerError::DeviceNotFound(n) => concat2("Audio device not found: ", n.as_str()),
            AudioPlayerError::DeviceListError(m) => concat2(
                "Error listing audio devices: ",
                m.as_str(),
            ),
            AudioPlayerError::NoDefaultDevice => owned("No default audio device available"),
        }
    }
}

/// The file a recording is written to, below the directory `dir`.
pub fn recorded_wav_path(dir: &str) -> (r: String)
    ensures
        r@ == dir@ + "/assets/audios/recorded.wav"@,
{
    concat2(dir, "/assets/audios/recorded.wav")
}

/// The file the mono 16 kHz copy of a recording is written to.
pub fn resampled_wav_path(dir: &str) -> (r: String)
    ensures
        r@ == dir@ + "/assets/audios/resampled.wav"@,
{
    concat2(dir, "/assets/audios/resampled.wav")
}

/// The layout of a WAV file: channels, sample rate, bits per sample and
/// whether the samples are floating point.
pub struct WavFormat {
    pub channels: u16,
    pub sample_rate: u32,
    pub bits_per_sample: u16,
    pub is_float: bool,
}

/// The WAV layout of a recording from an input device with the given
/// channels, sample rate, sample size in bytes and sample kind.
pub fn recording_format(channels: u16, sample_rate: u32, sample_size: usize, is_float: bool) -> (r: WavFormat)
    requires
        sample_size * 8 <= usize::MAX,
    ensures
        r.channels == channels,
        r.sample_rate == sample_rate,
        r.bits_per_sample == (sample_size * 8) as u16,
        r.is_float == is_float,
{
    WavFormat {
        channels,
        sample_rate,
        bits_per_sample: (sample_size * 8) as u16,
        is_float,
    }
}

/// The sample rate that speech recognition expects.
pub const TARGET_SAMPLE_RATE: u32 = 16000;

/// The layout of the copy that is handed to speech recognition: mono,
/// 16 kHz, 16-bit integer samples.
pub fn resampled_format() -> (r: WavFormat)
    ensures
        r.channels == 1,
        r.sample_rate == TARGET_SAMPLE_RATE,
        r.bits_per_sample == 16,
        !r.is_float,
{
    WavFormat { channels: 1, sample_rate: TARGET_SAMPLE_RATE, bits_per_sample: 16, is_float: false }
}

/// The whisper command line program below the directory `base`.
pub fn whisper_binary(base: &str) -> (r: String)
    ensures
        r@ == base@ + "/resources/whisper/build/bin/whisper-cli"@,
{
    concat2(base, "/resources/whisper/build/bin/whisper-cli")
}

/// The whisper model below the directory `base`.
pub fn whisper_model(base: &str) -> (r: String)
    ensures
        r@ == base@ + "/resources/models/ggml-small.en.bin"@,
{
    concat2(base, "/resources/models/ggml-small.en.bin")
}

/// The arguments that make whisper transcribe `audio_path` with `model_path`.
pub fn whisper_arguments(model_path: &str, audio_path: &str) -> (r: Vec<String>)
    ensures
        r.deep_view() == seq!["-m"@, model_path@, "-f"@, audio_path@],
{
    let mut args: Vec<String> = Vec::new();
    args.push(owned("-m"));
    args.push(owned(model_path));
    args.push(owned("-f"));
    args.push(owned(audio_path));
    assert(args.deep_view() =~= seq!["-m"@, model_path@, "-f"@, audio_path@]);
    args
}

} // verus!
