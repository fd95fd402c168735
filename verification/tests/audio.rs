use venya::audio::{
    recorded_wav_path, recording_format, resampled_format, resampled_wav_path, whisper_arguments, whisper_binary,
    whisper_model, AudioPlayerError,
};

#[test]
fn player_error_messages() {
    assert_eq!(AudioPlayerError::FileNotFound("a.wav".to_string()).message(), "Audio file not found: a.wav");
    assert_eq!(AudioPlayerError::NoDefaultDevice.message(), "No default audio device available");
    assert_eq!(AudioPlayerError::SinkUnavailable.message(), "Audio sink is unavailable");
    assert_eq!(AudioPlayerError::DeviceListError("x".to_string()).message(), "Error listing audio devices: x");
}

#[test]
fn recorder_files_and_formats() {
    assert_eq!(recorded_wav_path("."), "./assets/audios/recorded.wav");
    assert_eq!(resampled_wav_path("."), "./assets/audios/resampled.wav");
    let f = recording_format(2, 44100, 4, true);
    assert_eq!((f.channels, f.sample_rate, f.bits_per_sample, f.is_float), (2, 44100, 32, true));
    let r = resampled_format();
    assert_eq!((r.channels, r.sample_rate, r.bits_per_sample, r.is_float), (1, 16000, 16, false));
    assert_eq!(whisper_binary("/b"), "/b/resources/whisper/build/bin/whisper-cli");
    assert_eq!(whisper_model("/b"), "/b/resources/models/ggml-small.en.bin");
    assert_eq!(whisper_arguments("m", "a"), vec!["-m", "m", "-f", "a"]);
}
