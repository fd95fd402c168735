use venya::kokoro::Speaker;
use venya::speech_screen::{
    default_log_filter, kokoro_output_file, segment_heading, speaker_choice,
    speaker_option_label, time_label, title_heading, RecorderAction, RecordingButton,
};
use venya::transcript::TranscriptSegment;

#[test]
fn recording_button_toggles() {
    let mut b = RecordingButton::new();
    assert!(!b.is_recording);
    assert_eq!(b.label, "Start Recording");
    assert!(b.can_convert());
    assert!(matches!(b.toggle(), RecorderAction::Start));
    assert!(b.is_recording);
    assert_eq!(b.label, "Stop Recording");
    assert_eq!(b.class(), "!bg-red-500 hover:bg-red-700 text-white cursor-pointer font-normal py-2 px-4 rounded");
    assert!(!b.can_convert());
    assert!(matches!(b.toggle(), RecorderAction::Stop));
    assert_eq!(b.color, "!bg-blue-500 hover:bg-blue-700");
}

#[test]
fn labels() {
    assert_eq!(time_label("00:00:02.500"), "00:00:02");
    assert_eq!(time_label("00:01:00"), "00:01:00");
    let seg = TranscriptSegment {
        start_time: "00:00:00.000".to_string(),
        end_time: "00:00:02.500".to_string(),
        content: "Hi".to_string(),
    };
    assert_eq!(segment_heading(&seg), "00:00:00 - 00:00:02:");
    let sp = Speaker { id: 3, name: "af_bella".to_string(), gender: "Female".to_string(), native_language: "en-us".to_string() };
    assert_eq!(speaker_option_label(&sp), "af_bella (Female)");
    assert_eq!(title_heading("HotDog"), "HotDog! \u{1F32D}");
    assert_eq!(kokoro_output_file("/app"), "/app/assets/audios/output/audio_output_kokoro.wav");
    assert_eq!(default_log_filter(), "xd_tts=info,app=info,trainer=info");
}

#[test]
fn voice_choice() {
    assert_eq!(speaker_choice("7"), 7);
    assert_eq!(speaker_choice("+12"), 12);
    assert_eq!(speaker_choice("x"), 0);
    assert_eq!(speaker_choice(""), 0);
    assert_eq!(speaker_choice("-1"), 0);
}
