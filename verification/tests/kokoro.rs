use venya::kokoro::{set_available_speakers, Kokoro};

#[test]
fn speaker_table_has_ordered_ids() {
    let speakers = set_available_speakers();
    assert_eq!(speakers.len(), 54);
    for (i, s) in speakers.iter().enumerate() {
        assert_eq!(s.id as usize, i);
    }
    assert_eq!(speakers[0].name, "Heart");
    assert_eq!(speakers[0].gender, "Female");
    assert_eq!(speakers[0].native_language, "American English");
    assert_eq!(speakers[53].name, "Santa");
    assert_eq!(speakers[53].native_language, "Brazilian Portuguese");
    assert_eq!(speakers[44].name, "Siwis");
    assert_eq!(speakers[44].native_language, "French");
}

#[test]
fn speech_request_uses_chosen_speaker_and_normalized_text() {
    let mut k = Kokoro::new("/tmp/out.wav".to_string());
    assert_eq!(k.current_speaker, 0);
    assert!(k.current_audio_file_path.is_none());
    k.set_speaker(11);
    let r = k.speech_request("I'm 3");
    assert_eq!(r.speaker_id, 11);
    assert_eq!(r.text, "I am three");
    assert_eq!(r.audio_output_file, "/tmp/out.wav");
    k.audio_written();
    assert_eq!(k.current_audio_file_path.as_deref(), Some("/tmp/out.wav"));
    assert_eq!(k.get_speakers().len(), 54);
}
