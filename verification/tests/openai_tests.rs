use vamq::openai::{
    default_model_realtime, default_model_transcribe, default_sample_rate, InputAudioTranscription,
    RealtimeClientOptions, RealtimeFeatures, RealtimeProfile, ResponseOptions,
};

#[test]
fn profiles_turn_on_their_switches() {
    let s2s = RealtimeFeatures::from_profile(RealtimeProfile::S2S);
    assert!(s2s.enable_conversation && !s2s.enable_transcribe && !s2s.enable_input_transcription);
    let tr = RealtimeFeatures::from_profile(RealtimeProfile::TRANSCRIBE);
    assert!(!tr.enable_conversation && tr.enable_transcribe && tr.enable_input_transcription);
    let tts = RealtimeFeatures::from_profile(RealtimeProfile::TTS);
    assert!(tts.enable_conversation && !tts.enable_transcribe);
    for f in [s2s, tr, tts] {
        assert!(!f.use_server_vad && !f.enable_output_audio_transcript);
    }
    assert_eq!(tts.profile, RealtimeProfile::TTS);
}

#[test]
fn defaults() {
    let f = RealtimeFeatures::default();
    assert_eq!(f.profile, RealtimeProfile::S2S);
    assert!(!f.enable_conversation && !f.enable_transcribe);
    let o = RealtimeClientOptions::default();
    assert_eq!(
        o.instructions.as_deref(),
        Some("You are a helpful multiple languages speaking assistant, reply in the user’s language.")
    );
    assert!(o.input_audio_transcription.is_none());
    let t = InputAudioTranscription::default();
    assert_eq!(t.model, "whisper-1");
    assert!(t.prompt.is_none() && t.language.is_none());
    assert_eq!(default_model_realtime(), "gpt-4o-realtime-preview-2024-12-17");
    assert_eq!(default_model_transcribe(), "whisper-1");
    assert_eq!(default_sample_rate(), 24_000);
}

#[test]
fn option_builders() {
    let f = RealtimeFeatures::from_profile(RealtimeProfile::TRANSCRIBE);
    let o = RealtimeClientOptions::new(f)
        .with_instructions("Be brief.")
        .with_input_audio_transcription(InputAudioTranscription {
            model: "gpt-4o-transcribe".to_string(),
            prompt: None,
            language: Some("th".to_string()),
        });
    assert_eq!(o.features, f);
    assert_eq!(o.instructions.as_deref(), Some("Be brief."));
    assert_eq!(o.input_audio_transcription.unwrap().language.as_deref(), Some("th"));
    let plain = RealtimeClientOptions::new(f);
    assert!(plain.instructions.is_none() && plain.input_audio_transcription.is_none());
    let r = ResponseOptions { instructions: "x".to_string(), item_ids: None, is_out_of_band: true };
    assert!(r.is_out_of_band);
}
