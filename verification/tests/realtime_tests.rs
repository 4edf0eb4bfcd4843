use serde_json::Value;
use vamq::openai::{RealtimeClientOptions, RealtimeFeatures, RealtimeProfile};
use vamq::realtime::{
    classify_text_event, handshake_step, input_audio_append, read_frame, read_server_text, realtime_url,
    response_create, session_setup, tts_events, ClientEvent, EventFields, HandshakeStep, Modality,
    RealtimeError, RtEvent, SessionSetup, TurnDetection, WsFrame,
};

fn fields(t: &str) -> EventFields {
    EventFields { event_type: Some(t.to_string()), ..Default::default() }
}

fn v() -> Value {
    serde_json::from_str("{\"k\": 1}").unwrap()
}

#[test]
fn audio_delta_is_decoded_from_delta_then_audio() {
    let mut f = fields("response.audio.delta");
    f.delta = Some("AAE=".to_string());
    f.audio = Some("AgM=".to_string());
    assert_eq!(classify_text_event(&f, v()), Ok(RtEvent::AudioDelta(vec![0, 1])));
    let mut f = fields("response.output_audio.delta");
    f.audio = Some("AgM=".to_string());
    assert_eq!(classify_text_event(&f, v()), Ok(RtEvent::AudioDelta(vec![2, 3])));
    let f = fields("response.audio.delta");
    assert_eq!(classify_text_event(&f, v()), Ok(RtEvent::Other(v())));
}

#[test]
fn invalid_base64_is_an_error() {
    let mut f = fields("response.audio.delta");
    f.delta = Some("**not base64**".to_string());
    assert!(matches!(classify_text_event(&f, v()), Err(RealtimeError::Base64(_))));
}

#[test]
fn text_and_transcript_deltas() {
    let mut f = fields("response.text.delta");
    f.delta = Some("hi".to_string());
    assert_eq!(classify_text_event(&f, v()), Ok(RtEvent::TextDelta("hi".to_string())));
    let mut f = fields("response.output_text.delta");
    assert_eq!(classify_text_event(&f, v()), Ok(RtEvent::Other(v())));
    f.delta = Some("yo".to_string());
    assert_eq!(classify_text_event(&f, v()), Ok(RtEvent::TextDelta("yo".to_string())));
    let mut f = fields("response.audio_transcript.delta");
    f.delta = Some("What".to_string());
    assert_eq!(
        classify_text_event(&f, v()),
        Ok(RtEvent::AssistantTranscriptDelta("What".to_string()))
    );
    let f = fields("conversation.item.input_audio_transcription.delta");
    assert_eq!(classify_text_event(&f, v()), Ok(RtEvent::UserTranscriptDelta(String::new())));
    let mut f = fields("conversation.item.input_audio_transcription.completed");
    f.text = Some("b".to_string());
    assert_eq!(classify_text_event(&f, v()), Ok(RtEvent::UserTranscriptFinal("b".to_string())));
    f.transcript = Some("a".to_string());
    assert_eq!(classify_text_event(&f, v()), Ok(RtEvent::UserTranscriptFinal("a".to_string())));
}

#[test]
fn lifecycle_events() {
    assert_eq!(classify_text_event(&fields("session.created"), v()), Ok(RtEvent::SessionCreated(v())));
    for t in ["response.audio.done", "response.audio_transcript.done", "response.content_part.done"] {
        assert_eq!(classify_text_event(&fields(t), v()), Ok(RtEvent::PartDone(v())));
    }
    assert_eq!(classify_text_event(&fields("response.done"), v()), Ok(RtEvent::ResponseDone(v())));
    assert_eq!(classify_text_event(&fields("response.completed"), v()), Ok(RtEvent::Completed));
    for t in ["response.created", "input_audio_buffer.committed", "something.else"] {
        assert_eq!(classify_text_event(&fields(t), v()), Ok(RtEvent::Other(v())));
    }
    assert_eq!(classify_text_event(&EventFields::default(), v()), Ok(RtEvent::Other(v())));
}

#[test]
fn error_frames_carry_their_message() {
    let mut f = fields("error");
    assert_eq!(classify_text_event(&f, v()), Ok(RtEvent::Error("Unknown error".to_string())));
    f.error_message = Some("bad".to_string());
    assert_eq!(classify_text_event(&f, v()), Ok(RtEvent::Error("bad".to_string())));
    let f = fields("conversation.item.input_audio_transcription.failed");
    assert_eq!(classify_text_event(&f, v()), Ok(RtEvent::Error("Unknown error".to_string())));
}

#[test]
fn audio_append_requires_whole_samples() {
    assert_eq!(input_audio_append(&[1, 2, 3]), Err(RealtimeError::UnalignedPcm16 { len: 3 }));
    assert_eq!(
        input_audio_append(&[0, 1]),
        Ok(ClientEvent::InputAudioAppend { audio: "AAE=".to_string() })
    );
    assert_eq!(
        input_audio_append(&[]),
        Ok(ClientEvent::InputAudioAppend { audio: String::new() })
    );
}

#[test]
fn response_requests() {
    assert_eq!(
        response_create(true, None),
        ClientEvent::ResponseCreate {
            modalities: vec![Modality::Audio, Modality::Text],
            instructions: "Speak the reply clearly, naturally.".to_string()
        }
    );
    assert_eq!(
        response_create(false, Some("Whisper.")),
        ClientEvent::ResponseCreate { modalities: vec![Modality::Audio], instructions: "Whisper.".to_string() }
    );
}

#[test]
fn tts_sends_one_item_then_the_request() {
    assert!(tts_events("   \n", None).is_empty());
    let ev = tts_events("  Hello there ", Some("calm"));
    assert_eq!(
        ev,
        vec![
            ClientEvent::UserText { text: "<say>Hello there</say>".to_string() },
            ClientEvent::ResponseCreate {
                modalities: vec![Modality::Audio, Modality::Text],
                instructions: "calm".to_string()
            },
        ]
    );
    let ev = tts_events("x", None);
    assert_eq!(ev.len(), 2);
    match &ev[1] {
        ClientEvent::ResponseCreate { instructions, .. } => {
            assert!(instructions.starts_with("You are a text-to-speech renderer."))
        }
        _ => panic!(),
    }
}

#[test]
fn urls() {
    let s2s = RealtimeFeatures::from_profile(RealtimeProfile::S2S);
    assert_eq!(realtime_url(&s2s, "gpt-x"), "wss://api.openai.com/v1/realtime?model=gpt-x");
    let tr = RealtimeFeatures::from_profile(RealtimeProfile::TRANSCRIBE);
    assert_eq!(realtime_url(&tr, "gpt-x"), "wss://api.openai.com/v1/realtime?intent=transcription");
}

#[test]
fn session_setups() {
    let mut f = RealtimeFeatures::from_profile(RealtimeProfile::S2S);
    f.use_server_vad = true;
    f.enable_input_transcription = true;
    match session_setup(&RealtimeClientOptions::new(f).with_instructions("Be kind."), "whisper-1") {
        SessionSetup::Conversation(c) => {
            assert_eq!(c.voice, "alloy");
            assert_eq!(c.instructions, "Be kind.");
            assert_eq!(c.input_audio_format, "pcm16");
            assert_eq!(c.output_audio_format, "pcm16");
            assert_eq!(c.modalities, vec![Modality::Audio, Modality::Text]);
            assert_eq!(
                c.turn_detection,
                TurnDetection::ServerVad { prefix_padding_ms: 300, silence_duration_ms: 500 }
            );
            assert_eq!(c.input_transcription_model.as_deref(), Some("whisper-1"));
            assert!(!c.include_output_audio_transcript);
        }
        _ => panic!(),
    }
    let tr = RealtimeFeatures::from_profile(RealtimeProfile::TRANSCRIBE);
    match session_setup(&RealtimeClientOptions::new(tr), "m") {
        SessionSetup::Transcription(t) => {
            assert_eq!(t.transcription_model, "m");
            assert_eq!(t.turn_detection, TurnDetection::Disabled);
            assert_eq!(t.noise_reduction, "near_field");
        }
        _ => panic!(),
    }
    assert_eq!(session_setup(&RealtimeClientOptions::default(), "m"), SessionSetup::Empty);
    let tts = RealtimeFeatures::from_profile(RealtimeProfile::TTS);
    match session_setup(&RealtimeClientOptions::new(tts), "m") {
        SessionSetup::Conversation(c) => {
            assert_eq!(
                c.instructions,
                "You are a helpful multiple languages speaking assistant, reply in the user’s language."
            );
            assert_eq!(c.turn_detection, TurnDetection::Disabled);
            assert!(c.input_transcription_model.is_none());
        }
        _ => panic!(),
    }
}

#[test]
fn server_text_frames_are_parsed_and_read() {
    assert_eq!(
        read_server_text(r#"{"type":"response.audio.delta","delta":"AAE="}"#),
        Ok(RtEvent::AudioDelta(vec![0, 1]))
    );
    let created = r#"{"type":"session.created","session":{}}"#;
    assert_eq!(
        read_server_text(created),
        Ok(RtEvent::SessionCreated(serde_json::from_str(created).unwrap()))
    );
    assert_eq!(
        read_server_text(r#"{"type":"error","error":{"message":"nope"}}"#),
        Ok(RtEvent::Error("nope".to_string()))
    );
    assert_eq!(
        read_server_text(r#"{"type":"response.text.delta","delta":7}"#),
        Ok(RtEvent::Other(serde_json::from_str(r#"{"type":"response.text.delta","delta":7}"#).unwrap()))
    );
    let raw: Value = serde_json::from_str(r#"{"raw":"not json"}"#).unwrap();
    assert_eq!(read_server_text("not json"), Ok(RtEvent::Other(raw)));
    let raw: Value = serde_json::from_str(r#"{"raw":"{\"type\":\"error\""}"#).unwrap();
    assert_eq!(read_server_text(r#"{"type":"error""#), Ok(RtEvent::Other(raw)));
    assert!(matches!(
        read_server_text(r#"{"type":"response.output_audio.delta","audio":"%%"}"#),
        Err(RealtimeError::Base64(_))
    ));
}

#[test]
fn handshake_waits_for_the_session() {
    assert_eq!(handshake_step(&RtEvent::SessionCreated(v())), HandshakeStep::Ready);
    assert_eq!(handshake_step(&RtEvent::Error("x".to_string())), HandshakeStep::Failed);
    assert_eq!(handshake_step(&RtEvent::Closed), HandshakeStep::Failed);
    assert_eq!(handshake_step(&RtEvent::Other(v())), HandshakeStep::Wait);
    assert_eq!(handshake_step(&RtEvent::Idle), HandshakeStep::Wait);
}

#[test]
fn base64_text_of_audio() {
    let enc = |b: &[u8]| match input_audio_append(b) {
        Ok(ClientEvent::InputAudioAppend { audio }) => audio,
        _ => panic!(),
    };
    assert_eq!(enc(b"Ma"), "TWE=");
    assert_eq!(enc(b"Many"), "TWFueQ==");
    assert_eq!(enc(&[0xfb, 0xff]), "+/8=");
    assert_eq!(enc(&[0, 0, 0, 0, 0, 0]), "AAAAAAAA");
}

#[test]
fn events_clone() {
    let e = RtEvent::AudioDelta(vec![1]);
    assert_eq!(e.clone(), e);
    let r = RealtimeError::UnalignedPcm16 { len: 3 };
    assert_eq!(r.clone(), r);
}

#[test]
fn websocket_reads() {
    let obj = |k: &str, v: &str| -> Value { serde_json::from_str(&format!("{{\"{}\":\"{}\"}}", k, v)).unwrap() };
    assert_eq!(read_frame(WsFrame::Binary(vec![1, 2])), (None, Ok(RtEvent::AudioDelta(vec![1, 2]))));
    assert_eq!(read_frame(WsFrame::Ping(vec![7])), (Some(vec![7]), Ok(RtEvent::Other(obj("event", "ping")))));
    assert_eq!(read_frame(WsFrame::Pong), (None, Ok(RtEvent::Other(obj("event", "pong")))));
    assert_eq!(read_frame(WsFrame::Unhandled), (None, Ok(RtEvent::Other(obj("event", "unhandled")))));
    assert_eq!(read_frame(WsFrame::Close), (None, Ok(RtEvent::Closed)));
    assert_eq!(read_frame(WsFrame::End), (None, Ok(RtEvent::Closed)));
    assert_eq!(read_frame(WsFrame::TimedOut), (None, Ok(RtEvent::Idle)));
    assert_eq!(
        read_frame(WsFrame::Text("oops".to_string())),
        (None, Ok(RtEvent::Other(obj("raw", "oops"))))
    );
    assert_eq!(
        read_frame(WsFrame::Text(r#"{"type":"response.completed"}"#.to_string())),
        (None, Ok(RtEvent::Completed))
    );
}
