//! Settings of an OpenAI Realtime session: the profiles, the feature
//! switches each profile turns on, client options and configuration
//! defaults.

use vstd::prelude::*;

verus! {

/// What a realtime session is used for.
#[allow(non_camel_case_types)]
#[derive(Debug, Clone, Copy, PartialEq, Eq, Structural)]
pub enum RealtimeProfile {
    /// Speech to speech.
    S2S,
    /// Transcription only.
    TRANSCRIBE,
    /// Text to speech.
    TTS,
}

/// The feature switches of a realtime session.
#[derive(Debug, Clone, Copy, PartialEq, Eq, Structural)]
pub struct RealtimeFeatures {
    pub profile: RealtimeProfile,
    pub enable_conversation: bool,
    pub enable_transcribe: bool,
    /// transcribe the user's audio
    pub enable_input_transcription: bool,
    /// transcribe the output audio (for debugging)
    pub enable_output_audio_transcript: bool,
    /// use the server's voice activity detection (false when an external
    /// VAD gates the audio)
    pub use_server_vad: bool,
}

/// The switches of a profile: speech to speech and text to speech hold a
/// conversation; transcription transcribes and transcribes the user's
/// input; nothing else is on.
pub open spec fn features_of(profile: RealtimeProfile) -> RealtimeFeatures {
    RealtimeFeatures {
        profile,
        enable_conversation: profile != RealtimeProfile::TRANSCRIBE,
        enable_transcribe: profile == RealtimeProfile::TRANSCRIBE,
        enable_input_transcription: profile == RealtimeProfile::TRANSCRIBE,
        enable_output_audio_transcript: false,
        use_server_vad: false,
    }
}

impl Default for RealtimeFeatures {
    /// Speech to speech with every switch off.
    fn default() -> (f: Self)
        ensures
            f == (RealtimeFeatures {
                profile: RealtimeProfile::S2S,
                enable_conversation: false,
                enable_transcribe: false,
                enable_input_transcription: false,
                enable_output_audio_transcript: false,
                use_server_vad: false,
            }),
    {
        RealtimeFeatures {
            profile: RealtimeProfile::S2S,
            enable_conversation: false,
            enable_transcribe: false,
            enable_input_transcription: false,
            enable_output_audio_transcript: false,
            use_server_vad: false,
        }
    }
}

impl RealtimeFeatures {
    /// The switches that `profile` turns on.
    pub fn from_profile(profile: RealtimeProfile) -> (f: Self)
        ensures
            f == features_of(profile),
    {
        match profile {
            RealtimeProfile::S2S => Self {
                profile,
                enable_conversation: true,
                enable_transcribe: false,
                enable_input_transcription: false,
                enable_output_audio_transcript: false,
                use_server_vad: false,
            },
            RealtimeProfile::TRANSCRIBE => Self {
                profile,
                enable_conversation: false,
                enable_transcribe: true,
                enable_input_transcription: true,
                enable_output_audio_transcript: false,
                use_server_vad: false,
            },
            RealtimeProfile::TTS => Self {
                profile,
                enable_conversation: true,
                enable_transcribe: false,
                enable_input_transcription: false,
                enable_output_audio_transcript: false,
                use_server_vad: false,
            },
        }
    }
}

/// How the user's input audio is transcribed.
#[derive(Debug, Clone, PartialEq)]
pub struct InputAudioTranscription {
    pub model: String,
    pub prompt: Option<String>,
    pub language: Option<String>,
}

impl Default for InputAudioTranscription {
    /// The "whisper-1" model, with no prompt and no language.
    fn default() -> (t: Self)
        ensures
            t.model@ == "whisper-1"@,
            t.prompt is None,
            t.language is None,
    {
        InputAudioTranscription { model: String::from_str("whisper-1"), prompt: None, language: None }
    }
}

/// Options of a realtime client.
#[derive(Debug, Clone)]
pub struct RealtimeClientOptions {
    pub features: RealtimeFeatures,
    pub instructions: Option<String>,
    pub input_audio_transcription: Option<InputAudioTranscription>,
}

impl RealtimeClientOptions {
    /// Options with the given switches, no instructions and no input
    /// transcription settings.
    pub fn new(features: RealtimeFeatures) -> (o: Self)
        ensures
            o.features == features,
            o.instructions is None,
            o.input_audio_transcription is None,
    {
        Self { features, instructions: None, input_audio_transcription: None }
    }

    /// The same options with the given instructions.
    pub fn with_instructions(self, instructions: &str) -> (o: Self)
        ensures
            o.features == self.features,
            o.instructions matches Some(i) && i@ == instructions@,
            o.input_audio_transcription == self.input_audio_transcription,
    {
        let mut s = self;
        s.instructions = Some(String::from_str(instructions));
        s
    }

    /// The same options with the given input transcription settings.
    pub fn with_input_audio_transcription(
        self,
        input_audio_transcription: InputAudioTranscription,
    ) -> (o: Self)
        ensures
            o.features == self.features,
            o.instructions == self.instructions,
            o.input_audio_transcription == Some(input_audio_transcription),
    {
        let mut s = self;
        s.input_audio_transcription = Some(input_audio_transcription);
        s
    }
}

/// The instructions of a conversation when none are given.
pub open spec fn default_assistant_instructions() -> Seq<char> {
    "You are a helpful multiple languages speaking assistant, reply in the user’s language."@
}

impl Default for RealtimeClientOptions {
    /// Default switches, the default assistant instructions and no input
    /// transcription settings.
    fn default() -> (o: Self)
        ensures
            o.features == (RealtimeFeatures {
                profile: RealtimeProfile::S2S,
                enable_conversation: false,
                enable_transcribe: false,
                enable_input_transcription: false,
                enable_output_audio_transcript: false,
                use_server_vad: false,
            }),
            o.instructions matches Some(i) && i@ == default_assistant_instructions(),
            o.input_audio_transcription is None,
    {
        Self {
            features: RealtimeFeatures::default(),
            instructions: Some(
                String::from_str(
                    "You are a helpful multiple languages speaking assistant, reply in the user’s language.",
                ),
            ),
            input_audio_transcription: None,
        }
    }
}

/// Options of one response.
#[derive(Debug, Clone)]
pub struct ResponseOptions {
    pub instructions: String,
    pub item_ids: Option<Vec<String>>,
    /// when true, the response is created outside the conversation
    pub is_out_of_band: bool,
}

/// The default realtime model.
pub fn default_model_realtime() -> (m: String)
    ensures
        m@ == "gpt-4o-realtime-preview-2024-12-17"@,
{
    String::from_str("gpt-4o-realtime-preview-2024-12-17")
}

/// The default transcription model.
pub fn default_model_transcribe() -> (m: String)
    ensures
        m@ == "whisper-1"@,
{
    String::from_str("whisper-1")
}

/// The default output sample rate, 24 kHz.
pub fn default_sample_rate() -> (r: u32)
    ensures
        r == 24_000,
{
    24_000
}


/// Every profile either holds a conversation or transcribes, never both,
/// and leaves the server's voice activity detection and the output
/// transcript off.
pub proof fn lemma_profile_modes(profile: RealtimeProfile)
    ensures
        features_of(profile).enable_conversation != features_of(profile).enable_transcribe,
        !features_of(profile).use_server_vad,
        !features_of(profile).enable_output_audio_transcript,
        features_of(profile).profile == profile,
{
}

} // verus!
