//! Audio ingestion, framing and realtime-speech helpers whose logic is
//! verified with Verus.

pub mod blocks;
pub mod framing;
pub mod openai;
pub mod pcm;
pub mod queues;
pub mod realtime;
pub mod tts_guard;
pub mod ue_framer;
pub mod vad;

pub use framing::{pack_frame, unpack_frame, AudioFrameHeader};
pub use openai::{RealtimeFeatures, RealtimeProfile};
pub use pcm::min_bytes_24k_pcm16;
pub use realtime::RtEvent;
pub use tts_guard::TtsChunkGuard;
pub use ue_framer::UeFramer;
pub use vad::{VadCommit, VadHeader};
