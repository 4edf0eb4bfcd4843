# vamq

Consumes voice-activity-gated audio from ZeroMQ and bridges it to speech
services (OpenAI Realtime), with framing helpers for audio streams.

- `src/` is the library, verified with Verus: binary audio framing and the
  WAV header (`framing`), PCM16 decoding/encoding and the block staging of
  the resamplers (`pcm`, `blocks`), 160 ms Unreal Engine frames
  (`ue_framer`), the voice-activity segment accumulator (`vad`), the TTS
  chunk guard (`tts_guard`), realtime session settings (`openai`), what
  each realtime client message holds and how a server text frame is read
  (`realtime`), and the transport loops' decisions (`queues`).
- `app/` holds what runs around it: sockets, the websocket client, the
  rendering of client messages as JSON text, file output and the
  floating-point FFT resampling.
- `tests/` exercises the library on concrete values.
