//! The OpenAI Realtime protocol as this library speaks it: the events a
//! server message is read as, and the client messages that connecting,
//! streaming audio, requesting responses and text-to-speech send.

use crate::openai::{RealtimeClientOptions, RealtimeFeatures};
use crate::tts_guard::{chars_of, string_of, trim, trim_bounds};
use base64::engine::general_purpose;
use base64::{DecodeError, Engine};
use serde_json::Value;
use vstd::prelude::*;

verus! {

/// `serde_json::Value`, a parsed JSON document, carried through unread.
#[verifier::external_type_specification]
#[verifier::external_body]
pub struct ExValue(Value);

/// `base64::DecodeError`, why a base64 text could not be decoded.
#[verifier::external_type_specification]
#[verifier::external_body]
pub struct ExDecodeError(DecodeError);

/// `serde_json::Value`'s derived `clone`: an equal document.
pub assume_specification[ <Value as Clone>::clone ](v: &Value) -> (r: Value)
    ensures
        r == *v,
;

/// `base64::DecodeError`'s derived `clone`: an equal error.
pub assume_specification[ <DecodeError as Clone>::clone ](e: &DecodeError) -> (r: DecodeError)
    ensures
        r == *e,
;

/// The character of a 6-bit value in the standard base64 alphabet
/// `A-Z a-z 0-9 + /`.
pub open spec fn b64_digit(x: int) -> char {
    if x < 26 {
        (65 + x) as char
    } else if x < 52 {
        (97 + x - 26) as char
    } else if x < 62 {
        (48 + x - 52) as char
    } else if x == 62 {
        '+'
    } else {
        '/'
    }
}

/// The first `k` of the four base64 digits of the 24-bit group `n`, padded
/// with `=` to four characters.
pub open spec fn b64_group(n: int, k: nat) -> Seq<char> {
    seq![
        b64_digit(n / 262144),
        b64_digit((n / 4096) % 64),
        b64_digit((n / 64) % 64),
        b64_digit(n % 64),
    ].take(k as int) + Seq::new((4 - k) as nat, |i: int| '=')
}

/// Padded standard base64 (RFC 4648): each group of three bytes becomes
/// four digits; a last group of one or two bytes becomes two or three
/// digits followed by `=` padding.
pub open spec fn base64_standard_encoding(b: Seq<u8>) -> Seq<char>
    decreases b.len(),
{
    if b.len() == 0 {
        Seq::empty()
    } else if b.len() == 1 {
        b64_group(b[0] * 65536, 2)
    } else if b.len() == 2 {
        b64_group(b[0] * 65536 + b[1] * 256, 3)
    } else {
        b64_group(b[0] * 65536 + b[1] * 256 + b[2], 4) + base64_standard_encoding(b.skip(3))
    }
}

/// Length of the padded base64 text of `n` bytes: four characters per
/// started group of three bytes.
pub open spec fn base64_encoded_len(n: nat) -> nat {
    (n / 3) * 4 + if n % 3 > 0 {
        4nat
    } else {
        0nat
    }
}

/// `general_purpose::STANDARD.decode`. Its configuration requires
/// canonical padding and rejects trailing bits, so it accepts exactly the
/// texts that `STANDARD.encode` produces: the bytes come back when `text`
/// is the encoding of some bytes (those bytes), and an error when it is
/// the encoding of none.
#[verifier::external_body]
fn base64_decode(text: &str) -> (r: Result<Vec<u8>, DecodeError>)
    ensures
        match r {
            Ok(b) => base64_standard_encoding(b@) == text@,
            Err(_) => forall|b: Seq<u8>| #[trigger] base64_standard_encoding(b) != text@,
        },
{
    general_purpose::STANDARD.decode(text)
}

/// `general_purpose::STANDARD.encode`: the padded standard base64 text of
/// `bytes`. It panics when the text's length (`base64_encoded_len`)
/// overflows a `usize`, which `requires` rules out.
#[verifier::external_body]
fn base64_encode(bytes: &[u8]) -> (s: String)
    requires
        base64_encoded_len(bytes@.len()) <= usize::MAX,
    ensures
        s@ == base64_standard_encoding(bytes@),
{
    general_purpose::STANDARD.encode(bytes)
}

/// What a read of the realtime connection gives.
#[derive(Debug, Clone, PartialEq)]
#[non_exhaustive]
pub enum RtEvent {
    /// PCM16 bytes of an audio delta
    AudioDelta(Vec<u8>),
    /// a delta of response text
    TextDelta(String),
    /// transcript of the user (when input transcription is on)
    UserTranscriptDelta(String),
    UserTranscriptFinal(String),
    /// transcript of the assistant (when the output audio transcript is on)
    AssistantTranscriptDelta(String),
    /// a part of audio, text, transcription or other content is done
    PartDone(Value),
    /// the response is done (a good place to rotate buffers and timestamps)
    ResponseDone(Value),
    /// response.completed
    Completed,
    SessionCreated(Value),
    /// the server sent an error frame
    Error(String),
    /// anything else that may be worth logging
    Other(Value),
    /// the underlying socket closed
    Closed,
    Idle,
}

/// Why a realtime step failed.
#[derive(Debug, Clone, PartialEq)]
pub enum RealtimeError {
    /// An audio delta was not valid base64.
    Base64(DecodeError),
    /// A PCM16 chunk had an odd number of bytes.
    UnalignedPcm16 { len: usize },
}

/// The string-valued fields of a server message that its reading depends
/// on; a field is `None` when it is absent or not a JSON string.
#[derive(Debug, Clone, PartialEq, Default)]
pub struct EventFields {
    /// "type"
    pub event_type: Option<String>,
    /// "delta"
    pub delta: Option<String>,
    /// "audio"
    pub audio: Option<String>,
    /// "transcript"
    pub transcript: Option<String>,
    /// "text"
    pub text: Option<String>,
    /// "error"."message"
    pub error_message: Option<String>,
}

/// The text of an optional string.
pub open spec fn opt_text(o: Option<String>) -> Option<Seq<char>> {
    match o {
        Some(s) => Some(s@),
        None => None,
    }
}

/// The first of two optional texts that is present.
pub open spec fn or_else(a: Option<Seq<char>>, b: Option<Seq<char>>) -> Option<Seq<char>> {
    if a is Some {
        a
    } else {
        b
    }
}

/// An optional text, or `d` when it is absent.
pub open spec fn or_default(a: Option<Seq<char>>, d: Seq<char>) -> Seq<char> {
    match a {
        Some(t) => t,
        None => d,
    }
}

/// How a server message is read, before any decoding.
pub enum EventClass {
    SessionCreated,
    /// an audio delta with this base64 text
    AudioDelta(Seq<char>),
    TextDelta(Seq<char>),
    AssistantTranscriptDelta(Seq<char>),
    UserTranscriptDelta(Seq<char>),
    UserTranscriptFinal(Seq<char>),
    PartDone,
    ResponseDone,
    Completed,
    Error(Seq<char>),
    Other,
}

/// The reading of a server message by the texts of its fields, by its type:
/// - "session.created": the session exists;
/// - "response.audio.delta" / "response.output_audio.delta": audio in
///   "delta", else in "audio" (with neither, some other message);
/// - "response.text.delta" / "response.output_text.delta": text in "delta";
/// - "response.audio_transcript.delta": assistant transcript in "delta";
/// - "conversation.item.input_audio_transcription.delta": user transcript
///   in "delta" (empty when absent);
/// - "conversation.item.input_audio_transcription.completed": the final
///   user transcript in "transcript", else "text" (empty when absent);
/// - "response.audio.done", "response.audio_transcript.done",
///   "response.content_part.done": a part is done;
/// - "response.done": the response is done;
/// - "response.completed": completed;
/// - "error" / "conversation.item.input_audio_transcription.failed": the
///   error's message ("Unknown error" when absent);
/// - anything else, or no type: some other message.
pub open spec fn classify_texts(f: EventTexts) -> EventClass {
    let delta = f.1;
    match f.0 {
        None => EventClass::Other,
        Some(t) => if t == "session.created"@ {
            EventClass::SessionCreated
        } else if t == "response.audio.delta"@ || t == "response.output_audio.delta"@ {
            match or_else(delta, f.2) {
                Some(b) => EventClass::AudioDelta(b),
                None => EventClass::Other,
            }
        } else if t == "response.text.delta"@ || t == "response.output_text.delta"@ {
            match delta {
                Some(d) => EventClass::TextDelta(d),
                None => EventClass::Other,
            }
        } else if t == "response.audio_transcript.delta"@ {
            match delta {
                Some(d) => EventClass::AssistantTranscriptDelta(d),
                None => EventClass::Other,
            }
        } else if t == "conversation.item.input_audio_transcription.delta"@ {
            EventClass::UserTranscriptDelta(or_default(delta, ""@))
        } else if t == "conversation.item.input_audio_transcription.completed"@ {
            EventClass::UserTranscriptFinal(
                or_default(or_else(f.3, f.4), ""@),
            )
        } else if t == "response.audio.done"@ || t == "response.audio_transcript.done"@ || t
            == "response.content_part.done"@ {
            EventClass::PartDone
        } else if t == "response.done"@ {
            EventClass::ResponseDone
        } else if t == "response.completed"@ {
            EventClass::Completed
        } else if t == "error"@ || t == "conversation.item.input_audio_transcription.failed"@ {
            EventClass::Error(or_default(f.5, "Unknown error"@))
        } else {
            EventClass::Other
        },
    }
}

/// The texts of the fields that `classify` reads, in the order type,
/// delta, audio, transcript, text, error message.
pub type EventTexts = (
    Option<Seq<char>>,
    Option<Seq<char>>,
    Option<Seq<char>>,
    Option<Seq<char>>,
    Option<Seq<char>>,
    Option<Seq<char>>,
);

/// The texts of the fields of `f`.
pub open spec fn texts_of(f: EventFields) -> EventTexts {
    (
        opt_text(f.event_type),
        opt_text(f.delta),
        opt_text(f.audio),
        opt_text(f.transcript),
        opt_text(f.text),
        opt_text(f.error_message),
    )
}

/// The reading of a message by the fields it carries (see `classify_texts`).
pub open spec fn classify(f: EventFields) -> EventClass {
    classify_texts(texts_of(f))
}

/// `r` is the event of class `c` for the message `v`; an audio delta is
/// decoded, and a failed decoding is an error.
pub open spec fn event_of(c: EventClass, v: Value, r: Result<RtEvent, RealtimeError>) -> bool {
    match c {
        EventClass::SessionCreated => r == Ok::<RtEvent, RealtimeError>(RtEvent::SessionCreated(v)),
        EventClass::AudioDelta(b64) => match r {
            Ok(RtEvent::AudioDelta(b)) => base64_standard_encoding(b@) == b64,
            Err(RealtimeError::Base64(_)) => forall|b: Seq<u8>| #[trigger]
                base64_standard_encoding(b) != b64,
            _ => false,
        },
        EventClass::TextDelta(s) => r matches Ok(RtEvent::TextDelta(t)) && t@ == s,
        EventClass::AssistantTranscriptDelta(s) => r matches Ok(
            RtEvent::AssistantTranscriptDelta(t),
        ) && t@ == s,
        EventClass::UserTranscriptDelta(s) => r matches Ok(RtEvent::UserTranscriptDelta(t)) && t@
            == s,
        EventClass::UserTranscriptFinal(s) => r matches Ok(RtEvent::UserTranscriptFinal(t)) && t@
            == s,
        EventClass::PartDone => r == Ok::<RtEvent, RealtimeError>(RtEvent::PartDone(v)),
        EventClass::ResponseDone => r == Ok::<RtEvent, RealtimeError>(RtEvent::ResponseDone(v)),
        EventClass::Completed => r == Ok::<RtEvent, RealtimeError>(RtEvent::Completed),
        EventClass::Error(m) => r matches Ok(RtEvent::Error(t)) && t@ == m,
        EventClass::Other => r == Ok::<RtEvent, RealtimeError>(RtEvent::Other(v)),
    }
}

fn is_text(s: &String, lit: &str) -> (b: bool)
    ensures
        b == (s@ == lit@),
{
    *s == String::from_str(lit)
}

fn text_or(o: &Option<String>, d: &str) -> (s: String)
    ensures
        s@ == or_default(opt_text(*o), d@),
{
    match o {
        Some(t) => t.clone(),
        None => String::from_str(d),
    }
}

/// Reads a text message of the server, given its parsed JSON `v` and the
/// fields of `v` that the reading depends on (see `classify`).
pub fn classify_text_event(fields: &EventFields, v: Value) -> (r: Result<RtEvent, RealtimeError>)
    ensures
        event_of(classify(*fields), v, r),
{
    let t = match &fields.event_type {
        None => {
            return Ok(RtEvent::Other(v));
        },
        Some(t) => t,
    };
    if is_text(t, "session.created") {
        Ok(RtEvent::SessionCreated(v))
    } else if is_text(t, "response.audio.delta") || is_text(t, "response.output_audio.delta") {
        let b64 = match &fields.delta {
            Some(d) => Some(d),
            None => match &fields.audio {
                Some(a) => Some(a),
                None => None,
            },
        };
        match b64 {
            Some(b) => match base64_decode(b.as_str()) {
                Ok(bytes) => Ok(RtEvent::AudioDelta(bytes)),
                Err(e) => Err(RealtimeError::Base64(e)),
            },
            None => Ok(RtEvent::Other(v)),
        }
    } else if is_text(t, "response.text.delta") || is_text(t, "response.output_text.delta") {
        match &fields.delta {
            Some(d) => Ok(RtEvent::TextDelta(d.clone())),
            None => Ok(RtEvent::Other(v)),
        }
    } else if is_text(t, "response.audio_transcript.delta") {
        match &fields.delta {
            Some(d) => Ok(RtEvent::AssistantTranscriptDelta(d.clone())),
            None => Ok(RtEvent::Other(v)),
        }
    } else if is_text(t, "conversation.item.input_audio_transcription.delta") {
        Ok(RtEvent::UserTranscriptDelta(text_or(&fields.delta, "")))
    } else if is_text(t, "conversation.item.input_audio_transcription.completed") {
        let s = match &fields.transcript {
            Some(x) => x.clone(),
            None => text_or(&fields.text, ""),
        };
        Ok(RtEvent::UserTranscriptFinal(s))
    } else if is_text(t, "response.audio.done") || is_text(t, "response.audio_transcript.done")
        || is_text(t, "response.content_part.done") {
        Ok(RtEvent::PartDone(v))
    } else if is_text(t, "response.done") {
        Ok(RtEvent::ResponseDone(v))
    } else if is_text(t, "response.completed") {
        Ok(RtEvent::Completed)
    } else if is_text(t, "error") || is_text(
        t,
        "conversation.item.input_audio_transcription.failed",
    ) {
        Ok(RtEvent::Error(text_or(&fields.error_message, "Unknown error")))
    } else {
        Ok(RtEvent::Other(v))
    }
}


/// Whether `serde_json::from_str` parses `text` as a JSON document.
pub uninterp spec fn parses_as_json(text: Seq<char>) -> bool;

/// The document that `serde_json::from_str` parses from `text`.
pub uninterp spec fn parsed_json(text: Seq<char>) -> Value;

/// The text at the JSON pointer `pointer` of `doc`, when there is a JSON
/// string there (`Value::pointer` then `Value::as_str`).
pub uninterp spec fn json_pointer_str(doc: Value, pointer: Seq<char>) -> Option<Seq<char>>;

/// The JSON object with the single string member `key: value`.
pub uninterp spec fn json_string_object(key: Seq<char>, value: Seq<char>) -> Value;

/// `serde_json::from_str::<Value>`: the parsed document, or nothing when
/// `text` is not JSON.
#[verifier::external_body]
fn parse_json(text: &str) -> (r: Option<Value>)
    ensures
        r is Some <==> parses_as_json(text@),
        r matches Some(v) ==> v == parsed_json(text@),
{
    match serde_json::from_str(text) {
        Ok(v) => Some(v),
        Err(_) => None,
    }
}

/// `Value::pointer` then `Value::as_str`: the string at `pointer` in `doc`,
/// if there is one.
#[verifier::external_body]
fn json_pointer_text(doc: &Value, pointer: &str) -> (r: Option<String>)
    ensures
        opt_text(r) == json_pointer_str(*doc, pointer@),
{
    doc.pointer(pointer).and_then(Value::as_str).map(String::from)
}

/// `Value::from_iter` over one pair: the JSON object with the single
/// string member `key: value`.
#[verifier::external_body]
fn json_object_of_string(key: &str, value: &str) -> (r: Value)
    ensures
        r == json_string_object(key@, value@),
{
    Value::from_iter([(key, value)])
}

/// The texts of the string fields of a document that `classify_texts`
/// reads: "type", "delta", "audio", "transcript", "text" and
/// "error"."message".
pub open spec fn document_texts(doc: Value) -> EventTexts {
    (
        json_pointer_str(doc, "/type"@),
        json_pointer_str(doc, "/delta"@),
        json_pointer_str(doc, "/audio"@),
        json_pointer_str(doc, "/transcript"@),
        json_pointer_str(doc, "/text"@),
        json_pointer_str(doc, "/error/message"@),
    )
}

/// `r` is what a text frame `text` of the server reads as: a JSON frame by
/// the texts of its fields, carrying the parsed document; any other text
/// as some other message carrying the object `{"raw": text}`.
pub open spec fn reads_as(text: Seq<char>, r: Result<RtEvent, RealtimeError>) -> bool {
    if parses_as_json(text) {
        event_of(classify_texts(document_texts(parsed_json(text))), parsed_json(text), r)
    } else {
        r == Ok::<RtEvent, RealtimeError>(RtEvent::Other(json_string_object("raw"@, text)))
    }
}

/// Reads a text frame of the server (see `reads_as`): never an error but
/// for an audio delta that is not valid base64.
pub fn read_server_text(text: &str) -> (r: Result<RtEvent, RealtimeError>)
    ensures
        reads_as(text@, r),
{
    match parse_json(text) {
        Some(v) => {
            let fields = EventFields {
                event_type: json_pointer_text(&v, "/type"),
                delta: json_pointer_text(&v, "/delta"),
                audio: json_pointer_text(&v, "/audio"),
                transcript: json_pointer_text(&v, "/transcript"),
                text: json_pointer_text(&v, "/text"),
                error_message: json_pointer_text(&v, "/error/message"),
            };
            assert(texts_of(fields) == document_texts(v));
            classify_text_event(&fields, v)
        },
        None => Ok(RtEvent::Other(json_object_of_string("raw", text))),
    }
}

/// One read of the websocket, as the client sees it.
pub enum WsFrame {
    /// a text frame
    Text(String),
    /// a binary frame
    Binary(Vec<u8>),
    /// a ping, with its payload
    Ping(Vec<u8>),
    /// a pong
    Pong,
    /// a close frame
    Close,
    /// any other frame
    Unhandled,
    /// the stream ended
    End,
    /// nothing arrived within the wait
    TimedOut,
}

/// `r` is what one read of the websocket gives: a text frame is read (see
/// `reads_as`); binary data is audio; a ping is answered with a pong of its
/// payload and is some other message `{"event": "ping"}`; a pong is
/// `{"event": "pong"}`; a close frame or the stream's end is `Closed`; a
/// wait with nothing is `Idle`; any other frame is `{"event": "unhandled"}`.
pub open spec fn frame_read(
    f: WsFrame,
    pong: Option<Vec<u8>>,
    r: Result<RtEvent, RealtimeError>,
) -> bool {
    let other = |e: Seq<char>|
        r == Ok::<RtEvent, RealtimeError>(RtEvent::Other(json_string_object("event"@, e)));
    match f {
        WsFrame::Text(t) => pong is None && reads_as(t@, r),
        WsFrame::Binary(b) => pong is None && (r matches Ok(RtEvent::AudioDelta(a)) && a@ == b@),
        WsFrame::Ping(p) => other("ping"@) && (pong matches Some(q) && q@ == p@),
        WsFrame::Pong => pong is None && other("pong"@),
        WsFrame::Close => pong is None && r == Ok::<RtEvent, RealtimeError>(RtEvent::Closed),
        WsFrame::End => pong is None && r == Ok::<RtEvent, RealtimeError>(RtEvent::Closed),
        WsFrame::TimedOut => pong is None && r == Ok::<RtEvent, RealtimeError>(RtEvent::Idle),
        WsFrame::Unhandled => pong is None && other("unhandled"@),
    }
}

/// Reads one read of the websocket (see `frame_read`): the pong to send
/// back, if any, and the event.
pub fn read_frame(f: WsFrame) -> (r: (Option<Vec<u8>>, Result<RtEvent, RealtimeError>))
    ensures
        frame_read(f, r.0, r.1),
{
    match f {
        WsFrame::Text(t) => (None, read_server_text(t.as_str())),
        WsFrame::Binary(b) => (None, Ok(RtEvent::AudioDelta(b))),
        WsFrame::Ping(p) => (Some(p), Ok(RtEvent::Other(json_object_of_string("event", "ping")))),
        WsFrame::Pong => (None, Ok(RtEvent::Other(json_object_of_string("event", "pong")))),
        WsFrame::Close => (None, Ok(RtEvent::Closed)),
        WsFrame::End => (None, Ok(RtEvent::Closed)),
        WsFrame::TimedOut => (None, Ok(RtEvent::Idle)),
        WsFrame::Unhandled => (None, Ok(RtEvent::Other(json_object_of_string("event", "unhandled")))),
    }
}



/// Every delta message carries the text of its "delta" field, whatever
/// its other fields hold: both audio delta types read their base64 audio
/// from "delta" (else from "audio"), both text delta types their text, an
/// assistant transcript delta and a user transcript delta their text (a
/// user transcript delta without one is empty).
pub proof fn lemma_deltas_carry_their_text(
    t: Seq<char>,
    d: Seq<char>,
    a: Option<Seq<char>>,
    tr: Option<Seq<char>>,
    x: Option<Seq<char>>,
    e: Option<Seq<char>>,
)
    ensures
        (t == "response.audio.delta"@ || t == "response.output_audio.delta"@) ==> classify_texts(
            (Some(t), Some(d), a, tr, x, e),
        ) == EventClass::AudioDelta(d) && classify_texts((Some(t), None, Some(d), tr, x, e))
            == EventClass::AudioDelta(d) && classify_texts((Some(t), None, None, tr, x, e))
            == EventClass::Other,
        (t == "response.text.delta"@ || t == "response.output_text.delta"@) ==> classify_texts(
            (Some(t), Some(d), a, tr, x, e),
        ) == EventClass::TextDelta(d),
        t == "response.audio_transcript.delta"@ ==> classify_texts((Some(t), Some(d), a, tr, x, e))
            == EventClass::AssistantTranscriptDelta(d),
        t == "conversation.item.input_audio_transcription.delta"@ ==> classify_texts(
            (Some(t), Some(d), a, tr, x, e),
        ) == EventClass::UserTranscriptDelta(d) && classify_texts((Some(t), None, a, tr, x, e))
            == EventClass::UserTranscriptDelta(Seq::empty()),
{
    reveal_strlit("session.created");
    assert("session.created"@.len() == 15);
    reveal_strlit("response.audio.delta");
    assert("response.audio.delta"@.len() == 20);
    reveal_strlit("response.output_audio.delta");
    assert("response.output_audio.delta"@.len() == 27);
    reveal_strlit("response.text.delta");
    assert("response.text.delta"@.len() == 19);
    reveal_strlit("response.output_text.delta");
    assert("response.output_text.delta"@.len() == 26);
    reveal_strlit("response.audio_transcript.delta");
    assert("response.audio_transcript.delta"@.len() == 31);
    reveal_strlit("conversation.item.input_audio_transcription.delta");
    assert("conversation.item.input_audio_transcription.delta"@.len() == 49);
    reveal_strlit("conversation.item.input_audio_transcription.completed");
    assert("conversation.item.input_audio_transcription.completed"@.len() == 53);
    reveal_strlit("response.audio.done");
    assert("response.audio.done"@.len() == 19);
    reveal_strlit("response.audio_transcript.done");
    assert("response.audio_transcript.done"@.len() == 30);
    reveal_strlit("response.content_part.done");
    assert("response.content_part.done"@.len() == 26);
    reveal_strlit("response.done");
    assert("response.done"@.len() == 13);
    reveal_strlit("response.completed");
    assert("response.completed"@.len() == 18);
    reveal_strlit("error");
    assert("error"@.len() == 5);
    reveal_strlit("conversation.item.input_audio_transcription.failed");
    assert("conversation.item.input_audio_transcription.failed"@.len() == 50);
    assert("response.audio.done"@[9] == 'a' && "response.text.delta"@[9] == 't');
    assert("response.content_part.done"@[9] == 'c' && "response.output_text.delta"@[9] == 'o');
    reveal_strlit("Unknown error");
    reveal_strlit("");
    assert(""@ =~= Seq::<char>::empty());
}

/// The other messages: a final user transcript carries "transcript", else
/// "text", else nothing; an error (or a failed transcription) carries the
/// error's message, else "Unknown error"; the session's creation, the
/// three part-done types, the response's end and its completion read as
/// such, whatever the other fields hold; a message without a type is some
/// other message.
pub proof fn lemma_other_messages_read(
    t: Seq<char>,
    d: Option<Seq<char>>,
    a: Option<Seq<char>>,
    tr: Option<Seq<char>>,
    x: Option<Seq<char>>,
    e: Option<Seq<char>>,
)
    ensures
        t == "conversation.item.input_audio_transcription.completed"@ ==> classify_texts(
            (Some(t), d, a, tr, x, e),
        ) == EventClass::UserTranscriptFinal(
            match tr {
                Some(v) => v,
                None => match x {
                    Some(v) => v,
                    None => Seq::empty(),
                },
            },
        ),
        (t == "error"@ || t == "conversation.item.input_audio_transcription.failed"@)
            ==> classify_texts((Some(t), d, a, tr, x, e)) == EventClass::Error(
            match e {
                Some(m) => m,
                None => "Unknown error"@,
            },
        ),
        t == "session.created"@ ==> classify_texts((Some(t), d, a, tr, x, e))
            == EventClass::SessionCreated,
        (t == "response.audio.done"@ || t == "response.audio_transcript.done"@ || t
            == "response.content_part.done"@) ==> classify_texts((Some(t), d, a, tr, x, e))
            == EventClass::PartDone,
        t == "response.done"@ ==> classify_texts((Some(t), d, a, tr, x, e))
            == EventClass::ResponseDone,
        t == "response.completed"@ ==> classify_texts((Some(t), d, a, tr, x, e))
            == EventClass::Completed,
        classify_texts((None, d, a, tr, x, e)) == EventClass::Other,
{
    reveal_strlit("session.created");
    assert("session.created"@.len() == 15);
    reveal_strlit("response.audio.delta");
    assert("response.audio.delta"@.len() == 20);
    reveal_strlit("response.output_audio.delta");
    assert("response.output_audio.delta"@.len() == 27);
    reveal_strlit("response.text.delta");
    assert("response.text.delta"@.len() == 19);
    reveal_strlit("response.output_text.delta");
    assert("response.output_text.delta"@.len() == 26);
    reveal_strlit("response.audio_transcript.delta");
    assert("response.audio_transcript.delta"@.len() == 31);
    reveal_strlit("conversation.item.input_audio_transcription.delta");
    assert("conversation.item.input_audio_transcription.delta"@.len() == 49);
    reveal_strlit("conversation.item.input_audio_transcription.completed");
    assert("conversation.item.input_audio_transcription.completed"@.len() == 53);
    reveal_strlit("response.audio.done");
    assert("response.audio.done"@.len() == 19);
    reveal_strlit("response.audio_transcript.done");
    assert("response.audio_transcript.done"@.len() == 30);
    reveal_strlit("response.content_part.done");
    assert("response.content_part.done"@.len() == 26);
    reveal_strlit("response.done");
    assert("response.done"@.len() == 13);
    reveal_strlit("response.completed");
    assert("response.completed"@.len() == 18);
    reveal_strlit("error");
    assert("error"@.len() == 5);
    reveal_strlit("conversation.item.input_audio_transcription.failed");
    assert("conversation.item.input_audio_transcription.failed"@.len() == 50);
    assert("response.audio.done"@[9] == 'a' && "response.text.delta"@[9] == 't');
    assert("response.content_part.done"@[9] == 'c' && "response.output_text.delta"@[9] == 'o');
    reveal_strlit("Unknown error");
    reveal_strlit("");
    assert(""@ =~= Seq::<char>::empty());
}

/// What the connection does with an event while it waits for the server to
/// create the session.
#[derive(Debug, Clone, Copy, PartialEq, Eq, Structural)]
pub enum HandshakeStep {
    /// The session exists: send the session setup.
    Ready,
    /// Keep waiting.
    Wait,
    /// The server reported an error or closed the connection.
    Failed,
}

/// The handshake's decision on one event: ready on "session.created",
/// failed on an error or a closed connection, else waiting.
pub fn handshake_step(ev: &RtEvent) -> (s: HandshakeStep)
    ensures
        ev is SessionCreated ==> s == HandshakeStep::Ready,
        (ev is Error || ev is Closed) ==> s == HandshakeStep::Failed,
        !(ev is SessionCreated || ev is Error || ev is Closed) ==> s == HandshakeStep::Wait,
{
    match ev {
        RtEvent::SessionCreated(_) => HandshakeStep::Ready,
        RtEvent::Error(_) | RtEvent::Closed => HandshakeStep::Failed,
        _ => HandshakeStep::Wait,
    }
}

/// Base URL of the OpenAI Realtime websocket.
pub open spec fn realtime_ws_base() -> Seq<char> {
    "wss://api.openai.com/v1/realtime"@
}

/// The websocket URL of a session: the transcription intent when
/// transcription is on, else the model.
pub open spec fn spec_realtime_url(features: RealtimeFeatures, model: Seq<char>) -> Seq<char> {
    if features.enable_transcribe {
        realtime_ws_base() + "?intent=transcription"@
    } else {
        realtime_ws_base() + "?model="@ + model
    }
}

/// The websocket URL to connect to.
pub fn realtime_url(features: &RealtimeFeatures, model: &str) -> (url: String)
    ensures
        url@ == spec_realtime_url(*features, model@),
{
    let base = String::from_str("wss://api.openai.com/v1/realtime");
    if features.enable_transcribe {
        base.concat("?intent=transcription")
    } else {
        base.concat("?model=").concat(model)
    }
}

/// An output modality of a response.
#[derive(Debug, Clone, Copy, PartialEq, Eq, Structural)]
pub enum Modality {
    Audio,
    Text,
}

/// Turn detection of a session.
#[derive(Debug, Clone, Copy, PartialEq, Eq, Structural)]
pub enum TurnDetection {
    /// No server-side turn detection (JSON `null`).
    Disabled,
    /// The server's voice activity detection, with threshold 0.5 and these
    /// paddings.
    ServerVad { prefix_padding_ms: u32, silence_duration_ms: u32 },
}

/// The turn detection that the switches ask for: the server's VAD with
/// 300 ms prefix padding and 500 ms silence, or none.
pub open spec fn spec_turn_detection(features: RealtimeFeatures) -> TurnDetection {
    if features.use_server_vad {
        TurnDetection::ServerVad { prefix_padding_ms: 300, silence_duration_ms: 500 }
    } else {
        TurnDetection::Disabled
    }
}

/// The turn detection that the switches ask for.
pub fn turn_detection(features: &RealtimeFeatures) -> (t: TurnDetection)
    ensures
        t == spec_turn_detection(*features),
{
    if features.use_server_vad {
        TurnDetection::ServerVad { prefix_padding_ms: 300, silence_duration_ms: 500 }
    } else {
        TurnDetection::Disabled
    }
}

/// The settings sent once a conversation session is connected.
#[derive(Debug, Clone, PartialEq)]
pub struct ConversationSession {
    pub voice: String,
    pub input_audio_format: String,
    pub instructions: String,
    pub modalities: Vec<Modality>,
    pub output_audio_format: String,
    pub turn_detection: TurnDetection,
    /// the model that transcribes the user's audio, when that is on
    pub input_transcription_model: Option<String>,
    /// ask for the output audio transcript
    pub include_output_audio_transcript: bool,
}

/// The settings sent once a transcription session is connected.
#[derive(Debug, Clone, PartialEq)]
pub struct TranscriptionSession {
    pub input_audio_format: String,
    pub transcription_model: String,
    pub turn_detection: TurnDetection,
    pub noise_reduction: String,
}

/// The first message after connecting.
#[derive(Debug, Clone, PartialEq)]
pub enum SessionSetup {
    /// An empty JSON object (neither conversation nor transcription is on).
    Empty,
    /// "session.update"
    Conversation(ConversationSession),
    /// "transcription_session.update"
    Transcription(TranscriptionSession),
}

/// The instructions of a conversation: those of the options, else the
/// default assistant instructions.
pub open spec fn instructions_of(options: RealtimeClientOptions) -> Seq<char> {
    match options.instructions {
        Some(i) => i@,
        None => crate::openai::default_assistant_instructions(),
    }
}

/// `s` is the setup that the options ask for: a conversation (voice
/// "alloy", PCM16 in and out, the options' instructions, audio and text,
/// the switches' turn detection, the transcription model when input
/// transcription is on, the output transcript when asked); else a
/// transcription session (PCM16 in, the transcription model, the switches'
/// turn detection, near-field noise reduction); else nothing.
pub open spec fn setup_of(
    s: SessionSetup,
    options: RealtimeClientOptions,
    model_transcribe: Seq<char>,
) -> bool {
    let features = options.features;
    if features.enable_conversation {
        s matches SessionSetup::Conversation(c) && {
            &&& c.voice@ == "alloy"@
            &&& c.input_audio_format@ == "pcm16"@
            &&& c.instructions@ == instructions_of(options)
            &&& c.modalities@ == seq![Modality::Audio, Modality::Text]
            &&& c.output_audio_format@ == "pcm16"@
            &&& c.turn_detection == spec_turn_detection(features)
            &&& opt_text(c.input_transcription_model) == if features.enable_input_transcription {
                Some(model_transcribe)
            } else {
                None
            }
            &&& c.include_output_audio_transcript == features.enable_output_audio_transcript
        }
    } else if features.enable_transcribe {
        s matches SessionSetup::Transcription(t) && {
            &&& t.input_audio_format@ == "pcm16"@
            &&& t.transcription_model@ == model_transcribe
            &&& t.turn_detection == spec_turn_detection(features)
            &&& t.noise_reduction@ == "near_field"@
        }
    } else {
        s is Empty
    }
}

/// Whatever session the options set up, it carries the turn detection of
/// the switches: the server's voice activity detection with 300 ms prefix
/// padding and 500 ms silence when `use_server_vad` is on, none otherwise;
/// a conversation when conversation is on, else a transcription session
/// when transcription is on, else nothing.
pub proof fn lemma_setup_turn_detection(
    s: SessionSetup,
    options: RealtimeClientOptions,
    model_transcribe: Seq<char>,
)
    requires
        setup_of(s, options, model_transcribe),
    ensures
        options.features.enable_conversation ==> s is Conversation,
        !options.features.enable_conversation && options.features.enable_transcribe
            ==> s is Transcription,
        !options.features.enable_conversation && !options.features.enable_transcribe ==> s is Empty,
        match s {
            SessionSetup::Conversation(c) => c.turn_detection == if options.features.use_server_vad {
                TurnDetection::ServerVad { prefix_padding_ms: 300, silence_duration_ms: 500 }
            } else {
                TurnDetection::Disabled
            },
            SessionSetup::Transcription(t) => t.turn_detection == if options.features.use_server_vad {
                TurnDetection::ServerVad { prefix_padding_ms: 300, silence_duration_ms: 500 }
            } else {
                TurnDetection::Disabled
            },
            SessionSetup::Empty => true,
        },
{
}

/// The first message to send once the session exists, for these options.
pub fn session_setup(options: &RealtimeClientOptions, model_transcribe: &str) -> (s: SessionSetup)
    ensures
        setup_of(s, *options, model_transcribe@),
        s matches SessionSetup::Conversation(c) ==> c.turn_detection == if options.features.use_server_vad {
            TurnDetection::ServerVad { prefix_padding_ms: 300, silence_duration_ms: 500 }
        } else {
            TurnDetection::Disabled
        },
        s matches SessionSetup::Transcription(t) ==> t.turn_detection == if options.features.use_server_vad {
            TurnDetection::ServerVad { prefix_padding_ms: 300, silence_duration_ms: 500 }
        } else {
            TurnDetection::Disabled
        },
{
    let features = &options.features;
    if features.enable_conversation {
        let mut modalities: Vec<Modality> = Vec::new();
        modalities.push(Modality::Audio);
        modalities.push(Modality::Text);
        assert(modalities@ =~= seq![Modality::Audio, Modality::Text]);
        let input_transcription_model = if features.enable_input_transcription {
            Some(String::from_str(model_transcribe))
        } else {
            None
        };
        let instructions = match &options.instructions {
            Some(i) => i.clone(),
            None => String::from_str(
                "You are a helpful multiple languages speaking assistant, reply in the user’s language.",
            ),
        };
        SessionSetup::Conversation(
            ConversationSession {
                voice: String::from_str("alloy"),
                input_audio_format: String::from_str("pcm16"),
                instructions,
                modalities,
                output_audio_format: String::from_str("pcm16"),
                turn_detection: turn_detection(features),
                input_transcription_model,
                include_output_audio_transcript: features.enable_output_audio_transcript,
            },
        )
    } else if features.enable_transcribe {
        SessionSetup::Transcription(
            TranscriptionSession {
                input_audio_format: String::from_str("pcm16"),
                transcription_model: String::from_str(model_transcribe),
                turn_detection: turn_detection(features),
                noise_reduction: String::from_str("near_field"),
            },
        )
    } else {
        SessionSetup::Empty
    }
}

/// A message the client sends on an open session.
#[derive(Debug, Clone, PartialEq)]
pub enum ClientEvent {
    /// "input_audio_buffer.append" with base64 PCM16 audio
    InputAudioAppend { audio: String },
    /// "input_audio_buffer.commit"
    InputAudioCommit,
    /// "response.create"
    ResponseCreate { modalities: Vec<Modality>, instructions: String },
    /// "conversation.item.create": a user message of one input text
    UserText { text: String },
}

/// The append message for a PCM16 chunk: an error for an odd byte count,
/// else the chunk's base64 text.
pub fn input_audio_append(bytes: &[u8]) -> (r: Result<ClientEvent, RealtimeError>)
    requires
        bytes@.len() % 2 == 0 ==> base64_encoded_len(bytes@.len()) <= usize::MAX,
    ensures
        bytes@.len() % 2 == 1 ==> (r matches Err(RealtimeError::UnalignedPcm16 { len }) && len
            == bytes@.len()),
        bytes@.len() % 2 == 0 ==> (r matches Ok(ClientEvent::InputAudioAppend { audio })
            && audio@ == base64_standard_encoding(bytes@)),
{
    if bytes.len() % 2 != 0 {
        return Err(RealtimeError::UnalignedPcm16 { len: bytes.len() });
    }
    Ok(ClientEvent::InputAudioAppend { audio: base64_encode(bytes) })
}

/// Default steering of a response.
pub open spec fn default_reply_style() -> Seq<char> {
    "Speak the reply clearly, naturally."@
}

/// Default steering of a text-to-speech response.
pub open spec fn default_tts_style() -> Seq<char> {
    "You are a text-to-speech renderer. Read aloud EXACTLY the text inside <say>...</say>. Do not add any words. Do not remove any words. Do not paraphrase. Do not say acknowledgements."@
}

/// The response request: audio and text (`want_text`) or audio only,
/// steered by `style` or by the default reply style.
pub fn response_create(want_text: bool, style: Option<&str>) -> (e: ClientEvent)
    ensures
        e matches ClientEvent::ResponseCreate { modalities, instructions } && modalities@ == (
        if want_text {
            seq![Modality::Audio, Modality::Text]
        } else {
            seq![Modality::Audio]
        }) && instructions@ == match style {
            Some(s) => s@,
            None => default_reply_style(),
        },
{
    let instructions = match style {
        Some(s) => String::from_str(s),
        None => String::from_str("Speak the reply clearly, naturally."),
    };
    let mut modalities: Vec<Modality> = Vec::new();
    modalities.push(Modality::Audio);
    if want_text {
        modalities.push(Modality::Text);
    }
    proof {
        if want_text {
            assert(modalities@ =~= seq![Modality::Audio, Modality::Text]);
        } else {
            assert(modalities@ =~= seq![Modality::Audio]);
        }
    }
    ClientEvent::ResponseCreate { modalities, instructions }
}

/// `text` wrapped in a say tag: "<say>" + text + "</say>".
pub open spec fn say_tagged(text: Seq<char>) -> Seq<char> {
    "<say>"@ + text + "</say>"@
}

/// The messages of one text-to-speech request: none when `text` is blank;
/// else one user message holding the trimmed text in a say tag (the default
/// style reads exactly what is inside it), then a request for
/// audio and text steered by `style` or by the default text-to-speech
/// style.
pub fn tts_events(text: &str, style: Option<&str>) -> (events: Vec<ClientEvent>)
    ensures
        trim(text@).len() == 0 ==> events@.len() == 0,
        trim(text@).len() > 0 ==> {
            &&& events@.len() == 2
            &&& events@[0] matches ClientEvent::UserText { text: t } && t@ == say_tagged(
                trim(text@),
            )
            &&& events@[1] matches ClientEvent::ResponseCreate { modalities, instructions }
                && modalities@ == seq![Modality::Audio, Modality::Text] && instructions@ == match style {
                Some(s) => s@,
                None => default_tts_style(),
            }
        },
{
    let chars = chars_of(text);
    let (a, b) = trim_bounds(chars.as_slice());
    let mut events: Vec<ClientEvent> = Vec::new();
    if a == b {
        return events;
    }
    let trimmed = string_of(&chars.as_slice()[a..b]);
    let say = String::from_str("<say>").concat(trimmed.as_str()).concat("</say>");
    let instructions = match style {
        Some(s) => String::from_str(s),
        None => String::from_str(
            "You are a text-to-speech renderer. Read aloud EXACTLY the text inside <say>...</say>. Do not add any words. Do not remove any words. Do not paraphrase. Do not say acknowledgements.",
        ),
    };
    let mut modalities: Vec<Modality> = Vec::new();
    modalities.push(Modality::Audio);
    modalities.push(Modality::Text);
    assert(modalities@ =~= seq![Modality::Audio, Modality::Text]);
    events.push(ClientEvent::UserText { text: say });
    events.push(ClientEvent::ResponseCreate { modalities, instructions });
    events
}

} // verus!
