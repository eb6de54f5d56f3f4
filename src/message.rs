use vstd::prelude::*;

use crate::framing::{decode_frame, decode_spec, encode_frame, frame_of, lemma_frame_round_trip, FrameError};

verus! {

#[verifier::external_type_specification]
#[verifier::external_body]
pub struct ExJsonValue(serde_json::Value);

/// The JSON text that serializing a value gives.
pub uninterp spec fn json_text(v: serde_json::Value) -> Seq<u8>;

/// The value that parsing some bytes as JSON gives, if they parse.
pub uninterp spec fn parsed_json(bytes: Seq<u8>) -> Option<serde_json::Value>;

/// Relies on `serde_json::to_vec`: the JSON text of a value. It cannot fail
/// on a `Value`, whose serialization has no failing case and only string
/// map keys.
#[verifier::external_body]
fn json_to_vec(value: &serde_json::Value) -> (r: Result<Vec<u8>, String>)
    ensures
        r is Ok,
        r matches Ok(b) ==> b@ == json_text(*value),
{
    serde_json::to_vec(value).map_err(|err| err.to_string())
}

/// Relies on `serde_json::from_slice`: the value that JSON text denotes, or
/// the parser's error as text.
#[verifier::external_body]
fn json_from_slice(bytes: &[u8]) -> (r: Result<serde_json::Value, String>)
    ensures
        r is Ok <==> parsed_json(bytes@) is Some,
        r matches Ok(v) ==> parsed_json(bytes@) == Some(v),
{
    serde_json::from_slice(bytes).map_err(|err| err.to_string())
}

/// Why a message could not be written or read.
#[derive(Clone, Debug, PartialEq, Eq)]
pub enum MessageError {
    /// The frame itself was malformed, too large, or cut short.
    Frame(FrameError),
    /// The body was not JSON, or the value could not be serialized.
    Json(String),
}

/// Serializes a value and frames it with its `Content-Length` header.
pub fn write_message(value: &serde_json::Value) -> (r: Result<Vec<u8>, MessageError>)
    ensures
        r matches Ok(bytes) && bytes@ == frame_of(json_text(*value)),
{
    match json_to_vec(value) {
        Ok(body) => {
            let bytes = encode_frame(body.as_slice());
            Ok(bytes)
        },
        Err(m) => Err(MessageError::Json(m)),
    }
}

/// Reads the first message of `buf`: `Ok(None)` while the frame is not
/// complete, else the parsed value and the number of bytes it used. Framing
/// errors are those of `decode_spec`; a complete frame fails exactly where
/// its body is not JSON.
pub fn read_message(buf: &[u8], cap: Option<usize>) -> (r: Result<Option<(serde_json::Value, usize)>, MessageError>)
    ensures
        match decode_spec(buf@, cap) {
            Err(e) => r == Err::<Option<(serde_json::Value, usize)>, MessageError>(MessageError::Frame(e)),
            Ok(None) => r matches Ok(None),
            Ok(Some((body, n))) => match parsed_json(body) {
                Some(v) => r matches Ok(Some((w, m))) && w == v && m as nat == n,
                None => r matches Err(e) && e is Json,
            },
        },
{
    match decode_frame(buf, cap) {
        Err(e) => Err(MessageError::Frame(e)),
        Ok(None) => Ok(None),
        Ok(Some(frame)) => match json_from_slice(frame.body.as_slice()) {
            Ok(value) => Ok(Some((value, frame.consumed))),
            Err(m) => Err(MessageError::Json(m)),
        },
    }
}

/// Reads the first message of what remains in a stream that has ended:
/// a frame still incomplete is `StreamClosed`, never a partial value.
pub fn read_message_at_end(buf: &[u8], cap: Option<usize>) -> (r: Result<(serde_json::Value, usize), MessageError>)
    ensures
        match decode_spec(buf@, cap) {
            Err(e) => r == Err::<(serde_json::Value, usize), MessageError>(MessageError::Frame(e)),
            Ok(None) => r == Err::<(serde_json::Value, usize), MessageError>(MessageError::Frame(FrameError::StreamClosed)),
            Ok(Some((body, n))) => match parsed_json(body) {
                Some(v) => r matches Ok((w, m)) && w == v && m as nat == n,
                None => r matches Err(e) && e is Json,
            },
        },
{
    match read_message(buf, cap) {
        Ok(Some(found)) => Ok(found),
        Ok(None) => Err(MessageError::Frame(FrameError::StreamClosed)),
        Err(e) => Err(e),
    }
}

/// What `write_message` produces for a value is read back whole by
/// `read_message`: the reader takes exactly the frame's bytes, whatever
/// follows in the stream, and parses exactly the value's JSON text.
pub proof fn lemma_message_round_trip(value: serde_json::Value, rest: Seq<u8>)
    requires
        json_text(value).len() <= crate::framing::MAX_MESSAGE_SIZE,
    ensures
        decode_spec(frame_of(json_text(value)) + rest, Some(crate::framing::MAX_MESSAGE_SIZE)) == Ok::<
            Option<(Seq<u8>, nat)>,
            FrameError,
        >(Some((json_text(value), frame_of(json_text(value)).len()))),
{
    lemma_frame_round_trip(json_text(value), rest, Some(crate::framing::MAX_MESSAGE_SIZE));
}

} // verus!
