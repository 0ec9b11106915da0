//! The key event that travels between peers, and its wire form.
//!
//! The payload of an event is what `bitcode::serialize` makes of the pair
//! of its key code and its origin; on the wire each payload travels in a
//! frame of its own (see [`crate::frame`]).

use crate::frame::{frame_of, frame_payload, FrameError, MAX_PAYLOAD_LEN};
use vstd::prelude::*;

verus! {

/// The error type of the `bitcode` crate. Nothing is known of its contents.
#[verifier::external_type_specification]
#[verifier::external_body]
pub struct ExBitcodeError(bitcode::Error);

/// A key press: the code of the key and the identifier of the peer that
/// captured it.
#[derive(Debug, Clone, PartialEq, Eq)]
pub struct KeyEvent {
    pub key: u16,
    pub client_id: String,
}

/// Mathematical form of a [`KeyEvent`].
pub struct KeyEventView {
    pub key: u16,
    pub client_id: Seq<char>,
}

impl View for KeyEvent {
    type V = KeyEventView;

    open spec fn view(&self) -> KeyEventView {
        KeyEventView { key: self.key, client_id: self.client_id@ }
    }
}

/// The mathematical forms of a list of key events.
pub open spec fn event_views(events: Seq<KeyEvent>) -> Seq<KeyEventView> {
    events.map_values(|e: KeyEvent| e@)
}

/// Why an event could not be turned into bytes, or bytes into an event.
#[derive(Clone, Copy, Debug, PartialEq, Eq, Structural)]
pub enum ProtocolError {
    /// The serializer reported an error.
    Encode,
    /// The bytes are not the payload of an event.
    Decode,
    /// The payload is too long for a frame.
    TooLong,
}

/// What `bitcode::serialize` returns for the pair of a key code and an
/// origin: the bytes, or `None` where it reports an error.
pub uninterp spec fn bitcode_serialized(key: u16, client_id: Seq<char>) -> Option<Seq<u8>>;

/// What `bitcode::deserialize` returns when it is asked to read `bytes` as
/// the pair of a key code and an origin: the pair, or `None` where it
/// reports an error.
pub uninterp spec fn bitcode_deserialized(bytes: Seq<u8>) -> Option<(u16, Seq<char>)>;

/// Calls `bitcode::serialize` on the pair `(key, client_id)`, which has the
/// encoding of a struct with these two fields. The contract names the
/// result, and adds what the serializer exists for: the bytes it returns
/// deserialize to the pair they were made from.
#[verifier::external_body]
fn serialize_fields(key: u16, client_id: &str) -> (r: Result<Vec<u8>, bitcode::Error>)
    ensures
        r matches Ok(bytes) ==> bitcode_serialized(key, client_id@) == Some(bytes@)
            && bitcode_deserialized(bytes@) == Some((key, client_id@)),
        r is Err ==> bitcode_serialized(key, client_id@) is None,
{
    bitcode::serialize(&(key, client_id))
}

/// Calls `bitcode::deserialize` to read `bytes` as a pair of a key code and
/// an origin. The contract names the result.
#[verifier::external_body]
fn deserialize_fields(bytes: &[u8]) -> (r: Result<(u16, String), bitcode::Error>)
    ensures
        r matches Ok(pair) ==> bitcode_deserialized(bytes@) == Some((pair.0, pair.1@)),
        r is Err ==> bitcode_deserialized(bytes@) is None,
{
    bitcode::deserialize::<(u16, String)>(bytes)
}

/// The event that a payload stands for, if it stands for one.
pub open spec fn event_of_payload(payload: Seq<u8>) -> Option<KeyEventView> {
    match bitcode_deserialized(payload) {
        Some(pair) => Some(KeyEventView { key: pair.0, client_id: pair.1 }),
        None => None,
    }
}

/// The frame of an event whose serialization gave `serialized`, or the
/// reason why there is none.
pub open spec fn framed(serialized: Option<Seq<u8>>) -> Result<Seq<u8>, ProtocolError> {
    match serialized {
        None => Err(ProtocolError::Encode),
        Some(payload) => if payload.len() > MAX_PAYLOAD_LEN {
            Err(ProtocolError::TooLong)
        } else {
            Ok(frame_of(payload))
        },
    }
}

/// The view of a frame result.
pub open spec fn frame_view(r: Result<Vec<u8>, ProtocolError>) -> Result<Seq<u8>, ProtocolError> {
    match r {
        Ok(bytes) => Ok(bytes@),
        Err(e) => Err(e),
    }
}

/// Frames a serialized event, or passes the serializer's failure on.
/// `Err(Encode)` exactly when `serialized` is `None`, `Err(TooLong)` exactly
/// when the payload is longer than a frame can carry.
pub fn frame_serialized(serialized: Option<Vec<u8>>) -> (r: Result<Vec<u8>, ProtocolError>)
    ensures
        frame_view(r) == framed(
            match serialized {
                Some(bytes) => Some(bytes@),
                None => None,
            },
        ),
{
    match serialized {
        None => Err(ProtocolError::Encode),
        Some(payload) => match frame_payload(payload.as_slice()) {
            Ok(frame) => Ok(frame),
            Err(FrameError::TooLong) => Err(ProtocolError::TooLong),
        },
    }
}

impl KeyEvent {
    /// Serializes the event. The bytes are those that the serializer gives
    /// for this key and origin, and they decode to this event again.
    /// Fails exactly when the serializer does.
    pub fn to_payload(&self) -> (r: Result<Vec<u8>, ProtocolError>)
        ensures
            r matches Ok(bytes) ==> bitcode_serialized(self.key, self.client_id@) == Some(bytes@)
                && event_of_payload(bytes@) == Some(self@),
            r matches Err(e) ==> e == ProtocolError::Encode && bitcode_serialized(
                self.key,
                self.client_id@,
            ) is None,
    {
        match serialize_fields(self.key, self.client_id.as_str()) {
            Ok(bytes) => Ok(bytes),
            Err(_) => Err(ProtocolError::Encode),
        }
    }

    /// Reads an event from its payload. Fails exactly when the bytes are
    /// not the payload of an event.
    pub fn from_slice(slice: &[u8]) -> (r: Result<KeyEvent, ProtocolError>)
        ensures
            r matches Ok(event) ==> event_of_payload(slice@) == Some(event@),
            r matches Err(e) ==> e == ProtocolError::Decode && event_of_payload(slice@) is None,
    {
        match deserialize_fields(slice) {
            Ok(pair) => Ok(KeyEvent { key: pair.0, client_id: pair.1 }),
            Err(_) => Err(ProtocolError::Decode),
        }
    }

    /// The frame that carries this event on the wire: its payload behind a
    /// length prefix.
    pub fn to_frame(&self) -> (r: Result<Vec<u8>, ProtocolError>)
        ensures
            frame_view(r) == framed(bitcode_serialized(self.key, self.client_id@)),
    {
        match self.to_payload() {
            Ok(payload) => frame_serialized(Some(payload)),
            Err(_) => frame_serialized(None),
        }
    }
}

} // verus!
