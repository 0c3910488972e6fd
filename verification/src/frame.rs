//! Socket frames, and the step between a message and the frame that carries
//! it: one message per binary frame, and a close frame to end the stream.

use vstd::prelude::*;
use vstd::slice::*;
use vstd::utf8::*;
use crate::codec::Wire;

verus! {

/// Why the peer is closing, as a close frame carries it.
#[derive(Clone, Debug, PartialEq, Eq)]
pub struct CloseFrame {
    pub code: u16,
    pub reason: String,
}

/// One frame of the socket, by kind, with what it carries.
#[derive(Clone, Debug, PartialEq, Eq)]
pub enum Frame {
    Text(String),
    Binary(Vec<u8>),
    Ping(Vec<u8>),
    Pong(Vec<u8>),
    Close(Option<CloseFrame>),
}

/// A failure of the connection below the codec.
#[derive(Clone, Debug, PartialEq, Eq)]
pub struct TransportError {
    pub reason: String,
}

/// Why no message came out.
#[derive(Clone, Debug, PartialEq, Eq)]
pub enum CodecError {
    /// The connection failed before a frame arrived.
    Transport(TransportError),
    /// The frame's bytes are not the encoding of any message.
    Malformed,
}

impl Frame {
    /// The bytes that the frame carries: a text frame's UTF-8 bytes, a close
    /// frame's reason, and nothing for a close frame without one.
    pub open spec fn payload(self) -> Seq<u8> {
        match self {
            Frame::Text(text) => encode_utf8(text@),
            Frame::Binary(data) => data@,
            Frame::Ping(data) => data@,
            Frame::Pong(data) => data@,
            Frame::Close(None) => Seq::empty(),
            Frame::Close(Some(close)) => encode_utf8(close.reason@),
        }
    }

    /// Whether this is the close frame that carries nothing.
    pub open spec fn is_bare_close(self) -> bool {
        self matches Frame::Close(None)
    }

    /// Gives up the frame for the bytes that it carries.
    pub fn into_data(self) -> (data: Vec<u8>)
        ensures
            data@ == self.payload(),
    {
        match self {
            Frame::Text(text) => slice_to_vec(text.as_str().as_bytes()),
            Frame::Binary(data) => data,
            Frame::Ping(data) => data,
            Frame::Pong(data) => data,
            Frame::Close(None) => Vec::new(),
            Frame::Close(Some(close)) => slice_to_vec(close.reason.as_str().as_bytes()),
        }
    }
}

/// What encoding `message` gives: a binary frame that holds its encoding.
pub open spec fn encoded<T: Wire>(message: T, r: Result<Frame, CodecError>) -> bool {
    &&& T::fits(message@)
    &&& r matches Ok(Frame::Binary(data))
    &&& data@ == T::encoding(message@)
}

/// What decoding gives: the transport's error handed on; else the message
/// that the frame's bytes encode; else, where they encode none, `Malformed`.
pub open spec fn decoded<T: Wire>(
    message: Result<Frame, TransportError>,
    r: Result<T, CodecError>,
) -> bool {
    match message {
        Err(e) => r == Err::<T, CodecError>(CodecError::Transport(e)),
        Ok(frame) => match T::decoding(frame.payload()) {
            Some(v) => r is Ok && r.unwrap()@ == v,
            None => r matches Err(CodecError::Malformed),
        },
    }
}

/// Decodes the message that a received frame carries.
pub fn decode<T: Wire>(message: Result<Frame, TransportError>) -> (r: Result<T, CodecError>)
    ensures
        decoded(message, r),
{
    match message {
        Err(e) => Err(CodecError::Transport(e)),
        Ok(frame) => {
            let data = frame.into_data();
            match T::from_bytes(data.as_slice()) {
                Some(value) => Ok(value),
                None => Err(CodecError::Malformed),
            }
        },
    }
}

/// Encodes a message as one binary frame.
pub fn encode<T: Wire>(message: T) -> (r: Result<Frame, CodecError>)
    ensures
        encoded(message, r),
{
    let data = message.to_bytes();
    Ok(Frame::Binary(data))
}

/// Encodes a message as one binary frame, unless `close_test` holds of it:
/// then the bare close frame is sent in its place.
pub fn encode_or_close<T: Wire, F: FnOnce(&T) -> bool>(message: T, close_test: F) -> (r: Result<
    Frame,
    CodecError,
>)
    requires
        close_test.requires((&message,)),
    ensures
        r is Ok,
        r.unwrap().is_bare_close() ==> close_test.ensures((&message,), true)
            && r.unwrap().payload().len() == 0,
        !r.unwrap().is_bare_close() ==> close_test.ensures((&message,), false) && encoded(
            message,
            r,
        ),
{
    if close_test(&message) {
        return Ok(Frame::Close(None));
    }
    let data = message.to_bytes();
    Ok(Frame::Binary(data))
}

/// A message that one peer encodes, the other decodes to an equal message.
pub proof fn law_decode_undoes_encode<T: Wire>(
    message: T,
    frame: Frame,
    back: Result<T, CodecError>,
)
    requires
        encoded(message, Ok(frame)),
        decoded(Ok(frame), back),
    ensures
        back is Ok,
        back.unwrap()@ == message@,
{
    T::round_trip(message@);
}

/// Whatever the frame, decoding gives an error exactly when its bytes are the
/// encoding of no message.
pub proof fn law_decode_refuses_what_is_no_encoding<T: Wire>(
    frame: Frame,
    r: Result<T, CodecError>,
)
    requires
        decoded(Ok(frame), r),
    ensures
        r is Err <==> forall|v: T::V| !(T::fits(v) && #[trigger] T::encoding(v) == frame.payload()),
{
    match T::decoding(frame.payload()) {
        Some(v) => {
            T::decodes_only_encodings(frame.payload(), v);
        },
        None => {
            assert forall|v: T::V| !(T::fits(v) && #[trigger] T::encoding(v) == frame.payload()) by {
                T::decodes_only_encodings(frame.payload(), v);
            }
        },
    }
}

} // verus!
