//! Error taxonomy of the decoder.
//!
//! Every data-format error is fatal and surfaces immediately; "not enough
//! bytes yet" is never an error (it is `Ok(None)` at the decoder's surface).

use vstd::prelude::*;

verus! {

/// An error raised while decoding one message payload.
#[derive(Clone, Copy, Debug, PartialEq, Eq, Structural)]
pub enum CodecError {
    /// The payload ended before the value it claims to hold was complete.
    Truncated,
    /// The payload holds bytes past the end of the value it encodes.
    TrailingBytes,
    /// A variant tag byte holds no known variant.
    InvalidTag(u8),
    /// A character position holds a value that is no Unicode scalar.
    InvalidChar,
    /// A boolean byte holds a value other than 0 or 1.
    InvalidBool(u8),
}

/// An error raised while decoding a stream.
#[derive(Clone, Copy, Debug, PartialEq, Eq, Structural)]
pub enum DecodeError {
    /// The magic bytes belong to an older, unsupported layout of the format.
    OldRrdVersion,
    /// The magic bytes do not identify this format at all.
    NotAnRrd,
    /// The options field names an unknown compression mode.
    UnknownCompression(u8),
    /// The options field names a serializer this decoder does not know.
    UnknownSerializer(u8),
    /// The options field names the retired serializer of earlier releases.
    RemovedMsgPackSerializer,
    /// The reserved bytes of the options field are not zero.
    UnknownReservedBytes,
    /// The message header carries an unknown message-kind tag.
    UnknownMessageKind(u64),
    /// The message header claims a payload too large to buffer on this machine.
    MessageTooLarge(u64),
    /// The framing was sound but the payload itself is malformed.
    Codec(CodecError),
}

} // verus!
