//! A resumable decoder for length-delimited message streams.
//!
//! Byte chunks of arbitrary size arrive in stream order; the decoder
//! reassembles them into framed messages. A stream opens with a fixed-size
//! header carrying a version and encoding options, followed by frames: a
//! fixed-size message header plus a length-delimited payload. A frame of
//! the `End` kind closes a sub-stream, and several sub-streams may lie
//! back to back in one byte stream.
//!
//! The pieces, bottom up:
//! - [`chunk_buffer`]: queues raw chunks and serves exact-size reads
//!   across chunk boundaries, losing nothing to a read that comes up
//!   short and replaying nothing after one that succeeds.
//! - [`format`]: the stream header — magic bytes, version, options.
//! - [`wire`] and [`payload`]: the byte-level and message-level codec.
//! - [`codec`]: frames, and the decoding of one payload into one message.
//! - [`stream`]: the decoder itself, a state machine over the chunk
//!   buffer, together with the laws that decoding is invariant under
//!   re-chunking and that concatenated streams decode to concatenated
//!   message lists.
//! - [`log_types`], [`python_version`], [`time`]: the message model.
//! - [`table_config`]: which columns of a table are shown, and in what
//!   order.

pub mod chunk_buffer;
pub mod codec;
pub mod error;
pub mod format;
pub mod log_types;
pub mod payload;
pub mod python_version;
pub mod random_id;
pub mod stream;
pub mod table_config;
pub mod time;
pub mod wire;
