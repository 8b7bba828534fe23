//! The stream decoder: a state machine that ingests byte chunks and hands
//! back messages once it has gathered enough bytes to decode one.
//!
//! Chunks go in via [`StreamDecoder::push_chunk`]; messages come back out
//! via [`StreamDecoder::try_read`]. The machine walks the three regions of
//! the stream — stream header, message header, message payload — reading
//! exactly as many bytes as the current region needs, and suspends with
//! `Ok(None)` whenever the bytes gathered so far fall short. What one call
//! of `try_read` does is pinned down, state for state, by the spec-level
//! step function [`spec_try_read`].

use vstd::prelude::*;

use crate::chunk_buffer::ChunkBuffer;
use crate::codec::decode_bytes_to_app;
use crate::codec::clear_version_msg;
use crate::codec::lemma_decode_encoded_payload;
use crate::codec::lemma_message_header_roundtrip;
use crate::codec::spec_decode_app;
use crate::codec::spec_encode_frame;
use crate::codec::spec_encode_frames;
use crate::codec::spec_encode_message_header;
use crate::codec::spec_encode_payload;
use crate::codec::spec_encode_stream;
use crate::codec::spec_end_frame;
use crate::codec::spec_kind_of;
use crate::codec::spec_message_header_from_bytes;
use crate::codec::view_decoded;
use crate::codec::wf_log_msg;
use crate::codec::MessageHeader;
use crate::codec::MessageKind;
use crate::codec::MESSAGE_HEADER_SIZE;
use crate::format::lemma_file_header_roundtrip;
use crate::format::spec_encode_file_header;
use crate::error::DecodeError;
use crate::format::options_from_bytes;
use crate::format::spec_options_from_bytes;
use crate::format::Compression;
use crate::format::CrateVersion;
use crate::format::EncodingOptions;
use crate::format::Serializer;
use crate::format::FILE_HEADER_SIZE;
use crate::log_types::LogMsg;
use crate::log_types::LogMsgView;
use crate::log_types::SetStoreInfoView;
use crate::log_types::StoreInfoView;

verus! {

/// The region of the stream the decoder is waiting to complete.
///
/// `StreamHeader` is both the initial state and the state the machine
/// returns to after an end-of-sub-stream sentinel, so that another
/// concatenated sub-stream may follow.
#[derive(Clone, Copy, Debug, PartialEq, Eq, Structural)]
pub enum State {
    /// Awaiting the fixed-size stream header of a (possibly concatenated)
    /// sub-stream.
    StreamHeader,
    /// Awaiting the fixed-size header of the next frame.
    MessageHeader,
    /// Awaiting the payload of the frame whose header was just parsed.
    Message(MessageHeader),
}

/// Mathematical image of a [`StreamDecoder`]: the negotiated version and
/// options, every pushed byte not yet consumed, and the current state.
#[verifier::ext_equal]
pub struct StreamDecoderView {
    pub version: Option<CrateVersion>,
    pub options: EncodingOptions,
    pub bytes: Seq<u8>,
    pub state: State,
}

/// How many bytes the decoder needs to leave the given state.
pub open spec fn spec_state_target(s: State) -> int {
    match s {
        State::StreamHeader => FILE_HEADER_SIZE as int,
        State::MessageHeader => MESSAGE_HEADER_SIZE as int,
        State::Message(h) => h.len as int,
    }
}

/// Orders the states so that the one zero-byte transition — sentinel back
/// to stream header — strictly descends.
pub open spec fn spec_state_rank(s: State) -> int {
    match s {
        State::Message(_) => 1,
        _ => 0,
    }
}

/// A decoded store info announcement takes on the stream's negotiated
/// version, so that consumers need not track the header separately.
pub open spec fn spec_propagate(m: LogMsgView, version: Option<CrateVersion>) -> LogMsgView {
    match m {
        LogMsgView::SetStoreInfo(s) => LogMsgView::SetStoreInfo(
            SetStoreInfoView { info: StoreInfoView { store_version: version, ..s.info }, ..s },
        ),
        _ => m,
    }
}

/// What one call of `try_read` does: the decoder after the call, and what
/// the call returns.
///
/// Each state consumes its exact byte target once available, then either
/// hands back a message, surfaces an error, or steps on; too few bytes
/// suspend the machine unchanged with `Ok(None)`. Consumed bytes stay
/// consumed even when what they held was malformed: the stream is corrupt
/// from that point and the machine makes no attempt to resynchronize.
pub open spec fn spec_try_read(d: StreamDecoderView) -> (StreamDecoderView, Result<
    Option<LogMsgView>,
    DecodeError,
>)
    decreases d.bytes.len(), spec_state_rank(d.state),
{
    match d.state {
        State::StreamHeader => {
            if d.bytes.len() < FILE_HEADER_SIZE as int {
                (d, Ok(None))
            } else {
                let header = d.bytes.take(FILE_HEADER_SIZE as int);
                let rest = d.bytes.skip(FILE_HEADER_SIZE as int);
                match spec_options_from_bytes(header) {
                    Ok((version, options)) => spec_try_read(
                        StreamDecoderView {
                            version: Some(version),
                            options,
                            bytes: rest,
                            state: State::MessageHeader,
                        },
                    ),
                    Err(e) => (StreamDecoderView { bytes: rest, ..d }, Err(e)),
                }
            }
        },
        State::MessageHeader => {
            if d.bytes.len() < MESSAGE_HEADER_SIZE as int {
                (d, Ok(None))
            } else {
                let hb = d.bytes.take(MESSAGE_HEADER_SIZE as int);
                let rest = d.bytes.skip(MESSAGE_HEADER_SIZE as int);
                match spec_message_header_from_bytes(hb) {
                    Ok(h) => spec_try_read(
                        StreamDecoderView { bytes: rest, state: State::Message(h), ..d },
                    ),
                    Err(e) => (StreamDecoderView { bytes: rest, ..d }, Err(e)),
                }
            }
        },
        State::Message(h) => {
            if h.len as int > usize::MAX as int {
                (d, Err(DecodeError::MessageTooLarge(h.len)))
            } else if d.bytes.len() < h.len as int {
                (d, Ok(None))
            } else {
                let payload = d.bytes.take(h.len as int);
                let rest = d.bytes.skip(h.len as int);
                match spec_decode_app(h.kind, payload) {
                    Ok(Some(m)) => (
                        StreamDecoderView { bytes: rest, state: State::MessageHeader, ..d },
                        Ok(Some(spec_propagate(m, d.version))),
                    ),
                    Ok(None) => spec_try_read(
                        StreamDecoderView { bytes: rest, state: State::StreamHeader, ..d },
                    ),
                    Err(e) => (StreamDecoderView { bytes: rest, ..d }, Err(e)),
                }
            }
        },
    }
}

/// Pushing a chunk appends its bytes to the unconsumed stream; nothing
/// else about the decoder moves.
pub open spec fn spec_push_chunk(d: StreamDecoderView, chunk: Seq<u8>) -> StreamDecoderView {
    StreamDecoderView { bytes: d.bytes + chunk, ..d }
}

/// Chopping the incoming bytes differently cannot change what the decoder
/// does: pushing two chunks one after the other leaves the decoder exactly
/// where pushing their concatenation as one chunk does, so every reading
/// of the stream depends on the bytes alone, never on chunk boundaries.
pub proof fn lemma_fragmentation_invariance(d: StreamDecoderView, c1: Seq<u8>, c2: Seq<u8>)
    ensures
        spec_push_chunk(spec_push_chunk(d, c1), c2) == spec_push_chunk(d, c1 + c2),
        spec_try_read(spec_push_chunk(spec_push_chunk(d, c1), c2)) == spec_try_read(
            spec_push_chunk(d, c1 + c2),
        ),
{
    assert((d.bytes + c1) + c2 =~= d.bytes + (c1 + c2));
    assert(spec_push_chunk(spec_push_chunk(d, c1), c2) =~= spec_push_chunk(d, c1 + c2));
}

/// Pushing a zero-length chunk is a no-op in the strongest sense: the
/// decoder it leaves behind is the decoder it found.
pub proof fn lemma_empty_chunk_no_op(d: StreamDecoderView)
    ensures
        spec_push_chunk(d, Seq::<u8>::empty()) == d,
{
    assert(d.bytes + Seq::<u8>::empty() =~= d.bytes);
    assert(spec_push_chunk(d, Seq::<u8>::empty()) =~= d);
}

/// The stream decoder: a state machine over a [`ChunkBuffer`].
pub struct StreamDecoder {
    /// The version carried by the current sub-stream's header; `None`
    /// until the first header is parsed.
    version: Option<CrateVersion>,
    /// The options carried by the current sub-stream's header; an
    /// arbitrary default until then, replaced whole on each header.
    options: EncodingOptions,
    /// Incoming chunks wait here.
    chunks: ChunkBuffer,
    /// The region of the stream awaited next.
    state: State,
}

impl View for StreamDecoder {
    type V = StreamDecoderView;

    closed spec fn view(&self) -> StreamDecoderView {
        StreamDecoderView {
            version: self.version,
            options: self.options,
            bytes: self.chunks.buffered(),
            state: self.state,
        }
    }
}

impl StreamDecoder {
    /// The chunk buffer is sound, and any read in progress targets
    /// exactly what the current state needs.
    pub closed spec fn wf(&self) -> bool {
        &&& self.chunks.wf()
        &&& (self.chunks.fill() == 0 || self.chunks.target() == spec_state_target(self.state))
        &&& (self.chunks.fill() == 0 || spec_state_target(self.state) <= usize::MAX as int)
    }

    pub fn new() -> (r: StreamDecoder)
        ensures
            r.wf(),
            r@ == (StreamDecoderView {
                version: None,
                options: EncodingOptions {
                    compression: Compression::Off,
                    serializer: Serializer::Protobuf,
                },
                bytes: Seq::<u8>::empty(),
                state: State::StreamHeader,
            }),
    {
        let r = StreamDecoder {
            version: None,
            options: EncodingOptions::protobuf_uncompressed(),
            chunks: ChunkBuffer::new(),
            state: State::StreamHeader,
        };
        proof {
            assert(r@ =~= (StreamDecoderView {
                version: None,
                options: EncodingOptions {
                    compression: Compression::Off,
                    serializer: Serializer::Protobuf,
                },
                bytes: Seq::<u8>::empty(),
                state: State::StreamHeader,
            }));
        }
        r
    }

    /// Hands a chunk of the byte stream to the decoder. No parsing
    /// happens here; an empty chunk changes nothing at all.
    pub fn push_chunk(&mut self, chunk: Vec<u8>)
        requires
            old(self).wf(),
        ensures
            final(self).wf(),
            final(self)@ == spec_push_chunk(old(self)@, chunk@),
    {
        self.chunks.push(chunk);
        proof {
            assert(self@ =~= spec_push_chunk(old(self)@, chunk@));
        }
    }

    /// Attempts to produce one decoded message from the bytes pushed so
    /// far, advancing through as many states as those bytes cover; what
    /// it returns and what it leaves behind is exactly
    /// [`spec_try_read`] of the decoder it found.
    ///
    /// `Ok(None)` means "not yet": push more bytes and call again. Each
    /// call yields at most one message, in exactly the order the frames
    /// stand in the stream.
    pub fn try_read(&mut self) -> (r: Result<Option<LogMsg>, DecodeError>)
        requires
            old(self).wf(),
        ensures
            final(self).wf(),
            final(self)@ == spec_try_read(old(self)@).0,
            view_decoded(r) == spec_try_read(old(self)@).1,
    {
        let ghost d0 = self@;
        loop
            invariant
                self.wf(),
                d0 == old(self)@,
                spec_try_read(self@) == spec_try_read(d0),
            decreases self@.bytes.len(), spec_state_rank(self@.state),
        {
            let ghost d_iter = self@;
            match self.state {
                State::StreamHeader => {
                    let read = self.chunks.try_read(FILE_HEADER_SIZE);
                    match read {
                        Some(header) => {
                            match options_from_bytes(header) {
                                Ok((version, options)) => {
                                    self.version = Some(version);
                                    self.options = options;
                                    match options.serializer {
                                        Serializer::Protobuf => {
                                            self.state = State::MessageHeader;
                                        },
                                    }
                                    proof {
                                        assert(self@ =~= (StreamDecoderView {
                                            version: Some(version),
                                            options,
                                            bytes: d_iter.bytes.skip(FILE_HEADER_SIZE as int),
                                            state: State::MessageHeader,
                                        }));
                                    }
                                },
                                Err(e) => {
                                    proof {
                                        assert(self@ =~= (StreamDecoderView {
                                            bytes: d_iter.bytes.skip(FILE_HEADER_SIZE as int),
                                            ..d_iter
                                        }));
                                    }
                                    return Err(e);
                                },
                            }
                        },
                        None => {
                            return Ok(None);
                        },
                    }
                },
                State::MessageHeader => {
                    let read = self.chunks.try_read(MESSAGE_HEADER_SIZE);
                    match read {
                        Some(bytes) => {
                            match MessageHeader::from_bytes(bytes) {
                                Ok(header) => {
                                    self.state = State::Message(header);
                                    proof {
                                        assert(self@ =~= (StreamDecoderView {
                                            bytes: d_iter.bytes.skip(MESSAGE_HEADER_SIZE as int),
                                            state: State::Message(header),
                                            ..d_iter
                                        }));
                                    }
                                },
                                Err(e) => {
                                    proof {
                                        assert(self@ =~= (StreamDecoderView {
                                            bytes: d_iter.bytes.skip(MESSAGE_HEADER_SIZE as int),
                                            ..d_iter
                                        }));
                                    }
                                    return Err(e);
                                },
                            }
                        },
                        None => {
                            return Ok(None);
                        },
                    }
                },
                State::Message(header) => {
                    if header.len > usize::MAX as u64 {
                        return Err(DecodeError::MessageTooLarge(header.len));
                    }
                    let n = header.len as usize;
                    let read = self.chunks.try_read(n);
                    match read {
                        Some(bytes) => {
                            let decoded = decode_bytes_to_app(header.kind, bytes);
                            match decoded {
                                Ok(Some(mut message)) => {
                                    propagate_version(&mut message, self.version);
                                    self.state = State::MessageHeader;
                                    proof {
                                        assert(self@ =~= (StreamDecoderView {
                                            bytes: d_iter.bytes.skip(header.len as int),
                                            state: State::MessageHeader,
                                            ..d_iter
                                        }));
                                    }
                                    return Ok(Some(message));
                                },
                                Ok(None) => {
                                    self.state = State::StreamHeader;
                                    proof {
                                        assert(self@ =~= (StreamDecoderView {
                                            bytes: d_iter.bytes.skip(header.len as int),
                                            state: State::StreamHeader,
                                            ..d_iter
                                        }));
                                    }
                                },
                                Err(e) => {
                                    proof {
                                        assert(self@ =~= (StreamDecoderView {
                                            bytes: d_iter.bytes.skip(header.len as int),
                                            ..d_iter
                                        }));
                                    }
                                    return Err(e);
                                },
                            }
                        },
                        None => {
                            return Ok(None);
                        },
                    }
                },
            }
        }
    }
}

// ------------------------------------------------- draining a stream

/// Splitting a concatenation back into its two parts.
proof fn lemma_concat_take(x: Seq<u8>, y: Seq<u8>, n: int)
    requires
        0 <= n <= x.len(),
    ensures
        (x + y).take(n) == x.take(n),
        (x + y).skip(n) == x.skip(n) + y,
{
    assert((x + y).take(n) =~= x.take(n));
    assert((x + y).skip(n) =~= x.skip(n) + y);
}

/// A step that yields a message consumes at least one byte.
pub proof fn lemma_step_consumes(d: StreamDecoderView)
    ensures
        spec_try_read(d).1 matches Ok(Some(_)) ==> spec_try_read(d).0.bytes.len() < d.bytes.len(),
    decreases d.bytes.len(), spec_state_rank(d.state),
{
    match d.state {
        State::StreamHeader => {
            if d.bytes.len() >= FILE_HEADER_SIZE as int {
                match spec_options_from_bytes(d.bytes.take(FILE_HEADER_SIZE as int)) {
                    Ok((version, options)) => {
                        lemma_step_consumes(
                            StreamDecoderView {
                                version: Some(version),
                                options,
                                bytes: d.bytes.skip(FILE_HEADER_SIZE as int),
                                state: State::MessageHeader,
                            },
                        );
                    },
                    Err(_) => {},
                }
            }
        },
        State::MessageHeader => {
            if d.bytes.len() >= MESSAGE_HEADER_SIZE as int {
                match spec_message_header_from_bytes(d.bytes.take(MESSAGE_HEADER_SIZE as int)) {
                    Ok(h) => {
                        lemma_step_consumes(
                            StreamDecoderView {
                                bytes: d.bytes.skip(MESSAGE_HEADER_SIZE as int),
                                state: State::Message(h),
                                ..d
                            },
                        );
                    },
                    Err(_) => {},
                }
            }
        },
        State::Message(h) => {
            if h.len as int <= usize::MAX as int && d.bytes.len() >= h.len as int {
                match spec_decode_app(h.kind, d.bytes.take(h.len as int)) {
                    Ok(None) => {
                        lemma_step_consumes(
                            StreamDecoderView {
                                bytes: d.bytes.skip(h.len as int),
                                state: State::StreamHeader,
                                ..d
                            },
                        );
                    },
                    _ => {},
                }
            }
        },
    }
}

/// Every message the buffered bytes cover, in order: what repeated calls
/// of `try_read` hand back before they first report "not yet" or an
/// error.
pub open spec fn spec_drain(d: StreamDecoderView) -> Seq<LogMsgView>
    decreases d.bytes.len(),
    via spec_drain_decreases
{
    match spec_try_read(d).1 {
        Ok(Some(m)) => seq![m] + spec_drain(spec_try_read(d).0),
        _ => Seq::empty(),
    }
}

#[via_fn]
proof fn spec_drain_decreases(d: StreamDecoderView) {
    lemma_step_consumes(d);
}

/// A message whose frame can stand in a stream: its length fields fit
/// their `u64` prefixes and its payload fits this machine's buffers.
/// Every message built at run time satisfies this.
pub open spec fn wf_frame(m: LogMsgView) -> bool {
    &&& wf_log_msg(m)
    &&& spec_encode_payload(m).len() <= usize::MAX as int
}

/// The message as the decoder returns it from a sub-stream of the given
/// version.
pub open spec fn spec_with_version(m: LogMsgView, version: CrateVersion) -> LogMsgView {
    spec_propagate(m, Some(version))
}

/// Draining a run of frames yields exactly their messages, each carrying
/// the sub-stream's version, and then whatever the bytes after the end
/// frame yield.
#[verifier::rlimit(100)]
#[verifier::spinoff_prover]
proof fn lemma_drain_frames(
    version: CrateVersion,
    options: EncodingOptions,
    msgs: Seq<LogMsgView>,
    tail: Seq<u8>,
)
    requires
        forall|i: int| 0 <= i < msgs.len() ==> wf_frame(#[trigger] msgs[i]),
    ensures
        spec_drain(
            StreamDecoderView {
                version: Some(version),
                options,
                bytes: spec_encode_frames(msgs) + (spec_end_frame() + tail),
                state: State::MessageHeader,
            },
        ) == msgs.map_values(|m: LogMsgView| spec_with_version(m, version)) + spec_drain(
            StreamDecoderView {
                version: Some(version),
                options,
                bytes: tail,
                state: State::StreamHeader,
            },
        ),
    decreases msgs.len(),
{
    let end_header = MessageHeader { kind: MessageKind::End, len: 0 };
    lemma_message_header_roundtrip(end_header);
    let b = spec_encode_frames(msgs) + (spec_end_frame() + tail);
    let d = StreamDecoderView {
        version: Some(version),
        options,
        bytes: b,
        state: State::MessageHeader,
    };
    let d_tail = StreamDecoderView {
        version: Some(version),
        options,
        bytes: tail,
        state: State::StreamHeader,
    };
    if msgs.len() == 0 {
        assert(b =~= spec_end_frame() + tail);
        lemma_concat_take(spec_end_frame(), tail, MESSAGE_HEADER_SIZE as int);
        assert(b.take(MESSAGE_HEADER_SIZE as int) =~= spec_end_frame());
        assert(spec_message_header_from_bytes(b.take(MESSAGE_HEADER_SIZE as int)) == Ok::<
            MessageHeader,
            DecodeError,
        >(end_header));
        let rest = b.skip(MESSAGE_HEADER_SIZE as int);
        assert(rest =~= tail);
        let d2 = StreamDecoderView { bytes: rest, state: State::Message(end_header), ..d };
        assert(spec_try_read(d) == spec_try_read(d2));
        assert(rest.take(0) =~= Seq::<u8>::empty());
        assert(spec_decode_app(MessageKind::End, rest.take(0)) == Ok::<
            Option<LogMsgView>,
            DecodeError,
        >(None));
        let d3 = StreamDecoderView { bytes: rest.skip(0), state: State::StreamHeader, ..d2 };
        assert(spec_try_read(d2) == spec_try_read(d3));
        assert(rest.skip(0) =~= tail);
        assert(d3 =~= d_tail);
        assert(spec_drain(d) == spec_drain(d_tail));
        assert(msgs.map_values(|m: LogMsgView| spec_with_version(m, version)) =~= Seq::<
            LogMsgView,
        >::empty());
        assert(msgs.map_values(|m: LogMsgView| spec_with_version(m, version)) + spec_drain(d_tail)
            =~= spec_drain(d_tail));
    } else {
        let m0 = msgs[0];
        let rest_msgs = msgs.skip(1);
        assert(wf_frame(m0));
        let payload = spec_encode_payload(m0);
        let hdr = MessageHeader { kind: spec_kind_of(m0), len: payload.len() as u64 };
        lemma_message_header_roundtrip(hdr);
        let hb = spec_encode_message_header(hdr);
        let frames_rest = spec_encode_frames(rest_msgs);
        let after = spec_end_frame() + tail;
        assert(spec_encode_frames(msgs) == spec_encode_frame(m0) + frames_rest);
        assert(spec_encode_frame(m0) == hb + payload);
        // Peel the message header off the front.
        assert(b =~= hb + (payload + (frames_rest + after)));
        lemma_concat_take(hb, payload + (frames_rest + after), MESSAGE_HEADER_SIZE as int);
        assert(b.take(MESSAGE_HEADER_SIZE as int) =~= hb);
        let rest1 = b.skip(MESSAGE_HEADER_SIZE as int);
        assert(rest1 =~= payload + (frames_rest + after));
        assert(spec_message_header_from_bytes(b.take(MESSAGE_HEADER_SIZE as int)) == Ok::<
            MessageHeader,
            DecodeError,
        >(hdr));
        let d2 = StreamDecoderView { bytes: rest1, state: State::Message(hdr), ..d };
        assert(spec_try_read(d) == spec_try_read(d2));
        // Peel the payload off.
        lemma_concat_take(payload, frames_rest + after, payload.len() as int);
        assert(rest1.take(hdr.len as int) =~= payload);
        let rest2 = rest1.skip(hdr.len as int);
        assert(rest2 =~= frames_rest + after);
        lemma_decode_encoded_payload(m0);
        assert(spec_decode_app(hdr.kind, rest1.take(hdr.len as int)) == Ok::<
            Option<LogMsgView>,
            DecodeError,
        >(Some(clear_version_msg(m0))));
        let d3 = StreamDecoderView { bytes: rest2, state: State::MessageHeader, ..d2 };
        let produced = spec_propagate(clear_version_msg(m0), Some(version));
        assert(spec_try_read(d2) == (d3, Ok::<Option<LogMsgView>, DecodeError>(Some(produced))));
        assert(produced == spec_with_version(m0, version));
        // One message out; the rest by induction.
        assert(spec_drain(d) == seq![produced] + spec_drain(d3));
        assert forall|i: int| 0 <= i < rest_msgs.len() implies wf_frame(#[trigger] rest_msgs[i]) by {
            assert(rest_msgs[i] == msgs[i + 1]);
        }
        lemma_drain_frames(version, options, rest_msgs, tail);
        let d3_named = StreamDecoderView {
            version: Some(version),
            options,
            bytes: frames_rest + (spec_end_frame() + tail),
            state: State::MessageHeader,
        };
        assert(rest2 =~= frames_rest + (spec_end_frame() + tail));
        assert(d3 =~= d3_named);
        let f = |m: LogMsgView| spec_with_version(m, version);
        assert(msgs.map_values(f) =~= seq![produced] + rest_msgs.map_values(f));
        assert(seq![produced] + (rest_msgs.map_values(f) + spec_drain(d_tail)) =~= msgs.map_values(
            f,
        ) + spec_drain(d_tail));
    }
}

/// Draining one whole encoded sub-stream yields its messages, each
/// carrying the sub-stream's version, whatever the decoder's version and
/// options were before its header was read; what follows the sub-stream
/// is drained from a fresh stream-header state.
proof fn lemma_drain_stream(
    d0: StreamDecoderView,
    version: CrateVersion,
    options: EncodingOptions,
    msgs: Seq<LogMsgView>,
    tail: Seq<u8>,
)
    requires
        forall|i: int| 0 <= i < msgs.len() ==> wf_frame(#[trigger] msgs[i]),
        d0.state == State::StreamHeader,
        d0.bytes == spec_encode_stream(version, options, msgs) + tail,
    ensures
        spec_drain(d0) == msgs.map_values(|m: LogMsgView| spec_with_version(m, version))
            + spec_drain(
            StreamDecoderView {
                version: Some(version),
                options,
                bytes: tail,
                state: State::StreamHeader,
            },
        ),
{
    let fh = spec_encode_file_header(version, options);
    let fe = spec_encode_frames(msgs) + spec_end_frame();
    assert(fh.len() == FILE_HEADER_SIZE as int);
    assert(d0.bytes =~= fh + (fe + tail));
    lemma_concat_take(fh, fe + tail, FILE_HEADER_SIZE as int);
    assert(d0.bytes.take(FILE_HEADER_SIZE as int) =~= fh);
    lemma_file_header_roundtrip(version, options);
    assert(spec_options_from_bytes(d0.bytes.take(FILE_HEADER_SIZE as int)) == Ok::<
        (CrateVersion, EncodingOptions),
        DecodeError,
    >((version, options)));
    let rest = d0.bytes.skip(FILE_HEADER_SIZE as int);
    assert(rest =~= fe + tail);
    let d1 = StreamDecoderView {
        version: Some(version),
        options,
        bytes: rest,
        state: State::MessageHeader,
    };
    assert(spec_try_read(d0) == spec_try_read(d1));
    assert(spec_drain(d0) == spec_drain(d1));
    let d1_named = StreamDecoderView {
        version: Some(version),
        options,
        bytes: spec_encode_frames(msgs) + (spec_end_frame() + tail),
        state: State::MessageHeader,
    };
    assert(rest =~= spec_encode_frames(msgs) + (spec_end_frame() + tail));
    assert(d1 =~= d1_named);
    lemma_drain_frames(version, options, msgs, tail);
}

/// Decoding one whole valid encoded stream, however it is later chopped
/// into chunks, yields exactly the messages that were encoded, in order,
/// each carrying the stream's version.
pub proof fn lemma_single_stream(
    d0: StreamDecoderView,
    version: CrateVersion,
    options: EncodingOptions,
    msgs: Seq<LogMsgView>,
)
    requires
        forall|i: int| 0 <= i < msgs.len() ==> wf_frame(#[trigger] msgs[i]),
        d0.state == State::StreamHeader,
        d0.bytes == spec_encode_stream(version, options, msgs),
    ensures
        spec_drain(d0) == msgs.map_values(|m: LogMsgView| spec_with_version(m, version)),
{
    assert(d0.bytes =~= spec_encode_stream(version, options, msgs) + Seq::<u8>::empty());
    lemma_drain_stream(d0, version, options, msgs, Seq::<u8>::empty());
    let d_last = StreamDecoderView {
        version: Some(version),
        options,
        bytes: Seq::<u8>::empty(),
        state: State::StreamHeader,
    };
    assert(spec_try_read(d_last).1 == Ok::<Option<LogMsgView>, DecodeError>(None));
    assert(spec_drain(d_last) =~= Seq::<LogMsgView>::empty());
    assert(msgs.map_values(|m: LogMsgView| spec_with_version(m, version)) + spec_drain(d_last)
        =~= msgs.map_values(|m: LogMsgView| spec_with_version(m, version)));
}

/// Concatenation: two independently encoded sub-streams, laid back to
/// back in front of a fresh decoder, drain to exactly the first stream's
/// messages and then the second's, in order, each message carrying its
/// own sub-stream's version.
pub proof fn lemma_concatenated_streams(
    d0: StreamDecoderView,
    v1: CrateVersion,
    o1: EncodingOptions,
    msgs1: Seq<LogMsgView>,
    v2: CrateVersion,
    o2: EncodingOptions,
    msgs2: Seq<LogMsgView>,
)
    requires
        forall|i: int| 0 <= i < msgs1.len() ==> wf_frame(#[trigger] msgs1[i]),
        forall|i: int| 0 <= i < msgs2.len() ==> wf_frame(#[trigger] msgs2[i]),
        d0.state == State::StreamHeader,
        d0.bytes == spec_encode_stream(v1, o1, msgs1) + spec_encode_stream(v2, o2, msgs2),
    ensures
        spec_drain(d0) == msgs1.map_values(|m: LogMsgView| spec_with_version(m, v1))
            + msgs2.map_values(|m: LogMsgView| spec_with_version(m, v2)),
{
    lemma_drain_stream(d0, v1, o1, msgs1, spec_encode_stream(v2, o2, msgs2));
    let d_mid = StreamDecoderView {
        version: Some(v1),
        options: o1,
        bytes: spec_encode_stream(v2, o2, msgs2),
        state: State::StreamHeader,
    };
    assert(d_mid.bytes =~= spec_encode_stream(v2, o2, msgs2) + Seq::<u8>::empty());
    lemma_drain_stream(d_mid, v2, o2, msgs2, Seq::<u8>::empty());
    let d_last = StreamDecoderView {
        version: Some(v2),
        options: o2,
        bytes: Seq::<u8>::empty(),
        state: State::StreamHeader,
    };
    assert(spec_try_read(d_last).1 == Ok::<Option<LogMsgView>, DecodeError>(None));
    assert(spec_drain(d_last) =~= Seq::<LogMsgView>::empty());
    assert(msgs2.map_values(|m: LogMsgView| spec_with_version(m, v2)) + spec_drain(d_last)
        =~= msgs2.map_values(|m: LogMsgView| spec_with_version(m, v2)));
}

/// Overwrites the version field of a store info announcement with the
/// stream's negotiated version; other messages pass through untouched.
fn propagate_version(message: &mut LogMsg, version: Option<CrateVersion>)
    ensures
        final(message)@ == spec_propagate(old(message)@, version),
{
    match message {
        LogMsg::SetStoreInfo(msg) => {
            msg.info.store_version = version;
            proof {
                assert(message@ =~= spec_propagate(old(message)@, version));
            }
        },
        _ => {
            proof {
                assert(message@ =~= spec_propagate(old(message)@, version));
            }
        },
    }
}

} // verus!
