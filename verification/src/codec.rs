//! Frames: the fixed-size message header, and the payload codec that turns
//! a frame's payload bytes into one application message.
//!
//! A frame is a sixteen-byte header — a message-kind tag and a payload
//! length, both little-endian `u64` — followed by exactly that many bytes
//! of payload. A frame of the `End` kind closes a sub-stream.

use vstd::prelude::*;

use crate::error::CodecError;
use crate::error::DecodeError;
use crate::log_types::ArrowMsg;
use crate::log_types::ArrowMsgView;
use crate::log_types::BlueprintActivationCommand;
use crate::log_types::BlueprintActivationCommandView;
use crate::log_types::LogMsg;
use crate::log_types::LogMsgView;
use crate::log_types::StoreId;
use crate::log_types::StoreIdView;
use crate::payload::clear_version;
use crate::payload::e_set_store_info;
use crate::payload::e_store_id;
use crate::payload::e_tuid;
use crate::payload::lemma_read_set_store_info;
use crate::payload::lemma_read_store_id;
use crate::payload::lemma_read_tuid;
use crate::payload::lemma_split2;
use crate::payload::p_set_store_info;
use crate::payload::p_store_id;
use crate::payload::p_tuid;
use crate::payload::read_set_store_info;
use crate::payload::read_store_id;
use crate::payload::read_tuid;
use crate::payload::u64_bound;
use crate::payload::wf_set_store_info;
use crate::payload::wf_store_id;
use crate::payload::write_set_store_info;
use crate::payload::write_store_id;
use crate::payload::write_tuid;
use crate::wire::e_bool;
use crate::wire::e_raw;
use crate::wire::e_u64;
use crate::wire::lemma_read_bool;
use crate::wire::lemma_read_raw;
use crate::wire::p_bool;
use crate::wire::p_raw;
use crate::wire::read_bool;
use crate::wire::read_raw;
use crate::wire::read_u64;
use crate::wire::write_bool;
use crate::wire::write_raw;
use crate::wire::write_u64;

verus! {

/// The kind tag of one frame.
#[derive(Clone, Copy, Debug, PartialEq, Eq, Structural)]
pub enum MessageKind {
    /// End of a sub-stream: no message follows, but a fresh sub-stream
    /// may.
    End,
    SetStoreInfo,
    ArrowMsg,
    BlueprintActivationCommand,
}

/// The kind tag as it stands on the wire.
pub open spec fn spec_kind_code(k: MessageKind) -> u64 {
    match k {
        MessageKind::End => 0,
        MessageKind::SetStoreInfo => 1,
        MessageKind::ArrowMsg => 2,
        MessageKind::BlueprintActivationCommand => 3,
    }
}

pub open spec fn spec_kind_from_code(x: u64) -> Result<MessageKind, DecodeError> {
    if x == 0 {
        Ok(MessageKind::End)
    } else if x == 1 {
        Ok(MessageKind::SetStoreInfo)
    } else if x == 2 {
        Ok(MessageKind::ArrowMsg)
    } else if x == 3 {
        Ok(MessageKind::BlueprintActivationCommand)
    } else {
        Err(DecodeError::UnknownMessageKind(x))
    }
}

/// The fixed-size header of one frame: its kind and the byte length of the
/// payload that follows (the header itself not counted).
#[derive(Clone, Copy, Debug, PartialEq, Eq, Structural)]
pub struct MessageHeader {
    pub kind: MessageKind,
    pub len: u64,
}

/// Byte length of a message header on the wire.
pub const MESSAGE_HEADER_SIZE: usize = 16;

pub open spec fn spec_encode_message_header(h: MessageHeader) -> Seq<u8> {
    e_u64(spec_kind_code(h.kind)) + e_u64(h.len)
}

pub open spec fn spec_message_header_from_bytes(b: Seq<u8>) -> Result<MessageHeader, DecodeError>
    recommends
        b.len() == MESSAGE_HEADER_SIZE,
{
    match spec_kind_from_code(vstd::bytes::spec_u64_from_le_bytes(b.subrange(0, 8))) {
        Ok(kind) => Ok(
            MessageHeader { kind, len: vstd::bytes::spec_u64_from_le_bytes(b.subrange(8, 16)) },
        ),
        Err(e) => Err(e),
    }
}

impl MessageHeader {
    /// Parses the sixteen header bytes: kind tag, then payload length.
    pub fn from_bytes(data: &[u8]) -> (r: Result<MessageHeader, DecodeError>)
        requires
            data@.len() == MESSAGE_HEADER_SIZE,
        ensures
            r == spec_message_header_from_bytes(data@),
    {
        let code = match read_u64(data, 0) {
            Ok(p) => p.0,
            Err(_) => {
                // sixteen bytes are required, so the read cannot fall short
                proof {
                    assert(false);
                }
                return Err(DecodeError::UnknownMessageKind(0));
            },
        };
        let len = match read_u64(data, 8) {
            Ok(p) => p.0,
            Err(_) => {
                // sixteen bytes are required, so the read cannot fall short
                proof {
                    assert(false);
                }
                return Err(DecodeError::UnknownMessageKind(0));
            },
        };
        let kind = if code == 0 {
            MessageKind::End
        } else if code == 1 {
            MessageKind::SetStoreInfo
        } else if code == 2 {
            MessageKind::ArrowMsg
        } else if code == 3 {
            MessageKind::BlueprintActivationCommand
        } else {
            return Err(DecodeError::UnknownMessageKind(code));
        };
        Ok(MessageHeader { kind, len })
    }

    /// Writes the sixteen header bytes.
    pub fn to_bytes(&self) -> (r: Vec<u8>)
        ensures
            r@ == spec_encode_message_header(*self),
    {
        let code: u64 = match self.kind {
            MessageKind::End => 0,
            MessageKind::SetStoreInfo => 1,
            MessageKind::ArrowMsg => 2,
            MessageKind::BlueprintActivationCommand => 3,
        };
        let mut out: Vec<u8> = Vec::new();
        write_u64(&mut out, code);
        write_u64(&mut out, self.len);
        proof {
            assert(out@ =~= spec_encode_message_header(*self));
        }
        out
    }
}

/// A written message header parses back to itself.
pub proof fn lemma_message_header_roundtrip(h: MessageHeader)
    ensures
        spec_encode_message_header(h).len() == MESSAGE_HEADER_SIZE,
        spec_message_header_from_bytes(spec_encode_message_header(h)) == Ok::<
            MessageHeader,
            DecodeError,
        >(h),
{
    vstd::bytes::lemma_auto_spec_u64_to_from_le_bytes();
    let b = spec_encode_message_header(h);
    assert(b.subrange(0, 8) =~= e_u64(spec_kind_code(h.kind)));
    assert(b.subrange(8, 16) =~= e_u64(h.len));
}

// ------------------------------------------------- payload: ArrowMsg

pub open spec fn p_arrow_payload(b: Seq<u8>, i: int) -> Result<
    ((StoreIdView, ArrowMsgView), int),
    CodecError,
> {
    match p_store_id(b, i) {
        Ok((store_id, j)) => match p_tuid(b, j) {
            Ok((chunk_id, k)) => match p_raw(b, k) {
                Ok((batch, l)) => Ok(((store_id, ArrowMsgView { chunk_id, batch }), l)),
                Err(e) => Err(e),
            },
            Err(e) => Err(e),
        },
        Err(e) => Err(e),
    }
}

pub open spec fn e_arrow_payload(store_id: StoreIdView, a: ArrowMsgView) -> Seq<u8> {
    e_store_id(store_id) + (e_tuid(a.chunk_id) + e_raw(a.batch))
}

pub open spec fn wf_arrow_payload(store_id: StoreIdView, a: ArrowMsgView) -> bool {
    wf_store_id(store_id) && a.batch.len() < u64_bound()
}

pub proof fn lemma_read_arrow_payload(b: Seq<u8>, i: int, store_id: StoreIdView, a: ArrowMsgView)
    requires
        0 <= i,
        wf_arrow_payload(store_id, a),
        i + e_arrow_payload(store_id, a).len() <= b.len(),
        b.subrange(i, i + e_arrow_payload(store_id, a).len()) == e_arrow_payload(store_id, a),
    ensures
        p_arrow_payload(b, i) == Ok::<((StoreIdView, ArrowMsgView), int), CodecError>(
            ((store_id, a), i + e_arrow_payload(store_id, a).len()),
        ),
{
    let es = e_store_id(store_id);
    let et = e_tuid(a.chunk_id);
    let er = e_raw(a.batch);
    lemma_split2(b, i, es, et + er);
    lemma_split2(b, i + es.len(), et, er);
    lemma_read_store_id(b, i, store_id);
    lemma_read_tuid(b, i + es.len(), a.chunk_id);
    lemma_read_raw(b, i + es.len() + et.len(), a.batch);
    assert(p_arrow_payload(b, i) matches Ok(p) && p.0.1 =~= a);
}

// ------------------------------ payload: BlueprintActivationCommand

pub open spec fn p_blueprint_payload(b: Seq<u8>, i: int) -> Result<
    (BlueprintActivationCommandView, int),
    CodecError,
> {
    match p_store_id(b, i) {
        Ok((blueprint_id, j)) => match p_bool(b, j) {
            Ok((make_active, k)) => match p_bool(b, k) {
                Ok((make_default, l)) => Ok(
                    (
                        BlueprintActivationCommandView { blueprint_id, make_active, make_default },
                        l,
                    ),
                ),
                Err(e) => Err(e),
            },
            Err(e) => Err(e),
        },
        Err(e) => Err(e),
    }
}

pub open spec fn e_blueprint_payload(v: BlueprintActivationCommandView) -> Seq<u8> {
    e_store_id(v.blueprint_id) + (e_bool(v.make_active) + e_bool(v.make_default))
}

pub open spec fn wf_blueprint_payload(v: BlueprintActivationCommandView) -> bool {
    wf_store_id(v.blueprint_id)
}

pub proof fn lemma_read_blueprint_payload(b: Seq<u8>, i: int, v: BlueprintActivationCommandView)
    requires
        0 <= i,
        wf_blueprint_payload(v),
        i + e_blueprint_payload(v).len() <= b.len(),
        b.subrange(i, i + e_blueprint_payload(v).len()) == e_blueprint_payload(v),
    ensures
        p_blueprint_payload(b, i) == Ok::<(BlueprintActivationCommandView, int), CodecError>(
            (v, i + e_blueprint_payload(v).len()),
        ),
{
    let es = e_store_id(v.blueprint_id);
    let ea = e_bool(v.make_active);
    let ed = e_bool(v.make_default);
    lemma_split2(b, i, es, ea + ed);
    lemma_split2(b, i + es.len(), ea, ed);
    lemma_read_store_id(b, i, v.blueprint_id);
    lemma_read_bool(b, i + es.len(), v.make_active);
    lemma_read_bool(b, i + es.len() + 1, v.make_default);
    assert(p_blueprint_payload(b, i) matches Ok(p) && p.0 =~= v);
}

// ----------------------------------------------------- whole payload

/// Decodes a frame's payload bytes into one message of the given kind.
///
/// `Ok(None)` is the end-of-sub-stream sentinel, carried by an empty
/// payload of the `End` kind. A payload longer than the message it
/// encodes is malformed.
pub open spec fn spec_decode_app(kind: MessageKind, b: Seq<u8>) -> Result<
    Option<LogMsgView>,
    DecodeError,
> {
    match kind {
        MessageKind::End => if b.len() == 0 {
            Ok(None)
        } else {
            Err(DecodeError::Codec(CodecError::TrailingBytes))
        },
        MessageKind::SetStoreInfo => match p_set_store_info(b, 0) {
            Ok((v, j)) => if j == b.len() {
                Ok(Some(LogMsgView::SetStoreInfo(v)))
            } else {
                Err(DecodeError::Codec(CodecError::TrailingBytes))
            },
            Err(e) => Err(DecodeError::Codec(e)),
        },
        MessageKind::ArrowMsg => match p_arrow_payload(b, 0) {
            Ok(((store_id, a), j)) => if j == b.len() {
                Ok(Some(LogMsgView::ArrowMsg(store_id, a)))
            } else {
                Err(DecodeError::Codec(CodecError::TrailingBytes))
            },
            Err(e) => Err(DecodeError::Codec(e)),
        },
        MessageKind::BlueprintActivationCommand => match p_blueprint_payload(b, 0) {
            Ok((v, j)) => if j == b.len() {
                Ok(Some(LogMsgView::BlueprintActivationCommand(v)))
            } else {
                Err(DecodeError::Codec(CodecError::TrailingBytes))
            },
            Err(e) => Err(DecodeError::Codec(e)),
        },
    }
}

/// The view of a decoded result, for stating contracts of the executable
/// decoder.
pub open spec fn view_decoded(r: Result<Option<LogMsg>, DecodeError>) -> Result<
    Option<LogMsgView>,
    DecodeError,
> {
    match r {
        Ok(Some(m)) => Ok(Some(m@)),
        Ok(None) => Ok(None),
        Err(e) => Err(e),
    }
}

/// Decodes a frame's payload into one message of the given kind, exactly
/// as [`spec_decode_app`] lays out.
pub fn decode_bytes_to_app(kind: MessageKind, bytes: &[u8]) -> (r: Result<
    Option<LogMsg>,
    DecodeError,
>)
    ensures
        view_decoded(r) == spec_decode_app(kind, bytes@),
{
    match kind {
        MessageKind::End => {
            if bytes.len() == 0 {
                Ok(None)
            } else {
                Err(DecodeError::Codec(CodecError::TrailingBytes))
            }
        },
        MessageKind::SetStoreInfo => {
            let (v, j) = match read_set_store_info(bytes, 0) {
                Ok(p) => p,
                Err(e) => {
                    return Err(DecodeError::Codec(e));
                },
            };
            if j == bytes.len() {
                Ok(Some(LogMsg::SetStoreInfo(v)))
            } else {
                Err(DecodeError::Codec(CodecError::TrailingBytes))
            }
        },
        MessageKind::ArrowMsg => {
            let (store_id, j) = match read_store_id(bytes, 0) {
                Ok(p) => p,
                Err(e) => {
                    return Err(DecodeError::Codec(e));
                },
            };
            let (chunk_id, k) = match read_tuid(bytes, j) {
                Ok(p) => p,
                Err(e) => {
                    return Err(DecodeError::Codec(e));
                },
            };
            let (batch, l) = match read_raw(bytes, k) {
                Ok(p) => p,
                Err(e) => {
                    return Err(DecodeError::Codec(e));
                },
            };
            if l == bytes.len() {
                Ok(Some(LogMsg::ArrowMsg(store_id, ArrowMsg { chunk_id, batch })))
            } else {
                Err(DecodeError::Codec(CodecError::TrailingBytes))
            }
        },
        MessageKind::BlueprintActivationCommand => {
            let (blueprint_id, j) = match read_store_id(bytes, 0) {
                Ok(p) => p,
                Err(e) => {
                    return Err(DecodeError::Codec(e));
                },
            };
            let (make_active, k) = match read_bool(bytes, j) {
                Ok(p) => p,
                Err(e) => {
                    return Err(DecodeError::Codec(e));
                },
            };
            let (make_default, l) = match read_bool(bytes, k) {
                Ok(p) => p,
                Err(e) => {
                    return Err(DecodeError::Codec(e));
                },
            };
            if l == bytes.len() {
                Ok(
                    Some(
                        LogMsg::BlueprintActivationCommand(
                            BlueprintActivationCommand { blueprint_id, make_active, make_default },
                        ),
                    ),
                )
            } else {
                Err(DecodeError::Codec(CodecError::TrailingBytes))
            }
        },
    }
}

// ---------------------------------------------------------- encoding

/// The frame kind that carries a given message.
pub open spec fn spec_kind_of(m: LogMsgView) -> MessageKind {
    match m {
        LogMsgView::SetStoreInfo(_) => MessageKind::SetStoreInfo,
        LogMsgView::ArrowMsg(_, _) => MessageKind::ArrowMsg,
        LogMsgView::BlueprintActivationCommand(_) => MessageKind::BlueprintActivationCommand,
    }
}

/// The payload bytes of a message.
pub open spec fn spec_encode_payload(m: LogMsgView) -> Seq<u8> {
    match m {
        LogMsgView::SetStoreInfo(v) => e_set_store_info(v),
        LogMsgView::ArrowMsg(store_id, a) => e_arrow_payload(store_id, a),
        LogMsgView::BlueprintActivationCommand(v) => e_blueprint_payload(v),
    }
}

/// The length fields of a message all fit their `u64` prefixes. Every
/// value built at run time satisfies this; it matters only for statements
/// about arbitrary mathematical values.
pub open spec fn wf_log_msg(m: LogMsgView) -> bool {
    match m {
        LogMsgView::SetStoreInfo(v) => wf_set_store_info(v),
        LogMsgView::ArrowMsg(store_id, a) => wf_arrow_payload(store_id, a),
        LogMsgView::BlueprintActivationCommand(v) => wf_blueprint_payload(v),
    }
}

/// The message as the decoder returns it before version propagation: a
/// store info announcement comes off the wire with no stream version.
pub open spec fn clear_version_msg(m: LogMsgView) -> LogMsgView {
    match m {
        LogMsgView::SetStoreInfo(v) => LogMsgView::SetStoreInfo(clear_version(v)),
        _ => m,
    }
}

/// Writes the payload bytes of a message.
pub fn encode_payload(m: &LogMsg) -> (r: Vec<u8>)
    ensures
        r@ == spec_encode_payload(m@),
{
    let mut out: Vec<u8> = Vec::new();
    match m {
        LogMsg::SetStoreInfo(v) => {
            write_set_store_info(&mut out, v);
        },
        LogMsg::ArrowMsg(store_id, a) => {
            write_store_id(&mut out, store_id);
            write_tuid(&mut out, &a.chunk_id);
            write_raw(&mut out, a.batch.as_slice());
            proof {
                assert(out@ =~= spec_encode_payload(m@));
            }
        },
        LogMsg::BlueprintActivationCommand(v) => {
            write_store_id(&mut out, &v.blueprint_id);
            write_bool(&mut out, v.make_active);
            write_bool(&mut out, v.make_default);
            proof {
                assert(out@ =~= spec_encode_payload(m@));
            }
        },
    }
    proof {
        assert(out@ =~= spec_encode_payload(m@));
    }
    out
}

/// A message's payload decodes back to the message, with the stream
/// version of a store info announcement cleared: that field never
/// travels in the payload, the decoder fills it from the stream header.
pub proof fn lemma_decode_encoded_payload(m: LogMsgView)
    requires
        wf_log_msg(m),
    ensures
        spec_decode_app(spec_kind_of(m), spec_encode_payload(m)) == Ok::<
            Option<LogMsgView>,
            DecodeError,
        >(Some(clear_version_msg(m))),
{
    let b = spec_encode_payload(m);
    assert(b.subrange(0, b.len() as int) =~= b);
    match m {
        LogMsgView::SetStoreInfo(v) => {
            lemma_read_set_store_info(b, 0, v);
        },
        LogMsgView::ArrowMsg(store_id, a) => {
            lemma_read_arrow_payload(b, 0, store_id, a);
        },
        LogMsgView::BlueprintActivationCommand(v) => {
            lemma_read_blueprint_payload(b, 0, v);
        },
    }
}

// ------------------------------------------------------------- frames

/// A frame: the message header, then exactly `len` payload bytes.
pub open spec fn spec_encode_frame(m: LogMsgView) -> Seq<u8> {
    spec_encode_message_header(
        MessageHeader { kind: spec_kind_of(m), len: spec_encode_payload(m).len() as u64 },
    ) + spec_encode_payload(m)
}

/// The sixteen bytes closing a sub-stream: an `End` frame with an empty
/// payload.
pub open spec fn spec_end_frame() -> Seq<u8> {
    spec_encode_message_header(MessageHeader { kind: MessageKind::End, len: 0 })
}

/// The frames of a message list, laid back to back.
pub open spec fn spec_encode_frames(msgs: Seq<LogMsgView>) -> Seq<u8>
    decreases msgs.len(),
{
    if msgs.len() == 0 {
        Seq::empty()
    } else {
        spec_encode_frame(msgs[0]) + spec_encode_frames(msgs.skip(1))
    }
}

/// One whole sub-stream: stream header, frames, end frame.
pub open spec fn spec_encode_stream(
    version: crate::format::CrateVersion,
    options: crate::format::EncodingOptions,
    msgs: Seq<LogMsgView>,
) -> Seq<u8> {
    crate::format::spec_encode_file_header(version, options) + (spec_encode_frames(msgs)
        + spec_end_frame())
}

/// The views of a list of messages.
pub open spec fn view_msgs(msgs: Seq<LogMsg>) -> Seq<LogMsgView> {
    msgs.map_values(|m: LogMsg| m@)
}

/// Appending one message appends its frame.
pub proof fn lemma_encode_frames_push(msgs: Seq<LogMsgView>, m: LogMsgView)
    ensures
        spec_encode_frames(msgs.push(m)) == spec_encode_frames(msgs) + spec_encode_frame(m),
    decreases msgs.len(),
{
    if msgs.len() == 0 {
        assert(msgs.push(m)[0] == m);
        assert(msgs.push(m).skip(1) =~= msgs);
        assert(spec_encode_frames(msgs) == Seq::<u8>::empty());
        assert(spec_encode_frames(msgs.push(m)) == spec_encode_frame(m) + spec_encode_frames(
            msgs,
        ));
        assert(spec_encode_frames(msgs.push(m)) =~= spec_encode_frames(msgs) + spec_encode_frame(
            m,
        ));
    } else {
        assert(msgs.push(m)[0] == msgs[0]);
        assert(spec_encode_frames(msgs.push(m)) == spec_encode_frame(msgs[0])
            + spec_encode_frames(msgs.push(m).skip(1)));
        assert(msgs.push(m).skip(1) =~= msgs.skip(1).push(m));
        lemma_encode_frames_push(msgs.skip(1), m);
        assert(spec_encode_frames(msgs) == spec_encode_frame(msgs[0]) + spec_encode_frames(
            msgs.skip(1),
        ));
        assert(spec_encode_frame(msgs[0]) + (spec_encode_frames(msgs.skip(1)) + spec_encode_frame(
            m,
        )) =~= (spec_encode_frame(msgs[0]) + spec_encode_frames(msgs.skip(1))) + spec_encode_frame(
            m,
        ));
    }
}

/// Writes one frame: header, then payload.
pub fn encode_frame(m: &LogMsg) -> (r: Vec<u8>)
    ensures
        r@ == spec_encode_frame(m@),
{
    let payload = encode_payload(m);
    let kind = match m {
        LogMsg::SetStoreInfo(_) => MessageKind::SetStoreInfo,
        LogMsg::ArrowMsg(_, _) => MessageKind::ArrowMsg,
        LogMsg::BlueprintActivationCommand(_) => MessageKind::BlueprintActivationCommand,
    };
    let header = MessageHeader { kind, len: payload.len() as u64 };
    let mut out = header.to_bytes();
    let mut body = payload;
    out.append(&mut body);
    proof {
        assert(out@ =~= spec_encode_frame(m@));
    }
    out
}

/// Writes the end-of-sub-stream frame.
pub fn encode_end_frame() -> (r: Vec<u8>)
    ensures
        r@ == spec_end_frame(),
{
    let header = MessageHeader { kind: MessageKind::End, len: 0 };
    header.to_bytes()
}

/// Writes one whole sub-stream holding the given messages.
pub fn encode_stream(
    version: crate::format::CrateVersion,
    options: crate::format::EncodingOptions,
    msgs: &Vec<LogMsg>,
) -> (r: Vec<u8>)
    ensures
        r@ == spec_encode_stream(version, options, view_msgs(msgs@)),
{
    let mut out = crate::format::encode_file_header(version, options);
    let ghost base = out@;
    let mut i: usize = 0;
    while i < msgs.len()
        invariant
            i <= msgs@.len(),
            base == crate::format::spec_encode_file_header(version, options),
            out@ == base + spec_encode_frames(view_msgs(msgs@.take(i as int))),
        decreases msgs@.len() - i,
    {
        let mut frame = encode_frame(&msgs[i]);
        out.append(&mut frame);
        proof {
            assert(view_msgs(msgs@.take(i + 1 as int)) =~= view_msgs(msgs@.take(i as int)).push(
                msgs@[i as int]@,
            ));
            lemma_encode_frames_push(view_msgs(msgs@.take(i as int)), msgs@[i as int]@);
            assert(out@ =~= base + spec_encode_frames(view_msgs(msgs@.take(i + 1 as int))));
        }
        i = i + 1;
    }
    let mut tail = encode_end_frame();
    out.append(&mut tail);
    proof {
        assert(msgs@.take(msgs@.len() as int) =~= msgs@);
        assert(out@ =~= spec_encode_stream(version, options, view_msgs(msgs@)));
    }
    out
}

} // verus!
