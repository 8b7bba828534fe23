use stream_decoder::codec::decode_bytes_to_app;
use stream_decoder::codec::encode_end_frame;
use stream_decoder::codec::encode_frame;
use stream_decoder::codec::encode_payload;
use stream_decoder::codec::MessageHeader;
use stream_decoder::codec::MessageKind;
use stream_decoder::error::CodecError;
use stream_decoder::error::DecodeError;
use stream_decoder::format::encode_file_header;
use stream_decoder::format::options_from_bytes;
use stream_decoder::format::Compression;
use stream_decoder::format::CrateVersion;
use stream_decoder::format::EncodingOptions;
use stream_decoder::format::Serializer;
use stream_decoder::log_types::ApplicationId;
use stream_decoder::log_types::ArrowMsg;
use stream_decoder::log_types::BlueprintActivationCommand;
use stream_decoder::log_types::FileSource;
use stream_decoder::log_types::LogMsg;
use stream_decoder::log_types::PythonVersion;
use stream_decoder::log_types::SetStoreInfo;
use stream_decoder::log_types::StoreId;
use stream_decoder::log_types::StoreInfo;
use stream_decoder::log_types::StoreKind;
use stream_decoder::log_types::StoreSource;
use stream_decoder::log_types::Tuid;

fn version() -> CrateVersion {
    CrateVersion { major: 0, minor: 1, patch: 2, meta: 3 }
}

#[test]
fn file_header_bytes_are_exact() {
    let header = encode_file_header(
        version(),
        EncodingOptions { compression: Compression::Off, serializer: Serializer::Protobuf },
    );
    assert_eq!(b"RRF2\x00\x01\x02\x03\x00\x02\x00\x00".to_vec(), header);

    let compressed = encode_file_header(
        version(),
        EncodingOptions { compression: Compression::LZ4, serializer: Serializer::Protobuf },
    );
    assert_eq!(b"RRF2\x00\x01\x02\x03\x01\x02\x00\x00".to_vec(), compressed);

    let parsed = options_from_bytes(&header).unwrap();
    assert_eq!(version(), parsed.0);
    assert_eq!(Compression::Off, parsed.1.compression);
    assert_eq!(Serializer::Protobuf, parsed.1.serializer);
}

#[test]
fn message_header_roundtrips() {
    let header = MessageHeader { kind: MessageKind::ArrowMsg, len: 77 };
    let bytes = header.to_bytes();
    assert_eq!(16, bytes.len());
    assert_eq!(Ok(header), MessageHeader::from_bytes(&bytes));

    let end = encode_end_frame();
    assert_eq!(
        Ok(MessageHeader { kind: MessageKind::End, len: 0 }),
        MessageHeader::from_bytes(&end)
    );

    let mut bad = bytes.clone();
    bad[0] = 200;
    assert_eq!(Err(DecodeError::UnknownMessageKind(200)), MessageHeader::from_bytes(&bad));
}

fn roundtrip(msg: &LogMsg) -> LogMsg {
    let kind = match msg {
        LogMsg::SetStoreInfo(_) => MessageKind::SetStoreInfo,
        LogMsg::ArrowMsg(_, _) => MessageKind::ArrowMsg,
        LogMsg::BlueprintActivationCommand(_) => MessageKind::BlueprintActivationCommand,
    };
    let payload = encode_payload(msg);
    decode_bytes_to_app(kind, &payload)
        .expect("the payload was well formed")
        .expect("a payload of this kind holds a message")
}

#[test]
fn payload_roundtrip_set_store_info() {
    let msg = LogMsg::SetStoreInfo(SetStoreInfo {
        row_id: Tuid { time_ns: 123, inc: 456 },
        info: StoreInfo {
            application_id: ApplicationId("an app \u{e9}\u{6f22}\u{1f600}".to_owned()),
            store_id: StoreId::from_string(StoreKind::Blueprint, "store".to_owned()),
            cloned_from: Some(StoreId::from_string(StoreKind::Recording, "origin".to_owned())),
            store_source: StoreSource::PythonSdk(PythonVersion {
                major: 3,
                minor: 11,
                patch: 0,
                suffix: "a1".to_owned(),
            }),
            // never on the wire: the decoder fills it from the stream header
            store_version: None,
        },
    });
    assert_eq!(msg, roundtrip(&msg));
}

#[test]
fn payload_roundtrip_store_sources() {
    let sources = vec![
        StoreSource::Unknown,
        StoreSource::CSdk,
        StoreSource::RustSdk {
            rustc_version: "1.85.0".to_owned(),
            llvm_version: "19.1".to_owned(),
        },
        StoreSource::File { file_source: FileSource::Cli },
        StoreSource::File { file_source: FileSource::Uri },
        StoreSource::File { file_source: FileSource::Sdk },
        StoreSource::File {
            file_source: FileSource::DragAndDrop {
                recommended_application_id: Some(ApplicationId("app".to_owned())),
                recommended_recording_id: None,
                force_store_info: true,
            },
        },
        StoreSource::File {
            file_source: FileSource::FileDialog {
                recommended_application_id: None,
                recommended_recording_id: Some(StoreId::from_string(
                    StoreKind::Recording,
                    "rec".to_owned(),
                )),
                force_store_info: false,
            },
        },
        StoreSource::Viewer,
        StoreSource::Other("hand-rolled".to_owned()),
    ];
    for source in sources {
        let msg = LogMsg::SetStoreInfo(SetStoreInfo {
            row_id: Tuid { time_ns: 0, inc: 0 },
            info: StoreInfo {
                application_id: ApplicationId("app".to_owned()),
                store_id: StoreId::from_string(StoreKind::Recording, "store".to_owned()),
                cloned_from: None,
                store_source: source,
                store_version: None,
            },
        });
        assert_eq!(msg, roundtrip(&msg));
    }
}

#[test]
fn payload_roundtrip_arrow_msg() {
    let msg = LogMsg::ArrowMsg(
        StoreId::from_string(StoreKind::Recording, "store".to_owned()),
        ArrowMsg { chunk_id: Tuid { time_ns: 9, inc: 8 }, batch: vec![1, 2, 3, 255, 0, 42] },
    );
    assert_eq!(msg, roundtrip(&msg));
}

#[test]
fn payload_roundtrip_blueprint_activation() {
    let msg = LogMsg::BlueprintActivationCommand(BlueprintActivationCommand {
        blueprint_id: StoreId::from_string(StoreKind::Blueprint, "bp".to_owned()),
        make_active: true,
        make_default: false,
    });
    assert_eq!(msg, roundtrip(&msg));
}

#[test]
fn end_payload_must_be_empty() {
    assert_eq!(Ok(None), decode_bytes_to_app(MessageKind::End, &[]));
    assert_eq!(
        Err(DecodeError::Codec(CodecError::TrailingBytes)),
        decode_bytes_to_app(MessageKind::End, &[0])
    );
}

#[test]
fn malformed_payloads_are_rejected() {
    let msg = LogMsg::BlueprintActivationCommand(BlueprintActivationCommand {
        blueprint_id: StoreId::from_string(StoreKind::Blueprint, "bp".to_owned()),
        make_active: true,
        make_default: false,
    });
    let good = encode_payload(&msg);

    // a byte chopped off the end: the payload is truncated
    assert_eq!(
        Err(DecodeError::Codec(CodecError::Truncated)),
        decode_bytes_to_app(
            MessageKind::BlueprintActivationCommand,
            &good[..good.len() - 1]
        )
    );

    // a byte too many: trailing garbage
    let mut long = good.clone();
    long.push(0);
    assert_eq!(
        Err(DecodeError::Codec(CodecError::TrailingBytes)),
        decode_bytes_to_app(MessageKind::BlueprintActivationCommand, &long)
    );

    // a store kind tag that names no kind
    let mut bad_tag = good.clone();
    bad_tag[0] = 9;
    assert_eq!(
        Err(DecodeError::Codec(CodecError::InvalidTag(9))),
        decode_bytes_to_app(MessageKind::BlueprintActivationCommand, &bad_tag)
    );

    // a boolean byte that is neither 0 nor 1
    let mut bad_bool = good.clone();
    let active_at = good.len() - 2;
    bad_bool[active_at] = 7;
    assert_eq!(
        Err(DecodeError::Codec(CodecError::InvalidBool(7))),
        decode_bytes_to_app(MessageKind::BlueprintActivationCommand, &bad_bool)
    );

    // a character code in the surrogate range is no Unicode scalar
    let mut bad_char = good.clone();
    // layout: kind tag (1), char count (8), then the first character code
    let surrogate = 0xD800u32.to_le_bytes();
    bad_char[9..13].copy_from_slice(&surrogate);
    assert_eq!(
        Err(DecodeError::Codec(CodecError::InvalidChar)),
        decode_bytes_to_app(MessageKind::BlueprintActivationCommand, &bad_char)
    );
}

#[test]
fn frame_is_header_then_payload() {
    let msg = LogMsg::ArrowMsg(
        StoreId::from_string(StoreKind::Recording, "s".to_owned()),
        ArrowMsg { chunk_id: Tuid { time_ns: 1, inc: 2 }, batch: vec![5, 6] },
    );
    let payload = encode_payload(&msg);
    let frame = encode_frame(&msg);
    assert_eq!(16 + payload.len(), frame.len());
    let header = MessageHeader::from_bytes(&frame[..16]).unwrap();
    assert_eq!(MessageKind::ArrowMsg, header.kind);
    assert_eq!(payload.len() as u64, header.len);
    assert_eq!(payload[..], frame[16..]);
}
