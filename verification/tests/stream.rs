use stream_decoder::codec::encode_stream;
use stream_decoder::error::DecodeError;
use stream_decoder::format::CrateVersion;
use stream_decoder::format::EncodingOptions;
use stream_decoder::log_types::ApplicationId;
use stream_decoder::log_types::LogMsg;
use stream_decoder::log_types::SetStoreInfo;
use stream_decoder::log_types::StoreId;
use stream_decoder::log_types::StoreInfo;
use stream_decoder::log_types::StoreKind;
use stream_decoder::log_types::StoreSource;
use stream_decoder::log_types::Tuid;
use stream_decoder::stream::StreamDecoder;

fn local_version() -> CrateVersion {
    CrateVersion { major: 0, minor: 1, patch: 0, meta: 0 }
}

fn fake_log_msg() -> LogMsg {
    LogMsg::SetStoreInfo(SetStoreInfo {
        row_id: Tuid { time_ns: 0, inc: 0 },
        info: StoreInfo {
            application_id: ApplicationId::unknown(),
            store_id: StoreId::from_string(StoreKind::Recording, "test".into()),
            cloned_from: None,
            store_source: StoreSource::Unknown,
            store_version: Some(local_version()),
        },
    })
}

fn test_data(options: EncodingOptions, n: usize) -> (Vec<LogMsg>, Vec<u8>) {
    let messages: Vec<_> = (0..n).map(|_| fake_log_msg()).collect();
    let buffer = encode_stream(local_version(), options, &messages);
    (messages, buffer)
}

fn assert_message_ok(message: Result<Option<LogMsg>, DecodeError>) -> LogMsg {
    match message {
        Ok(Some(message)) => {
            assert_eq!(&fake_log_msg(), &message);
            message
        }
        Ok(None) => {
            panic!("failed to read message: message could not be read in full");
        }
        Err(err) => {
            panic!("failed to read message: {err:?}");
        }
    }
}

fn assert_message_incomplete(message: Result<Option<LogMsg>, DecodeError>) {
    match message {
        Ok(None) => {}
        Ok(Some(message)) => {
            panic!("expected message to be incomplete, instead received: {message:?}");
        }
        Err(err) => {
            panic!("failed to read message: {err:?}");
        }
    }
}

#[test]
fn stream_whole_chunks_uncompressed_protobuf() {
    let (input, data) = test_data(EncodingOptions::protobuf_uncompressed(), 16);

    let mut decoder = StreamDecoder::new();

    assert_message_incomplete(decoder.try_read());

    decoder.push_chunk(data);

    let decoded_messages: Vec<_> = (0..16).map(|_| assert_message_ok(decoder.try_read())).collect();

    assert_eq!(input, decoded_messages);

    assert_message_incomplete(decoder.try_read());
}

#[test]
fn stream_byte_chunks_uncompressed_protobuf() {
    let (input, data) = test_data(EncodingOptions::protobuf_uncompressed(), 16);

    let mut decoder = StreamDecoder::new();

    assert_message_incomplete(decoder.try_read());

    for chunk in data.chunks(1) {
        decoder.push_chunk(chunk.to_vec());
    }

    let decoded_messages: Vec<_> = (0..16).map(|_| assert_message_ok(decoder.try_read())).collect();

    assert_eq!(input, decoded_messages);
}

#[test]
fn two_concatenated_streams_protobuf() {
    let (input1, data1) = test_data(EncodingOptions::protobuf_uncompressed(), 16);
    let (input2, data2) = test_data(EncodingOptions::protobuf_uncompressed(), 16);
    let input = input1.into_iter().chain(input2).collect::<Vec<_>>();

    let mut decoder = StreamDecoder::new();

    assert_message_incomplete(decoder.try_read());

    decoder.push_chunk(data1);
    decoder.push_chunk(data2);

    let decoded_messages: Vec<_> = (0..32).map(|_| assert_message_ok(decoder.try_read())).collect();

    assert_eq!(input, decoded_messages);
}

#[test]
fn stream_whole_chunks_compressed_protobuf() {
    let (input, data) = test_data(EncodingOptions::protobuf_compressed(), 16);

    let mut decoder = StreamDecoder::new();

    assert_message_incomplete(decoder.try_read());

    decoder.push_chunk(data);

    let decoded_messages: Vec<_> = (0..16).map(|_| assert_message_ok(decoder.try_read())).collect();

    assert_eq!(input, decoded_messages);
}

#[test]
fn stream_byte_chunks_compressed_protobuf() {
    let (input, data) = test_data(EncodingOptions::protobuf_compressed(), 16);

    let mut decoder = StreamDecoder::new();

    assert_message_incomplete(decoder.try_read());

    for chunk in data.chunks(1) {
        decoder.push_chunk(chunk.to_vec());
    }

    let decoded_messages: Vec<_> = (0..16).map(|_| assert_message_ok(decoder.try_read())).collect();

    assert_eq!(input, decoded_messages);
}

#[test]
fn stream_3x16_chunks_protobuf() {
    let (input, data) = test_data(EncodingOptions::protobuf_compressed(), 16);

    let mut decoder = StreamDecoder::new();
    let mut decoded_messages = vec![];

    // keep pushing 3 chunks of 16 bytes at a time, and attempting to read messages
    // until there are no more chunks
    let mut chunks = data.chunks(16).peekable();
    while chunks.peek().is_some() {
        for _ in 0..3 {
            if let Some(chunk) = chunks.next() {
                decoder.push_chunk(chunk.to_vec());
            } else {
                break;
            }
        }

        if let Some(message) = decoder.try_read().unwrap() {
            decoded_messages.push(message);
        }
    }

    assert_eq!(input, decoded_messages);
}

#[test]
fn stream_irregular_chunks_protobuf() {
    // this attempts to stress-test `try_read` with chunks of various sizes

    let (input, data) = test_data(EncodingOptions::protobuf_compressed(), 16);

    let mut decoder = StreamDecoder::new();
    let mut decoded_messages = vec![];

    // read chunks 2xN bytes at a time, where `N` comes from a regular pattern
    // this is slightly closer to using random numbers while still being
    // fully deterministic

    let pattern = [0usize, 3, 4, 70, 31];
    let mut pattern_index = 0;
    let mut position = 0;

    while position < data.len() {
        for _ in 0..2 {
            let n = pattern[pattern_index].min(data.len() - position);
            pattern_index = (pattern_index + 1) % pattern.len();
            decoder.push_chunk(data[position..position + n].to_vec());
            position += n;
        }

        while let Some(message) = decoder.try_read().unwrap() {
            decoded_messages.push(message);
        }
    }

    assert_eq!(input, decoded_messages);
}

#[test]
fn concatenated_streams_carry_their_own_version() {
    // each sub-stream's messages reflect that sub-stream's header version

    let v1 = CrateVersion { major: 0, minor: 1, patch: 0, meta: 0 };
    let v2 = CrateVersion { major: 0, minor: 2, patch: 7, meta: 1 };

    let messages: Vec<_> = (0..3).map(|_| fake_log_msg()).collect();
    let data1 = encode_stream(v1, EncodingOptions::protobuf_uncompressed(), &messages);
    let data2 = encode_stream(v2, EncodingOptions::protobuf_uncompressed(), &messages);

    let mut decoder = StreamDecoder::new();
    decoder.push_chunk(data1);
    decoder.push_chunk(data2);

    for expected_version in [v1, v1, v1, v2, v2, v2] {
        let message = decoder.try_read().unwrap().expect("a full message was pushed");
        match message {
            LogMsg::SetStoreInfo(msg) => {
                assert_eq!(Some(expected_version), msg.info.store_version);
            }
            other => panic!("expected a store info announcement, got {other:?}"),
        }
    }
    assert_eq!(Ok(None), decoder.try_read());
}

#[test]
fn stream_empty_chunks_are_no_ops() {
    // interleaving zero-length chunks changes nothing

    let (input, data) = test_data(EncodingOptions::protobuf_uncompressed(), 4);

    let mut decoder = StreamDecoder::new();
    decoder.push_chunk(Vec::new());
    for chunk in data.chunks(7) {
        decoder.push_chunk(Vec::new());
        decoder.push_chunk(chunk.to_vec());
        decoder.push_chunk(Vec::new());
    }

    let decoded_messages: Vec<_> = (0..4).map(|_| assert_message_ok(decoder.try_read())).collect();

    assert_eq!(input, decoded_messages);
    assert_eq!(Ok(None), decoder.try_read());
}

#[test]
fn stream_bad_magic_is_fatal() {
    let mut decoder = StreamDecoder::new();
    decoder.push_chunk(b"XXXX\x00\x01\x00\x00\x00\x02\x00\x00".to_vec());
    assert_eq!(Err(DecodeError::NotAnRrd), decoder.try_read());
}

#[test]
fn stream_old_magic_is_fatal() {
    let mut decoder = StreamDecoder::new();
    decoder.push_chunk(b"RRF0\x00\x01\x00\x00\x00\x02\x00\x00".to_vec());
    assert_eq!(Err(DecodeError::OldRrdVersion), decoder.try_read());

    let mut decoder = StreamDecoder::new();
    decoder.push_chunk(b"RRF1\x00\x01\x00\x00\x00\x02\x00\x00".to_vec());
    assert_eq!(Err(DecodeError::OldRrdVersion), decoder.try_read());
}

#[test]
fn stream_bad_options_are_fatal() {
    // unknown compression selector
    let mut decoder = StreamDecoder::new();
    decoder.push_chunk(b"RRF2\x00\x01\x00\x00\x09\x02\x00\x00".to_vec());
    assert_eq!(Err(DecodeError::UnknownCompression(9)), decoder.try_read());

    // the retired serializer selector
    let mut decoder = StreamDecoder::new();
    decoder.push_chunk(b"RRF2\x00\x01\x00\x00\x00\x01\x00\x00".to_vec());
    assert_eq!(Err(DecodeError::RemovedMsgPackSerializer), decoder.try_read());

    // an unknown serializer selector
    let mut decoder = StreamDecoder::new();
    decoder.push_chunk(b"RRF2\x00\x01\x00\x00\x00\x05\x00\x00".to_vec());
    assert_eq!(Err(DecodeError::UnknownSerializer(5)), decoder.try_read());

    // non-zero reserved bytes
    let mut decoder = StreamDecoder::new();
    decoder.push_chunk(b"RRF2\x00\x01\x00\x00\x00\x02\x01\x00".to_vec());
    assert_eq!(Err(DecodeError::UnknownReservedBytes), decoder.try_read());
}

#[test]
fn stream_unknown_message_kind_is_fatal() {
    let (_, data) = test_data(EncodingOptions::protobuf_uncompressed(), 0);
    // the empty stream is one header plus one end frame; corrupt the
    // frame's kind tag
    let mut data = data;
    data[12] = 9;

    let mut decoder = StreamDecoder::new();
    decoder.push_chunk(data);
    assert_eq!(Err(DecodeError::UnknownMessageKind(9)), decoder.try_read());
}
