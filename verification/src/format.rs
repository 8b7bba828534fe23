//! The fixed-size stream header: magic bytes, encoded version, encoding
//! options.
//!
//! One stream header opens every sub-stream. Its twelve bytes are laid out
//! as four magic bytes, four version bytes (major, minor, patch, meta) and
//! four option bytes (compression selector, serializer selector, two
//! reserved zero bytes).

use vstd::prelude::*;

use crate::error::DecodeError;

verus! {

/// Byte length of the stream header on the wire.
pub const FILE_HEADER_SIZE: usize = 12;

/// Whether the payloads of a stream are compressed.
#[derive(Clone, Copy, Debug, PartialEq, Eq, Structural)]
pub enum Compression {
    Off,
    LZ4,
}

/// Which serializer encoded the payloads of a stream.
#[derive(Clone, Copy, Debug, PartialEq, Eq, Structural)]
pub enum Serializer {
    Protobuf,
}

/// The encoding options negotiated by a stream header.
#[derive(Clone, Copy, Debug, PartialEq, Eq, Structural)]
pub struct EncodingOptions {
    pub compression: Compression,
    pub serializer: Serializer,
}

impl EncodingOptions {
    pub fn protobuf_uncompressed() -> (r: EncodingOptions)
        ensures
            r == (EncodingOptions { compression: Compression::Off, serializer: Serializer::Protobuf }),
    {
        EncodingOptions { compression: Compression::Off, serializer: Serializer::Protobuf }
    }

    pub fn protobuf_compressed() -> (r: EncodingOptions)
        ensures
            r == (EncodingOptions { compression: Compression::LZ4, serializer: Serializer::Protobuf }),
    {
        EncodingOptions { compression: Compression::LZ4, serializer: Serializer::Protobuf }
    }
}

/// The version of the writer that encoded a stream, as carried in the
/// stream header: one byte each for major, minor and patch, plus one
/// opaque metadata byte.
#[derive(Clone, Copy, Debug, Hash, PartialEq, Eq, Structural)]
pub struct CrateVersion {
    pub major: u8,
    pub minor: u8,
    pub patch: u8,
    pub meta: u8,
}

/// The compression byte of the options field.
pub open spec fn spec_compression_code(c: Compression) -> u8 {
    match c {
        Compression::Off => 0,
        Compression::LZ4 => 1,
    }
}

/// The serializer byte of the options field. The retired serializer of
/// earlier releases held code 1, which is why this starts at 2.
pub open spec fn spec_serializer_code(s: Serializer) -> u8 {
    match s {
        Serializer::Protobuf => 2,
    }
}

/// Parses the four option bytes: compression, serializer, two reserved
/// zero bytes.
pub open spec fn spec_parse_options(b0: u8, b1: u8, b2: u8, b3: u8) -> Result<
    EncodingOptions,
    DecodeError,
> {
    if b2 != 0 || b3 != 0 {
        Err(DecodeError::UnknownReservedBytes)
    } else if b0 != 0 && b0 != 1 {
        Err(DecodeError::UnknownCompression(b0))
    } else if b1 == 1 {
        Err(DecodeError::RemovedMsgPackSerializer)
    } else if b1 != 2 {
        Err(DecodeError::UnknownSerializer(b1))
    } else {
        Ok(
            EncodingOptions {
                compression: if b0 == 0 {
                    Compression::Off
                } else {
                    Compression::LZ4
                },
                serializer: Serializer::Protobuf,
            },
        )
    }
}

/// The magic bytes `RRF2` that open every stream header.
pub open spec fn spec_is_magic(b: Seq<u8>) -> bool {
    &&& b.len() >= 4
    &&& b[0] == 0x52u8
    &&& b[1] == 0x52u8
    &&& b[2] == 0x46u8
    &&& b[3] == 0x32u8
}

/// Magic bytes of the two retired layouts of this format, `RRF0` and `RRF1`.
pub open spec fn spec_is_old_magic(b: Seq<u8>) -> bool {
    &&& b.len() >= 4
    &&& b[0] == 0x52u8
    &&& b[1] == 0x52u8
    &&& b[2] == 0x46u8
    &&& (b[3] == 0x30u8 || b[3] == 0x31u8)
}

/// Parses the twelve header bytes into the stream's version and options.
pub open spec fn spec_options_from_bytes(b: Seq<u8>) -> Result<
    (CrateVersion, EncodingOptions),
    DecodeError,
>
    recommends
        b.len() == FILE_HEADER_SIZE,
{
    if spec_is_old_magic(b) {
        Err(DecodeError::OldRrdVersion)
    } else if !spec_is_magic(b) {
        Err(DecodeError::NotAnRrd)
    } else {
        let version = CrateVersion { major: b[4], minor: b[5], patch: b[6], meta: b[7] };
        match spec_parse_options(b[8], b[9], b[10], b[11]) {
            Ok(options) => Ok((version, options)),
            Err(e) => Err(e),
        }
    }
}

/// Parses a stream header: magic bytes, then version, then options.
///
/// A header whose magic bytes belong to a retired layout, whose magic
/// bytes are foreign altogether, or whose options hold unknown selectors
/// is rejected with the matching error, exactly as
/// [`spec_options_from_bytes`] lays out.
pub fn options_from_bytes(bytes: &[u8]) -> (r: Result<(CrateVersion, EncodingOptions), DecodeError>)
    requires
        bytes@.len() == FILE_HEADER_SIZE,
    ensures
        r == spec_options_from_bytes(bytes@),
{
    let old_magic = bytes[0] == 0x52 && bytes[1] == 0x52 && bytes[2] == 0x46 && (bytes[3] == 0x30
        || bytes[3] == 0x31);
    if old_magic {
        return Err(DecodeError::OldRrdVersion);
    }
    let magic = bytes[0] == 0x52 && bytes[1] == 0x52 && bytes[2] == 0x46 && bytes[3] == 0x32;
    if !magic {
        return Err(DecodeError::NotAnRrd);
    }
    let version = CrateVersion { major: bytes[4], minor: bytes[5], patch: bytes[6], meta: bytes[7] };
    if bytes[10] != 0 || bytes[11] != 0 {
        return Err(DecodeError::UnknownReservedBytes);
    }
    if bytes[8] != 0 && bytes[8] != 1 {
        return Err(DecodeError::UnknownCompression(bytes[8]));
    }
    if bytes[9] == 1 {
        return Err(DecodeError::RemovedMsgPackSerializer);
    }
    if bytes[9] != 2 {
        return Err(DecodeError::UnknownSerializer(bytes[9]));
    }
    let compression = if bytes[8] == 0 {
        Compression::Off
    } else {
        Compression::LZ4
    };
    Ok((version, EncodingOptions { compression, serializer: Serializer::Protobuf }))
}

/// The twelve header bytes that open a sub-stream encoded with the given
/// version and options.
pub open spec fn spec_encode_file_header(version: CrateVersion, options: EncodingOptions) -> Seq<
    u8,
> {
    seq![
        0x52u8,
        0x52u8,
        0x46u8,
        0x32u8,
        version.major,
        version.minor,
        version.patch,
        version.meta,
        spec_compression_code(options.compression),
        spec_serializer_code(options.serializer),
        0u8,
        0u8,
    ]
}

/// Writes the stream header for the given version and options.
pub fn encode_file_header(version: CrateVersion, options: EncodingOptions) -> (r: Vec<u8>)
    ensures
        r@ == spec_encode_file_header(version, options),
{
    let compression: u8 = match options.compression {
        Compression::Off => 0,
        Compression::LZ4 => 1,
    };
    let serializer: u8 = match options.serializer {
        Serializer::Protobuf => 2,
    };
    let mut out: Vec<u8> = Vec::new();
    out.push(0x52);
    out.push(0x52);
    out.push(0x46);
    out.push(0x32);
    out.push(version.major);
    out.push(version.minor);
    out.push(version.patch);
    out.push(version.meta);
    out.push(compression);
    out.push(serializer);
    out.push(0);
    out.push(0);
    proof {
        assert(out@ =~= spec_encode_file_header(version, options));
    }
    out
}

/// A written stream header always parses back to the version and options
/// it was written with.
pub broadcast proof fn lemma_file_header_roundtrip(version: CrateVersion, options: EncodingOptions)
    ensures
        #[trigger] spec_options_from_bytes(spec_encode_file_header(version, options)) == Ok::<
            (CrateVersion, EncodingOptions),
            DecodeError,
        >((version, options)),
{
    let b = spec_encode_file_header(version, options);
    assert(!spec_is_old_magic(b));
    assert(spec_is_magic(b));
}

} // verus!
