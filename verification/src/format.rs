//! The byte layout of a replay file.
//!
//! A file is a header followed by a zstd stream:
//!
//! * header: the magic bytes `TOOT`, the format version, the number of input
//!   pairs (`u32`, little-endian), the length of the metadata (`u32`) and the
//!   encoded metadata;
//! * payload (what the zstd stream decompresses to): the local player's index,
//!   the size of one raw input packet, the local and the remote emulator state
//!   (each a `u32` length and the bytes), then one record per input pair.
//!
//! A record holds the local tick, the remote tick, and for player one and then
//! player two the joypad flags (`u16`) and the raw packet. Decoding stops at the
//! first record that is not complete, so a replay whose recording was cut short
//! still yields every input written before the cut.

use crate::le::{le_u32_bytes, le_u32_value, lemma_le_u32_roundtrip, read_u32_le, write_u32_le};
use vstd::prelude::*;

verus! {

/// The format version that this library writes.
pub const VERSION: u8 = 0x11;

/// The older format version whose metadata is still read.
pub const LEGACY_VERSION: u8 = 0x10;

/// The position in a file of the `u32` that counts the input pairs.
pub const NUM_INPUTS_OFFSET: u64 = 5;

/// The length of the header before the encoded metadata.
pub const HEADER_LEN: usize = 13;

/// Why a replay could not be read or written.
#[derive(Debug, PartialEq, Eq, Structural, Clone, Copy)]
pub enum ReplayError {
    /// The data ended before a field that must be there.
    UnexpectedEof,
    /// The file does not start with the magic bytes.
    InvalidHeader,
    /// The header names a format version that has no metadata decoder.
    InvalidVersion(u8),
    /// The decoder rejected the compressed stream before a field that must be there.
    Decompress,
    /// The compressor refused the data.
    Compress,
}

/// How the metadata of a replay is encoded.
#[derive(Debug, PartialEq, Eq, Structural, Clone, Copy)]
pub enum MetadataFormat {
    /// The metadata layout of format version `0x10`.
    Replay10,
    /// The protobuf message of format version `0x11`.
    Replay11,
}

/// The magic bytes `TOOT` at the start of `s`.
pub open spec fn starts_with_magic(s: Seq<u8>) -> bool {
    &&& s.len() >= 4
    &&& s[0] == 0x54u8
    &&& s[1] == 0x4fu8
    &&& s[2] == 0x4fu8
    &&& s[3] == 0x54u8
}

/// The magic bytes `TOOT`.
pub open spec fn magic() -> Seq<u8> {
    seq![0x54u8, 0x4fu8, 0x4fu8, 0x54u8]
}

/// The decoder that applies to the metadata of a format version.
pub open spec fn spec_decode_metadata(version: u8) -> Result<MetadataFormat, ReplayError> {
    if version == LEGACY_VERSION {
        Ok(MetadataFormat::Replay10)
    } else if version == VERSION {
        Ok(MetadataFormat::Replay11)
    } else {
        Err(ReplayError::InvalidVersion(version))
    }
}

/// Chooses the decoder for the metadata of a file of format `version`; a
/// version without one is an error.
pub fn decode_metadata(version: u8) -> (r: Result<MetadataFormat, ReplayError>)
    ensures
        r == spec_decode_metadata(version),
{
    if version == LEGACY_VERSION {
        Ok(MetadataFormat::Replay10)
    } else if version == VERSION {
        Ok(MetadataFormat::Replay11)
    } else {
        Err(ReplayError::InvalidVersion(version))
    }
}

/// The header of a file: everything before the compressed payload.
pub open spec fn spec_header(num_inputs: u32, metadata: Seq<u8>) -> Seq<u8> {
    magic() + seq![VERSION] + le_u32_bytes(num_inputs) + le_u32_bytes(metadata.len() as u32)
        + metadata
}

/// What the header of a file holds.
pub struct HeaderView {
    pub format: MetadataFormat,
    pub num_inputs: u32,
    pub metadata: Seq<u8>,
    pub payload_offset: int,
}

/// The header read from the start of `s`.
pub open spec fn spec_read_header(s: Seq<u8>) -> Result<HeaderView, ReplayError> {
    if s.len() < 4 {
        Err(ReplayError::UnexpectedEof)
    } else if !starts_with_magic(s) {
        Err(ReplayError::InvalidHeader)
    } else if s.len() < 13 {
        Err(ReplayError::UnexpectedEof)
    } else {
        let len = le_u32_value(s.subrange(9, 13));
        if s.len() < 13 + len {
            Err(ReplayError::UnexpectedEof)
        } else {
            match spec_decode_metadata(s[4]) {
                Err(e) => Err(e),
                Ok(format) => Ok(
                    HeaderView {
                        format,
                        num_inputs: le_u32_value(s.subrange(5, 9)) as u32,
                        metadata: s.subrange(13, 13 + len),
                        payload_offset: 13 + len,
                    },
                ),
            }
        }
    }
}

/// The header of a replay file, with its metadata still encoded.
pub struct ReplayHeader {
    /// The number of input pairs that the file announces (0 while it is being written).
    pub num_inputs: usize,
    /// How `raw_metadata` is encoded.
    pub format: MetadataFormat,
    /// The encoded metadata.
    pub raw_metadata: Vec<u8>,
    /// Where the compressed payload starts.
    pub payload_offset: usize,
}

/// `h` is the header view `v`.
pub open spec fn header_matches(h: ReplayHeader, v: HeaderView) -> bool {
    &&& h.num_inputs == v.num_inputs
    &&& h.format == v.format
    &&& h.raw_metadata@ == v.metadata
    &&& h.payload_offset == v.payload_offset
}

/// Appends `bytes` to `out`.
pub fn append_bytes(out: &mut Vec<u8>, bytes: &[u8])
    ensures
        final(out)@ == old(out)@ + bytes@,
{
    let ghost start = out@;
    let mut i: usize = 0;
    while i < bytes.len()
        invariant
            i <= bytes@.len(),
            out@ == start + bytes@.take(i as int),
        decreases bytes@.len() - i,
    {
        out.push(bytes[i]);
        i = i + 1;
        assert(bytes@.take(i as int) =~= bytes@.take((i - 1) as int).push(bytes@[i - 1]));
    }
    assert(bytes@.take(i as int) =~= bytes@);
}

/// The header of a file of the current format version (a metadata length
/// beyond `u32` is written truncated).
pub fn encode_header(num_inputs: u32, raw_metadata: &[u8]) -> (out: Vec<u8>)
    ensures
        out@ == spec_header(num_inputs, raw_metadata@),
{
    let mut out: Vec<u8> = Vec::new();
    out.push(0x54u8);
    out.push(0x4fu8);
    out.push(0x4fu8);
    out.push(0x54u8);
    out.push(VERSION);
    let n = write_u32_le(num_inputs);
    append_bytes(&mut out, n.as_slice());
    let len = write_u32_le(raw_metadata.len() as u32);
    append_bytes(&mut out, len.as_slice());
    append_bytes(&mut out, raw_metadata);
    assert(out@ =~= spec_header(num_inputs, raw_metadata@));
    out
}

/// The four bytes that stand at [`NUM_INPUTS_OFFSET`] once a file is finished.
pub fn encode_num_inputs(num_inputs: u32) -> (out: Vec<u8>)
    ensures
        out@ == le_u32_bytes(num_inputs),
{
    let b = write_u32_le(num_inputs);
    let mut out: Vec<u8> = Vec::new();
    append_bytes(&mut out, b.as_slice());
    assert(out@ =~= le_u32_bytes(num_inputs));
    out
}

/// Reads the header at the start of `data`: checks the magic bytes, takes the
/// version, the announced number of input pairs and the encoded metadata, and
/// chooses the metadata decoder for the version.
pub fn read_metadata(data: &[u8]) -> (r: Result<ReplayHeader, ReplayError>)
    ensures
        match spec_read_header(data@) {
            Ok(v) => r matches Ok(h) && header_matches(h, v),
            Err(e) => r == Err::<ReplayHeader, ReplayError>(e),
        },
{
    if data.len() < 4 {
        return Err(ReplayError::UnexpectedEof);
    }
    if !(data[0] == 0x54u8 && data[1] == 0x4fu8 && data[2] == 0x4fu8 && data[3] == 0x54u8) {
        return Err(ReplayError::InvalidHeader);
    }
    if data.len() < HEADER_LEN {
        return Err(ReplayError::UnexpectedEof);
    }
    let version = data[4];
    let num_inputs = read_u32_le(&data[5..9]);
    let len = read_u32_le(&data[9..13]);
    if data.len() - HEADER_LEN < len as usize {
        return Err(ReplayError::UnexpectedEof);
    }
    let end = HEADER_LEN + len as usize;
    let raw_metadata = vstd::slice::slice_to_vec(&data[HEADER_LEN..end]);
    let format = decode_metadata(version)?;
    Ok(ReplayHeader { num_inputs: num_inputs as usize, format, raw_metadata, payload_offset: end })
}

/// The header of a file of the current version reads back as what was written,
/// whatever follows it.
#[verifier::spinoff_prover]
pub proof fn lemma_header_roundtrip(num_inputs: u32, metadata: Seq<u8>, rest: Seq<u8>)
    requires
        metadata.len() <= u32::MAX,
    ensures
        spec_read_header(spec_header(num_inputs, metadata) + rest) == Ok::<HeaderView, ReplayError>(
            HeaderView {
                format: MetadataFormat::Replay11,
                num_inputs,
                metadata,
                payload_offset: 13 + metadata.len() as int,
            },
        ),
{
    let s = spec_header(num_inputs, metadata) + rest;
    lemma_le_u32_roundtrip(num_inputs);
    lemma_le_u32_roundtrip(metadata.len() as u32);
    assert(s.subrange(5, 9) =~= le_u32_bytes(num_inputs));
    assert(s.subrange(9, 13) =~= le_u32_bytes(metadata.len() as u32));
    assert(s.subrange(13, 13 + metadata.len() as int) =~= metadata);
    assert(s[4] == VERSION);
}

/// `file` with the number of input pairs at [`NUM_INPUTS_OFFSET`] set to `num_inputs`.
pub open spec fn spec_set_num_inputs(file: Seq<u8>, num_inputs: u32) -> Seq<u8> {
    file.take(5) + le_u32_bytes(num_inputs) + file.skip(9)
}

/// Setting the count of a header written with none gives the header written with that count.
pub proof fn lemma_set_num_inputs(num_inputs: u32, metadata: Seq<u8>, rest: Seq<u8>)
    ensures
        spec_set_num_inputs(spec_header(0, metadata) + rest, num_inputs) == spec_header(
            num_inputs,
            metadata,
        ) + rest,
{
    assert(spec_set_num_inputs(spec_header(0, metadata) + rest, num_inputs) =~= spec_header(
        num_inputs,
        metadata,
    ) + rest);
}

/// The metadata length that the first bytes of a file announce, or why they
/// announce none: the first errors of [`spec_read_header`].
pub open spec fn spec_metadata_len(s: Seq<u8>) -> Result<int, ReplayError> {
    if s.len() < 4 {
        Err(ReplayError::UnexpectedEof)
    } else if !starts_with_magic(s) {
        Err(ReplayError::InvalidHeader)
    } else if s.len() < 13 {
        Err(ReplayError::UnexpectedEof)
    } else {
        Ok(le_u32_value(s.subrange(9, 13)))
    }
}

/// Reads how long the metadata is from the first [`HEADER_LEN`] bytes of a file,
/// checking the magic bytes, so that a reader takes exactly the header's bytes.
pub fn metadata_len(head: &[u8]) -> (r: Result<usize, ReplayError>)
    ensures
        match spec_metadata_len(head@) {
            Ok(n) => r == Ok::<usize, ReplayError>(n as usize),
            Err(e) => r == Err::<usize, ReplayError>(e),
        },
{
    if head.len() < 4 {
        return Err(ReplayError::UnexpectedEof);
    }
    if !(head[0] == 0x54u8 && head[1] == 0x4fu8 && head[2] == 0x4fu8 && head[3] == 0x54u8) {
        return Err(ReplayError::InvalidHeader);
    }
    if head.len() < HEADER_LEN {
        return Err(ReplayError::UnexpectedEof);
    }
    Ok(read_u32_le(&head[9..13]) as usize)
}

} // verus!
