//! Reading a replay back and writing one while a match is played.

use crate::compress::{
    decompress, encoder_finish, encoder_flush, encoder_new, encoder_take_output, encoder_write_all,
    stream_input, stream_output, stream_taken, zstd_copy_decode, StreamEnd, ZstdStream,
};
use crate::format::{
    encode_header, encode_num_inputs, lemma_header_roundtrip, lemma_set_num_inputs, read_metadata,
    spec_header, spec_read_header, spec_set_num_inputs, HeaderView, MetadataFormat, ReplayError,
};
use crate::le::le_u32_bytes;
use crate::lockstep::{pairs_view, Input, InputView, Pair};
use crate::metadata::Metadata;
use crate::payload::{
    encode_pair, encode_payload_prefix, encode_state, lemma_payload_roundtrip, pair_fits,
    parse_payload, record_len, spec_canonical_pair, spec_encode_pair, spec_parse_payload,
    spec_payload, spec_payload_prefix, spec_state_chunk,
};
use vstd::prelude::*;

verus! {

/// The compression level of the payload stream.
pub const COMPRESSION_LEVEL: i32 = 3;

/// A recorded match.
#[derive(Clone)]
pub struct Replay {
    /// The file announces as many input pairs as it holds, and at least one.
    pub is_complete: bool,
    pub metadata: Metadata,
    pub local_player_index: u8,
    pub local_state: Vec<u8>,
    pub remote_state: Vec<u8>,
    pub input_pairs: Vec<Pair<Input, Input>>,
}

/// The mathematical value of a [`Replay`].
pub struct ReplayView {
    pub is_complete: bool,
    pub metadata: Metadata,
    pub local_player_index: u8,
    pub local_state: Seq<u8>,
    pub remote_state: Seq<u8>,
    pub input_pairs: Seq<Pair<InputView, InputView>>,
}

impl View for Replay {
    type V = ReplayView;

    open spec fn view(&self) -> ReplayView {
        ReplayView {
            is_complete: self.is_complete,
            metadata: self.metadata,
            local_player_index: self.local_player_index,
            local_state: self.local_state@,
            remote_state: self.remote_state@,
            input_pairs: pairs_view(self.input_pairs@),
        }
    }
}

/// The replay read from the decompressed `payload`, where the file announced
/// `num_inputs` pairs. `end` tells how the stream ended: a payload that ends
/// before both states are complete is `UnexpectedEof` after a clean end or
/// inside an incomplete frame, and `Decompress` where the decoder rejected
/// the stream.
pub open spec fn spec_replay_from_payload(
    num_inputs: usize,
    metadata: Metadata,
    payload: Seq<u8>,
    end: StreamEnd,
) -> Result<ReplayView, ReplayError> {
    match spec_parse_payload(payload) {
        None => Err(
            if end == StreamEnd::Broken {
                ReplayError::Decompress
            } else {
                ReplayError::UnexpectedEof
            },
        ),
        Some(p) => Ok(
            ReplayView {
                is_complete: num_inputs > 0 && num_inputs == p.input_pairs.len(),
                metadata,
                local_player_index: p.local_player_index,
                local_state: p.local_state,
                remote_state: p.remote_state,
                input_pairs: p.input_pairs,
            },
        ),
    }
}

/// `r` is the result `s`, by value.
pub open spec fn replay_result_matches(
    r: Result<Replay, ReplayError>,
    s: Result<ReplayView, ReplayError>,
) -> bool {
    match s {
        Ok(v) => r matches Ok(rep) && rep@ == v,
        Err(e) => r == Err::<Replay, ReplayError>(e),
    }
}

/// The replay read from a whole file, with `metadata` as its decoded metadata:
/// an error in the header comes first; then the payload after the header is
/// decompressed and read.
pub open spec fn spec_decode_file(data: Seq<u8>, metadata: Metadata) -> Result<
    ReplayView,
    ReplayError,
> {
    match spec_read_header(data) {
        Err(e) => Err(e),
        Ok(h) => spec_replay_from_payload(
            h.num_inputs as usize,
            metadata,
            zstd_copy_decode(data.skip(h.payload_offset)).0,
            zstd_copy_decode(data.skip(h.payload_offset)).1,
        ),
    }
}

/// The same match seen from the other player.
pub open spec fn spec_into_remote(r: ReplayView) -> ReplayView {
    ReplayView {
        is_complete: r.is_complete,
        metadata: r.metadata.spec_sides_swapped(),
        local_player_index: (1 - r.local_player_index) as u8,
        local_state: r.remote_state,
        remote_state: r.local_state,
        input_pairs: r.input_pairs.map_values(
            |p: Pair<InputView, InputView>| Pair { local: p.remote, remote: p.local },
        ),
    }
}

impl Replay {
    /// Builds the replay from its decompressed payload.
    pub fn from_payload(num_inputs: usize, metadata: Metadata, payload: &[u8], end: StreamEnd) -> (r:
        Result<Replay, ReplayError>)
        ensures
            replay_result_matches(
                r,
                spec_replay_from_payload(num_inputs, metadata, payload@, end),
            ),
    {
        match parse_payload(payload) {
            None => {
                match end {
                    StreamEnd::Broken => Err(ReplayError::Decompress),
                    _ => Err(ReplayError::UnexpectedEof),
                }
            },
            Some(p) => {
                let n = p.input_pairs.len();
                Ok(
                    Replay {
                        is_complete: num_inputs > 0 && num_inputs == n,
                        metadata,
                        local_player_index: p.local_player_index,
                        local_state: p.local_state,
                        remote_state: p.remote_state,
                        input_pairs: p.input_pairs,
                    },
                )
            },
        }
    }

    /// Decompresses the payload that follows the header of a replay file and
    /// reads the replay from it. Input records stop at the first one that the
    /// stream does not hold completely.
    pub fn decode(num_inputs: usize, metadata: Metadata, compressed: &[u8]) -> (r: Result<
        Replay,
        ReplayError,
    >)
        ensures
            replay_result_matches(
                r,
                spec_replay_from_payload(
                    num_inputs,
                    metadata,
                    zstd_copy_decode(compressed@).0,
                    zstd_copy_decode(compressed@).1,
                ),
            ),
    {
        let (payload, end) = decompress(compressed);
        Replay::from_payload(num_inputs, metadata, payload.as_slice(), end)
    }

    /// Reads a replay from a whole file: checks the header (magic bytes,
    /// version, announced pairs, metadata) and decodes the payload after it.
    /// `metadata` is the decoded form of the file's metadata.
    pub fn decode_file(data: &[u8], metadata: Metadata) -> (r: Result<Replay, ReplayError>)
        ensures
            replay_result_matches(r, spec_decode_file(data@, metadata)),
    {
        match read_metadata(data) {
            Err(e) => Err(e),
            Ok(header) => Replay::decode(
                header.num_inputs,
                metadata,
                &data[header.payload_offset..data.len()],
            ),
        }
    }

    /// The same match seen from the other player: the metadata's sides, the
    /// two states and the two sides of every input pair change places.
    pub fn into_remote(self) -> (r: Replay)
        requires
            self.local_player_index <= 1,
        ensures
            r@ == spec_into_remote(self@),
    {
        let ghost before = self@;
        let mut s = self;
        s.metadata.swap_sides();
        s.local_player_index = 1 - s.local_player_index;
        core::mem::swap(&mut s.local_state, &mut s.remote_state);
        let ghost start = s.input_pairs@;
        let mut i: usize = 0;
        while i < s.input_pairs.len()
            invariant
                i <= s.input_pairs@.len(),
                s.input_pairs@.len() == start.len(),
                s.metadata == before.metadata.spec_sides_swapped(),
                s.local_state@ == before.remote_state,
                s.remote_state@ == before.local_state,
                s.local_player_index == (1 - before.local_player_index) as u8,
                s.is_complete == before.is_complete,
                forall|j: int|
                    0 <= j < i ==> (#[trigger] s.input_pairs@[j]).local == start[j].remote
                        && s.input_pairs@[j].remote == start[j].local,
                forall|j: int| i <= j < start.len() ==> #[trigger] s.input_pairs@[j] == start[j],
            decreases start.len() - i,
        {
            s.input_pairs[i].swap_sides();
            i = i + 1;
        }
        assert(pairs_view(start) == before.input_pairs);
        assert(pairs_view(s.input_pairs@) =~= before.input_pairs.map_values(
            |p: Pair<InputView, InputView>| Pair { local: p.remote, remote: p.local },
        ));
        s
    }
}

/// Seeing a match from the other player keeps whether the replay is
/// complete; it exchanges the metadata's sides and the two states, turns
/// player index 0 into 1 and 1 into 0, and exchanges the sides of every
/// input pair, keeping their number and order.
pub proof fn lemma_into_remote_swaps_sides(r: ReplayView)
    requires
        r.local_player_index <= 1,
    ensures
        spec_into_remote(r).is_complete == r.is_complete,
        spec_into_remote(r).metadata.local_side == r.metadata.remote_side,
        spec_into_remote(r).metadata.remote_side == r.metadata.local_side,
        spec_into_remote(r).metadata.ts == r.metadata.ts,
        spec_into_remote(r).metadata.link_code == r.metadata.link_code,
        spec_into_remote(r).metadata.round == r.metadata.round,
        spec_into_remote(r).metadata.match_type == r.metadata.match_type,
        spec_into_remote(r).metadata.match_subtype == r.metadata.match_subtype,
        spec_into_remote(r).local_player_index != r.local_player_index,
        spec_into_remote(r).local_player_index <= 1,
        spec_into_remote(r).local_state == r.remote_state,
        spec_into_remote(r).remote_state == r.local_state,
        spec_into_remote(r).input_pairs.len() == r.input_pairs.len(),
        forall|i: int|
            0 <= i < r.input_pairs.len() ==> (#[trigger] spec_into_remote(r).input_pairs[i]).local
                == r.input_pairs[i].remote && spec_into_remote(r).input_pairs[i].remote
                == r.input_pairs[i].local,
{
}

/// Seeing a match from the other player twice gives back the match.
pub proof fn lemma_into_remote_involution(r: ReplayView)
    requires
        r.local_player_index <= 1,
    ensures
        spec_into_remote(spec_into_remote(r)) == r,
{
    let twice = spec_into_remote(spec_into_remote(r));
    assert(twice.input_pairs =~= r.input_pairs);
}

/// Writes a replay while the match is played: the header, then a zstd stream
/// of the payload. The compressed bytes collect in memory until
/// [`Writer::take_output`] hands them out.
pub struct Writer {
    stream: ZstdStream,
    num_inputs: u32,
}

impl Writer {
    /// The uncompressed payload written so far.
    pub closed spec fn payload(&self) -> Seq<u8> {
        stream_input(self.stream)
    }

    /// The compressed bytes already handed out by [`Writer::take_output`].
    pub closed spec fn handed_out(&self) -> Seq<u8> {
        stream_taken(self.stream)
    }

    /// The compressed bytes produced and not yet handed out.
    pub closed spec fn pending_output(&self) -> Seq<u8> {
        stream_output(self.stream)
    }

    /// The number of input pairs written so far.
    pub closed spec fn num_written(&self) -> u32 {
        self.num_inputs
    }

    /// All compressed bytes produced so far decompress to the whole payload so
    /// far: a file cut off after them still holds every byte of the payload.
    pub open spec fn flushed(&self) -> bool {
        zstd_copy_decode(self.handed_out() + self.pending_output()).0 == self.payload()
    }

    /// The compressed bytes produced before stay as they are; new ones follow them.
    pub open spec fn output_extends(&self, before: Writer) -> bool {
        &&& self.handed_out() == before.handed_out()
        &&& before.pending_output().len() <= self.pending_output().len()
        &&& self.pending_output().take(before.pending_output().len() as int)
            == before.pending_output()
    }

    /// Starts a replay: gives the header, announcing no input pairs yet, and a
    /// writer whose payload starts with the local player's index and the raw
    /// packet size, compressed and flushed. A metadata length beyond `u32`
    /// is written truncated.
    pub fn new(raw_metadata: &[u8], local_player_index: u8, raw_input_size: u8) -> (r: Result<
        (Writer, Vec<u8>),
        ReplayError,
    >)
        ensures
            r is Ok,
            r matches Ok((w, header)) ==> {
                &&& header@ == spec_header(0, raw_metadata@)
                &&& w.payload() == spec_payload_prefix(local_player_index, raw_input_size)
                &&& w.num_written() == 0
                &&& w.handed_out() == Seq::<u8>::empty()
                &&& w.flushed()
            },
    {
        let header = encode_header(0, raw_metadata);
        let mut stream = match encoder_new(COMPRESSION_LEVEL) {
            Ok(s) => s,
            Err(()) => {
                return Err(ReplayError::Compress);
            },
        };
        let prefix = encode_payload_prefix(local_player_index, raw_input_size);
        if encoder_write_all(&mut stream, prefix.as_slice()).is_err() {
            return Err(ReplayError::Compress);
        }
        if encoder_flush(&mut stream).is_err() {
            return Err(ReplayError::Compress);
        }
        assert(stream_input(stream) =~= spec_payload_prefix(local_player_index, raw_input_size));
        Ok((Writer { stream, num_inputs: 0 }, header))
    }

    /// The number of input pairs written so far.
    pub fn num_inputs(&self) -> (n: u32)
        ensures
            n == self.num_written(),
    {
        self.num_inputs
    }

    /// Writes an emulator state (its length, then its bytes; a length beyond
    /// `u32` is written truncated) and flushes the stream.
    pub fn write_state(&mut self, state: &[u8]) -> (r: Result<(), ReplayError>)
        ensures
            r is Ok,
            final(self).num_written() == old(self).num_written(),
            final(self).payload() == old(self).payload() + spec_state_chunk(state@),
            final(self).output_extends(*old(self)),
            final(self).flushed(),
    {
        let chunk = encode_state(state);
        let ghost p0 = stream_output(self.stream);
        if encoder_write_all(&mut self.stream, chunk.as_slice()).is_err() {
            return Err(ReplayError::Compress);
        }
        let ghost p1 = stream_output(self.stream);
        if encoder_flush(&mut self.stream).is_err() {
            return Err(ReplayError::Compress);
        }
        let ghost p2 = stream_output(self.stream);
        assert(p2.take(p0.len() as int) =~= p0);
        Ok(())
    }

    /// Writes the record of an input pair and counts it. The record is not
    /// flushed: it may stay inside the compressor until a later flush or the end.
    pub fn write_input(&mut self, local_player_index: u8, ip: &Pair<Input, Input>) -> (r: Result<
        (),
        ReplayError,
    >)
        requires
            old(self).num_written() < u32::MAX,
        ensures
            r is Ok,
            final(self).payload() == old(self).payload() + spec_encode_pair(local_player_index, ip@),
            final(self).num_written() == old(self).num_written() + 1,
            final(self).output_extends(*old(self)),
    {
        let record = encode_pair(local_player_index, ip);
        if encoder_write_all(&mut self.stream, record.as_slice()).is_err() {
            return Err(ReplayError::Compress);
        }
        self.num_inputs = self.num_inputs + 1;
        Ok(())
    }

    /// Hands out the compressed bytes produced so far, and not handed out before.
    pub fn take_output(&mut self) -> (out: Vec<u8>)
        ensures
            out@ == old(self).pending_output(),
            final(self).pending_output() == Seq::<u8>::empty(),
            final(self).handed_out() == old(self).handed_out() + out@,
            final(self).payload() == old(self).payload(),
            final(self).num_written() == old(self).num_written(),
    {
        encoder_take_output(&mut self.stream)
    }

    /// Ends the stream. Gives the last compressed bytes (those still pending,
    /// then the end of the frame) and the four bytes that belong at
    /// [`crate::format::NUM_INPUTS_OFFSET`] of the file: the number of input
    /// pairs written. The bytes handed out before, followed by the last ones,
    /// are one complete zstd frame of the payload.
    pub fn finish(self) -> (r: Result<(Vec<u8>, Vec<u8>), ReplayError>)
        ensures
            r is Ok,
            r matches Ok((rest, count)) ==> {
                &&& count@ == le_u32_bytes(self.num_written())
                &&& self.pending_output().len() <= rest@.len()
                &&& rest@.take(self.pending_output().len() as int) == self.pending_output()
                &&& zstd_copy_decode(self.handed_out() + rest@) == (self.payload(), StreamEnd::Clean)
            },
    {
        let count = encode_num_inputs(self.num_inputs);
        match encoder_finish(self.stream) {
            Ok(rest) => Ok((rest, count)),
            Err(()) => Err(ReplayError::Compress),
        }
    }
}

/// A payload written for a match reads back as a replay of that match: its
/// player index, its states and the canonical form of each input pair, also
/// where the recording broke off inside a record. The replay is complete
/// exactly where the file announces as many pairs as it holds, and at least one.
pub proof fn lemma_written_replay_reads_back(
    num_inputs: usize,
    metadata: Metadata,
    end: StreamEnd,
    local_player_index: u8,
    raw_input_size: u8,
    local_state: Seq<u8>,
    remote_state: Seq<u8>,
    ps: Seq<Pair<InputView, InputView>>,
    tail: Seq<u8>,
)
    requires
        local_state.len() <= u32::MAX,
        remote_state.len() <= u32::MAX,
        forall|i: int| 0 <= i < ps.len() ==> pair_fits(raw_input_size as nat, #[trigger] ps[i]),
        tail.len() < record_len(raw_input_size as nat),
    ensures
        spec_replay_from_payload(
            num_inputs,
            metadata,
            spec_payload(local_player_index, raw_input_size, local_state, remote_state, ps) + tail,
            end,
        ) == Ok::<ReplayView, ReplayError>(
            ReplayView {
                is_complete: num_inputs > 0 && num_inputs == ps.len(),
                metadata,
                local_player_index,
                local_state,
                remote_state,
                input_pairs: ps.map_values(
                    |p: Pair<InputView, InputView>| spec_canonical_pair(local_player_index, p),
                ),
            },
        ),
{
    lemma_payload_roundtrip(
        local_player_index,
        raw_input_size,
        local_state,
        remote_state,
        ps,
        tail,
    );
}

/// A file written by a [`Writer`] reads back as the match that was written:
/// its header as written, with the number of pairs set when the writer was
/// finished, and the replay of the payload, complete where at least one pair
/// was written. A file whose count was never set (the writer was dropped
/// unfinished) announces no pairs and reads back as incomplete.
pub proof fn lemma_finished_file_reads_back(
    raw_metadata: Seq<u8>,
    metadata: Metadata,
    compressed: Seq<u8>,
    local_player_index: u8,
    raw_input_size: u8,
    local_state: Seq<u8>,
    remote_state: Seq<u8>,
    ps: Seq<Pair<InputView, InputView>>,
)
    requires
        raw_metadata.len() <= u32::MAX,
        local_state.len() <= u32::MAX,
        remote_state.len() <= u32::MAX,
        ps.len() <= u32::MAX,
        forall|i: int| 0 <= i < ps.len() ==> pair_fits(raw_input_size as nat, #[trigger] ps[i]),
        zstd_copy_decode(compressed) == (
            spec_payload(local_player_index, raw_input_size, local_state, remote_state, ps),
            StreamEnd::Clean,
        ),
    ensures
        spec_read_header(
            spec_set_num_inputs(spec_header(0, raw_metadata) + compressed, ps.len() as u32),
        ) == Ok::<HeaderView, ReplayError>(
            HeaderView {
                format: MetadataFormat::Replay11,
                num_inputs: ps.len() as u32,
                metadata: raw_metadata,
                payload_offset: 13 + raw_metadata.len() as int,
            },
        ),
        spec_decode_file(
            spec_set_num_inputs(spec_header(0, raw_metadata) + compressed, ps.len() as u32),
            metadata,
        ) == Ok::<ReplayView, ReplayError>(
            ReplayView {
                is_complete: ps.len() > 0,
                metadata,
                local_player_index,
                local_state,
                remote_state,
                input_pairs: ps.map_values(
                    |p: Pair<InputView, InputView>| spec_canonical_pair(local_player_index, p),
                ),
            },
        ),
        spec_decode_file(spec_header(0, raw_metadata) + compressed, metadata) == Ok::<
            ReplayView,
            ReplayError,
        >(
            ReplayView {
                is_complete: false,
                metadata,
                local_player_index,
                local_state,
                remote_state,
                input_pairs: ps.map_values(
                    |p: Pair<InputView, InputView>| spec_canonical_pair(local_player_index, p),
                ),
            },
        ),
{
    let n = ps.len() as u32;
    lemma_set_num_inputs(n, raw_metadata, compressed);
    lemma_header_roundtrip(n, raw_metadata, compressed);
    lemma_decode_file_after_header(raw_metadata, n, compressed, metadata);
    lemma_decode_file_after_header(raw_metadata, 0, compressed, metadata);
    let payload = spec_payload(local_player_index, raw_input_size, local_state, remote_state, ps);
    assert(payload + Seq::<u8>::empty() =~= payload);
    lemma_written_replay_reads_back(
        n as usize,
        metadata,
        StreamEnd::Clean,
        local_player_index,
        raw_input_size,
        local_state,
        remote_state,
        ps,
        Seq::empty(),
    );
    lemma_written_replay_reads_back(
        0,
        metadata,
        StreamEnd::Clean,
        local_player_index,
        raw_input_size,
        local_state,
        remote_state,
        ps,
        Seq::empty(),
    );
}

/// A file that starts with a header of the current version reads as the
/// replay of what the bytes after the header decompress to.
#[verifier::spinoff_prover]
proof fn lemma_decode_file_after_header(
    raw_metadata: Seq<u8>,
    num_inputs: u32,
    compressed: Seq<u8>,
    metadata: Metadata,
)
    requires
        raw_metadata.len() <= u32::MAX,
    ensures
        spec_decode_file(spec_header(num_inputs, raw_metadata) + compressed, metadata)
            == spec_replay_from_payload(
            num_inputs as usize,
            metadata,
            zstd_copy_decode(compressed).0,
            zstd_copy_decode(compressed).1,
        ),
{
    let file = spec_header(num_inputs, raw_metadata) + compressed;
    let off = 13 + raw_metadata.len() as int;
    lemma_header_roundtrip(num_inputs, raw_metadata, compressed);
    let h = HeaderView {
        format: MetadataFormat::Replay11,
        num_inputs,
        metadata: raw_metadata,
        payload_offset: off,
    };
    assert(spec_read_header(file) == Ok::<HeaderView, ReplayError>(h));
    assert(file.skip(off) =~= compressed);
    assert(spec_decode_file(file, metadata) == spec_replay_from_payload(
        num_inputs as usize,
        metadata,
        zstd_copy_decode(file.skip(off)).0,
        zstd_copy_decode(file.skip(off)).1,
    ));
}

} // verus!
