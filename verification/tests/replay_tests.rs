use tango::compress::{decompress, StreamEnd};
use tango::format::{
    decode_metadata, encode_header, encode_num_inputs, metadata_len, read_metadata, MetadataFormat,
    ReplayError, HEADER_LEN, NUM_INPUTS_OFFSET, VERSION,
};
use tango::lockstep::{Input, Pair};
use tango::metadata::{GameInfo, Metadata, Patch, Side};
use tango::payload::{
    decode_pairs, encode_pair, encode_payload_prefix, encode_state, parse_payload,
};
use tango::replay::{Replay, Writer};

fn input(local_tick: u32, remote_tick: u32, joyflags: u16, packet: &[u8]) -> Input {
    Input { local_tick, remote_tick, joyflags, packet: packet.to_vec() }
}

fn side(nickname: &str) -> Side {
    Side {
        nickname: nickname.to_string(),
        game_info: Some(GameInfo {
            rom_family: "exe6".to_string(),
            rom_variant: 1,
            patch: Some(Patch { name: "p".to_string(), version: "1.0.0".to_string() }),
        }),
        reveal_setup: true,
    }
}

fn metadata() -> Metadata {
    Metadata {
        ts: 1234,
        link_code: "abc".to_string(),
        local_side: Some(side("me")),
        remote_side: Some(side("you")),
        round: 2,
        match_type: 1,
        match_subtype: 0,
    }
}

fn same_input(a: &Input, b: &Input) -> bool {
    a.local_tick == b.local_tick
        && a.remote_tick == b.remote_tick
        && a.joyflags == b.joyflags
        && a.packet == b.packet
}

/// Writes a whole replay file the way the recorder does: header, compressed
/// payload, and the input count patched in at the end.
fn write_file(lpi: u8, raw_size: u8, ls: &[u8], rs: &[u8], pairs: &[Pair<Input, Input>]) -> Vec<u8> {
    let (mut w, header) = Writer::new(b"meta", lpi, raw_size).unwrap();
    let mut file = header;
    file.extend(w.take_output());
    w.write_state(ls).unwrap();
    w.write_state(rs).unwrap();
    for p in pairs {
        w.write_input(lpi, p).unwrap();
    }
    assert_eq!(w.num_inputs(), pairs.len() as u32);
    file.extend(w.take_output());
    let (rest, count) = w.finish().unwrap();
    file.extend(rest);
    let at = NUM_INPUTS_OFFSET as usize;
    file[at..at + 4].copy_from_slice(&count);
    file
}

fn read_file(file: &[u8]) -> Result<Replay, ReplayError> {
    let h = read_metadata(file)?;
    Replay::decode(h.num_inputs, metadata(), &file[h.payload_offset..])
}

#[test]
fn header_bytes() {
    let h = encode_header(7, b"meta");
    assert_eq!(h, vec![0x54, 0x4f, 0x4f, 0x54, 0x11, 7, 0, 0, 0, 4, 0, 0, 0, b'm', b'e', b't', b'a']);
    assert_eq!(encode_num_inputs(0x01020304), vec![4, 3, 2, 1]);
}

#[test]
fn header_roundtrip() {
    let mut data = encode_header(0x1234_5678, b"some metadata");
    data.extend_from_slice(&[9, 9, 9]);
    let h = read_metadata(&data).unwrap();
    assert_eq!(h.num_inputs, 0x1234_5678);
    assert_eq!(h.format, MetadataFormat::Replay11);
    assert_eq!(h.raw_metadata, b"some metadata".to_vec());
    assert_eq!(h.payload_offset, HEADER_LEN + 13);
}

#[test]
fn header_errors() {
    assert_eq!(read_metadata(b"TOO").err(), Some(ReplayError::UnexpectedEof));
    assert_eq!(read_metadata(b"TOAT\x11\0\0\0\0\0\0\0\0").err(), Some(ReplayError::InvalidHeader));
    assert_eq!(read_metadata(b"TOOT\x11\0\0").err(), Some(ReplayError::UnexpectedEof));
    assert_eq!(read_metadata(b"TOOT\x11\0\0\0\0\x05\0\0\0ab").err(), Some(ReplayError::UnexpectedEof));
    assert_eq!(read_metadata(b"TOOT\x12\0\0\0\0\0\0\0\0").err(), Some(ReplayError::InvalidVersion(0x12)));
    let legacy = read_metadata(b"TOOT\x10\x02\0\0\0\x01\0\0\0z").unwrap();
    assert_eq!(legacy.format, MetadataFormat::Replay10);
    assert_eq!(legacy.num_inputs, 2);
    assert_eq!(legacy.raw_metadata, vec![b'z']);
}

#[test]
fn metadata_decoders() {
    assert_eq!(decode_metadata(0x10), Ok(MetadataFormat::Replay10));
    assert_eq!(decode_metadata(VERSION), Ok(MetadataFormat::Replay11));
    assert_eq!(decode_metadata(0), Err(ReplayError::InvalidVersion(0)));
}

#[test]
fn record_bytes() {
    let p = Pair { local: input(0x0102, 0x0304, 0xabcd, &[1, 2]), remote: input(9, 9, 0x0011, &[3, 4]) };
    assert_eq!(
        encode_pair(0, &p),
        vec![0x02, 0x01, 0, 0, 0x04, 0x03, 0, 0, 0xcd, 0xab, 1, 2, 0x11, 0, 3, 4]
    );
    assert_eq!(
        encode_pair(1, &p),
        vec![0x02, 0x01, 0, 0, 0x04, 0x03, 0, 0, 0x11, 0, 3, 4, 0xcd, 0xab, 1, 2]
    );
}

#[test]
fn payload_roundtrip_player_one() {
    let p = Pair { local: input(5, 6, 7, &[1, 2, 3]), remote: input(5, 5, 8, &[4, 5, 6]) };
    let mut data = encode_payload_prefix(0, 3);
    data.extend(encode_state(b"LOCAL"));
    data.extend(encode_state(b"RS"));
    data.extend(encode_pair(0, &p));
    data.extend(encode_pair(0, &p));
    data.extend_from_slice(&[1, 2, 3]);
    let parsed = parse_payload(&data).unwrap();
    assert_eq!(parsed.local_player_index, 0);
    assert_eq!(parsed.raw_input_size, 3);
    assert_eq!(parsed.local_state, b"LOCAL".to_vec());
    assert_eq!(parsed.remote_state, b"RS".to_vec());
    assert_eq!(parsed.input_pairs.len(), 2);
    for q in &parsed.input_pairs {
        assert!(same_input(&q.local, &p.local));
        assert!(same_input(&q.remote, &p.remote));
    }
}

#[test]
fn payload_player_two_keeps_only_local_ticks() {
    let p = Pair { local: input(5, 6, 7, &[1]), remote: input(1, 2, 8, &[2]) };
    let rec = encode_pair(1, &p);
    let pairs = decode_pairs(1, 1, &rec, 0);
    assert_eq!(pairs.len(), 1);
    assert!(same_input(&pairs[0].local, &input(5, 5, 7, &[1])));
    assert!(same_input(&pairs[0].remote, &input(5, 6, 8, &[2])));
}

#[test]
fn payload_too_short() {
    assert!(parse_payload(&[0, 1, 3, 0, 0]).is_none());
    assert!(parse_payload(&[0, 1, 3, 0, 0, 0, 1, 2]).is_none());
    assert!(parse_payload(&[0, 1, 0, 0, 0, 0, 2, 0, 0, 0, 7]).is_none());
    let p = parse_payload(&[0, 1, 0, 0, 0, 0, 1, 0, 0, 0, 7]).unwrap();
    assert_eq!(p.remote_state, vec![7]);
    assert!(p.input_pairs.is_empty());
}

fn sample_pairs(n: u32) -> Vec<Pair<Input, Input>> {
    (0..n)
        .map(|i| Pair {
            local: input(i, i + 100, (i * 3) as u16, &[i as u8, 1, 2, 3]),
            remote: input(i, i, (i * 5) as u16, &[4, 5, i as u8, 7]),
        })
        .collect()
}

#[test]
fn written_replay_reads_back() {
    let pairs = sample_pairs(50);
    let file = write_file(0, 4, b"local state", b"remote state", &pairs);
    assert_eq!(&file[..5], b"TOOT\x11");
    assert_eq!(&file[5..9], &[50, 0, 0, 0]);
    let replay = read_file(&file).unwrap();
    assert!(replay.is_complete);
    assert_eq!(replay.local_player_index, 0);
    assert_eq!(replay.local_state, b"local state".to_vec());
    assert_eq!(replay.remote_state, b"remote state".to_vec());
    assert_eq!(replay.input_pairs.len(), 50);
    for (a, b) in replay.input_pairs.iter().zip(pairs.iter()) {
        assert!(same_input(&a.local, &b.local));
        assert!(same_input(&a.remote, &b.remote));
    }
}

#[test]
fn unfinished_replay_is_incomplete() {
    let pairs = sample_pairs(3);
    let mut file = write_file(0, 4, b"a", b"b", &pairs);
    file[5..9].copy_from_slice(&[0, 0, 0, 0]);
    let replay = read_file(&file).unwrap();
    assert!(!replay.is_complete);
    assert_eq!(replay.input_pairs.len(), 3);
}

#[test]
fn truncated_replay_keeps_complete_records() {
    let pairs = sample_pairs(200);
    let file = write_file(1, 4, b"a", b"b", &pairs);
    let full = read_file(&file).unwrap();
    assert_eq!(full.input_pairs.len(), 200);
    let cut = &file[..file.len() - 7];
    let replay = read_file(cut).unwrap();
    assert!(!replay.is_complete);
    assert!(replay.input_pairs.len() < 200);
    for (a, b) in replay.input_pairs.iter().zip(full.input_pairs.iter()) {
        assert!(same_input(&a.local, &b.local));
        assert!(same_input(&a.remote, &b.remote));
    }
}

#[test]
fn broken_stream_before_states() {
    let file = write_file(0, 4, b"a", b"b", &[]);
    let h = read_metadata(&file).unwrap();
    assert_eq!(
        Replay::decode(h.num_inputs, metadata(), &[1, 2, 3, 4, 5, 6, 7, 8]).err(),
        Some(ReplayError::Decompress)
    );
    assert_eq!(
        Replay::from_payload(0, metadata(), &[0, 4, 9, 0, 0, 0], StreamEnd::Clean).err(),
        Some(ReplayError::UnexpectedEof)
    );
    assert_eq!(
        Replay::from_payload(0, metadata(), &[0, 4, 9, 0, 0, 0], StreamEnd::Truncated).err(),
        Some(ReplayError::UnexpectedEof)
    );
    assert_eq!(
        Replay::from_payload(0, metadata(), &[0, 4, 9, 0, 0, 0], StreamEnd::Broken).err(),
        Some(ReplayError::Decompress)
    );
}

#[test]
fn into_remote_swaps_and_twice_restores() {
    let pairs = sample_pairs(4);
    let file = write_file(0, 4, b"mine", b"theirs", &pairs);
    let replay = read_file(&file).unwrap();
    let remote = replay.into_remote();
    assert_eq!(remote.local_player_index, 1);
    assert_eq!(remote.local_state, b"theirs".to_vec());
    assert_eq!(remote.remote_state, b"mine".to_vec());
    assert_eq!(remote.metadata.local_side.as_ref().unwrap().nickname, "you");
    assert_eq!(remote.metadata.remote_side.as_ref().unwrap().nickname, "me");
    assert!(same_input(&remote.input_pairs[2].local, &pairs[2].remote));
    let back = remote.into_remote();
    assert_eq!(back.local_player_index, 0);
    assert_eq!(back.local_state, b"mine".to_vec());
    assert_eq!(back.metadata.local_side.as_ref().unwrap().nickname, "me");
    assert!(same_input(&back.input_pairs[2].local, &pairs[2].local));
    assert!(same_input(&back.input_pairs[2].remote, &pairs[2].remote));
}

#[test]
fn metadata_length_from_first_bytes() {
    assert_eq!(metadata_len(b"TO"), Err(ReplayError::UnexpectedEof));
    assert_eq!(metadata_len(b"XOOT\x11\0\0\0\0\x05\0\0\0"), Err(ReplayError::InvalidHeader));
    assert_eq!(metadata_len(b"TOOT\x11\0\0\0\0\x05\0"), Err(ReplayError::UnexpectedEof));
    assert_eq!(metadata_len(b"TOOT\x13\0\0\0\0\x05\x01\0\0"), Ok(261));
}

#[test]
fn decode_file_reports_header_errors_first() {
    let pairs = sample_pairs(2);
    let mut file = write_file(0, 4, b"a", b"b", &pairs);
    let replay = Replay::decode_file(&file, metadata()).unwrap();
    assert!(replay.is_complete);
    assert_eq!(replay.input_pairs.len(), 2);
    file[4] = 0x12;
    assert_eq!(Replay::decode_file(&file, metadata()).err(), Some(ReplayError::InvalidVersion(0x12)));
    file[0] = b'X';
    assert_eq!(Replay::decode_file(&file, metadata()).err(), Some(ReplayError::InvalidHeader));
    assert_eq!(Replay::decode_file(b"TOOT\x11", metadata()).err(), Some(ReplayError::UnexpectedEof));
}

#[test]
fn unpatched_count_reads_back_incomplete() {
    let pairs = sample_pairs(3);
    let mut file = write_file(0, 4, b"a", b"b", &pairs);
    file[5..9].copy_from_slice(&[0, 0, 0, 0]);
    let h = read_metadata(&file).unwrap();
    assert_eq!(h.num_inputs, 0);
    let replay = Replay::decode_file(&file, metadata()).unwrap();
    assert!(!replay.is_complete);
    assert_eq!(replay.input_pairs.len(), 3);
}

#[test]
fn flushed_states_decompress_before_finish() {
    let (mut w, _header) = Writer::new(b"", 1, 2).unwrap();
    w.write_state(b"xyz").unwrap();
    w.write_state(b"").unwrap();
    let mut out = w.take_output();
    assert!(w.take_output().is_empty());
    let (payload, end) = decompress(&out);
    assert_eq!(end, StreamEnd::Truncated);
    assert_eq!(payload, vec![1, 2, 3, 0, 0, 0, b'x', b'y', b'z', 0, 0, 0, 0]);
    let (rest, count) = w.finish().unwrap();
    assert_eq!(count, vec![0, 0, 0, 0]);
    out.extend(rest);
    let (payload, end) = decompress(&out);
    assert_eq!(end, StreamEnd::Clean);
    assert_eq!(payload.len(), 13);
}

#[test]
fn record_for_player_two_after_finish() {
    let (mut w, header) = Writer::new(b"", 1, 1).unwrap();
    assert_eq!(header, b"TOOT\x11\0\0\0\0\0\0\0\0".to_vec());
    let ip = Pair { local: input(7, 9, 0x0102, &[0xAA]), remote: input(7, 7, 0x0304, &[0xBB]) };
    w.write_input(1, &ip).unwrap();
    let mut out = w.take_output();
    let (rest, count) = w.finish().unwrap();
    assert_eq!(count, vec![1, 0, 0, 0]);
    out.extend(rest);
    let (payload, end) = decompress(&out);
    assert_eq!(end, StreamEnd::Clean);
    assert_eq!(payload, vec![1, 1, 7, 0, 0, 0, 9, 0, 0, 0, 0x04, 0x03, 0xBB, 0x02, 0x01, 0xAA]);
}

#[test]
fn replays_clone() {
    let file = write_file(0, 4, b"a", b"b", &sample_pairs(2));
    let replay = read_file(&file).unwrap();
    let copy = replay.clone();
    assert_eq!(copy.local_state, replay.local_state);
    assert_eq!(copy.input_pairs.len(), 2);
    assert_eq!(copy.metadata.link_code, "abc");
}

#[test]
fn frame_cut_before_states_is_unexpected_eof() {
    let (mut w, header) = Writer::new(b"", 0, 4).unwrap();
    let mut file = header;
    file.extend(w.take_output());
    assert_eq!(Replay::decode_file(&file, metadata()).err(), Some(ReplayError::UnexpectedEof));
    let h = read_metadata(&file).unwrap();
    assert_eq!(decompress(&file[h.payload_offset..]), (vec![0, 4], StreamEnd::Truncated));
}
