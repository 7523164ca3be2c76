//! The decompressed payload of a replay: player index, packet size, the two
//! emulator states and the input records.

use crate::format::append_bytes;
use crate::le::{
    le_u16_bytes, le_u16_value, le_u32_bytes, le_u32_value, lemma_le_u16_roundtrip,
    lemma_le_u32_roundtrip, read_u16_le, read_u32_le, write_u16_le, write_u32_le,
};
use crate::lockstep::{pairs_view, Input, InputView, Pair};
use vstd::prelude::*;

verus! {

/// The length of one input record for raw packets of `raw_input_size` bytes.
pub open spec fn record_len(raw_input_size: nat) -> nat {
    12 + 2 * raw_input_size
}

/// The first bytes of a payload.
pub open spec fn spec_payload_prefix(local_player_index: u8, raw_input_size: u8) -> Seq<u8> {
    seq![local_player_index, raw_input_size]
}

/// An emulator state as it stands in a payload: its length, then its bytes.
pub open spec fn spec_state_chunk(state: Seq<u8>) -> Seq<u8> {
    le_u32_bytes(state.len() as u32) + state
}

/// Player one's and player two's input of a pair, seen from the player at `local_player_index`.
pub open spec fn players(local_player_index: u8, p: Pair<InputView, InputView>) -> (
    InputView,
    InputView,
) {
    if local_player_index == 0 {
        (p.local, p.remote)
    } else {
        (p.remote, p.local)
    }
}

/// The record of one input pair: the local side's two ticks, then player
/// one's and player two's joypad flags and packets.
pub open spec fn spec_encode_pair(local_player_index: u8, p: Pair<InputView, InputView>) -> Seq<u8> {
    let (p1, p2) = players(local_player_index, p);
    le_u32_bytes(p.local.local_tick) + le_u32_bytes(p.local.remote_tick) + le_u16_bytes(
        p1.joyflags,
    ) + p1.packet + le_u16_bytes(p2.joyflags) + p2.packet
}

/// The records of a sequence of input pairs, one after the other.
pub open spec fn spec_encode_pairs(local_player_index: u8, ps: Seq<Pair<InputView, InputView>>) -> Seq<
    u8,
>
    decreases ps.len(),
{
    if ps.len() == 0 {
        Seq::empty()
    } else {
        spec_encode_pair(local_player_index, ps[0]) + spec_encode_pairs(
            local_player_index,
            ps.drop_first(),
        )
    }
}

/// The input pair read from the record `rec`. Player two's remote tick is
/// not stored: it reads as the local tick.
pub open spec fn spec_decode_pair(local_player_index: u8, raw_input_size: nat, rec: Seq<u8>) -> Pair<
    InputView,
    InputView,
> {
    let n = raw_input_size as int;
    let local_tick = le_u32_value(rec.subrange(0, 4)) as u32;
    let remote_tick = le_u32_value(rec.subrange(4, 8)) as u32;
    let p1 = InputView {
        local_tick,
        remote_tick,
        joyflags: le_u16_value(rec.subrange(8, 10)) as u16,
        packet: rec.subrange(10, 10 + n),
    };
    let p2 = InputView {
        local_tick,
        remote_tick: local_tick,
        joyflags: le_u16_value(rec.subrange(10 + n, 12 + n)) as u16,
        packet: rec.subrange(12 + n, 12 + 2 * n),
    };
    if local_player_index == 0 {
        Pair { local: p1, remote: p2 }
    } else {
        Pair { local: p2, remote: p1 }
    }
}

/// The input pairs read from `s`: one per complete record, in order; an
/// incomplete record at the end is left out.
pub open spec fn spec_decode_pairs(local_player_index: u8, raw_input_size: nat, s: Seq<u8>) -> Seq<
    Pair<InputView, InputView>,
>
    decreases s.len(),
{
    if s.len() < record_len(raw_input_size) {
        Seq::empty()
    } else {
        seq![
            spec_decode_pair(
                local_player_index,
                raw_input_size,
                s.take(record_len(raw_input_size) as int),
            ),
        ] + spec_decode_pairs(
            local_player_index,
            raw_input_size,
            s.skip(record_len(raw_input_size) as int),
        )
    }
}

/// What a pair reads back as once it has been written: the record keeps the
/// local side's ticks, both joypad flags and both packets; player one takes
/// those ticks and player two the local tick twice.
pub open spec fn spec_canonical_pair(local_player_index: u8, p: Pair<InputView, InputView>) -> Pair<
    InputView,
    InputView,
> {
    let (p1, p2) = players(local_player_index, p);
    let q1 = InputView {
        local_tick: p.local.local_tick,
        remote_tick: p.local.remote_tick,
        joyflags: p1.joyflags,
        packet: p1.packet,
    };
    let q2 = InputView {
        local_tick: p.local.local_tick,
        remote_tick: p.local.local_tick,
        joyflags: p2.joyflags,
        packet: p2.packet,
    };
    if local_player_index == 0 {
        Pair { local: q1, remote: q2 }
    } else {
        Pair { local: q2, remote: q1 }
    }
}

/// Both packets of `p` have `raw_input_size` bytes.
pub open spec fn pair_fits(raw_input_size: nat, p: Pair<InputView, InputView>) -> bool {
    p.local.packet.len() == raw_input_size && p.remote.packet.len() == raw_input_size
}

/// What a payload holds.
pub struct PayloadView {
    pub local_player_index: u8,
    pub raw_input_size: u8,
    pub local_state: Seq<u8>,
    pub remote_state: Seq<u8>,
    pub input_pairs: Seq<Pair<InputView, InputView>>,
}

/// The payload read from `s`, or `None` where `s` ends before the two states are complete.
pub open spec fn spec_parse_payload(s: Seq<u8>) -> Option<PayloadView> {
    if s.len() < 6 {
        None
    } else {
        let l1 = le_u32_value(s.subrange(2, 6));
        if s.len() < 10 + l1 {
            None
        } else {
            let l2 = le_u32_value(s.subrange(6 + l1, 10 + l1));
            if s.len() < 10 + l1 + l2 {
                None
            } else {
                Some(
                    PayloadView {
                        local_player_index: s[0],
                        raw_input_size: s[1],
                        local_state: s.subrange(6, 6 + l1),
                        remote_state: s.subrange(10 + l1, 10 + l1 + l2),
                        input_pairs: spec_decode_pairs(
                            s[0],
                            s[1] as nat,
                            s.skip(10 + l1 + l2),
                        ),
                    },
                )
            }
        }
    }
}

/// A payload as the writer lays it out.
pub open spec fn spec_payload(
    local_player_index: u8,
    raw_input_size: u8,
    local_state: Seq<u8>,
    remote_state: Seq<u8>,
    pairs: Seq<Pair<InputView, InputView>>,
) -> Seq<u8> {
    spec_payload_prefix(local_player_index, raw_input_size) + spec_state_chunk(local_state)
        + spec_state_chunk(remote_state) + spec_encode_pairs(local_player_index, pairs)
}

/// A decoded payload.
pub struct Payload {
    pub local_player_index: u8,
    pub raw_input_size: u8,
    pub local_state: Vec<u8>,
    pub remote_state: Vec<u8>,
    pub input_pairs: Vec<Pair<Input, Input>>,
}

/// `p` holds the payload view `v`.
pub open spec fn payload_matches(p: Payload, v: PayloadView) -> bool {
    &&& p.local_player_index == v.local_player_index
    &&& p.raw_input_size == v.raw_input_size
    &&& p.local_state@ == v.local_state
    &&& p.remote_state@ == v.remote_state
    &&& pairs_view(p.input_pairs@) == v.input_pairs
}

/// Reads the input pair in the record at `data[pos..]`.
fn decode_pair(local_player_index: u8, raw_input_size: u8, data: &[u8], pos: usize) -> (r: Pair<
    Input,
    Input,
>)
    requires
        pos + record_len(raw_input_size as nat) <= data@.len(),
    ensures
        r@ == spec_decode_pair(
            local_player_index,
            raw_input_size as nat,
            data@.subrange(pos as int, pos + record_len(raw_input_size as nat)),
        ),
{
    let dlen = data.len();
    let n = raw_input_size as usize;
    let ghost rec = data@.subrange(pos as int, pos + record_len(raw_input_size as nat));
    let local_tick = read_u32_le(&data[pos..pos + 4]);
    let remote_tick = read_u32_le(&data[pos + 4..pos + 8]);
    let joy1 = read_u16_le(&data[pos + 8..pos + 10]);
    let packet1 = vstd::slice::slice_to_vec(&data[pos + 10..pos + 10 + n]);
    let joy2 = read_u16_le(&data[pos + 10 + n..pos + 12 + n]);
    let packet2 = vstd::slice::slice_to_vec(&data[pos + 12 + n..pos + 12 + 2 * n]);
    assert(data@.subrange(pos as int, pos + 4) =~= rec.subrange(0, 4));
    assert(data@.subrange(pos + 4, pos + 8) =~= rec.subrange(4, 8));
    assert(data@.subrange(pos + 8, pos + 10) =~= rec.subrange(8, 10));
    assert(data@.subrange(pos + 10, pos + 10 + n) =~= rec.subrange(10, 10 + n));
    assert(data@.subrange(pos + 10 + n, pos + 12 + n) =~= rec.subrange(10 + n, 12 + n));
    assert(data@.subrange(pos + 12 + n, pos + 12 + 2 * n) =~= rec.subrange(12 + n, 12 + 2 * n));
    let p1 = Input { local_tick, remote_tick, joyflags: joy1, packet: packet1 };
    let p2 = Input { local_tick, remote_tick: local_tick, joyflags: joy2, packet: packet2 };
    if local_player_index == 0 {
        Pair { local: p1, remote: p2 }
    } else {
        Pair { local: p2, remote: p1 }
    }
}

/// Reads the input records in `data[pos..]`, stopping at the first incomplete one.
pub fn decode_pairs(local_player_index: u8, raw_input_size: u8, data: &[u8], pos: usize) -> (r: Vec<
    Pair<Input, Input>,
>)
    requires
        pos <= data@.len(),
    ensures
        pairs_view(r@) == spec_decode_pairs(
            local_player_index,
            raw_input_size as nat,
            data@.skip(pos as int),
        ),
{
    let rec: usize = 12 + 2 * (raw_input_size as usize);
    let ghost all = data@.skip(pos as int);
    let mut out: Vec<Pair<Input, Input>> = Vec::new();
    let mut cur = pos;
    while data.len() - cur >= rec
        invariant
            pos <= cur <= data@.len(),
            rec == record_len(raw_input_size as nat),
            all == data@.skip(pos as int),
            pairs_view(out@) + spec_decode_pairs(
                local_player_index,
                raw_input_size as nat,
                data@.skip(cur as int),
            ) == spec_decode_pairs(local_player_index, raw_input_size as nat, all),
        decreases data@.len() - cur,
    {
        let ghost rest = data@.skip(cur as int);
        let p = decode_pair(local_player_index, raw_input_size, data, cur);
        assert(rest.take(rec as int) =~= data@.subrange(cur as int, cur + rec));
        assert(rest.skip(rec as int) =~= data@.skip(cur + rec));
        let ghost old_out = out@;
        out.push(p);
        assert(pairs_view(out@) =~= pairs_view(old_out) + seq![p@]);
        cur = cur + rec;
        assert(pairs_view(out@) + spec_decode_pairs(
            local_player_index,
            raw_input_size as nat,
            data@.skip(cur as int),
        ) =~= pairs_view(old_out) + spec_decode_pairs(
            local_player_index,
            raw_input_size as nat,
            rest,
        ));
    }
    assert(spec_decode_pairs(local_player_index, raw_input_size as nat, data@.skip(cur as int))
        =~= Seq::empty());
    assert(pairs_view(out@) =~= pairs_view(out@) + Seq::<Pair<InputView, InputView>>::empty());
    out
}

/// Reads a payload; `None` where `data` ends before the two states are complete.
pub fn parse_payload(data: &[u8]) -> (r: Option<Payload>)
    ensures
        match spec_parse_payload(data@) {
            None => r is None,
            Some(v) => r matches Some(p) && payload_matches(p, v),
        },
{
    if data.len() < 6 {
        return None;
    }
    let local_player_index = data[0];
    let raw_input_size = data[1];
    let l1 = read_u32_le(&data[2..6]) as usize;
    if data.len() - 6 < l1 || data.len() - 6 - l1 < 4 {
        return None;
    }
    let local_state = vstd::slice::slice_to_vec(&data[6..6 + l1]);
    let l2 = read_u32_le(&data[6 + l1..10 + l1]) as usize;
    if data.len() - 10 - l1 < l2 {
        return None;
    }
    let remote_state = vstd::slice::slice_to_vec(&data[10 + l1..10 + l1 + l2]);
    let input_pairs = decode_pairs(local_player_index, raw_input_size, data, 10 + l1 + l2);
    Some(Payload { local_player_index, raw_input_size, local_state, remote_state, input_pairs })
}

/// The first bytes of a payload: the local player's index and the raw packet size.
pub fn encode_payload_prefix(local_player_index: u8, raw_input_size: u8) -> (out: Vec<u8>)
    ensures
        out@ == spec_payload_prefix(local_player_index, raw_input_size),
{
    let mut out: Vec<u8> = Vec::new();
    out.push(local_player_index);
    out.push(raw_input_size);
    assert(out@ =~= spec_payload_prefix(local_player_index, raw_input_size));
    out
}

/// An emulator state as it stands in a payload.
pub fn encode_state(state: &[u8]) -> (out: Vec<u8>)
    ensures
        out@ == spec_state_chunk(state@),
{
    let mut out: Vec<u8> = Vec::new();
    let len = write_u32_le(state.len() as u32);
    append_bytes(&mut out, len.as_slice());
    append_bytes(&mut out, state);
    assert(out@ =~= spec_state_chunk(state@));
    out
}

/// The record of the input pair `ip`, for the local player at `local_player_index`.
pub fn encode_pair(local_player_index: u8, ip: &Pair<Input, Input>) -> (out: Vec<u8>)
    ensures
        out@ == spec_encode_pair(local_player_index, ip@),
{
    let mut out: Vec<u8> = Vec::new();
    let t1 = write_u32_le(ip.local.local_tick);
    append_bytes(&mut out, t1.as_slice());
    let t2 = write_u32_le(ip.local.remote_tick);
    append_bytes(&mut out, t2.as_slice());
    let (p1, p2) = if local_player_index == 0 {
        (&ip.local, &ip.remote)
    } else {
        (&ip.remote, &ip.local)
    };
    let j1 = write_u16_le(p1.joyflags);
    append_bytes(&mut out, j1.as_slice());
    append_bytes(&mut out, p1.packet.as_slice());
    let j2 = write_u16_le(p2.joyflags);
    append_bytes(&mut out, j2.as_slice());
    append_bytes(&mut out, p2.packet.as_slice());
    assert(out@ =~= spec_encode_pair(local_player_index, ip@));
    out
}

/// A written pair reads back as its canonical form.
pub proof fn lemma_pair_roundtrip(
    local_player_index: u8,
    raw_input_size: nat,
    p: Pair<InputView, InputView>,
)
    requires
        pair_fits(raw_input_size, p),
    ensures
        spec_encode_pair(local_player_index, p).len() == record_len(raw_input_size),
        spec_decode_pair(local_player_index, raw_input_size, spec_encode_pair(local_player_index, p))
            == spec_canonical_pair(local_player_index, p),
{
    let n = raw_input_size as int;
    let (p1, p2) = players(local_player_index, p);
    let rec = spec_encode_pair(local_player_index, p);
    lemma_le_u32_roundtrip(p.local.local_tick);
    lemma_le_u32_roundtrip(p.local.remote_tick);
    lemma_le_u16_roundtrip(p1.joyflags);
    lemma_le_u16_roundtrip(p2.joyflags);
    assert(rec.subrange(0, 4) =~= le_u32_bytes(p.local.local_tick));
    assert(rec.subrange(4, 8) =~= le_u32_bytes(p.local.remote_tick));
    assert(rec.subrange(8, 10) =~= le_u16_bytes(p1.joyflags));
    assert(rec.subrange(10, 10 + n) =~= p1.packet);
    assert(rec.subrange(10 + n, 12 + n) =~= le_u16_bytes(p2.joyflags));
    assert(rec.subrange(12 + n, 12 + 2 * n) =~= p2.packet);
}

/// Writing pairs one record after the other and reading the records back gives
/// the canonical form of each pair, whatever incomplete record follows them.
pub proof fn lemma_pairs_roundtrip(
    local_player_index: u8,
    raw_input_size: nat,
    ps: Seq<Pair<InputView, InputView>>,
    tail: Seq<u8>,
)
    requires
        forall|i: int| 0 <= i < ps.len() ==> pair_fits(raw_input_size, #[trigger] ps[i]),
        tail.len() < record_len(raw_input_size),
    ensures
        spec_decode_pairs(
            local_player_index,
            raw_input_size,
            spec_encode_pairs(local_player_index, ps) + tail,
        ) == ps.map_values(|p: Pair<InputView, InputView>| spec_canonical_pair(local_player_index, p)),
    decreases ps.len(),
{
    let canon = |p: Pair<InputView, InputView>| spec_canonical_pair(local_player_index, p);
    if ps.len() == 0 {
        assert(spec_encode_pairs(local_player_index, ps) + tail =~= tail);
        assert(ps.map_values(canon) =~= Seq::empty());
    } else {
        let rest = ps.drop_first();
        assert forall|i: int| 0 <= i < rest.len() implies pair_fits(
            raw_input_size,
            #[trigger] rest[i],
        ) by {
            assert(rest[i] == ps[i + 1]);
        }
        lemma_pairs_roundtrip(local_player_index, raw_input_size, rest, tail);
        assert(pair_fits(raw_input_size, ps[0]));
        lemma_pair_roundtrip(local_player_index, raw_input_size, ps[0]);
        let first = spec_encode_pair(local_player_index, ps[0]);
        let s = spec_encode_pairs(local_player_index, ps) + tail;
        let r = record_len(raw_input_size) as int;
        assert(s =~= first + (spec_encode_pairs(local_player_index, rest) + tail));
        assert(s.take(r) =~= first);
        assert(s.skip(r) =~= spec_encode_pairs(local_player_index, rest) + tail);
        assert(ps.map_values(canon) =~= seq![canon(ps[0])] + rest.map_values(canon));
    }
}

/// Appending a pair's record extends the records of a sequence by that pair.
pub proof fn lemma_encode_pairs_push(
    local_player_index: u8,
    ps: Seq<Pair<InputView, InputView>>,
    p: Pair<InputView, InputView>,
)
    ensures
        spec_encode_pairs(local_player_index, ps.push(p)) == spec_encode_pairs(
            local_player_index,
            ps,
        ) + spec_encode_pair(local_player_index, p),
    decreases ps.len(),
{
    if ps.len() == 0 {
        assert(ps.push(p).drop_first() =~= Seq::<Pair<InputView, InputView>>::empty());
        assert(spec_encode_pairs(local_player_index, ps.push(p).drop_first()) =~= Seq::empty());
        assert(spec_encode_pairs(local_player_index, ps.push(p)) =~= spec_encode_pair(
            local_player_index,
            p,
        ));
        assert(spec_encode_pairs(local_player_index, ps) =~= Seq::<u8>::empty());
        assert(Seq::<u8>::empty() + spec_encode_pair(local_player_index, p) =~= spec_encode_pair(
            local_player_index,
            p,
        ));
    } else {
        lemma_encode_pairs_push(local_player_index, ps.drop_first(), p);
        assert(ps.push(p).drop_first() =~= ps.drop_first().push(p));
        assert(ps.push(p)[0] == ps[0]);
        assert(spec_encode_pairs(local_player_index, ps.push(p)) =~= spec_encode_pair(
            local_player_index,
            ps[0],
        ) + (spec_encode_pairs(local_player_index, ps.drop_first()) + spec_encode_pair(
            local_player_index,
            p,
        )));
    }
}

/// A payload laid out by the writer reads back as its prefix, its two states
/// and the canonical form of each pair, also where an incomplete record follows.
#[verifier::rlimit(50)]
#[verifier::spinoff_prover]
pub proof fn lemma_payload_roundtrip(
    local_player_index: u8,
    raw_input_size: u8,
    local_state: Seq<u8>,
    remote_state: Seq<u8>,
    ps: Seq<Pair<InputView, InputView>>,
    tail: Seq<u8>,
)
    requires
        local_state.len() <= u32::MAX,
        remote_state.len() <= u32::MAX,
        forall|i: int| 0 <= i < ps.len() ==> pair_fits(raw_input_size as nat, #[trigger] ps[i]),
        tail.len() < record_len(raw_input_size as nat),
    ensures
        spec_parse_payload(
            spec_payload(local_player_index, raw_input_size, local_state, remote_state, ps) + tail,
        ) == Some(
            PayloadView {
                local_player_index,
                raw_input_size,
                local_state,
                remote_state,
                input_pairs: ps.map_values(
                    |p: Pair<InputView, InputView>| spec_canonical_pair(local_player_index, p),
                ),
            },
        ),
{
    let s = spec_payload(local_player_index, raw_input_size, local_state, remote_state, ps) + tail;
    let l1 = local_state.len() as int;
    let l2 = remote_state.len() as int;
    lemma_le_u32_roundtrip(local_state.len() as u32);
    lemma_le_u32_roundtrip(remote_state.len() as u32);
    let records = spec_encode_pairs(local_player_index, ps) + tail;
    let head = spec_payload_prefix(local_player_index, raw_input_size) + spec_state_chunk(
        local_state,
    );
    let mid = spec_state_chunk(remote_state);
    assert(s =~= head + (mid + records));
    assert(head.len() == 6 + l1);
    assert(s.subrange(2, 6) =~= le_u32_bytes(local_state.len() as u32)) by {
        assert(s.subrange(2, 6) =~= head.subrange(2, 6));
    }
    assert(s.subrange(6, 6 + l1) =~= local_state) by {
        assert(s.subrange(6, 6 + l1) =~= head.subrange(6, 6 + l1));
    }
    let after = s.skip(6 + l1);
    assert(after =~= mid + records);
    assert(s.subrange(6 + l1, 10 + l1) =~= le_u32_bytes(remote_state.len() as u32)) by {
        assert(s.subrange(6 + l1, 10 + l1) =~= after.subrange(0, 4));
        assert(after.subrange(0, 4) =~= mid.subrange(0, 4));
    }
    assert(s.subrange(10 + l1, 10 + l1 + l2) =~= remote_state) by {
        assert(s.subrange(10 + l1, 10 + l1 + l2) =~= after.subrange(4, 4 + l2));
        assert(after.subrange(4, 4 + l2) =~= mid.subrange(4, 4 + l2));
    }
    assert(s.skip(10 + l1 + l2) =~= records) by {
        assert(s.skip(10 + l1 + l2) =~= after.skip(4 + l2));
    }
    assert(le_u32_value(s.subrange(2, 6)) == l1);
    assert(le_u32_value(s.subrange(6 + l1, 10 + l1)) == l2);
    assert(s[0] == local_player_index && s[1] == raw_input_size) by {
        assert(s[0] == head[0] && s[1] == head[1]);
    }
    lemma_pairs_roundtrip(local_player_index, raw_input_size as nat, ps, tail);
}

/// Writing a pair that was read from a record, for player one as the local
/// player, gives back the record.
pub proof fn lemma_record_rewrite(raw_input_size: nat, rec: Seq<u8>)
    requires
        rec.len() == record_len(raw_input_size),
    ensures
        spec_encode_pair(0, spec_decode_pair(0, raw_input_size, rec)) == rec,
{
    let n = raw_input_size as int;
    let p = spec_decode_pair(0, raw_input_size, rec);
    lemma_le_u32_bytes_of_value(rec.subrange(0, 4));
    lemma_le_u32_bytes_of_value(rec.subrange(4, 8));
    lemma_le_u16_bytes_of_value(rec.subrange(8, 10));
    lemma_le_u16_bytes_of_value(rec.subrange(10 + n, 12 + n));
    assert(rec =~= rec.subrange(0, 4) + rec.subrange(4, 8) + rec.subrange(8, 10) + rec.subrange(
        10,
        10 + n,
    ) + rec.subrange(10 + n, 12 + n) + rec.subrange(12 + n, 12 + 2 * n));
}

/// Four bytes are the bytes of their value.
proof fn lemma_le_u32_bytes_of_value(b: Seq<u8>)
    requires
        b.len() == 4,
    ensures
        0 <= le_u32_value(b) <= u32::MAX,
        le_u32_bytes(le_u32_value(b) as u32) == b,
{
    let (b0, b1, b2, b3) = (b[0], b[1], b[2], b[3]);
    let v = le_u32_value(b);
    assert(0 <= v <= u32::MAX);
    let n = v as u32;
    assert(n % 256 == b0 && (n / 256) % 256 == b1 && (n / 65536) % 256 == b2 && n / 16777216
        == b3) by (nonlinear_arith)
        requires
            n == b0 + 256 * b1 + 65536 * b2 + 16777216 * b3,
    ;
    assert(le_u32_bytes(n) =~= b);
}

/// Two bytes are the bytes of their value.
proof fn lemma_le_u16_bytes_of_value(b: Seq<u8>)
    requires
        b.len() == 2,
    ensures
        0 <= le_u16_value(b) <= u16::MAX,
        le_u16_bytes(le_u16_value(b) as u16) == b,
{
    let (b0, b1) = (b[0], b[1]);
    let v = le_u16_value(b);
    let n = v as u16;
    assert(n % 256 == b0 && n / 256 == b1) by (nonlinear_arith)
        requires
            n == b0 + 256 * b1,
    ;
    assert(le_u16_bytes(n) =~= b);
}

/// A writer that has written the prefix and the two states holds the payload
/// of a match without input pairs.
pub proof fn lemma_payload_start(
    local_player_index: u8,
    raw_input_size: u8,
    local_state: Seq<u8>,
    remote_state: Seq<u8>,
)
    ensures
        spec_payload(
            local_player_index,
            raw_input_size,
            local_state,
            remote_state,
            Seq::empty(),
        ) == spec_payload_prefix(local_player_index, raw_input_size) + spec_state_chunk(
            local_state,
        ) + spec_state_chunk(remote_state),
{
    let e = Seq::<Pair<InputView, InputView>>::empty();
    assert(spec_encode_pairs(local_player_index, e) =~= Seq::<u8>::empty());
    assert(spec_payload(local_player_index, raw_input_size, local_state, remote_state, e)
        =~= spec_payload_prefix(local_player_index, raw_input_size) + spec_state_chunk(
        local_state,
    ) + spec_state_chunk(remote_state));
}

/// Writing one more input pair appends its record to the payload.
pub proof fn lemma_payload_push(
    local_player_index: u8,
    raw_input_size: u8,
    local_state: Seq<u8>,
    remote_state: Seq<u8>,
    ps: Seq<Pair<InputView, InputView>>,
    p: Pair<InputView, InputView>,
)
    ensures
        spec_payload(local_player_index, raw_input_size, local_state, remote_state, ps.push(p))
            == spec_payload(local_player_index, raw_input_size, local_state, remote_state, ps)
            + spec_encode_pair(local_player_index, p),
{
    lemma_encode_pairs_push(local_player_index, ps, p);
    assert(spec_payload(local_player_index, raw_input_size, local_state, remote_state, ps.push(p))
        =~= spec_payload(local_player_index, raw_input_size, local_state, remote_state, ps)
        + spec_encode_pair(local_player_index, p));
}

/// An emulator state stands in a payload as its length, a little-endian
/// `u32` (cut to 32 bits), followed by the state's bytes.
pub proof fn lemma_state_chunk_layout(state: Seq<u8>)
    ensures
        spec_state_chunk(state).len() == 4 + state.len(),
        spec_state_chunk(state)[0] == (state.len() as u32) % 256,
        spec_state_chunk(state)[1] == ((state.len() as u32) / 256) % 256,
        spec_state_chunk(state)[2] == ((state.len() as u32) / 65536) % 256,
        spec_state_chunk(state)[3] == (state.len() as u32) / 16777216,
        le_u32_value(spec_state_chunk(state).take(4)) == state.len() as u32,
        state.len() <= u32::MAX ==> le_u32_value(spec_state_chunk(state).take(4)) == state.len(),
        spec_state_chunk(state).skip(4) == state,
{
    let c = spec_state_chunk(state);
    lemma_le_u32_roundtrip(state.len() as u32);
    assert(c.take(4) =~= le_u32_bytes(state.len() as u32));
    assert(c.skip(4) =~= state);
}

/// A payload is read at fixed places: the player index at byte 0, the packet
/// size at byte 1, the local state's length as a little-endian `u32` at
/// bytes 2..6 and the state after it, then the remote state's length as a
/// little-endian `u32` and that state, then the records. It reads as a
/// payload exactly when it is long enough for both states.
pub proof fn lemma_parse_payload_layout(s: Seq<u8>)
    ensures
        s.len() < 6 ==> spec_parse_payload(s) is None,
        s.len() >= 6 ==> ({
            let l1 = le_u32_value(s.subrange(2, 6));
            &&& s.len() < 10 + l1 ==> spec_parse_payload(s) is None
            &&& s.len() >= 10 + l1 ==> ({
                let l2 = le_u32_value(s.subrange(6 + l1, 10 + l1));
                &&& (spec_parse_payload(s) is Some <==> s.len() >= 10 + l1 + l2)
                &&& spec_parse_payload(s) matches Some(p) ==> {
                    &&& p.local_player_index == s[0]
                    &&& p.raw_input_size == s[1]
                    &&& p.local_state.len() == l1
                    &&& p.local_state == s.subrange(6, 6 + l1)
                    &&& p.remote_state.len() == l2
                    &&& p.remote_state == s.subrange(10 + l1, 10 + l1 + l2)
                    &&& p.input_pairs == spec_decode_pairs(
                        s[0],
                        s[1] as nat,
                        s.skip(10 + l1 + l2),
                    )
                }
            })
        }),
{
}

} // verus!
