//! What holds of the demultiplexer over whole streams.

use crate::mpegts::after_bytes;
use crate::mpegts::after_packet;
use crate::mpegts::consume;
use crate::mpegts::first_h264;
use crate::mpegts::first_program;
use crate::mpegts::fresh;
use crate::mpegts::in_front;
use crate::mpegts::packet_payload;
use crate::mpegts::packet_pid;
use crate::mpegts::pes_payload;
use crate::mpegts::table_section;
use crate::mpegts::unit_starts;
use crate::mpegts::video_bytes;
use crate::mpegts::DemuxState;
use crate::mpegts::SYNC;
use crate::mpegts::TS_PACKET;
use vstd::prelude::*;

verus! {

/// The state `s` with other pending bytes.
pub open spec fn holding(s: DemuxState, pending: Seq<u8>) -> DemuxState {
    DemuxState { pending, ..s }
}

// ---------------------------------------------------------------------------
// Any stream
// ---------------------------------------------------------------------------

proof fn lemma_consume_split(s: DemuxState, more: Seq<u8>)
    ensures
        ({
            let (mid, first) = consume(s);
            let (last, second) = consume(holding(mid, mid.pending + more));
            consume(holding(s, s.pending + more)) == (last, first + second)
        }),
    decreases s.pending.len(),
{
    let (mid, first) = consume(s);
    let (last, second) = consume(holding(mid, mid.pending + more));
    let all = holding(s, s.pending + more);
    if s.pending.len() < TS_PACKET {
        assert(Seq::<Seq<u8>>::empty() + second =~= second);
    } else if s.pending[0] != SYNC {
        let t = holding(s, s.pending.skip(1));
        lemma_consume_split(t, more);
        assert((s.pending + more).skip(1) =~= s.pending.skip(1) + more);
    } else {
        let n = TS_PACKET as int;
        assert((s.pending + more).take(n) =~= s.pending.take(n));
        assert((s.pending + more).skip(n) =~= s.pending.skip(n) + more);
        let (next, unit) = after_packet(s, s.pending.take(n));
        let (next_all, unit_all) = after_packet(all, s.pending.take(n));
        let t = holding(next, s.pending.skip(n));
        lemma_consume_split(t, more);
        assert(holding(next_all, (s.pending + more).skip(n)) =~= holding(t, t.pending + more));
        assert(in_front(unit, consume(t).1) + second =~= in_front(unit, consume(t).1 + second));
    }
}

/// How the stream is cut into pieces does not matter: feeding `a` and then `b`
/// ends in the state, and gives the access units, that feeding both at once does.
pub proof fn law_chunking_is_immaterial(s: DemuxState, a: Seq<u8>, b: Seq<u8>)
    ensures
        ({
            let (mid, first) = after_bytes(s, a);
            let (last, second) = after_bytes(mid, b);
            after_bytes(s, a + b) == (last, first + second)
        }),
{
    lemma_consume_split(holding(s, s.pending + a), b);
    assert(s.pending + a + b =~= s.pending + (a + b));
}

/// What stays behind is shorter than a packet, and is the end of what arrived.
pub proof fn law_tail_is_shorter_than_a_packet(s: DemuxState, data: Seq<u8>)
    ensures
        after_bytes(s, data).0.pending.len() < TS_PACKET,
        after_bytes(s, data).0.pending.is_suffix_of(s.pending + data),
{
    lemma_tail(holding(s, s.pending + data));
}

proof fn lemma_tail(s: DemuxState)
    ensures
        consume(s).0.pending.len() < TS_PACKET,
        consume(s).0.pending.is_suffix_of(s.pending),
    decreases s.pending.len(),
{
    if s.pending.len() < TS_PACKET {
    } else if s.pending[0] != SYNC {
        lemma_tail(holding(s, s.pending.skip(1)));
    } else {
        let (next, unit) = after_packet(s, s.pending.take(TS_PACKET as int));
        lemma_tail(holding(next, s.pending.skip(TS_PACKET as int)));
    }
}

/// A PID that has been learned never changes, whatever the stream says later.
pub proof fn law_learned_pids_stay(s: DemuxState, data: Seq<u8>)
    ensures
        s.pmt_pid is Some ==> after_bytes(s, data).0.pmt_pid == s.pmt_pid,
        s.video_pid is Some ==> after_bytes(s, data).0.video_pid == s.video_pid,
{
    lemma_pids(holding(s, s.pending + data));
}

proof fn lemma_pids(s: DemuxState)
    ensures
        s.pmt_pid is Some ==> consume(s).0.pmt_pid == s.pmt_pid,
        s.video_pid is Some ==> consume(s).0.video_pid == s.video_pid,
    decreases s.pending.len(),
{
    if s.pending.len() < TS_PACKET {
    } else if s.pending[0] != SYNC {
        lemma_pids(holding(s, s.pending.skip(1)));
    } else {
        let (next, unit) = after_packet(s, s.pending.take(TS_PACKET as int));
        lemma_pids(holding(next, s.pending.skip(TS_PACKET as int)));
    }
}

/// No access unit that comes out is empty.
pub proof fn law_units_are_not_empty(s: DemuxState, data: Seq<u8>)
    ensures
        forall|k: int|
            0 <= k < after_bytes(s, data).1.len() ==> (#[trigger] after_bytes(s, data).1[k]).len()
                > 0,
{
    lemma_units(holding(s, s.pending + data));
}

proof fn lemma_units(s: DemuxState)
    ensures
        forall|k: int| 0 <= k < consume(s).1.len() ==> (#[trigger] consume(s).1[k]).len() > 0,
    decreases s.pending.len(),
{
    if s.pending.len() < TS_PACKET {
    } else if s.pending[0] != SYNC {
        lemma_units(holding(s, s.pending.skip(1)));
        assert(consume(s) == consume(holding(s, s.pending.skip(1))));
    } else {
        let (next, unit) = after_packet(s, s.pending.take(TS_PACKET as int));
        let t = holding(next, s.pending.skip(TS_PACKET as int));
        lemma_units(t);
        assert forall|k: int| 0 <= k < consume(s).1.len() implies (#[trigger] consume(
            s,
        ).1[k]).len() > 0 by {
            if unit is Some {
                if k > 0 {
                    assert(consume(s).1[k] == consume(t).1[k - 1]);
                }
            } else {
                assert(consume(s).1[k] == consume(t).1[k]);
            }
        }
    }
}

/// The packet belongs to the H.264 stream and carries a payload.
pub open spec fn is_video(s: DemuxState, packet: Seq<u8>) -> bool {
    &&& packet_payload(packet) is Some
    &&& packet_pid(packet) != 0
    &&& s.pmt_pid != Some(packet_pid(packet))
    &&& s.video_pid == Some(packet_pid(packet))
}

/// An access unit comes out exactly when a video packet begins a new PES and
/// something has been collected; what comes out is what has been collected.
pub proof fn law_a_new_pes_completes_the_unit(s: DemuxState, packet: Seq<u8>)
    ensures
        after_packet(s, packet).1 == (if is_video(s, packet) && unit_starts(packet) && s.unit.len()
            > 0 {
            Some(s.unit)
        } else {
            None
        }),
{
}

/// The elementary-stream bytes of the video packets that are consumed from `s`, in order.
pub open spec fn video_stream(s: DemuxState) -> Seq<u8>
    decreases s.pending.len(),
{
    if s.pending.len() < TS_PACKET {
        Seq::empty()
    } else if s.pending[0] != SYNC {
        video_stream(holding(s, s.pending.skip(1)))
    } else {
        let packet = s.pending.take(TS_PACKET as int);
        let rest = video_stream(
            holding(after_packet(s, packet).0, s.pending.skip(TS_PACKET as int)),
        );
        if is_video(s, packet) {
            video_bytes(packet_payload(packet)->0, unit_starts(packet)) + rest
        } else {
            rest
        }
    }
}

/// No video byte is lost, repeated or moved: the access units that come out,
/// and then the unit that is still being collected, hold the bytes that had been
/// collected before and then those of the video packets.
pub proof fn law_no_video_byte_is_lost(s: DemuxState, data: Seq<u8>)
    ensures
        after_bytes(s, data).1.flatten() + after_bytes(s, data).0.unit == s.unit + video_stream(
            holding(s, s.pending + data),
        ),
{
    lemma_bytes(holding(s, s.pending + data));
}

proof fn lemma_bytes(s: DemuxState)
    ensures
        consume(s).1.flatten() + consume(s).0.unit == s.unit + video_stream(s),
    decreases s.pending.len(),
{
    if s.pending.len() < TS_PACKET {
        assert(consume(s).1.flatten() =~= Seq::empty());
        assert(consume(s).1.flatten() + consume(s).0.unit =~= s.unit + video_stream(s));
    } else if s.pending[0] != SYNC {
        lemma_bytes(holding(s, s.pending.skip(1)));
    } else {
        let packet = s.pending.take(TS_PACKET as int);
        let (next, unit) = after_packet(s, packet);
        let t = holding(next, s.pending.skip(TS_PACKET as int));
        lemma_bytes(t);
        if unit is Some {
            let u = unit->0;
            assert((seq![u] + consume(t).1).drop_first() =~= consume(t).1);
            assert(consume(s).1.flatten() =~= u + consume(t).1.flatten());
        }
        assert(consume(s).1.flatten() + consume(s).0.unit =~= s.unit + video_stream(s));
    }
}

// ---------------------------------------------------------------------------
// A stream as a camera sends it
// ---------------------------------------------------------------------------

/// A packet without adaptation field; a short payload is padded with 0xFF.
pub open spec fn ts_packet(pid: u16, starts: bool, payload: Seq<u8>) -> Seq<u8> {
    seq![
        SYNC,
        ((if starts {
            64int
        } else {
            0int
        }) + pid / 256 % 32) as u8,
        (pid % 256) as u8,
        0x10u8,
    ] + payload + Seq::new((TS_PACKET - 4 - payload.len()) as nat, |i: int| 0xFFu8)
}

/// A PAT with a single program, whose PMT is on `pmt_pid`.
pub open spec fn pat_table(pmt_pid: u16) -> Seq<u8> {
    seq![
        0x00u8,
        0x00u8,
        0xB0u8,
        0x0Du8,
        0x00u8,
        0x01u8,
        0xC1u8,
        0x00u8,
        0x00u8,
        0x00u8,
        0x01u8,
        (0xE0 + pmt_pid / 256 % 32) as u8,
        (pmt_pid % 256) as u8,
        0xDEu8,
        0xADu8,
        0xBEu8,
        0xEFu8,
    ]
}

/// A PMT with a single stream, H.264 on `video_pid`.
pub open spec fn pmt_table(video_pid: u16) -> Seq<u8> {
    seq![
        0x00u8,
        0x02u8,
        0xB0u8,
        0x12u8,
        0x00u8,
        0x01u8,
        0xC1u8,
        0x00u8,
        0x00u8,
        0xE0u8,
        0x00u8,
        0xF0u8,
        0x00u8,
        0x1Bu8,
        (0xE0 + video_pid / 256 % 32) as u8,
        (video_pid % 256) as u8,
        0xF0u8,
        0x00u8,
        0xDEu8,
        0xADu8,
        0xBEu8,
        0xEFu8,
    ]
}

/// A video PES with a nine-byte header.
pub open spec fn pes_packet(es: Seq<u8>) -> Seq<u8> {
    seq![0x00u8, 0x00u8, 0x01u8, 0xE0u8, 0x00u8, 0x00u8, 0x80u8, 0x00u8, 0x00u8] + es
}

/// The bytes of `es` and the padding of the packet that carries its PES.
pub open spec fn padded_es(es: Seq<u8>) -> Seq<u8> {
    es + Seq::new((TS_PACKET - 13 - es.len()) as nat, |i: int| 0xFFu8)
}

/// A packet gives back the PID, the start indicator and the payload that it was made from.
pub proof fn law_packet_round_trip(pid: u16, starts: bool, payload: Seq<u8>)
    requires
        pid < 8192,
        payload.len() <= TS_PACKET - 4,
    ensures
        ts_packet(pid, starts, payload).len() == TS_PACKET,
        ts_packet(pid, starts, payload)[0] == SYNC,
        packet_pid(ts_packet(pid, starts, payload)) == pid,
        unit_starts(ts_packet(pid, starts, payload)) == starts,
        packet_payload(ts_packet(pid, starts, payload)) == Some(
            payload + Seq::new((TS_PACKET - 4 - payload.len()) as nat, |i: int| 0xFFu8),
        ),
{
    let packet = ts_packet(pid, starts, payload);
    assert(packet[1] == (if starts {
        64int
    } else {
        0int
    }) + pid / 256 % 32);
    assert(packet[2] == pid % 256);
    assert(packet[3] == 0x10);
    assert(packet.skip(4) =~= payload + Seq::new(
        (TS_PACKET - 4 - payload.len()) as nat,
        |i: int| 0xFFu8,
    ));
}

/// The PAT leads to the PMT's PID.
pub proof fn law_pat_names_the_pmt(s: DemuxState, pmt_pid: u16)
    requires
        pmt_pid < 8192,
        s.pmt_pid is None,
    ensures
        after_packet(s, ts_packet(0, true, pat_table(pmt_pid))) == (
            DemuxState { pmt_pid: Some(pmt_pid), ..s },
            None::<Seq<u8>>,
        ),
{
    law_packet_round_trip(0, true, pat_table(pmt_pid));
    let payload = packet_payload(ts_packet(0, true, pat_table(pmt_pid)))->0;
    let section = payload.skip(1);
    assert(payload[0] == 0);
    assert(table_section(payload, true) == Some(section));
    assert(section[1] == 0xB0 && section[2] == 0x0D);
    assert(section[8] == 0x00 && section[9] == 0x01);
    assert(section[10] == 0xE0 + pmt_pid / 256 % 32);
    assert(section[11] == pmt_pid % 256);
    assert(first_program(section, 8) == Some(pmt_pid));
}

/// The PMT leads to the H.264 stream's PID.
pub proof fn law_pmt_names_the_stream(s: DemuxState, pmt_pid: u16, video_pid: u16)
    requires
        0 < pmt_pid < 8192,
        video_pid < 8192,
        s.pmt_pid == Some(pmt_pid),
        s.video_pid is None,
    ensures
        after_packet(s, ts_packet(pmt_pid, true, pmt_table(video_pid))) == (
            DemuxState { video_pid: Some(video_pid), ..s },
            None::<Seq<u8>>,
        ),
{
    law_packet_round_trip(pmt_pid, true, pmt_table(video_pid));
    let payload = packet_payload(ts_packet(pmt_pid, true, pmt_table(video_pid)))->0;
    let section = payload.skip(1);
    assert(payload[0] == 0);
    assert(table_section(payload, true) == Some(section));
    assert(section[1] == 0xB0 && section[2] == 0x12);
    assert(section[10] == 0xF0 && section[11] == 0x00);
    assert(section[12] == 0x1B);
    assert(section[13] == 0xE0 + video_pid / 256 % 32);
    assert(section[14] == video_pid % 256);
    assert(first_h264(section, 12) == Some(video_pid));
}

/// A packet that carries the beginning of a PES completes what was collected
/// and starts over with the PES's own bytes.
pub proof fn law_pes_starts_a_unit(s: DemuxState, video_pid: u16, es: Seq<u8>)
    requires
        0 < video_pid < 8192,
        s.video_pid == Some(video_pid),
        s.pmt_pid != Some(video_pid),
        es.len() <= TS_PACKET - 13,
    ensures
        after_packet(s, ts_packet(video_pid, true, pes_packet(es))) == (
            DemuxState { unit: padded_es(es), ..s },
            (if s.unit.len() > 0 {
                Some(s.unit)
            } else {
                None
            }),
        ),
{
    law_packet_round_trip(video_pid, true, pes_packet(es));
    let payload = packet_payload(ts_packet(video_pid, true, pes_packet(es)))->0;
    assert(payload[0] == 0 && payload[1] == 0 && payload[2] == 1 && payload[8] == 0);
    assert(payload.skip(9) =~= padded_es(es));
    assert(pes_payload(payload) == Some(padded_es(es)));
    assert(s.unit.len() == 0 ==> s.unit + padded_es(es) =~= padded_es(es));
}

/// A packet that continues a PES adds its payload to the unit and completes nothing.
pub proof fn law_continuation_adds_to_the_unit(s: DemuxState, video_pid: u16, payload: Seq<u8>)
    requires
        0 < video_pid < 8192,
        s.video_pid == Some(video_pid),
        s.pmt_pid != Some(video_pid),
        payload.len() == TS_PACKET - 4,
    ensures
        after_packet(s, ts_packet(video_pid, false, payload)) == (
            DemuxState { unit: s.unit + payload, ..s },
            None::<Seq<u8>>,
        ),
{
    law_packet_round_trip(video_pid, false, payload);
    assert(payload + Seq::new(0, |i: int| 0xFFu8) =~= payload);
}

proof fn lemma_consume_packet(s: DemuxState, packet: Seq<u8>, rest: Seq<u8>)
    requires
        packet.len() == TS_PACKET,
        packet[0] == SYNC,
        s.pending == packet + rest,
    ensures
        consume(s) == ({
            let (next, unit) = after_packet(s, packet);
            let (last, units) = consume(holding(next, rest));
            (last, in_front(unit, units))
        }),
{
    assert(s.pending.take(TS_PACKET as int) =~= packet);
    assert(s.pending.skip(TS_PACKET as int) =~= rest);
}

/// A stream of a PAT, a PMT and the beginnings of two PES, on any PIDs that tell
/// the two apart, gives exactly one access unit: the bytes of the first PES. The
/// second is still being collected.
pub proof fn law_access_unit_through_pat_pmt_pes(
    pmt_pid: u16,
    video_pid: u16,
    first: Seq<u8>,
    second: Seq<u8>,
)
    requires
        0 < pmt_pid < 8192,
        0 < video_pid < 8192,
        pmt_pid != video_pid,
        first.len() <= TS_PACKET - 13,
        second.len() <= TS_PACKET - 13,
    ensures
        after_bytes(
            fresh(),
            ts_packet(0, true, pat_table(pmt_pid)) + ts_packet(pmt_pid, true, pmt_table(video_pid))
                + ts_packet(video_pid, true, pes_packet(first)) + ts_packet(
                video_pid,
                true,
                pes_packet(second),
            ),
        ) == (
            DemuxState {
                pmt_pid: Some(pmt_pid),
                video_pid: Some(video_pid),
                unit: padded_es(second),
                pending: Seq::empty(),
            },
            seq![padded_es(first)],
        ),
{
    let p1 = ts_packet(0, true, pat_table(pmt_pid));
    let p2 = ts_packet(pmt_pid, true, pmt_table(video_pid));
    let p3 = ts_packet(video_pid, true, pes_packet(first));
    let p4 = ts_packet(video_pid, true, pes_packet(second));
    law_packet_round_trip(0, true, pat_table(pmt_pid));
    law_packet_round_trip(pmt_pid, true, pmt_table(video_pid));
    law_packet_round_trip(video_pid, true, pes_packet(first));
    law_packet_round_trip(video_pid, true, pes_packet(second));
    let data = p1 + p2 + p3 + p4;
    assert(fresh().pending + data =~= p1 + (p2 + (p3 + (p4 + Seq::empty()))));
    let s1 = holding(fresh(), p1 + (p2 + (p3 + (p4 + Seq::empty()))));
    law_pat_names_the_pmt(s1, pmt_pid);
    lemma_consume_packet(s1, p1, p2 + (p3 + (p4 + Seq::empty())));
    let s2 = holding(after_packet(s1, p1).0, p2 + (p3 + (p4 + Seq::empty())));
    law_pmt_names_the_stream(s2, pmt_pid, video_pid);
    lemma_consume_packet(s2, p2, p3 + (p4 + Seq::empty()));
    let s3 = holding(after_packet(s2, p2).0, p3 + (p4 + Seq::empty()));
    law_pes_starts_a_unit(s3, video_pid, first);
    lemma_consume_packet(s3, p3, p4 + Seq::empty());
    let s4 = holding(after_packet(s3, p3).0, p4 + Seq::empty());
    law_pes_starts_a_unit(s4, video_pid, second);
    lemma_consume_packet(s4, p4, Seq::empty());
    assert(consume(s4).1 =~= seq![padded_es(first)]);
}

/// Bytes that are not sync bytes in front of others do not change the access units.
/// In front of a packet they do not change the state either; in front of less than that
/// they may still be pending.
pub proof fn law_resyncs_after_garbage(s: DemuxState, garbage: Seq<u8>, data: Seq<u8>)
    requires
        s.pending.len() == 0,
        forall|k: int| 0 <= k < garbage.len() ==> garbage[k] != SYNC,
    ensures
        after_bytes(s, garbage + data).1 == after_bytes(s, data).1,
        data.len() >= TS_PACKET - 1 ==> after_bytes(s, garbage + data) == after_bytes(s, data),
    decreases garbage.len(),
{
    assert(s.pending + (garbage + data) =~= garbage + data);
    assert(s.pending + data =~= data);
    if garbage.len() == 0 {
        assert(garbage + data =~= data);
    } else {
        assert((garbage + data).skip(1) =~= garbage.skip(1) + data);
        assert(s.pending + (garbage.skip(1) + data) =~= garbage.skip(1) + data);
        assert(holding(s, garbage + data).pending[0] == garbage[0]);
        law_resyncs_after_garbage(s, garbage.skip(1), data);
    }
}

} // verus!
