//! Streaming MPEG-TS demultiplexer: raw transport-stream bytes go in as they
//! arrive, H.264 access units (Annex-B elementary stream) come out.
//!
//! Scope is deliberately narrow, just enough for the GoPro webcam stream:
//! PAT (PID 0), then PMT, then the first stream of type 0x1B (H.264), then its
//! PES payloads. Each PES, delimited by payload_unit_start_indicator, is emitted
//! as one access unit.

use vstd::prelude::*;

verus! {

/// Length of a transport-stream packet.
pub const TS_PACKET: usize = 188;

/// First byte of every packet.
pub const SYNC: u8 = 0x47;

/// The PMT's stream type for H.264 video.
pub const STREAM_TYPE_H264: u8 = 0x1B;

/// What a demultiplexer knows and holds between two packets.
pub struct DemuxState {
    /// PID of the program map table, once a PAT has named it.
    pub pmt_pid: Option<u16>,
    /// PID of the H.264 stream, once a PMT has named it.
    pub video_pid: Option<u16>,
    /// The access unit that is being collected.
    pub unit: Seq<u8>,
    /// Bytes that have arrived and are not consumed yet.
    pub pending: Seq<u8>,
}

// ---------------------------------------------------------------------------
// Bit fields
// ---------------------------------------------------------------------------

/// The 16-bit big-endian number in two bytes.
pub open spec fn number16(hi: u8, lo: u8) -> u16 {
    (hi * 256 + lo) as u16
}

/// The 13-bit PID in two bytes; the upper three bits of the first are not part of it.
pub open spec fn number13(hi: u8, lo: u8) -> u16 {
    ((hi % 32) * 256 + lo) as u16
}

/// The 12-bit length in two bytes; the upper four bits of the first are not part of it.
pub open spec fn number12(hi: u8, lo: u8) -> int {
    (hi % 16) * 256 + lo
}

fn read16(hi: u8, lo: u8) -> (n: u16)
    ensures
        n == number16(hi, lo),
{
    assert(((hi as u16) << 8) | (lo as u16) == hi * 256 + lo) by (bit_vector);
    ((hi as u16) << 8) | lo as u16
}

fn read13(hi: u8, lo: u8) -> (n: u16)
    ensures
        n == number13(hi, lo),
{
    assert((((hi & 0x1F) as u16) << 8) | (lo as u16) == (hi % 32) * 256 + lo) by (bit_vector);
    (((hi & 0x1F) as u16) << 8) | lo as u16
}

fn read12(hi: u8, lo: u8) -> (n: usize)
    ensures
        n == number12(hi, lo),
        n <= 4095,
{
    assert((((hi & 0x0F) as u16) << 8) | (lo as u16) == (hi % 16) * 256 + lo) by (bit_vector);
    ((((hi & 0x0F) as u16) << 8) | lo as u16) as usize
}

// ---------------------------------------------------------------------------
// Packets
// ---------------------------------------------------------------------------

/// payload_unit_start_indicator: the payload begins a section or a PES.
pub open spec fn unit_starts(packet: Seq<u8>) -> bool {
    packet[1] / 64 % 2 == 1
}

/// The PID that the packet belongs to.
pub open spec fn packet_pid(packet: Seq<u8>) -> u16 {
    number13(packet[1], packet[2])
}

/// Where the payload begins, behind the adaptation field if there is one.
pub open spec fn payload_start(packet: Seq<u8>) -> int {
    if packet[3] / 32 % 2 == 1 {
        5 + packet[4]
    } else {
        4
    }
}

/// The packet's payload, if it carries one.
pub open spec fn packet_payload(packet: Seq<u8>) -> Option<Seq<u8>> {
    if packet[3] / 16 % 2 == 1 && payload_start(packet) < packet.len() {
        Some(packet.skip(payload_start(packet)))
    } else {
        None
    }
}

// ---------------------------------------------------------------------------
// Tables
// ---------------------------------------------------------------------------

/// The section in a table packet's payload: behind the pointer field where a
/// section starts in this packet, and long enough to hold a header and a first entry.
pub open spec fn table_section(payload: Seq<u8>, starts: bool) -> Option<Seq<u8>> {
    let section = if starts {
        payload.skip(1 + payload[0])
    } else {
        payload
    };
    if starts && 1 + payload[0] >= payload.len() {
        None
    } else if section.len() < 12 {
        None
    } else {
        Some(section)
    }
}

/// End of the entries of a section: its length field says where the section
/// ends, the payload may end sooner, and the last four bytes are the CRC.
pub open spec fn entries_end(section: Seq<u8>) -> int {
    let stated = 3 + number12(section[1], section[2]);
    let end = if stated < section.len() {
        stated
    } else {
        section.len() as int
    };
    if end < 4 {
        0
    } else {
        end - 4
    }
}

/// PID of the first program with a number other than zero among the four-byte
/// PAT entries from position `at` on.
pub open spec fn first_program(section: Seq<u8>, at: int) -> Option<u16>
    decreases entries_end(section) - at,
{
    if at + 4 > entries_end(section) {
        None
    } else if number16(section[at], section[at + 1]) != 0 {
        Some(number13(section[at + 2], section[at + 3]))
    } else {
        first_program(section, at + 4)
    }
}

/// The PMT's PID that a PAT packet names.
pub open spec fn pat_program(payload: Seq<u8>, starts: bool) -> Option<u16> {
    match table_section(payload, starts) {
        Some(section) => first_program(section, 8),
        None => None,
    }
}

/// PID of the first H.264 stream among the PMT entries from position `at` on.
/// An entry is five bytes and its descriptors, whose length it states.
pub open spec fn first_h264(section: Seq<u8>, at: int) -> Option<u16>
    decreases
            (if at < entries_end(section) {
                entries_end(section) - at
            } else {
                0
            }),
{
    if at + 5 > entries_end(section) {
        None
    } else if section[at] == STREAM_TYPE_H264 {
        Some(number13(section[at + 1], section[at + 2]))
    } else {
        first_h264(section, at + 5 + number12(section[at + 3], section[at + 4]))
    }
}

/// The H.264 stream's PID that a PMT packet names.
pub open spec fn pmt_stream(payload: Seq<u8>, starts: bool) -> Option<u16> {
    match table_section(payload, starts) {
        Some(section) => first_h264(section, 12 + number12(section[10], section[11])),
        None => None,
    }
}

// ---------------------------------------------------------------------------
// PES
// ---------------------------------------------------------------------------

/// The stream ids of video.
pub open spec fn is_video_id(stream_id: u8) -> bool {
    0xE0 <= stream_id <= 0xEF
}

/// The elementary-stream bytes behind the header of a video PES, if `p` begins with one.
pub open spec fn pes_payload(p: Seq<u8>) -> Option<Seq<u8>> {
    if p.len() >= 9 && p[0] == 0 && p[1] == 0 && p[2] == 1 && is_video_id(p[3]) && 9 + p[8]
        < p.len() {
        Some(p.skip(9 + p[8]))
    } else {
        None
    }
}

/// The bytes that a video packet's payload adds to the stream of access units.
pub open spec fn video_bytes(payload: Seq<u8>, starts: bool) -> Seq<u8> {
    if !starts {
        payload
    } else {
        match pes_payload(payload) {
            Some(es) => es,
            None => Seq::empty(),
        }
    }
}

// ---------------------------------------------------------------------------
// The demultiplexer as a function
// ---------------------------------------------------------------------------

/// What one packet does to the state, and the access unit that it completes.
/// Table packets are looked at only until their PID is known.
pub open spec fn after_packet(s: DemuxState, packet: Seq<u8>) -> (DemuxState, Option<Seq<u8>>) {
    let starts = unit_starts(packet);
    let pid = packet_pid(packet);
    match packet_payload(packet) {
        None => (s, None),
        Some(payload) => {
            if pid == 0 {
                if s.pmt_pid is Some {
                    (s, None)
                } else {
                    (DemuxState { pmt_pid: pat_program(payload, starts), ..s }, None)
                }
            } else if s.pmt_pid == Some(pid) {
                if s.video_pid is Some {
                    (s, None)
                } else {
                    (DemuxState { video_pid: pmt_stream(payload, starts), ..s }, None)
                }
            } else if s.video_pid == Some(pid) {
                let bytes = video_bytes(payload, starts);
                if starts && s.unit.len() > 0 {
                    (DemuxState { unit: bytes, ..s }, Some(s.unit))
                } else {
                    (DemuxState { unit: s.unit + bytes, ..s }, None)
                }
            } else {
                (s, None)
            }
        },
    }
}

/// An access unit, if there is one, in front of others.
pub open spec fn in_front(unit: Option<Seq<u8>>, rest: Seq<Seq<u8>>) -> Seq<Seq<u8>> {
    match unit {
        Some(u) => seq![u] + rest,
        None => rest,
    }
}

/// Consumes whole packets from the front of the pending bytes: the state that
/// remains and the access units that came out. A byte that is not a sync byte
/// where a packet should begin is skipped.
pub open spec fn consume(s: DemuxState) -> (DemuxState, Seq<Seq<u8>>)
    decreases s.pending.len(),
{
    if s.pending.len() < TS_PACKET {
        (s, Seq::empty())
    } else if s.pending[0] != SYNC {
        consume(DemuxState { pending: s.pending.skip(1), ..s })
    } else {
        let (next, unit) = after_packet(s, s.pending.take(TS_PACKET as int));
        let (last, rest) = consume(
            DemuxState { pending: s.pending.skip(TS_PACKET as int), ..next },
        );
        (last, in_front(unit, rest))
    }
}

/// What a demultiplexer in state `s` does with the bytes `data`.
pub open spec fn after_bytes(s: DemuxState, data: Seq<u8>) -> (DemuxState, Seq<Seq<u8>>) {
    consume(DemuxState { pending: s.pending + data, ..s })
}

/// The state of a demultiplexer that has seen nothing.
pub open spec fn fresh() -> DemuxState {
    DemuxState { pmt_pid: None, video_pid: None, unit: Seq::empty(), pending: Seq::empty() }
}

/// The contents of a list of access units.
pub open spec fn unit_bytes(units: Seq<Vec<u8>>) -> Seq<Seq<u8>> {
    units.map_values(|u: Vec<u8>| u@)
}

// ---------------------------------------------------------------------------
// The demultiplexer
// ---------------------------------------------------------------------------

/// The demultiplexer's state.
pub struct TsDemux {
    pmt_pid: Option<u16>,
    video_pid: Option<u16>,
    cur_au: Vec<u8>,
    buf: Vec<u8>,
}

impl View for TsDemux {
    type V = DemuxState;

    closed spec fn view(&self) -> DemuxState {
        DemuxState {
            pmt_pid: self.pmt_pid,
            video_pid: self.video_pid,
            unit: self.cur_au@,
            pending: self.buf@,
        }
    }
}

impl TsDemux {
    /// A demultiplexer that has seen nothing.
    pub fn new() -> (demux: Self)
        ensures
            demux@ == fresh(),
    {
        let demux = TsDemux {
            pmt_pid: None,
            video_pid: None,
            cur_au: Vec::with_capacity(256 * 1024),
            buf: Vec::with_capacity(2 * TS_PACKET),
        };
        assert(demux@ =~= fresh());
        demux
    }

    /// Feeds arbitrary bytes; returns the access units that they complete.
    pub fn push(&mut self, data: &[u8]) -> (units: Vec<Vec<u8>>)
        ensures
            final(self)@ == after_bytes(old(self)@, data@).0,
            unit_bytes(units@) == after_bytes(old(self)@, data@).1,
    {
        let ghost whole = after_bytes(old(self)@, data@);
        let mut buf: Vec<u8> = Vec::new();
        std::mem::swap(&mut buf, &mut self.buf);
        buf.extend_from_slice(data);
        let mut out: Vec<Vec<u8>> = Vec::new();
        let mut i: usize = 0;
        proof {
            assert(buf@ =~= old(self)@.pending + data@);
            assert(buf@.skip(0) =~= buf@);
            assert(DemuxState { pending: buf@, ..self@ } =~= DemuxState {
                pending: old(self)@.pending + data@,
                ..old(self)@
            });
            assert(unit_bytes(out@) + whole.1 =~= whole.1);
        }
        while buf.len() - i >= TS_PACKET
            invariant
                i <= buf@.len(),
                ({
                    let rest = consume(DemuxState { pending: buf@.skip(i as int), ..self@ });
                    &&& whole.0 == rest.0
                    &&& whole.1 == unit_bytes(out@) + rest.1
                }),
            decreases buf@.len() - i,
        {
            let ghost s = DemuxState { pending: buf@.skip(i as int), ..self@ };
            if buf[i] != SYNC {
                // Resync: hunt for the next sync byte.
                assert(s.pending.skip(1) =~= buf@.skip(i + 1));
                i += 1;
                continue;
            }
            let packet = vstd::slice::slice_subrange(buf.as_slice(), i, i + TS_PACKET);
            let ghost before = self@;
            let ghost units = unit_bytes(out@);
            self.handle_packet(packet, &mut out);
            i += TS_PACKET;
            proof {
                assert(packet@ =~= s.pending.take(TS_PACKET as int));
                assert(s.pending.skip(TS_PACKET as int) =~= buf@.skip(i as int));
                let (next, unit) = after_packet(s, packet@);
                let after = DemuxState { pending: buf@.skip(i as int), ..self@ };
                assert(unit == after_packet(before, packet@).1);
                assert(after =~= DemuxState { pending: buf@.skip(i as int), ..next });
                assert(consume(s).1 == in_front(unit, consume(after).1));
                assert(unit_bytes(out@) + consume(after).1 =~= units + consume(s).1);
            }
        }
        // Keep the unconsumed tail.
        self.buf = buf.split_off(i);
        assert(unit_bytes(out@) + Seq::<Seq<u8>>::empty() =~= unit_bytes(out@));
        out
    }

    fn handle_packet(&mut self, pkt: &[u8], out: &mut Vec<Vec<u8>>)
        requires
            pkt@.len() == TS_PACKET,
        ensures
            final(self)@ == after_packet(old(self)@, pkt@).0,
            unit_bytes(final(out)@) == match after_packet(old(self)@, pkt@).1 {
                Some(unit) => unit_bytes(old(out)@).push(unit),
                None => unit_bytes(old(out)@),
            },
    {
        let b1: u8 = pkt[1];
        let b3: u8 = pkt[3];
        let pusi = (b1 & 0x40) != 0;
        let pid: u16 = read13(b1, pkt[2]);
        let afc: u8 = (b3 >> 4) & 0x3;
        proof {
            assert((b1 & 0x40 != 0) == (b1 / 64 % 2 == 1)) by (bit_vector);
            assert((((b3 >> 4) & 0x3) & 0x2 != 0) == (b3 / 32 % 2 == 1)) by (bit_vector);
            assert((((b3 >> 4) & 0x3) & 0x1 == 0) == (b3 / 16 % 2 == 0)) by (bit_vector);
        }

        // Skip the adaptation field, if any.
        let mut off: usize = 4;
        if afc & 0x2 != 0 {
            let af_len: usize = pkt[off] as usize;
            off += 1 + af_len;
        }
        if afc & 0x1 == 0 || off >= pkt.len() {
            return;
        }
        let payload = vstd::slice::slice_subrange(pkt, off, pkt.len());
        assert(payload@ =~= pkt@.skip(off as int));

        if pid == 0 {
            self.parse_pat(payload, pusi);
        } else if self.pmt_pid == Some(pid) {
            self.parse_pmt(payload, pusi);
        } else if self.video_pid == Some(pid) {
            self.handle_video(payload, pusi, out);
        }
    }

    fn parse_pat(&mut self, payload: &[u8], pusi: bool)
        requires
            payload@.len() > 0,
        ensures
            final(self)@ == (if old(self)@.pmt_pid is Some {
                old(self)@
            } else {
                DemuxState { pmt_pid: pat_program(payload@, pusi), ..old(self)@ }
            }),
    {
        if self.pmt_pid.is_some() {
            return;
        }
        let p = match section_of(payload, pusi) {
            Some(p) => p,
            None => {
                return;
            },
        };
        let limit: usize = entries_limit(p);
        // Program entries start at byte 8: before them table_id (1), section_length (2),
        // transport_stream_id (2), version (1), section number (1), last section number (1).
        let mut i: usize = 8;
        while i + 4 <= limit
            invariant
                p@.len() >= 12,
                limit == entries_end(p@) <= p@.len(),
                i <= limit + 8,
                self@ == old(self)@,
                self@.pmt_pid is None,
                limit <= 4094,
                first_program(p@, 8) == first_program(p@, i as int),
                table_section(payload@, pusi) == Some(p@),
            decreases limit + 8 - i,
        {
            let program_number: u16 = read16(p[i], p[i + 1]);
            let pid: u16 = read13(p[i + 2], p[i + 3]);
            if program_number != 0 {
                self.pmt_pid = Some(pid);
                return;
            }
            i += 4;
        }
    }

    fn parse_pmt(&mut self, payload: &[u8], pusi: bool)
        requires
            payload@.len() > 0,
        ensures
            final(self)@ == (if old(self)@.video_pid is Some {
                old(self)@
            } else {
                DemuxState { video_pid: pmt_stream(payload@, pusi), ..old(self)@ }
            }),
    {
        if self.video_pid.is_some() {
            return;
        }
        let p = match section_of(payload, pusi) {
            Some(p) => p,
            None => {
                return;
            },
        };
        let limit: usize = entries_limit(p);
        let program_info_length: usize = read12(p[10], p[11]);
        let ghost first = 12 + program_info_length;
        let mut i: usize = 12 + program_info_length;
        while i + 5 <= limit
            invariant
                p@.len() >= 12,
                limit == entries_end(p@) <= p@.len(),
                i <= 16384,
                self@ == old(self)@,
                self@.video_pid is None,
                limit <= 4094,
                first == 12 + number12(p@[10], p@[11]),
                first_h264(p@, first) == first_h264(p@, i as int),
                table_section(payload@, pusi) == Some(p@),
            decreases 16384 - i,
        {
            let stream_type: u8 = p[i];
            let elem_pid: u16 = read13(p[i + 1], p[i + 2]);
            let es_info_len: usize = read12(p[i + 3], p[i + 4]);
            if stream_type == STREAM_TYPE_H264 {
                self.video_pid = Some(elem_pid);
                return;
            }
            i += 5 + es_info_len;
        }
    }

    fn handle_video(&mut self, payload: &[u8], pusi: bool, out: &mut Vec<Vec<u8>>)
        ensures
            final(self)@ == (DemuxState {
                unit: (if pusi && old(self)@.unit.len() > 0 {
                    video_bytes(payload@, pusi)
                } else {
                    old(self)@.unit + video_bytes(payload@, pusi)
                }),
                ..old(self)@
            }),
            unit_bytes(final(out)@) == (if pusi && old(self)@.unit.len() > 0 {
                unit_bytes(old(out)@).push(old(self)@.unit)
            } else {
                unit_bytes(old(out)@)
            }),
    {
        if pusi {
            // A new PES begins: the accumulated one is a finished access unit.
            if !self.cur_au.is_empty() {
                let mut unit: Vec<u8> = Vec::new();
                std::mem::swap(&mut unit, &mut self.cur_au);
                out.push(unit);
            }
            // Strip the PES header, keep the elementary-stream payload.
            if let Some(es) = strip_pes_header(payload) {
                self.cur_au.extend_from_slice(es);
            }
        } else {
            self.cur_au.extend_from_slice(payload);
        }
        proof {
            let unit = if pusi && old(self)@.unit.len() > 0 {
                video_bytes(payload@, pusi)
            } else {
                old(self)@.unit + video_bytes(payload@, pusi)
            };
            assert(self.cur_au@ =~= unit);
            assert(unit_bytes(out@) =~= (if pusi && old(self)@.unit.len() > 0 {
                unit_bytes(old(out)@).push(old(self)@.unit)
            } else {
                unit_bytes(old(out)@)
            }));
        }
    }
}

/// The section that a table packet's payload holds.
fn section_of(payload: &[u8], pusi: bool) -> (section: Option<&[u8]>)
    requires
        payload@.len() > 0,
    ensures
        match section {
            Some(p) => table_section(payload@, pusi) == Some(p@),
            None => table_section(payload@, pusi) is None,
        },
{
    let mut p = payload;
    if pusi {
        // Skip the pointer field.
        let ptr: usize = p[0] as usize;
        if 1 + ptr >= p.len() {
            return None;
        }
        p = vstd::slice::slice_subrange(p, 1 + ptr, p.len());
        assert(p@ =~= payload@.skip(1 + payload@[0]));
    }
    if p.len() < 12 {
        return None;
    }
    Some(p)
}

/// Where the entries of a section end.
fn entries_limit(p: &[u8]) -> (limit: usize)
    requires
        p@.len() >= 12,
    ensures
        limit == entries_end(p@),
        limit <= p@.len(),
        limit <= 4094,
{
    let stated: usize = 3 + read12(p[1], p[2]);
    let end: usize = if stated < p.len() {
        stated
    } else {
        p.len()
    };
    if end < 4 {
        0
    } else {
        end - 4
    }
}

/// Given a PES packet, the elementary-stream bytes behind its header, or `None`
/// if it does not look like a video PES.
pub fn strip_pes_header(p: &[u8]) -> (es: Option<&[u8]>)
    ensures
        match es {
            Some(bytes) => pes_payload(p@) == Some(bytes@),
            None => pes_payload(p@) is None,
        },
{
    // packet_start_code_prefix 00 00 01, then stream_id.
    if p.len() < 9 || p[0] != 0x00 || p[1] != 0x00 || p[2] != 0x01 {
        return None;
    }
    // The stream_id is 0xE0..=0xEF for video.
    if p[3] < 0xE0 || p[3] > 0xEF {
        return None;
    }
    // p[4..6] is PES_packet_length, p[8] PES_header_data_length; the elementary stream
    // starts right behind the header data.
    let header_data_len: usize = p[8] as usize;
    let es_start: usize = 9 + header_data_len;
    if es_start >= p.len() {
        return None;
    }
    let es = vstd::slice::slice_subrange(p, es_start, p.len());
    assert(es@ =~= p@.skip(9 + p@[8]));
    Some(es)
}

} // verus!
