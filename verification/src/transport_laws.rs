//! The demultiplexer against the transport stream's own format: packets, tables and PES
//! are put together field by field, and what is read of them is what was put in.

use crate::mpegts::after_bytes;
use crate::mpegts::after_packet;
use crate::mpegts::consume;
use crate::mpegts::entries_end;
use crate::mpegts::first_h264;
use crate::mpegts::first_program;
use crate::mpegts::fresh;
use crate::mpegts::in_front;
use crate::mpegts::number12;
use crate::mpegts::number13;
use crate::mpegts::number16;
use crate::mpegts::packet_payload;
use crate::mpegts::packet_pid;
use crate::mpegts::pat_program;
use crate::mpegts::pes_payload;
use crate::mpegts::pmt_stream;
use crate::mpegts::table_section;
use crate::mpegts::unit_starts;
use crate::mpegts::DemuxState;
use crate::mpegts_laws::holding;
use vstd::prelude::*;

verus! {

// ---------------------------------------------------------------------------
// Packets
// ---------------------------------------------------------------------------

/// The fields of a packet's header but adaptation_field_control.
pub struct PacketFields {
    pub error: bool,
    pub starts: bool,
    pub priority: bool,
    pub pid: u16,
    pub scrambling: int,
    pub counter: int,
}

impl PacketFields {
    /// The fields fit their bits.
    pub open spec fn fit(self) -> bool {
        self.pid < 8192 && 0 <= self.scrambling < 4 && 0 <= self.counter < 16
    }
}

/// A flag as the bit of this weight.
pub open spec fn bit(flag: bool, weight: int) -> int {
    if flag {
        weight
    } else {
        0
    }
}

/// The four bytes of a packet's header.
pub open spec fn header_of(f: PacketFields, control: int) -> Seq<u8> {
    seq![
        0x47u8,
        (bit(f.error, 128) + bit(f.starts, 64) + bit(f.priority, 32) + f.pid as int / 256) as u8,
        (f.pid as int % 256) as u8,
        (64 * f.scrambling + 16 * control + f.counter) as u8,
    ]
}

/// A packet with a payload, behind an adaptation field if there is one.
pub open spec fn packet_of(f: PacketFields, field: Option<Seq<u8>>, payload: Seq<u8>) -> Seq<u8> {
    match field {
        None => header_of(f, 1) + payload,
        Some(af) => header_of(f, 3) + seq![af.len() as u8] + af + payload,
    }
}

/// The header's fields are read, whatever the packet carries.
pub proof fn law_header_fields_are_read(f: PacketFields, control: int, rest: Seq<u8>)
    requires
        f.fit(),
        0 <= control < 4,
    ensures
        packet_pid(header_of(f, control) + rest) == f.pid,
        unit_starts(header_of(f, control) + rest) == f.starts,
{
    let p = header_of(f, control) + rest;
    let b1 = bit(f.error, 128) + bit(f.starts, 64) + bit(f.priority, 32) + f.pid as int / 256;
    assert(p[1] == b1);
    assert(p[2] == f.pid as int % 256);
    assert(p[1] % 32 == f.pid as int / 256);
}

/// A packet gives back the payload that it was made from, whether or not an adaptation
/// field stands before it, and whether or not a unit starts in it.
pub proof fn law_payload_behind_any_adaptation_field(
    f: PacketFields,
    field: Option<Seq<u8>>,
    payload: Seq<u8>,
)
    requires
        f.fit(),
        packet_of(f, field, payload).len() == 188,
        payload.len() > 0,
    ensures
        packet_pid(packet_of(f, field, payload)) == f.pid,
        unit_starts(packet_of(f, field, payload)) == f.starts,
        packet_payload(packet_of(f, field, payload)) == Some(payload),
{
    let p = packet_of(f, field, payload);
    match field {
        None => {
            law_header_fields_are_read(f, 1, payload);
            assert(p[3] == 64 * f.scrambling + 16 + f.counter);
            assert(p.skip(4) =~= payload);
        },
        Some(af) => {
            let rest = seq![af.len() as u8] + af + payload;
            assert(p =~= header_of(f, 3) + rest);
            law_header_fields_are_read(f, 3, rest);
            assert(p[3] == 64 * f.scrambling + 48 + f.counter);
            assert(p[4] == af.len());
            assert(p.skip(5 + af.len() as int) =~= payload);
        },
    }
}

/// A packet whose adaptation_field_control names no payload, or whose adaptation field
/// leaves no room for one, has none.
pub proof fn law_packets_without_payload(f: PacketFields, control: int, rest: Seq<u8>)
    requires
        f.fit(),
        0 <= control < 4,
        rest.len() == 184,
        control == 0 || control == 2 || (control == 3 && rest[0] >= 183),
    ensures
        packet_payload(header_of(f, control) + rest) is None,
{
    let p = header_of(f, control) + rest;
    assert(p[3] == 64 * f.scrambling + 16 * control + f.counter);
    assert(p[4] == rest[0]);
}

// ---------------------------------------------------------------------------
// PES
// ---------------------------------------------------------------------------

/// A PES: start code, stream id, four bytes of length and flags, the optional header
/// data with its length, and the elementary stream.
pub open spec fn pes_of(id: u8, flags: Seq<u8>, data: Seq<u8>, es: Seq<u8>) -> Seq<u8> {
    seq![0u8, 0u8, 1u8, id] + flags + seq![data.len() as u8] + data + es
}

/// Of a video PES the elementary stream is read, whatever header data stands before it.
pub proof fn law_pes_gives_its_stream(id: u8, flags: Seq<u8>, data: Seq<u8>, es: Seq<u8>)
    requires
        0xE0 <= id <= 0xEF,
        flags.len() == 4,
        data.len() < 256,
        es.len() > 0,
    ensures
        pes_payload(pes_of(id, flags, data, es)) == Some(es),
{
    let p = pes_of(id, flags, data, es);
    assert(p[0] == 0 && p[1] == 0 && p[2] == 1 && p[3] == id);
    assert(p[8] == data.len());
    assert(p.skip(9 + data.len() as int) =~= es);
}

/// What is no video PES gives nothing: another stream id, another start code, a header
/// that is cut off, or nothing behind the header.
pub proof fn law_only_video_pes_gives_a_stream(p: Seq<u8>)
    requires
        p.len() < 9 || p[0] != 0 || p[1] != 0 || p[2] != 1 || p[3] < 0xE0 || p[3] > 0xEF
            || p.len() <= 9 + p[8],
    ensures
        pes_payload(p) is None,
{
}

// ---------------------------------------------------------------------------
// Tables
// ---------------------------------------------------------------------------

/// A section in a packet that starts it: the pointer field, what it skips, the section
/// and the stuffing behind it.
pub open spec fn pointed(skipped: Seq<u8>, section: Seq<u8>, stuffing: Seq<u8>) -> Seq<u8> {
    seq![skipped.len() as u8] + skipped + (section + stuffing)
}

/// Where a section starts in a packet, and that it goes on in one without a pointer
/// field, is understood.
pub proof fn law_sections_are_found(skipped: Seq<u8>, section: Seq<u8>, stuffing: Seq<u8>)
    requires
        skipped.len() < 256,
        section.len() >= 12,
    ensures
        table_section(pointed(skipped, section, stuffing), true) == Some(section + stuffing),
        table_section(section + stuffing, false) == Some(section + stuffing),
{
    let p = pointed(skipped, section, stuffing);
    assert(p[0] == skipped.len());
    assert(p.skip(1 + skipped.len() as int) =~= section + stuffing);
}

/// The entries of a section end four bytes, the CRC, before the section does; and the
/// section ends where its length says, or sooner where there is no more of it.
pub proof fn law_where_entries_end(section: Seq<u8>, len: int)
    requires
        section.len() >= 3,
        0 <= len < 4096,
        section[1] % 16 == len / 256,
        section[2] == len % 256,
    ensures
        1 <= len && 3 + len <= section.len() ==> entries_end(section) == len - 1,
        3 + len > section.len() && section.len() >= 4 ==> entries_end(section) == section.len() - 4,
{
}

/// A table whose header does not fit its packet teaches nothing.
pub proof fn law_short_tables_teach_nothing(payload: Seq<u8>, starts: bool)
    requires
        payload.len() > 0,
        starts ==> payload.len() < 13 + payload[0],
        !starts ==> payload.len() < 12,
    ensures
        pat_program(payload, starts) is None,
        pmt_stream(payload, starts) is None,
{
}

/// The first three bytes of a section that goes on for `len` bytes; `table` and the four
/// `flags` do not matter.
pub open spec fn section_start(table: u8, flags: int, len: int) -> Seq<u8> {
    seq![table, (16 * flags + len / 256) as u8, (len % 256) as u8]
}

/// A PAT entry; the three `reserved` bits do not matter.
pub open spec fn pat_entry(reserved: int, program: u16, pid: u16) -> Seq<u8> {
    seq![
        (program as int / 256) as u8,
        (program as int % 256) as u8,
        (32 * reserved + pid as int / 256) as u8,
        (pid as int % 256) as u8,
    ]
}

/// The entries of a PAT, one behind the other.
pub open spec fn pat_entries(reserved: int, programs: Seq<(u16, u16)>) -> Seq<u8> {
    Seq::new(
        (4 * programs.len()) as nat,
        |i: int| pat_entry(reserved, programs[i / 4].0, programs[i / 4].1)[i % 4],
    )
}

/// A PAT section: five bytes of header that do not matter, the programs, a CRC.
pub open spec fn pat_section(
    table: u8,
    flags: int,
    header: Seq<u8>,
    reserved: int,
    programs: Seq<(u16, u16)>,
    crc: Seq<u8>,
) -> Seq<u8> {
    section_start(table, flags, 9 + 4 * programs.len() as int) + header + pat_entries(reserved, programs)
        + crc
}

/// The parts of a PAT section fit their fields.
pub open spec fn pat_fits(
    flags: int,
    header: Seq<u8>,
    reserved: int,
    programs: Seq<(u16, u16)>,
    crc: Seq<u8>,
) -> bool {
    &&& 0 <= flags < 16
    &&& header.len() == 5
    &&& 0 <= reserved < 8
    &&& crc.len() == 4
    &&& 9 + 4 * programs.len() < 4096
    &&& forall|i: int| 0 <= i < programs.len() ==> (#[trigger] programs[i]).1 < 8192
}

proof fn lemma_pat_entry(reserved: int, program: u16, pid: u16)
    requires
        0 <= reserved < 8,
        pid < 8192,
    ensures
        number16(pat_entry(reserved, program, pid)[0], pat_entry(reserved, program, pid)[1])
            == program,
        number13(pat_entry(reserved, program, pid)[2], pat_entry(reserved, program, pid)[3]) == pid,
{
    let entry = pat_entry(reserved, program, pid);
    assert(entry[0] == program as int / 256);
    assert(entry[1] == program as int % 256);
    assert(entry[2] == 32 * reserved + pid as int / 256);
    assert(entry[3] == pid as int % 256);
}

proof fn lemma_pat_entries(reserved: int, programs: Seq<(u16, u16)>, k: int, i: int)
    requires
        0 <= k < programs.len(),
        0 <= i < 4,
    ensures
        pat_entries(reserved, programs)[4 * k + i] == pat_entry(
            reserved,
            programs[k].0,
            programs[k].1,
        )[i],
{
    assert((4 * k + i) / 4 == k);
    assert((4 * k + i) % 4 == i);
}

proof fn lemma_pat_front(table: u8, flags: int, header: Seq<u8>, len: int)
    requires
        0 <= flags < 16,
        header.len() == 5,
        0 <= len < 4096,
    ensures
        (section_start(table, flags, len) + header).len() == 8,
        number12(
            (section_start(table, flags, len) + header)[1],
            (section_start(table, flags, len) + header)[2],
        ) == len,
{
    let front = section_start(table, flags, len) + header;
    assert(front[1] == 16 * flags + len / 256);
    assert(front[2] == len % 256);
}

#[verifier::spinoff_prover]
#[verifier::rlimit(40)]
proof fn lemma_pat_program(
    table: u8,
    flags: int,
    header: Seq<u8>,
    reserved: int,
    programs: Seq<(u16, u16)>,
    crc: Seq<u8>,
    stuffing: Seq<u8>,
    from: int,
    k: int,
)
    requires
        pat_fits(flags, header, reserved, programs, crc),
        0 <= from <= k <= programs.len(),
        forall|i: int| from <= i < k ==> (#[trigger] programs[i]).0 == 0,
        k < programs.len() ==> programs[k].0 != 0,
    ensures
        first_program(
            pat_section(table, flags, header, reserved, programs, crc) + stuffing,
            8 + 4 * from,
        ) == if k < programs.len() {
            Some(programs[k].1)
        } else {
            None
        },
    decreases k - from,
{
    let section = pat_section(table, flags, header, reserved, programs, crc) + stuffing;
    let n = programs.len() as int;
    let len = 9 + 4 * n;
    let front = section_start(table, flags, len) + header;
    let middle = pat_entries(reserved, programs);
    lemma_pat_front(table, flags, header, len);
    assert(section =~= front + middle + (crc + stuffing));
    assert(section[1] == front[1] && section[2] == front[2]);
    assert(section.len() == 12 + 4 * n + stuffing.len());
    assert(entries_end(section) == 8 + 4 * n);
    if from < n {
        let (program, pid) = programs[from];
        assert(pid < 8192);
        lemma_pat_entry(reserved, program, pid);
        lemma_pat_entries(reserved, programs, from, 0);
        lemma_pat_entries(reserved, programs, from, 1);
        lemma_pat_entries(reserved, programs, from, 2);
        lemma_pat_entries(reserved, programs, from, 3);
        lemma_middle(front, middle, crc + stuffing, 4 * from);
        lemma_middle(front, middle, crc + stuffing, 4 * from + 1);
        lemma_middle(front, middle, crc + stuffing, 4 * from + 2);
        lemma_middle(front, middle, crc + stuffing, 4 * from + 3);
        if from < k {
            lemma_pat_program(
                table,
                flags,
                header,
                reserved,
                programs,
                crc,
                stuffing,
                from + 1,
                k,
            );
        }
    }
}

/// Of a PAT the PID of the first program with a number other than zero is learned,
/// whatever network entries stand before it, and whatever stands behind it.
pub proof fn law_pat_names_its_first_program(
    table: u8,
    flags: int,
    header: Seq<u8>,
    reserved: int,
    programs: Seq<(u16, u16)>,
    crc: Seq<u8>,
    skipped: Seq<u8>,
    stuffing: Seq<u8>,
    k: int,
)
    requires
        pat_fits(flags, header, reserved, programs, crc),
        skipped.len() < 256,
        0 <= k <= programs.len(),
        forall|i: int| 0 <= i < k ==> (#[trigger] programs[i]).0 == 0,
        k < programs.len() ==> programs[k].0 != 0,
    ensures
        ({
            let section = pat_section(table, flags, header, reserved, programs, crc);
            let learned = if k < programs.len() {
                Some(programs[k].1)
            } else {
                None
            };
            &&& pat_program(pointed(skipped, section, stuffing), true) == learned
            &&& pat_program(section + stuffing, false) == learned
        }),
{
    let section = pat_section(table, flags, header, reserved, programs, crc);
    law_sections_are_found(skipped, section, stuffing);
    lemma_pat_program(table, flags, header, reserved, programs, crc, stuffing, 0, k);
}

/// A stream of a PMT: its type, its PID and its descriptors.
pub struct StreamEntry {
    pub kind: u8,
    pub pid: u16,
    pub descriptors: Seq<u8>,
}

/// A PMT entry; the reserved bits do not matter.
pub open spec fn pmt_entry(reserved: int, flags: int, e: StreamEntry) -> Seq<u8> {
    seq![
        e.kind,
        (32 * reserved + e.pid as int / 256) as u8,
        (e.pid as int % 256) as u8,
        (16 * flags + e.descriptors.len() as int / 256) as u8,
        (e.descriptors.len() as int % 256) as u8,
    ] + e.descriptors
}

/// The entries of a PMT, one behind the other.
pub open spec fn pmt_entries(reserved: int, flags: int, streams: Seq<StreamEntry>) -> Seq<u8>
    decreases streams.len(),
{
    if streams.len() == 0 {
        Seq::empty()
    } else {
        pmt_entry(reserved, flags, streams[0]) + pmt_entries(reserved, flags, streams.skip(1))
    }
}

/// A PMT section: seven bytes of header that do not matter, the program's descriptors
/// with their length, the streams, a CRC.
pub open spec fn pmt_section(
    table: u8,
    flags: int,
    header: Seq<u8>,
    info: Seq<u8>,
    reserved: int,
    streams: Seq<StreamEntry>,
    crc: Seq<u8>,
) -> Seq<u8> {
    let entries = pmt_entries(reserved, flags, streams);
    pmt_front(table, flags, header, info, 13 + info.len() as int + entries.len() as int) + entries
        + crc
}

/// The parts of a PMT section fit their fields.
pub open spec fn pmt_fits(
    flags: int,
    header: Seq<u8>,
    info: Seq<u8>,
    reserved: int,
    streams: Seq<StreamEntry>,
    crc: Seq<u8>,
) -> bool {
    &&& 0 <= flags < 16
    &&& header.len() == 7
    &&& 0 <= reserved < 8
    &&& crc.len() == 4
    &&& 13 + info.len() + pmt_entries(reserved, flags, streams).len() < 4096
    &&& streams_fit(streams)
}

/// The streams' PIDs have thirteen bits.
pub open spec fn streams_fit(streams: Seq<StreamEntry>) -> bool {
    forall|i: int| 0 <= i < streams.len() ==> (#[trigger] streams[i]).pid < 8192
}

proof fn lemma_middle(before: Seq<u8>, middle: Seq<u8>, behind: Seq<u8>, i: int)
    requires
        0 <= i < middle.len(),
    ensures
        (before + middle + behind)[before.len() + i] == middle[i],
{
}

proof fn lemma_pmt_entry(reserved: int, flags: int, e: StreamEntry)
    requires
        0 <= reserved < 8,
        0 <= flags < 16,
        e.pid < 8192,
        e.descriptors.len() < 4096,
    ensures
        pmt_entry(reserved, flags, e).len() == 5 + e.descriptors.len(),
        pmt_entry(reserved, flags, e)[0] == e.kind,
        number13(pmt_entry(reserved, flags, e)[1], pmt_entry(reserved, flags, e)[2]) == e.pid,
        number12(pmt_entry(reserved, flags, e)[3], pmt_entry(reserved, flags, e)[4])
            == e.descriptors.len(),
{
    let entry = pmt_entry(reserved, flags, e);
    let n = e.descriptors.len() as int;
    assert(entry[1] == 32 * reserved + e.pid as int / 256);
    assert(entry[2] == e.pid as int % 256);
    assert(entry[3] == 16 * flags + n / 256);
    assert(entry[4] == n % 256);
}

#[verifier::spinoff_prover]
#[verifier::rlimit(40)]
proof fn lemma_pmt_stream(
    section: Seq<u8>,
    before: Seq<u8>,
    reserved: int,
    flags: int,
    streams: Seq<StreamEntry>,
    behind: Seq<u8>,
    k: int,
)
    requires
        0 <= reserved < 8,
        0 <= flags < 16,
        section == before + pmt_entries(reserved, flags, streams) + behind,
        entries_end(section) == before.len() + pmt_entries(
            reserved,
            flags,
            streams,
        ).len(),
        pmt_entries(reserved, flags, streams).len() < 4096,
        streams_fit(streams),
        forall|i: int|
            0 <= i < streams.len() ==> (#[trigger] streams[i]).descriptors.len() < 4096,
        0 <= k <= streams.len(),
        forall|i: int| 0 <= i < k ==> (#[trigger] streams[i]).kind != 0x1B,
        k < streams.len() ==> streams[k].kind == 0x1B,
    ensures
        first_h264(section, before.len() as int) == if k < streams.len() {
            Some(streams[k].pid)
        } else {
            None
        },
    decreases streams.len(),
{
    if streams.len() > 0 {
        let e = streams[0];
        assert(e.pid < 8192);
        let entry = pmt_entry(reserved, flags, e);
        let rest = streams.skip(1);
        let more = pmt_entries(reserved, flags, rest);
        let n = before.len() as int;
        assert(pmt_entries(reserved, flags, streams) == entry + more);
        lemma_pmt_entry(reserved, flags, e);
        lemma_middle(before, entry + more, behind, 0);
        lemma_middle(before, entry + more, behind, 1);
        lemma_middle(before, entry + more, behind, 2);
        lemma_middle(before, entry + more, behind, 3);
        lemma_middle(before, entry + more, behind, 4);
        if k > 0 {
            assert(streams[0].kind != 0x1B);
            assert(section =~= (before + entry) + more + behind);
            assert forall|i: int| 0 <= i < k - 1 implies (#[trigger] rest[i]).kind != 0x1B by {
                assert(rest[i] == streams[i + 1]);
            }
            assert forall|i: int| 0 <= i < rest.len() implies (#[trigger] rest[i]).pid < 8192 by {
                assert(rest[i] == streams[i + 1]);
            }
            assert forall|i: int| 0 <= i < rest.len() implies (
            #[trigger] rest[i]).descriptors.len() < 4096 by {
                assert(rest[i] == streams[i + 1]);
            }
            lemma_pmt_stream(section, before + entry, reserved, flags, rest, behind, k - 1);
        }
    }
}

proof fn lemma_descriptors_are_short(reserved: int, flags: int, streams: Seq<StreamEntry>, k: int)
    requires
        0 <= k < streams.len(),
    ensures
        streams[k].descriptors.len() <= pmt_entries(reserved, flags, streams).len(),
    decreases streams.len(),
{
    let rest = streams.skip(1);
    assert(pmt_entries(reserved, flags, streams) == pmt_entry(reserved, flags, streams[0])
        + pmt_entries(reserved, flags, rest));
    if k > 0 {
        lemma_descriptors_are_short(reserved, flags, rest, k - 1);
        assert(rest[k - 1] == streams[k]);
    }
}

/// The bytes of a PMT section in front of its entries.
pub open spec fn pmt_front(
    table: u8,
    flags: int,
    header: Seq<u8>,
    info: Seq<u8>,
    len: int,
) -> Seq<u8> {
    section_start(table, flags, len) + header + seq![
        (16 * flags + info.len() as int / 256) as u8,
        (info.len() as int % 256) as u8,
    ] + info
}

proof fn lemma_pmt_front(table: u8, flags: int, header: Seq<u8>, info: Seq<u8>, len: int)
    requires
        0 <= flags < 16,
        header.len() == 7,
        0 <= len < 4096,
        info.len() < 4096,
    ensures
        pmt_front(table, flags, header, info, len).len() == 12 + info.len(),
        number12(
            pmt_front(table, flags, header, info, len)[1],
            pmt_front(table, flags, header, info, len)[2],
        ) == len,
        number12(
            pmt_front(table, flags, header, info, len)[10],
            pmt_front(table, flags, header, info, len)[11],
        ) == info.len(),
{
    let front = pmt_front(table, flags, header, info, len);
    assert(front[1] == 16 * flags + len / 256);
    assert(front[2] == len % 256);
    assert(front[10] == 16 * flags + info.len() as int / 256);
    assert(front[11] == info.len() as int % 256);
}

/// Of a PMT the PID of the first H.264 stream is learned, whatever the program's
/// descriptors, whatever streams stand before it with whatever descriptors.
pub proof fn law_pmt_names_its_first_h264_stream(
    table: u8,
    flags: int,
    header: Seq<u8>,
    info: Seq<u8>,
    reserved: int,
    streams: Seq<StreamEntry>,
    crc: Seq<u8>,
    skipped: Seq<u8>,
    stuffing: Seq<u8>,
    k: int,
)
    requires
        pmt_fits(flags, header, info, reserved, streams, crc),
        skipped.len() < 256,
        0 <= k <= streams.len(),
        forall|i: int| 0 <= i < k ==> (#[trigger] streams[i]).kind != 0x1B,
        k < streams.len() ==> streams[k].kind == 0x1B,
    ensures
        ({
            let section = pmt_section(table, flags, header, info, reserved, streams, crc);
            let learned = if k < streams.len() {
                Some(streams[k].pid)
            } else {
                None
            };
            &&& pmt_stream(pointed(skipped, section, stuffing), true) == learned
            &&& pmt_stream(section + stuffing, false) == learned
        }),
{
    let entries = pmt_entries(reserved, flags, streams);
    let section = pmt_section(table, flags, header, info, reserved, streams, crc);
    let whole = section + stuffing;
    let len = 13 + info.len() as int + entries.len() as int;
    let before = pmt_front(table, flags, header, info, len);
    lemma_pmt_front(table, flags, header, info, len);
    assert(whole =~= before + entries + (crc + stuffing));
    assert(whole.len() == before.len() + entries.len() + 4 + stuffing.len());
    law_sections_are_found(skipped, section, stuffing);
    assert(whole[1] == before[1] && whole[2] == before[2]);
    assert(whole[10] == before[10] && whole[11] == before[11]);
    assert(entries_end(whole) == before.len() + entries.len());
    assert forall|i: int| 0 <= i < streams.len() implies (
    #[trigger] streams[i]).descriptors.len() < 4096 by {
        lemma_descriptors_are_short(reserved, flags, streams, i);
    }
    lemma_pmt_stream(whole, before, reserved, flags, streams, crc + stuffing, k);
}

// ---------------------------------------------------------------------------
// What packets do
// ---------------------------------------------------------------------------

/// A PAT's packet teaches the PID of the PMT, once, and nothing else.
pub proof fn law_pat_packets_teach_the_pmt(
    s: DemuxState,
    f: PacketFields,
    field: Option<Seq<u8>>,
    payload: Seq<u8>,
)
    requires
        f.fit(),
        f.pid == 0,
        packet_of(f, field, payload).len() == 188,
        payload.len() > 0,
    ensures
        after_packet(s, packet_of(f, field, payload)) == (
            if s.pmt_pid is Some {
                s
            } else {
                DemuxState { pmt_pid: pat_program(payload, f.starts), ..s }
            },
            None::<Seq<u8>>,
        ),
{
    law_payload_behind_any_adaptation_field(f, field, payload);
}

/// A PMT's packet teaches the PID of the video, once, and nothing else.
pub proof fn law_pmt_packets_teach_the_video(
    s: DemuxState,
    f: PacketFields,
    field: Option<Seq<u8>>,
    payload: Seq<u8>,
)
    requires
        f.fit(),
        f.pid != 0,
        s.pmt_pid == Some(f.pid),
        packet_of(f, field, payload).len() == 188,
        payload.len() > 0,
    ensures
        after_packet(s, packet_of(f, field, payload)) == (
            if s.video_pid is Some {
                s
            } else {
                DemuxState { video_pid: pmt_stream(payload, f.starts), ..s }
            },
            None::<Seq<u8>>,
        ),
{
    law_payload_behind_any_adaptation_field(f, field, payload);
}

/// The PID is that of the video, and of nothing else.
pub open spec fn is_video_pid(s: DemuxState, pid: u16) -> bool {
    pid != 0 && s.pmt_pid != Some(pid) && s.video_pid == Some(pid)
}

/// A packet that starts a video PES, behind whatever adaptation field, completes what
/// was collected, and collects the PES's elementary stream, whatever header data it has.
pub proof fn law_a_pes_is_collected(
    s: DemuxState,
    f: PacketFields,
    field: Option<Seq<u8>>,
    id: u8,
    flags: Seq<u8>,
    data: Seq<u8>,
    es: Seq<u8>,
)
    requires
        f.fit(),
        f.starts,
        is_video_pid(s, f.pid),
        0xE0 <= id <= 0xEF,
        flags.len() == 4,
        data.len() < 256,
        es.len() > 0,
        packet_of(f, field, pes_of(id, flags, data, es)).len() == 188,
    ensures
        after_packet(s, packet_of(f, field, pes_of(id, flags, data, es))) == (
            DemuxState { unit: es, ..s },
            if s.unit.len() > 0 {
                Some(s.unit)
            } else {
                None
            },
        ),
{
    let pes = pes_of(id, flags, data, es);
    law_payload_behind_any_adaptation_field(f, field, pes);
    law_pes_gives_its_stream(id, flags, data, es);
    assert(s.unit.len() == 0 ==> s.unit + es =~= es);
}

/// A packet that starts what is no video PES completes what was collected, and collects
/// nothing.
pub proof fn law_what_is_no_video_is_not_collected(
    s: DemuxState,
    f: PacketFields,
    field: Option<Seq<u8>>,
    payload: Seq<u8>,
)
    requires
        f.fit(),
        f.starts,
        is_video_pid(s, f.pid),
        packet_of(f, field, payload).len() == 188,
        payload.len() > 0,
        payload.len() < 9 || payload[0] != 0 || payload[1] != 0 || payload[2] != 1 || payload[3]
            < 0xE0 || payload[3] > 0xEF || payload.len() <= 9 + payload[8],
    ensures
        after_packet(s, packet_of(f, field, payload)) == (
            DemuxState { unit: Seq::empty(), ..s },
            if s.unit.len() > 0 {
                Some(s.unit)
            } else {
                None
            },
        ),
{
    law_payload_behind_any_adaptation_field(f, field, payload);
    law_only_video_pes_gives_a_stream(payload);
    assert(s.unit.len() == 0 ==> s.unit + Seq::empty() =~= Seq::empty());
}

/// A packet that goes on with a PES adds its payload, behind whatever adaptation field.
pub proof fn law_a_pes_goes_on(
    s: DemuxState,
    f: PacketFields,
    field: Option<Seq<u8>>,
    payload: Seq<u8>,
)
    requires
        f.fit(),
        !f.starts,
        is_video_pid(s, f.pid),
        packet_of(f, field, payload).len() == 188,
        payload.len() > 0,
    ensures
        after_packet(s, packet_of(f, field, payload)) == (
            DemuxState { unit: s.unit + payload, ..s },
            None::<Seq<u8>>,
        ),
{
    law_payload_behind_any_adaptation_field(f, field, payload);
}

/// Packets of other streams, and packets without payload, change nothing.
pub proof fn law_other_packets_change_nothing(
    s: DemuxState,
    f: PacketFields,
    control: int,
    rest: Seq<u8>,
)
    requires
        f.fit(),
        0 <= control < 4,
        rest.len() == 184,
        (f.pid != 0 && s.pmt_pid != Some(f.pid) && s.video_pid != Some(f.pid)) || control == 0
            || control == 2 || (control == 3 && rest[0] >= 183),
    ensures
        after_packet(s, header_of(f, control) + rest) == (s, None::<Seq<u8>>),
{
    law_header_fields_are_read(f, control, rest);
    if control == 0 || control == 2 || (control == 3 && rest[0] >= 183) {
        law_packets_without_payload(f, control, rest);
    }
}

// ---------------------------------------------------------------------------
// Streams
// ---------------------------------------------------------------------------

/// The state after some packets, one behind the other, and the units that came out.
pub open spec fn after_packets(s: DemuxState, packets: Seq<Seq<u8>>) -> (DemuxState, Seq<Seq<u8>>)
    decreases packets.len(),
{
    if packets.len() == 0 {
        (s, Seq::empty())
    } else {
        let (front, units) = after_packets(s, packets.drop_last());
        let (last, unit) = after_packet(front, packets.last());
        (
            last,
            match unit {
                Some(u) => units.push(u),
                None => units,
            },
        )
    }
}

/// The bytes of packets, one behind the other.
pub open spec fn stream_of(packets: Seq<Seq<u8>>) -> Seq<u8>
    decreases packets.len(),
{
    if packets.len() == 0 {
        Seq::empty()
    } else {
        stream_of(packets.drop_last()) + packets.last()
    }
}

proof fn lemma_after_packets_pending(s: DemuxState, packets: Seq<Seq<u8>>)
    ensures
        after_packets(s, packets).0.pending == s.pending,
    decreases packets.len(),
{
    if packets.len() > 0 {
        lemma_after_packets_pending(s, packets.drop_last());
    }
}

/// A demultiplexer begins knowing nothing and holding nothing.
pub proof fn law_a_demultiplexer_begins_empty()
    ensures
        fresh().pmt_pid is None,
        fresh().video_pid is None,
        fresh().unit.len() == 0,
        fresh().pending.len() == 0,
{
}

/// A stream of whole packets is taken packet by packet, each of 188 bytes that begin
/// with the sync byte; none is left out and nothing is left over.
pub proof fn law_streams_are_taken_packet_by_packet(s: DemuxState, packets: Seq<Seq<u8>>)
    requires
        s.pending.len() == 0,
        forall|i: int| 0 <= i < packets.len() ==> (#[trigger] packets[i]).len() == 188,
        forall|i: int| 0 <= i < packets.len() ==> (#[trigger] packets[i])[0] == 0x47,
    ensures
        after_bytes(s, stream_of(packets)) == after_packets(s, packets),
    decreases packets.len(),
{
    assert(s.pending =~= Seq::empty());
    lemma_after_packets_pending(s, packets);
    if packets.len() == 0 {
        assert(s.pending + stream_of(packets) =~= s.pending);
    } else {
        let front = packets.drop_last();
        let last = packets.last();
        assert(last == packets[packets.len() - 1]);
        assert forall|i: int| 0 <= i < front.len() implies (#[trigger] front[i]).len() == 188 by {
            assert(front[i] == packets[i]);
        }
        assert forall|i: int| 0 <= i < front.len() implies (#[trigger] front[i])[0] == 0x47 by {
            assert(front[i] == packets[i]);
        }
        law_streams_are_taken_packet_by_packet(s, front);
        lemma_after_packets_pending(s, front);
        let (mid, units) = after_packets(s, front);
        crate::mpegts_laws::law_chunking_is_immaterial(s, stream_of(front), last);
        let t = holding(mid, mid.pending + last);
        assert(mid.pending + last =~= last);
        assert(last.take(188) =~= last);
        assert(last.skip(188) =~= Seq::empty());
        let (next, unit) = after_packet(t, last);
        let (next2, unit2) = after_packet(mid, last);
        assert(unit == unit2);
        let end = holding(next, Seq::empty());
        assert(consume(end) == (end, Seq::<Seq<u8>>::empty()));
        assert(end == next2);
        assert(consume(t) == (end, in_front(unit, Seq::empty())));
        assert(units + in_front(unit, Seq::empty()) =~= after_packets(s, packets).1);
    }
}

} // verus!
