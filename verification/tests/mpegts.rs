use gopro_cam_tray::mpegts::{strip_pes_header, TsDemux, SYNC, TS_PACKET};

// Build a 188-byte TS packet (payload only, no adaptation field). Short
// payloads are padded with 0xFF, exactly like real stuffing.
fn ts(pid: u16, pusi: bool, payload: &[u8]) -> Vec<u8> {
    let mut p = vec![0xFFu8; TS_PACKET];
    p[0] = SYNC;
    p[1] = (if pusi { 0x40 } else { 0 }) | ((pid >> 8) as u8 & 0x1F);
    p[2] = (pid & 0xFF) as u8;
    p[3] = 0x10; // adaptation_field_control = 01 (payload only)
    let n = payload.len().min(TS_PACKET - 4);
    p[4..4 + n].copy_from_slice(&payload[..n]);
    p
}

// PAT with a single program pointing at `pmt_pid`.
fn pat(pmt_pid: u16) -> Vec<u8> {
    let mut v = vec![0x00u8]; // pointer_field
    v.extend_from_slice(&[
        0x00, // table_id (PAT)
        0xB0, 0x0D, // syntax=1, section_length=13
        0x00, 0x01, // transport_stream_id
        0xC1, // version/current_next
        0x00, 0x00, // section#, last#
        0x00, 0x01, // program_number = 1
        0xE0 | ((pmt_pid >> 8) as u8 & 0x1F),
        (pmt_pid & 0xFF) as u8, // reserved + PMT PID
        0xDE, 0xAD, 0xBE, 0xEF, // CRC (unchecked by the demuxer)
    ]);
    v
}

// PMT declaring one H.264 (stream_type 0x1B) stream on `video_pid`.
fn pmt(video_pid: u16) -> Vec<u8> {
    let mut v = vec![0x00u8]; // pointer_field
    v.extend_from_slice(&[
        0x02, // table_id (PMT)
        0xB0, 0x12, // syntax=1, section_length=18
        0x00, 0x01, // program_number
        0xC1, // version/current_next
        0x00, 0x00, // section#, last#
        0xE0, 0x00, // reserved + PCR_PID
        0xF0, 0x00, // reserved + program_info_length = 0
        0x1B, // stream_type = H.264
        0xE0 | ((video_pid >> 8) as u8 & 0x1F),
        (video_pid & 0xFF) as u8, // elementary PID
        0xF0, 0x00, // reserved + ES_info_length = 0
        0xDE, 0xAD, 0xBE, 0xEF, // CRC (unchecked)
    ]);
    v
}

// Video PES payload (9-byte header + elementary-stream bytes).
fn pes(es: &[u8]) -> Vec<u8> {
    let mut v = vec![0x00, 0x00, 0x01, 0xE0, 0x00, 0x00, 0x80, 0x00, 0x00];
    v.extend_from_slice(es);
    v
}

const PMT_PID: u16 = 0x0100;
const VID_PID: u16 = 0x0101;

#[test]
fn extracts_access_unit_through_pat_pmt_pes() {
    let mut d = TsDemux::new();
    let es1 = [0u8, 0, 0, 1, 0x09, 0x10];
    let es2 = [0u8, 0, 0, 1, 0x67, 0x42];

    let mut stream = Vec::new();
    stream.extend(ts(0, true, &pat(PMT_PID)));
    stream.extend(ts(PMT_PID, true, &pmt(VID_PID)));
    stream.extend(ts(VID_PID, true, &pes(&es1)));
    // A second PES (new PUSI) flushes the first access unit.
    stream.extend(ts(VID_PID, true, &pes(&es2)));

    let aus = d.push(&stream);
    assert_eq!(aus.len(), 1, "exactly one AU should be flushed");
    assert!(aus[0].starts_with(&es1), "AU should begin with the first PES payload");
    assert_eq!(&aus[0][..4], &[0, 0, 0, 1], "AU should start with an Annex-B start code");
}

#[test]
fn no_output_until_the_next_pusi() {
    let mut d = TsDemux::new();
    let mut stream = Vec::new();
    stream.extend(ts(0, true, &pat(PMT_PID)));
    stream.extend(ts(PMT_PID, true, &pmt(VID_PID)));
    stream.extend(ts(VID_PID, true, &pes(&[0, 0, 0, 1, 0x67])));
    // Only one PES so far: it is still buffered, nothing flushed yet.
    assert!(d.push(&stream).is_empty());
}

#[test]
fn reassembles_a_pes_split_across_packets() {
    let mut d = TsDemux::new();
    // Exact-size payloads (no stuffing) so we can assert byte-for-byte.
    let head = vec![0xAAu8; TS_PACKET - 4 - 9]; // fills packet 1 exactly
    let tail = vec![0xBBu8; TS_PACKET - 4]; // fills packet 2 exactly

    let mut stream = Vec::new();
    stream.extend(ts(0, true, &pat(PMT_PID)));
    stream.extend(ts(PMT_PID, true, &pmt(VID_PID)));
    stream.extend(ts(VID_PID, true, &pes(&head))); // starts the AU
    stream.extend(ts(VID_PID, false, &tail)); // continuation
    stream.extend(ts(VID_PID, true, &pes(&[0xCC]))); // flush

    let aus = d.push(&stream);
    assert_eq!(aus.len(), 1);
    let mut expected = head.clone();
    expected.extend_from_slice(&tail);
    assert_eq!(aus[0], expected);
}

#[test]
fn resyncs_after_leading_garbage() {
    let mut d = TsDemux::new();
    let es = [0u8, 0, 0, 1, 0x65, 0x88];

    let mut stream = vec![0x00, 0x11, 0x22]; // junk before the first sync byte
    stream.extend(ts(0, true, &pat(PMT_PID)));
    stream.extend(ts(PMT_PID, true, &pmt(VID_PID)));
    stream.extend(ts(VID_PID, true, &pes(&es)));
    stream.extend(ts(VID_PID, true, &pes(&[0, 0, 0, 1, 0x41])));

    let aus = d.push(&stream);
    assert_eq!(aus.len(), 1);
    assert!(aus[0].starts_with(&es));
}

#[test]
fn pieces_of_the_stream_do_not_matter() {
    let mut stream = vec![0x47, 0x00, 0x11];
    stream.extend(ts(0, true, &pat(PMT_PID)));
    stream.extend(ts(PMT_PID, true, &pmt(VID_PID)));
    for n in 0..4u8 {
        stream.extend(ts(VID_PID, true, &pes(&[0, 0, 0, 1, n])));
        stream.extend(ts(VID_PID, false, &[n; 184]));
    }
    let whole = TsDemux::new().push(&stream);
    for size in [1, 7, 187, 188, 189, 500] {
        let mut d = TsDemux::new();
        let mut aus = Vec::new();
        for piece in stream.chunks(size) {
            aus.extend(d.push(piece));
        }
        assert_eq!(aus, whole);
    }
}

#[test]
fn other_streams_are_left_alone() {
    let mut d = TsDemux::new();
    let mut stream = Vec::new();
    // Video before the tables is not known to be video.
    stream.extend(ts(VID_PID, true, &pes(&[9])));
    stream.extend(ts(0, true, &pat(PMT_PID)));
    stream.extend(ts(PMT_PID, true, &pmt(VID_PID)));
    stream.extend(ts(0x1FFF, true, &pes(&[8])));
    stream.extend(ts(VID_PID, false, &[7; 184]));
    stream.extend(ts(VID_PID, true, &pes(&[1])));
    stream.extend(ts(VID_PID, true, &pes(&[2])));
    let aus = d.push(&stream);
    assert_eq!(aus.len(), 2);
    // A continuation before the first start is kept, as it stands.
    assert_eq!(aus[0], vec![7; 184]);
    assert_eq!(aus[1][0], 1);
}

#[test]
fn pes_headers_are_stripped() {
    assert_eq!(strip_pes_header(&pes(&[5, 6])), Some(&[5, 6][..]));
    // The header's own length field counts.
    let mut longer = pes(&[1, 2, 3, 4]);
    longer[8] = 3;
    assert_eq!(strip_pes_header(&longer), Some(&[4][..]));
    // A header with nothing behind it, no start code, or a header that is cut off.
    longer[8] = 4;
    assert_eq!(strip_pes_header(&longer), None);
    longer[2] = 0;
    longer[8] = 0;
    assert_eq!(strip_pes_header(&longer), None);
    assert_eq!(strip_pes_header(&[0, 0, 1]), None);
}

#[test]
fn only_video_pes_is_taken() {
    let of = |id: u8| {
        let mut p = pes(&[0xAA]);
        p[3] = id;
        strip_pes_header(&p).map(|es| es.to_vec())
    };
    // Audio, and the ids next to those of video.
    assert_eq!(strip_pes_header(&[0, 0, 1, 0xC0, 0, 0, 0x80, 0, 0, 0xAA]), None);
    assert_eq!(of(0xC0), None);
    assert_eq!(of(0xDF), None);
    assert_eq!(of(0xF0), None);
    for id in 0xE0..=0xEF {
        assert_eq!(of(id), Some(vec![0xAA]));
    }

    // Such a PES on the video's PID ends the unit before it and adds nothing.
    let mut d = TsDemux::new();
    let mut stream = Vec::new();
    stream.extend(ts(0, true, &pat(PMT_PID)));
    stream.extend(ts(PMT_PID, true, &pmt(VID_PID)));
    stream.extend(ts(VID_PID, true, &pes(&[1; 175])));
    let mut audio = pes(&[2; 175]);
    audio[3] = 0xC0;
    stream.extend(ts(VID_PID, true, &audio));
    stream.extend(ts(VID_PID, true, &pes(&[3; 175])));
    stream.extend(ts(VID_PID, true, &pes(&[4; 175])));
    assert_eq!(d.push(&stream), vec![vec![1; 175], vec![3; 175]]);
}

#[test]
fn learned_pids_stay() {
    let mut d = TsDemux::new();
    let mut stream = Vec::new();
    stream.extend(ts(0, true, &pat(PMT_PID)));
    stream.extend(ts(PMT_PID, true, &pmt(VID_PID)));
    // Later tables that say otherwise are not looked at.
    stream.extend(ts(0, true, &pat(0x0200)));
    stream.extend(ts(PMT_PID, true, &pmt(0x0300)));
    stream.extend(ts(0x0200, true, &pmt(0x0300)));
    stream.extend(ts(0x0300, true, &pes(&[3])));
    stream.extend(ts(VID_PID, true, &pes(&[1])));
    stream.extend(ts(VID_PID, true, &pes(&[2])));
    let aus = d.push(&stream);
    assert_eq!(aus.len(), 1);
    assert_eq!(aus[0][0], 1);
}

#[test]
fn no_video_byte_is_lost() {
    let mut d = TsDemux::new();
    let mut stream = Vec::new();
    let mut video: Vec<u8> = Vec::new();
    stream.extend(ts(0, true, &pat(PMT_PID)));
    stream.extend(ts(PMT_PID, true, &pmt(VID_PID)));
    for n in 0..5u8 {
        let first: Vec<u8> = (0..175).map(|i| i ^ n).collect();
        let more: Vec<u8> = (0..184).map(|i| i ^ (n << 3)).collect();
        stream.extend(ts(VID_PID, true, &pes(&first)));
        stream.extend(ts(VID_PID, false, &more));
        video.extend(first);
        video.extend(more);
    }
    stream.extend(ts(VID_PID, true, &pes(&[])));
    let aus = d.push(&stream);
    assert_eq!(aus.len(), 5);
    assert_eq!(aus.concat(), video);
    assert!(aus.iter().all(|au| !au.is_empty()));
}

#[test]
fn adaptation_fields_are_skipped() {
    let mut d = TsDemux::new();
    let mut stream = Vec::new();
    stream.extend(ts(0, true, &pat(PMT_PID)));
    stream.extend(ts(PMT_PID, true, &pmt(VID_PID)));
    stream.extend(ts(VID_PID, true, &pes(&[1; 175])));
    // An adaptation field of two bytes and its length, then the payload.
    let mut p = ts(VID_PID, false, &[2; 184]);
    p[3] = 0x30;
    p[4] = 2;
    stream.extend(p);
    // An adaptation field alone.
    let mut p = ts(VID_PID, false, &[3; 184]);
    p[3] = 0x20;
    stream.extend(p);
    stream.extend(ts(VID_PID, true, &pes(&[4])));
    let aus = d.push(&stream);
    let mut expected = vec![1; 175];
    expected.extend([2; 181]);
    assert_eq!(aus, vec![expected]);
}

#[test]
fn garbage_before_short_data_gives_no_unit() {
    for n in [0, 1, 186, 187, 188] {
        let mut noisy = vec![0x11; 200];
        let data = &ts(0, true, &pat(PMT_PID))[..n];
        noisy.extend_from_slice(data);
        assert_eq!(TsDemux::new().push(&noisy), TsDemux::new().push(data));
    }
}
