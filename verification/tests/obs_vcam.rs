use gopro_cam_tray::obs_vcam::{
    align32, frame_layout, has_layout, map_next, video_name, MapStep, Mapping, ObsVirtualCam,
    QueueHeader, Store, FRAME_HEADER_SIZE,
};

// The queue header must be byte-for-byte compatible with OBS's struct
// (write_idx, read_idx, state, offsets[3], type, cx, cy, then a u64 that
// forces 8-byte alignment, then reserved[8]) => 80 bytes. If this changes,
// the OBS filter would misread the shared memory.
#[test]
fn header_is_80_bytes() {
    assert_eq!(std::mem::size_of::<QueueHeader>(), 80);
}

#[test]
fn align32_rounds_up_to_multiple_of_32() {
    assert_eq!(align32(0), 0);
    assert_eq!(align32(1), 32);
    assert_eq!(align32(32), 32);
    assert_eq!(align32(33), 64);
    assert_eq!(align32(80), 96);
}

#[test]
fn frame_layout_matches_obs_algorithm() {
    let (cx, cy) = (1280u32, 720u32);
    let frame_size = (cx as usize) * (cy as usize) * 3 / 2;
    let region = align32(frame_size + FRAME_HEADER_SIZE);
    let (offsets, total) = frame_layout(cx, cy);

    // First frame starts right after the 32-aligned header (80 -> 96).
    assert_eq!(offsets[0], 96);
    // Every offset is 32-byte aligned.
    assert!(offsets.iter().all(|o| o % 32 == 0));
    // Frames are strictly increasing and evenly spaced by one region.
    assert_eq!(offsets[1] - offsets[0], region);
    assert_eq!(offsets[2] - offsets[1], region);
    // Total covers the header plus all three frame regions.
    assert_eq!(total, offsets[2] + region);
}

#[test]
fn frame_layout_odd_ish_resolution() {
    // 1080 is not a multiple of 16; layout must still be self-consistent.
    let (offsets, total) = frame_layout(1920, 1080);
    let region = align32(1920 * 1080 * 3 / 2 + FRAME_HEADER_SIZE);
    assert_eq!(offsets[0], 96);
    assert_eq!(total, offsets[0] + 3 * region);
}

// Performs stores on a memory.
fn perform(mem: &mut [u8], stores: &[Store]) {
    for store in stores {
        match store {
            Store::Word { at, word } => mem[*at..at + 4].copy_from_slice(&word.to_le_bytes()),
            Store::Long { at, long } => mem[*at..at + 8].copy_from_slice(&long.to_le_bytes()),
            Store::Bytes { at, bytes } => mem[*at..at + bytes.len()].copy_from_slice(bytes),
        }
    }
}

fn word(mem: &[u8], at: usize) -> u32 {
    u32::from_le_bytes([mem[at], mem[at + 1], mem[at + 2], mem[at + 3]])
}

#[test]
fn the_header_is_encoded_as_it_lies_in_memory() {
    let h = QueueHeader {
        write_idx: 1,
        read_idx: 2,
        state: 3,
        offsets: [4, 5, 0x0102_0304],
        kind: 6,
        cx: 1920,
        cy: 1080,
        interval: 0x1122_3344_5566_7788,
        reserved: [7, 8, 9, 10, 11, 12, 13, u32::MAX],
    };
    let bytes = h.encode();
    assert_eq!(bytes.len(), 80);
    for (j, expected) in [1, 2, 3, 4, 5, 0x0102_0304, 6, 1920, 1080, 0].into_iter().enumerate() {
        assert_eq!(word(&bytes, 4 * j), expected);
    }
    assert_eq!(word(&bytes, 40), 0x5566_7788);
    assert_eq!(word(&bytes, 44), 0x1122_3344);
    assert_eq!(word(&bytes, 48), 7);
    assert_eq!(word(&bytes, 76), u32::MAX);
}

#[test]
fn the_camera_says_why_it_cannot_be_opened() {
    let error = |m| ObsVirtualCam::create(4, 2, 333_333, m).err().unwrap();
    assert_eq!(
        error(Mapping::AlreadyThere),
        "OBSVirtualCamVideo already in use \u{2014} is OBS (or another instance) already running the virtual camera?"
    );
    assert_eq!(
        error(Mapping::NotCreated),
        "CreateFileMappingW failed (is the OBS virtual camera installed?)"
    );
    assert_eq!(error(Mapping::NotMapped), "MapViewOfFile failed");
}

#[test]
fn frames_are_written_slot_by_slot() {
    let (cx, cy) = (4u32, 2u32);
    let (offsets, total) = frame_layout(cx, cy);
    assert_eq!(ObsVirtualCam::mapping_bytes(cx, cy) as usize, total);
    let (cam, header) = ObsVirtualCam::create(cx, cy, 333_333, Mapping::Mapped).unwrap();
    let mut mem = vec![0xEEu8; total];
    mem[..header.len()].copy_from_slice(&header);
    assert_eq!(word(&mem, 8), 1);

    for n in 1..=7u32 {
        let y = vec![n as u8; 8];
        let uv = vec![0x80 | n as u8; 4];
        assert!(cam.takes(&y, &uv));
        let idx = word(&mem, 0);
        assert_eq!(idx, n - 1);
        let stores = cam.write_nv12(idx, &y, &uv, 1000 + n as u64);
        perform(&mut mem, &stores);
        let at = offsets[(n % 3) as usize];
        assert_eq!(word(&mem, 0), n);
        assert_eq!(word(&mem, 4), n);
        assert_eq!(word(&mem, 8), 2);
        assert_eq!(word(&mem, at), 1000 + n);
        assert_eq!(mem[at + 32..at + 40], y[..]);
        assert_eq!(mem[at + 40..at + 44], uv[..]);
        // The rest of the header stays.
        assert_eq!(mem[12..80], header[12..80]);
    }
    // The frames of two turns ago and before are still there.
    assert_eq!(mem[offsets[0] + 32], 6);
    assert_eq!(mem[offsets[2] + 32], 5);

    perform(&mut mem, &[ObsVirtualCam::closing()]);
    assert_eq!(word(&mem, 8), 3);
}

#[test]
fn a_frame_is_announced_once_it_is_complete() {
    let (cam, _) = ObsVirtualCam::create(4, 2, 333_333, Mapping::Mapped).unwrap();
    let (y, uv) = (vec![1; 8], vec![2; 4]);
    let stores = cam.write_nv12(u32::MAX, &y, &uv, 5);
    assert!(matches!(stores[0], Store::Word { at: 0, word: 0 }));
    assert!(matches!(stores[4], Store::Word { at: 4, word: 0 }));
    assert!(matches!(stores[5], Store::Word { at: 8, word: 2 }));
    assert!(!cam.takes(&y, &y));
}

#[test]
fn layouts_that_do_not_fit_are_told() {
    assert!(has_layout(1920, 1080));
    assert!(has_layout(0, 0));
    assert!(!has_layout(u32::MAX, u32::MAX));
}

#[test]
fn the_name_of_the_queue_is_terminated() {
    let expected: Vec<u16> = "OBSVirtualCamVideo\0".encode_utf16().collect();
    assert_eq!(video_name(), expected);
}

#[test]
fn a_mapping_is_made_only_where_there_is_none() {
    // Which calls are made if these fail, and how it ends.
    let run = |fails: [bool; 3]| {
        let mut calls = Vec::new();
        let mut step = MapStep::Open;
        loop {
            let failed = match step {
                MapStep::Open => fails[0],
                MapStep::Create => fails[1],
                MapStep::View => fails[2],
                MapStep::Done { mapping, close } => return (calls, mapping, close),
            };
            calls.push(step);
            step = map_next(step, failed);
        }
    };
    assert_eq!(run([false, false, false]), (vec![MapStep::Open], Mapping::AlreadyThere, true));
    assert_eq!(
        run([true, true, false]),
        (vec![MapStep::Open, MapStep::Create], Mapping::NotCreated, false)
    );
    let all = vec![MapStep::Open, MapStep::Create, MapStep::View];
    assert_eq!(run([true, false, true]), (all.clone(), Mapping::NotMapped, true));
    assert_eq!(run([true, false, false]), (all, Mapping::Mapped, false));
    let done = MapStep::Done { mapping: Mapping::Mapped, close: false };
    assert_eq!(map_next(done, true), done);
}

#[test]
fn numbers_are_stored_by_one_write_each() {
    let (cam, _) = ObsVirtualCam::create(4, 2, 333_333, Mapping::Mapped).unwrap();
    let (y, uv) = (vec![1; 8], vec![2; 4]);
    let stores = cam.write_nv12(8, &y, &uv, 5);
    let kinds: Vec<&str> = stores
        .iter()
        .map(|s| match s {
            Store::Word { .. } => "word",
            Store::Long { .. } => "long",
            Store::Bytes { .. } => "bytes",
        })
        .collect();
    assert_eq!(kinds, ["word", "long", "bytes", "bytes", "word", "word"]);
    assert!(matches!(ObsVirtualCam::closing(), Store::Word { at: 8, word: 3 }));
}
