use gopro_cam_tray::mf_decode::{
    next_type, sample_suffices, DecodePhase, DecodeStep, DecoderReply, FramePool, Geometry, NEED_MORE_INPUT,
    NOT_ACCEPTING, POOL_CAP, STREAM_CHANGE,
};

#[test]
fn the_pool_gives_back_what_was_put_last() {
    let mut pool = FramePool::default();
    assert_eq!(pool.get(), (vec![], vec![]));
    pool.put(vec![1], vec![2]);
    pool.put(vec![3], vec![4]);
    assert_eq!(pool.get(), (vec![3], vec![4]));
    assert_eq!(pool.get(), (vec![1], vec![2]));
    for n in 0..10u8 {
        pool.put(vec![n], vec![]);
    }
    for n in (0..POOL_CAP as u8).rev() {
        assert_eq!(pool.get().0, vec![n]);
    }
    assert_eq!(pool.get(), (vec![], vec![]));
}

fn aperture(ox: i16, oy: i16, cx: i32, cy: i32) -> [u8; 16] {
    let mut blob = [0u8; 16];
    blob[2..4].copy_from_slice(&ox.to_le_bytes());
    blob[6..8].copy_from_slice(&oy.to_le_bytes());
    blob[8..12].copy_from_slice(&cx.to_le_bytes());
    blob[12..16].copy_from_slice(&cy.to_le_bytes());
    blob
}

#[test]
fn the_output_type_gives_the_geometry() {
    let mut g = Geometry::unset();
    g.select(Some((1920 << 32) | 1088), None, None);
    assert_eq!((g.width, g.height, g.stride), (1920, 1088, 1920));
    assert_eq!((g.crop_x, g.crop_y, g.disp_w, g.disp_h), (0, 0, 1920, 1088));

    g.select(None, Some(2048), Some(aperture(3, -5, 1920, 1080)));
    assert_eq!((g.width, g.height, g.stride), (1920, 1088, 2048));
    assert_eq!((g.crop_x, g.crop_y, g.disp_w, g.disp_h), (2, 0, 1920, 1080));

    // An empty or negative area is of no use.
    g.select(None, Some(2048), Some(aperture(2, 2, 0, 1080)));
    assert_eq!((g.crop_x, g.crop_y, g.disp_w, g.disp_h), (0, 0, 1920, 1088));
    g.select(None, Some(2048), Some(aperture(2, 2, 1920, -1)));
    assert_eq!((g.disp_w, g.disp_h), (1920, 1088));
}

#[test]
fn the_visible_rectangle_is_packed() {
    // Four rows of six bytes, two of them chroma; the visible part is 2 by 2 at (2, 0).
    let g = Geometry {
        width: 6,
        height: 2,
        stride: 6,
        crop_x: 2,
        crop_y: 0,
        disp_w: 2,
        disp_h: 2,
    };
    let data: Vec<u8> = (0..18).collect();
    assert!(g.lies_in(data.len()));
    let mut pool = FramePool::default();
    pool.put(vec![99; 40], vec![98]);
    let f = g.extract(&data, &mut pool).unwrap();
    assert_eq!((f.width, f.height), (2, 2));
    assert_eq!(f.y, vec![2, 3, 8, 9]);
    assert_eq!(f.uv, vec![14, 15]);
    assert!(g.lies_in(10));
    assert!(!g.lies_in(9));
}

#[test]
fn without_a_geometry_there_is_no_frame() {
    let mut pool = FramePool::default();
    pool.put(vec![1], vec![2]);
    assert!(Geometry::unset().extract(&[1, 2, 3], &mut pool).is_none());
    assert_eq!(pool.get(), (vec![1], vec![2]));
}

#[test]
fn an_access_unit_is_fed_and_drained() {
    let mut p = DecodePhase::Feeding;
    assert_eq!(p.next(DecoderReply::Failure(NOT_ACCEPTING)), DecodeStep::ProcessOutput);
    assert_eq!(p.next(DecoderReply::Success), DecodeStep::ProcessOutput);
    assert_eq!(p.next(DecoderReply::Failure(NEED_MORE_INPUT)), DecodeStep::ProcessInput);
    assert_eq!(p.next(DecoderReply::Success), DecodeStep::ProcessOutput);
    assert_eq!(p.next(DecoderReply::Failure(STREAM_CHANGE)), DecodeStep::Reselect);
    assert_eq!(p.next(DecoderReply::Success), DecodeStep::ProcessOutput);
    assert_eq!(p.next(DecoderReply::Failure(NEED_MORE_INPUT)), DecodeStep::Done);
}

#[test]
fn other_codes_are_failures() {
    for mut p in [DecodePhase::Feeding, DecodePhase::DrainingToRetry, DecodePhase::Draining] {
        assert_eq!(p.next(DecoderReply::Failure(0x8000_4005)), DecodeStep::Fail(0x8000_4005));
    }
    let mut p = DecodePhase::Feeding;
    assert_eq!(p.next(DecoderReply::Failure(NEED_MORE_INPUT)), DecodeStep::Fail(NEED_MORE_INPUT));
    let mut p = DecodePhase::Draining;
    assert_eq!(p.next(DecoderReply::Failure(NOT_ACCEPTING)), DecodeStep::Fail(NOT_ACCEPTING));
}

#[test]
fn a_sample_is_reused_while_it_is_large_enough() {
    assert!(sample_suffices(Some(10), 10));
    assert!(!sample_suffices(Some(9), 10));
    assert!(!sample_suffices(None, 0));
}

#[test]
fn the_first_nv12_type_is_looked_for() {
    let types = [false, false, true, true];
    let mut at = 0u32;
    while let Some(next) = next_type(at, types[at as usize]) {
        at = next;
    }
    assert_eq!(at, 2);
    assert_eq!(next_type(u32::MAX - 1, false), Some(u32::MAX));
}
