use gopro_cam_tray::control::{Control, PreviewFrame};
use gopro_cam_tray::mf_decode::{Frame, FramePool};
use gopro_cam_tray::preview::PaintCache;

fn white_frame() -> Frame {
    Frame { width: 2, height: 2, y: vec![235; 4], uv: vec![128; 2] }
}

#[test]
fn a_fresh_control_asks_for_nothing() {
    let c = Control::new();
    assert!(!c.quit && !c.suspended && !c.streaming && !c.preview_on);
    assert!(c.preview.is_none());
    assert_eq!(c.preview_seq, 0);
}

#[test]
fn frames_are_kept_only_for_an_open_preview() {
    let mut c = Control::new();
    let mut pool = FramePool::default();
    c.keep_frame(white_frame(), &mut pool);
    assert!(c.preview.is_none());
    assert_eq!(c.preview_seq, 0);
    assert_eq!(pool.get(), (vec![235; 4], vec![128; 2]));
    c.preview_opened();
    c.keep_frame(white_frame(), &mut pool);
    assert_eq!(c.preview.as_ref().unwrap().width, 2);
    assert_eq!(c.preview_seq, 1);
    c.preview_seq = u64::MAX;
    c.keep_frame(white_frame(), &mut pool);
    assert_eq!(c.preview_seq, 0);
    c.preview_closed();
    assert!(c.preview.is_none() && !c.preview_on);
}

#[test]
fn a_frame_is_converted_once() {
    let mut c = Control::new();
    let mut cache: Option<PaintCache> = None;
    PaintCache::refresh(&mut cache, &c);
    assert!(cache.is_none());
    assert_eq!(PaintCache::bitmap(&cache), None);

    c.preview_opened();
    c.keep_frame(white_frame(), &mut FramePool::default());
    assert!(PaintCache::can_paint(&c));
    PaintCache::refresh(&mut cache, &c);
    assert_eq!(cache.as_ref().unwrap().bgra, vec![255; 16]);
    assert_eq!(cache.as_ref().unwrap().seq, 1);
    assert_eq!(PaintCache::bitmap(&cache), Some((2, -2)));

    // The same sequence number: nothing is converted again.
    c.preview = Some(PreviewFrame { width: 2, height: 2, y: vec![16; 4], uv: vec![128; 2] });
    PaintCache::refresh(&mut cache, &c);
    assert_eq!(cache.as_ref().unwrap().bgra, vec![255; 16]);

    c.preview_seq += 1;
    PaintCache::refresh(&mut cache, &c);
    let black: Vec<u8> = [0, 0, 0, 255].repeat(4);
    assert_eq!(cache.as_ref().unwrap().bgra, black);

    // Without a frame the picture stays.
    c.preview_closed();
    c.preview_seq += 1;
    PaintCache::refresh(&mut cache, &c);
    assert_eq!(cache.as_ref().unwrap().bgra, black);
}

#[test]
fn frames_with_short_planes_cannot_be_painted() {
    let mut c = Control::new();
    assert!(PaintCache::can_paint(&c));
    for (y, uv, paintable) in [(4, 2, true), (3, 2, false), (4, 1, false), (9, 9, true)] {
        c.preview = Some(PreviewFrame { width: 2, height: 2, y: vec![0; y], uv: vec![0; uv] });
        assert_eq!(PaintCache::can_paint(&c), paintable);
    }
}

#[test]
fn an_empty_picture_is_not_drawn() {
    let mut c = Control::new();
    c.preview = Some(PreviewFrame { width: 0, height: 2, y: vec![], uv: vec![] });
    c.preview_seq = 1;
    let mut cache = None;
    PaintCache::refresh(&mut cache, &c);
    assert!(cache.is_some());
    assert_eq!(PaintCache::bitmap(&cache), None);
}

#[test]
fn copying_and_converting_are_two_steps() {
    let mut c = Control::new();
    let mut cache: Option<PaintCache> = None;
    assert!(!PaintCache::copy_frame(&mut cache, &c));
    assert!(cache.is_none());
    c.preview_opened();
    c.keep_frame(white_frame(), &mut FramePool::default());
    assert!(PaintCache::copy_frame(&mut cache, &c));
    let picture = cache.as_mut().unwrap();
    assert_eq!((picture.seq, picture.w, picture.h), (1, 2, 2));
    assert_eq!(picture.y, vec![235; 4]);
    assert!(picture.bgra.is_empty());
    assert!(picture.can_convert());
    picture.convert();
    assert_eq!(picture.bgra, vec![255; 16]);
    assert!(!PaintCache::copy_frame(&mut cache, &c));
    // A frame with short planes is copied, and cannot be converted.
    c.preview = Some(PreviewFrame { width: 2, height: 2, y: vec![0; 3], uv: vec![0; 2] });
    c.preview_seq += 1;
    assert!(PaintCache::copy_frame(&mut cache, &c));
    assert!(!cache.as_ref().unwrap().can_convert());
}

#[test]
fn without_a_picture_the_height_does_not_matter() {
    let cache = Some(PaintCache {
        seq: 1,
        w: 0,
        h: 0x8000_0000,
        y: vec![],
        uv: vec![],
        bgra: vec![],
    });
    assert_eq!(PaintCache::bitmap(&cache), None);
}
