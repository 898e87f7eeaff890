use gopro_cam_tray::control::Control;
use gopro_cam_tray::mf_decode::{Frame, FramePool};
use gopro_cam_tray::obs_vcam::{Mapping, ObsVirtualCam, Store};
use gopro_cam_tray::session::{
    deliver, keeps_decoding, keeps_receiving, mapping_needed, publish_one, Consumer, SessionEnd, Turn,
    INTERVAL_100NS, MAX_QUEUE, PERIOD,
};
use std::collections::VecDeque;

const SECOND: u128 = 1_000_000_000;

// A frame of four pixels that is marked with a number.
fn frame(n: u8) -> Frame {
    Frame { width: 2, height: 2, y: vec![n; 4], uv: vec![n; 2] }
}

fn marks(queue: &VecDeque<Frame>) -> Vec<u8> {
    queue.iter().map(|f| f.y[0]).collect()
}

#[test]
fn the_interval_is_that_of_thirty_frames() {
    assert_eq!(INTERVAL_100NS, 333_333);
    assert_eq!(PERIOD, 33_333_300);
}

#[test]
fn the_newest_frames_stay() {
    let mut queue = VecDeque::new();
    let mut pool = FramePool::default();
    let mut ts = 0i64;
    deliver(vec![frame(1), frame(2)], true, &mut queue, &mut pool, &mut ts);
    assert_eq!(marks(&queue), [1, 2]);
    assert_eq!(ts, 333_333);
    deliver(vec![frame(3), frame(4), frame(5)], true, &mut queue, &mut pool, &mut ts);
    assert_eq!(marks(&queue), [3, 4, 5]);
    assert_eq!(queue.len(), MAX_QUEUE);
    assert_eq!(ts, 666_666);
    // The buffers of the dropped frames were put back, the later one on top.
    assert_eq!(pool.get(), (vec![2; 4], vec![2; 2]));
    assert_eq!(pool.get(), (vec![1; 4], vec![1; 2]));
    assert_eq!(pool.get(), (vec![], vec![]));
}

#[test]
fn frames_of_a_failed_decoding_are_dropped() {
    let mut queue = VecDeque::new();
    let mut pool = FramePool::default();
    let mut ts = 5i64;
    deliver(vec![frame(1)], false, &mut queue, &mut pool, &mut ts);
    assert!(queue.is_empty());
    assert_eq!(pool.get(), (vec![], vec![]));
    assert_eq!(ts, 333_338);
    deliver(vec![], true, &mut queue, &mut pool, &mut ts);
    assert!(queue.is_empty());
    assert_eq!(ts, 666_671);
}

#[test]
fn times_wrap_around() {
    let mut ts = i64::MAX;
    deliver(vec![], true, &mut VecDeque::new(), &mut FramePool::default(), &mut ts);
    assert_eq!(ts, i64::MIN + 333_332);
}

#[test]
fn decoding_goes_on_until_something_ends_it() {
    let mut ctrl = Control::new();
    assert!(keeps_decoding(true, &ctrl));
    assert!(!keeps_decoding(false, &ctrl));
    ctrl.suspended = true;
    assert!(!keeps_decoding(true, &ctrl));
    ctrl.suspended = false;
    ctrl.quit = true;
    assert!(!keeps_decoding(true, &ctrl));
    // A receive that only timed out does not end it.
    assert!(keeps_receiving(true));
    assert!(!keeps_receiving(false));
}

#[test]
fn a_turn_publishes_the_oldest_frame() {
    let c = Consumer::new(0);
    let ctrl = Control::new();
    let mut queue: VecDeque<Frame> = VecDeque::new();
    queue.push_back(frame(1));
    queue.push_back(frame(2));
    match c.turn(&ctrl, &mut queue, 99 * SECOND) {
        Turn::Publish(f) => assert_eq!(f.y, vec![1; 4]),
        _ => panic!("no frame"),
    }
    assert_eq!(marks(&queue), [2]);
}

#[test]
fn quitting_comes_before_suspending_and_both_before_frames() {
    let c = Consumer::new(0);
    let mut ctrl = Control::new();
    ctrl.suspended = true;
    let mut queue: VecDeque<Frame> = VecDeque::new();
    queue.push_back(frame(1));
    assert!(matches!(c.turn(&ctrl, &mut queue, 0), Turn::End(SessionEnd::Suspended)));
    ctrl.quit = true;
    assert!(matches!(c.turn(&ctrl, &mut queue, 0), Turn::End(SessionEnd::Quit)));
    assert_eq!(queue.len(), 1);
}

#[test]
fn a_camera_without_frames_is_gone_after_three_seconds() {
    let mut c = Consumer::new(SECOND);
    let mut ctrl = Control::new();
    let mut queue: VecDeque<Frame> = VecDeque::new();
    assert!(matches!(c.turn(&ctrl, &mut queue, 0), Turn::Idle));
    assert!(matches!(c.turn(&ctrl, &mut queue, 4 * SECOND), Turn::Idle));
    assert!(matches!(
        c.turn(&ctrl, &mut queue, 4 * SECOND + 1),
        Turn::End(SessionEnd::Disconnected)
    ));
    c.published(frame(1), &mut ctrl, &mut FramePool::default(), 4 * SECOND);
    assert!(matches!(c.turn(&ctrl, &mut queue, 4 * SECOND + 1), Turn::Idle));
}

#[test]
fn published_frames_are_recycled_or_shown() {
    let mut c = Consumer::new(0);
    let mut ctrl = Control::new();
    let mut pool = FramePool::default();
    c.published(frame(1), &mut ctrl, &mut pool, 5);
    assert_eq!(c.last_frame, 5);
    assert!(ctrl.preview.is_none());
    assert_eq!(pool.get(), (vec![1; 4], vec![1; 2]));
    ctrl.preview_opened();
    c.published(frame(2), &mut ctrl, &mut pool, 6);
    assert_eq!(ctrl.preview_seq, 1);
    assert_eq!(pool.get(), (vec![], vec![]));
    c.published(frame(3), &mut ctrl, &mut pool, 7);
    assert_eq!(ctrl.preview.as_ref().unwrap().y, vec![3; 4]);
    assert_eq!(ctrl.preview_seq, 2);
    assert_eq!(pool.get(), (vec![2; 4], vec![2; 2]));
}

#[test]
fn turns_are_a_period_apart() {
    let mut c = Consumer::new(0);
    assert_eq!(c.pace(1_000), PERIOD - 1_000);
    assert_eq!(c.pace(PERIOD + 5), PERIOD - 5);
    assert_eq!(c.next, 2 * PERIOD);
    // Late: not caught up with.
    assert_eq!(c.pace(10 * PERIOD), 0);
    assert_eq!(c.next, 10 * PERIOD);
    assert_eq!(c.pace(10 * PERIOD), PERIOD);
}

#[test]
fn the_virtual_camera_is_made_with_the_first_frame() {
    let mut cam = None;
    let mut ts = 7u64;
    let mut announced = false;
    let f = frame(9);
    assert_eq!(mapping_needed(&cam, &f), Some(ObsVirtualCam::mapping_bytes(2, 2)));
    let p = publish_one(&mut cam, &f, Mapping::Mapped, 99, &mut ts, &mut announced);
    let header = p.header.unwrap();
    assert_eq!(header.len(), 80);
    assert_eq!(header[28..36], [2, 0, 0, 0, 2, 0, 0, 0]);
    assert_eq!(p.stores.len(), 6);
    // The frame number of a new camera is zero, whatever is passed.
    assert!(matches!(p.stores[0], Store::Word { at: 0, word: 1 }));
    assert!(matches!(p.stores[1], Store::Long { long: 7, .. }));
    assert!(matches!(p.stores[2], Store::Bytes { bytes: [9, 9, 9, 9], .. }));
    assert_eq!(ts, 333_340);
    assert!(announced);

    assert!(cam.is_some());
    assert_eq!(mapping_needed(&cam, &f), None);
    let p = publish_one(&mut cam, &f, Mapping::NotCreated, 41, &mut ts, &mut announced);
    assert!(p.header.is_none());
    assert!(matches!(p.stores[0], Store::Word { at: 0, word: 42 }));
    assert!(matches!(p.stores[1], Store::Long { long: 333_340, .. }));
    assert_eq!(ts, 666_673);

    let mut ts = u64::MAX;
    publish_one(&mut cam, &f, Mapping::Mapped, 0, &mut ts, &mut announced);
    assert_eq!(ts, 333_332);
}

#[test]
fn without_a_virtual_camera_frames_are_passed_over() {
    let mut cam = None;
    let mut ts = 7u64;
    let mut announced = false;
    let f = frame(9);
    for mapping in [Mapping::AlreadyThere, Mapping::NotCreated, Mapping::NotMapped] {
        let p = publish_one(&mut cam, &f, mapping, 3, &mut ts, &mut announced);
        assert!(p.header.is_none());
        assert!(p.stores.is_empty());
        assert!(cam.is_none());
        assert_eq!(ts, 7);
        assert!(!announced);
    }
}
