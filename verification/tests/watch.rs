use gopro_cam_tray::control::Control;
use gopro_cam_tray::http::Address;
use gopro_cam_tray::menu::Entry;
use gopro_cam_tray::session::SessionEnd;
use gopro_cam_tray::watch::{Phase, Report, Watcher};

const IP: Address = Address { a: 172, b: 24, c: 106, d: 51 };

fn streaming(ctrl: &mut Control) -> Watcher {
    let mut w = Watcher::new(ctrl);
    assert_eq!(w.phase, Phase::Probing);
    w.report(ctrl, Report::Found(Some(IP)));
    assert_eq!(w.phase, Phase::Starting(IP));
    assert!(!ctrl.streaming);
    w.report(ctrl, Report::Started(Ok(())));
    assert_eq!(w.phase, Phase::Streaming(IP));
    assert!(ctrl.streaming);
    w
}

#[test]
fn a_camera_that_is_not_there_is_looked_for_again() {
    let mut ctrl = Control::new();
    let mut w = Watcher::new(&ctrl);
    w.report(&mut ctrl, Report::Found(None));
    assert_eq!(w.phase, Phase::Pausing(2000));
    w.report(&mut ctrl, Report::Done);
    assert_eq!(w.phase, Phase::Probing);
}

#[test]
fn a_camera_that_does_not_start_is_looked_for_at_once() {
    let mut ctrl = Control::new();
    let mut w = Watcher::new(&ctrl);
    w.report(&mut ctrl, Report::Found(Some(IP)));
    w.report(&mut ctrl, Report::Started(Err("HTTP status 500".to_string())));
    assert_eq!(w.phase, Phase::Probing);
    assert!(!ctrl.streaming);
}

#[test]
fn a_camera_that_is_gone_is_not_turned_off() {
    let mut ctrl = Control::new();
    let mut w = streaming(&mut ctrl);
    w.report(&mut ctrl, Report::Ended(SessionEnd::Disconnected));
    assert_eq!(w.phase, Phase::Probing);
    assert!(!ctrl.streaming);
}

#[test]
fn a_camera_that_is_there_is_turned_off() {
    let mut ctrl = Control::new();
    let mut w = streaming(&mut ctrl);
    ctrl.suspended = true;
    w.report(&mut ctrl, Report::Ended(SessionEnd::Suspended));
    assert_eq!(w.phase, Phase::Stopping(IP));
    assert!(!ctrl.streaming);
    w.report(&mut ctrl, Report::Done);
    assert_eq!(w.phase, Phase::Pausing(500));

    let mut ctrl = Control::new();
    let mut w = streaming(&mut ctrl);
    ctrl.quit = true;
    w.report(&mut ctrl, Report::Ended(SessionEnd::Quit));
    assert_eq!(w.phase, Phase::Stopping(IP));
    w.report(&mut ctrl, Report::Done);
    assert_eq!(w.phase, Phase::Exited);
}

#[test]
fn a_suspended_watcher_probes_every_fourth_time() {
    let mut ctrl = Control::new();
    ctrl.suspended = true;
    let mut w = Watcher::new(&ctrl);
    let mut probes = Vec::new();
    for round in 1..=12u32 {
        if w.phase == Phase::ProbingSuspended {
            probes.push(round);
            w.report(&mut ctrl, Report::Found(Some(IP)));
        }
        assert_eq!(w.phase, Phase::Pausing(500));
        assert!(ctrl.suspended);
        w.report(&mut ctrl, Report::Done);
    }
    assert_eq!(probes, [4, 8, 12]);

    let mut w = Watcher { phase: Phase::Pausing(500), tick: u32::MAX };
    w.report(&mut ctrl, Report::Done);
    assert_eq!((w.phase, w.tick), (Phase::ProbingSuspended, 0));
}

#[test]
fn replugging_resumes() {
    let mut ctrl = Control::new();
    ctrl.suspended = true;
    let mut w = Watcher { phase: Phase::ProbingSuspended, tick: 4 };
    w.report(&mut ctrl, Report::Found(None));
    assert!(!ctrl.suspended);
    w.report(&mut ctrl, Report::Done);
    w.report(&mut ctrl, Report::Found(Some(IP)));
    w.report(&mut ctrl, Report::Started(Ok(())));
    assert_eq!(w.phase, Phase::Streaming(IP));
    assert!(ctrl.streaming);
}

#[test]
fn quitting_ends_the_watcher_from_everywhere() {
    let mut ctrl = Control::new();
    ctrl.quit = true;
    assert_eq!(Watcher::new(&ctrl).phase, Phase::Exited);
    for phase in [
        Phase::Pausing(1),
        Phase::ProbingSuspended,
        Phase::Probing,
        Phase::Starting(IP),
        Phase::Streaming(IP),
        Phase::Stopping(IP),
    ] {
        let mut w = Watcher { phase, tick: 0 };
        for _ in 0..4 {
            let report = match w.phase {
                Phase::Pausing(_) | Phase::Stopping(_) | Phase::Exited => Report::Done,
                Phase::ProbingSuspended | Phase::Probing => Report::Found(Some(IP)),
                Phase::Starting(_) => Report::Started(Ok(())),
                Phase::Streaming(_) => Report::Ended(SessionEnd::Quit),
            };
            w.report(&mut ctrl, report);
        }
        assert_eq!(w.phase, Phase::Exited);
    }
}

#[test]
fn reports_that_answer_nothing_change_nothing() {
    let mut ctrl = Control::new();
    let mut w = Watcher::new(&ctrl);
    w.report(&mut ctrl, Report::Done);
    w.report(&mut ctrl, Report::Ended(SessionEnd::Quit));
    assert_eq!((w.phase, w.tick), (Phase::Probing, 0));
}

#[test]
fn plugging_in_streams_and_unplugging_waits() {
    let mut ctrl = Control::new();
    let mut w = streaming(&mut ctrl);
    w.report(&mut ctrl, Report::Ended(SessionEnd::Disconnected));
    w.report(&mut ctrl, Report::Found(None));
    assert_eq!(w.phase, Phase::Pausing(2000));
    w.report(&mut ctrl, Report::Done);
    w.report(&mut ctrl, Report::Found(Some(IP)));
    assert_eq!(w.phase, Phase::Starting(IP));
}

#[test]
fn the_menu_is_obeyed_at_once() {
    let mut ctrl = Control::new();
    Entry::Suspend.choose_entry(&mut ctrl, false);
    let mut w = Watcher::new(&ctrl);
    assert_eq!(w.phase, Phase::Pausing(500));
    Entry::Resume.choose_entry(&mut ctrl, false);
    w.report(&mut ctrl, Report::Done);
    assert_eq!(w.phase, Phase::Probing);
    Entry::Quit.choose_entry(&mut ctrl, false);
    w.report(&mut ctrl, Report::Found(None));
    w.report(&mut ctrl, Report::Done);
    assert_eq!(w.phase, Phase::Exited);
}
