use gopro_cam_tray::control::Control;
use gopro_cam_tray::http::Address;
use gopro_cam_tray::linux::{ffmpeg_args, ffplay_args, LoopPhase, LoopReport, StreamLoop};
use gopro_cam_tray::linux_setup::{
    autostart_path, desktop_entry, find_loopback, lock_path, resolve_device, run, Launch, VideoNode,
};

const IP: Address = Address { a: 172, b: 24, c: 106, d: 51 };

fn watching(ctrl: &mut Control) -> StreamLoop {
    let mut l = StreamLoop::new(ctrl);
    assert_eq!(l.phase, LoopPhase::Probing);
    l.report(ctrl, LoopReport::Found(Some(IP)));
    assert_eq!(l.phase, LoopPhase::Starting(IP));
    l.report(ctrl, LoopReport::Started(Ok(())));
    assert_eq!(l.phase, LoopPhase::Spawning(IP));
    assert!(ctrl.streaming);
    l.report(ctrl, LoopReport::Spawned(true));
    assert_eq!(l.phase, LoopPhase::Checking(IP));
    l
}

#[test]
fn a_session_is_watched_until_ffmpeg_exits() {
    let mut ctrl = Control::new();
    let mut l = watching(&mut ctrl);
    for _ in 0..3 {
        l.report(&mut ctrl, LoopReport::Runs(true));
        assert_eq!(l.phase, LoopPhase::Letting(IP));
        l.report(&mut ctrl, LoopReport::Done);
        assert_eq!(l.phase, LoopPhase::Checking(IP));
    }
    l.report(&mut ctrl, LoopReport::Runs(false));
    assert_eq!(l.phase, LoopPhase::Killing(IP));
    assert!(ctrl.streaming);
    l.report(&mut ctrl, LoopReport::Done);
    assert_eq!(l.phase, LoopPhase::Stopping(IP));
    assert!(!ctrl.streaming);
    l.report(&mut ctrl, LoopReport::Done);
    assert_eq!(l.phase, LoopPhase::Pausing(500));
    l.report(&mut ctrl, LoopReport::Done);
    assert_eq!(l.phase, LoopPhase::Probing);
}

#[test]
fn suspending_kills_ffmpeg_and_stops_the_camera() {
    let mut ctrl = Control::new();
    let mut l = watching(&mut ctrl);
    l.report(&mut ctrl, LoopReport::Runs(true));
    ctrl.suspended = true;
    l.report(&mut ctrl, LoopReport::Done);
    assert_eq!(l.phase, LoopPhase::Killing(IP));
    l.report(&mut ctrl, LoopReport::Done);
    l.report(&mut ctrl, LoopReport::Done);
    assert_eq!(l.phase, LoopPhase::Pausing(500));
    l.report(&mut ctrl, LoopReport::Done);
    assert_eq!(l.phase, LoopPhase::ProbingSuspended);
    l.report(&mut ctrl, LoopReport::Found(Some(IP)));
    assert!(ctrl.suspended);
    assert_eq!(l.phase, LoopPhase::Pausing(500));
}

#[test]
fn replugging_resumes_the_loop() {
    let mut ctrl = Control::new();
    ctrl.suspended = true;
    let mut l = StreamLoop::new(&ctrl);
    assert_eq!(l.phase, LoopPhase::ProbingSuspended);
    l.report(&mut ctrl, LoopReport::Found(None));
    assert!(!ctrl.suspended);
    l.report(&mut ctrl, LoopReport::Done);
    l.report(&mut ctrl, LoopReport::Found(Some(IP)));
    l.report(&mut ctrl, LoopReport::Started(Ok(())));
    l.report(&mut ctrl, LoopReport::Spawned(true));
    assert_eq!(l.phase, LoopPhase::Checking(IP));
    assert!(ctrl.streaming);
}

#[test]
fn without_ffmpeg_the_camera_is_stopped() {
    let mut ctrl = Control::new();
    let mut l = StreamLoop { phase: LoopPhase::Spawning(IP) };
    ctrl.streaming = true;
    l.report(&mut ctrl, LoopReport::Spawned(false));
    assert_eq!(l.phase, LoopPhase::Stopping(IP));
    assert!(!ctrl.streaming);
}

#[test]
fn absent_and_failing_cameras_are_waited_for() {
    let mut ctrl = Control::new();
    let mut l = StreamLoop::new(&ctrl);
    l.report(&mut ctrl, LoopReport::Found(None));
    assert_eq!(l.phase, LoopPhase::Pausing(2000));
    let mut l = StreamLoop { phase: LoopPhase::Starting(IP) };
    l.report(&mut ctrl, LoopReport::Started(Err("x".to_string())));
    assert_eq!(l.phase, LoopPhase::Pausing(2000));
    assert!(!ctrl.streaming);
}

#[test]
fn quitting_ends_the_loop_from_everywhere() {
    let mut ctrl = Control::new();
    ctrl.quit = true;
    for phase in [
        LoopPhase::Pausing(1),
        LoopPhase::ProbingSuspended,
        LoopPhase::Probing,
        LoopPhase::Starting(IP),
        LoopPhase::Spawning(IP),
        LoopPhase::Checking(IP),
        LoopPhase::Letting(IP),
        LoopPhase::Killing(IP),
        LoopPhase::Stopping(IP),
    ] {
        let mut l = StreamLoop { phase };
        let mut stopped = false;
        for _ in 0..7 {
            stopped |= l.phase == LoopPhase::Stopping(IP);
            let report = match l.phase {
                LoopPhase::ProbingSuspended | LoopPhase::Probing => LoopReport::Found(Some(IP)),
                LoopPhase::Starting(_) => LoopReport::Started(Ok(())),
                LoopPhase::Spawning(_) => LoopReport::Spawned(true),
                LoopPhase::Checking(_) => LoopReport::Runs(true),
                _ => LoopReport::Done,
            };
            l.report(&mut ctrl, report);
        }
        assert_eq!(l.phase, LoopPhase::Exited);
        let started = !matches!(phase, LoopPhase::Pausing(_) | LoopPhase::ProbingSuspended);
        assert_eq!(stopped, started);
    }
}

#[test]
fn ffmpeg_writes_the_stream_to_the_device() {
    assert_eq!(
        ffmpeg_args("/dev/video4").join(" "),
        "-hide_banner -loglevel error -fflags nobuffer -flags low_delay -i \
         udp://0.0.0.0:8554?overrun_nonfatal=1&fifo_size=5000000 -pix_fmt yuv420p -f v4l2 /dev/video4"
    );
    assert_eq!(
        ffplay_args("/dev/video4"),
        ["-hide_banner", "-loglevel", "error", "-window_title", "GoPro \u{2014} Aper\u{E7}u", "/dev/video4"]
    );
}

fn text(s: &str) -> Option<String> {
    Some(s.to_string())
}

#[test]
fn the_entry_stands_in_the_configuration() {
    assert_eq!(autostart_path(text("/c"), text("/h")), "/c/autostart/gopro-cam-tray.desktop");
    assert_eq!(autostart_path(text("/c/"), None), "/c/autostart/gopro-cam-tray.desktop");
    assert_eq!(autostart_path(text(""), text("/h")), "/h/.config/autostart/gopro-cam-tray.desktop");
    assert_eq!(autostart_path(None, text("/h/")), "/h//.config/autostart/gopro-cam-tray.desktop");
    assert_eq!(autostart_path(None, None), "/.config/autostart/gopro-cam-tray.desktop");
    // As of std.
    for base in ["/c", "/c/", "c", "/", "/c//"] {
        let expected = std::path::PathBuf::from(base).join("autostart").join("gopro-cam-tray.desktop");
        assert_eq!(autostart_path(text(base), None), expected.to_str().unwrap());
    }
}

#[test]
fn the_entry_launches_the_program() {
    assert_eq!(
        desktop_entry("/usr/bin/gopro-cam-tray"),
        "[Desktop Entry]\nType=Application\nName=GoPro Cam\nExec=/usr/bin/gopro-cam-tray\n\
         Terminal=false\nX-GNOME-Autostart-enabled=true\n"
    );
}

#[test]
fn the_lock_stands_in_the_runtime_directory() {
    assert_eq!(lock_path(text("/run/user/1000")), "/run/user/1000/gopro-cam-tray.lock");
    assert_eq!(lock_path(None), "/tmp/gopro-cam-tray.lock");
}

fn node(name: &str, target: &str) -> VideoNode {
    VideoNode { name: text(name), target: target.to_string() }
}

#[test]
fn the_first_loopback_device_is_found() {
    let nodes = vec![
        node("video0", "../../devices/pci0000:00/usb1/video4linux/video0"),
        node("video9", "../../devices/virtual/video4linux/video9"),
        node("video10", "../../devices/virtual/video4linux/video10"),
        VideoNode { name: None, target: "../../devices/virtual/video4linux/a".to_string() },
        node("video4", "../../devices/virtual/video4linux/video4"),
    ];
    // Texts, not numbers, are in order.
    assert_eq!(find_loopback(&nodes), text("/dev/video10"));
    assert_eq!(find_loopback(&nodes[..1].iter().map(|n| node(n.name.as_ref().unwrap(), &n.target)).collect()), None);
    assert_eq!(find_loopback(&vec![]), None);
    let prefixed = vec![node("video12", "devices/virtual"), node("video1", "devices/virtual")];
    assert_eq!(find_loopback(&prefixed), text("/dev/video1"));
}

#[test]
fn the_argument_comes_before_the_environment_and_the_machine() {
    let nodes = vec![node("video9", "../../devices/virtual/video4linux/video9")];
    assert_eq!(resolve_device(text("/dev/video1"), text("/dev/video2"), &nodes), text("/dev/video1"));
    assert_eq!(resolve_device(text("--help"), text("/dev/video2"), &nodes), text("/dev/video2"));
    assert_eq!(resolve_device(None, text(""), &nodes), text(""));
    assert_eq!(resolve_device(text("video1"), None, &nodes), text("/dev/video9"));
    assert_eq!(resolve_device(None, None, &vec![]), None);
}

#[test]
fn the_program_says_why_it_does_not_run() {
    let refused = |l: Launch| match l {
        Launch::Refuse { message, status } => (message, status),
        Launch::Run { device } => panic!("runs on {device}"),
    };
    assert_eq!(
        refused(run(false, false, None)),
        ("gopro-cam-tray is already running.".to_string(), 0)
    );
    assert_eq!(
        refused(run(true, false, text("/dev/video0"))),
        ("ffmpeg not found in PATH. Install it (e.g. sudo apt install ffmpeg).".to_string(), 1)
    );
    let (message, status) = refused(run(true, true, None));
    assert_eq!(
        message,
        "No v4l2loopback device found.\n\
         Load it first, e.g.:\n\
         \x20 sudo modprobe v4l2loopback exclusive_caps=1 card_label=\"GoPro\"\n\
         or pass the device explicitly:  gopro-cam-tray /dev/videoN"
    );
    assert_eq!(status, 1);
    assert!(matches!(run(true, true, text("/dev/video0")), Launch::Run { device } if device == "/dev/video0"));
}
