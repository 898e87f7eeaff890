use gopro_cam_tray::linux_setup::{autostart_disable, autostart_enable, desktop_entry};
use gopro_cam_tray::startup::{disable, enable, is_enabled, launcher, vbs_path, FileTask};
use gopro_cam_tray::tray::{
    open_preview, preview_message, tray_message, write_tip, PreviewReaction, PreviewRequest,
    TrayReaction, WM_DESTROY, WM_LBUTTONUP, WM_PAINT, WM_RBUTTONUP, WM_TIMER, WM_TRAYICON,
};

#[test]
fn clicks_show_the_menu() {
    assert_eq!(WM_TRAYICON, 0x8001);
    let click = |lparam| tray_message(WM_TRAYICON, lparam);
    assert_eq!(click(WM_RBUTTONUP as isize), TrayReaction::ShowMenu);
    assert_eq!(click(WM_LBUTTONUP as isize), TrayReaction::ShowMenu);
    // Only the low half of the parameter tells the button.
    assert_eq!(click(0x7_0000 | WM_LBUTTONUP as isize), TrayReaction::ShowMenu);
    assert_eq!(click(0x200), TrayReaction::Handled);
    assert_eq!(click(-1), TrayReaction::Handled);
    assert_eq!(tray_message(WM_DESTROY, 0), TrayReaction::PostQuit);
    assert_eq!(tray_message(WM_PAINT, WM_LBUTTONUP as isize), TrayReaction::Default);
}

#[test]
fn the_preview_repaints() {
    assert_eq!(preview_message(WM_TIMER), PreviewReaction::Invalidate);
    assert_eq!(preview_message(WM_PAINT), PreviewReaction::Paint);
    assert_eq!(preview_message(WM_DESTROY), PreviewReaction::Closed);
    assert_eq!(preview_message(WM_TRAYICON), PreviewReaction::Default);
}

#[test]
fn there_is_one_preview_window() {
    assert_eq!(open_preview(0), PreviewRequest::Create);
    assert_eq!(open_preview(42), PreviewRequest::Focus(42));
}

#[test]
fn tips_are_terminated() {
    let mut tip = [0u16; 128];
    write_tip(&mut tip, "GoPro Cam");
    let expected: Vec<u16> = "GoPro Cam".encode_utf16().collect();
    assert_eq!(tip[..9], expected[..]);
    assert!(tip[9..].iter().all(|u| *u == 0));

    let long = "x".repeat(500);
    let mut tip = [0u16; 128];
    write_tip(&mut tip, &long);
    assert!(tip[..127].iter().all(|u| *u == b'x' as u16));
    assert_eq!(tip[127], 0);

    let mut tip = [7u16; 128];
    write_tip(&mut tip, "");
    assert_eq!(tip, [7u16; 128]);
}

#[test]
fn the_launcher_quotes_the_program() {
    assert_eq!(
        launcher("C:\\a\"b.exe"),
        "' Auto-start the GoPro virtual-camera tray app, hidden, at login.\r\n\
         ' Delete this file (or use the tray menu) to disable auto-start.\r\n\
         Set sh = CreateObject(\"WScript.Shell\")\r\n\
         sh.Run \"\"\"C:\\a\"\"b.exe\"\"\", 0, False\r\n"
    );
}

#[test]
fn the_launcher_stands_in_the_startup_folder() {
    assert_eq!(
        vbs_path().join("\\"),
        "Microsoft\\Windows\\Start Menu\\Programs\\Startup\\gopro-cam-watch.vbs"
    );
}

// Carries out a task on a file that is only told.
fn carried_out(file: Option<String>, task: FileTask) -> Option<String> {
    match task {
        FileTask::Keep => file,
        FileTask::Write(text) => Some(text),
        FileTask::Remove => None,
    }
}

#[test]
fn starting_at_login_is_turned_on_and_off() {
    for before in [None, Some("stale".to_string())] {
        let on = carried_out(before.clone(), enable("C:\\g.exe"));
        assert_eq!(on, Some(launcher("C:\\g.exe")));
        assert!(is_enabled(on.is_some()));
        let off = carried_out(on.clone(), disable(on.is_some()));
        assert!(!is_enabled(off.is_some()));

        let on = carried_out(before, autostart_enable("/bin/g"));
        assert_eq!(on, Some(desktop_entry("/bin/g")));
        assert_eq!(carried_out(on, autostart_disable(true)), None);
    }
    // What is off stays off, without touching the file.
    assert!(matches!(disable(false), FileTask::Keep));
    assert!(matches!(autostart_disable(false), FileTask::Keep));
}
