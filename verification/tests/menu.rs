use gopro_cam_tray::control::Control;
use gopro_cam_tray::menu::{command, menu, Effect, Entry, Status};

fn labels(ctrl: &Control) -> Vec<String> {
    menu(ctrl, false).iter().map(|e| e.label()).collect()
}

#[test]
fn the_menu_shows_what_the_camera_does() {
    let mut ctrl = Control::new();
    assert_eq!(
        labels(&ctrl),
        [
            "GoPro : en attente",
            "",
            "Aper\u{E7}u",
            "Suspendre (reprend au rebranchement)",
            "Lancer au d\u{E9}marrage",
            "",
            "Quitter"
        ]
    );
    ctrl.suspended = true;
    assert_eq!(labels(&ctrl)[0], "GoPro : suspendu");
    assert_eq!(labels(&ctrl)[3], "Reprendre");
    ctrl.streaming = true;
    assert_eq!(labels(&ctrl)[0], "GoPro : diffusion en cours");
    assert_eq!(menu(&ctrl, true)[0], Entry::Status(Status::Streaming));
    assert_eq!(menu(&ctrl, true)[4], Entry::Startup { checked: true });
}

#[test]
fn entries_have_their_numbers() {
    let ids: Vec<usize> = menu(&Control::new(), false).iter().map(|e| e.id()).collect();
    assert_eq!(ids, [1, 0, 5, 2, 3, 0, 4]);
    assert_eq!(Entry::Resume.id(), 6);
}

#[test]
fn numbers_do_what_entries_say() {
    let state = |suspended| {
        let mut c = Control::new();
        c.suspended = suspended;
        c
    };
    // The state may have changed since the menu was shown.
    for shown in [false, true] {
        for now in [false, true] {
            for autostart in [false, true] {
                for entry in menu(&state(shown), autostart) {
                    let (mut a, mut b) = (state(now), state(now));
                    let x = entry.choose_entry(&mut a, autostart);
                    let y = command(entry.id(), &mut b, autostart);
                    assert_eq!(x, y);
                    assert_eq!((a.quit, a.suspended), (b.quit, b.suspended));
                }
            }
        }
    }
}

#[test]
fn a_choice_holds_whatever_happened_while_the_menu_was_open() {
    // Suspended when the menu is shown; the camera is unplugged before the choice.
    let mut ctrl = Control::new();
    ctrl.suspended = true;
    let resume = menu(&ctrl, false)[3];
    assert_eq!(resume, Entry::Resume);
    ctrl.suspended = false;
    assert_eq!(command(resume.id(), &mut ctrl, false), Effect::Nothing);
    assert!(!ctrl.suspended);

    // The other way round.
    let suspend = menu(&ctrl, false)[3];
    assert_eq!(suspend, Entry::Suspend);
    ctrl.suspended = true;
    assert_eq!(command(suspend.id(), &mut ctrl, false), Effect::Nothing);
    assert!(ctrl.suspended);
}

#[test]
fn a_dismissed_menu_changes_nothing() {
    let mut ctrl = Control::new();
    ctrl.suspended = true;
    ctrl.streaming = true;
    assert_eq!(command(0, &mut ctrl, true), Effect::Nothing);
    assert!(!ctrl.quit && ctrl.suspended && ctrl.streaming);
}

#[test]
fn choosing_has_its_effects() {
    let mut ctrl = Control::new();
    assert_eq!(Entry::Preview.choose_entry(&mut ctrl, false), Effect::OpenPreview);
    assert_eq!(Entry::Suspend.choose_entry(&mut ctrl, false), Effect::Nothing);
    assert!(ctrl.suspended);
    assert_eq!(Entry::Resume.choose_entry(&mut ctrl, false), Effect::Nothing);
    assert!(!ctrl.suspended);
    let startup = Entry::Startup { checked: false };
    assert_eq!(startup.choose_entry(&mut ctrl, false), Effect::EnableStartup);
    assert_eq!(startup.choose_entry(&mut ctrl, true), Effect::DisableStartup);
    assert_eq!(Entry::Separator.choose_entry(&mut ctrl, true), Effect::Nothing);
    assert!(!ctrl.quit);
    assert_eq!(Entry::Quit.choose_entry(&mut ctrl, true), Effect::Close);
    assert!(ctrl.quit);
}

#[test]
fn commands_have_their_effects() {
    let mut ctrl = Control::new();
    assert_eq!(command(2, &mut ctrl, false), Effect::Nothing);
    assert!(ctrl.suspended);
    assert_eq!(command(2, &mut ctrl, false), Effect::Nothing);
    assert!(ctrl.suspended);
    assert_eq!(command(6, &mut ctrl, false), Effect::Nothing);
    assert!(!ctrl.suspended);
    assert_eq!(command(6, &mut ctrl, false), Effect::Nothing);
    assert!(!ctrl.suspended);
    assert_eq!(command(3, &mut ctrl, false), Effect::EnableStartup);
    assert_eq!(command(3, &mut ctrl, true), Effect::DisableStartup);
    assert_eq!(command(5, &mut ctrl, true), Effect::OpenPreview);
    for id in [0, 1, 7, usize::MAX] {
        assert_eq!(command(id, &mut ctrl, true), Effect::Nothing);
    }
    assert!(!ctrl.quit && !ctrl.suspended);
    assert_eq!(command(4, &mut ctrl, true), Effect::Close);
    assert!(ctrl.quit);
}
