//! What the program finds and leaves on the machine, said of the paths and texts
//! themselves.

use crate::linux_setup::autostart_entry;
use crate::linux_setup::autostart_file;
use crate::linux_setup::device_for;
use crate::linux_setup::is_loopback;
use crate::linux_setup::launch_for;
use crate::linux_setup::least_text;
use crate::linux_setup::lock_file;
use crate::linux_setup::loopback_device;
use crate::linux_setup::loopback_names;
use crate::linux_setup::text_before;
use crate::linux_setup::LaunchModel;
use crate::linux_setup::VideoNodeModel;
use crate::startup::launcher_text;
use crate::startup::quoted;
use crate::startup::script_path;
use crate::text::has_part;
use vstd::prelude::*;

verus! {

// ---------------------------------------------------------------------------
// Linux
// ---------------------------------------------------------------------------

/// The entry stands in `autostart` of the configuration directory: that which is set and
/// not empty, else `.config` of the home directory. A slash at the end of the directory
/// is not doubled.
pub proof fn law_where_the_entry_stands(dir: Seq<char>, home: Seq<char>, other: Option<Seq<char>>)
    requires
        dir.len() > 0,
        dir.last() != '/',
    ensures
        ({
            let rest = "autostart/gopro-cam-tray.desktop"@;
            &&& autostart_file(Some(dir), other) == dir + "/"@ + rest
            &&& autostart_file(Some(dir + "/"@), other) == dir + "/"@ + rest
            &&& autostart_file(None, Some(home)) == home + "/.config/"@ + rest
            &&& autostart_file(Some(Seq::empty()), Some(home)) == home + "/.config/"@ + rest
            &&& autostart_file(None, None) == "/.config/"@ + rest
        }),
{
    reveal_strlit("autostart/gopro-cam-tray.desktop");
    reveal_strlit("autostart");
    reveal_strlit("gopro-cam-tray.desktop");
    reveal_strlit("/");
    reveal_strlit("/.config");
    reveal_strlit("/.config/");
    let rest = "autostart/gopro-cam-tray.desktop"@;
    assert("autostart"@ + "/"@ + "gopro-cam-tray.desktop"@ =~= rest);
    assert("/.config"@ + "/"@ =~= "/.config/"@);
    let slashed = dir + "/"@;
    assert(slashed.last() == '/');
    assert((dir + "/"@ + "autostart"@).last() == 't');
    assert(autostart_file(Some(dir), other) =~= dir + "/"@ + rest);
    assert(autostart_file(Some(slashed), other) =~= dir + "/"@ + rest);
    lemma_home(home);
    lemma_home(Seq::empty());
    assert(autostart_file(None, None) =~= Seq::<char>::empty() + "/.config/"@ + rest);
    assert(Seq::<char>::empty() + "/.config/"@ + rest =~= "/.config/"@ + rest);
}

proof fn lemma_home(home: Seq<char>)
    ensures
        autostart_file(None, Some(home)) == home + "/.config/"@
            + "autostart/gopro-cam-tray.desktop"@,
{
    reveal_strlit("autostart/gopro-cam-tray.desktop");
    reveal_strlit("autostart");
    reveal_strlit("gopro-cam-tray.desktop");
    reveal_strlit("/");
    reveal_strlit("/.config");
    reveal_strlit("/.config/");
    let base = home + "/.config"@;
    assert(base.last() == 'g');
    assert((base + "/"@ + "autostart"@).last() == 't');
    assert(autostart_file(None, Some(home)) =~= home + "/.config/"@
        + "autostart/gopro-cam-tray.desktop"@);
}

/// The entry launches the program, and no other, without a terminal.
pub proof fn law_the_entry_launches_the_program(exe: Seq<char>)
    ensures
        autostart_entry(exe) == "[Desktop Entry]\nType=Application\nName=GoPro Cam\nExec="@ + exe
            + "\nTerminal=false\nX-GNOME-Autostart-enabled=true\n"@,
        has_part(autostart_entry(exe), "Exec="@ + exe + "\n"@),
{
    reveal_strlit("[Desktop Entry]\nType=Application\nName=GoPro Cam\nExec=");
    reveal_strlit("[Desktop Entry]\nType=Application\nName=GoPro Cam\n");
    reveal_strlit("Exec=");
    reveal_strlit("\n");
    reveal_strlit("\nTerminal=false\nX-GNOME-Autostart-enabled=true\n");
    reveal_strlit("Terminal=false\nX-GNOME-Autostart-enabled=true\n");
    let before = "[Desktop Entry]\nType=Application\nName=GoPro Cam\n"@;
    let behind = "Terminal=false\nX-GNOME-Autostart-enabled=true\n"@;
    assert(before + "Exec="@ =~= "[Desktop Entry]\nType=Application\nName=GoPro Cam\nExec="@);
    assert("\n"@ + behind =~= "\nTerminal=false\nX-GNOME-Autostart-enabled=true\n"@);
    assert(autostart_entry(exe) =~= before + ("Exec="@ + exe + "\n"@) + behind);
    crate::text_laws::law_parts_are_found(before, "Exec="@ + exe + "\n"@, behind);
}

/// The lock stands in the runtime directory, or in `/tmp`.
pub proof fn law_where_the_lock_stands(dir: Seq<char>)
    ensures
        lock_file(Some(dir)) == dir + "/gopro-cam-tray.lock"@,
        lock_file(None) == "/tmp"@ + "/gopro-cam-tray.lock"@,
{
}

/// The device is the argument if that names a device, else what the variable says, and
/// else what the machine has.
pub proof fn law_which_device_is_taken(
    name: Seq<char>,
    other: Seq<char>,
    variable: Option<Seq<char>>,
    nodes: Seq<VideoNodeModel>,
)
    requires
        !"/dev/"@.is_prefix_of(other),
    ensures
        device_for(Some("/dev/"@ + name), variable, nodes) == Some("/dev/"@ + name),
        variable is Some ==> device_for(None, variable, nodes) == variable && device_for(
            Some(other),
            variable,
            nodes,
        ) == variable,
        device_for(None, None, nodes) == loopback_device(nodes),
        device_for(Some(other), None, nodes) == loopback_device(nodes),
{
    let dev = "/dev/"@ + name;
    assert(dev.subrange(0, "/dev/"@.len() as int) =~= "/dev/"@);
}

/// A device counts as a loopback exactly if `devices/virtual` stands in what backs it.
pub proof fn law_what_a_loopback_is(node: VideoNodeModel)
    ensures
        is_loopback(node) <==> has_part(node.target, "devices/virtual"@),
{
}

/// A single loopback device is found under `/dev/`.
pub proof fn law_a_loopback_is_found(node: VideoNodeModel)
    requires
        has_part(node.target, "devices/virtual"@),
        node.name is Some,
    ensures
        loopback_device(seq![node]) == Some("/dev/"@ + node.name->0),
{
    assert(seq![node].drop_last() =~= Seq::empty());
    assert(loopback_names(Seq::empty()) =~= Seq::empty());
    let names = loopback_names(seq![node]);
    assert(names =~= seq![node.name->0]);
    assert(names.drop_last() =~= Seq::empty());
    assert(least_text(Seq::empty()) is None);
}

/// Texts are in the order of their first characters that differ, and what begins another
/// text comes before it.
pub proof fn law_texts_are_in_order(common: Seq<char>, a: Seq<char>, b: Seq<char>)
    ensures
        a.len() > 0 && b.len() > 0 && a[0] != b[0] ==> (text_before(common + a, common + b)
            <==> (a[0] as int) < b[0] as int),
        b.len() > 0 ==> text_before(common, common + b),
        !text_before(common + b, common),
    decreases common.len(),
{
    if common.len() == 0 {
        assert(common + a =~= a);
        assert(common + b =~= b);
        assert(common =~= Seq::empty());
    } else {
        let rest = common.skip(1);
        law_texts_are_in_order(rest, a, b);
        assert((common + a).skip(1) =~= rest + a);
        assert((common + b).skip(1) =~= rest + b);
        assert((common + a)[0] == common[0]);
        assert((common + b)[0] == common[0]);
    }
}

/// The program runs only once, with ffmpeg, and with a device; else it says what is
/// missing, the lock before ffmpeg and ffmpeg before the device, and only a second start
/// is no failure.
pub proof fn law_what_the_program_needs(ffmpeg: bool, device: Option<Seq<char>>, d: Seq<char>)
    ensures
        launch_for(true, true, Some(d)) == (LaunchModel::Run { device: d }),
        launch_for(false, ffmpeg, device) == (LaunchModel::Refuse {
            message: "gopro-cam-tray is already running."@,
            status: 0,
        }),
        launch_for(true, false, device) == (LaunchModel::Refuse {
            message: "ffmpeg not found in PATH. Install it (e.g. sudo apt install ffmpeg)."@,
            status: 1,
        }),
        launch_for(true, true, None) == (LaunchModel::Refuse {
            message:
                "No v4l2loopback device found.\nLoad it first, e.g.:\n  sudo modprobe v4l2loopback exclusive_caps=1 card_label=\"GoPro\"\nor pass the device explicitly:  gopro-cam-tray /dev/videoN"@,
            status: 1,
        }),
{
}

// ---------------------------------------------------------------------------
// Windows
// ---------------------------------------------------------------------------

/// Quotation marks are doubled, and nothing else changes; texts are quoted piece by piece.
pub proof fn law_quoting_doubles_marks(a: Seq<char>, b: Seq<char>, c: char)
    ensures
        quoted(a + b) == quoted(a) + quoted(b),
        quoted(seq![c]) == if c == '"' {
            seq!['"', '"']
        } else {
            seq![c]
        },
        quoted(Seq::empty()).len() == 0,
    decreases b.len(),
{
    assert(seq![c].drop_last() =~= Seq::empty());
    assert(quoted(Seq::empty()) =~= Seq::empty());
    assert(quoted(seq![c]) =~= if c == '"' {
        seq!['"', '"']
    } else {
        seq![c]
    });
    if b.len() == 0 {
        assert(a + b =~= a);
        assert(quoted(a) + quoted(b) =~= quoted(a));
    } else {
        law_quoting_doubles_marks(a, b.drop_last(), c);
        assert((a + b).drop_last() =~= a + b.drop_last());
        assert((a + b).last() == b.last());
        assert(quoted(a + b) =~= quoted(a) + quoted(b));
    }
}

/// The script launches the program, hidden, by its quoted path.
pub proof fn law_the_script_launches_the_program(exe: Seq<char>)
    ensures
        has_part(launcher_text(exe), "sh.Run \"\"\""@ + quoted(exe) + "\"\"\", 0, False\r\n"@),
        script_path().len() == 6,
        script_path()[0] == "Microsoft"@,
        script_path()[1] == "Windows"@,
        script_path()[2] == "Start Menu"@,
        script_path()[3] == "Programs"@,
        script_path()[4] == "Startup"@,
        script_path()[5] == "gopro-cam-watch.vbs"@,
{
    reveal_strlit(
        "' Auto-start the GoPro virtual-camera tray app, hidden, at login.\r\n' Delete this file (or use the tray menu) to disable auto-start.\r\nSet sh = CreateObject(\"WScript.Shell\")\r\nsh.Run \"\"\"",
    );
    reveal_strlit(
        "' Auto-start the GoPro virtual-camera tray app, hidden, at login.\r\n' Delete this file (or use the tray menu) to disable auto-start.\r\nSet sh = CreateObject(\"WScript.Shell\")\r\n",
    );
    reveal_strlit("sh.Run \"\"\"");
    let before =
        "' Auto-start the GoPro virtual-camera tray app, hidden, at login.\r\n' Delete this file (or use the tray menu) to disable auto-start.\r\nSet sh = CreateObject(\"WScript.Shell\")\r\n"@;
    let whole =
        "' Auto-start the GoPro virtual-camera tray app, hidden, at login.\r\n' Delete this file (or use the tray menu) to disable auto-start.\r\nSet sh = CreateObject(\"WScript.Shell\")\r\nsh.Run \"\"\""@;
    assert(before + "sh.Run \"\"\""@ =~= whole);
    let part = "sh.Run \"\"\""@ + quoted(exe) + "\"\"\", 0, False\r\n"@;
    assert(launcher_text(exe) =~= before + part + Seq::empty());
    crate::text_laws::law_parts_are_found(before, part, Seq::empty());
}

} // verus!
