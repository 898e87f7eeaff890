//! What the Linux program needs before it streams: the device to write to, the files
//! that it keeps, and whether it can run at all.

use crate::startup::FileTask;
use crate::text::begins_with;
use crate::text::chars_of;
use crate::text::contains_part;
use crate::text::joined;
use vstd::prelude::*;
use vstd::string::StringExecFns;

verus! {

/// What an optional text holds.
pub open spec fn text_model(s: Option<String>) -> Option<Seq<char>> {
    match s {
        Some(s) => Some(s@),
        None => None,
    }
}

// ---------------------------------------------------------------------------
// Files
// ---------------------------------------------------------------------------

/// A relative path below a directory.
pub open spec fn below(dir: Seq<char>, name: Seq<char>) -> Seq<char> {
    if dir.len() == 0 || dir.last() == '/' {
        dir + name
    } else {
        dir + "/"@ + name
    }
}

/// Appends a relative path to a directory.
fn path_below(dir: String, name: &str) -> (path: String)
    ensures
        path@ == below(dir@, name@),
{
    let chars = chars_of(dir.as_str());
    let mut path = dir;
    if chars.len() > 0 && chars[chars.len() - 1] != '/' {
        path.append("/");
    }
    path.append(name);
    assert(path@ =~= below(chars@, name@));
    path
}

/// The directory of the user's configuration: what `XDG_CONFIG_HOME` says unless it is
/// empty or not set, else `.config` in what `HOME` says.
pub open spec fn config_dir(xdg: Option<Seq<char>>, home: Option<Seq<char>>) -> Seq<char> {
    match xdg {
        Some(dir) if dir.len() > 0 => dir,
        _ => (match home {
            Some(h) => h,
            None => Seq::empty(),
        }) + "/.config"@,
    }
}

/// Where the entry stands that starts the program at login.
pub open spec fn autostart_file(xdg: Option<Seq<char>>, home: Option<Seq<char>>) -> Seq<char> {
    below(below(config_dir(xdg, home), "autostart"@), "gopro-cam-tray.desktop"@)
}

/// Where the entry stands that starts the program at login, given the values of
/// `XDG_CONFIG_HOME` and `HOME`.
pub fn autostart_path(xdg: Option<String>, home: Option<String>) -> (path: String)
    ensures
        path@ == autostart_file(text_model(xdg), text_model(home)),
{
    let base = match xdg {
        Some(dir) if !dir.as_str().is_empty() => dir,
        _ => {
            let home_dir = match home {
                Some(h) => h,
                None => String::new(),
            };
            joined(home_dir.as_str(), "/.config")
        },
    };
    path_below(path_below(base, "autostart"), "gopro-cam-tray.desktop")
}

/// The entry that starts the program at login.
pub open spec fn autostart_entry(exe: Seq<char>) -> Seq<char> {
    "[Desktop Entry]\nType=Application\nName=GoPro Cam\nExec="@ + exe
        + "\nTerminal=false\nX-GNOME-Autostart-enabled=true\n"@
}

/// The entry that starts the program at login.
pub fn desktop_entry(exe: &str) -> (s: String)
    ensures
        s@ == autostart_entry(exe@),
{
    let mut s = "[Desktop Entry]\nType=Application\nName=GoPro Cam\nExec=".to_string();
    s.append(exe);
    s.append("\nTerminal=false\nX-GNOME-Autostart-enabled=true\n");
    assert(s@ =~= autostart_entry(exe@));
    s
}

/// Lets the program start at login: writes its entry, which launches `exe`.
pub fn autostart_enable(exe: &str) -> (task: FileTask)
    ensures
        task@ == crate::startup::FileTaskModel::Write(autostart_entry(exe@)),
{
    FileTask::Write(desktop_entry(exe))
}

/// Lets the program no longer start at login, given whether its entry exists.
pub fn autostart_disable(exists: bool) -> (task: FileTask)
    ensures
        task@ == crate::startup::removal(exists),
{
    if exists {
        FileTask::Remove
    } else {
        FileTask::Keep
    }
}

/// The file whose lock the running program holds.
pub open spec fn lock_file(runtime_dir: Option<Seq<char>>) -> Seq<char> {
    (match runtime_dir {
        Some(dir) => dir,
        None => "/tmp"@,
    }) + "/gopro-cam-tray.lock"@
}

/// The file whose lock the running program holds, given the value of
/// `XDG_RUNTIME_DIR`.
pub fn lock_path(runtime_dir: Option<String>) -> (path: String)
    ensures
        path@ == lock_file(text_model(runtime_dir)),
{
    match runtime_dir {
        Some(dir) => joined(dir.as_str(), "/gopro-cam-tray.lock"),
        None => joined("/tmp", "/gopro-cam-tray.lock"),
    }
}

// ---------------------------------------------------------------------------
// The device
// ---------------------------------------------------------------------------

/// A video device of the machine.
pub struct VideoNode {
    /// Its name, if that is a text.
    pub name: Option<String>,
    /// What it is backed by: the target of its link.
    pub target: String,
}

/// What a `VideoNode` holds.
pub struct VideoNodeModel {
    pub name: Option<Seq<char>>,
    pub target: Seq<char>,
}

impl View for VideoNode {
    type V = VideoNodeModel;

    open spec fn view(&self) -> VideoNodeModel {
        VideoNodeModel { name: text_model(self.name), target: self.target@ }
    }
}

/// What a list of devices holds.
pub open spec fn nodes_model(nodes: Seq<VideoNode>) -> Seq<VideoNodeModel> {
    nodes.map_values(|n: VideoNode| n@)
}

/// A device that no hardware backs.
pub open spec fn is_loopback(node: VideoNodeModel) -> bool {
    crate::text::has_part(node.target, "devices/virtual"@)
}

/// The names of the devices that no hardware backs.
pub open spec fn loopback_names(nodes: Seq<VideoNodeModel>) -> Seq<Seq<char>>
    decreases nodes.len(),
{
    if nodes.len() == 0 {
        Seq::empty()
    } else {
        let front = loopback_names(nodes.drop_last());
        if is_loopback(nodes.last()) && nodes.last().name is Some {
            front.push(nodes.last().name->0)
        } else {
            front
        }
    }
}

/// The order of texts: as the first characters that differ are, and a text before
/// those that it begins.
pub open spec fn text_before(a: Seq<char>, b: Seq<char>) -> bool
    decreases a.len(),
{
    if b.len() == 0 {
        false
    } else if a.len() == 0 {
        true
    } else if a[0] == b[0] {
        text_before(a.skip(1), b.skip(1))
    } else {
        (a[0] as int) < b[0] as int
    }
}

/// The first of some texts, in their order.
pub open spec fn least_text(list: Seq<Seq<char>>) -> Option<Seq<char>>
    decreases list.len(),
{
    if list.len() == 0 {
        None
    } else {
        match least_text(list.drop_last()) {
            Some(least) => if text_before(list.last(), least) {
                Some(list.last())
            } else {
                Some(least)
            },
            None => Some(list.last()),
        }
    }
}

/// The device that the program writes to unless it is told another: of those that no
/// hardware backs, the one whose name comes first.
pub open spec fn loopback_device(nodes: Seq<VideoNodeModel>) -> Option<Seq<char>> {
    match least_text(loopback_names(nodes)) {
        Some(name) => Some("/dev/"@ + name),
        None => None,
    }
}

/// The device that the program writes to: its first argument if that is a device, then
/// what the environment says, then what the machine has.
pub open spec fn device_for(
    arg: Option<Seq<char>>,
    variable: Option<Seq<char>>,
    nodes: Seq<VideoNodeModel>,
) -> Option<Seq<char>> {
    if arg is Some && "/dev/"@.is_prefix_of(arg->0) {
        arg
    } else if variable is Some {
        variable
    } else {
        loopback_device(nodes)
    }
}

/// Compares two texts.
fn stands_before(a: &[char], b: &[char]) -> (r: bool)
    ensures
        r == text_before(a@, b@),
{
    let n: usize = a.len();
    let m: usize = b.len();
    let mut i: usize = 0;
    assert(a@.skip(0) =~= a@);
    assert(b@.skip(0) =~= b@);
    while i < n && i < m && a[i] == b[i]
        invariant
            i <= n,
            i <= m,
            n == a@.len(),
            m == b@.len(),
            text_before(a@, b@) == text_before(a@.skip(i as int), b@.skip(i as int)),
        decreases n - i,
    {
        proof {
            assert(a@.skip(i as int).skip(1) =~= a@.skip(i + 1));
            assert(b@.skip(i as int).skip(1) =~= b@.skip(i + 1));
            assert(a@.skip(i as int)[0] == a@[i as int]);
            assert(b@.skip(i as int)[0] == b@[i as int]);
        }
        i += 1;
    }
    if i >= m {
        return false;
    }
    if i >= n {
        return true;
    }
    assert(a@.skip(i as int)[0] == a@[i as int]);
    assert(b@.skip(i as int)[0] == b@[i as int]);
    let c: u32 = a[i] as u32;
    let d: u32 = b[i] as u32;
    proof {
        vstd::utf8::char_u32_cast(a@[i as int], c);
        vstd::utf8::char_u32_cast(b@[i as int], d);
    }
    c < d
}

/// Finds a v4l2loopback device: a video device that no hardware backs.
pub fn find_loopback(nodes: &Vec<VideoNode>) -> (device: Option<String>)
    ensures
        text_model(device) == loopback_device(nodes_model(nodes@)),
{
    let ghost all = nodes_model(nodes@);
    let mut least: Option<Vec<char>> = None;
    let mut i: usize = 0;
    assert(all.take(0) =~= Seq::empty());
    while i < nodes.len()
        invariant
            i <= nodes@.len(),
            all == nodes_model(nodes@),
            least is Some == least_text(loopback_names(all.take(i as int))) is Some,
            least matches Some(l) ==> least_text(loopback_names(all.take(i as int))) == Some(l@),
        decreases nodes@.len() - i,
    {
        let node = &nodes[i];
        let ghost front = loopback_names(all.take(i as int));
        proof {
            assert(all.take(i + 1).drop_last() =~= all.take(i as int));
            assert(all.take(i + 1).last() == node@);
        }
        if contains_part(node.target.as_str(), "devices/virtual") {
            if let Some(name) = &node.name {
                let chars = chars_of(name.as_str());
                assert(front.push(chars@).drop_last() =~= front);
                let first = match &least {
                    Some(l) => stands_before(chars.as_slice(), l.as_slice()),
                    None => true,
                };
                if first {
                    least = Some(chars);
                }
            }
        }
        i += 1;
    }
    assert(all.take(i as int) =~= all);
    match least {
        Some(chars) => {
            let mut device = "/dev/".to_string();
            crate::text::append_chars(&mut device, chars.as_slice());
            Some(device)
        },
        None => None,
    }
}

/// Resolves the device that the program writes to, given its first argument, the value
/// of `GOPRO_CAM_DEVICE`, and the machine's video devices.
pub fn resolve_device(
    arg: Option<String>,
    variable: Option<String>,
    nodes: &Vec<VideoNode>,
) -> (device: Option<String>)
    ensures
        text_model(device) == device_for(
            text_model(arg),
            text_model(variable),
            nodes_model(nodes@),
        ),
{
    if let Some(a) = arg {
        let chars = chars_of(a.as_str());
        if begins_with(chars.as_slice(), "/dev/") {
            return Some(a);
        }
    }
    match variable {
        Some(v) => Some(v),
        None => find_loopback(nodes),
    }
}

// ---------------------------------------------------------------------------
// Starting up
// ---------------------------------------------------------------------------

/// How the program starts.
pub enum Launch {
    /// It does not: this message says why, and this is its exit status.
    Refuse { message: String, status: i32 },
    /// It streams to this device.
    Run { device: String },
}

/// What a `Launch` holds.
pub enum LaunchModel {
    Refuse { message: Seq<char>, status: i32 },
    Run { device: Seq<char> },
}

impl View for Launch {
    type V = LaunchModel;

    open spec fn view(&self) -> LaunchModel {
        match self {
            Launch::Refuse { message, status } => LaunchModel::Refuse {
                message: message@,
                status: *status,
            },
            Launch::Run { device } => LaunchModel::Run { device: device@ },
        }
    }
}

/// The program runs once, needs ffmpeg, and needs a device to write to. Only that it
/// runs already is no failure.
pub open spec fn launch_for(
    locked: bool,
    ffmpeg: bool,
    device: Option<Seq<char>>,
) -> LaunchModel {
    if !locked {
        LaunchModel::Refuse { message: "gopro-cam-tray is already running."@, status: 0 }
    } else if !ffmpeg {
        LaunchModel::Refuse {
            message: "ffmpeg not found in PATH. Install it (e.g. sudo apt install ffmpeg)."@,
            status: 1,
        }
    } else {
        match device {
            Some(d) => LaunchModel::Run { device: d },
            None => LaunchModel::Refuse {
                message:
                    "No v4l2loopback device found.\nLoad it first, e.g.:\n  sudo modprobe v4l2loopback exclusive_caps=1 card_label=\"GoPro\"\nor pass the device explicitly:  gopro-cam-tray /dev/videoN"@,
                status: 1,
            },
        }
    }
}

/// Decides how the program starts, given whether it holds its lock, whether ffmpeg is
/// installed, and the device.
pub fn run(locked: bool, ffmpeg: bool, device: Option<String>) -> (l: Launch)
    ensures
        l@ == launch_for(locked, ffmpeg, text_model(device)),
{
    if !locked {
        return Launch::Refuse {
            message: "gopro-cam-tray is already running.".to_string(),
            status: 0,
        };
    }
    if !ffmpeg {
        return Launch::Refuse {
            message:
                "ffmpeg not found in PATH. Install it (e.g. sudo apt install ffmpeg).".to_string(),
            status: 1,
        };
    }
    match device {
        Some(d) => Launch::Run { device: d },
        None => Launch::Refuse {
            message:
                "No v4l2loopback device found.\nLoad it first, e.g.:\n  sudo modprobe v4l2loopback exclusive_caps=1 card_label=\"GoPro\"\nor pass the device explicitly:  gopro-cam-tray /dev/videoN".to_string(),
            status: 1,
        },
    }
}

// ---------------------------------------------------------------------------
// What holds of every device
// ---------------------------------------------------------------------------

proof fn lemma_text_before_is_total(a: Seq<char>, b: Seq<char>)
    ensures
        text_before(a, b) || text_before(b, a) || a == b,
        !(text_before(a, b) && text_before(b, a)),
        !text_before(a, a),
    decreases a.len(),
{
    if a.len() > 0 {
        lemma_text_before_is_total(a.skip(1), a.skip(1));
    }
    if a.len() > 0 && b.len() > 0 {
        lemma_text_before_is_total(a.skip(1), b.skip(1));
        if a[0] == b[0] && a.skip(1) == b.skip(1) {
            assert(a =~= seq![a[0]] + a.skip(1));
            assert(b =~= seq![b[0]] + b.skip(1));
        }
    } else if a.len() == 0 && b.len() == 0 {
        assert(a =~= b);
    }
}

proof fn lemma_text_before_is_transitive(a: Seq<char>, b: Seq<char>, c: Seq<char>)
    requires
        text_before(a, b),
        text_before(b, c),
    ensures
        text_before(a, c),
    decreases a.len(),
{
    if a.len() > 0 && a[0] == b[0] && b[0] == c[0] {
        lemma_text_before_is_transitive(a.skip(1), b.skip(1), c.skip(1));
    }
}

proof fn lemma_least_text(list: Seq<Seq<char>>, k: int)
    requires
        0 <= k < list.len(),
    ensures
        least_text(list) is Some,
        !text_before(list[k], least_text(list)->0),
        list.contains(least_text(list)->0),
    decreases list.len(),
{
    let front = list.drop_last();
    let last = list.last();
    let least = least_text(list)->0;
    assert(list[list.len() - 1] == last);
    lemma_text_before_is_total(last, last);
    if front.len() == 0 {
        assert(least_text(front) is None);
        assert(least == last);
        assert(list[k] == last);
    } else {
        let j = if k < front.len() {
            k
        } else {
            0
        };
        lemma_least_text(front, j);
        let before = least_text(front)->0;
        let i = choose|i: int| 0 <= i < front.len() && front[i] == before;
        assert(list[i] == before);
        lemma_text_before_is_total(last, before);
        if k < front.len() {
            assert(list[k] == front[k]);
            if text_before(list[k], least) && least == last {
                lemma_text_before_is_transitive(list[k], last, before);
            }
        }
    }
}

/// The device that is found is the first: it belongs to a device that no hardware
/// backs, and no such device has a name that comes before.
pub proof fn law_the_first_loopback_is_found(nodes: Seq<VideoNodeModel>, k: int)
    requires
        0 <= k < nodes.len(),
        is_loopback(nodes[k]),
        nodes[k].name is Some,
    ensures
        ({
            let least = least_text(loopback_names(nodes));
            &&& least is Some
            &&& loopback_device(nodes) == Some("/dev/"@ + least->0)
            &&& !text_before(nodes[k].name->0, least->0)
            &&& exists|j: int|
                0 <= j < nodes.len() && is_loopback(#[trigger] nodes[j]) && nodes[j].name == least
        }),
{
    let names = loopback_names(nodes);
    lemma_named(nodes, k);
    let i = choose|i: int| 0 <= i < names.len() && names[i] == nodes[k].name->0;
    lemma_least_text(names, i);
    let least = least_text(names)->0;
    let h = choose|h: int| 0 <= h < names.len() && names[h] == least;
    lemma_names_belong(nodes, h);
}

proof fn lemma_named(nodes: Seq<VideoNodeModel>, k: int)
    requires
        0 <= k < nodes.len(),
        is_loopback(nodes[k]),
        nodes[k].name is Some,
    ensures
        exists|i: int|
            0 <= i < loopback_names(nodes).len() && loopback_names(nodes)[i] == nodes[k].name->0,
    decreases nodes.len(),
{
    let front = nodes.drop_last();
    let names = loopback_names(nodes);
    if k < front.len() {
        lemma_named(front, k);
        let i = choose|i: int|
            0 <= i < loopback_names(front).len() && loopback_names(front)[i] == front[k].name->0;
        assert(names[i] == nodes[k].name->0);
    } else {
        assert(names[names.len() - 1] == nodes[k].name->0);
    }
}

proof fn lemma_names_belong(nodes: Seq<VideoNodeModel>, h: int)
    requires
        0 <= h < loopback_names(nodes).len(),
    ensures
        exists|j: int|
            0 <= j < nodes.len() && is_loopback(#[trigger] nodes[j]) && nodes[j].name == Some(
                loopback_names(nodes)[h],
            ),
    decreases nodes.len(),
{
    let front = nodes.drop_last();
    let name = loopback_names(nodes)[h];
    if h < loopback_names(front).len() {
        lemma_names_belong(front, h);
        let j = choose|j: int|
            0 <= j < front.len() && is_loopback(#[trigger] front[j]) && front[j].name == Some(name);
        assert(nodes[j] == front[j]);
    } else {
        assert(is_loopback(nodes[nodes.len() - 1]));
    }
}

/// Without a device that no hardware backs, none is found.
pub proof fn law_hardware_is_not_taken(nodes: Seq<VideoNodeModel>)
    requires
        forall|k: int|
            0 <= k < nodes.len() ==> !is_loopback(#[trigger] nodes[k]) || nodes[k].name is None,
    ensures
        loopback_device(nodes) is None,
    decreases nodes.len(),
{
    if nodes.len() > 0 {
        let front = nodes.drop_last();
        assert forall|k: int| 0 <= k < front.len() implies !is_loopback(#[trigger] front[k])
            || front[k].name is None by {
            assert(front[k] == nodes[k]);
        }
        law_hardware_is_not_taken(front);
        assert(!is_loopback(nodes[nodes.len() - 1]) || nodes[nodes.len() - 1].name is None);
    }
}

} // verus!
