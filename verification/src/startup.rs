//! Starting at login on Windows: a script in the user's Startup folder that launches
//! the program hidden. No administrator's rights, no registry.

use crate::text::chars_of;
use vstd::prelude::*;
use vstd::string::StringExecFns;

verus! {

/// The parts of the script's path below the user's application data folder.
pub open spec fn script_path() -> Seq<Seq<char>> {
    seq![
        "Microsoft"@,
        "Windows"@,
        "Start Menu"@,
        "Programs"@,
        "Startup"@,
        "gopro-cam-watch.vbs"@,
    ]
}

/// The parts of the script's path below the user's application data folder.
pub fn vbs_path() -> (parts: Vec<String>)
    ensures
        crate::text::texts_model(parts@) == script_path(),
{
    let mut parts: Vec<String> = Vec::new();
    parts.push("Microsoft".to_string());
    parts.push("Windows".to_string());
    parts.push("Start Menu".to_string());
    parts.push("Programs".to_string());
    parts.push("Startup".to_string());
    parts.push("gopro-cam-watch.vbs".to_string());
    assert(crate::text::texts_model(parts@) =~= script_path());
    parts
}

/// A text with every quotation mark doubled, as a string of the script needs it.
pub open spec fn quoted(s: Seq<char>) -> Seq<char>
    decreases s.len(),
{
    if s.len() == 0 {
        s
    } else if s.last() == '"' {
        quoted(s.drop_last()).push('"').push('"')
    } else {
        quoted(s.drop_last()).push(s.last())
    }
}

/// The script that launches the program.
pub open spec fn launcher_text(exe: Seq<char>) -> Seq<char> {
    "' Auto-start the GoPro virtual-camera tray app, hidden, at login.\r\n' Delete this file (or use the tray menu) to disable auto-start.\r\nSet sh = CreateObject(\"WScript.Shell\")\r\nsh.Run \"\"\""@
        + quoted(exe) + "\"\"\", 0, False\r\n"@
}

/// The script that launches the program.
pub fn launcher(exe: &str) -> (s: String)
    ensures
        s@ == launcher_text(exe@),
{
    let mut s =
        "' Auto-start the GoPro virtual-camera tray app, hidden, at login.\r\n' Delete this file (or use the tray menu) to disable auto-start.\r\nSet sh = CreateObject(\"WScript.Shell\")\r\nsh.Run \"\"\"".to_string();
    let ghost start = s@;
    let chars = chars_of(exe);
    let mut i: usize = 0;
    assert(start + quoted(exe@.take(0)) =~= start);
    while i < chars.len()
        invariant
            i <= chars@.len(),
            chars@ == exe@,
            s@ == start + quoted(exe@.take(i as int)),
        decreases chars@.len() - i,
    {
        let c: char = chars[i];
        if c == '"' {
            s.push('"');
        }
        s.push(c);
        i += 1;
        proof {
            assert(exe@.take(i as int).drop_last() =~= exe@.take(i - 1));
            assert(s@ =~= start + quoted(exe@.take(i as int)));
        }
    }
    assert(exe@.take(i as int) =~= exe@);
    s.append("\"\"\", 0, False\r\n");
    assert(s@ =~= launcher_text(exe@));
    s
}

// ---------------------------------------------------------------------------
// Turning it on and off
// ---------------------------------------------------------------------------

/// What to do with the file that starts the program at login.
pub enum FileTask {
    /// Leave it as it is.
    Keep,
    /// Write this text to it.
    Write(String),
    /// Remove it.
    Remove,
}

/// What a `FileTask` holds.
pub enum FileTaskModel {
    Keep,
    Write(Seq<char>),
    Remove,
}

impl View for FileTask {
    type V = FileTaskModel;

    open spec fn view(&self) -> FileTaskModel {
        match self {
            FileTask::Keep => FileTaskModel::Keep,
            FileTask::Write(text) => FileTaskModel::Write(text@),
            FileTask::Remove => FileTaskModel::Remove,
        }
    }
}

/// What the file holds, if there is one, once a task was carried out.
pub open spec fn file_after(file: Option<Seq<char>>, task: FileTaskModel) -> Option<Seq<char>> {
    match task {
        FileTaskModel::Keep => file,
        FileTaskModel::Write(text) => Some(text),
        FileTaskModel::Remove => None,
    }
}

/// Removes a file that exists, and leaves one alone that does not.
pub open spec fn removal(exists: bool) -> FileTaskModel {
    if exists {
        FileTaskModel::Remove
    } else {
        FileTaskModel::Keep
    }
}

/// The program starts at login exactly if its file is there.
pub open spec fn starts_at_login(file: Option<Seq<char>>) -> bool {
    file is Some
}

/// Tests whether the program starts at login, given whether its script exists.
pub fn is_enabled(exists: bool) -> (b: bool)
    ensures
        b == exists,
{
    exists
}

/// Lets the program start at login: writes the script, which launches `exe` hidden.
pub fn enable(exe: &str) -> (task: FileTask)
    ensures
        task@ == FileTaskModel::Write(launcher_text(exe@)),
{
    FileTask::Write(launcher(exe))
}

/// Lets the program no longer start at login, given whether its script exists.
pub fn disable(exists: bool) -> (task: FileTask)
    ensures
        task@ == removal(exists),
{
    if exists {
        FileTask::Remove
    } else {
        FileTask::Keep
    }
}

/// Whatever was there before: once turned on, the program starts at login, by the text
/// that was written; once turned off, it does not; and turning off what is off changes
/// nothing.
pub proof fn law_startup_is_turned_on_and_off(file: Option<Seq<char>>, text: Seq<char>)
    ensures
        starts_at_login(file_after(file, FileTaskModel::Write(text))),
        file_after(file, FileTaskModel::Write(text)) == Some(text),
        !starts_at_login(file_after(file, removal(file is Some))),
        file is None ==> file_after(file, removal(false)) == file,
{
}

/// What the menu leaves to do turns starting at login on if it was off, and off if it
/// was on.
pub proof fn law_the_menu_toggles_startup(
    file: Option<Seq<char>>,
    text: Seq<char>,
    checked: bool,
    c: crate::control::ControlModel,
)
    ensures
        ({
            let effect = crate::menu::chosen(
                crate::menu::Entry::Startup { checked },
                c,
                starts_at_login(file),
            ).1;
            let task = match effect {
                crate::menu::Effect::EnableStartup => FileTaskModel::Write(text),
                crate::menu::Effect::DisableStartup => removal(file is Some),
                _ => FileTaskModel::Keep,
            };
            starts_at_login(file_after(file, task)) == !starts_at_login(file)
        }),
{
}

// ---------------------------------------------------------------------------
// Quoting
// ---------------------------------------------------------------------------

/// What a string of the script stands for: every pair of quotation marks is one.
pub open spec fn unquoted(s: Seq<char>) -> Seq<char>
    decreases s.len(),
{
    if s.len() == 0 {
        s
    } else if s.len() > 1 && s.last() == '"' && s[s.len() - 2] == '"' {
        unquoted(s.drop_last().drop_last()).push('"')
    } else {
        unquoted(s.drop_last()).push(s.last())
    }
}

/// The script launches this very program: its string stands for the program's path,
/// whatever quotation marks that holds.
pub proof fn law_quotes_are_read_back(s: Seq<char>)
    ensures
        unquoted(quoted(s)) == s,
    decreases s.len(),
{
    if s.len() > 0 {
        let front = s.drop_last();
        law_quotes_are_read_back(front);
        let q = quoted(front);
        if s.last() == '"' {
            assert(q.push('"').push('"').drop_last().drop_last() =~= q);
        } else {
            assert(q.push(s.last()).drop_last() =~= q);
        }
        assert(front.push(s.last()) =~= s);
    }
}

} // verus!
