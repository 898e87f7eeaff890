//! The tray's menu: what it shows, and what choosing an entry does.

use crate::control::Control;
use crate::control::ControlModel;
use vstd::prelude::*;

verus! {

/// What the camera is doing.
#[derive(Clone, Copy, Debug, PartialEq, Eq, Structural)]
pub enum Status {
    Streaming,
    Suspended,
    Waiting,
}

/// One entry of the menu.
#[derive(Clone, Copy, Debug, PartialEq, Eq, Structural)]
pub enum Entry {
    /// What the camera is doing; cannot be chosen.
    Status(Status),
    Separator,
    /// Opens the preview window.
    Preview,
    /// Suspends the stream until the camera is unplugged.
    Suspend,
    /// Resumes at once.
    Resume,
    /// Turns starting at login on or off.
    Startup { checked: bool },
    /// Quits the program.
    Quit,
}

/// What is left to do once an entry was chosen.
#[derive(Clone, Copy, Debug, PartialEq, Eq, Structural)]
pub enum Effect {
    Nothing,
    OpenPreview,
    EnableStartup,
    DisableStartup,
    /// Close the tray's window.
    Close,
}

/// What the camera is doing: a session that still streams counts before suspension.
pub open spec fn status(c: ControlModel) -> Status {
    if c.streaming {
        Status::Streaming
    } else if c.suspended {
        Status::Suspended
    } else {
        Status::Waiting
    }
}

/// The menu's entries. `autostart` tells whether the program starts at login.
pub open spec fn entries(c: ControlModel, autostart: bool) -> Seq<Entry> {
    seq![
        Entry::Status(status(c)),
        Entry::Separator,
        Entry::Preview,
        if c.suspended {
            Entry::Resume
        } else {
            Entry::Suspend
        },
        Entry::Startup { checked: autostart },
        Entry::Separator,
        Entry::Quit,
    ]
}

/// The menu's entries, from top to bottom.
pub fn menu(ctrl: &Control, autostart: bool) -> (list: Vec<Entry>)
    ensures
        list@ == entries(ctrl@, autostart),
{
    let now = if ctrl.streaming {
        Status::Streaming
    } else if ctrl.suspended {
        Status::Suspended
    } else {
        Status::Waiting
    };
    let mut list: Vec<Entry> = Vec::new();
    list.push(Entry::Status(now));
    list.push(Entry::Separator);
    list.push(Entry::Preview);
    if ctrl.suspended {
        list.push(Entry::Resume);
    } else {
        list.push(Entry::Suspend);
    }
    list.push(Entry::Startup { checked: autostart });
    list.push(Entry::Separator);
    list.push(Entry::Quit);
    assert(list@ =~= entries(ctrl@, autostart));
    list
}

/// The text of an entry.
pub open spec fn label_of(entry: Entry) -> Seq<char> {
    match entry {
        Entry::Status(Status::Streaming) => "GoPro : diffusion en cours"@,
        Entry::Status(Status::Suspended) => "GoPro : suspendu"@,
        Entry::Status(Status::Waiting) => "GoPro : en attente"@,
        Entry::Separator => ""@,
        Entry::Preview => "Aperçu"@,
        Entry::Suspend => "Suspendre (reprend au rebranchement)"@,
        Entry::Resume => "Reprendre"@,
        Entry::Startup { checked } => "Lancer au démarrage"@,
        Entry::Quit => "Quitter"@,
    }
}

/// The number by which the Windows menu tells which entry was chosen.
pub open spec fn command_id(entry: Entry) -> usize {
    match entry {
        Entry::Status(_) => 1,
        Entry::Separator => 0,
        Entry::Preview => 5,
        Entry::Suspend => 2,
        Entry::Resume => 6,
        Entry::Startup { checked } => 3,
        Entry::Quit => 4,
    }
}

/// The shared state, and what is left to do, after a command of the Windows menu.
pub open spec fn commanded(id: usize, c: ControlModel, autostart: bool) -> (ControlModel, Effect) {
    if id == 5 {
        (c, Effect::OpenPreview)
    } else if id == 2 {
        (ControlModel { suspended: true, ..c }, Effect::Nothing)
    } else if id == 6 {
        (ControlModel { suspended: false, ..c }, Effect::Nothing)
    } else if id == 3 {
        (
            c,
            if autostart {
                Effect::DisableStartup
            } else {
                Effect::EnableStartup
            },
        )
    } else if id == 4 {
        (ControlModel { quit: true, ..c }, Effect::Close)
    } else {
        (c, Effect::Nothing)
    }
}

/// The shared state, and what is left to do, after an entry was chosen.
pub open spec fn chosen(entry: Entry, c: ControlModel, autostart: bool) -> (ControlModel, Effect) {
    match entry {
        Entry::Preview => (c, Effect::OpenPreview),
        Entry::Suspend => (ControlModel { suspended: true, ..c }, Effect::Nothing),
        Entry::Resume => (ControlModel { suspended: false, ..c }, Effect::Nothing),
        Entry::Startup { checked } => (
            c,
            if autostart {
                Effect::DisableStartup
            } else {
                Effect::EnableStartup
            },
        ),
        Entry::Quit => (ControlModel { quit: true, ..c }, Effect::Close),
        _ => (c, Effect::Nothing),
    }
}

impl Entry {
    /// The text of the entry.
    pub fn label(&self) -> (s: String)
        ensures
            s@ == label_of(*self),
    {
        match self {
            Entry::Status(Status::Streaming) => "GoPro : diffusion en cours".to_string(),
            Entry::Status(Status::Suspended) => "GoPro : suspendu".to_string(),
            Entry::Status(Status::Waiting) => "GoPro : en attente".to_string(),
            Entry::Separator => "".to_string(),
            Entry::Preview => "Aperçu".to_string(),
            Entry::Suspend => "Suspendre (reprend au rebranchement)".to_string(),
            Entry::Resume => "Reprendre".to_string(),
            Entry::Startup { checked: _ } => "Lancer au démarrage".to_string(),
            Entry::Quit => "Quitter".to_string(),
        }
    }

    /// The number by which the Windows menu tells which entry was chosen.
    pub fn id(&self) -> (id: usize)
        ensures
            id == command_id(*self),
    {
        match self {
            Entry::Status(_) => 1,
            Entry::Separator => 0,
            Entry::Preview => 5,
            Entry::Suspend => 2,
            Entry::Resume => 6,
            Entry::Startup { checked: _ } => 3,
            Entry::Quit => 4,
        }
    }

    /// Carries out the entry, and tells what is left to do. `autostart` tells whether
    /// the program starts at login.
    pub fn choose_entry(&self, ctrl: &mut Control, autostart: bool) -> (effect: Effect)
        ensures
            (final(ctrl)@, effect) == chosen(*self, old(ctrl)@, autostart),
    {
        match self {
            Entry::Preview => Effect::OpenPreview,
            Entry::Suspend => {
                ctrl.suspended = true;
                Effect::Nothing
            },
            Entry::Resume => {
                ctrl.suspended = false;
                Effect::Nothing
            },
            Entry::Startup { checked: _ } => {
                if autostart {
                    Effect::DisableStartup
                } else {
                    Effect::EnableStartup
                }
            },
            Entry::Quit => {
                ctrl.quit = true;
                Effect::Close
            },
            _ => Effect::Nothing,
        }
    }
}

/// Carries out a command of the Windows menu, and tells what is left to do. `autostart`
/// tells whether the program starts at login.
pub fn command(id: usize, ctrl: &mut Control, autostart: bool) -> (effect: Effect)
    ensures
        (final(ctrl)@, effect) == commanded(id, old(ctrl)@, autostart),
{
    if id == 5 {
        Effect::OpenPreview
    } else if id == 2 {
        ctrl.suspended = true;
        Effect::Nothing
    } else if id == 6 {
        ctrl.suspended = false;
        Effect::Nothing
    } else if id == 3 {
        if autostart {
            Effect::DisableStartup
        } else {
            Effect::EnableStartup
        }
    } else if id == 4 {
        ctrl.quit = true;
        Effect::Close
    } else {
        Effect::Nothing
    }
}

// ---------------------------------------------------------------------------
// What holds of every menu
// ---------------------------------------------------------------------------

/// The number of an entry does what the entry says, in whatever state the program is by
/// then: the state may have changed since the menu was shown.
pub proof fn law_commands_do_what_entries_say(entry: Entry, now: ControlModel, autostart: bool)
    ensures
        commanded(command_id(entry), now, autostart) == chosen(entry, now, autostart),
{
}

/// Choosing to resume leaves the program resumed, choosing to suspend leaves it
/// suspended, whatever happened while the menu was open.
pub proof fn law_choices_hold_whatever_happened(now: ControlModel, autostart: bool)
    ensures
        !commanded(command_id(Entry::Resume), now, autostart).0.suspended,
        commanded(command_id(Entry::Suspend), now, autostart).0.suspended,
        !chosen(Entry::Resume, now, autostart).0.suspended,
        chosen(Entry::Suspend, now, autostart).0.suspended,
{
}

/// A menu that is dismissed, which gives the number zero, changes nothing; and no
/// command changes whether the program streams, or its preview.
pub proof fn law_commands_leave_the_rest_alone(id: usize, now: ControlModel, autostart: bool)
    ensures
        commanded(0, now, autostart) == (now, Effect::Nothing),
        commanded(id, now, autostart).0 == (ControlModel {
            quit: commanded(id, now, autostart).0.quit,
            suspended: commanded(id, now, autostart).0.suspended,
            ..now
        }),
{
}

/// Entries that can be chosen have numbers of their own.
pub proof fn law_numbers_tell_entries_apart(c: ControlModel, autostart: bool, i: int, j: int)
    requires
        0 <= i < j < entries(c, autostart).len(),
        entries(c, autostart)[i] != Entry::Separator,
    ensures
        command_id(entries(c, autostart)[i]) != command_id(entries(c, autostart)[j]),
{
}

/// The menu offers to resume exactly when the program is suspended, and to suspend
/// exactly when it is not.
pub proof fn law_suspend_or_resume(c: ControlModel, autostart: bool)
    ensures
        entries(c, autostart).contains(Entry::Resume) <==> c.suspended,
        entries(c, autostart).contains(Entry::Suspend) <==> !c.suspended,
{
    let list = entries(c, autostart);
    assert(list[3] == if c.suspended {
        Entry::Resume
    } else {
        Entry::Suspend
    });
}

/// Suspending and resuming leaves everything as it was before.
pub proof fn law_resuming_undoes_suspending(c: ControlModel, autostart: bool)
    requires
        !c.suspended,
    ensures
        chosen(Entry::Resume, chosen(Entry::Suspend, c, autostart).0, autostart).0 == c,
        commanded(
            command_id(Entry::Resume),
            commanded(command_id(Entry::Suspend), c, autostart).0,
            autostart,
        ).0 == c,
{
}

} // verus!
