//! The windows of the Windows program: what they do with the messages they get.

use crate::text::utf16_units;
use vstd::prelude::*;

verus! {

/// The message of the tray icon: the first of the program's own, and one.
pub const WM_TRAYICON: u32 = 0x8001;

pub const WM_DESTROY: u32 = 0x0002;

pub const WM_PAINT: u32 = 0x000F;

pub const WM_TIMER: u32 = 0x0113;

pub const WM_LBUTTONUP: u32 = 0x0202;

pub const WM_RBUTTONUP: u32 = 0x0205;

/// The time between two repaints of an open preview window, in milliseconds.
pub const REPAINT_MS: u32 = 33;

/// What the tray's window does with a message.
#[derive(Clone, Copy, Debug, PartialEq, Eq, Structural)]
pub enum TrayReaction {
    /// Show the menu.
    ShowMenu,
    /// Nothing more: the message is dealt with.
    Handled,
    /// End the message loop.
    PostQuit,
    /// Leave the message to the system.
    Default,
}

/// What the preview window does with a message.
#[derive(Clone, Copy, Debug, PartialEq, Eq, Structural)]
pub enum PreviewReaction {
    /// Ask for a repaint.
    Invalidate,
    /// Paint the latest frame.
    Paint,
    /// Stop the timer and free the frame and the picture.
    Closed,
    /// Leave the message to the system.
    Default,
}

/// What asking for the preview does.
#[derive(Clone, Copy, Debug, PartialEq, Eq, Structural)]
pub enum PreviewRequest {
    /// Bring the window that is open to the front.
    Focus(isize),
    /// Open a window.
    Create,
}

/// What the tray's window does with a message: a click on the icon, with either
/// button, shows the menu.
pub open spec fn tray_reaction(msg: u32, lparam: isize) -> TrayReaction {
    let mouse = (lparam as u32) & 0xFFFF;
    if msg == WM_TRAYICON {
        if mouse == WM_RBUTTONUP || mouse == WM_LBUTTONUP {
            TrayReaction::ShowMenu
        } else {
            TrayReaction::Handled
        }
    } else if msg == WM_DESTROY {
        TrayReaction::PostQuit
    } else {
        TrayReaction::Default
    }
}

/// Decides what the tray's window does with a message.
pub fn tray_message(msg: u32, lparam: isize) -> (r: TrayReaction)
    ensures
        r == tray_reaction(msg, lparam),
{
    if msg == WM_TRAYICON {
        #[verifier::truncate]
        let mouse: u32 = (lparam as u32) & 0xFFFF;
        if mouse == WM_RBUTTONUP || mouse == WM_LBUTTONUP {
            TrayReaction::ShowMenu
        } else {
            TrayReaction::Handled
        }
    } else if msg == WM_DESTROY {
        TrayReaction::PostQuit
    } else {
        TrayReaction::Default
    }
}

/// What the preview window does with a message.
pub open spec fn preview_reaction(msg: u32) -> PreviewReaction {
    if msg == WM_TIMER {
        PreviewReaction::Invalidate
    } else if msg == WM_PAINT {
        PreviewReaction::Paint
    } else if msg == WM_DESTROY {
        PreviewReaction::Closed
    } else {
        PreviewReaction::Default
    }
}

/// Decides what the preview window does with a message.
pub fn preview_message(msg: u32) -> (r: PreviewReaction)
    ensures
        r == preview_reaction(msg),
{
    if msg == WM_TIMER {
        PreviewReaction::Invalidate
    } else if msg == WM_PAINT {
        PreviewReaction::Paint
    } else if msg == WM_DESTROY {
        PreviewReaction::Closed
    } else {
        PreviewReaction::Default
    }
}

/// What asking for the preview does while this window (its handle, zero for none) is open.
pub open spec fn preview_request(existing: isize) -> PreviewRequest {
    if existing != 0 {
        PreviewRequest::Focus(existing)
    } else {
        PreviewRequest::Create
    }
}

/// Opens the preview window, or brings the one that is open (its handle, zero for
/// none) to the front: there is never more than one.
pub fn open_preview(existing: isize) -> (r: PreviewRequest)
    ensures
        r == preview_request(existing),
{
    if existing != 0 {
        PreviewRequest::Focus(existing)
    } else {
        PreviewRequest::Create
    }
}

/// The tip's field once a text was written into it: as much of the text as leaves
/// room for a terminator, and behind it what was there.
pub open spec fn tip(before: Seq<u16>, units: Seq<u16>) -> Seq<u16> {
    let n = if units.len() < before.len() - 1 {
        units.len() as int
    } else {
        before.len() - 1
    };
    units.take(n) + before.skip(n)
}

/// Writes the icon's tip, in UTF-16. The last unit is left alone, so that in a field
/// of zeros the text is terminated.
pub fn write_tip(dst: &mut [u16; 128], s: &str)
    ensures
        final(dst)@ == tip(old(dst)@, crate::text::utf16(s@)),
{
    let units = utf16_units(s);
    let n: usize = if units.len() < 127 {
        units.len()
    } else {
        127
    };
    let ghost before = dst@;
    let mut i: usize = 0;
    assert(units@.take(0) + before.skip(0) =~= before);
    while i < n
        invariant
            i <= n,
            n <= units@.len(),
            n <= 127,
            before.len() == 128,
            dst@ == units@.take(i as int) + before.skip(i as int),
        decreases n - i,
    {
        dst[i] = units[i];
        i += 1;
        assert(dst@ =~= units@.take(i as int) + before.skip(i as int));
    }
}

/// A tip written into a field of zeros is terminated.
pub proof fn law_tips_are_terminated(before: Seq<u16>, units: Seq<u16>)
    requires
        before.len() > 0,
        before.last() == 0,
    ensures
        tip(before, units).len() == before.len(),
        tip(before, units).last() == 0,
{
}

} // verus!
