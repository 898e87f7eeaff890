//! The running program: sessions, the watcher, the loop on Linux, the menu and the
//! windows, said in the numbers and words that a user would meet.

use crate::control::ControlModel;
use crate::http::Address;
use crate::linux::ffmpeg_command;
use crate::linux::ffplay_command;
use crate::linux::loop_reported;
use crate::linux::loop_round;
use crate::linux::loop_watching;
use crate::linux::LoopPhase;
use crate::linux::LoopReport;
use crate::menu::chosen;
use crate::menu::command_id;
use crate::menu::commanded;
use crate::menu::entries;
use crate::menu::label_of;
use crate::menu::Effect;
use crate::menu::Entry;
use crate::menu::Status;
use crate::mf_decode::Frame;
use crate::mf_decode::FrameModel;
use crate::session::decoding_goes_on;
use crate::session::next_timestamp;
use crate::session::next_unit_time;
use crate::session::paced;
use crate::session::pool_after;
use crate::session::queue_after;
use crate::session::recycled;
use crate::session::turn_for;
use crate::session::SessionEnd;
use crate::session::TurnModel;
use crate::text::decimal;
use crate::tray::preview_reaction;
use crate::tray::preview_request;
use crate::tray::tip;
use crate::tray::tray_reaction;
use crate::tray::PreviewReaction;
use crate::tray::PreviewRequest;
use crate::tray::TrayReaction;
use crate::watch::reported;
use crate::watch::round;
use crate::watch::Phase;
use crate::watch::Report;
use crate::watch::Watcher;
use vstd::prelude::*;

verus! {

// ---------------------------------------------------------------------------
// Frames in a session
// ---------------------------------------------------------------------------

/// The queue holds the newest three of the frames that were in it or came, in order; of
/// fewer it holds all. Frames of a failed decoding do not come.
pub proof fn law_the_newest_three_wait(queue: Seq<Frame>, came: Seq<Frame>, i: int)
    requires
        came.len() > 0,
    ensures
        queue_after(queue, came, false) == queue,
        queue_after(queue, Seq::empty(), true) == queue,
        ({
            let all = queue + came;
            let kept = queue_after(queue, came, true);
            &&& kept.len() == if all.len() <= 3 {
                all.len()
            } else {
                3
            }
            &&& 0 <= i < kept.len() ==> kept[i] == all[all.len() - kept.len() + i]
        }),
{
}

/// The buffers of a frame.
pub open spec fn buffers(f: FrameModel) -> (Seq<u8>, Seq<u8>) {
    (f.y, f.uv)
}

/// Buffers that are recycled lie on top of the pool in their order, as many as there are
/// slots for: six in all.
pub proof fn law_recycled_buffers_lie_on_top(
    pool: Seq<(Seq<u8>, Seq<u8>)>,
    frames: Seq<FrameModel>,
    i: int,
)
    requires
        pool.len() <= 6,
    ensures
        ({
            let after = recycled(pool, frames);
            &&& after.len() == if pool.len() + frames.len() <= 6 {
                pool.len() + frames.len()
            } else {
                6
            }
            &&& 0 <= i < pool.len() ==> after[i] == pool[i]
            &&& pool.len() <= i < after.len() ==> after[i] == buffers(frames[i - pool.len()])
        }),
    decreases frames.len(),
{
    if frames.len() > 0 {
        law_recycled_buffers_lie_on_top(pool, frames.drop_last(), i);
        if pool.len() <= i < pool.len() + frames.len() - 1 {
            assert(frames.drop_last()[i - pool.len()] == frames[i - pool.len()]);
        }
    }
}

/// The buffers of the frames that have to leave the queue are recycled, and no others.
pub proof fn law_only_what_leaves_is_recycled(
    pool: Seq<(Seq<u8>, Seq<u8>)>,
    queue: Seq<Frame>,
    came: Seq<Frame>,
)
    requires
        came.len() > 0,
    ensures
        pool_after(pool, queue, came, false) == pool,
        pool_after(pool, queue, Seq::empty(), true) == pool,
        ({
            let all = queue + came;
            let gone = if all.len() <= 3 {
                0
            } else {
                all.len() - 3
            };
            pool_after(pool, queue, came, true) == recycled(
                pool,
                Seq::new(gone as nat, |i: int| all[i]@),
            )
        }),
{
    let all = queue + came;
    let gone = if all.len() <= 3 {
        0
    } else {
        all.len() - 3
    };
    assert(crate::session::frames_model(all).take(gone) =~= Seq::new(
        gone as nat,
        |i: int| all[i]@,
    ));
}

/// Thirty frames make a second, as nearly as units of 100 ns allow; both clocks go on by
/// the time of one frame, and only wrap around where their numbers end.
pub proof fn law_clocks_go_on_by_a_frame(t: i64, u: u64)
    ensures
        30 * crate::session::INTERVAL_100NS <= 10_000_000 < 30 * (crate::session::INTERVAL_100NS
            + 1),
        t + 333_333 <= i64::MAX ==> next_unit_time(t) == t + 333_333,
        t + 333_333 > i64::MAX ==> next_unit_time(t) == t + 333_333 - 18446744073709551616,
        u + 333_333 <= u64::MAX ==> next_timestamp(u) == u + 333_333,
        u + 333_333 > u64::MAX ==> next_timestamp(u) == u + 333_333 - 18446744073709551616,
{
}

/// A turn is due one frame after the one before, or now if that is past; the thread
/// sleeps until then, and no longer.
pub proof fn law_turns_are_a_frame_apart(due: int, now: int)
    ensures
        now < due + 33_333_300 ==> paced(due, now) == (due + 33_333_300, due + 33_333_300 - now),
        now >= due + 33_333_300 ==> paced(due, now) == (now, 0int),
{
}

/// A session ends when the program quits, else when it is suspended, else when nothing
/// waits and nothing has come for more than three seconds; till then every turn publishes
/// a frame if one waits.
pub proof fn law_when_a_session_ends(c: ControlModel, waiting: int, silence: int)
    requires
        0 <= waiting,
    ensures
        turn_for(c, waiting, silence) == TurnModel::End(SessionEnd::Quit) <==> c.quit,
        turn_for(c, waiting, silence) == TurnModel::End(SessionEnd::Suspended) <==> c.suspended
            && !c.quit,
        turn_for(c, waiting, silence) == TurnModel::End(SessionEnd::Disconnected) <==> !c.quit
            && !c.suspended && waiting == 0 && silence > 3_000_000_000,
        turn_for(c, waiting, silence) == TurnModel::Publish <==> !c.quit && !c.suspended && waiting
            > 0,
{
}

/// The decoding thread ends with the session, with the program and with a suspension, and
/// otherwise goes on.
pub proof fn law_when_decoding_ends(session: bool, c: ControlModel)
    ensures
        !decoding_goes_on(session, c) <==> !session || c.quit || c.suspended,
{
}

// ---------------------------------------------------------------------------
// The watcher
// ---------------------------------------------------------------------------

/// A round of the watcher: it ends if the program quits, looks for the camera if it is
/// not suspended, and else waits for half a second, probing in every fourth round.
pub proof fn law_what_a_round_does(tick: u32, c: ControlModel)
    ensures
        c.quit <==> round(tick, c).phase is Exited,
        !c.quit && !c.suspended <==> round(tick, c).phase is Probing,
        !c.quit && c.suspended && tick % 4 == 3 ==> round(tick, c).phase is ProbingSuspended,
        !c.quit && c.suspended && tick % 4 != 3 ==> round(tick, c).phase == Phase::Pausing(500),
        !c.quit && c.suspended && tick < u32::MAX ==> round(tick, c).tick == tick + 1,
        c.quit || !c.suspended ==> round(tick, c).tick == tick,
{
}

/// The watcher goes from the search to the start, from the start to the stream, and from
/// there to the stop, always with the same camera; where there is no camera it waits for
/// two seconds, and while suspended for half a second.
pub proof fn law_the_watcher_goes_on(
    w: Watcher,
    c: ControlModel,
    ip: Address,
    found: Option<Address>,
    error: String,
    ms: u64,
)
    ensures
        w.phase == Phase::Pausing(ms) ==> reported(w, c, Report::Done) == (round(w.tick, c), c),
        w.phase is Probing ==> reported(w, c, Report::Found(Some(ip))) == (
            Watcher { phase: Phase::Starting(ip), tick: w.tick },
            c,
        ),
        w.phase is Probing ==> reported(w, c, Report::Found(None)) == (
            Watcher { phase: Phase::Pausing(2000), tick: w.tick },
            c,
        ),
        w.phase is ProbingSuspended ==> reported(w, c, Report::Found(found)) == (
            Watcher { phase: Phase::Pausing(500), tick: w.tick },
            ControlModel { suspended: c.suspended && found is Some, ..c },
        ),
        w.phase == Phase::Starting(ip) ==> reported(w, c, Report::Started(Ok(()))) == (
            Watcher { phase: Phase::Streaming(ip), tick: w.tick },
            ControlModel { streaming: true, ..c },
        ),
        w.phase == Phase::Starting(ip) ==> reported(w, c, Report::Started(Err(error))) == (
            round(w.tick, c),
            c,
        ),
        w.phase == Phase::Streaming(ip) ==> reported(
            w,
            c,
            Report::Ended(SessionEnd::Disconnected),
        ).1 == (ControlModel { streaming: false, ..c }),
        w.phase == Phase::Streaming(ip) ==> reported(
            w,
            c,
            Report::Ended(SessionEnd::Disconnected),
        ).0 == round(w.tick, c),
        w.phase == Phase::Streaming(ip) ==> reported(w, c, Report::Ended(SessionEnd::Suspended))
            == (
            Watcher { phase: Phase::Stopping(ip), tick: w.tick },
            ControlModel { streaming: false, ..c },
        ),
        w.phase == Phase::Streaming(ip) ==> reported(w, c, Report::Ended(SessionEnd::Quit)) == (
            Watcher { phase: Phase::Stopping(ip), tick: w.tick },
            ControlModel { streaming: false, ..c },
        ),
        w.phase == Phase::Stopping(ip) ==> reported(w, c, Report::Done) == (round(w.tick, c), c),
{
}

/// A report that does not answer the phase changes nothing.
pub proof fn law_reports_that_answer_nothing(w: Watcher, c: ControlModel, report: Report)
    requires
        w.phase is Exited || (report is Done && !(w.phase is Pausing) && !(w.phase is Stopping))
            || (report is Found && !(w.phase is Probing) && !(w.phase is ProbingSuspended)) || (
        report is Started && !(w.phase is Starting)) || (report is Ended && !(
        w.phase is Streaming)),
    ensures
        reported(w, c, report) == (w, c),
{
}

// ---------------------------------------------------------------------------
// The loop on Linux
// ---------------------------------------------------------------------------

/// The loop goes from the search to the start, from the start to ffmpeg, and behind
/// ffmpeg, whatever became of it, to the stop of the same camera. The pauses are half a
/// second, or two seconds where there is no camera or it does not start.
pub proof fn law_the_loop_goes_on(
    c: ControlModel,
    ip: Address,
    found: Option<Address>,
    error: String,
    ms: u64,
)
    ensures
        c.quit <==> loop_round(c) is Exited,
        !c.quit && c.suspended <==> loop_round(c) is ProbingSuspended,
        !c.quit && !c.suspended <==> loop_round(c) is Probing,
        loop_reported(LoopPhase::Pausing(ms), c, LoopReport::Done) == (loop_round(c), c),
        loop_reported(LoopPhase::ProbingSuspended, c, LoopReport::Found(found)) == (
            LoopPhase::Pausing(500),
            ControlModel { suspended: c.suspended && found is Some, ..c },
        ),
        loop_reported(LoopPhase::Probing, c, LoopReport::Found(Some(ip))) == (
            LoopPhase::Starting(ip),
            c,
        ),
        loop_reported(LoopPhase::Probing, c, LoopReport::Found(None)) == (
            LoopPhase::Pausing(2000),
            c,
        ),
        loop_reported(LoopPhase::Starting(ip), c, LoopReport::Started(Ok(()))) == (
            LoopPhase::Spawning(ip),
            ControlModel { streaming: true, ..c },
        ),
        loop_reported(LoopPhase::Starting(ip), c, LoopReport::Started(Err(error))) == (
            LoopPhase::Pausing(2000),
            c,
        ),
        loop_reported(LoopPhase::Spawning(ip), c, LoopReport::Spawned(false)) == (
            LoopPhase::Stopping(ip),
            ControlModel { streaming: false, ..c },
        ),
        loop_reported(LoopPhase::Killing(ip), c, LoopReport::Done) == (
            LoopPhase::Stopping(ip),
            ControlModel { streaming: false, ..c },
        ),
        loop_reported(LoopPhase::Stopping(ip), c, LoopReport::Done).1 == c,
        c.quit ==> loop_reported(LoopPhase::Stopping(ip), c, LoopReport::Done).0 is Exited,
        !c.quit ==> loop_reported(LoopPhase::Stopping(ip), c, LoopReport::Done).0
            == LoopPhase::Pausing(500),
{
}

/// While ffmpeg runs it is looked at every 300 milliseconds, until it has exited, the
/// program quits or is suspended; then it is killed.
pub proof fn law_ffmpeg_is_watched(c: ControlModel, ip: Address)
    ensures
        crate::linux::CHILD_PAUSE == 300,
        loop_reported(LoopPhase::Checking(ip), c, LoopReport::Runs(true)) == (
            LoopPhase::Letting(ip),
            c,
        ),
        loop_reported(LoopPhase::Checking(ip), c, LoopReport::Runs(false)) == (
            LoopPhase::Killing(ip),
            c,
        ),
        loop_reported(LoopPhase::Spawning(ip), c, LoopReport::Spawned(true)) == (
            loop_watching(c, ip),
            c,
        ),
        loop_reported(LoopPhase::Letting(ip), c, LoopReport::Done) == (loop_watching(c, ip), c),
        c.quit || c.suspended ==> loop_watching(c, ip) == LoopPhase::Killing(ip),
        !c.quit && !c.suspended ==> loop_watching(c, ip) == LoopPhase::Checking(ip),
{
}

/// A report that does not answer the loop's phase changes nothing.
pub proof fn law_loop_reports_that_answer_nothing(
    phase: LoopPhase,
    c: ControlModel,
    report: LoopReport,
)
    requires
        phase is Exited || (report is Done && (phase is Probing || phase is ProbingSuspended
            || phase is Starting || phase is Spawning || phase is Checking)) || (report is Found
            && !(phase is Probing) && !(phase is ProbingSuspended)) || (report is Started && !(
        phase is Starting)) || (report is Spawned && !(phase is Spawning)) || (report is Runs && !(
        phase is Checking)),
    ensures
        loop_reported(phase, c, report) == (phase, c),
{
}

/// ffmpeg reads the stream from UDP port 8554 and writes it to the device as its last
/// argument; ffplay shows the same device.
pub proof fn law_ffmpeg_writes_to_the_device(device: Seq<char>)
    ensures
        ({
            let args = ffmpeg_command(device);
            &&& args.len() == 14
            &&& args[0] == "-hide_banner"@ && args[1] == "-loglevel"@ && args[2] == "error"@
            &&& args[3] == "-fflags"@ && args[4] == "nobuffer"@
            &&& args[5] == "-flags"@ && args[6] == "low_delay"@
            &&& args[7] == "-i"@
            &&& args[8] == "udp://0.0.0.0:"@ + decimal(8554)
                + "?overrun_nonfatal=1&fifo_size=5000000"@
            &&& args[9] == "-pix_fmt"@ && args[10] == "yuv420p"@
            &&& args[11] == "-f"@ && args[12] == "v4l2"@
            &&& args[13] == device
        }),
        ({
            let args = ffplay_command(device);
            &&& args.len() == 6
            &&& args[0] == "-hide_banner"@ && args[1] == "-loglevel"@ && args[2] == "error"@
            &&& args[3] == "-window_title"@ && args[4] == "GoPro — Aperçu"@
            &&& args[5] == device
        }),
{
}

// ---------------------------------------------------------------------------
// The menu
// ---------------------------------------------------------------------------

/// The menu, from top to bottom: what the camera does, the preview, suspending or
/// resuming, starting at login, quitting.
pub proof fn law_what_the_menu_shows(c: ControlModel, autostart: bool)
    ensures
        ({
            let list = entries(c, autostart);
            &&& list.len() == 7
            &&& c.streaming ==> list[0] == Entry::Status(Status::Streaming)
            &&& !c.streaming && c.suspended ==> list[0] == Entry::Status(Status::Suspended)
            &&& !c.streaming && !c.suspended ==> list[0] == Entry::Status(Status::Waiting)
            &&& list[1] == Entry::Separator
            &&& list[2] == Entry::Preview
            &&& c.suspended ==> list[3] == Entry::Resume
            &&& !c.suspended ==> list[3] == Entry::Suspend
            &&& list[4] == Entry::Startup { checked: autostart }
            &&& list[5] == Entry::Separator
            &&& list[6] == Entry::Quit
        }),
{
}

/// What the entries are called.
pub proof fn law_what_entries_are_called(checked: bool)
    ensures
        label_of(Entry::Status(Status::Streaming)) == "GoPro : diffusion en cours"@,
        label_of(Entry::Status(Status::Suspended)) == "GoPro : suspendu"@,
        label_of(Entry::Status(Status::Waiting)) == "GoPro : en attente"@,
        label_of(Entry::Preview) == "Aperçu"@,
        label_of(Entry::Suspend) == "Suspendre (reprend au rebranchement)"@,
        label_of(Entry::Resume) == "Reprendre"@,
        label_of(Entry::Startup { checked }) == "Lancer au démarrage"@,
        label_of(Entry::Quit) == "Quitter"@,
{
}

/// What choosing does: each entry its own thing, and nothing besides.
pub proof fn law_what_choosing_does(entry: Entry, c: ControlModel, autostart: bool)
    ensures
        ({
            let (after, effect) = chosen(entry, c, autostart);
            &&& after == (ControlModel { quit: after.quit, suspended: after.suspended, ..c })
            &&& after.quit == (c.quit || entry is Quit)
            &&& after.suspended == (entry is Suspend || (c.suspended && !(entry is Resume)))
            &&& effect is OpenPreview <==> entry is Preview
            &&& effect is EnableStartup <==> entry is Startup && !autostart
            &&& effect is DisableStartup <==> entry is Startup && autostart
            &&& effect is Close <==> entry is Quit
        }),
        commanded(command_id(entry), c, autostart) == chosen(entry, c, autostart),
{
}

// ---------------------------------------------------------------------------
// The windows
// ---------------------------------------------------------------------------

/// A click on the icon, left or right, shows the menu: the message is 0x8001, and the low
/// half of its parameter tells that a button went up. A window that is destroyed ends the
/// program; other messages are left to the system.
pub proof fn law_clicks_show_the_menu(msg: u32, lparam: isize)
    requires
        0 <= lparam <= 0x7FFF_FFFF,
    ensures
        tray_reaction(msg, lparam) == TrayReaction::ShowMenu <==> msg == 0x8001 && (lparam % 65536
            == 0x0202 || lparam % 65536 == 0x0205),
        tray_reaction(msg, lparam) == TrayReaction::PostQuit <==> msg == 2,
        tray_reaction(msg, lparam) == TrayReaction::Default <==> msg != 0x8001 && msg != 2,
{
    let n = lparam as u32;
    assert((n & 0xFFFF) == n % 65536) by (bit_vector);
}

/// The preview window asks for a repaint on its timer, paints when asked, and frees its
/// picture when it is destroyed; other messages are left to the system.
pub proof fn law_what_the_preview_window_does(msg: u32)
    ensures
        preview_reaction(msg) == PreviewReaction::Invalidate <==> msg == 0x113,
        preview_reaction(msg) == PreviewReaction::Paint <==> msg == 0xF,
        preview_reaction(msg) == PreviewReaction::Closed <==> msg == 2,
        crate::tray::REPAINT_MS * 30 <= 1000 < (crate::tray::REPAINT_MS + 1) * 30,
{
}

/// There is one preview window: it is made if there is none, and else brought to the
/// front.
pub proof fn law_one_preview_window(existing: isize)
    ensures
        preview_request(0) == PreviewRequest::Create,
        existing != 0 ==> preview_request(existing) == PreviewRequest::Focus(existing),
{
}

/// A tip holds the text from its beginning, as far as there is room for it and for a
/// terminator; behind the text nothing is changed.
pub proof fn law_tips_hold_the_text(before: Seq<u16>, units: Seq<u16>, i: int)
    requires
        before.len() == 128,
        0 <= i < 128,
    ensures
        tip(before, units).len() == 128,
        i < units.len() && i < 127 ==> tip(before, units)[i] == units[i],
        i >= units.len() || i == 127 ==> tip(before, units)[i] == before[i],
{
}

} // verus!
