//! The watcher: waits for the camera, streams while it is there, and honours what the
//! tray asks for.
//!
//! The phase says what the program has to do; it does it and reports what came of it.
//! A report that does not answer the phase leaves everything as it is.

use crate::control::Control;
use crate::control::ControlModel;
use crate::http::Address;
use crate::session::SessionEnd;
use vstd::prelude::*;

verus! {

/// The pause, in milliseconds, between two looks at a suspended program.
pub const SUSPENDED_PAUSE: u64 = 500;

/// The pause, in milliseconds, before a camera that is not there is looked for again.
pub const ABSENT_PAUSE: u64 = 2000;

/// While suspended, only every so many looks probe the camera: each probe is a full
/// HTTP round trip to it.
pub const PROBE_EVERY: u32 = 4;

/// What to do.
#[derive(Clone, Copy, Debug, PartialEq, Eq, Structural)]
pub enum Phase {
    /// Sleep, so many milliseconds.
    Pausing(u64),
    /// Look for the camera, to learn whether it was unplugged while suspended.
    ProbingSuspended,
    /// Look for the camera.
    Probing,
    /// Start the webcam stream.
    Starting(Address),
    /// Stream until the session ends.
    Streaming(Address),
    /// End the webcam stream.
    Stopping(Address),
    /// Nothing: the watcher is over.
    Exited,
}

/// What came of it.
pub enum Report {
    /// A pause or a stop is over.
    Done,
    /// The camera was found here, or nowhere.
    Found(Option<Address>),
    /// The stream was started, or not.
    Started(Result<(), String>),
    /// The session has ended.
    Ended(SessionEnd),
}

/// The watcher.
pub struct Watcher {
    pub phase: Phase,
    /// The looks at a suspended program so far.
    pub tick: u32,
}

/// The number behind `n`; the greatest one is followed by zero.
pub open spec fn next_tick(n: u32) -> u32 {
    if n == u32::MAX {
        0
    } else {
        (n + 1) as u32
    }
}

/// The watcher at the beginning of a round.
pub open spec fn round(tick: u32, c: ControlModel) -> Watcher {
    if c.quit {
        Watcher { phase: Phase::Exited, tick }
    } else if c.suspended {
        let looks = next_tick(tick);
        Watcher {
            phase: if looks % PROBE_EVERY == 0 {
                Phase::ProbingSuspended
            } else {
                Phase::Pausing(SUSPENDED_PAUSE)
            },
            tick: looks,
        }
    } else {
        Watcher { phase: Phase::Probing, tick }
    }
}

/// The watcher, and the shared state, after a report.
pub open spec fn reported(w: Watcher, c: ControlModel, report: Report) -> (Watcher, ControlModel) {
    match (w.phase, report) {
        (Phase::Pausing(_), Report::Done) => (round(w.tick, c), c),
        (Phase::ProbingSuspended, Report::Found(found)) => (
            Watcher { phase: Phase::Pausing(SUSPENDED_PAUSE), ..w },
            if found is None {
                ControlModel { suspended: false, ..c }
            } else {
                c
            },
        ),
        (Phase::Probing, Report::Found(found)) => (
            Watcher {
                phase: match found {
                    Some(ip) => Phase::Starting(ip),
                    None => Phase::Pausing(ABSENT_PAUSE),
                },
                ..w
            },
            c,
        ),
        (Phase::Starting(ip), Report::Started(started)) => if started is Ok {
            (Watcher { phase: Phase::Streaming(ip), ..w }, ControlModel { streaming: true, ..c })
        } else {
            (round(w.tick, c), c)
        },
        (Phase::Streaming(ip), Report::Ended(end)) => {
            let idle = ControlModel { streaming: false, ..c };
            if end is Disconnected {
                (round(w.tick, idle), idle)
            } else {
                (Watcher { phase: Phase::Stopping(ip), ..w }, idle)
            }
        },
        (Phase::Stopping(_), Report::Done) => (round(w.tick, c), c),
        _ => (w, c),
    }
}

impl Watcher {
    fn begin_round(&mut self, ctrl: &Control)
        ensures
            *final(self) == round(old(self).tick, ctrl@),
    {
        if ctrl.quit {
            self.phase = Phase::Exited;
        } else if ctrl.suspended {
            self.tick = self.tick.wrapping_add(1);
            if self.tick % PROBE_EVERY == 0 {
                self.phase = Phase::ProbingSuspended;
            } else {
                self.phase = Phase::Pausing(SUSPENDED_PAUSE);
            }
        } else {
            self.phase = Phase::Probing;
        }
    }

    /// A watcher at the beginning of its first round.
    pub fn new(ctrl: &Control) -> (w: Self)
        ensures
            w == round(0, ctrl@),
    {
        let mut w = Watcher { phase: Phase::Probing, tick: 0 };
        w.begin_round(ctrl);
        w
    }

    /// Takes a report. The phase then says what to do next.
    pub fn report(&mut self, ctrl: &mut Control, report: Report)
        ensures
            (*final(self), final(ctrl)@) == reported(*old(self), old(ctrl)@, report),
    {
        match (self.phase, report) {
            (Phase::Pausing(_), Report::Done) => self.begin_round(ctrl),
            (Phase::ProbingSuspended, Report::Found(found)) => {
                if found.is_none() {
                    ctrl.suspended = false;
                }
                self.phase = Phase::Pausing(SUSPENDED_PAUSE);
            },
            (Phase::Probing, Report::Found(found)) => match found {
                Some(ip) => self.phase = Phase::Starting(ip),
                None => self.phase = Phase::Pausing(ABSENT_PAUSE),
            },
            (Phase::Starting(ip), Report::Started(started)) => match started {
                Ok(_) => {
                    ctrl.streaming = true;
                    self.phase = Phase::Streaming(ip);
                },
                Err(_) => self.begin_round(ctrl),
            },
            (Phase::Streaming(ip), Report::Ended(end)) => {
                ctrl.streaming = false;
                match end {
                    SessionEnd::Disconnected => self.begin_round(ctrl),
                    _ => self.phase = Phase::Stopping(ip),
                }
            },
            (Phase::Stopping(_), Report::Done) => self.begin_round(ctrl),
            _ => {},
        }
    }
}

// ---------------------------------------------------------------------------
// What holds of every watcher
// ---------------------------------------------------------------------------

/// The report is one that the phase waits for.
pub open spec fn answers(phase: Phase, report: Report) -> bool {
    match phase {
        Phase::Pausing(_) => report is Done,
        Phase::ProbingSuspended => report is Found,
        Phase::Probing => report is Found,
        Phase::Starting(_) => report is Started,
        Phase::Streaming(_) => report is Ended,
        Phase::Stopping(_) => report is Done,
        Phase::Exited => false,
    }
}

/// The watcher ends when the program quits, and only then.
pub proof fn law_only_quitting_ends(w: Watcher, c: ControlModel, report: Report)
    requires
        !(w.phase is Exited),
        reported(w, c, report).0.phase is Exited,
    ensures
        c.quit,
{
}

/// How many reports a program that quits waits for at the most.
pub open spec fn reports_left(phase: Phase) -> nat {
    match phase {
        Phase::Exited => 0,
        Phase::Pausing(_) => 1,
        Phase::Stopping(_) => 1,
        Phase::ProbingSuspended => 2,
        Phase::Streaming(_) => 2,
        Phase::Starting(_) => 3,
        Phase::Probing => 4,
    }
}

/// A program that quits comes to its end: every report that the phase waits for
/// brings it nearer.
pub proof fn law_quitting_ends_soon(w: Watcher, c: ControlModel, report: Report)
    requires
        c.quit,
        answers(w.phase, report),
    ensures
        reports_left(reported(w, c, report).0.phase) < reports_left(w.phase),
        reported(w, c, report).1.quit,
{
}

/// The program counts as streaming exactly while a session streams.
pub proof fn law_streaming_is_told(w: Watcher, c: ControlModel, report: Report)
    requires
        c.streaming == (w.phase is Streaming),
    ensures
        reported(w, c, report).1.streaming == (reported(w, c, report).0.phase is Streaming),
{
}

/// The watcher resumes a suspended program only when it has found the camera
/// unplugged, and never suspends one by itself; what else the tray asks for it
/// leaves alone.
pub proof fn law_resumes_only_once_unplugged(w: Watcher, c: ControlModel, report: Report)
    ensures
        reported(w, c, report).1.suspended != c.suspended ==> c.suspended && w.phase
            is ProbingSuspended && report == Report::Found(None),
        reported(w, c, report).1 == (ControlModel {
            suspended: reported(w, c, report).1.suspended,
            streaming: reported(w, c, report).1.streaming,
            ..c
        }),
{
}

/// A program that is suspended starts no session: from the beginning of a round it
/// does not come to look for a camera to stream from.
pub proof fn law_suspended_rounds_do_not_stream(tick: u32, c: ControlModel)
    requires
        c.suspended,
    ensures
        round(tick, c).phase is Pausing || round(tick, c).phase is ProbingSuspended || round(
            tick,
            c,
        ).phase is Exited,
{
}

/// A camera that streamed is turned off unless it is gone: a session that ends
/// otherwise is followed by a stop of that very camera.
pub proof fn law_cameras_are_turned_off(
    w: Watcher,
    c: ControlModel,
    ip: Address,
    end: SessionEnd,
)
    requires
        w.phase == Phase::Streaming(ip),
    ensures
        end != SessionEnd::Disconnected <==> reported(w, c, Report::Ended(end)).0.phase
            == Phase::Stopping(ip),
{
}

/// Of rounds that find the program suspended, exactly one in so many probes, and the
/// wrap of the counter does not disturb that.
pub proof fn law_one_round_in_four_probes(tick: u32, c: ControlModel)
    requires
        c.suspended,
        !c.quit,
    ensures
        round(tick, c).phase is ProbingSuspended <==> (tick + 1) % PROBE_EVERY as int == 0,
        round(tick, c).tick % PROBE_EVERY == (tick + 1) % PROBE_EVERY as int,
{
}

/// The watcher, and the shared state, after some reports.
pub open spec fn after_reports(
    w: Watcher,
    c: ControlModel,
    reports: Seq<Report>,
) -> (Watcher, ControlModel)
    decreases reports.len(),
{
    if reports.len() == 0 {
        (w, c)
    } else {
        let (v, d) = after_reports(w, c, reports.drop_last());
        reported(v, d, reports.last())
    }
}

/// Unplugging and plugging in again resumes: once a suspended program has found the
/// camera gone, it streams as soon as the camera is found again and starts.
pub proof fn law_replugging_resumes(w: Watcher, c: ControlModel, ip: Address)
    requires
        w.phase is ProbingSuspended,
        !c.quit,
    ensures
        ({
            let (v, d) = after_reports(
                w,
                c,
                seq![
                    Report::Found(None),
                    Report::Done,
                    Report::Found(Some(ip)),
                    Report::Started(Ok(())),
                ],
            );
            v.phase == Phase::Streaming(ip) && d == (ControlModel {
                suspended: false,
                streaming: true,
                ..c
            })
        }),
{
    let reports = seq![
        Report::Found(None),
        Report::Done,
        Report::Found(Some(ip)),
        Report::Started(Ok(())),
    ];
    assert(reports.drop_last() =~= seq![
        Report::Found(None),
        Report::Done,
        Report::Found(Some(ip)),
    ]);
    assert(reports.drop_last().drop_last() =~= seq![Report::Found(None), Report::Done]);
    assert(reports.drop_last().drop_last().drop_last() =~= seq![Report::Found(None)]);
    assert(seq![Report::Found(None)].drop_last() =~= Seq::empty());
    reveal_with_fuel(after_reports, 5);
}

/// Plugging the camera in starts the stream, and unplugging it goes back to waiting:
/// nothing else has to be done.
pub proof fn law_plugging_in_streams(w: Watcher, c: ControlModel, ip: Address)
    requires
        w.phase is Probing,
        !c.quit,
        !c.suspended,
    ensures
        ({
            let found = reported(w, c, Report::Found(Some(ip)));
            let on = reported(found.0, found.1, Report::Started(Ok(())));
            let off = reported(on.0, on.1, Report::Ended(SessionEnd::Disconnected));
            &&& found.0.phase == Phase::Starting(ip)
            &&& on.0.phase == Phase::Streaming(ip)
            &&& on.1.streaming
            &&& off.0.phase is Probing
            &&& !off.1.streaming
        }),
{
}

/// Resuming in the menu takes effect at once: the next round looks for the camera.
pub proof fn law_resuming_looks_at_once(tick: u32, c: ControlModel, autostart: bool)
    requires
        !c.quit,
    ensures
        round(
            tick,
            crate::menu::chosen(crate::menu::Entry::Resume, c, autostart).0,
        ).phase is Probing,
        round(
            tick,
            crate::menu::commanded(
                crate::menu::command_id(crate::menu::Entry::Resume),
                c,
                autostart,
            ).0,
        ).phase is Probing,
{
}

/// Quitting in the menu ends the watcher at its next round.
pub proof fn law_quitting_in_the_menu_ends(tick: u32, c: ControlModel, autostart: bool)
    ensures
        round(
            tick,
            crate::menu::chosen(crate::menu::Entry::Quit, c, autostart).0,
        ).phase is Exited,
        round(
            tick,
            crate::menu::commanded(
                crate::menu::command_id(crate::menu::Entry::Quit),
                c,
                autostart,
            ).0,
        ).phase is Exited,
{
}

/// A suspended program stays suspended as long as the camera is found.
pub proof fn law_suspended_while_plugged_in(w: Watcher, c: ControlModel, reports: Seq<Report>)
    requires
        c.suspended,
        w.phase is Pausing || w.phase is ProbingSuspended,
        forall|i: int| 0 <= i < reports.len() ==> #[trigger] reports[i] != Report::Found(None),
    ensures
        after_reports(w, c, reports).1 == c,
        ({
            let phase = after_reports(w, c, reports).0.phase;
            phase is Pausing || phase is ProbingSuspended || phase is Exited
        }),
    decreases reports.len(),
{
    if reports.len() > 0 {
        let front = reports.drop_last();
        assert forall|i: int| 0 <= i < front.len() implies #[trigger] front[i] != Report::Found(
            None,
        ) by {
            assert(front[i] == reports[i]);
        }
        law_suspended_while_plugged_in(w, c, front);
        assert(reports[reports.len() - 1] != Report::Found(None));
    }
}

} // verus!
