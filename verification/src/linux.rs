//! The streaming loop on Linux: the camera's stream goes through an ffmpeg process into
//! a v4l2loopback device.
//!
//! The phase says what the program has to do; it does it and reports what came of it.
//! A report that does not answer the phase leaves everything as it is.

use crate::control::Control;
use crate::control::ControlModel;
use crate::http::Address;
use crate::text::append_decimal;
use vstd::prelude::*;
use vstd::string::StringExecFns;

verus! {

/// The pause, in milliseconds, between two looks at a suspended program, and behind a
/// session.
pub const SHORT_PAUSE: u64 = 500;

/// The pause, in milliseconds, before a camera that is not there, or does not start, is
/// looked for again.
pub const LONG_PAUSE: u64 = 2000;

/// The pause, in milliseconds, between two looks at the ffmpeg process.
pub const CHILD_PAUSE: u64 = 300;

// ---------------------------------------------------------------------------
// The loop
// ---------------------------------------------------------------------------

/// What to do.
#[derive(Clone, Copy, Debug, PartialEq, Eq, Structural)]
pub enum LoopPhase {
    /// Sleep, so many milliseconds.
    Pausing(u64),
    /// Look for the camera, to learn whether it was unplugged while suspended.
    ProbingSuspended,
    /// Look for the camera.
    Probing,
    /// Start the webcam stream.
    Starting(Address),
    /// Launch ffmpeg.
    Spawning(Address),
    /// See whether ffmpeg still runs.
    Checking(Address),
    /// Sleep for `CHILD_PAUSE` while ffmpeg runs.
    Letting(Address),
    /// Kill ffmpeg and wait for its end.
    Killing(Address),
    /// End the webcam stream.
    Stopping(Address),
    /// Nothing: the loop is over.
    Exited,
}

/// What came of it.
pub enum LoopReport {
    /// A pause, a kill or a stop is over.
    Done,
    /// The camera was found here, or nowhere.
    Found(Option<Address>),
    /// The stream was started, or not.
    Started(Result<(), String>),
    /// ffmpeg was launched, or not.
    Spawned(bool),
    /// ffmpeg runs. If it has exited, or nothing can be learned of it, it does not.
    Runs(bool),
}

/// The streaming loop.
pub struct StreamLoop {
    pub phase: LoopPhase,
}

/// The loop at the beginning of a round.
pub open spec fn loop_round(c: ControlModel) -> LoopPhase {
    if c.quit {
        LoopPhase::Exited
    } else if c.suspended {
        LoopPhase::ProbingSuspended
    } else {
        LoopPhase::Probing
    }
}

/// The loop while ffmpeg runs: it is watched until the program quits or is suspended.
pub open spec fn loop_watching(c: ControlModel, ip: Address) -> LoopPhase {
    if !c.quit && !c.suspended {
        LoopPhase::Checking(ip)
    } else {
        LoopPhase::Killing(ip)
    }
}

/// The phase, and the shared state, after a report.
pub open spec fn loop_reported(phase: LoopPhase, c: ControlModel, report: LoopReport) -> (
    LoopPhase,
    ControlModel,
) {
    match (phase, report) {
        (LoopPhase::Pausing(_), LoopReport::Done) => (loop_round(c), c),
        (LoopPhase::ProbingSuspended, LoopReport::Found(found)) => (
            LoopPhase::Pausing(SHORT_PAUSE),
            if found is None {
                ControlModel { suspended: false, ..c }
            } else {
                c
            },
        ),
        (LoopPhase::Probing, LoopReport::Found(found)) => (
            match found {
                Some(ip) => LoopPhase::Starting(ip),
                None => LoopPhase::Pausing(LONG_PAUSE),
            },
            c,
        ),
        (LoopPhase::Starting(ip), LoopReport::Started(started)) => if started is Ok {
            (LoopPhase::Spawning(ip), ControlModel { streaming: true, ..c })
        } else {
            (LoopPhase::Pausing(LONG_PAUSE), c)
        },
        (LoopPhase::Spawning(ip), LoopReport::Spawned(spawned)) => if spawned {
            (loop_watching(c, ip), c)
        } else {
            (LoopPhase::Stopping(ip), ControlModel { streaming: false, ..c })
        },
        (LoopPhase::Checking(ip), LoopReport::Runs(runs)) => (
            if runs {
                LoopPhase::Letting(ip)
            } else {
                LoopPhase::Killing(ip)
            },
            c,
        ),
        (LoopPhase::Letting(ip), LoopReport::Done) => (loop_watching(c, ip), c),
        (LoopPhase::Killing(ip), LoopReport::Done) => (
            LoopPhase::Stopping(ip),
            ControlModel { streaming: false, ..c },
        ),
        (LoopPhase::Stopping(_), LoopReport::Done) => (
            if c.quit {
                LoopPhase::Exited
            } else {
                LoopPhase::Pausing(SHORT_PAUSE)
            },
            c,
        ),
        _ => (phase, c),
    }
}

impl StreamLoop {
    fn round(ctrl: &Control) -> (phase: LoopPhase)
        ensures
            phase == loop_round(ctrl@),
    {
        if ctrl.quit {
            LoopPhase::Exited
        } else if ctrl.suspended {
            LoopPhase::ProbingSuspended
        } else {
            LoopPhase::Probing
        }
    }

    fn watching(ctrl: &Control, ip: Address) -> (phase: LoopPhase)
        ensures
            phase == loop_watching(ctrl@, ip),
    {
        if !ctrl.quit && !ctrl.suspended {
            LoopPhase::Checking(ip)
        } else {
            LoopPhase::Killing(ip)
        }
    }

    /// A loop at the beginning of its first round.
    pub fn new(ctrl: &Control) -> (l: Self)
        ensures
            l.phase == loop_round(ctrl@),
    {
        StreamLoop { phase: StreamLoop::round(ctrl) }
    }

    /// Takes a report. The phase then says what to do next.
    pub fn report(&mut self, ctrl: &mut Control, report: LoopReport)
        ensures
            (final(self).phase, final(ctrl)@) == loop_reported(
                old(self).phase,
                old(ctrl)@,
                report,
            ),
    {
        match (self.phase, report) {
            (LoopPhase::Pausing(_), LoopReport::Done) => {
                self.phase = StreamLoop::round(ctrl);
            },
            (LoopPhase::ProbingSuspended, LoopReport::Found(found)) => {
                if found.is_none() {
                    ctrl.suspended = false;
                }
                self.phase = LoopPhase::Pausing(SHORT_PAUSE);
            },
            (LoopPhase::Probing, LoopReport::Found(found)) => match found {
                Some(ip) => self.phase = LoopPhase::Starting(ip),
                None => self.phase = LoopPhase::Pausing(LONG_PAUSE),
            },
            (LoopPhase::Starting(ip), LoopReport::Started(started)) => match started {
                Ok(_) => {
                    ctrl.streaming = true;
                    self.phase = LoopPhase::Spawning(ip);
                },
                Err(_) => self.phase = LoopPhase::Pausing(LONG_PAUSE),
            },
            (LoopPhase::Spawning(ip), LoopReport::Spawned(spawned)) => {
                if spawned {
                    self.phase = StreamLoop::watching(ctrl, ip);
                } else {
                    ctrl.streaming = false;
                    self.phase = LoopPhase::Stopping(ip);
                }
            },
            (LoopPhase::Checking(ip), LoopReport::Runs(runs)) => {
                if runs {
                    self.phase = LoopPhase::Letting(ip);
                } else {
                    self.phase = LoopPhase::Killing(ip);
                }
            },
            (LoopPhase::Letting(ip), LoopReport::Done) => {
                self.phase = StreamLoop::watching(ctrl, ip);
            },
            (LoopPhase::Killing(ip), LoopReport::Done) => {
                ctrl.streaming = false;
                self.phase = LoopPhase::Stopping(ip);
            },
            (LoopPhase::Stopping(_), LoopReport::Done) => {
                if ctrl.quit {
                    self.phase = LoopPhase::Exited;
                } else {
                    self.phase = LoopPhase::Pausing(SHORT_PAUSE);
                }
            },
            _ => {},
        }
    }
}

// ---------------------------------------------------------------------------
// What holds of every loop
// ---------------------------------------------------------------------------

/// The report is one that the phase waits for.
pub open spec fn loop_answers(phase: LoopPhase, report: LoopReport) -> bool {
    match phase {
        LoopPhase::Pausing(_) => report is Done,
        LoopPhase::ProbingSuspended => report is Found,
        LoopPhase::Probing => report is Found,
        LoopPhase::Starting(_) => report is Started,
        LoopPhase::Spawning(_) => report is Spawned,
        LoopPhase::Checking(_) => report is Runs,
        LoopPhase::Letting(_) => report is Done,
        LoopPhase::Killing(_) => report is Done,
        LoopPhase::Stopping(_) => report is Done,
        LoopPhase::Exited => false,
    }
}

/// The loop ends when the program quits, and only then.
pub proof fn law_only_quitting_ends_the_loop(phase: LoopPhase, c: ControlModel, report: LoopReport)
    requires
        !(phase is Exited),
        loop_reported(phase, c, report).0 is Exited,
    ensures
        c.quit,
{
}

/// How many reports a program that quits waits for at the most.
pub open spec fn loop_reports_left(phase: LoopPhase) -> nat {
    match phase {
        LoopPhase::Exited => 0,
        LoopPhase::Pausing(_) => 1,
        LoopPhase::Stopping(_) => 1,
        LoopPhase::ProbingSuspended => 2,
        LoopPhase::Killing(_) => 2,
        LoopPhase::Letting(_) => 3,
        LoopPhase::Checking(_) => 4,
        LoopPhase::Spawning(_) => 5,
        LoopPhase::Starting(_) => 6,
        LoopPhase::Probing => 7,
    }
}

/// A program that quits comes to its end: every report that the phase waits for
/// brings it nearer.
pub proof fn law_quitting_ends_the_loop_soon(phase: LoopPhase, c: ControlModel, report: LoopReport)
    requires
        c.quit,
        loop_answers(phase, report),
    ensures
        loop_reports_left(loop_reported(phase, c, report).0) < loop_reports_left(phase),
        loop_reported(phase, c, report).1.quit,
{
}

/// An ffmpeg process may be there, or is being launched.
pub open spec fn has_session(phase: LoopPhase) -> bool {
    phase is Spawning || phase is Checking || phase is Letting || phase is Killing
}

/// The program counts as streaming exactly from the start of the camera to the end of
/// ffmpeg.
pub proof fn law_the_loop_tells_streaming(phase: LoopPhase, c: ControlModel, report: LoopReport)
    requires
        c.streaming == has_session(phase),
    ensures
        loop_reported(phase, c, report).1.streaming == has_session(
            loop_reported(phase, c, report).0,
        ),
{
}

/// The camera that was started and not yet stopped.
pub open spec fn started_camera(phase: LoopPhase) -> Option<Address> {
    match phase {
        LoopPhase::Spawning(ip) => Some(ip),
        LoopPhase::Checking(ip) => Some(ip),
        LoopPhase::Letting(ip) => Some(ip),
        LoopPhase::Killing(ip) => Some(ip),
        LoopPhase::Stopping(ip) => Some(ip),
        _ => None,
    }
}

/// Every camera that was started is stopped: the loop keeps its address until the
/// stop of that very camera is over.
pub proof fn law_started_cameras_are_stopped(phase: LoopPhase, c: ControlModel, report: LoopReport)
    requires
        started_camera(phase) is Some,
    ensures
        started_camera(loop_reported(phase, c, report).0) == started_camera(phase) || (
        phase is Stopping && report is Done),
{
}

/// No ffmpeg process is left behind: once one was launched, a session is left by
/// killing it and waiting for its end.
pub proof fn law_ffmpeg_is_killed(phase: LoopPhase, c: ControlModel, report: LoopReport)
    requires
        phase is Checking || phase is Letting || phase is Killing || (phase is Spawning && report
            == LoopReport::Spawned(true)),
        !has_session(loop_reported(phase, c, report).0),
    ensures
        phase is Killing,
        report is Done,
{
}

/// The loop resumes a suspended program only when it has found the camera unplugged,
/// and never suspends one by itself; what else the tray asks for it leaves alone.
pub proof fn law_the_loop_resumes_only_once_unplugged(
    phase: LoopPhase,
    c: ControlModel,
    report: LoopReport,
)
    ensures
        loop_reported(phase, c, report).1.suspended != c.suspended ==> c.suspended
            && phase is ProbingSuspended && report == LoopReport::Found(None),
        loop_reported(phase, c, report).1 == (ControlModel {
            suspended: loop_reported(phase, c, report).1.suspended,
            streaming: loop_reported(phase, c, report).1.streaming,
            ..c
        }),
{
}

/// A suspended program ends the session at its next look at ffmpeg, and starts none.
pub proof fn law_suspending_ends_the_session(c: ControlModel, ip: Address)
    requires
        c.suspended,
    ensures
        loop_watching(c, ip) == LoopPhase::Killing(ip),
        !(loop_round(c) is Probing),
{
}

/// The phase, and the shared state, after some reports.
pub open spec fn loop_after(phase: LoopPhase, c: ControlModel, reports: Seq<LoopReport>) -> (
    LoopPhase,
    ControlModel,
)
    decreases reports.len(),
{
    if reports.len() == 0 {
        (phase, c)
    } else {
        let (p, d) = loop_after(phase, c, reports.drop_last());
        loop_reported(p, d, reports.last())
    }
}

/// Unplugging and plugging in again resumes: once a suspended program has found the
/// camera gone, it streams as soon as the camera is found again and starts.
pub proof fn law_replugging_resumes_the_loop(c: ControlModel, ip: Address)
    requires
        !c.quit,
    ensures
        loop_after(
            LoopPhase::ProbingSuspended,
            c,
            seq![
                LoopReport::Found(None),
                LoopReport::Done,
                LoopReport::Found(Some(ip)),
                LoopReport::Started(Ok(())),
                LoopReport::Spawned(true),
            ],
        ) == (LoopPhase::Checking(ip), (ControlModel { suspended: false, streaming: true, ..c })),
{
    let reports = seq![
        LoopReport::Found(None),
        LoopReport::Done,
        LoopReport::Found(Some(ip)),
        LoopReport::Started(Ok(())),
        LoopReport::Spawned(true),
    ];
    let four = reports.drop_last();
    let three = four.drop_last();
    let two = three.drop_last();
    let one = two.drop_last();
    assert(one.drop_last() =~= Seq::empty());
    reveal_with_fuel(loop_after, 6);
}

/// A suspended program stays suspended as long as the camera is found.
pub proof fn law_the_loop_is_suspended_while_plugged_in(
    phase: LoopPhase,
    c: ControlModel,
    reports: Seq<LoopReport>,
)
    requires
        c.suspended,
        phase is Pausing || phase is ProbingSuspended,
        forall|i: int| 0 <= i < reports.len() ==> #[trigger] reports[i] != LoopReport::Found(None),
    ensures
        loop_after(phase, c, reports).1 == c,
        ({
            let p = loop_after(phase, c, reports).0;
            p is Pausing || p is ProbingSuspended || p is Exited
        }),
    decreases reports.len(),
{
    if reports.len() > 0 {
        let front = reports.drop_last();
        assert forall|i: int| 0 <= i < front.len() implies #[trigger] front[i]
            != LoopReport::Found(None) by {
            assert(front[i] == reports[i]);
        }
        law_the_loop_is_suspended_while_plugged_in(phase, c, front);
        assert(reports[reports.len() - 1] != LoopReport::Found(None));
    }
}

// ---------------------------------------------------------------------------
// Processes
// ---------------------------------------------------------------------------

/// Where ffmpeg receives the stream.
pub open spec fn stream_input() -> Seq<char> {
    "udp://0.0.0.0:"@ + crate::text::decimal(crate::session::STREAM_PORT as nat)
        + "?overrun_nonfatal=1&fifo_size=5000000"@
}

/// ffmpeg's arguments: receive the stream, decode it, and write it to the device.
pub open spec fn ffmpeg_command(device: Seq<char>) -> Seq<Seq<char>> {
    seq![
        "-hide_banner"@,
        "-loglevel"@,
        "error"@,
        "-fflags"@,
        "nobuffer"@,
        "-flags"@,
        "low_delay"@,
        "-i"@,
        stream_input(),
        "-pix_fmt"@,
        "yuv420p"@,
        "-f"@,
        "v4l2"@,
        device,
    ]
}

/// ffmpeg's arguments: receive the stream, decode it, and write it to the device.
pub fn ffmpeg_args(device: &str) -> (args: Vec<String>)
    ensures
        crate::text::texts_model(args@) == ffmpeg_command(device@),
{
    let mut input = "udp://0.0.0.0:".to_string();
    append_decimal(&mut input, crate::session::STREAM_PORT as u64);
    input.append("?overrun_nonfatal=1&fifo_size=5000000");
    let mut args: Vec<String> = Vec::new();
    args.push("-hide_banner".to_string());
    args.push("-loglevel".to_string());
    args.push("error".to_string());
    args.push("-fflags".to_string());
    args.push("nobuffer".to_string());
    args.push("-flags".to_string());
    args.push("low_delay".to_string());
    args.push("-i".to_string());
    args.push(input);
    args.push("-pix_fmt".to_string());
    args.push("yuv420p".to_string());
    args.push("-f".to_string());
    args.push("v4l2".to_string());
    args.push(device.to_string());
    assert(crate::text::texts_model(args@) =~= ffmpeg_command(device@));
    args
}

/// ffplay's arguments: show the device in a window.
pub open spec fn ffplay_command(device: Seq<char>) -> Seq<Seq<char>> {
    seq![
        "-hide_banner"@,
        "-loglevel"@,
        "error"@,
        "-window_title"@,
        "GoPro — Aperçu"@,
        device,
    ]
}

/// ffplay's arguments: show the device in a window.
pub fn ffplay_args(device: &str) -> (args: Vec<String>)
    ensures
        crate::text::texts_model(args@) == ffplay_command(device@),
{
    let mut args: Vec<String> = Vec::new();
    args.push("-hide_banner".to_string());
    args.push("-loglevel".to_string());
    args.push("error".to_string());
    args.push("-window_title".to_string());
    args.push("GoPro — Aperçu".to_string());
    args.push(device.to_string());
    assert(crate::text::texts_model(args@) =~= ffplay_command(device@));
    args
}

} // verus!
