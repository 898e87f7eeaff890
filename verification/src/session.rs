//! One streaming session: what the thread that decodes and the thread that publishes
//! do with the frames.
//!
//! The decoding thread puts frames into a short queue; the publishing thread takes
//! them out at a steady rate. Times are in nanoseconds since the session began, unless
//! a name says otherwise.

use crate::control::Control;
use crate::control::ControlModel;
use crate::mf_decode::Frame;
use crate::mf_decode::FrameModel;
use crate::mf_decode::FramePool;
use crate::obs_vcam::Mapping;
use crate::obs_vcam::ObsVirtualCam;
use crate::obs_vcam::Store;
use std::collections::VecDeque;
use vstd::prelude::*;

verus! {

/// The UDP port that the camera streams to.
pub const STREAM_PORT: u16 = 8554;

/// The time between two frames, in units of 100 ns.
pub const INTERVAL_100NS: u64 = 10_000_000 / 30;

/// The time between two turns of the publishing thread: one frame interval.
pub const PERIOD: u128 = 33_333_300;

/// The most frames that wait for publication.
pub const MAX_QUEUE: usize = 3;

/// The camera counts as gone when no frame has come for longer than this.
pub const DISCONNECT_AFTER: u128 = 3_000_000_000;

// ---------------------------------------------------------------------------
// The decoding thread
// ---------------------------------------------------------------------------

/// What a row of frames holds.
pub open spec fn frames_model(frames: Seq<Frame>) -> Seq<FrameModel> {
    frames.map_values(|f: Frame| f@)
}

/// How many of so many waiting frames are too many.
pub open spec fn surplus(n: int) -> int {
    if n > MAX_QUEUE {
        n - MAX_QUEUE
    } else {
        0
    }
}

/// A pool after the buffers of these frames were put into it, one frame behind the other.
pub open spec fn recycled(
    pool: Seq<(Seq<u8>, Seq<u8>)>,
    frames: Seq<FrameModel>,
) -> Seq<(Seq<u8>, Seq<u8>)>
    decreases frames.len(),
{
    if frames.len() == 0 {
        pool
    } else {
        crate::mf_decode::pool_after_put(
            recycled(pool, frames.drop_last()),
            frames.last().y,
            frames.last().uv,
        )
    }
}

/// The time of the next access unit; the greatest time is followed by the least.
pub open spec fn next_unit_time(t: i64) -> int {
    if t + INTERVAL_100NS > i64::MAX {
        t + INTERVAL_100NS - 0x1_0000_0000_0000_0000
    } else {
        t + INTERVAL_100NS
    }
}

/// The decoding thread goes on as long as the session does, unless the program quits or is
/// suspended.
pub open spec fn decoding_goes_on(session: bool, c: ControlModel) -> bool {
    session && !c.quit && !c.suspended
}

/// The queue after the frames of one access unit came: the newest stay.
pub open spec fn queue_after(queue: Seq<Frame>, frames: Seq<Frame>, decoded: bool) -> Seq<Frame> {
    if decoded && frames.len() > 0 {
        (queue + frames).skip(surplus((queue + frames).len() as int))
    } else {
        queue
    }
}

/// The pool after the frames of one access unit came: it holds the buffers of those that
/// had to leave the queue.
pub open spec fn pool_after(
    pool: Seq<(Seq<u8>, Seq<u8>)>,
    queue: Seq<Frame>,
    frames: Seq<Frame>,
    decoded: bool,
) -> Seq<(Seq<u8>, Seq<u8>)> {
    if decoded && frames.len() > 0 {
        recycled(
            pool,
            frames_model(queue + frames).take(surplus((queue + frames).len() as int)),
        )
    } else {
        pool
    }
}

/// Tests whether the decoding thread goes on.
pub fn keeps_decoding(session: bool, ctrl: &Control) -> (b: bool)
    ensures
        b == decoding_goes_on(session, ctrl@),
        b == (session && !ctrl.quit && !ctrl.suspended),
{
    session && !ctrl.quit && !ctrl.suspended
}

/// Tests whether the decoding thread goes on after a failed receive: it does if only the
/// time was up, and ends on any other failure of the socket.
pub fn keeps_receiving(timed_out: bool) -> (b: bool)
    ensures
        b == timed_out,
{
    timed_out
}

/// Puts the frames of one access unit into the queue. If there are too many, the
/// stalest leave it, and their buffers go back to the pool. Frames that came with a
/// decoding error are dropped.
pub fn deliver(
    frames: Vec<Frame>,
    decoded: bool,
    queue: &mut VecDeque<Frame>,
    pool: &mut FramePool,
    au_ts: &mut i64,
)
    ensures
        *final(au_ts) == next_unit_time(*old(au_ts)),
        final(queue)@ == queue_after(old(queue)@, frames@, decoded),
        final(pool)@ == pool_after(old(pool)@, old(queue)@, frames@, decoded),
        !decoded || frames@.len() == 0 ==> {
            &&& final(queue)@ == old(queue)@
            &&& final(pool)@ == old(pool)@
        },
        decoded && frames@.len() > 0 ==> {
            let all = old(queue)@ + frames@;
            let gone = surplus(all.len() as int);
            &&& final(queue)@ == all.skip(gone)
            &&& final(pool)@ == recycled(old(pool)@, frames_model(all).take(gone))
        },
        old(pool).wf() ==> final(pool).wf(),
{
    *au_ts = au_ts.wrapping_add(INTERVAL_100NS as i64);
    if !decoded || frames.len() == 0 {
        return;
    }
    let ghost before = queue@;
    let ghost added = frames@;
    for f in it: frames
        invariant
            it.seq() == added,
            queue@ == before + added.take(it.index() as int),
    {
        queue.push_back(f);
        assert(queue@ =~= before + added.take(it.index() as int + 1));
    }
    assert(added.take(added.len() as int) =~= added);
    let ghost all = before + added;
    let ghost models = frames_model(all);
    let ghost first = pool@;
    let ghost mut gone: int = 0;
    proof {
        assert(all.skip(0) =~= all);
        assert(models.take(0) =~= Seq::empty());
    }
    while queue.len() > MAX_QUEUE
        invariant
            0 <= gone <= surplus(all.len() as int),
            gone <= all.len(),
            models == frames_model(all),
            queue@ == all.skip(gone),
            pool@ == recycled(first, models.take(gone)),
            old(pool).wf() ==> pool.wf(),
        decreases queue@.len(),
    {
        if let Some(f) = queue.pop_front() {
            proof {
                assert(f == all[gone]);
                assert(models.take(gone + 1).drop_last() =~= models.take(gone));
                assert(models.take(gone + 1).last() == f@);
                gone = gone + 1;
                assert(queue@ =~= all.skip(gone));
            }
            pool.put(f.y, f.uv);
        }
    }
}

// ---------------------------------------------------------------------------
// The publishing thread
// ---------------------------------------------------------------------------

/// Why a session ends.
#[derive(Clone, Copy, Debug, PartialEq, Eq, Structural)]
pub enum SessionEnd {
    Disconnected,
    Suspended,
    Quit,
}

/// The state of the publishing thread.
pub struct Consumer {
    /// When the next turn is due.
    pub next: u128,
    /// When the last frame was published.
    pub last_frame: u128,
}

/// What the publishing thread does in its turn.
pub enum Turn {
    /// Publish this frame.
    Publish(Frame),
    /// There is no frame yet.
    Idle,
    /// End the session.
    End(SessionEnd),
}

/// What a turn comes to.
pub enum TurnModel {
    Publish,
    Idle,
    End(SessionEnd),
}

impl Turn {
    /// What the turn comes to.
    pub open spec fn kind(self) -> TurnModel {
        match self {
            Turn::Publish(_) => TurnModel::Publish,
            Turn::Idle => TurnModel::Idle,
            Turn::End(end) => TurnModel::End(end),
        }
    }
}

/// What a turn comes to while so many frames wait, so long after the last one.
pub open spec fn turn_for(c: ControlModel, waiting: int, silence: int) -> TurnModel {
    if c.quit {
        TurnModel::End(SessionEnd::Quit)
    } else if c.suspended {
        TurnModel::End(SessionEnd::Suspended)
    } else if waiting > 0 {
        TurnModel::Publish
    } else if silence > DISCONNECT_AFTER {
        TurnModel::End(SessionEnd::Disconnected)
    } else {
        TurnModel::Idle
    }
}

impl Consumer {
    /// A session that begins now.
    pub fn new(now: u128) -> (c: Self)
        ensures
            c.next == now,
            c.last_frame == now,
    {
        Consumer { next: now, last_frame: now }
    }

    /// Decides what to do: quitting comes before suspending, both before frames; and a
    /// camera that sends none for too long is gone.
    pub fn turn(&self, ctrl: &Control, queue: &mut VecDeque<Frame>, now: u128) -> (t: Turn)
        ensures
            t.kind() == turn_for(ctrl@, old(queue)@.len() as int, now - self.last_frame),
            match t {
                Turn::End(end) => match end {
                    SessionEnd::Quit => ctrl.quit,
                    SessionEnd::Suspended => !ctrl.quit && ctrl.suspended,
                    SessionEnd::Disconnected => !ctrl.quit && !ctrl.suspended && old(queue)@.len()
                        == 0 && now - self.last_frame > DISCONNECT_AFTER,
                },
                Turn::Publish(f) => !ctrl.quit && !ctrl.suspended && old(queue)@.len() > 0 && f
                    == old(queue)@[0],
                Turn::Idle => !ctrl.quit && !ctrl.suspended && old(queue)@.len() == 0 && now
                    - self.last_frame <= DISCONNECT_AFTER,
            },
            final(queue)@ == if t is Publish {
                old(queue)@.skip(1)
            } else {
                old(queue)@
            },
    {
        if ctrl.quit {
            return Turn::End(SessionEnd::Quit);
        }
        if ctrl.suspended {
            return Turn::End(SessionEnd::Suspended);
        }
        match queue.pop_front() {
            Some(f) => {
                assert(queue@ =~= old(queue)@.skip(1));
                Turn::Publish(f)
            },
            None => {
                if now > self.last_frame && now - self.last_frame > DISCONNECT_AFTER {
                    Turn::End(SessionEnd::Disconnected)
                } else {
                    Turn::Idle
                }
            },
        }
    }

    /// A frame was published: its buffers go to the preview window or to the pool.
    pub fn published(&mut self, frame: Frame, ctrl: &mut Control, pool: &mut FramePool, now: u128)
        ensures
            final(self).next == old(self).next,
            final(self).last_frame == now,
            final(ctrl)@ == crate::control::with_frame(old(ctrl)@, frame@),
            final(pool)@ == crate::control::pool_with(
                old(pool)@,
                crate::control::displaced(old(ctrl)@, frame@),
            ),
            old(pool).wf() ==> final(pool).wf(),
    {
        ctrl.keep_frame(frame, pool);
        self.last_frame = now;
    }

    /// How long to sleep before the next turn. A turn that is late is not caught up with.
    pub fn pace(&mut self, now: u128) -> (sleep: u128)
        requires
            old(self).next + PERIOD <= u128::MAX,
        ensures
            (final(self).next as int, sleep as int) == paced(old(self).next as int, now as int),
            final(self).last_frame == old(self).last_frame,
    {
        self.next = self.next + PERIOD;
        if self.next > now {
            self.next - now
        } else {
            self.next = now;
            0
        }
    }
}

/// When the turn behind one that was due at `due` is due, and how long to sleep until
/// then.
pub open spec fn paced(due: int, now: int) -> (int, int) {
    if due + PERIOD > now {
        (due + PERIOD, due + PERIOD - now)
    } else {
        (now, 0)
    }
}

/// When a turn is due after turns that were over at these times.
pub open spec fn due_after(due: int, over: Seq<int>) -> int
    decreases over.len(),
{
    if over.len() == 0 {
        due
    } else {
        paced(due_after(due, over.drop_last()), over.last()).0
    }
}

/// The rate is steady: turns that are over in time follow each other exactly one
/// frame interval apart, however long each of them took.
pub proof fn law_turns_in_time_are_steady(due: int, over: Seq<int>)
    requires
        forall|i: int| 0 <= i < over.len() ==> #[trigger] over[i] < due + (i + 1) * PERIOD,
    ensures
        due_after(due, over) == due + over.len() * PERIOD,
    decreases over.len(),
{
    if over.len() > 0 {
        let front = over.drop_last();
        assert forall|i: int| 0 <= i < front.len() implies #[trigger] front[i] < due + (i + 1)
            * PERIOD by {
            assert(front[i] == over[i]);
        }
        law_turns_in_time_are_steady(due, front);
        let n = over.len() as int;
        assert(over[n - 1] < due + (n - 1 + 1) * PERIOD);
        assert((n - 1) * PERIOD + PERIOD == n * PERIOD) by (nonlinear_arith);
    }
}

/// Whatever happens, the next turn begins when it is due, and no turn is due in the
/// past: a late thread does not rush to catch up.
pub proof fn law_no_turn_is_due_in_the_past(due: int, now: int)
    ensures
        paced(due, now).0 >= now,
        now + paced(due, now).1 == paced(due, now).0,
        paced(due, now).0 >= due + PERIOD,
        due <= now ==> paced(due, now).1 <= PERIOD,
{
}

/// The queue stays short, and what stays in it is the newest, in order: the last
/// frames of all that were in it or came.
pub proof fn law_the_newest_frames_stay(queue: Seq<FrameModel>, came: Seq<FrameModel>)
    ensures
        ({
            let all = queue + came;
            let kept = all.skip(surplus(all.len() as int));
            &&& kept.len() <= MAX_QUEUE
            &&& kept.len() == if all.len() < MAX_QUEUE {
                all.len() as int
            } else {
                MAX_QUEUE as int
            }
            &&& all == all.take(surplus(all.len() as int)) + kept
        }),
{
    let all = queue + came;
    let k = surplus(all.len() as int);
    assert(all =~= all.take(k) + all.skip(k));
}

/// Dropped frames never make the pool outgrow its slots.
pub proof fn law_the_pool_stays_small(pool: Seq<(Seq<u8>, Seq<u8>)>, frames: Seq<FrameModel>)
    requires
        pool.len() <= crate::mf_decode::POOL_CAP,
    ensures
        recycled(pool, frames).len() <= crate::mf_decode::POOL_CAP,
    decreases frames.len(),
{
    if frames.len() > 0 {
        law_the_pool_stays_small(pool, frames.drop_last());
    }
}

// ---------------------------------------------------------------------------
// Publication
// ---------------------------------------------------------------------------

/// The timestamp of the next frame; the greatest timestamps are followed by the least.
pub open spec fn next_timestamp(t: u64) -> int {
    if t + INTERVAL_100NS > u64::MAX {
        t + INTERVAL_100NS - 0x1_0000_0000_0000_0000
    } else {
        t + INTERVAL_100NS
    }
}

/// How many frames a camera has begun: what its header holds, and none if it was just
/// made.
pub open spec fn frames_before(open: bool, write_idx: u32) -> u32 {
    if open {
        write_idx
    } else {
        0
    }
}

/// The frame's planes have the sizes that go with its width and height.
pub open spec fn well_sized(f: FrameModel) -> bool {
    f.y.len() == f.width * f.height && f.uv.len() == f.width * f.height / 2
}

/// The size of the mapping that a frame of this size needs, unless a camera is open.
pub open spec fn mapping_for(open: bool, width: u32, height: u32) -> Option<u32> {
    if open {
        None
    } else {
        Some(crate::obs_vcam::mapping_size(width, height) as u32)
    }
}

/// What publishing one frame stores into the shared memory.
pub struct Publication<'a> {
    /// The header of a virtual camera that was just made, for the beginning of its
    /// memory.
    pub header: Option<Vec<u8>>,
    /// The stores of the frame, to be performed in order behind that.
    pub stores: Vec<Store<'a>>,
}

/// The size of the mapping that has to be made before this frame can be published: the
/// virtual camera is made lazily, with the first frame.
pub fn mapping_needed(cam: &Option<ObsVirtualCam>, f: &Frame) -> (bytes: Option<u32>)
    requires
        cam is None ==> crate::obs_vcam::layout_fits(f.width, f.height),
    ensures
        bytes == mapping_for(cam is Some, f.width, f.height),
{
    match cam {
        Some(_) => None,
        None => Some(ObsVirtualCam::mapping_bytes(f.width, f.height)),
    }
}

/// Publishes one decoded frame. Without a virtual camera one is made first, if the
/// attempt to make its mapping went well; else the frame is passed over. `write_idx` is
/// the frame number that the header of an open camera holds.
pub fn publish_one<'a>(
    cam: &mut Option<ObsVirtualCam>,
    f: &'a Frame,
    mapping: Mapping,
    write_idx: u32,
    timestamp: &mut u64,
    announced: &mut bool,
) -> (p: Publication<'a>)
    requires
        match *old(cam) {
            Some(c) => f.y@.len() == c.luma_size() && f.uv@.len() == c.luma_size() / 2,
            None => crate::obs_vcam::layout_fits(f.width, f.height) && well_sized(f@),
        },
    ensures
        *old(cam) is Some ==> *final(cam) == *old(cam) && p.header is None,
        *old(cam) is None && mapping == Mapping::Mapped ==> {
            &&& *final(cam) is Some
            &&& (*final(cam))->0.is_for(f.width, f.height)
            &&& p.header is Some
            &&& p.header->0@ == crate::obs_vcam::header_bytes(
                crate::obs_vcam::initial_header(f.width, f.height, INTERVAL_100NS),
            )
        },
        *old(cam) is None && mapping != Mapping::Mapped ==> *final(cam) is None
            && p.header is None,
        match *final(cam) {
            Some(c) => {
                &&& crate::obs_vcam::store_list(p.stores@) == crate::obs_vcam::frame_stores(
                    c.slots(),
                    frames_before(*old(cam) is Some, write_idx),
                    f.y@,
                    f.uv@,
                    *old(timestamp),
                )
                &&& crate::obs_vcam::numbers_are_whole(p.stores@)
                &&& *final(timestamp) == next_timestamp(*old(timestamp))
                &&& *final(announced)
            },
            None => {
                &&& p.stores@.len() == 0
                &&& *final(timestamp) == *old(timestamp)
                &&& *final(announced) == *old(announced)
            },
        },
{
    let mut header: Option<Vec<u8>> = None;
    let mut idx: u32 = write_idx;
    if cam.is_none() {
        match ObsVirtualCam::create(f.width, f.height, INTERVAL_100NS, mapping) {
            Ok((c, h)) => {
                *cam = Some(c);
                header = Some(h);
                idx = 0;
            },
            Err(_) => {},
        }
    }
    match cam {
        Some(c) => {
            let stores = c.write_nv12(idx, f.y.as_slice(), f.uv.as_slice(), *timestamp);
            *timestamp = timestamp.wrapping_add(INTERVAL_100NS);
            *announced = true;
            Publication { header, stores }
        },
        None => Publication { header, stores: Vec::new() },
    }
}

} // verus!
