//! The state that the tray and the streaming threads share.

use crate::mf_decode::Frame;
use crate::mf_decode::FrameModel;
use crate::mf_decode::FramePool;
use vstd::prelude::*;

verus! {

/// One decoded frame kept for the preview window, tightly packed NV12.
pub struct PreviewFrame {
    pub width: u32,
    pub height: u32,
    pub y: Vec<u8>,
    pub uv: Vec<u8>,
}

impl View for PreviewFrame {
    type V = FrameModel;

    open spec fn view(&self) -> FrameModel {
        FrameModel { width: self.width, height: self.height, y: self.y@, uv: self.uv@ }
    }
}

/// What the tray and the streaming threads tell each other.
pub struct Control {
    /// Exit the whole process.
    pub quit: bool,
    /// Do not stream; ends once the camera is unplugged, so that it streams again
    /// when it is plugged in, or at once by the tray's resume action.
    pub suspended: bool,
    /// A camera session is streaming.
    pub streaming: bool,
    /// The preview window is open. Only then is a frame kept for it, so that a
    /// closed preview costs nothing.
    pub preview_on: bool,
    /// The latest frame for the preview window.
    pub preview: Option<PreviewFrame>,
    /// Changes whenever a new frame is kept, so that the preview window can skip
    /// converting a frame again.
    pub preview_seq: u64,
}

/// What a `Control` holds.
pub struct ControlModel {
    pub quit: bool,
    pub suspended: bool,
    pub streaming: bool,
    pub preview_on: bool,
    pub preview: Option<FrameModel>,
    pub preview_seq: u64,
}

/// What an optional preview frame holds.
pub open spec fn preview_model(frame: Option<PreviewFrame>) -> Option<FrameModel> {
    match frame {
        Some(f) => Some(f@),
        None => None,
    }
}

impl View for Control {
    type V = ControlModel;

    open spec fn view(&self) -> ControlModel {
        ControlModel {
            quit: self.quit,
            suspended: self.suspended,
            streaming: self.streaming,
            preview_on: self.preview_on,
            preview: preview_model(self.preview),
            preview_seq: self.preview_seq,
        }
    }
}

/// The number behind `n`; the greatest one is followed by zero.
pub open spec fn next_seq(n: u64) -> u64 {
    if n == u64::MAX {
        0
    } else {
        (n + 1) as u64
    }
}

/// The state after a frame was handed to the preview window, which takes it only
/// while it is open.
pub open spec fn with_frame(c: ControlModel, frame: FrameModel) -> ControlModel {
    if c.preview_on {
        ControlModel { preview: Some(frame), preview_seq: next_seq(c.preview_seq), ..c }
    } else {
        c
    }
}

/// The frame whose buffers are free once `frame` was handed to the preview window:
/// the one that it displaces, or itself if the window is closed.
pub open spec fn displaced(c: ControlModel, frame: FrameModel) -> Option<FrameModel> {
    if c.preview_on {
        c.preview
    } else {
        Some(frame)
    }
}

/// The pool once the buffers of this frame, if there is one, were put into it.
pub open spec fn pool_with(
    pool: Seq<(Seq<u8>, Seq<u8>)>,
    frame: Option<FrameModel>,
) -> Seq<(Seq<u8>, Seq<u8>)> {
    match frame {
        Some(f) => crate::mf_decode::pool_after_put(pool, f.y, f.uv),
        None => pool,
    }
}

/// The state of a program that has just started.
pub open spec fn fresh_control() -> ControlModel {
    ControlModel {
        quit: false,
        suspended: false,
        streaming: false,
        preview_on: false,
        preview: None,
        preview_seq: 0,
    }
}

/// The state once the preview window has opened.
pub open spec fn with_preview_open(c: ControlModel) -> ControlModel {
    ControlModel { preview_on: true, ..c }
}

/// The state once the preview window has closed.
pub open spec fn with_preview_closed(c: ControlModel) -> ControlModel {
    ControlModel { preview_on: false, preview: None, ..c }
}

impl Control {
    /// Nothing asked for, nothing streaming, no preview.
    pub fn new() -> (c: Self)
        ensures
            c@ == fresh_control(),
    {
        Control {
            quit: false,
            suspended: false,
            streaming: false,
            preview_on: false,
            preview: None,
            preview_seq: 0,
        }
    }

    /// Hands a published frame to the preview window while it is open, without a copy.
    /// The buffers that become free go back to the pool: those of the frame that it
    /// displaces, or its own if the window is closed.
    pub fn keep_frame(&mut self, frame: Frame, pool: &mut FramePool)
        ensures
            final(self)@ == with_frame(old(self)@, frame@),
            final(pool)@ == pool_with(old(pool)@, displaced(old(self)@, frame@)),
            old(pool).wf() ==> final(pool).wf(),
    {
        let Frame { width, height, y, uv } = frame;
        if self.preview_on {
            self.preview_seq = self.preview_seq.wrapping_add(1);
            let displaced = self.preview.take();
            self.preview = Some(PreviewFrame { width, height, y, uv });
            if let Some(f) = displaced {
                pool.put(f.y, f.uv);
            }
        } else {
            pool.put(y, uv);
        }
    }

    /// The preview window has opened.
    pub fn preview_opened(&mut self)
        ensures
            final(self)@ == with_preview_open(old(self)@),
    {
        self.preview_on = true;
    }

    /// The preview window has closed; its frame is freed.
    pub fn preview_closed(&mut self)
        ensures
            final(self)@ == with_preview_closed(old(self)@),
    {
        self.preview_on = false;
        self.preview = None;
    }
}

/// A closed preview costs nothing: no frame is kept and the state does not change.
pub proof fn law_closed_preview_keeps_nothing(c: ControlModel, frame: FrameModel)
    requires
        !c.preview_on,
    ensures
        with_frame(c, frame) == c,
        displaced(c, frame) == Some(frame),
{
}

/// A frame that is kept is noticed: the sequence number differs from the one before.
pub proof fn law_kept_frame_changes_the_sequence(c: ControlModel, frame: FrameModel)
    requires
        c.preview_on,
    ensures
        with_frame(c, frame).preview == Some(frame),
        with_frame(c, frame).preview_seq != c.preview_seq,
{
}

} // verus!
