//! The preview window's picture: converted once for each frame, drawn as often as
//! the window asks.

use crate::control::Control;
use crate::control::ControlModel;
use crate::mf_decode::FrameModel;
use crate::nv12::nv12_to_bgra_into;
use vstd::prelude::*;

verus! {

/// The picture that was converted last. Repaints without a new frame reuse it,
/// instead of copying and converting the frame again, which would otherwise go on
/// for ever when the stream stalls.
pub struct PaintCache {
    pub seq: u64,
    pub w: u32,
    pub h: u32,
    pub y: Vec<u8>,
    pub uv: Vec<u8>,
    pub bgra: Vec<u8>,
}

/// What a `PaintCache` holds.
pub struct CacheModel {
    pub seq: u64,
    pub frame: FrameModel,
    pub bgra: Seq<u8>,
}

impl View for PaintCache {
    type V = CacheModel;

    open spec fn view(&self) -> CacheModel {
        CacheModel {
            seq: self.seq,
            frame: FrameModel { width: self.w, height: self.h, y: self.y@, uv: self.uv@ },
            bgra: self.bgra@,
        }
    }
}

/// What an optional cache holds.
pub open spec fn cache_model(cache: Option<PaintCache>) -> Option<CacheModel> {
    match cache {
        Some(c) => Some(c@),
        None => None,
    }
}

/// The frame's planes are as large as its picture needs.
pub open spec fn paintable(f: FrameModel) -> bool {
    crate::nv12::nv12_fits(f.width as int, f.height as int, f.y, f.uv)
}

/// There is a frame that the cache does not show.
pub open spec fn has_news(cache: Option<CacheModel>, c: ControlModel) -> bool {
    &&& !(cache is Some && cache->0.seq == c.preview_seq)
    &&& c.preview is Some
}

/// The cache once the new frame was copied into it: the picture is still the one before.
pub open spec fn copied(cache: Option<CacheModel>, c: ControlModel) -> CacheModel {
    CacheModel {
        seq: c.preview_seq,
        frame: c.preview->0,
        bgra: match cache {
            Some(old_cache) => old_cache.bgra,
            None => Seq::empty(),
        },
    }
}

/// The cache once its frame was converted.
pub open spec fn converted(cache: CacheModel) -> CacheModel {
    let f = cache.frame;
    CacheModel {
        bgra: crate::nv12::bgra_image(
            cache.bgra,
            f.width as int,
            f.height as int,
            f.y,
            f.uv,
        ),
        ..cache
    }
}

/// The cache after a paint: converted anew if there is a new frame, else as it was.
pub open spec fn refreshed(cache: Option<CacheModel>, c: ControlModel) -> Option<CacheModel> {
    if has_news(cache, c) {
        Some(converted(copied(cache, c)))
    } else {
        cache
    }
}

/// The dimensions of the bitmap to draw, if there is a picture: the width, and the height
/// negated, for rows from top to bottom.
pub open spec fn bitmap_size(cache: Option<CacheModel>) -> Option<(i32, i32)> {
    match cache {
        Some(c) if c.bgra.len() > 0 => Some(
            (c.frame.width as i32, (-(c.frame.height as i32)) as i32),
        ),
        _ => None,
    }
}

/// Tests whether planes of these sizes are as large as the picture needs.
fn planes_suffice(width: u32, height: u32, y: &Vec<u8>, uv: &Vec<u8>) -> (b: bool)
    ensures
        b == crate::nv12::nv12_fits(width as int, height as int, y@, uv@),
{
    let w: u128 = width as u128;
    let h: u128 = height as u128;
    assert(0 <= w * h <= 0xFFFF_FFFE_0000_0001 && 0 <= (h + 1) / 2 * w <= 0x8000_0000
        * 0xFFFF_FFFF) by (nonlinear_arith)
        requires
            0 <= w <= 0xFFFF_FFFF,
            0 <= h <= 0xFFFF_FFFF,
    ;
    w * h * 4 <= usize::MAX as u128 && w * h <= y.len() as u128 && (h + 1) / 2 * w
        <= uv.len() as u128
}

impl PaintCache {
    /// Tests whether the frame of the preview window, if there is one, can be painted.
    pub fn can_paint(ctrl: &Control) -> (b: bool)
        ensures
            b == (ctrl@.preview is Some ==> paintable(ctrl@.preview->0)),
    {
        match &ctrl.preview {
            Some(f) => planes_suffice(f.width, f.height, &f.y, &f.uv),
            None => true,
        }
    }

    /// Tests whether the frame that was copied can be converted.
    pub fn can_convert(&self) -> (b: bool)
        ensures
            b == paintable(self@.frame),
    {
        planes_suffice(self.w, self.h, &self.y, &self.uv)
    }

    /// Copies the frame of the preview window if it is a new one, and tells whether it
    /// was. This is all that needs the shared state; converting can follow without it.
    pub fn copy_frame(cache: &mut Option<PaintCache>, ctrl: &Control) -> (new: bool)
        ensures
            new == has_news(cache_model(*old(cache)), ctrl@),
            cache_model(*final(cache)) == if new {
                Some(copied(cache_model(*old(cache)), ctrl@))
            } else {
                cache_model(*old(cache))
            },
    {
        let known = match cache {
            Some(c) => c.seq == ctrl.preview_seq,
            None => false,
        };
        if known {
            return false;
        }
        match &ctrl.preview {
            Some(f) => {
                let mut c = match cache.take() {
                    Some(c) => c,
                    None => PaintCache {
                        seq: 0,
                        w: 0,
                        h: 0,
                        y: Vec::new(),
                        uv: Vec::new(),
                        bgra: Vec::new(),
                    },
                };
                c.seq = ctrl.preview_seq;
                c.w = f.width;
                c.h = f.height;
                c.y.clear();
                c.y.extend_from_slice(f.y.as_slice());
                c.uv.clear();
                c.uv.extend_from_slice(f.uv.as_slice());
                assert(c.y@ =~= f.y@);
                assert(c.uv@ =~= f.uv@);
                assert(c@.bgra =~= copied(cache_model(*old(cache)), ctrl@).bgra);
                *cache = Some(c);
                true
            },
            None => false,
        }
    }

    /// Converts the frame that was copied.
    pub fn convert(&mut self)
        requires
            paintable(old(self)@.frame),
        ensures
            final(self)@ == converted(old(self)@),
    {
        nv12_to_bgra_into(
            &mut self.bgra,
            self.w as usize,
            self.h as usize,
            self.y.as_slice(),
            self.uv.as_slice(),
        );
    }

    /// Brings the cache up to date before a paint: copies and converts the frame of the
    /// preview window if it is a new one.
    pub fn refresh(cache: &mut Option<PaintCache>, ctrl: &Control)
        requires
            has_news(cache_model(*old(cache)), ctrl@) ==> paintable(ctrl@.preview->0),
        ensures
            cache_model(*final(cache)) == refreshed(cache_model(*old(cache)), ctrl@),
    {
        if PaintCache::copy_frame(cache, ctrl) {
            if let Some(mut c) = cache.take() {
                c.convert();
                *cache = Some(c);
            }
        }
    }

    /// The dimensions of the bitmap to draw, if there is a picture: the width, and the
    /// height negated, for rows from top to bottom.
    pub fn bitmap(cache: &Option<PaintCache>) -> (size: Option<(i32, i32)>)
        requires
            *cache is Some && (*cache)->0.bgra@.len() > 0 ==> (*cache)->0.h != 0x8000_0000,
        ensures
            size == bitmap_size(cache_model(*cache)),
    {
        match cache {
            Some(c) => {
                if c.bgra.is_empty() {
                    None
                } else {
                    #[verifier::truncate]
                    let w: i32 = c.w as i32;
                    #[verifier::truncate]
                    let h: i32 = c.h as i32;
                    let n: u32 = c.h;
                    assert(n != 0x8000_0000u32 ==> n as i32 != -0x8000_0000i32) by (bit_vector);
                    Some((w, -h))
                }
            },
            None => None,
        }
    }
}

/// A repaint without a new frame changes nothing.
pub proof fn law_repaint_is_free(cache: Option<CacheModel>, c: ControlModel)
    ensures
        refreshed(refreshed(cache, c), c) == refreshed(cache, c),
{
}

/// The cache never shows another frame under the number of the present one.
pub open spec fn in_step(cache: Option<CacheModel>, c: ControlModel) -> bool {
    cache matches Some(shown) ==> {
        &&& shown.seq <= c.preview_seq
        &&& shown.seq == c.preview_seq && c.preview is Some ==> shown.frame == c.preview->0
    }
}

/// The cache stays in step when a frame is kept, when the window is painted, and when it
/// closes and the cache is dropped; only the wrap of the number, after the greatest one,
/// is not covered.
pub proof fn law_the_cache_stays_in_step(
    cache: Option<CacheModel>,
    c: ControlModel,
    frame: FrameModel,
)
    requires
        in_step(cache, c),
        c.preview_seq < u64::MAX,
    ensures
        in_step(cache, crate::control::with_frame(c, frame)),
        in_step(refreshed(cache, c), c),
        in_step(None, ControlModel { preview_on: false, preview: None, ..c }),
{
}

/// What is painted is never older than the frame of the preview window.
pub proof fn law_painted_frame_is_the_latest(cache: Option<CacheModel>, c: ControlModel)
    requires
        c.preview is Some,
        cache is Some && cache->0.seq == c.preview_seq ==> cache->0.frame == c.preview->0,
    ensures
        refreshed(cache, c) is Some,
        refreshed(cache, c)->0.frame == c.preview->0,
        refreshed(cache, c)->0.seq == c.preview_seq,
{
}

/// The picture is that of its frame alone, whatever was painted before.
pub proof fn law_the_picture_shows_the_frame(cache: Option<CacheModel>, c: ControlModel)
    requires
        has_news(cache, c),
        c.preview->0.width % 2 == 0,
    ensures
        ({
            let f = c.preview->0;
            refreshed(cache, c)->0.bgra == crate::nv12::bgra_image(
                Seq::empty(),
                f.width as int,
                f.height as int,
                f.y,
                f.uv,
            )
        }),
{
    let f = c.preview->0;
    let stale = match cache {
        Some(old_cache) => old_cache.bgra,
        None => Seq::empty(),
    };
    crate::nv12::law_even_images_hold_nothing_stale(
        stale,
        Seq::empty(),
        f.width as int,
        f.height as int,
        f.y,
        f.uv,
    );
}

} // verus!
