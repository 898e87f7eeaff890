//! H.264 to NV12, around a decoder that takes Annex-B access units and gives
//! back frames with a stride: which part of a decoded buffer is visible, how it
//! becomes a tightly packed frame, how frame buffers are recycled, and what to
//! do next when the decoder answers.

use vstd::arithmetic::mul::lemma_mul_inequality;
use vstd::arithmetic::mul::lemma_mul_is_commutative;
use vstd::arithmetic::mul::lemma_mul_nonnegative;
use vstd::prelude::*;

verus! {

// ---------------------------------------------------------------------------
// Frames and their buffers
// ---------------------------------------------------------------------------

/// One decoded frame, tightly packed NV12.
pub struct Frame {
    pub width: u32,
    pub height: u32,
    /// `width * height` bytes.
    pub y: Vec<u8>,
    /// `width * height / 2` bytes, U and V interleaved.
    pub uv: Vec<u8>,
}

/// What a frame holds.
pub struct FrameModel {
    pub width: u32,
    pub height: u32,
    pub y: Seq<u8>,
    pub uv: Seq<u8>,
}

impl View for Frame {
    type V = FrameModel;

    open spec fn view(&self) -> FrameModel {
        FrameModel { width: self.width, height: self.height, y: self.y@, uv: self.uv@ }
    }
}

/// How many buffer pairs the pool keeps: a handful covers the jitter queue and
/// the frames in flight.
pub const POOL_CAP: usize = 6;

/// Recycles the (y, uv) buffers of consumed frames, so that the steady stream
/// reuses buffers instead of allocating fresh ones for every frame.
pub struct FramePool {
    slots: Vec<(Vec<u8>, Vec<u8>)>,
}

impl View for FramePool {
    type V = Seq<(Seq<u8>, Seq<u8>)>;

    closed spec fn view(&self) -> Seq<(Seq<u8>, Seq<u8>)> {
        self.slots@.map_values(|pair: (Vec<u8>, Vec<u8>)| (pair.0@, pair.1@))
    }
}

/// The pool after a pair of buffers was offered to it: a full pool drops them.
pub open spec fn pool_after_put(pool: Seq<(Seq<u8>, Seq<u8>)>, y: Seq<u8>, uv: Seq<u8>) -> Seq<
    (Seq<u8>, Seq<u8>),
> {
    if pool.len() < POOL_CAP {
        pool.push((y, uv))
    } else {
        pool
    }
}

/// The pair of buffers that a pool hands out: the one that came last, or new
/// ones if it has none.
pub open spec fn pool_top(pool: Seq<(Seq<u8>, Seq<u8>)>) -> (Seq<u8>, Seq<u8>) {
    if pool.len() > 0 {
        pool.last()
    } else {
        (Seq::empty(), Seq::empty())
    }
}

/// The pool after a pair of buffers was taken from it.
pub open spec fn pool_after_get(pool: Seq<(Seq<u8>, Seq<u8>)>) -> Seq<(Seq<u8>, Seq<u8>)> {
    if pool.len() > 0 {
        pool.drop_last()
    } else {
        pool
    }
}

impl FramePool {
    /// The pool holds no more pairs than it has slots.
    pub open spec fn wf(&self) -> bool {
        self@.len() <= POOL_CAP
    }

    /// Takes a pair of buffers out; their contents are stale.
    pub fn get(&mut self) -> (pair: (Vec<u8>, Vec<u8>))
        ensures
            (pair.0@, pair.1@) == pool_top(old(self)@),
            final(self)@ == pool_after_get(old(self)@),
            old(self).wf() ==> final(self).wf(),
    {
        let pair = match self.slots.pop() {
            Some(pair) => pair,
            None => (Vec::new(), Vec::new()),
        };
        assert(self@ =~= pool_after_get(old(self)@));
        pair
    }

    /// Hands the buffers of a consumed frame back.
    pub fn put(&mut self, y: Vec<u8>, uv: Vec<u8>)
        ensures
            final(self)@ == pool_after_put(old(self)@, y@, uv@),
            old(self).wf() ==> final(self).wf(),
    {
        if self.slots.len() < POOL_CAP {
            self.slots.push((y, uv));
        }
        assert(self@ =~= pool_after_put(old(self)@, y@, uv@));
    }
}

impl Default for FramePool {
    /// A pool with nothing in it.
    fn default() -> (pool: Self)
        ensures
            pool@ == Seq::<(Seq<u8>, Seq<u8>)>::empty(),
            pool.wf(),
    {
        let pool = FramePool { slots: Vec::new() };
        assert(pool@ =~= Seq::<(Seq<u8>, Seq<u8>)>::empty());
        pool
    }
}

/// What was put last is what the next `get` hands out, unless the pool was full.
pub proof fn law_pool_gives_back_what_was_put(
    pool: Seq<(Seq<u8>, Seq<u8>)>,
    y: Seq<u8>,
    uv: Seq<u8>,
)
    requires
        pool.len() < POOL_CAP,
    ensures
        pool_top(pool_after_put(pool, y, uv)) == (y, uv),
        pool_after_get(pool_after_put(pool, y, uv)) == pool,
{
    assert(pool.push((y, uv)).drop_last() =~= pool);
}

// ---------------------------------------------------------------------------
// Geometry of the decoder's output
// ---------------------------------------------------------------------------

/// The signed 16-bit little-endian number in two bytes.
pub open spec fn signed16(b0: u8, b1: u8) -> int {
    let n = b0 + 256 * b1;
    if n >= 0x8000 {
        n - 0x1_0000
    } else {
        n
    }
}

/// The signed 32-bit little-endian number in four bytes.
pub open spec fn signed32(b0: u8, b1: u8, b2: u8, b3: u8) -> int {
    let n = b0 + 256 * b1 + 0x1_0000 * b2 + 0x100_0000 * b3;
    if n >= 0x8000_0000 {
        n - 0x1_0000_0000
    } else {
        n
    }
}

/// An offset that is not negative and keeps chroma alignment.
pub open spec fn aligned_offset(n: int) -> int {
    if n < 0 {
        0
    } else {
        n - n % 2
    }
}

/// Sizes of a decoded buffer and the visible rectangle in it.
#[derive(Clone, Copy)]
pub struct Geometry {
    /// Coded width.
    pub width: u32,
    /// Coded height.
    pub height: u32,
    /// Bytes from one row to the next.
    pub stride: u32,
    /// Left edge of the visible rectangle.
    pub crop_x: usize,
    /// Upper edge of the visible rectangle.
    pub crop_y: usize,
    /// Width of the visible rectangle.
    pub disp_w: u32,
    /// Height of the visible rectangle.
    pub disp_h: u32,
}

/// The geometry that an output type describes. `size` packs the coded width and
/// height in one number; where it is missing, the sizes stay as they were. The
/// stride defaults to the width. The display aperture, a 16-byte record of an
/// offset and an area, gives the exact visible rectangle (it strips padding such
/// as 1088 rows for 1080); without a usable one, the full coded frame is visible.
pub open spec fn selected(
    g: Geometry,
    size: Option<u64>,
    stride: Option<u32>,
    aperture: Option<[u8; 16]>,
) -> Geometry {
    let width = match size {
        Some(n) => (n / 0x1_0000_0000) as u32,
        None => g.width,
    };
    let height = match size {
        Some(n) => (n % 0x1_0000_0000) as u32,
        None => g.height,
    };
    let full = Geometry {
        width,
        height,
        stride: match stride {
            Some(s) => s,
            None => width,
        },
        crop_x: 0,
        crop_y: 0,
        disp_w: width,
        disp_h: height,
    };
    match aperture {
        None => full,
        Some(a) => {
            let b = a@;
            let cx = signed32(b[8], b[9], b[10], b[11]);
            let cy = signed32(b[12], b[13], b[14], b[15]);
            if cx > 0 && cy > 0 {
                Geometry {
                    crop_x: aligned_offset(signed16(b[2], b[3])) as usize,
                    crop_y: aligned_offset(signed16(b[6], b[7])) as usize,
                    disp_w: cx as u32,
                    disp_h: cy as u32,
                    ..full
                }
            } else {
                full
            }
        },
    }
}

/// The offset in two bytes, clamped to zero and aligned.
fn offset_of(b0: u8, b1: u8) -> (n: usize)
    ensures
        n == aligned_offset(signed16(b0, b1)),
{
    let n: u32 = b0 as u32 + 256 * (b1 as u32);
    if n >= 0x8000 {
        0
    } else {
        (n - n % 2) as usize
    }
}

/// The extent in four bytes, if it is positive.
fn extent_of(b0: u8, b1: u8, b2: u8, b3: u8) -> (n: Option<u32>)
    ensures
        match n {
            Some(n) => n == signed32(b0, b1, b2, b3) && n > 0,
            None => signed32(b0, b1, b2, b3) <= 0,
        },
{
    let n: u64 = b0 as u64 + 256 * (b1 as u64) + 0x1_0000 * (b2 as u64) + 0x100_0000 * (b3 as u64);
    if n == 0 || n >= 0x8000_0000 {
        None
    } else {
        Some(n as u32)
    }
}

// ---------------------------------------------------------------------------
// Cutting out the visible rectangle
// ---------------------------------------------------------------------------

/// `n` rows of `width` bytes, the first at `base`, `stride` bytes apart, packed tightly.
pub open spec fn packed_rows(data: Seq<u8>, base: int, stride: int, width: int, n: nat) -> Seq<u8>
    decreases n,
{
    if n == 0 {
        Seq::empty()
    } else {
        let last = base + (n - 1) * stride;
        packed_rows(data, base, stride, width, (n - 1) as nat) + data.subrange(last, last + width)
    }
}

/// A buffer grown with zeros or cut to `n` bytes.
pub open spec fn resized(bytes: Seq<u8>, n: nat) -> Seq<u8> {
    Seq::new(
        n,
        |i: int|
            if i < bytes.len() {
                bytes[i]
            } else {
                0u8
            },
    )
}

impl Geometry {
    /// Before the decoder has announced anything.
    pub fn unset() -> (g: Self)
        ensures
            g == (Geometry {
                width: 0,
                height: 0,
                stride: 0,
                crop_x: 0,
                crop_y: 0,
                disp_w: 0,
                disp_h: 0,
            }),
    {
        Geometry { width: 0, height: 0, stride: 0, crop_x: 0, crop_y: 0, disp_w: 0, disp_h: 0 }
    }

    /// Takes over what the selected output type says.
    pub fn select(&mut self, size: Option<u64>, stride: Option<u32>, aperture: Option<[u8; 16]>)
        ensures
            *final(self) == selected(*old(self), size, stride, aperture),
    {
        if let Some(n) = size {
            assert((n >> 32) == n / 0x1_0000_0000 && (n >> 32) <= 0xFFFF_FFFF) by (bit_vector);
            assert((n & 0xFFFF_FFFF) == n % 0x1_0000_0000) by (bit_vector);
            self.width = (n >> 32) as u32;
            self.height = (n & 0xFFFF_FFFF) as u32;
        }
        self.stride = match stride {
            Some(s) => s,
            None => self.width,
        };
        self.crop_x = 0;
        self.crop_y = 0;
        self.disp_w = self.width;
        self.disp_h = self.height;
        if let Some(b) = aperture {
            let cx = extent_of(b[8], b[9], b[10], b[11]);
            let cy = extent_of(b[12], b[13], b[14], b[15]);
            if let (Some(cx), Some(cy)) = (cx, cy) {
                self.crop_x = offset_of(b[2], b[3]);
                self.crop_y = offset_of(b[6], b[7]);
                self.disp_w = cx;
                self.disp_h = cy;
            }
        }
    }

    /// There is a visible rectangle.
    pub open spec fn is_set(self) -> bool {
        self.stride != 0 && self.disp_w != 0 && self.disp_h != 0
    }

    /// Rows in a contiguous NV12 buffer of `len` bytes, from `len == stride * rows * 3 / 2`.
    pub open spec fn coded_rows(self, len: int) -> int {
        len * 2 / (3 * self.stride)
    }

    /// Position of the first visible luma byte.
    pub open spec fn luma_base(self) -> int {
        self.crop_y * self.stride + self.crop_x
    }

    /// Position of the first visible chroma byte in a buffer of `len` bytes.
    pub open spec fn chroma_base(self, len: int) -> int {
        self.stride * self.coded_rows(len) + (self.crop_y / 2) * self.stride + self.crop_x
    }

    /// The visible rectangle lies inside a buffer of `len` bytes, and a frame of
    /// its size can be held.
    pub open spec fn fits(self, len: int) -> bool {
        &&& len <= u32::MAX
        &&& self.disp_w * self.disp_h <= usize::MAX
        &&& self.luma_base() + (self.disp_h - 1) * self.stride + self.disp_w <= len
        &&& self.disp_h >= 2 ==> self.chroma_base(len) + (self.disp_h / 2 - 1) * self.stride
            + self.disp_w <= len
    }

    /// Tests whether the visible rectangle lies inside a buffer of `len` bytes.
    pub fn lies_in(&self, len: usize) -> (b: bool)
        requires
            self.is_set(),
        ensures
            b == self.fits(len as int),
    {
        if len as u128 > 0xFFFF_FFFF {
            return false;
        }
        let (w, h, stride): (u128, u128, u128) = (
            self.disp_w as u128,
            self.disp_h as u128,
            self.stride as u128,
        );
        let (x, y): (u128, u128) = (self.crop_x as u128, self.crop_y as u128);
        proof {
            lemma_mul_inequality(w as int, 0xFFFF_FFFF, h as int);
            lemma_mul_inequality(h as int, 0xFFFF_FFFF, 0xFFFF_FFFF);
            lemma_mul_inequality(y as int, 0xFFFF_FFFF_FFFF_FFFF, stride as int);
            lemma_mul_inequality((y / 2) as int, 0xFFFF_FFFF_FFFF_FFFF, stride as int);
            lemma_mul_inequality((h - 1) as int, 0xFFFF_FFFF, stride as int);
            if h >= 2 {
                lemma_mul_inequality(h as int / 2 - 1, 0xFFFF_FFFF, stride as int);
                lemma_mul_nonnegative(h as int / 2 - 1, stride as int);
            }
            lemma_mul_inequality(stride as int, 0xFFFF_FFFF, 0xFFFF_FFFF_FFFF_FFFF);
            let rows = len as int * 2 / (3 * stride as int);
            assert(0 <= rows <= len) by (nonlinear_arith)
                requires
                    rows == len as int * 2 / (3 * stride as int),
                    stride > 0,
                    len >= 0,
            ;
            lemma_mul_inequality(rows, 0xFFFF_FFFF, stride as int);
            lemma_mul_nonnegative(rows, stride as int);
            lemma_mul_is_commutative(rows, stride as int);
            lemma_mul_nonnegative((y / 2) as int, stride as int);
        }
        let luma: u128 = y * stride + x;
        let chroma: u128 = stride * (len as u128 * 2 / (3 * stride)) + (y / 2) * stride + x;
        w * h <= usize::MAX as u128 && luma + (h - 1) * stride + w <= len as u128 && (h < 2
            || chroma + (h / 2 - 1) * stride + w <= len as u128)
    }

    /// Copies the visible rectangle of a decoded buffer into a frame, tightly packed,
    /// in buffers from the pool. There is no frame before the geometry is known.
    pub fn extract(&self, data: &[u8], pool: &mut FramePool) -> (frame: Option<Frame>)
        requires
            self.is_set() ==> self.fits(data@.len() as int),
        ensures
            match frame {
                Some(f) => {
                    &&& self.is_set()
                    &&& f@ == extracted(*self, data@, pool_top(old(pool)@).1)
                    &&& final(pool)@ == pool_after_get(old(pool)@)
                },
                None => !self.is_set() && final(pool)@ == old(pool)@,
            },
            old(pool).wf() ==> final(pool).wf(),
    {
        if self.stride == 0 || self.disp_w == 0 || self.disp_h == 0 {
            return None;
        }
        let stride: usize = self.stride as usize;
        let dw: usize = self.disp_w as usize;
        let dh: usize = self.disp_h as usize;
        let total: usize = data.len();
        let ghost len = total as int;
        // Recycled buffers; their contents are stale.
        let (mut y, mut uv) = pool.get();
        let ghost stale = uv@;

        proof {
            assert(self.crop_y * stride <= len) by (nonlinear_arith)
                requires
                    self.crop_y * stride + self.crop_x + (dh - 1) * stride + dw <= len,
                    dh >= 1,
                    stride >= 0,
                    dw >= 0,
            ;
        }
        y.clear();
        copy_rows(data, self.crop_y * stride + self.crop_x, stride, dw, dh, &mut y);

        proof {
            assert(dh / 2 * dw <= dw * dh / 2) by (nonlinear_arith)
                requires
                    dw >= 0,
                    dh >= 0,
            ;
        }
        uv.resize(dw * dh / 2, 0);
        assert(uv@ =~= resized(stale, (dw * dh / 2) as nat));
        let mut rest = uv.split_off(dh / 2 * dw);
        uv.clear();
        if dh >= 2 {
            let ghost rows = len * 2 / (3 * stride as int);
            proof {
                assert(0 <= rows <= len) by (nonlinear_arith)
                    requires
                        rows == len * 2 / (3 * stride as int),
                        stride > 0,
                        len >= 0,
                ;
            }
            let coded_h: usize = (total as u64 * 2 / (3 * stride as u64)) as usize;
            proof {
                assert(coded_h == rows);
                assert(stride * coded_h <= len) by (nonlinear_arith)
                    requires
                        coded_h == len * 2 / (3 * stride as int),
                        stride > 0,
                        len >= 0,
                ;
                assert((self.crop_y / 2) * stride + self.crop_x + stride * coded_h <= len)
                    by (nonlinear_arith)
                    requires
                        stride * coded_h + (self.crop_y / 2) * stride + self.crop_x + (dh / 2 - 1)
                            * stride + dw <= len,
                        dh / 2 >= 1,
                        stride >= 0,
                        dw >= 0,
                ;
            }
            let chroma: usize = stride * coded_h + self.crop_y / 2 * stride + self.crop_x;
            copy_rows(data, chroma, stride, dw, dh / 2, &mut uv);
        }
        uv.append(&mut rest);
        Some(Frame { width: self.disp_w, height: self.disp_h, y, uv })
    }
}

/// The frame that a decoded buffer shows. Every visible luma row and every
/// chroma row of two luma rows is copied; if the height is odd, the end of the
/// chroma plane keeps what the recycled buffer held there.
pub open spec fn extracted(g: Geometry, data: Seq<u8>, stale_uv: Seq<u8>) -> FrameModel {
    let (w, h) = (g.disp_w as int, g.disp_h as int);
    FrameModel {
        width: g.disp_w,
        height: g.disp_h,
        y: packed_rows(data, g.luma_base(), g.stride as int, w, h as nat),
        uv: packed_rows(
            data,
            g.chroma_base(data.len() as int),
            g.stride as int,
            w,
            (h / 2) as nat,
        ) + resized(stale_uv, (w * h / 2) as nat).skip(h / 2 * w),
    }
}

/// Appends `n` rows of `width` bytes, the first at `base`, `stride` bytes apart.
fn copy_rows(
    data: &[u8],
    base: usize,
    stride: usize,
    width: usize,
    n: usize,
    out: &mut Vec<u8>,
)
    requires
        n > 0,
        base + (n - 1) * stride + width <= data@.len(),
    ensures
        final(out)@ == old(out)@ + packed_rows(
            data@,
            base as int,
            stride as int,
            width as int,
            n as nat,
        ),
{
    let total: usize = data.len();
    let mut row: usize = 0;
    assert(out@ =~= old(out)@ + packed_rows(data@, base as int, stride as int, width as int, 0));
    while row < n
        invariant
            row <= n,
            total == data@.len(),
            base + (n - 1) * stride + width <= data@.len(),
            out@ == old(out)@ + packed_rows(
                data@,
                base as int,
                stride as int,
                width as int,
                row as nat,
            ),
        decreases n - row,
    {
        proof {
            lemma_mul_inequality(row as int, n - 1, stride as int);
            lemma_mul_nonnegative(row as int, stride as int);
        }
        let start: usize = base + row * stride;
        let ghost before = out@;
        out.extend_from_slice(vstd::slice::slice_subrange(data, start, start + width));
        proof {
            assert(out@ =~= before + data@.subrange(start as int, start + width));
            assert(out@ =~= old(out)@ + packed_rows(
                data@,
                base as int,
                stride as int,
                width as int,
                (row + 1) as nat,
            ));
        }
        row += 1;
    }
}

proof fn lemma_packed_rows_len(data: Seq<u8>, base: int, stride: int, width: int, n: nat)
    requires
        0 <= base,
        0 <= stride,
        0 <= width,
        n > 0 ==> base + (n - 1) * stride + width <= data.len(),
    ensures
        packed_rows(data, base, stride, width, n).len() == n * width,
    decreases n,
{
    if n > 0 {
        assert((n - 1) * stride >= 0 && (n > 1 ==> (n - 2) * stride <= (n - 1) * stride))
            by (nonlinear_arith)
            requires
                n > 0,
                stride >= 0,
        ;
        lemma_packed_rows_len(data, base, stride, width, (n - 1) as nat);
        assert((n - 1) * width + width == n * width) by (nonlinear_arith);
    } else {
        assert(n * width == 0) by (nonlinear_arith)
            requires
                n == 0,
        ;
    }
}

/// Every packed pixel is the one that stands in its row and column of the source.
pub proof fn law_packed_pixel(
    data: Seq<u8>,
    base: int,
    stride: int,
    width: int,
    n: nat,
    row: int,
    col: int,
)
    requires
        0 <= base,
        0 <= stride,
        0 <= row < n,
        0 <= col < width,
        base + (n - 1) * stride + width <= data.len(),
    ensures
        0 <= row * width + col < packed_rows(data, base, stride, width, n).len(),
        packed_rows(data, base, stride, width, n)[row * width + col] == data[base + row * stride
            + col],
    decreases n,
{
    assert((n - 1) * stride >= 0 && (n > 1 ==> (n - 2) * stride <= (n - 1) * stride))
        by (nonlinear_arith)
        requires
            n > 0,
            stride >= 0,
    ;
    lemma_packed_rows_len(data, base, stride, width, n);
    lemma_packed_rows_len(data, base, stride, width, (n - 1) as nat);
    if row == n - 1 {
        assert(0 <= (n - 1) * width && (n - 1) * width + width == n * width) by (nonlinear_arith)
            requires
                n > 0,
                width >= 0,
        ;
    } else {
        law_packed_pixel(data, base, stride, width, (n - 1) as nat, row, col);
        assert((n - 1) * width <= n * width) by (nonlinear_arith)
            requires
                width >= 0,
        ;
    }
}

/// A frame has the size that its width and height promise.
pub proof fn law_frame_sizes(g: Geometry, data: Seq<u8>, stale_uv: Seq<u8>)
    requires
        g.is_set(),
        g.fits(data.len() as int),
    ensures
        extracted(g, data, stale_uv).y.len() == g.disp_w * g.disp_h,
        extracted(g, data, stale_uv).uv.len() == g.disp_w * g.disp_h / 2,
{
    let (w, h) = (g.disp_w as int, g.disp_h as int);
    let len = data.len() as int;
    assert(g.crop_y * g.stride >= 0 && (g.crop_y / 2) * g.stride >= 0 && h / 2 * w <= w * h / 2 && h
        / 2 * w >= 0) by (nonlinear_arith)
        requires
            w >= 0,
            h >= 0,
            g.crop_y >= 0,
            g.stride >= 0,
    ;
    assert(g.stride * g.coded_rows(len) >= 0) by (nonlinear_arith)
        requires
            g.coded_rows(len) == len * 2 / (3 * g.stride),
            g.stride > 0,
            len >= 0,
    ;
    assert(w * h == h * w) by (nonlinear_arith);
    lemma_packed_rows_len(data, g.luma_base(), g.stride as int, w, h as nat);
    lemma_packed_rows_len(data, g.chroma_base(len), g.stride as int, w, (h / 2) as nat);
}

/// Of an even height nothing stale remains: the frame depends on the decoded buffer alone.
pub proof fn law_even_frames_hold_nothing_stale(
    g: Geometry,
    data: Seq<u8>,
    stale1: Seq<u8>,
    stale2: Seq<u8>,
)
    requires
        g.is_set(),
        g.fits(data.len() as int),
        g.disp_h % 2 == 0,
    ensures
        extracted(g, data, stale1) == extracted(g, data, stale2),
{
    let (w, h) = (g.disp_w as int, g.disp_h as int);
    assert(w * h / 2 == h / 2 * w) by (nonlinear_arith)
        requires
            h % 2 == 0,
    ;
    let n = (w * h / 2) as nat;
    assert(w * h >= 0) by (nonlinear_arith)
        requires
            w >= 0,
            h >= 0,
    ;
    assert(resized(stale1, n).skip(h / 2 * w) =~= resized(stale2, n).skip(h / 2 * w));
}

// ---------------------------------------------------------------------------
// Talking to the decoder
// ---------------------------------------------------------------------------

/// The decoder wants more input before it gives more output.
pub const NEED_MORE_INPUT: u32 = 0xC00D6D72;

/// The output format has changed.
pub const STREAM_CHANGE: u32 = 0xC00D6D61;

/// The decoder takes no input before its output is drained.
pub const NOT_ACCEPTING: u32 = 0xC00D36B5;

/// Where the decoding of one access unit stands.
#[derive(Clone, Copy, PartialEq, Eq, Structural, Debug)]
pub enum DecodePhase {
    /// The access unit is being offered.
    Feeding,
    /// Output is being drained so that the access unit can be offered again.
    DrainingToRetry,
    /// The access unit is in; output is being drained.
    Draining,
}

/// What the decoder answered.
#[derive(Clone, Copy, PartialEq, Eq, Structural, Debug)]
pub enum DecoderReply {
    /// The call succeeded.
    Success,
    /// The call failed with this code.
    Failure(u32),
}

/// What to do next with the decoder.
#[derive(Clone, Copy, PartialEq, Eq, Structural, Debug)]
pub enum DecodeStep {
    /// Offer the access unit.
    ProcessInput,
    /// Ask for output; if some came before, it is a frame to be extracted first.
    ProcessOutput,
    /// Select the output type anew and forget the output sample, then ask for output.
    Reselect,
    /// The access unit is done.
    Done,
    /// The decoder failed with this code.
    Fail(u32),
}

/// The phase and the step that follow a reply.
pub open spec fn decode_next(phase: DecodePhase, reply: DecoderReply) -> (DecodePhase, DecodeStep) {
    match (phase, reply) {
        (DecodePhase::Feeding, DecoderReply::Success) => (
            DecodePhase::Draining,
            DecodeStep::ProcessOutput,
        ),
        (DecodePhase::Feeding, DecoderReply::Failure(code)) => if code == NOT_ACCEPTING {
            (DecodePhase::DrainingToRetry, DecodeStep::ProcessOutput)
        } else {
            (phase, DecodeStep::Fail(code))
        },
        (_, DecoderReply::Success) => (phase, DecodeStep::ProcessOutput),
        (_, DecoderReply::Failure(code)) => if code == NEED_MORE_INPUT {
            if phase == DecodePhase::DrainingToRetry {
                (DecodePhase::Feeding, DecodeStep::ProcessInput)
            } else {
                (phase, DecodeStep::Done)
            }
        } else if code == STREAM_CHANGE {
            (phase, DecodeStep::Reselect)
        } else {
            (phase, DecodeStep::Fail(code))
        },
    }
}

impl DecodePhase {
    /// Takes the decoder's reply to the last step and says what comes next. The
    /// first step of every access unit is to offer it.
    pub fn next(&mut self, reply: DecoderReply) -> (step: DecodeStep)
        ensures
            (*final(self), step) == decode_next(*old(self), reply),
    {
        match (*self, reply) {
            (DecodePhase::Feeding, DecoderReply::Success) => {
                *self = DecodePhase::Draining;
                DecodeStep::ProcessOutput
            },
            (DecodePhase::Feeding, DecoderReply::Failure(code)) => {
                if code == NOT_ACCEPTING {
                    *self = DecodePhase::DrainingToRetry;
                    DecodeStep::ProcessOutput
                } else {
                    DecodeStep::Fail(code)
                }
            },
            (_, DecoderReply::Success) => DecodeStep::ProcessOutput,
            (_, DecoderReply::Failure(code)) => {
                if code == NEED_MORE_INPUT {
                    if *self == DecodePhase::DrainingToRetry {
                        *self = DecodePhase::Feeding;
                        DecodeStep::ProcessInput
                    } else {
                        DecodeStep::Done
                    }
                } else if code == STREAM_CHANGE {
                    DecodeStep::Reselect
                } else {
                    DecodeStep::Fail(code)
                }
            },
        }
    }
}

/// An access unit is done only when the decoder has taken it and has been
/// drained: the phase is then `Draining`, which only an accepted input leads to.
pub proof fn law_done_means_taken_and_drained(phase: DecodePhase, reply: DecoderReply)
    ensures
        decode_next(phase, reply).1 == DecodeStep::Done <==> phase == DecodePhase::Draining && reply
            == DecoderReply::Failure(NEED_MORE_INPUT),
        decode_next(phase, reply).0 == DecodePhase::Draining && phase != DecodePhase::Draining
            ==> phase == DecodePhase::Feeding && reply == DecoderReply::Success,
{
}

/// The number of the output type to look at behind the one numbered `at`, unless that is
/// the one that is wanted.
pub open spec fn type_after(at: u32, nv12: bool) -> Option<u32> {
    if nv12 {
        None
    } else {
        Some((at + 1) as u32)
    }
}

/// An output sample of this capacity, if there is one, holds so many bytes.
pub open spec fn holds_output(capacity: Option<u32>, need: u32) -> bool {
    capacity is Some && capacity->0 >= need
}

/// Which of the decoder's output types to look at behind the one numbered `at`: none
/// once that one is NV12, which is then selected; the first NV12 type is wanted.
pub fn next_type(at: u32, nv12: bool) -> (next: Option<u32>)
    requires
        at < u32::MAX,
    ensures
        next == type_after(at, nv12),
{
    if nv12 {
        None
    } else {
        Some(at + 1)
    }
}

/// Whether the output sample, if there is one, still holds what the decoder needs.
pub fn sample_suffices(capacity: Option<u32>, need: u32) -> (b: bool)
    ensures
        b == holds_output(capacity, need),
{
    match capacity {
        Some(c) => c >= need,
        None => false,
    }
}

} // verus!
