//! Pictures on their way from the decoder to the virtual camera and the preview window:
//! what a viewer finds, said of the bytes themselves.

use crate::mf_decode::decode_next;
use crate::mf_decode::extracted;
use crate::mf_decode::pool_after_get;
use crate::mf_decode::pool_after_put;
use crate::mf_decode::pool_top;
use crate::mf_decode::selected;
use crate::mf_decode::DecodePhase;
use crate::mf_decode::DecodeStep;
use crate::mf_decode::DecoderReply;
use crate::mf_decode::Geometry;
use crate::nv12::bgra_image;
use crate::nv12::bgra_pixel;
use crate::obs_vcam::after_stores;
use crate::obs_vcam::closing_store;
use crate::obs_vcam::frame_offset;
use crate::obs_vcam::frame_stores;
use crate::obs_vcam::header_bytes;
use crate::obs_vcam::initial_header;
use crate::obs_vcam::layout_slots;
use crate::obs_vcam::long_at;
use crate::obs_vcam::mapping_size;
use crate::obs_vcam::stored;
use crate::obs_vcam::word_at;
use crate::obs_vcam::Mapping;
use crate::obs_vcam::QueueHeader;
use crate::obs_vcam::StoreModel;
use vstd::prelude::*;

verus! {

// ---------------------------------------------------------------------------
// The visible rectangle
// ---------------------------------------------------------------------------

/// Two bytes, lowest first, that write a signed number in two's complement.
pub open spec fn writes16(b0: u8, b1: u8, n: int) -> bool {
    -32768 <= n < 32768 && (b0 + 256 * b1 == n || b0 + 256 * b1 == n + 65536)
}

/// Four bytes, lowest first, that write a signed number in two's complement.
pub open spec fn writes32(b0: u8, b1: u8, b2: u8, b3: u8, n: int) -> bool {
    let m = b0 + 256 * b1 + 65536 * b2 + 16777216 * b3;
    -2147483648 <= n < 2147483648 && (m == n || m == n + 4294967296)
}

/// A display aperture: sixteen bytes that hold an offset and an area.
pub open spec fn writes_aperture(a: [u8; 16], ox: int, oy: int, cx: int, cy: int) -> bool {
    &&& writes16(a@[2], a@[3], ox)
    &&& writes16(a@[6], a@[7], oy)
    &&& writes32(a@[8], a@[9], a@[10], a@[11], cx)
    &&& writes32(a@[12], a@[13], a@[14], a@[15], cy)
}

/// An edge of the visible rectangle for an offset: not negative, and even.
pub open spec fn is_edge(edge: int, offset: int) -> bool {
    &&& edge % 2 == 0
    &&& offset < 0 ==> edge == 0
    &&& offset >= 0 ==> edge <= offset < edge + 2
}

/// A display aperture with an area is what is visible, whatever else the output type
/// says and whatever was known before: it strips the codec's padding.
pub proof fn law_the_aperture_is_visible(
    g: Geometry,
    size: Option<u64>,
    stride: Option<u32>,
    a: [u8; 16],
    ox: int,
    oy: int,
    cx: int,
    cy: int,
)
    requires
        writes_aperture(a, ox, oy, cx, cy),
        cx > 0,
        cy > 0,
    ensures
        selected(g, size, stride, Some(a)).disp_w == cx,
        selected(g, size, stride, Some(a)).disp_h == cy,
        is_edge(selected(g, size, stride, Some(a)).crop_x as int, ox),
        is_edge(selected(g, size, stride, Some(a)).crop_y as int, oy),
{
}

/// Without an aperture, or with one that has no area, the whole coded frame is visible,
/// whatever was known before.
pub proof fn law_without_an_aperture_all_is_visible(
    g: Geometry,
    size: Option<u64>,
    stride: Option<u32>,
    a: [u8; 16],
    ox: int,
    oy: int,
    cx: int,
    cy: int,
)
    requires
        writes_aperture(a, ox, oy, cx, cy),
        cx <= 0 || cy <= 0,
    ensures
        selected(g, size, stride, Some(a)) == selected(g, size, stride, None),
        ({
            let after = selected(g, size, stride, None);
            &&& after.crop_x == 0
            &&& after.crop_y == 0
            &&& after.disp_w == after.width
            &&& after.disp_h == after.height
        }),
{
}

/// The coded size and the stride are those of the output type, with or without an
/// aperture: a size that is not given stays, a stride that is not given is the width.
pub proof fn law_size_and_stride_are_taken_over(
    g: Geometry,
    width: u32,
    height: u32,
    packed: u64,
    stride: Option<u32>,
    aperture: Option<[u8; 16]>,
)
    requires
        packed == width * 0x1_0000_0000 + height,
    ensures
        selected(g, Some(packed), stride, aperture).width == width,
        selected(g, Some(packed), stride, aperture).height == height,
        selected(g, None, stride, aperture).width == g.width,
        selected(g, None, stride, aperture).height == g.height,
        selected(g, Some(packed), None, aperture).stride == width,
        selected(g, None, None, aperture).stride == g.width,
        stride matches Some(n) ==> selected(g, Some(packed), stride, aperture).stride == n
            && selected(g, None, stride, aperture).stride == n,
{
}

/// A decoded buffer of `rows` rows of luma, and half as many of chroma behind them, in
/// which the visible rectangle lies.
pub open spec fn holds_rectangle(g: Geometry, rows: int, len: int) -> bool {
    &&& g.stride > 0
    &&& g.disp_w > 0
    &&& g.disp_h > 0
    &&& rows % 2 == 0
    &&& len == rows * g.stride + rows / 2 * g.stride
    &&& g.crop_y % 2 == 0
    &&& g.crop_x + g.disp_w <= g.stride
    &&& g.crop_y + g.disp_h <= rows
}

proof fn lemma_rectangle(g: Geometry, rows: int, len: int)
    requires
        holds_rectangle(g, rows, len),
    ensures
        g.coded_rows(len) == rows,
        g.luma_base() == g.crop_y * g.stride + g.crop_x,
        g.chroma_base(len) == rows * g.stride + (g.crop_y as int / 2) * g.stride + g.crop_x,
        0 <= g.luma_base(),
        0 <= g.chroma_base(len),
        g.luma_base() + (g.disp_h - 1) * g.stride + g.disp_w <= len,
        g.disp_h >= 2 ==> g.chroma_base(len) + (g.disp_h as int / 2 - 1) * g.stride + g.disp_w
            <= len,
{
    let s = g.stride as int;
    let half = rows / 2;
    let cy = g.crop_y as int;
    let h = g.disp_h as int;
    assert(len * 2 == rows * (3 * s)) by (nonlinear_arith)
        requires
            len == rows * s + half * s,
            rows == 2 * half,
    ;
    vstd::arithmetic::div_mod::lemma_div_multiples_vanish(rows, 3 * s);
    vstd::arithmetic::mul::lemma_mul_is_commutative(rows, 3 * s);
    assert(g.coded_rows(len) == rows);
    vstd::arithmetic::mul::lemma_mul_is_commutative(s, rows);
    assert(0 <= cy * s && 0 <= cy / 2 * s && 0 <= rows * s && 0 <= half * s && cy * s + (h - 1) * s
        + s <= rows * s) by (nonlinear_arith)
        requires
            0 <= cy,
            0 < s,
            0 < h,
            cy + h <= rows,
            half >= 0,
    ;
    if h >= 2 {
        assert(cy / 2 * s + (h / 2 - 1) * s + s <= half * s) by (nonlinear_arith)
            requires
                0 <= cy,
                0 < s,
                cy / 2 + h / 2 <= half,
        ;
    }
}

/// The frame shows the visible rectangle: every luma byte is the one that stands in its
/// row and column of the buffer, and every chroma byte the one that stands in its row and
/// column behind the luma. A buffer that holds the rectangle is always taken.
pub proof fn law_the_visible_rectangle_is_shown(
    g: Geometry,
    rows: int,
    data: Seq<u8>,
    stale: Seq<u8>,
    row: int,
    col: int,
)
    requires
        holds_rectangle(g, rows, data.len() as int),
        data.len() <= u32::MAX,
        0 <= col < g.disp_w,
        0 <= row < g.disp_h,
    ensures
        g.disp_w * g.disp_h <= usize::MAX ==> g.is_set() && g.fits(data.len() as int),
        ({
            let f = extracted(g, data, stale);
            &&& f.width == g.disp_w
            &&& f.height == g.disp_h
            &&& f.y[row * g.disp_w + col] == data[(g.crop_y + row) * g.stride + g.crop_x + col]
            &&& row < g.disp_h as int / 2 ==> f.uv[row * g.disp_w + col] == data[rows * g.stride + (
            g.crop_y as int / 2 + row) * g.stride + g.crop_x + col]
        }),
{
    let len = data.len() as int;
    let s = g.stride as int;
    let w = g.disp_w as int;
    let h = g.disp_h as int;
    lemma_rectangle(g, rows, len);
    crate::mf_decode::law_packed_pixel(data, g.luma_base(), s, w, h as nat, row, col);
    assert((g.crop_y + row) * s == g.crop_y * s + row * s) by (nonlinear_arith);
    if row < h / 2 {
        crate::mf_decode::law_packed_pixel(
            data,
            g.chroma_base(len),
            s,
            w,
            (h / 2) as nat,
            row,
            col,
        );
        assert((g.crop_y as int / 2 + row) * s == (g.crop_y as int / 2) * s + row * s)
            by (nonlinear_arith);
    }
}

// ---------------------------------------------------------------------------
// Buffers
// ---------------------------------------------------------------------------

/// Six pairs of buffers are kept, no more; a pair that is put comes back first, and what
/// lies below it is not touched. An empty pool hands out empty buffers.
pub proof fn law_six_pairs_are_kept(pool: Seq<(Seq<u8>, Seq<u8>)>, y: Seq<u8>, uv: Seq<u8>)
    ensures
        pool.len() < 6 ==> pool_top(pool_after_put(pool, y, uv)) == (y, uv) && pool_after_get(
            pool_after_put(pool, y, uv),
        ) == pool && pool_after_put(pool, y, uv).len() == pool.len() + 1,
        pool.len() >= 6 ==> pool_after_put(pool, y, uv) == pool,
        pool.len() > 0 ==> pool_after_get(pool).push(pool_top(pool)) == pool,
        pool.len() == 0 ==> pool_top(pool).0.len() == 0 && pool_top(pool).1.len() == 0
            && pool_after_get(pool) == pool,
{
    assert(pool.push((y, uv)).drop_last() =~= pool);
    if pool.len() > 0 {
        assert(pool.drop_last().push(pool.last()) =~= pool);
    }
}

// ---------------------------------------------------------------------------
// The decoder
// ---------------------------------------------------------------------------

/// An access unit that the decoder does not take yet is not lost: output is drained, all
/// of it, and the unit is offered again.
pub proof fn law_a_refused_unit_is_offered_again(code: u32)
    ensures
        decode_next(DecodePhase::Feeding, DecoderReply::Failure(0xC00D36B5)) == (
            DecodePhase::DrainingToRetry,
            DecodeStep::ProcessOutput,
        ),
        decode_next(DecodePhase::DrainingToRetry, DecoderReply::Success) == (
            DecodePhase::DrainingToRetry,
            DecodeStep::ProcessOutput,
        ),
        decode_next(DecodePhase::DrainingToRetry, DecoderReply::Failure(code)).1
            == DecodeStep::ProcessInput <==> code == 0xC00D6D72,
        decode_next(DecodePhase::DrainingToRetry, DecoderReply::Failure(0xC00D6D72)).0
            == DecodePhase::Feeding,
{
}

/// A unit that was taken is followed by all of the output, until the decoder wants more
/// input; only then is it done.
pub proof fn law_a_taken_unit_is_drained(code: u32)
    ensures
        decode_next(DecodePhase::Feeding, DecoderReply::Success) == (
            DecodePhase::Draining,
            DecodeStep::ProcessOutput,
        ),
        decode_next(DecodePhase::Draining, DecoderReply::Success) == (
            DecodePhase::Draining,
            DecodeStep::ProcessOutput,
        ),
        decode_next(DecodePhase::Draining, DecoderReply::Failure(code)).1 == DecodeStep::Done
            <==> code == 0xC00D6D72,
{
}

/// A changed format is selected anew, in whatever draining it comes, which then goes on;
/// every other code is a failure, and is told.
pub proof fn law_other_codes_fail(phase: DecodePhase, code: u32)
    ensures
        phase != DecodePhase::Feeding ==> decode_next(phase, DecoderReply::Failure(0xC00D6D61))
            == (phase, DecodeStep::Reselect),
        phase == DecodePhase::Feeding && code != 0xC00D36B5 ==> decode_next(
            phase,
            DecoderReply::Failure(code),
        ).1 == DecodeStep::Fail(code),
        phase != DecodePhase::Feeding && code != 0xC00D6D72 && code != 0xC00D6D61
            ==> decode_next(phase, DecoderReply::Failure(code)).1 == DecodeStep::Fail(code),
{
}

/// The decoder's output types are looked at one by one until an NV12 type comes, and a
/// sample is used again exactly if it is large enough.
pub proof fn law_types_and_samples(at: u32, capacity: u32, need: u32)
    requires
        at < u32::MAX,
    ensures
        crate::mf_decode::type_after(at, true) is None,
        crate::mf_decode::type_after(at, false) is Some,
        crate::mf_decode::type_after(at, false)->0 == at + 1,
        crate::mf_decode::holds_output(Some(capacity), need) <==> need <= capacity,
        !crate::mf_decode::holds_output(None, need),
{
}

// ---------------------------------------------------------------------------
// Colours
// ---------------------------------------------------------------------------

/// A byte is a colour value of 8 fraction bits, rounded down, and no less than nothing
/// and no more than all.
pub open spec fn is_channel(b: u8, n: int) -> bool {
    &&& n < 0 ==> b == 0
    &&& n >= 65536 ==> b == 255
    &&& 0 <= n < 65536 ==> 256 * b <= n < 256 * b + 256
}

/// A pixel has the colour of BT.601, limited range: blue, green, red, opaque.
pub proof fn law_pixels_have_their_colour(y: u8, u: u8, v: u8)
    ensures
        bgra_pixel(y, u, v).len() == 4,
        is_channel(bgra_pixel(y, u, v)[0], 298 * (y - 16) + 516 * (u - 128) + 128),
        is_channel(
            bgra_pixel(y, u, v)[1],
            298 * (y - 16) - 100 * (u - 128) - 208 * (v - 128) + 128,
        ),
        is_channel(bgra_pixel(y, u, v)[2], 298 * (y - 16) + 409 * (v - 128) + 128),
        bgra_pixel(y, u, v)[3] == 255,
{
}

/// Grey stays grey: without chroma the three colours are equal, and brighter luma is
/// never darker.
pub proof fn law_grey_is_grey(y: u8, brighter: u8)
    requires
        y <= brighter,
    ensures
        bgra_pixel(y, 128, 128)[0] == bgra_pixel(y, 128, 128)[1],
        bgra_pixel(y, 128, 128)[1] == bgra_pixel(y, 128, 128)[2],
        bgra_pixel(y, 128, 128)[0] <= bgra_pixel(brighter, 128, 128)[0],
        y <= 16 ==> bgra_pixel(y, 128, 128)[0] == 0,
        y >= 235 ==> bgra_pixel(y, 128, 128)[0] == 255,
{
}

/// The image shows the frame: each pixel has its own luma and shares its chroma with the
/// others of its square of two by two. Rows go from top to bottom, four bytes a pixel.
pub proof fn law_the_image_shows_the_frame(
    before: Seq<u8>,
    w: int,
    h: int,
    y: Seq<u8>,
    uv: Seq<u8>,
    row: int,
    col: int,
    k: int,
)
    requires
        w % 2 == 0,
        0 <= row < h,
        0 <= col < w,
        0 <= k < 4,
    ensures
        bgra_image(before, w, h, y, uv).len() == 4 * (w * h),
        bgra_image(before, w, h, y, uv)[4 * (row * w + col) + k] == bgra_pixel(
            y[row * w + col],
            uv[row / 2 * w + 2 * (col / 2)],
            uv[row / 2 * w + 2 * (col / 2) + 1],
        )[k],
{
    let image = bgra_image(before, w, h, y, uv);
    let at = (row * w + col) * 4;
    crate::nv12::law_every_pixel_is_drawn(before, w, h, y, uv, row, col);
    crate::nv12::law_even_images_hold_nothing_stale(before, before, w, h, y, uv);
    assert(0 <= row * w && row * w + w <= w * h) by (nonlinear_arith)
        requires
            0 <= row < h,
            0 <= w,
    ;
    assert(image[at + k] == image.subrange(at, at + 4)[k]);
    assert(col - col % 2 == 2 * (col / 2));
}

// ---------------------------------------------------------------------------
// The virtual camera
// ---------------------------------------------------------------------------

/// Three regions stand behind a header of 96 bytes, one behind the other. Each is the
/// least multiple of 32 bytes that holds 32 bytes of header and a frame of NV12.
pub proof fn law_regions_are_as_large_as_needed(cx: u32, cy: u32, k: int)
    requires
        0 <= k < 3,
    ensures
        ({
            let region = frame_offset(cx, cy, k + 1) - frame_offset(cx, cy, k);
            let needed = 32 + cx * cy + cx * cy / 2;
            &&& frame_offset(cx, cy, 0) == 96
            &&& region % 32 == 0
            &&& needed <= region < needed + 32
            &&& mapping_size(cx, cy) == frame_offset(cx, cy, 3)
        }),
{
    crate::obs_vcam::law_regions_are_apart(cx, cy, k);
    assert(cx * cy * 3 / 2 == cx * cy + cx * cy / 2) by {
        let n = cx * cy;
        assert(n * 3 / 2 == n + n / 2);
    }
}

proof fn lemma_offset_is_short(cx: u32, cy: u32, k: int)
    requires
        0 <= k < 3,
    ensures
        0 <= frame_offset(cx, cy, k) <= mapping_size(cx, cy),
        96 <= mapping_size(cx, cy),
{
    law_regions_are_as_large_as_needed(cx, cy, 0);
    law_regions_are_as_large_as_needed(cx, cy, 1);
    law_regions_are_as_large_as_needed(cx, cy, 2);
    assert(0 <= cx * cy) by (nonlinear_arith)
        requires
            0 <= cx,
            0 <= cy,
    ;
}

proof fn lemma_header_words(h: QueueHeader, k: int)
    requires
        0 <= k < 3,
    ensures
        header_bytes(h).len() == 80,
        word_at(header_bytes(h), 0) == h.write_idx,
        word_at(header_bytes(h), 4) == h.read_idx,
        word_at(header_bytes(h), 8) == h.state,
        word_at(header_bytes(h), 12 + 4 * k) == h.offsets@[k],
        word_at(header_bytes(h), 24) == h.kind,
        word_at(header_bytes(h), 28) == h.cx,
        word_at(header_bytes(h), 32) == h.cy,
        long_at(header_bytes(h), 40) == h.interval,
{
    crate::obs_vcam::law_header_reads_back(h);
}

/// Rounding up to 32 gives the least multiple that is large enough.
pub proof fn law_rounding_up_is_least(n: int)
    ensures
        crate::obs_vcam::aligned32(n) % 32 == 0,
        n <= crate::obs_vcam::aligned32(n) < n + 32,
{
}

/// Frames whose queue can be told in 32 bits have a layout, on every machine.
pub proof fn law_ordinary_frames_have_a_layout(cx: u32, cy: u32)
    requires
        mapping_size(cx, cy) + 31 <= u32::MAX,
    ensures
        crate::obs_vcam::layout_fits(cx, cy),
{
    law_regions_are_as_large_as_needed(cx, cy, 0);
    law_regions_are_as_large_as_needed(cx, cy, 1);
    law_regions_are_as_large_as_needed(cx, cy, 2);
    assert(0 <= cx * cy) by (nonlinear_arith)
        requires
            0 <= cx,
            0 <= cy,
    ;
    let n = cx * cy;
    assert(crate::obs_vcam::frame_size(cx, cy) == n * 3 / 2);
}

/// A camera is refused exactly where the memory is not mapped, and says why.
pub proof fn law_refusals_say_why(mapping: Mapping)
    ensures
        crate::obs_vcam::refusal(mapping) is None <==> mapping == Mapping::Mapped,
        crate::obs_vcam::refusal(Mapping::AlreadyThere) == Some(
            "OBSVirtualCamVideo already in use — is OBS (or another instance) already running the virtual camera?"@,
        ),
        crate::obs_vcam::refusal(Mapping::NotCreated) == Some(
            "CreateFileMappingW failed (is the OBS virtual camera installed?)"@,
        ),
        crate::obs_vcam::refusal(Mapping::NotMapped) == Some("MapViewOfFile failed"@),
        crate::obs_vcam::queue_name() == "OBSVirtualCamVideo\0"@,
{
}

/// A camera that was just made has begun no frame; an open one goes by its header. The
/// mapping is made with the first frame, as large as the three regions and the header.
pub proof fn law_the_camera_is_made_once(write_idx: u32, width: u32, height: u32)
    ensures
        crate::session::mapping_for(true, width, height) is None,
        mapping_size(width, height) <= u32::MAX ==> crate::session::mapping_for(
            false,
            width,
            height,
        ) == Some(frame_offset(width, height, 3) as u32),
        crate::session::frames_before(true, write_idx) == write_idx,
        crate::session::frames_before(false, write_idx) == 0,
{
    law_regions_are_as_large_as_needed(width, height, 0);
}

/// The header of a new queue: no frames, starting, video, the size and the interval of
/// the frames, and where they begin.
#[verifier::spinoff_prover]
#[verifier::rlimit(40)]
pub proof fn law_a_new_queue_says_what_it_holds(cx: u32, cy: u32, interval: u64, k: int)
    requires
        0 <= k < 3,
        mapping_size(cx, cy) <= u32::MAX,
    ensures
        ({
            let header = header_bytes(initial_header(cx, cy, interval));
            &&& header.len() == 80
            &&& word_at(header, 0) == 0
            &&& word_at(header, 4) == 0
            &&& word_at(header, 8) == 1
            &&& word_at(header, 12 + 4 * k) == frame_offset(cx, cy, k)
            &&& word_at(header, 24) == 0
            &&& word_at(header, 28) == cx
            &&& word_at(header, 32) == cy
            &&& long_at(header, 40) == interval
        }),
{
    let h = initial_header(cx, cy, interval);
    lemma_offset_is_short(cx, cy, k);
    assert(h.offsets@[k] == frame_offset(cx, cy, k));
    lemma_header_words(h, k);
}

/// A frame is stored where the header says: the timestamp goes to the place that the
/// header gives for the frame's number, the planes 32 bytes behind it, luma before chroma.
#[verifier::spinoff_prover]
#[verifier::rlimit(40)]
pub proof fn law_frames_are_stored_where_the_header_says(
    cx: u32,
    cy: u32,
    interval: u64,
    write_idx: u32,
    y: Seq<u8>,
    uv: Seq<u8>,
    timestamp: u64,
)
    requires
        crate::obs_vcam::layout_fits(cx, cy),
        mapping_size(cx, cy) <= u32::MAX,
    ensures
        ({
            let header = header_bytes(initial_header(cx, cy, interval));
            let stores = frame_stores(layout_slots(cx, cy), write_idx, y, uv, timestamp);
            let n = (write_idx + 1) % 0x1_0000_0000;
            let at = word_at(header, 12 + 4 * (n % 3));
            &&& stores.len() == 6
            &&& stores[0] == (StoreModel::Word { at: 0, word: n as u32 })
            &&& stores[1] == (StoreModel::Long { at, long: timestamp })
            &&& stores[2] == (StoreModel::Bytes { at: at + 32, bytes: y })
            &&& stores[3] == (StoreModel::Bytes { at: at + 32 + y.len(), bytes: uv })
            &&& stores[4] == (StoreModel::Word { at: 4, word: n as u32 })
            &&& stores[5] == (StoreModel::Word { at: 8, word: 2 })
        }),
{
    let n = (write_idx + 1) % 0x1_0000_0000;
    let k = n % 3;
    law_a_new_queue_says_what_it_holds(cx, cy, interval, k);
    lemma_offset_is_short(cx, cy, k);
    assert(layout_slots(cx, cy)[k] == frame_offset(cx, cy, k));
}

proof fn lemma_places_stay(after: Seq<u8>, mem: Seq<u8>, header: Seq<u8>, k: int)
    requires
        after.len() >= 96,
        mem.len() >= 96,
        header.len() >= 24,
        after.subrange(12, 96) == mem.subrange(12, 96),
        mem.subrange(12, 24) == header.subrange(12, 24),
        0 <= k < 3,
    ensures
        word_at(after, 12 + 4 * k) == word_at(header, 12 + 4 * k),
{
    let place = 12 + 4 * k;
    assert forall|i: int| 12 <= i < 24 implies #[trigger] after[i] == header[i] by {
        assert(after[i] == after.subrange(12, 96)[i - 12]);
        assert(mem[i] == mem.subrange(12, 96)[i - 12]);
        assert(mem[i] == mem.subrange(12, 24)[i - 12]);
        assert(header[i] == header.subrange(12, 24)[i - 12]);
    }
    assert(after.subrange(place, place + 4) =~= header.subrange(place, place + 4));
}

/// A reader that knows only the header finds the latest frame: by the number of frames
/// completed, at byte 4, it picks one of the three places from byte 12 on; there the
/// timestamp stands, 32 bytes behind it the luma, and behind that the chroma.
#[verifier::spinoff_prover]
#[verifier::rlimit(40)]
pub proof fn law_a_reader_finds_the_frame(
    mem: Seq<u8>,
    cx: u32,
    cy: u32,
    interval: u64,
    write_idx: u32,
    y: Seq<u8>,
    uv: Seq<u8>,
    timestamp: u64,
)
    requires
        crate::obs_vcam::layout_fits(cx, cy),
        mapping_size(cx, cy) <= u32::MAX,
        mem.len() == mapping_size(cx, cy),
        y.len() == cx * cy,
        uv.len() == cx * cy / 2,
        mem.subrange(12, 24) == header_bytes(initial_header(cx, cy, interval)).subrange(12, 24),
    ensures
        ({
            let after = after_stores(
                mem,
                frame_stores(layout_slots(cx, cy), write_idx, y, uv, timestamp),
            );
            let n = word_at(after, 4);
            let at = word_at(after, 12 + 4 * (n % 3));
            &&& n == (write_idx + 1) % 0x1_0000_0000
            &&& word_at(after, 0) == n
            &&& word_at(after, 8) == 2
            &&& long_at(after, at) == timestamp
            &&& after.subrange(at + 32, at + 32 + y.len()) == y
            &&& after.subrange(at + 32 + y.len(), at + 32 + y.len() + uv.len()) == uv
        }),
{
    let header = header_bytes(initial_header(cx, cy, interval));
    let after = after_stores(mem, frame_stores(layout_slots(cx, cy), write_idx, y, uv, timestamp));
    let k = (write_idx + 1) % 0x1_0000_0000 % 3;
    crate::obs_vcam::law_frame_reads_back(mem, cx, cy, write_idx, y, uv, timestamp);
    law_a_new_queue_says_what_it_holds(cx, cy, interval, k);
    lemma_offset_is_short(cx, cy, 0);
    lemma_places_stay(after, mem, header, k);
}

/// A camera that goes away says so in the header, and changes nothing else.
pub proof fn law_a_closing_camera_says_so(mem: Seq<u8>)
    requires
        mem.len() >= 80,
    ensures
        word_at(stored(mem, closing_store()), 8) == 3,
        forall|i: int|
            0 <= i < mem.len() && !(8 <= i < 12) ==> #[trigger] stored(mem, closing_store())[i]
                == mem[i],
{
    let after = stored(mem, closing_store());
    assert(after.subrange(8, 12) =~= seq![3u8, 0u8, 0u8, 0u8]);
}

// ---------------------------------------------------------------------------
// The preview window
// ---------------------------------------------------------------------------

/// A frame is shown exactly if it has a number that was not shown before; then the
/// picture is the frame's own, and until then what is shown stays.
pub proof fn law_each_frame_is_shown_once(
    shown: Option<crate::preview::CacheModel>,
    c: crate::control::ControlModel,
)
    ensures
        ({
            let after = crate::preview::refreshed(shown, c);
            &&& c.preview is None ==> after == shown
            &&& shown matches Some(s) ==> s.seq == c.preview_seq ==> after == shown
            &&& c.preview is Some && (shown is None || shown->0.seq != c.preview_seq) ==> {
                &&& after is Some
                &&& after->0.frame == c.preview->0
                &&& after->0.seq == c.preview_seq
            }
        }),
{
}

/// A program begins with nothing asked for. Opening the preview window only says so;
/// closing it says so and frees the frame.
pub proof fn law_the_preview_opens_and_closes(c: crate::control::ControlModel)
    ensures
        ({
            let f = crate::control::fresh_control();
            &&& !f.quit && !f.suspended && !f.streaming && !f.preview_on
            &&& f.preview is None && f.preview_seq == 0
        }),
        crate::control::with_preview_open(c).preview_on,
        crate::control::with_preview_open(c).preview == c.preview,
        !crate::control::with_preview_closed(c).preview_on,
        crate::control::with_preview_closed(c).preview is None,
        ({
            let o = crate::control::with_preview_open(c);
            let d = crate::control::with_preview_closed(c);
            &&& o.quit == c.quit && o.suspended == c.suspended && o.streaming == c.streaming
            &&& d.quit == c.quit && d.suspended == c.suspended && d.streaming == c.streaming
            &&& o.preview_seq == c.preview_seq && d.preview_seq == c.preview_seq
        }),
{
}

/// A frame of its size can be painted.
pub proof fn law_whole_frames_can_be_painted(f: crate::mf_decode::FrameModel)
    requires
        4 * (f.width * f.height) <= usize::MAX,
        f.height % 2 == 0,
        f.y.len() == f.width * f.height,
        f.uv.len() == f.width * f.height / 2,
    ensures
        crate::preview::paintable(f),
{
    let w = f.width as int;
    let h = f.height as int;
    assert((h + 1) / 2 == h / 2);
    assert(h / 2 * w == w * h / 2) by (nonlinear_arith)
        requires
            h % 2 == 0,
    ;
}

/// An open preview takes every frame and gives back the one before; a closed one takes
/// none and gives back the frame itself. No frame is kept and given back at once.
pub proof fn law_frames_are_kept_or_given_back(
    c: crate::control::ControlModel,
    frame: crate::mf_decode::FrameModel,
)
    ensures
        ({
            let after = crate::control::with_frame(c, frame);
            let back = crate::control::displaced(c, frame);
            &&& c.preview_on ==> after.preview == Some(frame) && back == c.preview
            &&& !c.preview_on ==> after == c && back == Some(frame)
            &&& c.preview_on ==> after.preview_seq == if c.preview_seq == u64::MAX {
                0
            } else {
                c.preview_seq + 1
            }
            &&& after.quit == c.quit && after.suspended == c.suspended && after.streaming
                == c.streaming && after.preview_on == c.preview_on
        }),
{
}

/// Buffers that are given back go to the pool.
pub proof fn law_given_back_buffers_go_to_the_pool(
    pool: Seq<(Seq<u8>, Seq<u8>)>,
    f: crate::mf_decode::FrameModel,
)
    ensures
        crate::control::pool_with(pool, None) == pool,
        pool.len() < 6 ==> crate::control::pool_with(pool, Some(f)) == pool.push((f.y, f.uv)),
        pool.len() >= 6 ==> crate::control::pool_with(pool, Some(f)) == pool,
{
}

/// The bitmap of a picture is as wide as the frame, and as high, counted from the top;
/// without a picture there is none.
pub proof fn law_bitmaps_have_the_size_of_the_frame(cache: Option<crate::preview::CacheModel>)
    ensures
        cache is None ==> crate::preview::bitmap_size(cache) is None,
        cache matches Some(c) ==> {
            &&& c.bgra.len() == 0 ==> crate::preview::bitmap_size(cache) is None
            &&& c.bgra.len() > 0 && c.frame.width <= i32::MAX && c.frame.height <= i32::MAX ==> {
                crate::preview::bitmap_size(cache) == Some(
                    (c.frame.width as i32, (0 - c.frame.height) as i32),
                )
            }
        },
{
}

} // verus!
