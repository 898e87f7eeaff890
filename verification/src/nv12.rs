//! NV12 frames as 32-bit BGRA pixels for the preview window (BT.601, top-down).

use vstd::arithmetic::div_mod::lemma_fundamental_div_mod_converse;
use vstd::arithmetic::mul::lemma_mul_inequality;
use vstd::arithmetic::mul::lemma_mul_is_distributive_add_other_way;
use vstd::prelude::*;

verus! {

/// A fixed-point colour value (8 fraction bits) as a byte: rounded down and clamped.
pub open spec fn channel(n: int) -> u8 {
    if n / 256 < 0 {
        0
    } else if n / 256 > 255 {
        255
    } else {
        (n / 256) as u8
    }
}

/// The B, G, R and A bytes of a pixel with luma `y` and chroma `u`, `v`.
pub open spec fn bgra_pixel(y: u8, u: u8, v: u8) -> Seq<u8> {
    let c = 298 * (y - 16);
    let d = u - 128;
    let e = v - 128;
    seq![
        channel(c + 516 * d + 128),
        channel(c - 100 * d - 208 * e + 128),
        channel(c + 409 * e + 128),
        255,
    ]
}

/// The row of the pixel that byte `i` of an image `w` pixels wide belongs to.
pub open spec fn row_of(w: int, i: int) -> int {
    i / (4 * w)
}

/// The column of the pixel that byte `i` of an image `w` pixels wide belongs to.
pub open spec fn col_of(w: int, i: int) -> int {
    i % (4 * w) / 4
}

/// The image of an NV12 frame. Pixels come in pairs that share their chroma; a
/// last column that has no partner is not drawn and keeps what the buffer `old`
/// held, or zeros where it was too short.
pub open spec fn bgra_image(old: Seq<u8>, w: int, h: int, y: Seq<u8>, uv: Seq<u8>) -> Seq<u8> {
    Seq::new(
        (w * h * 4) as nat,
        |i: int| bgra_byte(crate::mf_decode::resized(old, (w * h * 4) as nat), w, y, uv, i),
    )
}

/// Byte `i` of the image.
pub open spec fn bgra_byte(blank: Seq<u8>, w: int, y: Seq<u8>, uv: Seq<u8>, i: int) -> u8 {
    let row = row_of(w, i);
    let col = col_of(w, i);
    if col < w - w % 2 {
        let chroma = row / 2 * w + (col - col % 2);
        bgra_pixel(y[row * w + col], uv[chroma], uv[chroma + 1])[i % 4]
    } else {
        blank[i]
    }
}

/// The planes are large enough for the image, and the image can be held.
pub open spec fn nv12_fits(w: int, h: int, y: Seq<u8>, uv: Seq<u8>) -> bool {
    &&& w * h * 4 <= usize::MAX
    &&& w * h <= y.len()
    &&& (h + 1) / 2 * w <= uv.len()
}

fn to_channel(n: i32) -> (b: u8)
    ensures
        b == channel(n as int),
{
    if n < 0 {
        0
    } else if n >= 65536 {
        255
    } else {
        (n as u32 / 256) as u8
    }
}

/// The byte at `row`, `col`, `k` belongs to the pixel at `row`, `col`.
proof fn lemma_position(w: int, row: int, col: int, k: int)
    requires
        0 <= row,
        0 <= col < w,
        0 <= k < 4,
    ensures
        row_of(w, (row * w + col) * 4 + k) == row,
        col_of(w, (row * w + col) * 4 + k) == col,
        ((row * w + col) * 4 + k) % 4 == k,
{
    let i = (row * w + col) * 4 + k;
    assert(i == row * (4 * w) + (4 * col + k)) by (nonlinear_arith)
        requires
            i == (row * w + col) * 4 + k,
    ;
    lemma_fundamental_div_mod_converse(i, 4 * w, row, 4 * col + k);
}

/// A byte of row `row`, from column `col` on, belongs to such a pixel.
proof fn lemma_rest_of_row(w: int, row: int, col: int, i: int)
    requires
        0 <= row,
        0 <= col <= w,
        (row * w + col) * 4 <= i < (row + 1) * w * 4,
    ensures
        row_of(w, i) == row,
        col_of(w, i) >= col,
{
    let r = i - row * w * 4;
    assert(i == row * (4 * w) + r && 4 * col <= r < 4 * w) by (nonlinear_arith)
        requires
            (row * w + col) * 4 <= i < (row + 1) * w * 4,
            r == i - row * w * 4,
    ;
    lemma_fundamental_div_mod_converse(i, 4 * w, row, r);
}

/// The image holds the pixel at `row`, `col`.
pub open spec fn shows_pixel(
    image: Seq<u8>,
    w: int,
    y: Seq<u8>,
    uv: Seq<u8>,
    row: int,
    col: int,
) -> bool {
    image.subrange((row * w + col) * 4, (row * w + col) * 4 + 4) == bgra_pixel(
        y[row * w + col],
        uv[row / 2 * w + (col - col % 2)],
        uv[row / 2 * w + (col - col % 2) + 1],
    )
}

/// Every pixel that has a partner is drawn: its colour is that of its own luma and of the
/// chroma that it shares with its partner and with the pair in the other row of two.
pub proof fn law_every_pixel_is_drawn(
    old_bytes: Seq<u8>,
    w: int,
    h: int,
    y: Seq<u8>,
    uv: Seq<u8>,
    row: int,
    col: int,
)
    requires
        0 <= row < h,
        0 <= col < w - w % 2,
    ensures
        shows_pixel(bgra_image(old_bytes, w, h, y, uv), w, y, uv, row, col),
{
    let at = (row * w + col) * 4;
    lemma_position(w, row, col, 0);
    lemma_position(w, row, col, 1);
    lemma_position(w, row, col, 2);
    lemma_position(w, row, col, 3);
    assert(0 <= row * w && row * w + w <= w * h) by (nonlinear_arith)
        requires
            0 <= row < h,
            0 <= w,
    ;
    let image = bgra_image(old_bytes, w, h, y, uv);
    let pixel = bgra_pixel(
        y[row * w + col],
        uv[row / 2 * w + (col - col % 2)],
        uv[row / 2 * w + (col - col % 2) + 1],
    );
    assert(image[at] == pixel[0] && image[at + 1] == pixel[1] && image[at + 2] == pixel[2]
        && image[at + 3] == pixel[3]);
    assert(image.subrange(at, at + 4) =~= pixel);
}

/// Draws one pixel at byte `at`, from its luma and the sums that its chroma gives
/// for blue, green and red.
fn put_pixel(out: &mut Vec<u8>, at: usize, luma: u8, be: i32, ge: i32, re: i32)
    requires
        at + 4 <= old(out)@.len(),
        -100_000 <= be <= 100_000,
        -100_000 <= ge <= 100_000,
        -100_000 <= re <= 100_000,
    ensures
        final(out)@.len() == old(out)@.len(),
        forall|i: int|
            0 <= i < old(out)@.len() && !(at <= i < at + 4) ==> #[trigger] final(out)@[i] == old(
                out,
            )@[i],
        final(out)@.subrange(at as int, at + 4) == seq![
            channel(298 * (luma - 16) + be),
            channel(298 * (luma - 16) + ge),
            channel(298 * (luma - 16) + re),
            255,
        ],
{
    let len: usize = out.len();
    assert(at + 4 <= len);
    let c: i32 = 298 * (luma as i32 - 16);
    out[at] = to_channel(c + be);
    out[at + 1] = to_channel(c + ge);
    out[at + 2] = to_channel(c + re);
    out[at + 3] = 255;
    assert(out@.subrange(at as int, at + 4) =~= seq![
        channel(298 * (luma - 16) + be),
        channel(298 * (luma - 16) + ge),
        channel(298 * (luma - 16) + re),
        255,
    ]);
}

/// Converts tightly packed NV12 into `out` as 32-bit BGRA, reusing its allocation.
/// Works on pixel pairs, so that the products of each U and V are computed once;
/// the dimensions of NV12 are even.
pub fn nv12_to_bgra_into(out: &mut Vec<u8>, w: usize, h: usize, y: &[u8], uv: &[u8])
    requires
        nv12_fits(w as int, h as int, y@, uv@),
    ensures
        final(out)@ == bgra_image(old(out)@, w as int, h as int, y@, uv@),
{
    let ghost total = w * h * 4;
    let ghost blank = crate::mf_decode::resized(old(out)@, total as nat);
    let ghost image = bgra_image(old(out)@, w as int, h as int, y@, uv@);
    let y_len: usize = y.len();
    let uv_len: usize = uv.len();
    assert(0 <= w * h <= total) by (nonlinear_arith)
        requires
            w >= 0,
            h >= 0,
            total == w * h * 4,
    ;
    out.resize(w * h * 4, 0);
    assert(out@ =~= blank);
    let mut row: usize = 0;
    while row < h
        invariant
            row <= h,
            nv12_fits(w as int, h as int, y@, uv@),
            y_len == y@.len(),
            uv_len == uv@.len(),
            total == w * h * 4,
            blank.len() == total,
            image.len() == total,
            image == bgra_image(old(out)@, w as int, h as int, y@, uv@),
            blank == crate::mf_decode::resized(old(out)@, total as nat),
            out@.len() == total,
            forall|i: int| 0 <= i < row * w * 4 ==> #[trigger] out@[i] == image[i],
            forall|i: int| row * w * 4 <= i < total ==> #[trigger] out@[i] == blank[i],
        decreases h - row,
    {
        proof {
            lemma_mul_inequality(row + 1, h as int, w as int);
            lemma_mul_inequality(row / 2 + 1, (h + 1) / 2, w as int);
            lemma_mul_is_distributive_add_other_way(w as int, row as int, 1);
            lemma_mul_is_distributive_add_other_way(w as int, (row / 2) as int, 1);
            assert(0 <= row * w && 0 <= row / 2 * w && w * h == h * w) by (nonlinear_arith)
                requires
                    row >= 0,
                    w >= 0,
            ;
        }
        assert forall|c: int| 0 <= c < w - w % 2 implies #[trigger] shows_pixel(
            image,
            w as int,
            y@,
            uv@,
            row as int,
            c,
        ) by {
            law_every_pixel_is_drawn(old(out)@, w as int, h as int, y@, uv@, row as int, c);
        }
        let first: usize = row * w;
        let chroma: usize = row / 2 * w;
        let mut col: usize = 0;
        while w - col >= 2
            invariant
                row < h,
                col <= w,
                col % 2 == 0,
                first == row * w,
                chroma == row / 2 * w,
                first + w <= y@.len(),
                first + w == (row + 1) * w,
                chroma + w <= uv@.len(),
                (first + w) * 4 <= total,
                total <= usize::MAX,
                y_len == y@.len(),
                uv_len == uv@.len(),
                blank.len() == total,
                image.len() == total,
                forall|c: int|
                    0 <= c < w - w % 2 ==> #[trigger] shows_pixel(
                        image,
                        w as int,
                        y@,
                        uv@,
                        row as int,
                        c,
                    ),
                out@.len() == total,
                forall|i: int| 0 <= i < (first + col) * 4 ==> #[trigger] out@[i] == image[i],
                forall|i: int| (first + col) * 4 <= i < total ==> #[trigger] out@[i] == blank[i],
            decreases w - col,
        {
            let d: i32 = uv[chroma + col] as i32 - 128;
            let e: i32 = uv[chroma + col + 1] as i32 - 128;
            let re: i32 = 409 * e + 128;
            let ge: i32 = -100 * d - 208 * e + 128;
            let be: i32 = 516 * d + 128;
            let mut k: usize = 0;
            while k < 2
                invariant
                    k <= 2,
                    row < h,
                    col + 2 <= w,
                    col % 2 == 0,
                    first == row * w,
                    chroma == row / 2 * w,
                    first + w <= y@.len(),
                    chroma + w <= uv@.len(),
                    (first + w) * 4 <= total,
                    total <= usize::MAX,
                    y_len == y@.len(),
                    blank.len() == total,
                    image.len() == total,
                    shows_pixel(image, w as int, y@, uv@, row as int, col as int),
                    shows_pixel(image, w as int, y@, uv@, row as int, col + 1),
                    out@.len() == total,
                    d == uv@[chroma + col] - 128,
                    e == uv@[chroma + col + 1] - 128,
                    re == 409 * e + 128,
                    ge == -100 * d - 208 * e + 128,
                    be == 516 * d + 128,
                    forall|i: int|
                        0 <= i < (first + col + k) * 4 ==> #[trigger] out@[i] == image[i],
                    forall|i: int|
                        (first + col + k) * 4 <= i < total ==> #[trigger] out@[i] == blank[i],
                decreases 2 - k,
            {
                let luma: u8 = y[first + col + k];
                let at: usize = (first + col + k) * 4;
                let ghost before = out@;
                put_pixel(out, at, luma, be, ge, re);
                proof {
                    let (u, v) = (uv@[chroma + col], uv@[chroma + col + 1]);
                    assert(shows_pixel(image, w as int, y@, uv@, row as int, col + k));
                    assert(image.subrange(at as int, at + 4) == bgra_pixel(luma, u, v));
                    assert(out@.subrange(at as int, at + 4) =~= bgra_pixel(luma, u, v));
                    assert forall|i: int|
                        0 <= i < (first + col + k + 1) * 4 implies #[trigger] out@[i]
                        == image[i] by {
                        if i >= at {
                            assert(out@[i] == out@.subrange(at as int, at + 4)[i - at]);
                            assert(image[i] == image.subrange(at as int, at + 4)[i - at]);
                        } else {
                            assert(out@[i] == before[i]);
                        }
                    }
                    assert forall|i: int| at + 4 <= i < total implies #[trigger] out@[i]
                        == blank[i] by {
                        assert(out@[i] == before[i]);
                    }
                }
                k += 1;
            }
            col += 2;
        }
        assert forall|i: int| 0 <= i < (row + 1) * w * 4 implies #[trigger] out@[i] == image[i] by {
            if i >= (first + col) * 4 {
                lemma_rest_of_row(w as int, row as int, col as int, i);
            }
        }
        row += 1;
    }
    assert(h * w == w * h) by (nonlinear_arith);
    assert(out@ =~= image);
}

/// Every drawn pixel is opaque.
pub proof fn law_alpha_is_opaque(
    old_bytes: Seq<u8>,
    w: int,
    h: int,
    y: Seq<u8>,
    uv: Seq<u8>,
    row: int,
    col: int,
)
    requires
        0 <= row < h,
        0 <= col < w - w % 2,
    ensures
        bgra_image(old_bytes, w, h, y, uv)[(row * w + col) * 4 + 3] == 255,
{
    let image = bgra_image(old_bytes, w, h, y, uv);
    let at = (row * w + col) * 4;
    law_every_pixel_is_drawn(old_bytes, w, h, y, uv, row, col);
    assert(0 <= row * w && row * w + w <= w * h) by (nonlinear_arith)
        requires
            0 <= row < h,
            0 <= w,
    ;
    assert(image[at + 3] == image.subrange(at, at + 4)[3]);
}

/// Of an even width nothing stale remains: the image depends on the frame alone,
/// and has four bytes for each pixel.
pub proof fn law_even_images_hold_nothing_stale(
    old1: Seq<u8>,
    old2: Seq<u8>,
    w: int,
    h: int,
    y: Seq<u8>,
    uv: Seq<u8>,
)
    requires
        0 <= w,
        0 <= h,
        w % 2 == 0,
    ensures
        bgra_image(old1, w, h, y, uv) == bgra_image(old2, w, h, y, uv),
        bgra_image(old1, w, h, y, uv).len() == w * h * 4,
{
    assert(0 <= w * h * 4) by (nonlinear_arith)
        requires
            0 <= w,
            0 <= h,
    ;
    assert forall|i: int| 0 <= i < w * h * 4 implies #[trigger] bgra_image(
        old1,
        w,
        h,
        y,
        uv,
    )[i] == bgra_image(old2, w, h, y, uv)[i] by {
        assert(0 < w) by (nonlinear_arith)
            requires
                0 <= i < w * h * 4,
                0 <= w,
        ;
        assert(0 <= i % (4 * w) < 4 * w) by (nonlinear_arith)
            requires
                0 < w,
        ;
        assert(col_of(w, i) < w);
    }
    assert(bgra_image(old1, w, h, y, uv) =~= bgra_image(old2, w, h, y, uv));
}

} // verus!
