use gopro_cam_tray::nv12::nv12_to_bgra_into;

fn nv12_to_bgra(w: usize, h: usize, y: &[u8], uv: &[u8]) -> Vec<u8> {
    let mut out = Vec::new();
    nv12_to_bgra_into(&mut out, w, h, y, uv);
    out
}

// Build a solid-colour NV12 image (every pixel the same Y/U/V).
fn solid(w: usize, h: usize, y: u8, u: u8, v: u8) -> (Vec<u8>, Vec<u8>) {
    let yp = vec![y; w * h];
    let mut uv = vec![0u8; w * h / 2];
    for pair in uv.chunks_mut(2) {
        pair[0] = u;
        pair[1] = v;
    }
    (yp, uv)
}

#[test]
fn output_is_bgra_sized_and_opaque() {
    let (y, uv) = solid(4, 2, 128, 128, 128);
    let out = nv12_to_bgra(4, 2, &y, &uv);
    assert_eq!(out.len(), 4 * 2 * 4);
    assert!(out.chunks(4).all(|p| p[3] == 255), "alpha must be opaque");
}

#[test]
fn black_and_white_map_correctly() {
    // BT.601 limited range: Y=16 -> black, Y=235 -> white, neutral chroma.
    let (y, uv) = solid(2, 2, 16, 128, 128);
    assert_eq!(&nv12_to_bgra(2, 2, &y, &uv)[0..4], &[0, 0, 0, 255]);

    let (y, uv) = solid(2, 2, 235, 128, 128);
    assert_eq!(&nv12_to_bgra(2, 2, &y, &uv)[0..4], &[255, 255, 255, 255]);
}

#[test]
fn red_uses_bgra_byte_order() {
    // BT.601 red (Y=81, U=90, V=240) must come out as B=0, G=0, R=255.
    let (y, uv) = solid(2, 2, 81, 90, 240);
    assert_eq!(&nv12_to_bgra(2, 2, &y, &uv)[0..4], &[0, 0, 255, 255]);
}

// The straightforward per-pixel formula, which the pair-wise loop must
// reproduce byte for byte.
fn reference_nv12_to_bgra(w: usize, h: usize, y: &[u8], uv: &[u8]) -> Vec<u8> {
    let mut out = vec![0u8; w * h * 4];
    for row in 0..h {
        let uv_row = (row / 2) * w;
        for col in 0..w {
            let yy = y[row * w + col] as i32;
            let uv_i = uv_row + (col & !1);
            let u = uv[uv_i] as i32;
            let v = uv[uv_i + 1] as i32;

            let c = yy - 16;
            let d = u - 128;
            let e = v - 128;
            let r = (298 * c + 409 * e + 128) >> 8;
            let g = (298 * c - 100 * d - 208 * e + 128) >> 8;
            let b = (298 * c + 516 * d + 128) >> 8;

            let o = (row * w + col) * 4;
            out[o] = b.clamp(0, 255) as u8;
            out[o + 1] = g.clamp(0, 255) as u8;
            out[o + 2] = r.clamp(0, 255) as u8;
            out[o + 3] = 255;
        }
    }
    out
}

#[test]
fn matches_reference_on_random_input() {
    // Deterministic pseudo-random NV12 image (catches U/V or intra-pair
    // mixups that solid colours cannot).
    let (w, h) = (16usize, 8usize);
    let mut state = 0x12345678u32;
    let mut next = move || {
        state = state.wrapping_mul(1664525).wrapping_add(1013904223);
        (state >> 24) as u8
    };
    let y: Vec<u8> = (0..w * h).map(|_| next()).collect();
    let uv: Vec<u8> = (0..w * h / 2).map(|_| next()).collect();
    assert_eq!(nv12_to_bgra(w, h, &y, &uv), reference_nv12_to_bgra(w, h, &y, &uv));
}

#[test]
fn into_reuses_and_resizes_the_output_buffer() {
    let (y, uv) = solid(4, 2, 128, 128, 128);
    let mut out = vec![0xAAu8; 999]; // wrong size, stale content
    nv12_to_bgra_into(&mut out, 4, 2, &y, &uv);
    assert_eq!(out.len(), 4 * 2 * 4);
    assert_eq!(out, nv12_to_bgra(4, 2, &y, &uv));
}

#[test]
fn even_images_hold_nothing_stale() {
    let (y, uv) = solid(4, 4, 50, 60, 70);
    let mut stale = vec![0xAAu8; 64];
    nv12_to_bgra_into(&mut stale, 4, 4, &y, &uv);
    assert_eq!(stale, nv12_to_bgra(4, 4, &y, &uv));
}

#[test]
fn an_odd_last_row_uses_its_own_chroma() {
    let y = vec![81; 6];
    let uv = [128, 128, 90, 240];
    let out = nv12_to_bgra(2, 3, &y, &uv);
    assert_eq!(out[16..20], [0, 0, 255, 255]);
    assert_ne!(out[0..4], [0, 0, 255, 255]);
}
