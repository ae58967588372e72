//! RGB24 to planar YUV 4:2:0 conversion with the BT.601 integer formulas.
use vstd::prelude::*;

verus! {

/// Saturates an integer into the byte range.
pub open spec fn clamp_u8(v: int) -> u8 {
    if v < 0 {
        0
    } else if v > 255 {
        255
    } else {
        v as u8
    }
}

/// BT.601 luma: `((66 R + 129 G + 25 B + 128) >> 8) + 16`, saturated to a byte.
pub open spec fn bt601_y(r: u8, g: u8, b: u8) -> u8 {
    clamp_u8((66 * r + 129 * g + 25 * b + 128) / 256 + 16)
}

/// BT.601 blue-difference chroma: `((-38 R - 74 G + 112 B + 128) >> 8) + 128`, saturated.
pub open spec fn bt601_u(r: u8, g: u8, b: u8) -> u8 {
    clamp_u8((-38 * r - 74 * g + 112 * b + 128) / 256 + 128)
}

/// BT.601 red-difference chroma: `((112 R - 94 G - 18 B + 128) >> 8) + 128`, saturated.
pub open spec fn bt601_v(r: u8, g: u8, b: u8) -> u8 {
    clamp_u8((112 * r - 94 * g - 18 * b + 128) / 256 + 128)
}

/// Length of the planar YUV 4:2:0 image of a `w` x `h` frame: a full-size luma plane and
/// two chroma planes subsampled by two in each direction.
pub open spec fn yuv420_len(w: int, h: int) -> int {
    w * h + 2 * ((w / 2) * (h / 2))
}

/// `out` is the YUV 4:2:0 image of the RGB24 frame `rgb` (`w` x `h`, row-major, three bytes
/// per pixel): the luma plane holds the BT.601 luma of every pixel in order, and the two
/// chroma planes hold, for each 2x2 block, the chroma of its top-left pixel.
pub open spec fn is_yuv420_of(out: Seq<u8>, rgb: Seq<u8>, w: int, h: int) -> bool {
    let ys = w * h;
    let hw = w / 2;
    let hh = h / 2;
    let uv = hw * hh;
    &&& out.len() == yuv420_len(w, h)
    &&& forall|p: int|
        0 <= p < ys ==> #[trigger] out[p] == bt601_y(rgb[3 * p], rgb[3 * p + 1], rgb[3 * p + 2])
    &&& forall|row: int, col: int|
        0 <= row < hh && 0 <= col < hw ==> {
            let p = 2 * row * w + 2 * col;
            &&& #[trigger] out[ys + row * hw + col] == bt601_u(
                rgb[3 * p],
                rgb[3 * p + 1],
                rgb[3 * p + 2],
            )
            &&& out[ys + uv + row * hw + col] == bt601_v(rgb[3 * p], rgb[3 * p + 1], rgb[3 * p + 2])
        }
}

fn luma(r: u8, g: u8, b: u8) -> (y: u8)
    ensures
        y == bt601_y(r, g, b),
{
    let v: u32 = (66 * (r as u32) + 129 * (g as u32) + 25 * (b as u32) + 128) / 256 + 16;
    if v > 255 {
        255
    } else {
        v as u8
    }
}

proof fn lemma_bias_div(x: int, k: int)
    requires
        x + 256 * k >= 0,
    ensures
        (x + 256 * k) / 256 == x / 256 + k,
{
    vstd::arithmetic::div_mod::lemma_div_plus_one(x, 256);
    assert((x + 256 * k) / 256 == x / 256 + k) by {
        vstd::arithmetic::div_mod::lemma_fundamental_div_mod(x, 256);
        vstd::arithmetic::div_mod::lemma_fundamental_div_mod(x + 256 * k, 256);
        vstd::arithmetic::div_mod::lemma_mod_multiples_vanish(k, x, 256);
    }
}

fn chroma_u(r: u8, g: u8, b: u8) -> (u: u8)
    ensures
        u == bt601_u(r, g, b),
{
    // The bias of 128 * 256 keeps the dividend non-negative: floor(x / 256) + 128 == (x + 32768) / 256.
    let t: u32 = 112 * (b as u32) + 128 + 32768 - 38 * (r as u32) - 74 * (g as u32);
    let v: u32 = t / 256;
    proof {
        lemma_bias_div(-38 * r - 74 * g + 112 * b + 128, 128);
    }
    if v > 255 {
        255
    } else {
        v as u8
    }
}

fn chroma_v(r: u8, g: u8, b: u8) -> (v: u8)
    ensures
        v == bt601_v(r, g, b),
{
    let t: u32 = 112 * (r as u32) + 128 + 32768 - 94 * (g as u32) - 18 * (b as u32);
    let q: u32 = t / 256;
    proof {
        lemma_bias_div(112 * r - 94 * g - 18 * b + 128, 128);
    }
    if q > 255 {
        255
    } else {
        q as u8
    }
}

proof fn lemma_block_bounds(row: int, col: int, w: int, h: int)
    requires
        0 <= row < h / 2,
        0 <= col < w / 2,
        w >= 0,
        h >= 0,
    ensures
        0 <= 2 * row * w + 2 * col,
        2 * row * w + 2 * col + 1 <= w * h,
        0 <= row * (w / 2) + col < (w / 2) * (h / 2),
{
    let hw = w / 2;
    let hh = h / 2;
    assert(2 * row + 2 <= h);
    assert(2 * col + 2 <= w);
    assert(2 * row * w + 2 * col + 1 <= w * h) by (nonlinear_arith)
        requires
            2 * row + 2 <= h,
            2 * col + 2 <= w,
            row >= 0,
            col >= 0,
            w >= 0,
    ;
    assert(0 <= 2 * row * w) by (nonlinear_arith)
        requires
            row >= 0,
            w >= 0,
    ;
    assert(0 <= row * hw + col < hw * hh) by (nonlinear_arith)
        requires
            0 <= row < hh,
            0 <= col < hw,
    ;
}

/// The chroma sample (blue- or red-difference) of the pixel at flat index `p`.
pub open spec fn chroma_at(rgb: Seq<u8>, p: int, blue: bool) -> u8 {
    if blue {
        bt601_u(rgb[3 * p], rgb[3 * p + 1], rgb[3 * p + 2])
    } else {
        bt601_v(rgb[3 * p], rgb[3 * p + 1], rgb[3 * p + 2])
    }
}

fn push_chroma_plane(yuv: &mut Vec<u8>, rgb: &[u8], w: usize, h: usize, blue: bool)
    requires
        w as int * h as int * 3 <= rgb@.len(),
    ensures
        final(yuv)@.len() == old(yuv)@.len() + (w / 2) * (h / 2),
        forall|q: int| 0 <= q < old(yuv)@.len() ==> #[trigger] final(yuv)@[q] == old(yuv)@[q],
        forall|r: int, c: int|
            0 <= r < h / 2 && 0 <= c < w / 2 ==> #[trigger] final(yuv)@[old(yuv)@.len() + r * (w
                / 2) + c] == chroma_at(rgb@, 2 * r * w + 2 * c, blue),
{
    let ghost wi = w as int;
    let ghost hi = h as int;
    let ghost start = yuv@.len() as int;
    let ghost before = yuv@;
    let hw = w / 2;
    let hh = h / 2;
    let rlen = rgb.len();
    let mut row: usize = 0;
    let mut row_base: usize = 0;
    while row < hh
        invariant
            rlen == rgb@.len(),
            0 <= start,
            wi * hi * 3 <= rgb@.len(),
            hw == wi / 2,
            hh == hi / 2,
            wi >= 0,
            hi >= 0,
            w == wi,
            h == hi,
            row <= hh,
            row < hh ==> row_base == 2 * row * wi,
            yuv@.len() == start + row * hw,
            forall|q: int| 0 <= q < start ==> #[trigger] yuv@[q] == before[q],
            forall|r: int, c: int|
                0 <= r < row && 0 <= c < hw ==> #[trigger] yuv@[start + r * hw + c] == chroma_at(
                    rgb@,
                    2 * r * wi + 2 * c,
                    blue,
                ),
        decreases hh - row,
    {
        let mut col: usize = 0;
        while col < hw
            invariant
                rlen == rgb@.len(),
                0 <= start,
                wi * hi * 3 <= rgb@.len(),
                hw == wi / 2,
                hh == hi / 2,
                wi >= 0,
                hi >= 0,
                w == wi,
                h == hi,
                row < hh,
                col <= hw,
                row_base == 2 * row * wi,
                yuv@.len() == start + row * hw + col,
                forall|q: int| 0 <= q < start ==> #[trigger] yuv@[q] == before[q],
                forall|r: int, c: int|
                    (0 <= r < row && 0 <= c < hw) || (r == row && 0 <= c < col) ==> #[trigger] yuv@[start
                        + r * hw + c] == chroma_at(rgb@, 2 * r * wi + 2 * c, blue),
            decreases hw - col,
        {
            proof {
                lemma_block_bounds(row as int, col as int, wi, hi);
                assert(wi * hi <= wi * hi * 3) by (nonlinear_arith)
                    requires
                        wi >= 0,
                        hi >= 0,
                ;
            }
            let px = row_base + 2 * col;
            let i = 3 * px;
            let sample = if blue {
                chroma_u(rgb[i], rgb[i + 1], rgb[i + 2])
            } else {
                chroma_v(rgb[i], rgb[i + 1], rgb[i + 2])
            };
            let ghost old_yuv = yuv@;
            yuv.push(sample);
            proof {
                assert(yuv@ == old_yuv.push(sample));
                assert forall|r: int, c: int|
                    (0 <= r < row && 0 <= c < hw) || (r == row && 0 <= c < col + 1) implies #[trigger] yuv@[start
                        + r * hw + c] == chroma_at(rgb@, 2 * r * wi + 2 * c, blue) by {
                    if r < row {
                        assert(r * hw + c < row * hw) by (nonlinear_arith)
                            requires
                                0 <= r < row,
                                0 <= c < hw,
                        ;
                        assert(start + r * hw + c < old_yuv.len());
                        assert(r * hw >= 0) by (nonlinear_arith)
                            requires
                                r >= 0,
                                hw >= 0,
                        ;
                        let k = start + r * hw + c;
                        assert(0 <= k < old_yuv.len());
                        assert(old_yuv.push(sample)[k] == old_yuv[k]);
                    } else if c < col {
                        assert(start + r * hw + c < old_yuv.len());
                        assert(r * hw >= 0) by (nonlinear_arith)
                            requires
                                r >= 0,
                                hw >= 0,
                        ;
                        let k = start + r * hw + c;
                        assert(0 <= k < old_yuv.len());
                        assert(old_yuv.push(sample)[k] == old_yuv[k]);
                    }
                }
            }
            col = col + 1;
        }
        proof {
            assert((row + 1) * hw == row * hw + hw) by (nonlinear_arith);
            assert(2 * (row + 1) * wi == 2 * row * wi + 2 * wi) by (nonlinear_arith);
            assert(2 * (row + 1) * wi <= wi * hi) by (nonlinear_arith)
                requires
                    row < hh,
                    hh == hi / 2,
                    wi >= 0,
                    hi >= 0,
            ;
            assert(wi * hi <= wi * hi * 3) by (nonlinear_arith)
                requires
                    wi >= 0,
                    hi >= 0,
            ;
        }
        row = row + 1;
        if row < hh {
            row_base = row_base + 2 * w;
        }
    }
    assert(hh * hw == hw * hh) by (nonlinear_arith);
}

/// Converts an RGB24 frame to planar YUV 4:2:0 (BT.601).
pub fn convert_rgb_to_yuv420(rgb: &[u8], width: u32, height: u32) -> (yuv: Vec<u8>)
    requires
        width as int * height as int * 3 <= rgb@.len(),
    ensures
        is_yuv420_of(yuv@, rgb@, width as int, height as int),
{
    let w = width as usize;
    let h = height as usize;
    let ghost wi = w as int;
    let ghost hi = h as int;
    let rlen = rgb.len();
    assert(wi * hi <= wi * hi * 3) by (nonlinear_arith)
        requires
            wi >= 0,
            hi >= 0,
    ;
    let y_size = w * h;
    let mut yuv: Vec<u8> = Vec::new();
    // Luma plane: one sample per pixel.
    let mut p: usize = 0;
    while p < y_size
        invariant
            rlen == rgb@.len(),
            y_size == wi * hi,
            3 * y_size <= rgb@.len(),
            p <= y_size,
            yuv@.len() == p,
            forall|q: int|
                0 <= q < p ==> #[trigger] yuv@[q] == bt601_y(
                    rgb@[3 * q],
                    rgb@[3 * q + 1],
                    rgb@[3 * q + 2],
                ),
        decreases y_size - p,
    {
        let i = 3 * p;
        yuv.push(luma(rgb[i], rgb[i + 1], rgb[i + 2]));
        p = p + 1;
    }
    let ghost luma_plane = yuv@;
    // Chroma planes: one sample per 2x2 block, from the block's top-left pixel.
    push_chroma_plane(&mut yuv, rgb, w, h, true);
    let ghost with_u = yuv@;
    push_chroma_plane(&mut yuv, rgb, w, h, false);
    proof {
        let hw = wi / 2;
        let hh = hi / 2;
        let uv = hw * hh;
        assert forall|q: int| 0 <= q < y_size implies #[trigger] yuv@[q] == bt601_y(
            rgb@[3 * q],
            rgb@[3 * q + 1],
            rgb@[3 * q + 2],
        ) by {
            assert(yuv@[q] == with_u[q]);
            assert(with_u[q] == luma_plane[q]);
        }
        assert forall|row: int, col: int| 0 <= row < hh && 0 <= col < hw implies {
            let p = 2 * row * wi + 2 * col;
            &&& #[trigger] yuv@[y_size + row * hw + col] == bt601_u(
                rgb@[3 * p],
                rgb@[3 * p + 1],
                rgb@[3 * p + 2],
            )
            &&& yuv@[y_size + uv + row * hw + col] == bt601_v(
                rgb@[3 * p],
                rgb@[3 * p + 1],
                rgb@[3 * p + 2],
            )
        } by {
            lemma_block_bounds(row, col, wi, hi);
            assert(yuv@[y_size + row * hw + col] == with_u[y_size + row * hw + col]);
            assert(with_u[y_size + row * hw + col] == chroma_at(rgb@, 2 * row * wi + 2 * col, true));
            assert(yuv@[y_size + uv + row * hw + col] == chroma_at(
                rgb@,
                2 * row * wi + 2 * col,
                false,
            ));
        }
    }
    yuv
}


/// The chroma of every 2x2 block of a converted frame is the BT.601 chroma of the block's
/// top-left pixel: chroma sample (`row`, `col`) of each chroma plane comes from pixel
/// (`2 * row`, `2 * col`) of the RGB frame, that is from its three bytes at
/// `3 * ((2 * row) * w + 2 * col)`; and luma sample (`y`, `x`) comes from pixel (`y`, `x`).
pub proof fn lemma_chroma_from_block_top_left(out: Seq<u8>, rgb: Seq<u8>, w: int, h: int)
    requires
        is_yuv420_of(out, rgb, w, h),
        w >= 0,
        h >= 0,
    ensures
        forall|y: int, x: int|
            0 <= y < h && 0 <= x < w ==> #[trigger] out[y * w + x] == bt601_y(
                rgb[3 * (y * w + x)],
                rgb[3 * (y * w + x) + 1],
                rgb[3 * (y * w + x) + 2],
            ),
        forall|row: int, col: int|
            0 <= row < h / 2 && 0 <= col < w / 2 ==> #[trigger] out[w * h + row * (w / 2) + col]
                == bt601_u(
                rgb[3 * ((2 * row) * w + 2 * col)],
                rgb[3 * ((2 * row) * w + 2 * col) + 1],
                rgb[3 * ((2 * row) * w + 2 * col) + 2],
            ),
        forall|row: int, col: int|
            0 <= row < h / 2 && 0 <= col < w / 2 ==> #[trigger] out[w * h + (w / 2) * (h / 2) + row
                * (w / 2) + col] == bt601_v(
                rgb[3 * ((2 * row) * w + 2 * col)],
                rgb[3 * ((2 * row) * w + 2 * col) + 1],
                rgb[3 * ((2 * row) * w + 2 * col) + 2],
            ),
{
    assert forall|y: int, x: int| 0 <= y < h && 0 <= x < w implies #[trigger] out[y * w + x]
        == bt601_y(
        rgb[3 * (y * w + x)],
        rgb[3 * (y * w + x) + 1],
        rgb[3 * (y * w + x) + 2],
    ) by {
        assert(0 <= y * w + x < w * h) by (nonlinear_arith)
            requires
                0 <= y < h,
                0 <= x < w,
        ;
        let p = y * w + x;
        assert(out[p] == bt601_y(rgb[3 * p], rgb[3 * p + 1], rgb[3 * p + 2]));
    }
    assert forall|row: int, col: int| 0 <= row < h / 2 && 0 <= col < w / 2 implies #[trigger] out[w
        * h + row * (w / 2) + col] == bt601_u(
        rgb[3 * ((2 * row) * w + 2 * col)],
        rgb[3 * ((2 * row) * w + 2 * col) + 1],
        rgb[3 * ((2 * row) * w + 2 * col) + 2],
    ) by {
        assert(out[w * h + row * (w / 2) + col] == bt601_u(
            rgb[3 * (2 * row * w + 2 * col)],
            rgb[3 * (2 * row * w + 2 * col) + 1],
            rgb[3 * (2 * row * w + 2 * col) + 2],
        ));
    }
    assert forall|row: int, col: int| 0 <= row < h / 2 && 0 <= col < w / 2 implies #[trigger] out[w
        * h + (w / 2) * (h / 2) + row * (w / 2) + col] == bt601_v(
        rgb[3 * ((2 * row) * w + 2 * col)],
        rgb[3 * ((2 * row) * w + 2 * col) + 1],
        rgb[3 * ((2 * row) * w + 2 * col) + 2],
    ) by {
        assert(out[w * h + row * (w / 2) + col] == bt601_u(
            rgb[3 * (2 * row * w + 2 * col)],
            rgb[3 * (2 * row * w + 2 * col) + 1],
            rgb[3 * (2 * row * w + 2 * col) + 2],
        ));
    }
}

} // verus!
