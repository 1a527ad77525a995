//! Bilinear downscaling of RGBA frames, in 8-bit fixed-point arithmetic:
//! each destination pixel blends the four source pixels around its
//! back-projected position, weighted by the fractional offsets.

use vstd::prelude::*;

use crate::arith::{lemma_pixel_index, mul_le};

verus! {

/// The fixed-point (8 fraction bits) source step per destination cell.
pub open spec fn spec_fixed_ratio(src: int, dst: int) -> int {
    (src * 256) / dst
}

/// The bilinear blend of four channel samples with fixed-point fractional
/// weights `xf` and `yf` (each in `0..256`).
pub open spec fn spec_blend(p00: int, p10: int, p01: int, p11: int, xf: int, yf: int) -> int {
    ((p00 * (256 - xf) + p10 * xf) * (256 - yf) + (p01 * (256 - xf) + p11 * xf) * yf) / 65536
}

/// The byte at position `i` of the scaled output: its pixel's
/// back-projected source coordinates select the four neighbours to blend.
pub open spec fn spec_scaled_byte(
    data: Seq<u8>,
    sw: int,
    sh: int,
    dw: int,
    dh: int,
    i: int,
) -> u8 {
    let c = i % 4;
    let p = i / 4;
    let x = p % dw;
    let y = p / dw;
    let fx = x * spec_fixed_ratio(sw, dw);
    let fy = y * spec_fixed_ratio(sh, dh);
    let x0 = fx / 256;
    let xf = fx % 256;
    let y0 = fy / 256;
    let yf = fy % 256;
    let x1 = if x0 + 1 < sw { x0 + 1 } else { sw - 1 };
    let y1 = if y0 + 1 < sh { y0 + 1 } else { sh - 1 };
    spec_blend(
        data[(y0 * sw + x0) * 4 + c] as int,
        data[(y0 * sw + x1) * 4 + c] as int,
        data[(y1 * sw + x0) * 4 + c] as int,
        data[(y1 * sw + x1) * 4 + c] as int,
        xf,
        yf,
    ) as u8
}

/// The full scaled image.
pub open spec fn spec_scaled(data: Seq<u8>, sw: int, sh: int, dw: int, dh: int) -> Seq<u8> {
    Seq::new((dw * dh * 4) as nat, |i: int| spec_scaled_byte(data, sw, sh, dw, dh, i))
}

/// A back-projected fixed-point coordinate stays within the source: the
/// product is at most `src * 256`, and its integer part is below `src`.
proof fn lemma_coord_bound(src: int, dst: int, x: int)
    requires
        1 <= src,
        1 <= dst,
        0 <= x < dst,
    ensures
        0 <= x * spec_fixed_ratio(src, dst),
        x * spec_fixed_ratio(src, dst) <= src * 256,
        (x * spec_fixed_ratio(src, dst)) / 256 < src,
{
    let q = spec_fixed_ratio(src, dst);
    assert(0 <= q && q * dst <= src * 256) by (nonlinear_arith)
        requires 1 <= dst, 1 <= src, q == (src * 256) / dst;
    assert(0 <= x * q) by (nonlinear_arith)
        requires 0 <= x, 0 <= q;
    mul_le(x, dst - 1, q);
    assert((dst - 1) * q == dst * q - q) by (nonlinear_arith);
    if q == 0 {
        assert(x * q == 0) by (nonlinear_arith)
            requires q == 0;
    } else {
        assert(x * q <= src * 256 - 1);
        assert((src * 256 - 1) / 256 == src - 1) by (nonlinear_arith)
            requires 1 <= src;
        assert(x * q / 256 <= (src * 256 - 1) / 256) by (nonlinear_arith)
            requires 0 <= x * q, x * q <= src * 256 - 1;
    }
}

/// Blending samples below 256 stays below 256.
proof fn lemma_blend_bound(p00: int, p10: int, p01: int, p11: int, xf: int, yf: int)
    requires
        0 <= p00 < 256,
        0 <= p10 < 256,
        0 <= p01 < 256,
        0 <= p11 < 256,
        0 <= xf < 256,
        0 <= yf < 256,
    ensures
        0 <= spec_blend(p00, p10, p01, p11, xf, yf) < 256,
{
    assert(0 <= (p00 * (256 - xf) + p10 * xf) * (256 - yf) + (p01 * (256 - xf) + p11 * xf) * yf
        <= 255 * 65536) by (nonlinear_arith)
        requires
            0 <= p00 < 256, 0 <= p10 < 256, 0 <= p01 < 256, 0 <= p11 < 256,
            0 <= xf < 256, 0 <= yf < 256;
}

/// One blended channel sample, exactly as `spec_blend` states it.
fn blend_channel(
    data: &[u8],
    sw: u32,
    x0: u32,
    x1: u32,
    y0: u32,
    y1: u32,
    xf: u64,
    yf: u64,
    c: u32,
) -> (v: u8)
    requires
        x0 < sw,
        x1 < sw,
        c < 4,
        xf < 256,
        yf < 256,
        (y0 * sw + x0) * 4 + 4 <= data@.len(),
        (y0 * sw + x1) * 4 + 4 <= data@.len(),
        (y1 * sw + x0) * 4 + 4 <= data@.len(),
        (y1 * sw + x1) * 4 + 4 <= data@.len(),
        data@.len() <= usize::MAX,
    ensures
        v as int == spec_blend(
            data@[(y0 * sw + x0) * 4 + c] as int,
            data@[(y0 * sw + x1) * 4 + c] as int,
            data@[(y1 * sw + x0) * 4 + c] as int,
            data@[(y1 * sw + x1) * 4 + c] as int,
            xf as int,
            yf as int,
        ),
{
    let i00: usize = ((y0 as usize) * (sw as usize) + (x0 as usize)) * 4 + (c as usize);
    let i10: usize = ((y0 as usize) * (sw as usize) + (x1 as usize)) * 4 + (c as usize);
    let i01: usize = ((y1 as usize) * (sw as usize) + (x0 as usize)) * 4 + (c as usize);
    let i11: usize = ((y1 as usize) * (sw as usize) + (x1 as usize)) * 4 + (c as usize);
    let p00 = data[i00] as u64;
    let p10 = data[i10] as u64;
    let p01 = data[i01] as u64;
    let p11 = data[i11] as u64;
    proof {
        lemma_blend_bound(p00 as int, p10 as int, p01 as int, p11 as int, xf as int, yf as int);
        assert(p00 * (256 - xf) + p10 * xf <= 255 * 256
            && p01 * (256 - xf) + p11 * xf <= 255 * 256) by (nonlinear_arith)
            requires
                p00 < 256, p10 < 256, p01 < 256, p11 < 256, xf < 256;
    }
    let top: u64 = p00 * (256 - xf) + p10 * xf;
    let bot: u64 = p01 * (256 - xf) + p11 * xf;
    proof {
        assert(top * (256 - yf) + bot * yf <= 255 * 256 * 256) by (nonlinear_arith)
            requires top <= 255 * 256, bot <= 255 * 256, yf < 256;
    }
    let v64: u64 = (top * (256 - yf) + bot * yf) / 65536;
    v64 as u8
}

/// Scales an RGBA image to the destination size with bilinear
/// interpolation over all four channels.
pub fn scale_image(
    data: &[u8],
    src_width: u32,
    src_height: u32,
    dst_width: u32,
    dst_height: u32,
) -> (r: Vec<u8>)
    requires
        src_width >= 1,
        src_height >= 1,
        dst_width >= 1,
        dst_height >= 1,
        data@.len() == src_width * src_height * 4,
        dst_width * dst_height * 4 <= usize::MAX,
    ensures
        r@ == spec_scaled(
            data@,
            src_width as int,
            src_height as int,
            dst_width as int,
            dst_height as int,
        ),
        r@.len() == dst_width * dst_height * 4,
{
    let _ = data.len();
    let x_ratio: u64 = ((src_width as u64) * 256) / (dst_width as u64);
    let y_ratio: u64 = ((src_height as u64) * 256) / (dst_height as u64);
    let mut result: Vec<u8> = Vec::new();
    let mut dst_y: u32 = 0;
    while dst_y < dst_height
        invariant
            0 <= dst_y <= dst_height,
            src_width >= 1,
            src_height >= 1,
            dst_width >= 1,
            dst_height >= 1,
            data@.len() == src_width * src_height * 4,
            data@.len() <= usize::MAX,
            dst_width * dst_height * 4 <= usize::MAX,
            x_ratio == spec_fixed_ratio(src_width as int, dst_width as int),
            y_ratio == spec_fixed_ratio(src_height as int, dst_height as int),
            result@.len() == dst_y * dst_width * 4,
            forall|i: int|
                0 <= i < result@.len() ==> result@[i] == spec_scaled_byte(
                    data@, src_width as int, src_height as int,
                    dst_width as int, dst_height as int, i),
        decreases dst_height - dst_y,
    {
        proof {
            lemma_coord_bound(src_height as int, dst_height as int, dst_y as int);
        }
        let fy: u64 = (dst_y as u64) * y_ratio;
        let y0: u32 = (fy / 256) as u32;
        let yf: u64 = fy % 256;
        let y1: u32 = if y0 + 1 < src_height { y0 + 1 } else { src_height - 1 };
        let mut dst_x: u32 = 0;
        while dst_x < dst_width
            invariant
                0 <= dst_x <= dst_width,
                0 <= dst_y < dst_height,
                src_width >= 1,
                src_height >= 1,
                dst_width >= 1,
                dst_height >= 1,
                data@.len() == src_width * src_height * 4,
                data@.len() <= usize::MAX,
                dst_width * dst_height * 4 <= usize::MAX,
                x_ratio == spec_fixed_ratio(src_width as int, dst_width as int),
                y_ratio == spec_fixed_ratio(src_height as int, dst_height as int),
                fy == dst_y * y_ratio,
                y0 == fy as int / 256,
                yf == fy as int % 256,
                y0 < src_height,
                y1 == (if y0 + 1 < src_height { y0 + 1 } else { src_height - 1 }),
                y1 < src_height,
                result@.len() == (dst_y * dst_width + dst_x) * 4,
                forall|i: int|
                    0 <= i < result@.len() ==> result@[i] == spec_scaled_byte(
                        data@, src_width as int, src_height as int,
                        dst_width as int, dst_height as int, i),
            decreases dst_width - dst_x,
        {
            proof {
                lemma_coord_bound(src_width as int, dst_width as int, dst_x as int);
            }
            let fx: u64 = (dst_x as u64) * x_ratio;
            let x0: u32 = (fx / 256) as u32;
            let xf: u64 = fx % 256;
            let x1: u32 = if x0 + 1 < src_width { x0 + 1 } else { src_width - 1 };
            proof {
                lemma_sample_in_range(src_width as int, src_height as int, y0 as int, x0 as int);
                lemma_sample_in_range(src_width as int, src_height as int, y0 as int, x1 as int);
                lemma_sample_in_range(src_width as int, src_height as int, y1 as int, x0 as int);
                lemma_sample_in_range(src_width as int, src_height as int, y1 as int, x1 as int);
            }
            let v0 = blend_channel(data, src_width, x0, x1, y0, y1, xf, yf, 0);
            let v1 = blend_channel(data, src_width, x0, x1, y0, y1, xf, yf, 1);
            let v2 = blend_channel(data, src_width, x0, x1, y0, y1, xf, yf, 2);
            let v3 = blend_channel(data, src_width, x0, x1, y0, y1, xf, yf, 3);
            proof {
                assert((dst_y * (dst_width as int) + dst_x) * 4 + 4 <= dst_width * dst_height * 4)
                    by (nonlinear_arith)
                    requires 0 <= dst_x < dst_width as int, 0 <= dst_y < dst_height as int;
            }
            result.push(v0);
            result.push(v1);
            result.push(v2);
            result.push(v3);
            proof {
                let p = dst_y * (dst_width as int) + dst_x;
                lemma_pixel_index(dst_width as int, dst_y as int, dst_x as int);
                assert forall|i: int| 0 <= i < result@.len() implies result@[i]
                    == spec_scaled_byte(
                        data@, src_width as int, src_height as int,
                        dst_width as int, dst_height as int, i) by {
                    if i == p * 4 || i == p * 4 + 1 || i == p * 4 + 2 || i == p * 4 + 3 {
                    }
                }
                assert((dst_y * (dst_width as int) + dst_x + 1) * 4
                    == (dst_y * (dst_width as int) + dst_x) * 4 + 4) by (nonlinear_arith);
            }
            dst_x = dst_x + 1;
        }
        proof {
            assert((dst_y + 1) * (dst_width as int) * 4
                == (dst_y * (dst_width as int) + dst_width) * 4) by (nonlinear_arith);
        }
        dst_y = dst_y + 1;
    }
    proof {
        assert(dst_width * dst_height * 4 == dst_height * dst_width * 4) by (nonlinear_arith);
        assert(result@ =~= spec_scaled(
            data@, src_width as int, src_height as int, dst_width as int, dst_height as int));
    }
    result
}

/// A sample inside the source rectangle indexes inside the source bytes.
proof fn lemma_sample_in_range(sw: int, sh: int, y: int, x: int)
    requires
        0 <= x < sw,
        0 <= y < sh,
    ensures
        (y * sw + x) * 4 + 4 <= sw * sh * 4,
{
    assert((y * sw + x) * 4 + 4 <= sw * sh * 4) by (nonlinear_arith)
        requires 0 <= x < sw, 0 <= y < sh;
}

} // verus!
