//! Pixel work on a raw screen grab: a nearest-neighbour downscale, and a test for a blank window.
//!
//! The grab itself is an operating-system call that lives with the program; what it hands back is a
//! packed top-down BGRA buffer, four bytes a pixel, which is what these functions take.

use vstd::prelude::*;

verus! {

/// The integer step of a nearest-neighbour downscale of `width` to at most `max_width` pixels
/// (a cap of zero is taken as one): `ceil(width / max_width)`, at least one.
pub open spec fn step_of(width: u32, max_width: u16) -> nat {
    let cap: int = if max_width == 0 {
        1
    } else {
        max_width as int
    };
    let s = (width + cap - 1) / cap;
    if s < 1 {
        1
    } else {
        s as nat
    }
}

/// One side after the downscale: the side divided by the step, at least one.
pub open spec fn scaled_side(side: u32, step: nat) -> nat {
    let s = side as int / step as int;
    if s < 1 {
        1
    } else {
        s as nat
    }
}

/// The byte offset in the source of the pixel sampled for output pixel `(x, y)`.
pub open spec fn sample_offset(x: nat, y: nat, width: u32, step: nat) -> nat {
    (((y * step) * width + x * step) * 4) as nat
}

/// The number of source bytes the downscale reads: up to the end of its last sampled pixel.
pub open spec fn downscale_reads(width: u32, height: u32, max_width: u16) -> nat {
    let step = step_of(width, max_width);
    let w = scaled_side(width, step);
    let h = scaled_side(height, step);
    sample_offset((w - 1) as nat, (h - 1) as nat, width, step) + 4
}

/// The downscaled pixels: output pixel `(x, y)` is source pixel `(x * step, y * step)`.
pub open spec fn downscale_spec(pixels: Seq<u8>, width: u32, height: u32, max_width: u16) -> Seq<
    u8,
> {
    let step = step_of(width, max_width);
    let w = scaled_side(width, step);
    let h = scaled_side(height, step);
    Seq::new(
        w * h * 4,
        |i: int|
            {
                let p = i / 4;
                pixels[sample_offset((p % (w as int)) as nat, (p / (w as int)) as nat, width, step)
                    + i % 4]
            },
    )
}

proof fn lemma_offsets_grow(x: nat, y: nat, w: nat, h: nat, width: u32, step: nat)
    requires
        x < w,
        y < h,
        w >= 1,
        h >= 1,
    ensures
        sample_offset(x, y, width, step) <= sample_offset((w - 1) as nat, (h - 1) as nat, width, step),
{
    assert(sample_offset(x, y, width, step) <= sample_offset((w - 1) as nat, (h - 1) as nat, width, step))
        by (nonlinear_arith)
        requires
            x <= w - 1,
            y <= h - 1,
    ;
}

proof fn lemma_row_start_fits(y: nat, out_h: nat, height: u32, step: nat)
    requires
        step >= 1,
        out_h == scaled_side(height, step),
        y < out_h,
    ensures
        y * step <= height,
{
    if height as int / step as int >= 1 {
        assert(y * step <= height) by (nonlinear_arith)
            requires
                y < height as int / step as int,
                step >= 1,
        ;
    } else {
        assert(y == 0);
        assert(y * step == 0) by (nonlinear_arith)
            requires
                y == 0,
        ;
    }
}

/// Nearest-neighbour downscale by an integer factor, keeping the aspect ratio: returns the pixels
/// and the new width and height.
pub fn downscale(pixels: &[u8], width: u32, height: u32, max_width: u16) -> (r: (Vec<u8>, u32, u32))
    requires
        pixels@.len() >= downscale_reads(width, height, max_width),
    ensures
        r.1 == scaled_side(width, step_of(width, max_width)),
        r.2 == scaled_side(height, step_of(width, max_width)),
        r.0@ == downscale_spec(pixels@, width, height, max_width),
{
    let cap: u32 = if max_width == 0 {
        1
    } else {
        max_width as u32
    };
    proof {
        assert(width % cap != 0 ==> width / cap < width) by (nonlinear_arith)
            requires
                cap >= 1,
        ;
    }
    let s: u32 = if width % cap != 0 {
        width / cap + 1
    } else {
        width / cap
    };
    proof {
        assert(width / cap + (if width % cap != 0 {
            1int
        } else {
            0int
        }) == (width + cap - 1) / (cap as int)) by (nonlinear_arith)
            requires
                cap >= 1,
        ;
    }
    let step: u32 = if s < 1 {
        1
    } else {
        s
    };
    let out_w: u32 = if width / step < 1 {
        1
    } else {
        width / step
    };
    let out_h: u32 = if height / step < 1 {
        1
    } else {
        height / step
    };
    let ghost spec_step = step_of(width, max_width);
    assert(step == spec_step);
    let len: usize = pixels.len();
    let mut out: Vec<u8> = Vec::new();
    let mut y: u32 = 0;
    while y < out_h
        invariant
            step == spec_step,
            spec_step == step_of(width, max_width),
            step >= 1,
            out_w == scaled_side(width, spec_step),
            out_h == scaled_side(height, spec_step),
            len == pixels@.len(),
            pixels@.len() >= downscale_reads(width, height, max_width),
            y <= out_h,
            out@.len() == y * out_w * 4,
            forall|i: int|
                0 <= i < out@.len() ==> #[trigger] out@[i] == downscale_spec(
                    pixels@,
                    width,
                    height,
                    max_width,
                )[i],
        decreases out_h - y,
    {
        let mut x: u32 = 0;
        while x < out_w
            invariant
                step == spec_step,
                spec_step == step_of(width, max_width),
                step >= 1,
                out_w == scaled_side(width, spec_step),
                out_h == scaled_side(height, spec_step),
                len == pixels@.len(),
                pixels@.len() >= downscale_reads(width, height, max_width),
                y < out_h,
                x <= out_w,
                out@.len() == (y * out_w + x) * 4,
                forall|i: int|
                    0 <= i < out@.len() ==> #[trigger] out@[i] == downscale_spec(
                        pixels@,
                        width,
                        height,
                        max_width,
                    )[i],
            decreases out_w - x,
        {
            proof {
                lemma_offsets_grow(x as nat, y as nat, out_w as nat, out_h as nat, width, spec_step);
                assert(scaled_side(width, step_of(width, max_width)) == out_w);
                assert(scaled_side(height, step_of(width, max_width)) == out_h);
                assert(downscale_reads(width, height, max_width) == sample_offset(
                    (out_w - 1) as nat,
                    (out_h - 1) as nat,
                    width,
                    spec_step,
                ) + 4);
                lemma_row_start_fits(y as nat, out_h as nat, height, spec_step);
            }
            let ghost off = sample_offset(x as nat, y as nat, width, spec_step);
            assert(off + 4 <= len);
            let yy: usize = (y as usize) * (step as usize);
            assert(yy * width <= off) by (nonlinear_arith)
                requires
                    yy == y * step,
                    off == ((y * step) * width + x * step) * 4,
            ;
            let row: usize = yy * (width as usize) + (x as usize) * (step as usize);
            assert(row * 4 == off);
            let i: usize = row * 4;
            let ghost before = out@.len();
            out.push(pixels[i]);
            out.push(pixels[i + 1]);
            out.push(pixels[i + 2]);
            out.push(pixels[i + 3]);
            proof {
                let p = (y * out_w + x) as int;
                assert(before == p * 4);
                assert(p < out_w * out_h) by (nonlinear_arith)
                    requires
                        p == y * out_w + x,
                        x < out_w,
                        y < out_h,
                ;
                assert forall|k: int| before <= k < before + 4 implies #[trigger] out@[k]
                    == downscale_spec(pixels@, width, height, max_width)[k] by {
                    assert(k / 4 == p);
                    assert(p % (out_w as int) == x as int && p / (out_w as int) == y as int)
                        by (nonlinear_arith)
                        requires
                            p == y * out_w + x,
                            x < out_w,
                    ;
                }
            }
            x = x + 1;
        }
        proof {
            assert((y * out_w + out_w) * 4 == (y + 1) * out_w * 4) by (nonlinear_arith);
        }
        y = y + 1;
    }
    assert(out_h * out_w * 4 == out_w * out_h * 4) by (nonlinear_arith);
    assert(out@ =~= downscale_spec(pixels@, width, height, max_width));
    (out, out_w, out_h)
}

/// The row a blank test samples: about 60% of the way down, past the title bar.
pub open spec fn blank_row(height: i32) -> int {
    if height * 3 / 5 < height - 1 {
        height * 3 / 5
    } else {
        height - 1
    }
}

/// The byte offset of the first pixel of the sampled row.
pub open spec fn blank_base(width: i32, height: i32) -> int {
    blank_row(height) * width * 4
}

/// The distance between sampled pixels: up to 64 samples along the row.
pub open spec fn blank_stride(width: i32) -> int {
    if width / 64 < 1 {
        1
    } else {
        width / 64
    }
}

/// Whether a captured window image is blank: too short for its size, empty, or one flat colour
/// along the sampled row.
pub open spec fn looks_blank_spec(pixels: Seq<u8>, width: i32, height: i32) -> bool {
    if width <= 0 || height <= 0 || pixels.len() < width * height * 4 {
        true
    } else {
        forall|x: int|
            0 <= x < width && x % blank_stride(width) == 0 ==> #[trigger] pixels.subrange(
                blank_base(width, height) + x * 4,
                blank_base(width, height) + x * 4 + 4,
            ) == pixels.subrange(blank_base(width, height), blank_base(width, height) + 4)
    }
}

/// Whether a captured window image looks blank, as a minimised or occluded window renders.
pub fn looks_blank(pixels: &[u8], width: i32, height: i32) -> (blank: bool)
    ensures
        blank == looks_blank_spec(pixels@, width, height),
{
    if width <= 0 || height <= 0 {
        return true;
    }
    let w: usize = width as usize;
    let h: usize = height as usize;
    proof {
        assert(w * h * 4 <= i32::MAX as nat * i32::MAX as nat * 4) by (nonlinear_arith)
            requires
                w <= i32::MAX,
                h <= i32::MAX,
        ;
    }
    let len: usize = pixels.len();
    if (len as u128) < (w as u128) * (h as u128) * 4 {
        return true;
    }
    let h3: u64 = (h as u64) * 3 / 5;
    let row: usize = if h3 < (h as u64) - 1 {
        h3 as usize
    } else {
        h - 1
    };
    proof {
        assert(row * w * 4 + w * 4 <= w * h * 4) by (nonlinear_arith)
            requires
                row < h,
        ;
    }
    let base: usize = row * w * 4;
    let stride: usize = if w / 64 < 1 {
        1
    } else {
        w / 64
    };
    assert(row == blank_row(height));
    assert(base == blank_base(width, height));
    let mut x: usize = 0;
    while x < w
        invariant
            len == pixels@.len(),
            pixels@.len() >= width * height * 4,
            height > 0,
            w == width,
            base == blank_base(width, height),
            stride == blank_stride(width),
            base + w * 4 <= len,
            w <= i32::MAX,
            stride >= 1,
            stride <= w,
            x <= w + stride,
            x % stride == 0,
            forall|k: int|
                0 <= k < x && k < w && k % blank_stride(width) == 0 ==> #[trigger] pixels@.subrange(
                    blank_base(width, height) + k * 4,
                    blank_base(width, height) + k * 4 + 4,
                ) == pixels@.subrange(blank_base(width, height), blank_base(width, height) + 4),
        decreases w + stride - x,
    {
        let p: usize = base + x * 4;
        if pixels[p] != pixels[base] || pixels[p + 1] != pixels[base + 1] || pixels[p + 2]
            != pixels[base + 2] || pixels[p + 3] != pixels[base + 3] {
            proof {
                assert(pixels@.subrange(p as int, p + 4)[0] == pixels@[p as int]);
                assert(pixels@.subrange(base as int, base + 4)[0] == pixels@[base as int]);
                assert(pixels@.subrange(p as int, p + 4)[1] == pixels@[p + 1]);
                assert(pixels@.subrange(p as int, p + 4)[2] == pixels@[p + 2]);
                assert(pixels@.subrange(p as int, p + 4)[3] == pixels@[p + 3]);
                assert(pixels@.subrange(p as int, p + 4) != pixels@.subrange(base as int, base + 4));
                let xi = x as int;
                assert(!(pixels@.len() < width * height * 4));
                assert(0 <= xi < width);
                assert(xi % blank_stride(width) == 0);
                assert(pixels@.subrange(
                    blank_base(width, height) + xi * 4,
                    blank_base(width, height) + xi * 4 + 4,
                ) != pixels@.subrange(blank_base(width, height), blank_base(width, height) + 4));
            }
            return false;
        }
        proof {
            assert(pixels@.subrange(p as int, p + 4) =~= pixels@.subrange(base as int, base + 4));
            assert forall|k: int|
                0 <= k < x + stride && k < w && k % blank_stride(width) == 0 implies #[trigger] pixels@.subrange(
                blank_base(width, height) + k * 4,
                blank_base(width, height) + k * 4 + 4,
            ) == pixels@.subrange(blank_base(width, height), blank_base(width, height) + 4) by {
                if k >= x {
                    assert(k == x) by (nonlinear_arith)
                        requires
                            x <= k < x + stride,
                            x % stride == 0,
                            k % (stride as int) == 0,
                            stride >= 1,
                    ;
                }
            }
            assert((x + stride) % (stride as int) == 0) by (nonlinear_arith)
                requires
                    x % stride == 0,
                    stride >= 1,
            ;
        }
        x = x + stride;
    }
    true
}

} // verus!
