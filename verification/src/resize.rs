//! Resizing a captured frame to an exact target size.
//!
//! [`area_average`] gives every destination pixel the average of the exact source rectangle it
//! covers, partial coverage at the edges included. That is a proper low-pass filter: a fine
//! checkerboard shrinks to flat grey instead of aliasing to black or white, and a ratio that is not a
//! whole number (2560 to 1920) is expressed exactly.
//!
//! The arithmetic is exact. Along one axis the destination band `d` covers
//! `[d * src / dst, (d + 1) * src / dst)` in source pixels; scaling every coordinate by `dst` keeps
//! all of it in integers, so the weight of source pixel `s` in band `d` is the integer overlap of
//! `[d * src, (d + 1) * src)` and `[s * dst, (s + 1) * dst)`. The weights of one band add up to
//! `src` exactly, so a destination pixel is the weighted sum divided by `src_w * src_h`, rounded
//! half up.

use vstd::prelude::*;

verus! {

/// Bytes per pixel in the BGRA frames the capture path produces.
pub const CHANNELS: usize = 4;

/// How much of source pixel `s` lies in destination band `d`, in units of `1 / dst_len` pixel.
pub open spec fn overlap(d: int, s: int, src_len: int, dst_len: int) -> int {
    let lo = if d * src_len > s * dst_len { d * src_len } else { s * dst_len };
    let hi = if (d + 1) * src_len < (s + 1) * dst_len { (d + 1) * src_len } else { (s + 1) * dst_len };
    if hi > lo { hi - lo } else { 0 }
}

/// `f(lo) + f(lo + 1) + ... + f(hi - 1)`.
pub open spec fn range_sum(f: spec_fn(int) -> int, lo: int, hi: int) -> int
    decreases hi - lo,
{
    if hi <= lo {
        0
    } else {
        range_sum(f, lo, hi - 1) + f(hi - 1)
    }
}

/// One channel of one source pixel.
pub open spec fn texel(src: Seq<u8>, sw: int, sy: int, sx: int, c: int) -> int {
    src[(sy * sw + sx) * 4 + c] as int
}

/// The weights of every source pixel in destination band `d`.
pub open spec fn band_weights(d: int, src_len: int, dst_len: int) -> spec_fn(int) -> int {
    |s: int| overlap(d, s, src_len, dst_len)
}

/// The terms of one source row, channel `c`, weighted by destination column `dx`.
pub open spec fn row_terms(src: Seq<u8>, sw: int, dw: int, dx: int, c: int, sy: int) -> spec_fn(int) -> int {
    |sx: int| texel(src, sw, sy, sx, c) * overlap(dx, sx, sw, dw)
}

/// Source row `sy`, channel `c`, weighted by how it falls into destination column `dx`.
pub open spec fn row_sum(src: Seq<u8>, sw: int, dw: int, dx: int, c: int, sy: int) -> int {
    range_sum(row_terms(src, sw, dw, dx, c, sy), 0, sw)
}

/// The rows under destination pixel `(dx, dy)`, each weighted by destination row `dy`.
pub open spec fn area_terms(src: Seq<u8>, sw: int, sh: int, dw: int, dh: int, dy: int, dx: int, c: int) -> spec_fn(int) -> int {
    |sy: int| overlap(dy, sy, sh, dh) * row_sum(src, sw, dw, dx, c, sy)
}

/// The weighted sum of channel `c` over the source rectangle under destination pixel `(dx, dy)`.
pub open spec fn area_sum(src: Seq<u8>, sw: int, sh: int, dw: int, dh: int, dy: int, dx: int, c: int) -> int {
    range_sum(area_terms(src, sw, sh, dw, dh, dy, dx, c), 0, sh)
}

/// Channel `c` of destination pixel `(dx, dy)`: the area average, rounded half up, at most 255.
pub open spec fn averaged(src: Seq<u8>, sw: int, sh: int, dw: int, dh: int, dy: int, dx: int, c: int) -> int {
    let total = sw * sh;
    let r = (2 * area_sum(src, sw, sh, dw, dh, dy, dx, c) + total) / (2 * total);
    if r > 255 { 255 } else { r }
}

/// Whether `src` describes a usable `sw` by `sh` frame for a `dw` by `dh` target.
pub open spec fn resizable(src_len: int, sw: int, sh: int, dw: int, dh: int) -> bool {
    sw > 0 && sh > 0 && dw > 0 && dh > 0 && src_len >= sw * sh * 4
}

/// What [`area_average`] returns.
pub open spec fn area_average_spec(src: Seq<u8>, sw: int, sh: int, dw: int, dh: int) -> Seq<u8> {
    if !resizable(src.len() as int, sw, sh, dw, dh) {
        Seq::empty()
    } else if sw == dw && sh == dh {
        src.take(sw * sh * 4)
    } else {
        Seq::new(
            (dw * dh * 4) as nat,
            |k: int| averaged(src, sw, sh, dw, dh, k / (4 * dw), (k / 4) % dw, k % 4) as u8,
        )
    }
}

/// Splitting a sum at an inner point.
pub proof fn lemma_range_sum_split(f: spec_fn(int) -> int, a: int, b: int, c: int)
    requires
        a <= b <= c,
    ensures
        range_sum(f, a, c) == range_sum(f, a, b) + range_sum(f, b, c),
    decreases c - b,
{
    if c > b {
        lemma_range_sum_split(f, a, b, c - 1);
    }
}

/// A sum of zeros is zero.
pub proof fn lemma_range_sum_zero(f: spec_fn(int) -> int, a: int, b: int)
    requires
        forall|i: int| a <= i < b ==> #[trigger] f(i) == 0,
    ensures
        range_sum(f, a, b) == 0,
    decreases b - a,
{
    if b > a {
        lemma_range_sum_zero(f, a, b - 1);
    }
}

/// A sum of terms each at most `k` times the matching term of another is at most `k` times it.
pub proof fn lemma_range_sum_scaled_bound(f: spec_fn(int) -> int, g: spec_fn(int) -> int, k: int, a: int, b: int)
    requires
        k >= 0,
        forall|i: int| a <= i < b ==> 0 <= #[trigger] f(i) <= k * g(i),
    ensures
        0 <= range_sum(f, a, b) <= k * range_sum(g, a, b),
    decreases b - a,
{
    if b > a {
        lemma_range_sum_scaled_bound(f, g, k, a, b - 1);
        let x = range_sum(g, a, b - 1);
        let y = g(b - 1);
        assert(range_sum(g, a, b) == x + y);
        assert(k * (x + y) == k * x + k * y) by (nonlinear_arith);
    }
}

/// Partial sums of non-negative terms never exceed the whole.
pub proof fn lemma_range_sum_prefix_le(f: spec_fn(int) -> int, a: int, m: int, b: int)
    requires
        a <= m <= b,
        forall|i: int| a <= i < b ==> 0 <= #[trigger] f(i),
    ensures
        0 <= range_sum(f, a, m) <= range_sum(f, a, b),
    decreases b - m,
{
    if b > m {
        lemma_range_sum_prefix_le(f, a, m, b - 1);
    } else {
        lemma_range_sum_scaled_bound(f, f, 1, a, m);
    }
}

/// The weights of the first `k` source pixels in band `d`, as one clamped length.
proof fn lemma_overlap_prefix(d: int, src_len: int, dst_len: int, k: int)
    requires
        d >= 0,
        src_len > 0,
        dst_len > 0,
        k >= 0,
    ensures
        range_sum(band_weights(d, src_len, dst_len), 0, k) == ({
            let a = d * src_len;
            let b = (d + 1) * src_len;
            let m = if b < k * dst_len { b } else { k * dst_len };
            if m > a { m - a } else { 0 }
        }),
    decreases k,
{
    let f = band_weights(d, src_len, dst_len);
    assert(d * src_len >= 0) by (nonlinear_arith)
        requires
            d >= 0,
            src_len > 0,
    ;
    assert((d + 1) * src_len == d * src_len + src_len) by (nonlinear_arith);
    let a = d * src_len;
    let b = (d + 1) * src_len;
    if k > 0 {
        lemma_overlap_prefix(d, src_len, dst_len, k - 1);
        let p = (k - 1) * dst_len;
        let q = k * dst_len;
        assert(q == p + dst_len) by (nonlinear_arith)
            requires
                p == (k - 1) * dst_len,
                q == k * dst_len,
        ;
        assert(p >= 0) by (nonlinear_arith)
            requires
                k >= 1,
                dst_len > 0,
                p == (k - 1) * dst_len,
        ;
        assert(((k - 1) + 1) * dst_len == q);
        let prev = range_sum(f, 0, k - 1);
        assert(prev == ({
            let m = if b < p { b } else { p };
            if m > a { m - a } else { 0 }
        }));
        let w = f(k - 1);
        assert(w == ({
            let lo = if a > p { a } else { p };
            let hi = if b < q { b } else { q };
            if hi > lo { hi - lo } else { 0 }
        }));
        assert(range_sum(f, 0, k) == prev + w);
    } else {
        assert(k * dst_len == 0) by (nonlinear_arith)
            requires
                k == 0,
        ;
    }
}

/// The weights of one band add up to the source length.
pub proof fn lemma_overlap_total(d: int, src_len: int, dst_len: int)
    requires
        0 <= d < dst_len,
        src_len > 0,
    ensures
        range_sum(band_weights(d, src_len, dst_len), 0, src_len) == src_len,
{
    lemma_overlap_prefix(d, src_len, dst_len, src_len);
    assert((d + 1) * src_len <= src_len * dst_len) by (nonlinear_arith)
        requires
            d + 1 <= dst_len,
            src_len > 0,
    ;
    assert((d + 1) * src_len == d * src_len + src_len) by (nonlinear_arith);
}

/// One weight is never more than the source length.
pub proof fn lemma_overlap_bounded(d: int, s: int, src_len: int, dst_len: int)
    requires
        src_len > 0,
        dst_len > 0,
    ensures
        0 <= overlap(d, s, src_len, dst_len) <= src_len,
{
    assert((d + 1) * src_len == d * src_len + src_len) by (nonlinear_arith);
}

/// Source pixels before `floor(d * src / dst)` or from `ceil((d + 1) * src / dst)` on carry no
/// weight in band `d`.
proof fn lemma_overlap_outside(d: int, s: int, src_len: int, dst_len: int)
    requires
        d >= 0,
        s >= 0,
        src_len > 0,
        dst_len > 0,
        s < (d * src_len) / dst_len || s >= ((d + 1) * src_len + dst_len - 1) / dst_len,
    ensures
        overlap(d, s, src_len, dst_len) == 0,
{
    let a = d * src_len;
    let b = (d + 1) * src_len;
    assert(d * src_len >= 0) by (nonlinear_arith)
        requires
            d >= 0,
            src_len > 0,
    ;
    assert((d + 1) * src_len >= 0) by (nonlinear_arith)
        requires
            d >= 0,
            src_len > 0,
    ;
    if s < a / dst_len {
        assert((s + 1) * dst_len <= a) by (nonlinear_arith)
            requires
                s + 1 <= a / dst_len,
                dst_len > 0,
                a >= 0,
        ;
    } else {
        assert(s * dst_len >= b) by (nonlinear_arith)
            requires
                s >= (b + dst_len - 1) / dst_len,
                dst_len > 0,
                b >= 0,
        ;
    }
    assert(d * src_len >= 0) by (nonlinear_arith)
        requires
            d >= 0,
            src_len > 0,
    ;
}


/// Row sums lie between 0 and 255 times the source width.
pub proof fn lemma_row_sum_bounded(src: Seq<u8>, sw: int, dw: int, dx: int, c: int, sy: int)
    requires
        sw > 0,
        dw > 0,
        0 <= dx < dw,
    ensures
        0 <= row_sum(src, sw, dw, dx, c, sy) <= 255 * sw,
{
    let f = row_terms(src, sw, dw, dx, c, sy);
    let g = band_weights(dx, sw, dw);
    assert forall|i: int| 0 <= i < sw implies 0 <= #[trigger] f(i) <= 255 * g(i) by {
        lemma_overlap_bounded(dx, i, sw, dw);
        let t = texel(src, sw, sy, i, c);
        let w = overlap(dx, i, sw, dw);
        assert(0 <= t * w <= 255 * w) by (nonlinear_arith)
            requires
                0 <= t <= 255,
                w >= 0,
        ;
    }
    lemma_range_sum_scaled_bound(f, g, 255, 0, sw);
    lemma_overlap_total(dx, sw, dw);
}

/// Area sums lie between 0 and 255 times the source area.
pub proof fn lemma_area_sum_bounded(src: Seq<u8>, sw: int, sh: int, dw: int, dh: int, dy: int, dx: int, c: int)
    requires
        sw > 0,
        sh > 0,
        dw > 0,
        dh > 0,
        0 <= dy < dh,
        0 <= dx < dw,
    ensures
        0 <= area_sum(src, sw, sh, dw, dh, dy, dx, c) <= 255 * sw * sh,
{
    let f = area_terms(src, sw, sh, dw, dh, dy, dx, c);
    let g = band_weights(dy, sh, dh);
    assert forall|i: int| 0 <= i < sh implies 0 <= #[trigger] f(i) <= (255 * sw) * g(i) by {
        lemma_overlap_bounded(dy, i, sh, dh);
        lemma_row_sum_bounded(src, sw, dw, dx, c, i);
        let r = row_sum(src, sw, dw, dx, c, i);
        let w = overlap(dy, i, sh, dh);
        assert(0 <= w * r <= (255 * sw) * w) by (nonlinear_arith)
            requires
                0 <= r <= 255 * sw,
                w >= 0,
        ;
    }
    lemma_range_sum_scaled_bound(f, g, 255 * sw, 0, sh);
    lemma_overlap_total(dy, sh, dh);
}

/// A sum of terms each `k` times the matching term of another is `k` times its sum.
pub proof fn lemma_range_sum_scaled(f: spec_fn(int) -> int, g: spec_fn(int) -> int, k: int, a: int, b: int)
    requires
        forall|i: int| a <= i < b ==> #[trigger] f(i) == k * g(i),
    ensures
        range_sum(f, a, b) == k * range_sum(g, a, b),
    decreases b - a,
{
    if b > a {
        lemma_range_sum_scaled(f, g, k, a, b - 1);
        let x = range_sum(g, a, b - 1);
        let y = g(b - 1);
        assert(k * (x + y) == k * x + k * y) by (nonlinear_arith);
    } else {
        assert(k * 0 == 0) by (nonlinear_arith);
    }
}

/// Area averaging is a low-pass filter that keeps flat colour flat: where one channel has the same
/// value `v` in every source pixel, it has that value in every destination pixel, whatever the
/// ratio.
pub proof fn lemma_flat_stays_flat(src: Seq<u8>, sw: int, sh: int, dw: int, dh: int, c: int, v: int)
    requires
        sw > 0,
        sh > 0,
        dw > 0,
        dh > 0,
        0 <= v <= 255,
        forall|sy: int, sx: int| 0 <= sy < sh && 0 <= sx < sw ==> #[trigger] texel(src, sw, sy, sx, c) == v,
    ensures
        forall|dy: int, dx: int|
            0 <= dy < dh && 0 <= dx < dw ==> #[trigger] averaged(src, sw, sh, dw, dh, dy, dx, c) == v,
{
    assert forall|dy: int, dx: int| 0 <= dy < dh && 0 <= dx < dw implies #[trigger] averaged(
        src,
        sw,
        sh,
        dw,
        dh,
        dy,
        dx,
        c,
    ) == v by {
        assert forall|sy: int| 0 <= sy < sh implies #[trigger] row_sum(src, sw, dw, dx, c, sy) == v * sw by {
            let f = row_terms(src, sw, dw, dx, c, sy);
            let g = band_weights(dx, sw, dw);
            assert forall|i: int| 0 <= i < sw implies #[trigger] f(i) == v * g(i) by {
                assert(texel(src, sw, sy, i, c) == v);
            }
            lemma_range_sum_scaled(f, g, v, 0, sw);
            lemma_overlap_total(dx, sw, dw);
        }
        let f = area_terms(src, sw, sh, dw, dh, dy, dx, c);
        let g = band_weights(dy, sh, dh);
        assert forall|i: int| 0 <= i < sh implies #[trigger] f(i) == (v * sw) * g(i) by {
            assert(row_sum(src, sw, dw, dx, c, i) == v * sw);
            let w = overlap(dy, i, sh, dh);
            assert(w * (v * sw) == (v * sw) * w) by (nonlinear_arith);
        }
        lemma_range_sum_scaled(f, g, v * sw, 0, sh);
        lemma_overlap_total(dy, sh, dh);
        let t = sw * sh;
        let a = area_sum(src, sw, sh, dw, dh, dy, dx, c);
        assert(a == (v * sw) * sh);
        assert(t > 0) by (nonlinear_arith)
            requires
                sw > 0,
                sh > 0,
                t == sw * sh,
        ;
        assert((2 * a + t) / (2 * t) == v) by (nonlinear_arith)
            requires
                a == (v * sw) * sh,
                t == sw * sh,
                t > 0,
                0 <= v,
        {
            assert(2 * a + t == v * (2 * t) + t);
        }
    }
}

/// `overlap`, computed.
fn overlap_exec(d: u128, s: u128, src_len: u128, dst_len: u128) -> (w: u128)
    requires
        d < 0x1_0000_0000,
        s < 0x1_0000_0000,
        src_len < 0x1_0000_0000,
        dst_len < 0x1_0000_0000,
    ensures
        w == overlap(d as int, s as int, src_len as int, dst_len as int),
{
    assert(d * src_len < 0x1_0000_0000 * 0x1_0000_0000) by (nonlinear_arith)
        requires
            d < 0x1_0000_0000,
            src_len < 0x1_0000_0000,
    ;
    assert((d + 1) * src_len <= 0x1_0000_0000 * 0x1_0000_0000) by (nonlinear_arith)
        requires
            d < 0x1_0000_0000,
            src_len < 0x1_0000_0000,
    ;
    assert(s * dst_len < 0x1_0000_0000 * 0x1_0000_0000) by (nonlinear_arith)
        requires
            s < 0x1_0000_0000,
            dst_len < 0x1_0000_0000,
    ;
    assert((s + 1) * dst_len <= 0x1_0000_0000 * 0x1_0000_0000) by (nonlinear_arith)
        requires
            s < 0x1_0000_0000,
            dst_len < 0x1_0000_0000,
    ;
    let lo = if d * src_len > s * dst_len { d * src_len } else { s * dst_len };
    let hi = if (d + 1) * src_len < (s + 1) * dst_len { (d + 1) * src_len } else { (s + 1) * dst_len };
    if hi > lo { hi - lo } else { 0 }
}

/// The source pixels that can carry weight in destination band `d`: `[first, end)`.
fn band_window(d: u128, src_len: u128, dst_len: u128) -> (r: (u128, u128))
    requires
        d < dst_len,
        0 < src_len < 0x1_0000_0000,
        0 < dst_len < 0x1_0000_0000,
    ensures
        r.0 <= r.1 <= src_len,
        forall|s: int|
            0 <= s < src_len && (s < r.0 || s >= r.1) ==> overlap(d as int, s, src_len as int, dst_len as int) == 0,
{
    assert(d * src_len < 0x1_0000_0000 * 0x1_0000_0000) by (nonlinear_arith)
        requires
            d < 0x1_0000_0000,
            src_len < 0x1_0000_0000,
    ;
    assert((d + 1) * src_len <= 0x1_0000_0000 * 0x1_0000_0000) by (nonlinear_arith)
        requires
            d < 0x1_0000_0000,
            src_len < 0x1_0000_0000,
    ;
    let first = d * src_len / dst_len;
    assert(first < src_len) by (nonlinear_arith)
        requires
            first == (d * src_len) as int / dst_len as int,
            d < dst_len,
            src_len > 0,
            dst_len > 0,
    ;
    let ceil = ((d + 1) * src_len + dst_len - 1) / dst_len;
    let end = if ceil < src_len { ceil } else { src_len };
    let end = if end < first { first } else { end };
    assert forall|s: int|
        0 <= s < src_len && (s < first || s >= end) implies overlap(d as int, s, src_len as int, dst_len as int) == 0 by {
        lemma_overlap_outside(d as int, s, src_len as int, dst_len as int);
    }
    (first, end)
}

/// Splits the index of channel `c` of pixel `(dx, dy)` back into its parts.
proof fn lemma_pixel_index(dy: int, dx: int, c: int, dw: int, dh: int)
    requires
        0 <= dy < dh,
        0 <= dx < dw,
        0 <= c < 4,
    ensures
        ((dy * dw + dx) * 4 + c) / (4 * dw) == dy,
        (((dy * dw + dx) * 4 + c) / 4) % dw == dx,
        ((dy * dw + dx) * 4 + c) % 4 == c,
        (dy * dw + dx) * 4 + c < dw * dh * 4,
        (dy * dw + dx) * 4 + c == dy * (4 * dw) + (4 * dx + c),
{
    let k = (dy * dw + dx) * 4 + c;
    assert((dy * dw + dx) * 4 + c == dy * (4 * dw) + (4 * dx + c)) by (nonlinear_arith);
    vstd::arithmetic::div_mod::lemma_fundamental_div_mod_converse(k, 4 * dw, dy, 4 * dx + c);
    vstd::arithmetic::div_mod::lemma_fundamental_div_mod_converse(k, 4, dy * dw + dx, c);
    vstd::arithmetic::div_mod::lemma_fundamental_div_mod_converse(dy * dw + dx, dw, dy, dx);
    assert(dy * dw + dx < dw * dh) by (nonlinear_arith)
        requires
            0 <= dy < dh,
            0 <= dx < dw,
    ;
}

/// Channel `c` of destination pixel `(dx, dy)`, summed only over the source window that matters.
fn averaged_exec(
    src: &[u8],
    sw: u128,
    sh: u128,
    dw: u128,
    dh: u128,
    dy: u128,
    dx: u128,
    c: u128,
    rows: (u128, u128),
    cols: (u128, u128),
) -> (v: u8)
    requires
        0 < sw < 0x1_0000_0000,
        0 < sh < 0x1_0000_0000,
        0 < dw < 0x1_0000_0000,
        0 < dh < 0x1_0000_0000,
        dy < dh,
        dx < dw,
        c < 4,
        src@.len() >= sw * sh * 4,
        rows.0 <= rows.1 <= sh,
        cols.0 <= cols.1 <= sw,
        forall|s: int|
            0 <= s < sh && (s < rows.0 || s >= rows.1) ==> overlap(dy as int, s, sh as int, dh as int) == 0,
        forall|s: int|
            0 <= s < sw && (s < cols.0 || s >= cols.1) ==> overlap(dx as int, s, sw as int, dw as int) == 0,
    ensures
        v as int == averaged(src@, sw as int, sh as int, dw as int, dh as int, dy as int, dx as int, c as int),
{
    let ghost outer = area_terms(src@, sw as int, sh as int, dw as int, dh as int, dy as int, dx as int, c as int);
    proof {
        lemma_area_sum_bounded(src@, sw as int, sh as int, dw as int, dh as int, dy as int, dx as int, c as int);
        lemma_range_sum_zero(outer, 0, rows.0 as int);
        lemma_range_sum_zero(outer, rows.1 as int, sh as int);
        lemma_range_sum_split(outer, 0, rows.0 as int, sh as int);
        lemma_range_sum_split(outer, rows.0 as int, rows.1 as int, sh as int);
        assert forall|i: int| rows.0 <= i < rows.1 implies 0 <= #[trigger] outer(i) by {
            lemma_overlap_bounded(dy as int, i, sh as int, dh as int);
            lemma_row_sum_bounded(src@, sw as int, dw as int, dx as int, c as int, i);
            let r = row_sum(src@, sw as int, dw as int, dx as int, c as int, i);
            let w = overlap(dy as int, i, sh as int, dh as int);
            assert(0 <= w * r) by (nonlinear_arith)
                requires
                    0 <= r,
                    w >= 0,
            ;
        }
        assert(255 * sw * sh <= 0x1_0000_0000 * 0x1_0000_0000 * 255) by (nonlinear_arith)
            requires
                sw < 0x1_0000_0000,
                sh < 0x1_0000_0000,
        ;
    }
    let mut acc: u128 = 0;
    let mut sy = rows.0;
    while sy < rows.1
        invariant
            0 < sw < 0x1_0000_0000,
            0 < sh < 0x1_0000_0000,
            0 < dw < 0x1_0000_0000,
            0 < dh < 0x1_0000_0000,
            dy < dh,
            dx < dw,
            c < 4,
            src@.len() >= sw * sh * 4,
            rows.0 <= sy <= rows.1 <= sh,
            cols.0 <= cols.1 <= sw,
            forall|s: int|
                0 <= s < sw && (s < cols.0 || s >= cols.1) ==> overlap(dx as int, s, sw as int, dw as int) == 0,
            outer == area_terms(src@, sw as int, sh as int, dw as int, dh as int, dy as int, dx as int, c as int),
            forall|i: int| rows.0 <= i < rows.1 ==> 0 <= #[trigger] outer(i),
            range_sum(outer, rows.0 as int, rows.1 as int) <= 255 * sw * sh,
            255 * sw * sh <= 0x1_0000_0000 * 0x1_0000_0000 * 255,
            acc == range_sum(outer, rows.0 as int, sy as int),
        decreases rows.1 - sy,
    {
        let ghost inner_terms = row_terms(src@, sw as int, dw as int, dx as int, c as int, sy as int);
        proof {
            lemma_row_sum_bounded(src@, sw as int, dw as int, dx as int, c as int, sy as int);
            lemma_range_sum_zero(inner_terms, 0, cols.0 as int);
            lemma_range_sum_zero(inner_terms, cols.1 as int, sw as int);
            lemma_range_sum_split(inner_terms, 0, cols.0 as int, sw as int);
            lemma_range_sum_split(inner_terms, cols.0 as int, cols.1 as int, sw as int);
            assert forall|i: int| cols.0 <= i < cols.1 implies 0 <= #[trigger] inner_terms(i) by {
                lemma_overlap_bounded(dx as int, i, sw as int, dw as int);
                let t = texel(src@, sw as int, sy as int, i, c as int);
                let w = overlap(dx as int, i, sw as int, dw as int);
                assert(0 <= t * w) by (nonlinear_arith)
                    requires
                        0 <= t,
                        w >= 0,
                ;
            }
        }
        let mut inner: u128 = 0;
        let mut sx = cols.0;
        while sx < cols.1
            invariant
                0 < sw < 0x1_0000_0000,
                0 < sh < 0x1_0000_0000,
                0 < dw < 0x1_0000_0000,
                dx < dw,
                c < 4,
                sy < sh,
                src@.len() >= sw * sh * 4,
                cols.0 <= sx <= cols.1 <= sw,
                inner_terms == row_terms(src@, sw as int, dw as int, dx as int, c as int, sy as int),
                forall|i: int| cols.0 <= i < cols.1 ==> 0 <= #[trigger] inner_terms(i),
                range_sum(inner_terms, cols.0 as int, cols.1 as int) <= 255 * sw,
                inner == range_sum(inner_terms, cols.0 as int, sx as int),
            decreases cols.1 - sx,
        {
            proof {
                assert(sy * sw + sx < sw * sh) by (nonlinear_arith)
                    requires
                        sy < sh,
                        sx < sw,
                ;
                assert(sw * sh <= 0x1_0000_0000 * 0x1_0000_0000) by (nonlinear_arith)
                    requires
                        sw < 0x1_0000_0000,
                        sh < 0x1_0000_0000,
                ;
                lemma_range_sum_prefix_le(inner_terms, cols.0 as int, sx as int + 1, cols.1 as int);
            }
            let index = ((sy * sw + sx) * 4 + c) as usize;
            let w = overlap_exec(dx, sx, sw, dw);
            inner = inner + (src[index] as u128) * w;
            sx = sx + 1;
        }
        let wy = overlap_exec(dy, sy, sh, dh);
        proof {
            lemma_range_sum_prefix_le(outer, rows.0 as int, sy as int + 1, rows.1 as int);
            assert(outer(sy as int) == wy * inner);
        }
        acc = acc + wy * inner;
        sy = sy + 1;
    }
    proof {
        assert(sw * sh <= 0x1_0000_0000 * 0x1_0000_0000) by (nonlinear_arith)
            requires
                sw < 0x1_0000_0000,
                sh < 0x1_0000_0000,
        ;
        assert(acc <= 255 * sw * sh);
    }
    let total = sw * sh;
    proof {
        assert(total > 0) by (nonlinear_arith)
            requires
                sw > 0,
                sh > 0,
                total == sw * sh,
        ;
    }
    let r = (2 * acc + total) / (2 * total);
    if r > 255 {
        255
    } else {
        r as u8
    }
}

/// Scales `src` (BGRA, `src_width` by `src_height`) to exactly `dst_width` by `dst_height`.
///
/// Returns an empty vector if any dimension is zero or `src` is too short for the stated size, so a
/// malformed frame can never panic a recording thread. A same-size request returns the frame as it
/// is.
pub fn area_average(src: &[u8], src_width: u32, src_height: u32, dst_width: u32, dst_height: u32) -> (out: Vec<u8>)
    requires
        dst_width * dst_height * 4 <= usize::MAX,
    ensures
        out@ == area_average_spec(
            src@,
            src_width as int,
            src_height as int,
            dst_width as int,
            dst_height as int,
        ),
{
    let (sw, sh) = (src_width as u128, src_height as u128);
    let (dw, dh) = (dst_width as u128, dst_height as u128);
    proof {
        assert(sw * sh * 4 < 0x1_0000_0000 * 0x1_0000_0000 * 4) by (nonlinear_arith)
            requires
                sw < 0x1_0000_0000,
                sh < 0x1_0000_0000,
        ;
    }
    if sw == 0 || sh == 0 || dw == 0 || dh == 0 || (src.len() as u128) < sw * sh * 4 {
        return Vec::new();
    }
    if sw == dw && sh == dh {
        let n = (sw * sh * 4) as usize;
        let mut out: Vec<u8> = Vec::new();
        let mut i: usize = 0;
        while i < n
            invariant
                n <= src@.len(),
                i <= n,
                out@ == src@.take(i as int),
            decreases n - i,
        {
            out.push(src[i]);
            proof {
                assert(src@.take(i as int + 1) =~= src@.take(i as int).push(src@[i as int]));
            }
            i = i + 1;
        }
        return out;
    }
    let ghost expected = area_average_spec(src@, sw as int, sh as int, dw as int, dh as int);
    let mut out: Vec<u8> = Vec::new();
    let mut dy: u128 = 0;
    while dy < dh
        invariant
            0 < sw < 0x1_0000_0000,
            0 < sh < 0x1_0000_0000,
            0 < dw < 0x1_0000_0000,
            0 < dh < 0x1_0000_0000,
            src@.len() >= sw * sh * 4,
            !(sw == dw && sh == dh),
            expected == area_average_spec(src@, sw as int, sh as int, dw as int, dh as int),
            dy <= dh,
            out@.len() == dy * dw * 4,
            forall|k: int| 0 <= k < out@.len() ==> #[trigger] out@[k] == expected[k],
        decreases dh - dy,
    {
        let rows = band_window(dy, sh, dh);
        let mut dx: u128 = 0;
        while dx < dw
            invariant
                0 < sw < 0x1_0000_0000,
                0 < sh < 0x1_0000_0000,
                0 < dw < 0x1_0000_0000,
                0 < dh < 0x1_0000_0000,
                src@.len() >= sw * sh * 4,
                !(sw == dw && sh == dh),
                expected == area_average_spec(src@, sw as int, sh as int, dw as int, dh as int),
                dy < dh,
                dx <= dw,
                rows.0 <= rows.1 <= sh,
                forall|s: int|
                    0 <= s < sh && (s < rows.0 || s >= rows.1) ==> overlap(dy as int, s, sh as int, dh as int) == 0,
                out@.len() == (dy * dw + dx) * 4,
                forall|k: int| 0 <= k < out@.len() ==> #[trigger] out@[k] == expected[k],
            decreases dw - dx,
        {
            let cols = band_window(dx, sw, dw);
            let mut c: u128 = 0;
            while c < 4
                invariant
                    0 < sw < 0x1_0000_0000,
                    0 < sh < 0x1_0000_0000,
                    0 < dw < 0x1_0000_0000,
                    0 < dh < 0x1_0000_0000,
                    src@.len() >= sw * sh * 4,
                    !(sw == dw && sh == dh),
                    expected == area_average_spec(src@, sw as int, sh as int, dw as int, dh as int),
                    dy < dh,
                    dx < dw,
                    c <= 4,
                    rows.0 <= rows.1 <= sh,
                    cols.0 <= cols.1 <= sw,
                    forall|s: int|
                        0 <= s < sh && (s < rows.0 || s >= rows.1) ==> overlap(dy as int, s, sh as int, dh as int) == 0,
                    forall|s: int|
                        0 <= s < sw && (s < cols.0 || s >= cols.1) ==> overlap(dx as int, s, sw as int, dw as int) == 0,
                    out@.len() == (dy * dw + dx) * 4 + c,
                    forall|k: int| 0 <= k < out@.len() ==> #[trigger] out@[k] == expected[k],
                decreases 4 - c,
            {
                let v = averaged_exec(src, sw, sh, dw, dh, dy, dx, c, rows, cols);
                proof {
                    lemma_pixel_index(dy as int, dx as int, c as int, dw as int, dh as int);
                    let k = (dy * dw + dx) * 4 + c;
                    assert(expected[k] == v);
                }
                out.push(v);
                c = c + 1;
            }
            proof {
                assert((dy * dw + dx) * 4 + 4 == (dy * dw + dx + 1) * 4);
            }
            dx = dx + 1;
        }
        proof {
            assert((dy * dw + dw) * 4 == (dy + 1) * dw * 4) by (nonlinear_arith);
        }
        dy = dy + 1;
    }
    proof {
        assert(dh * dw * 4 == dw * dh * 4) by (nonlinear_arith);
        assert(out@ =~= expected);
    }
    out
}


/// `round(n / d)`, half up, for non-negative `n` and positive `d`.
pub open spec fn round_div(n: int, d: int) -> int {
    (2 * n + d) / (2 * d)
}

/// The largest size inside `max_w` by `max_h` with the source's aspect ratio, before evening.
pub open spec fn fit_scaled(sw: int, sh: int, mw: int, mh: int) -> (int, int) {
    if mw * sh <= mh * sw {
        (mw, round_div(sh * mw, sw))
    } else {
        (round_div(sw * mh, sh), mh)
    }
}

/// What [`fit_within`] returns.
pub open spec fn fit_within_spec(sw: int, sh: int, mw: int, mh: int) -> (int, int) {
    if sw == 0 || sh == 0 || mw == 0 || mh == 0 {
        (if sw > 1 { sw } else { 1 }, if sh > 1 { sh } else { 1 })
    } else if sw <= mw && sh <= mh {
        (sw, sh)
    } else {
        let (w, h) = fit_scaled(sw, sh, mw, mh);
        let w1 = if w > 1 { w } else { 1 };
        let h1 = if h > 1 { h } else { 1 };
        (w1 - w1 % 2, h1 - h1 % 2)
    }
}

/// Fitting keeps the picture's shape: where the source has to shrink, the size chosen has the
/// source's aspect ratio up to the rounding of one side and the evening of both, so
/// `|w * src_height - h * src_width| <= 2 * (src_width + src_height)`.
pub proof fn lemma_fit_keeps_aspect_ratio(sw: int, sh: int, mw: int, mh: int)
    requires
        sw > 0,
        sh > 0,
        mw > 0,
        mh > 0,
        !(sw <= mw && sh <= mh),
    ensures
        fit_within_spec(sw, sh, mw, mh).0 * sh - fit_within_spec(sw, sh, mw, mh).1 * sw <= 2 * (sw
            + sh),
        fit_within_spec(sw, sh, mw, mh).1 * sw - fit_within_spec(sw, sh, mw, mh).0 * sh <= 2 * (sw
            + sh),
{
    let r = fit_within_spec(sw, sh, mw, mh);
    if mw * sh <= mh * sw {
        let n = 2 * (sh * mw) + sw;
        let d = 2 * sw;
        let h = n / d;
        assert(d * h <= n && n < d * h + d && h >= 0) by (nonlinear_arith)
            requires
                d > 0,
                n > 0,
                h == n / d,
        ;
        let h1 = if h > 1 { h } else { 1 };
        let a = mw % 2;
        let b = h1 % 2;
        assert(0 <= a <= 1 && 0 <= b <= 1);
        assert(r.0 == mw - a && r.1 == h1 - b);
        assert(r.0 * sh - r.1 * sw <= 2 * (sw + sh) && r.1 * sw - r.0 * sh <= 2 * (sw + sh))
            by (nonlinear_arith)
            requires
                d == 2 * sw,
                n == 2 * (sh * mw) + sw,
                d * h <= n,
                n < d * h + d,
                h >= 0,
                h1 == h || (h == 0 && h1 == 1),
                0 <= a <= 1,
                0 <= b <= 1,
                r.0 == mw - a,
                r.1 == h1 - b,
                sw > 0,
                sh > 0,
        ;
    } else {
        let n = 2 * (sw * mh) + sh;
        let d = 2 * sh;
        let w = n / d;
        assert(d * w <= n && n < d * w + d && w >= 0) by (nonlinear_arith)
            requires
                d > 0,
                n > 0,
                w == n / d,
        ;
        let w1 = if w > 1 { w } else { 1 };
        let a = w1 % 2;
        let b = mh % 2;
        assert(0 <= a <= 1 && 0 <= b <= 1);
        assert(r.0 == w1 - a && r.1 == mh - b);
        assert(r.0 * sh - r.1 * sw <= 2 * (sw + sh) && r.1 * sw - r.0 * sh <= 2 * (sw + sh))
            by (nonlinear_arith)
            requires
                d == 2 * sh,
                n == 2 * (sw * mh) + sh,
                d * w <= n,
                n < d * w + d,
                w >= 0,
                w1 == w || (w == 0 && w1 == 1),
                0 <= a <= 1,
                0 <= b <= 1,
                r.0 == w1 - a,
                r.1 == mh - b,
                sw > 0,
                sh > 0,
        ;
    }
}

/// The largest size that fits inside `max_width` by `max_height` keeping the source aspect ratio.
///
/// Never enlarges: a recording asked to be bigger than the screen stays screen-sized. A size that
/// had to shrink comes back with even sides, as JPEG and most encoders prefer.
pub fn fit_within(src_width: u32, src_height: u32, max_width: u32, max_height: u32) -> (r: (u32, u32))
    ensures
        (r.0 as int, r.1 as int) == fit_within_spec(
            src_width as int,
            src_height as int,
            max_width as int,
            max_height as int,
        ),
        src_width > 0 && src_height > 0 && max_width > 0 && max_height > 0 ==> {
            &&& r.0 <= src_width && r.1 <= src_height
            &&& r.0 <= max_width && r.1 <= max_height
        },
        src_width > 0 && src_height > 0 && max_width > 0 && max_height > 0
            && !(src_width <= max_width && src_height <= max_height) ==> r.0 % 2 == 0 && r.1 % 2 == 0,
        src_width > 0 && src_height > 0 && max_width > 0 && max_height > 0
            && !(src_width <= max_width && src_height <= max_height) ==> {
            &&& r.0 * src_height - r.1 * src_width <= 2 * (src_width + src_height)
            &&& r.1 * src_width - r.0 * src_height <= 2 * (src_width + src_height)
        },
{
    if src_width == 0 || src_height == 0 || max_width == 0 || max_height == 0 {
        return (if src_width > 1 { src_width } else { 1 }, if src_height > 1 { src_height } else { 1 });
    }
    if src_width <= max_width && src_height <= max_height {
        return (src_width, src_height);
    }
    proof {
        lemma_fit_keeps_aspect_ratio(
            src_width as int,
            src_height as int,
            max_width as int,
            max_height as int,
        );
    }
    let (sw, sh) = (src_width as u128, src_height as u128);
    let (mw, mh) = (max_width as u128, max_height as u128);
    proof {
        assert(mw * sh < 0x1_0000_0000 * 0x1_0000_0000) by (nonlinear_arith)
            requires
                mw < 0x1_0000_0000,
                sh < 0x1_0000_0000,
        ;
        assert(mh * sw < 0x1_0000_0000 * 0x1_0000_0000) by (nonlinear_arith)
            requires
                mh < 0x1_0000_0000,
                sw < 0x1_0000_0000,
        ;
    }
    let (w, h): (u128, u128) = if mw * sh <= mh * sw {
        proof {
            assert(sh * mw == mw * sh) by (nonlinear_arith);
            // the height stays within both limits
            assert((2 * (sh * mw) + sw) / (2 * sw) <= mh) by (nonlinear_arith)
                requires
                    mw * sh <= mh * sw,
                    sw > 0,
                    sh > 0,
            ;
            assert(mw < sw) by (nonlinear_arith)
                requires
                    mw * sh <= mh * sw,
                    !(sw <= mw && sh <= mh),
                    sw > 0,
                    sh > 0,
                    mw > 0,
                    mh > 0,
            ;
            assert((2 * (sh * mw) + sw) / (2 * sw) <= sh) by (nonlinear_arith)
                requires
                    mw < sw,
                    sw > 0,
                    sh > 0,
            ;
        }
        (mw, (2 * (sh * mw) + sw) / (2 * sw))
    } else {
        proof {
            assert(sw * mh == mh * sw) by (nonlinear_arith);
            assert((2 * (sw * mh) + sh) / (2 * sh) <= mw) by (nonlinear_arith)
                requires
                    mw * sh > mh * sw,
                    sw > 0,
                    sh > 0,
            ;
            assert(mh < sh) by (nonlinear_arith)
                requires
                    mw * sh > mh * sw,
                    !(sw <= mw && sh <= mh),
                    sw > 0,
                    sh > 0,
                    mw > 0,
                    mh > 0,
            ;
            assert((2 * (sw * mh) + sh) / (2 * sh) <= sw) by (nonlinear_arith)
                requires
                    mh < sh,
                    sw > 0,
                    sh > 0,
            ;
        }
        ((2 * (sw * mh) + sh) / (2 * sh), mh)
    };
    let w = if w > 1 { w } else { 1 };
    let h = if h > 1 { h } else { 1 };
    ((w - w % 2) as u32, (h - h % 2) as u32)
}

} // verus!
