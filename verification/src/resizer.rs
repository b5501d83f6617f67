//! The resizer: bounds an input image to a maximum working size while
//! preserving its aspect ratio, and never upscales.

use vstd::prelude::*;

use vstd::arithmetic::div_mod::lemma_div_is_ordered;
use vstd::arithmetic::div_mod::lemma_div_multiples_vanish;
use vstd::arithmetic::div_mod::lemma_fundamental_div_mod;
use vstd::arithmetic::div_mod::lemma_mod_division_less_than_divisor;
use vstd::arithmetic::div_mod::lemma_div_pos_is_pos;
use vstd::arithmetic::div_mod::lemma_multiply_divide_lt;
use vstd::arithmetic::mul::lemma_mul_inequality;
use vstd::arithmetic::mul::lemma_mul_strict_inequality;
use vstd::arithmetic::mul::lemma_mul_strict_inequality_converse;

use crate::geometry::lemma_mul_bounds;
use crate::raster::ImageRgb;
use crate::raster::MAX_DIM;

verus! {

/// The image already lies within the bound on both sides.
pub open spec fn fits(w: int, h: int, mw: int, mh: int) -> bool {
    w <= mw && h <= mh
}

/// The width is the binding side: the scale factor `mw / w` is at most
/// `mh / h`, stated without fractions.
pub open spec fn width_limited(w: int, h: int, mw: int, mh: int) -> bool {
    mw * h <= mh * w
}

/// Width of the downscaled image: the bound on the binding side, the
/// rounded-down scaled length (at least 1) on the other.
pub open spec fn spec_target_w(w: int, h: int, mw: int, mh: int) -> int {
    if width_limited(w, h, mw, mh) {
        mw
    } else {
        let t = (w * mh) / h;
        if t < 1 {
            1
        } else {
            t
        }
    }
}

/// Height of the downscaled image; see `spec_target_w`.
pub open spec fn spec_target_h(w: int, h: int, mw: int, mh: int) -> int {
    if width_limited(w, h, mw, mh) {
        let t = (h * mw) / w;
        if t < 1 {
            1
        } else {
            t
        }
    } else {
        mh
    }
}

/// Nearest-lower source index for output index `i` when `src` pixels are
/// spread over `dst` output cells.
pub open spec fn sample_src(i: int, src: int, dst: int) -> int {
    (i * src) / dst
}

/// Law: the downscaled dimensions respect the bound, never exceed the
/// source dimensions, and preserve the aspect ratio as exactly as whole
/// pixels allow: the cross-product error `tw * h - th * w` is smaller in
/// magnitude than one source side (`w` when the width binds, `h`
/// otherwise).
pub proof fn lemma_resize_aspect(w: int, h: int, mw: int, mh: int)
    requires
        1 <= w,
        1 <= h,
        1 <= mw,
        1 <= mh,
        !fits(w, h, mw, mh),
    ensures
        1 <= spec_target_w(w, h, mw, mh) <= mw,
        1 <= spec_target_h(w, h, mw, mh) <= mh,
        spec_target_w(w, h, mw, mh) <= w,
        spec_target_h(w, h, mw, mh) <= h,
        width_limited(w, h, mw, mh) ==> -w < spec_target_w(w, h, mw, mh) * h - spec_target_h(
            w,
            h,
            mw,
            mh,
        ) * w < w,
        !width_limited(w, h, mw, mh) ==> -h < spec_target_w(w, h, mw, mh) * h - spec_target_h(
            w,
            h,
            mw,
            mh,
        ) * w < h,
{
    if width_limited(w, h, mw, mh) {
        lemma_width_limited_shrinks(w, h, mw, mh);
        let t = (h * mw) / w;
        lemma_fundamental_div_mod(h * mw, w);
        lemma_mod_division_less_than_divisor(h * mw, w);
        lemma_div_pos_is_pos(h * mw, w);
        // t <= h: h * mw <= h * w, then divide by w.
        lemma_mul_inequality(mw, w, h);
        assert(mw * h == h * mw && w * h == h * w);
        lemma_div_is_ordered(h * mw, h * w, w);
        lemma_div_multiples_vanish(h, w);
        // t <= mh: h * mw <= mh * w, then divide by w.
        lemma_div_is_ordered(h * mw, mh * w, w);
        lemma_div_multiples_vanish(mh, w);
        assert(mh * w == w * mh);
        assert(h * mw >= 1) by (nonlinear_arith)
            requires
                1 <= mw,
                1 <= h,
        ;
        if t < 1 {
            // t is 0, so h * mw is the remainder itself and lies below w;
            // the clamped height 1 overshoots by less than w.
            assert(w * t == 0) by (nonlinear_arith)
                requires
                    t == 0,
            ;
            assert(mw * h < w);
        } else {
            // mw * h - t * w is exactly the division remainder.
            assert(t * w == w * t);
            assert(mw * h - t * w == (h * mw) % w);
        }
    } else {
        lemma_height_limited_shrinks(w, h, mw, mh);
        let t = (w * mh) / h;
        lemma_fundamental_div_mod(w * mh, h);
        lemma_mod_division_less_than_divisor(w * mh, h);
        lemma_div_pos_is_pos(w * mh, h);
        lemma_mul_inequality(mh, h, w);
        assert(mh * w == w * mh && h * w == w * h);
        lemma_div_is_ordered(w * mh, w * h, h);
        lemma_div_multiples_vanish(w, h);
        lemma_div_is_ordered(w * mh, mw * h, h);
        lemma_div_multiples_vanish(mw, h);
        assert(mw * h == h * mw);
        assert(w * mh >= 1) by (nonlinear_arith)
            requires
                1 <= mh,
                1 <= w,
        ;
        if t < 1 {
            assert(h * t == 0) by (nonlinear_arith)
                requires
                    t == 0,
            ;
            assert(mh * w < h);
        } else {
            assert(t * h == h * t);
            assert(t * h - mh * w == -((w * mh) % h));
        }
    }
}

/// When the width binds and the image is oversized, the width bound is
/// strictly below the source width.
proof fn lemma_width_limited_shrinks(w: int, h: int, mw: int, mh: int)
    requires
        1 <= w,
        1 <= h,
        1 <= mw,
        1 <= mh,
        !fits(w, h, mw, mh),
        width_limited(w, h, mw, mh),
    ensures
        mw < w,
{
    if w <= mw {
        // Then h > mh, and mw * h <= mh * w < h * w forces mw < w <= mw.
        lemma_mul_strict_inequality(mh, h, w);
        assert(mh * w == w * mh && h * w == w * h);
        lemma_mul_strict_inequality_converse(mw, w, h);
    }
}

/// Mirror image of `lemma_width_limited_shrinks` for the height side.
proof fn lemma_height_limited_shrinks(w: int, h: int, mw: int, mh: int)
    requires
        1 <= w,
        1 <= h,
        1 <= mw,
        1 <= mh,
        !fits(w, h, mw, mh),
        !width_limited(w, h, mw, mh),
    ensures
        mh < h,
{
    if h <= mh {
        lemma_mul_strict_inequality(mw, w, h);
        assert(mw * h == h * mw && w * h == h * w);
        lemma_mul_strict_inequality_converse(mh, h, w);
    }
}

/// Bounds an image to `max_w` by `max_h`. An image already within the
/// bound is returned unchanged; an oversized one is scaled down uniformly
/// by the largest factor that makes both sides fit, each output pixel
/// sampled from the nearest lower source pixel. Never upscales.
pub fn resize_if_larger(img: ImageRgb, max_w: usize, max_h: usize) -> (out: ImageRgb)
    requires
        img.wf(),
        1 <= max_w <= MAX_DIM,
        1 <= max_h <= MAX_DIM,
    ensures
        out.wf(),
        fits(img.width as int, img.height as int, max_w as int, max_h as int) ==> out == img,
        !fits(img.width as int, img.height as int, max_w as int, max_h as int) ==> {
            &&& out.width == spec_target_w(
                img.width as int,
                img.height as int,
                max_w as int,
                max_h as int,
            )
            &&& out.height == spec_target_h(
                img.width as int,
                img.height as int,
                max_w as int,
                max_h as int,
            )
            &&& out.width <= max_w
            &&& out.height <= max_h
            &&& out.width <= img.width
            &&& out.height <= img.height
            &&& forall|i: int, j: int|
                0 <= i < out.width && 0 <= j < out.height ==> #[trigger] out.pixels()[j][i]
                    == img.pixels()[sample_src(j, img.height as int, out.height as int)][sample_src(
                    i,
                    img.width as int,
                    out.width as int,
                )]
        },
{
    let w = img.width;
    let h = img.height;
    if w <= max_w && h <= max_h {
        return img;
    }
    proof {
        lemma_mul_bounds(max_w as int, h as int, 16384, 16384);
        lemma_mul_bounds(max_h as int, w as int, 16384, 16384);
        lemma_mul_bounds(h as int, max_w as int, 16384, 16384);
        lemma_mul_bounds(w as int, max_h as int, 16384, 16384);
        lemma_resize_aspect(w as int, h as int, max_w as int, max_h as int);
    }
    let tw: usize;
    let th: usize;
    if max_w * h <= max_h * w {
        let t = (h * max_w) / w;
        tw = max_w;
        th = if t < 1 {
            1
        } else {
            t
        };
    } else {
        let t = (w * max_h) / h;
        tw = if t < 1 {
            1
        } else {
            t
        };
        th = max_h;
    }
    let mut rows: Vec<Vec<crate::raster::Rgb>> = Vec::new();
    let mut j: usize = 0;
    while j < th
        invariant
            img.wf(),
            1 <= tw <= img.width <= MAX_DIM,
            1 <= th <= img.height <= MAX_DIM,
            w == img.width,
            h == img.height,
            j <= th,
            rows@.len() == j,
            forall|jj: int| 0 <= jj < j ==> (#[trigger] rows@[jj])@.len() == tw,
            forall|jj: int, ii: int|
                0 <= jj < j && 0 <= ii < tw ==> #[trigger] rows@[jj]@[ii] == img.pixels()[
                    sample_src(jj, h as int, th as int)
                ][sample_src(ii, w as int, tw as int)],
        decreases th - j,
    {
        proof {
            lemma_mul_bounds(j as int, h as int, 16384, 16384);
            lemma_mul_strict_inequality(j as int, th as int, h as int);
            assert(th * h == h * th);
            lemma_multiply_divide_lt(j as int * h as int, th as int, h as int);
        }
        let sy = (j * h) / th;
        let mut row: Vec<crate::raster::Rgb> = Vec::new();
        let mut i: usize = 0;
        while i < tw
            invariant
                img.wf(),
                1 <= tw <= img.width <= MAX_DIM,
                1 <= th <= img.height <= MAX_DIM,
                w == img.width,
                h == img.height,
                j < th,
                sy == sample_src(j as int, h as int, th as int),
                sy < img.height,
                i <= tw,
                row@.len() == i,
                forall|ii: int|
                    0 <= ii < i ==> row@[ii] == img.pixels()[sy as int][#[trigger] sample_src(
                        ii,
                        w as int,
                        tw as int,
                    )],
            decreases tw - i,
        {
            proof {
                lemma_mul_bounds(i as int, w as int, 16384, 16384);
                lemma_mul_strict_inequality(i as int, tw as int, w as int);
                assert(tw * w == w * tw);
                lemma_multiply_divide_lt(i as int * w as int, tw as int, w as int);
            }
            let sx = (i * w) / tw;
            row.push(img.pixel(sx, sy));
            i += 1;
        }
        rows.push(row);
        j += 1;
    }
    let out = ImageRgb::from_rows(tw, th, rows);
    proof {
        assert(forall|i: int, j2: int|
            0 <= i < out.width && 0 <= j2 < out.height ==> #[trigger] out.pixels()[j2][i]
                == img.pixels()[sample_src(j2, img.height as int, out.height as int)][sample_src(
                i,
                img.width as int,
                out.width as int,
            )]);
    }
    out
}

} // verus!
