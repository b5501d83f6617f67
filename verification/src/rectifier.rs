//! The rectifier: derives the exact four-point perspective transform from
//! an ordered quadrilateral to an oversized canonical frame, warps the
//! whole source image through it, and crops to the requested size.
//!
//! All arithmetic is exact. The transform that sends the unit square to
//! the quadrilateral is computed as one fraction per axis with a common
//! integer denominator; each output pixel maps back to a source point by
//! two integer divisions.

use vstd::prelude::*;

use vstd::arithmetic::div_mod::lemma_div_is_ordered;
use vstd::arithmetic::div_mod::lemma_div_multiples_vanish;
use vstd::arithmetic::div_mod::lemma_fundamental_div_mod;
use vstd::arithmetic::div_mod::lemma_mod_division_less_than_divisor;
use vstd::arithmetic::mul::lemma_mul_inequality;

use crate::error::PipelineError;
use crate::geometry::is_degenerate_quad;
use crate::geometry::lemma_mul_bounds;
use crate::geometry::OrderedQuad;
use crate::raster::black;
use crate::raster::ImageRgb;
use crate::raster::Rgb;
use crate::raster::MAX_DIM;

verus! {

/// The zoom factor 1.0, in hundredths.
pub const ZOOM_ONE: usize = 100;

/// Bound on the numerator coefficients of the transform.
pub const COEF_BOUND: i128 = 100_000_000_000_000_000_000;

/// Bound on the denominator coefficients of the transform.
pub const GH_BOUND: i128 = 20_000_000_000_000;

/// The caller's request: output dimensions in pixels and a zoom factor in
/// hundredths (at least 1.00). The zoom scales the canonical frame that
/// the marker quadrilateral is warped onto before the crop.
#[derive(Clone, Copy, PartialEq, Eq, Structural, Debug)]
pub struct OutputSpec {
    pub width: usize,
    pub height: usize,
    pub zoom_hundredths: usize,
}

impl OutputSpec {
    /// Width of the oversized canonical frame: the output width scaled by
    /// the zoom factor, rounded to the nearest pixel.
    pub open spec fn scaled_w(self) -> int {
        (self.width * self.zoom_hundredths + 50) / 100
    }

    /// Height of the oversized canonical frame.
    pub open spec fn scaled_h(self) -> int {
        (self.height * self.zoom_hundredths + 50) / 100
    }

    /// Positive dimensions, zoom at least 1.00, and a scaled frame still
    /// within the working-resolution bound.
    pub open spec fn wf(self) -> bool {
        &&& 1 <= self.width <= MAX_DIM
        &&& 1 <= self.height <= MAX_DIM
        &&& ZOOM_ONE <= self.zoom_hundredths
        &&& self.scaled_w() <= MAX_DIM
        &&& self.scaled_h() <= MAX_DIM
    }

    /// Decides `wf`, so that unverified callers can gate their input.
    pub fn is_valid(&self) -> (b: bool)
        ensures
            b == self.wf(),
    {
        if !(1 <= self.width && self.width <= MAX_DIM && 1 <= self.height && self.height <= MAX_DIM
            && ZOOM_ONE <= self.zoom_hundredths)
        {
            return false;
        }
        // Beyond this zoom even a one-pixel side overruns the frame bound.
        if self.zoom_hundredths > 100 * MAX_DIM + 49 {
            proof {
                lemma_zoom_overruns_frame(self.width as int, self.zoom_hundredths as int);
            }
            return false;
        }
        proof {
            lemma_mul_bounds(self.width as int, self.zoom_hundredths as int, 16384, 1_638_449);
            lemma_mul_bounds(self.height as int, self.zoom_hundredths as int, 16384, 1_638_449);
        }
        let sw = ((self.width as u64) * (self.zoom_hundredths as u64) + 50) / 100;
        let sh = ((self.height as u64) * (self.zoom_hundredths as u64) + 50) / 100;
        sw <= MAX_DIM as u64 && sh <= MAX_DIM as u64
    }

    /// Computes the scaled frame width; never below the output width.
    pub fn scaled_width(&self) -> (r: usize)
        requires
            self.wf(),
        ensures
            r == self.scaled_w(),
            self.width <= r <= MAX_DIM,
    {
        proof {
            lemma_scaled_product_bound(self.width as int, self.zoom_hundredths as int);
            lemma_scale_keeps_side(self.width as int, self.zoom_hundredths as int);
        }
        ((((self.width as u64) * (self.zoom_hundredths as u64)) + 50) / 100) as usize
    }

    /// Computes the scaled frame height; never below the output height.
    pub fn scaled_height(&self) -> (r: usize)
        requires
            self.wf(),
        ensures
            r == self.scaled_h(),
            self.height <= r <= MAX_DIM,
    {
        proof {
            lemma_scaled_product_bound(self.height as int, self.zoom_hundredths as int);
            lemma_scale_keeps_side(self.height as int, self.zoom_hundredths as int);
        }
        ((((self.height as u64) * (self.zoom_hundredths as u64)) + 50) / 100) as usize
    }
}

/// A zoom beyond 100 * MAX_DIM + 49 hundredths overruns the frame bound
/// even for a one-pixel side.
proof fn lemma_zoom_overruns_frame(w: int, z: int)
    requires
        1 <= w,
        z > 100 * (MAX_DIM as int) + 49,
    ensures
        (w * z + 50) / 100 > MAX_DIM as int,
{
    lemma_mul_inequality(1, w, z);
    assert(1 * z == z);
    lemma_div_is_ordered(100 * (MAX_DIM as int + 1), w * z + 50, 100);
    lemma_div_multiples_vanish(MAX_DIM as int + 1, 100);
}

/// A scaled side within the frame bound keeps the underlying product
/// small enough for machine arithmetic.
proof fn lemma_scaled_product_bound(w: int, z: int)
    requires
        0 <= w,
        0 <= z,
        (w * z + 50) / 100 <= MAX_DIM as int,
    ensures
        w * z <= 100 * (MAX_DIM as int) + 49,
{
    lemma_fundamental_div_mod(w * z + 50, 100);
    lemma_mod_division_less_than_divisor(w * z + 50, 100);
    let q = (w * z + 50) / 100;
    assert(100 * q <= 100 * (MAX_DIM as int));
}

/// Scaling a side by a zoom of at least 1.00 never shrinks it.
proof fn lemma_scale_keeps_side(w: int, z: int)
    requires
        1 <= w,
        100 <= z,
    ensures
        w <= (w * z + 50) / 100,
{
    lemma_mul_inequality(100, z, w);
    assert(100 * w == w * 100 && z * w == w * z);
    lemma_div_is_ordered(w * 100, w * z + 50, 100);
    lemma_div_multiples_vanish(w, 100);
}

/// Coefficients of the transform that carries the unit square onto the
/// quadrilateral, all over the common denominator `h_dd`.
pub open spec fn h_sx(q: OrderedQuad) -> int {
    q.tl.x - q.tr.x + q.br.x - q.bl.x
}

pub open spec fn h_sy(q: OrderedQuad) -> int {
    q.tl.y - q.tr.y + q.br.y - q.bl.y
}

pub open spec fn h_dx1(q: OrderedQuad) -> int {
    q.tr.x - q.br.x
}

pub open spec fn h_dy1(q: OrderedQuad) -> int {
    q.tr.y - q.br.y
}

pub open spec fn h_dx2(q: OrderedQuad) -> int {
    q.bl.x - q.br.x
}

pub open spec fn h_dy2(q: OrderedQuad) -> int {
    q.bl.y - q.br.y
}

/// The common denominator of the solve; zero exactly when the corners
/// top-right, bottom-right and bottom-left are collinear.
pub open spec fn h_dd(q: OrderedQuad) -> int {
    h_dx1(q) * h_dy2(q) - h_dy1(q) * h_dx2(q)
}

pub open spec fn h_gn(q: OrderedQuad) -> int {
    h_sx(q) * h_dy2(q) - h_sy(q) * h_dx2(q)
}

pub open spec fn h_hn(q: OrderedQuad) -> int {
    h_dx1(q) * h_sy(q) - h_dy1(q) * h_sx(q)
}

pub open spec fn h_an(q: OrderedQuad) -> int {
    q.tr.x * h_gn(q) + (q.tr.x - q.tl.x) * h_dd(q)
}

pub open spec fn h_bn(q: OrderedQuad) -> int {
    q.bl.x * h_hn(q) + (q.bl.x - q.tl.x) * h_dd(q)
}

pub open spec fn h_cn(q: OrderedQuad) -> int {
    q.tl.x * h_dd(q)
}

pub open spec fn h_dn(q: OrderedQuad) -> int {
    q.tr.y * h_gn(q) + (q.tr.y - q.tl.y) * h_dd(q)
}

pub open spec fn h_en(q: OrderedQuad) -> int {
    q.bl.y * h_hn(q) + (q.bl.y - q.tl.y) * h_dd(q)
}

pub open spec fn h_fy(q: OrderedQuad) -> int {
    q.tl.y * h_dd(q)
}

/// Denominator of the back-mapped source point of output pixel `(u, v)`
/// in a frame of `sw` by `sh` pixels.
pub open spec fn h_den(q: OrderedQuad, sw: int, sh: int, u: int, v: int) -> int {
    h_gn(q) * (u * sh) + h_hn(q) * (v * sw) + h_dd(q) * (sw * sh)
}

/// Numerator of the source x coordinate.
pub open spec fn h_numx(q: OrderedQuad, sw: int, sh: int, u: int, v: int) -> int {
    h_an(q) * (u * sh) + h_bn(q) * (v * sw) + h_cn(q) * (sw * sh)
}

/// Numerator of the source y coordinate.
pub open spec fn h_numy(q: OrderedQuad, sw: int, sh: int, u: int, v: int) -> int {
    h_dn(q) * (u * sh) + h_en(q) * (v * sw) + h_fy(q) * (sw * sh)
}

/// The source pixel that output pixel `(u, v)` reads, if any: the
/// back-mapped point rounded down, provided it lies inside the `iw` by
/// `ih` source grid. `None` marks background.
pub open spec fn source_of(
    q: OrderedQuad,
    sw: int,
    sh: int,
    u: int,
    v: int,
    iw: int,
    ih: int,
) -> Option<(int, int)> {
    let de = h_den(q, sw, sh, u, v);
    let nx = h_numx(q, sw, sh, u, v);
    let ny = h_numy(q, sw, sh, u, v);
    if de == 0 {
        None
    } else {
        let nx2 = if de < 0 { -nx } else { nx };
        let ny2 = if de < 0 { -ny } else { ny };
        let de2 = if de < 0 { -de } else { de };
        if nx2 < 0 || ny2 < 0 {
            None
        } else {
            let x = nx2 / de2;
            let y = ny2 / de2;
            if x < iw && y < ih {
                Some((x, y))
            } else {
                None
            }
        }
    }
}

/// The colour of output pixel `(u, v)` of the warped frame: the source
/// pixel it maps back onto, or the background for pixels outside the
/// mapped source region.
pub open spec fn warp_pixel(img: ImageRgb, q: OrderedQuad, sw: int, sh: int, u: int, v: int) -> Rgb {
    match source_of(q, sw, sh, u, v, img.width as int, img.height as int) {
        Some(p) => img.pixels()[p.1][p.0],
        None => black(),
    }
}

/// Law: the four-point solve is exact at the corners. At each corner of
/// the `sw` by `sh` frame, the back-mapped source point equals the
/// corresponding corner of the quadrilateral, stated as one rational
/// identity per axis: numerator equals corner coordinate times
/// denominator. Frame corner (0, 0) lands on the top-left corner,
/// (sw, 0) on the top-right, (sw, sh) on the bottom-right and (0, sh) on
/// the bottom-left.
pub proof fn lemma_transform_maps_corners(q: OrderedQuad, sw: int, sh: int)
    ensures
        h_numx(q, sw, sh, 0, 0) == q.tl.x * h_den(q, sw, sh, 0, 0),
        h_numy(q, sw, sh, 0, 0) == q.tl.y * h_den(q, sw, sh, 0, 0),
        h_numx(q, sw, sh, sw, 0) == q.tr.x * h_den(q, sw, sh, sw, 0),
        h_numy(q, sw, sh, sw, 0) == q.tr.y * h_den(q, sw, sh, sw, 0),
        h_numx(q, sw, sh, sw, sh) == q.br.x * h_den(q, sw, sh, sw, sh),
        h_numy(q, sw, sh, sw, sh) == q.br.y * h_den(q, sw, sh, sw, sh),
        h_numx(q, sw, sh, 0, sh) == q.bl.x * h_den(q, sw, sh, 0, sh),
        h_numy(q, sw, sh, 0, sh) == q.bl.y * h_den(q, sw, sh, 0, sh),
{
    let x0 = q.tl.x as int;
    let y0 = q.tl.y as int;
    let x1 = q.tr.x as int;
    let y1 = q.tr.y as int;
    let x2 = q.br.x as int;
    let y2 = q.br.y as int;
    let x3 = q.bl.x as int;
    let y3 = q.bl.y as int;
    let dx1 = h_dx1(q);
    let dy1 = h_dy1(q);
    let dx2 = h_dx2(q);
    let dy2 = h_dy2(q);
    let sx = h_sx(q);
    let sy = h_sy(q);
    let dd = h_dd(q);
    let gn = h_gn(q);
    let hn = h_hn(q);
    let an = h_an(q);
    let bn = h_bn(q);
    let cn = h_cn(q);
    let dn = h_dn(q);
    let en = h_en(q);
    let fy = h_fy(q);
    let ss = sw * sh;
    // The solve's defining identity: g and h were chosen so that the
    // fourth corner constraint holds.
    assert(gn * dx1 + hn * dx2 == sx * dd) by (nonlinear_arith)
        requires
            gn == sx * dy2 - sy * dx2,
            hn == dx1 * sy - dy1 * sx,
            dd == dx1 * dy2 - dy1 * dx2,
    ;
    assert(gn * dy1 + hn * dy2 == sy * dd) by (nonlinear_arith)
        requires
            gn == sx * dy2 - sy * dx2,
            hn == dx1 * sy - dy1 * sx,
            dd == dx1 * dy2 - dy1 * dx2,
    ;
    // Unit-square corner identities.
    assert(an + cn == x1 * (gn + dd)) by (nonlinear_arith)
        requires
            an == x1 * gn + (x1 - x0) * dd,
            cn == x0 * dd,
    ;
    assert(bn + cn == x3 * (hn + dd)) by (nonlinear_arith)
        requires
            bn == x3 * hn + (x3 - x0) * dd,
            cn == x0 * dd,
    ;
    assert(an == x1 * gn + x1 * dd - x0 * dd) by (nonlinear_arith)
        requires
            an == x1 * gn + (x1 - x0) * dd,
    ;
    assert(bn == x3 * hn + x3 * dd - x0 * dd) by (nonlinear_arith)
        requires
            bn == x3 * hn + (x3 - x0) * dd,
    ;
    assert(x2 * (gn + hn + dd) == x2 * gn + x2 * hn + x2 * dd) by (nonlinear_arith);
    assert(gn * dx1 == x1 * gn - x2 * gn && hn * dx2 == x3 * hn - x2 * hn && sx * dd == x0 * dd - x1
        * dd + x2 * dd - x3 * dd) by (nonlinear_arith)
        requires
            dx1 == x1 - x2,
            dx2 == x3 - x2,
            sx == x0 - x1 + x2 - x3,
    ;
    assert(an + bn + cn == x2 * (gn + hn + dd));
    assert(dn + fy == y1 * (gn + dd)) by (nonlinear_arith)
        requires
            dn == y1 * gn + (y1 - y0) * dd,
            fy == y0 * dd,
    ;
    assert(en + fy == y3 * (hn + dd)) by (nonlinear_arith)
        requires
            en == y3 * hn + (y3 - y0) * dd,
            fy == y0 * dd,
    ;
    assert(dn == y1 * gn + y1 * dd - y0 * dd) by (nonlinear_arith)
        requires
            dn == y1 * gn + (y1 - y0) * dd,
    ;
    assert(en == y3 * hn + y3 * dd - y0 * dd) by (nonlinear_arith)
        requires
            en == y3 * hn + (y3 - y0) * dd,
    ;
    assert(y2 * (gn + hn + dd) == y2 * gn + y2 * hn + y2 * dd) by (nonlinear_arith);
    assert(gn * dy1 == y1 * gn - y2 * gn && hn * dy2 == y3 * hn - y2 * hn && sy * dd == y0 * dd - y1
        * dd + y2 * dd - y3 * dd) by (nonlinear_arith)
        requires
            dy1 == y1 - y2,
            dy2 == y3 - y2,
            sy == y0 - y1 + y2 - y3,
    ;
    assert(dn + en + fy == y2 * (gn + hn + dd));
    // Scale each identity by the frame area ss = sw * sh.
    assert(sh * sw == sw * sh);
    assert(0 * sh == 0 && 0 * sw == 0);
    assert(an * 0 == 0 && bn * 0 == 0 && dn * 0 == 0 && en * 0 == 0 && gn * 0 == 0 && hn * 0 == 0)
        by (nonlinear_arith);
    assert(h_den(q, sw, sh, 0, 0) == dd * ss);
    assert(h_numx(q, sw, sh, 0, 0) == cn * ss);
    assert(h_numy(q, sw, sh, 0, 0) == fy * ss);
    assert(h_den(q, sw, sh, sw, 0) == gn * ss + dd * ss);
    assert(h_numx(q, sw, sh, sw, 0) == an * ss + cn * ss);
    assert(h_numy(q, sw, sh, sw, 0) == dn * ss + fy * ss);
    assert(h_den(q, sw, sh, sw, sh) == gn * ss + hn * ss + dd * ss);
    assert(h_numx(q, sw, sh, sw, sh) == an * ss + bn * ss + cn * ss);
    assert(h_numy(q, sw, sh, sw, sh) == dn * ss + en * ss + fy * ss);
    assert(h_den(q, sw, sh, 0, sh) == hn * ss + dd * ss);
    assert(h_numx(q, sw, sh, 0, sh) == bn * ss + cn * ss);
    assert(h_numy(q, sw, sh, 0, sh) == en * ss + fy * ss);
    assert(cn * ss == x0 * (dd * ss) && fy * ss == y0 * (dd * ss)) by (nonlinear_arith)
        requires
            cn == x0 * dd,
            fy == y0 * dd,
    ;
    assert(an * ss + cn * ss == x1 * (gn * ss + dd * ss) && dn * ss + fy * ss == y1 * (gn * ss
        + dd * ss)) by (nonlinear_arith)
        requires
            an + cn == x1 * (gn + dd),
            dn + fy == y1 * (gn + dd),
    ;
    assert(bn * ss + cn * ss == x3 * (hn * ss + dd * ss) && en * ss + fy * ss == y3 * (hn * ss
        + dd * ss)) by (nonlinear_arith)
        requires
            bn + cn == x3 * (hn + dd),
            en + fy == y3 * (hn + dd),
    ;
    assert(an * ss + bn * ss + cn * ss == x2 * (gn * ss + hn * ss + dd * ss) && dn * ss + en * ss
        + fy * ss == y2 * (gn * ss + hn * ss + dd * ss)) by (nonlinear_arith)
        requires
            an + bn + cn == x2 * (gn + hn + dd),
            dn + en + fy == y2 * (gn + hn + dd),
    ;
}

/// The transform coefficients in executable form.
pub struct HCoeffs {
    pub an: i128,
    pub bn: i128,
    pub cn: i128,
    pub dn: i128,
    pub en: i128,
    pub fy: i128,
    pub gn: i128,
    pub hn: i128,
    pub dd: i128,
}

/// `c` holds exactly the coefficients of `q`, within their bounds.
pub open spec fn coeffs_ok(c: HCoeffs, q: OrderedQuad) -> bool {
    &&& c.an == h_an(q) && -COEF_BOUND <= c.an <= COEF_BOUND
    &&& c.bn == h_bn(q) && -COEF_BOUND <= c.bn <= COEF_BOUND
    &&& c.cn == h_cn(q) && -COEF_BOUND <= c.cn <= COEF_BOUND
    &&& c.dn == h_dn(q) && -COEF_BOUND <= c.dn <= COEF_BOUND
    &&& c.en == h_en(q) && -COEF_BOUND <= c.en <= COEF_BOUND
    &&& c.fy == h_fy(q) && -COEF_BOUND <= c.fy <= COEF_BOUND
    &&& c.gn == h_gn(q) && -GH_BOUND <= c.gn <= GH_BOUND
    &&& c.hn == h_hn(q) && -GH_BOUND <= c.hn <= GH_BOUND
    &&& c.dd == h_dd(q) && -GH_BOUND <= c.dd <= GH_BOUND
}

/// Solves the four-point correspondence exactly.
fn compute_coeffs(q: &OrderedQuad) -> (c: HCoeffs)
    requires
        q.wf(),
    ensures
        coeffs_ok(c, *q),
{
    let x0 = q.tl.x as i128;
    let y0 = q.tl.y as i128;
    let x1 = q.tr.x as i128;
    let y1 = q.tr.y as i128;
    let x2 = q.br.x as i128;
    let y2 = q.br.y as i128;
    let x3 = q.bl.x as i128;
    let y3 = q.bl.y as i128;
    let dx1 = x1 - x2;
    let dy1 = y1 - y2;
    let dx2 = x3 - x2;
    let dy2 = y3 - y2;
    let sx = x0 - x1 + x2 - x3;
    let sy = y0 - y1 + y2 - y3;
    proof {
        lemma_mul_bounds(dx1 as int, dy2 as int, 2_000_000, 2_000_000);
        lemma_mul_bounds(dy1 as int, dx2 as int, 2_000_000, 2_000_000);
        lemma_mul_bounds(sx as int, dy2 as int, 4_000_000, 2_000_000);
        lemma_mul_bounds(sy as int, dx2 as int, 4_000_000, 2_000_000);
        lemma_mul_bounds(dx1 as int, sy as int, 2_000_000, 4_000_000);
        lemma_mul_bounds(dy1 as int, sx as int, 2_000_000, 4_000_000);
    }
    let dd = dx1 * dy2 - dy1 * dx2;
    let gn = sx * dy2 - sy * dx2;
    let hn = dx1 * sy - dy1 * sx;
    proof {
        lemma_mul_bounds(x1 as int, gn as int, 1_000_000, 20_000_000_000_000);
        lemma_mul_bounds((x1 - x0) as int, dd as int, 2_000_000, 20_000_000_000_000);
        lemma_mul_bounds(x3 as int, hn as int, 1_000_000, 20_000_000_000_000);
        lemma_mul_bounds((x3 - x0) as int, dd as int, 2_000_000, 20_000_000_000_000);
        lemma_mul_bounds(x0 as int, dd as int, 1_000_000, 20_000_000_000_000);
        lemma_mul_bounds(y1 as int, gn as int, 1_000_000, 20_000_000_000_000);
        lemma_mul_bounds((y1 - y0) as int, dd as int, 2_000_000, 20_000_000_000_000);
        lemma_mul_bounds(y3 as int, hn as int, 1_000_000, 20_000_000_000_000);
        lemma_mul_bounds((y3 - y0) as int, dd as int, 2_000_000, 20_000_000_000_000);
        lemma_mul_bounds(y0 as int, dd as int, 1_000_000, 20_000_000_000_000);
    }
    let an = x1 * gn + (x1 - x0) * dd;
    let bn = x3 * hn + (x3 - x0) * dd;
    let cn = x0 * dd;
    let dn = y1 * gn + (y1 - y0) * dd;
    let en = y3 * hn + (y3 - y0) * dd;
    let fy = y0 * dd;
    HCoeffs { an, bn, cn, dn, en, fy, gn, hn, dd }
}

/// Back-maps one output pixel to its source pixel, exactly as
/// `source_of` says.
fn map_source(
    c: &HCoeffs,
    q: Ghost<OrderedQuad>,
    u: usize,
    v: usize,
    sw: usize,
    sh: usize,
    iw: usize,
    ih: usize,
) -> (r: Option<(usize, usize)>)
    requires
        coeffs_ok(*c, q@),
        u < sw <= MAX_DIM,
        v < sh <= MAX_DIM,
        1 <= iw <= MAX_DIM,
        1 <= ih <= MAX_DIM,
    ensures
        match r {
            None => source_of(q@, sw as int, sh as int, u as int, v as int, iw as int, ih as int)
                is None,
            Some(p) => {
                &&& source_of(q@, sw as int, sh as int, u as int, v as int, iw as int, ih as int)
                    == Some((p.0 as int, p.1 as int))
                &&& p.0 < iw
                &&& p.1 < ih
            },
        },
{
    let ue = u as i128;
    let ve = v as i128;
    let swe = sw as i128;
    let she = sh as i128;
    proof {
        lemma_mul_bounds(ue as int, she as int, 16384, 16384);
        lemma_mul_bounds(ve as int, swe as int, 16384, 16384);
        lemma_mul_bounds(swe as int, she as int, 16384, 16384);
    }
    let t_ush = ue * she;
    let t_vsw = ve * swe;
    let t_swsh = swe * she;
    proof {
        lemma_mul_bounds(c.gn as int, t_ush as int, GH_BOUND as int, 268_435_456);
        lemma_mul_bounds(c.hn as int, t_vsw as int, GH_BOUND as int, 268_435_456);
        lemma_mul_bounds(c.dd as int, t_swsh as int, GH_BOUND as int, 268_435_456);
        lemma_mul_bounds(c.an as int, t_ush as int, COEF_BOUND as int, 268_435_456);
        lemma_mul_bounds(c.bn as int, t_vsw as int, COEF_BOUND as int, 268_435_456);
        lemma_mul_bounds(c.cn as int, t_swsh as int, COEF_BOUND as int, 268_435_456);
        lemma_mul_bounds(c.dn as int, t_ush as int, COEF_BOUND as int, 268_435_456);
        lemma_mul_bounds(c.en as int, t_vsw as int, COEF_BOUND as int, 268_435_456);
        lemma_mul_bounds(c.fy as int, t_swsh as int, COEF_BOUND as int, 268_435_456);
    }
    let den = c.gn * t_ush + c.hn * t_vsw + c.dd * t_swsh;
    let nx = c.an * t_ush + c.bn * t_vsw + c.cn * t_swsh;
    let ny = c.dn * t_ush + c.en * t_vsw + c.fy * t_swsh;
    if den == 0 {
        return None;
    }
    let nx2 = if den < 0 { -nx } else { nx };
    let ny2 = if den < 0 { -ny } else { ny };
    let de2 = if den < 0 { -den } else { den };
    if nx2 < 0 || ny2 < 0 {
        return None;
    }
    let xq = (nx2 as u128) / (de2 as u128);
    let yq = (ny2 as u128) / (de2 as u128);
    if xq < iw as u128 && yq < ih as u128 {
        Some((xq as usize, yq as usize))
    } else {
        None
    }
}

/// Warps the whole source image into a `sw` by `sh` frame: every output
/// pixel reads the source pixel that the transform maps it back onto, and
/// the background colour elsewhere.
pub fn warp(img: &ImageRgb, q: &OrderedQuad, sw: usize, sh: usize) -> (out: ImageRgb)
    requires
        img.wf(),
        q.wf(),
        1 <= sw <= MAX_DIM,
        1 <= sh <= MAX_DIM,
    ensures
        out.wf(),
        out.width == sw,
        out.height == sh,
        forall|u: int, v: int|
            0 <= u < sw && 0 <= v < sh ==> #[trigger] out.pixels()[v][u] == warp_pixel(
                *img,
                *q,
                sw as int,
                sh as int,
                u,
                v,
            ),
{
    let c = compute_coeffs(q);
    let mut rows: Vec<Vec<Rgb>> = Vec::new();
    let mut v: usize = 0;
    while v < sh
        invariant
            img.wf(),
            q.wf(),
            coeffs_ok(c, *q),
            1 <= sw <= MAX_DIM,
            1 <= sh <= MAX_DIM,
            v <= sh,
            rows@.len() == v,
            forall|vv: int| 0 <= vv < v ==> (#[trigger] rows@[vv])@.len() == sw,
            forall|vv: int, uu: int|
                0 <= vv < v && 0 <= uu < sw ==> #[trigger] rows@[vv]@[uu] == warp_pixel(
                    *img,
                    *q,
                    sw as int,
                    sh as int,
                    uu,
                    vv,
                ),
        decreases sh - v,
    {
        let mut row: Vec<Rgb> = Vec::new();
        let mut u: usize = 0;
        while u < sw
            invariant
                img.wf(),
                q.wf(),
                coeffs_ok(c, *q),
                1 <= sw <= MAX_DIM,
                1 <= sh <= MAX_DIM,
                v < sh,
                u <= sw,
                row@.len() == u,
                forall|uu: int|
                    0 <= uu < u ==> #[trigger] row@[uu] == warp_pixel(
                        *img,
                        *q,
                        sw as int,
                        sh as int,
                        uu,
                        v as int,
                    ),
            decreases sw - u,
        {
            let px = match map_source(&c, Ghost(*q), u, v, sw, sh, img.width, img.height) {
                Some(p) => img.pixel(p.0, p.1),
                None => Rgb { r: 0, g: 0, b: 0 },
            };
            row.push(px);
            u += 1;
        }
        rows.push(row);
        v += 1;
    }
    let out = ImageRgb::from_rows(sw, sh, rows);
    proof {
        assert(forall|u: int, v2: int|
            0 <= u < sw && 0 <= v2 < sh ==> #[trigger] out.pixels()[v2][u] == warp_pixel(
                *img,
                *q,
                sw as int,
                sh as int,
                u,
                v2,
            ));
    }
    out
}

/// Crops an image to its top-left `w` by `h` region.
pub fn crop_origin(img: &ImageRgb, w: usize, h: usize) -> (out: ImageRgb)
    requires
        img.wf(),
        1 <= w <= img.width,
        1 <= h <= img.height,
    ensures
        out.wf(),
        out.width == w,
        out.height == h,
        forall|u: int, v: int|
            0 <= u < w && 0 <= v < h ==> #[trigger] out.pixels()[v][u] == img.pixels()[v][u],
{
    let mut rows: Vec<Vec<Rgb>> = Vec::new();
    let mut v: usize = 0;
    while v < h
        invariant
            img.wf(),
            1 <= w <= img.width,
            1 <= h <= img.height,
            v <= h,
            rows@.len() == v,
            forall|vv: int| 0 <= vv < v ==> (#[trigger] rows@[vv])@.len() == w,
            forall|vv: int, uu: int|
                0 <= vv < v && 0 <= uu < w ==> #[trigger] rows@[vv]@[uu] == img.pixels()[vv][uu],
        decreases h - v,
    {
        let mut row: Vec<Rgb> = Vec::new();
        let mut u: usize = 0;
        while u < w
            invariant
                img.wf(),
                1 <= w <= img.width,
                1 <= h <= img.height,
                v < h,
                u <= w,
                row@.len() == u,
                forall|uu: int| 0 <= uu < u ==> #[trigger] row@[uu] == img.pixels()[v as int][uu],
            decreases w - u,
        {
            row.push(img.pixel(u, v));
            u += 1;
        }
        rows.push(row);
        v += 1;
    }
    let out = ImageRgb::from_rows(w, h, rows);
    proof {
        assert(forall|u: int, v2: int|
            0 <= u < w && 0 <= v2 < h ==> #[trigger] out.pixels()[v2][u] == img.pixels()[v2][u]);
    }
    out
}

/// Rectifies: fails exactly on degenerate quadrilaterals; otherwise warps
/// the source image onto the zoom-scaled canonical frame and crops it to
/// exactly the requested dimensions, anchored at the origin.
pub fn rectify(img: &ImageRgb, quad: &OrderedQuad, out_spec: &OutputSpec) -> (r: Result<
    ImageRgb,
    PipelineError,
>)
    requires
        img.wf(),
        quad.wf(),
        out_spec.wf(),
    ensures
        r is Err <==> quad.is_degenerate(),
        quad.is_degenerate() ==> r == Err::<ImageRgb, PipelineError>(
            PipelineError::DegenerateGeometry,
        ),
        match r {
            Ok(out) => {
                &&& out.wf()
                &&& out.width == out_spec.width
                &&& out.height == out_spec.height
                &&& forall|u: int, v: int|
                    0 <= u < out.width && 0 <= v < out.height ==> #[trigger] out.pixels()[v][u]
                        == warp_pixel(*img, *quad, out_spec.scaled_w(), out_spec.scaled_h(), u, v)
            },
            Err(_) => true,
        },
{
    if is_degenerate_quad(quad) {
        return Err(PipelineError::DegenerateGeometry);
    }
    let sw = out_spec.scaled_width();
    let sh = out_spec.scaled_height();
    let warped = warp(img, quad, sw, sh);
    let out = crop_origin(&warped, out_spec.width, out_spec.height);
    Ok(out)
}

} // verus!
