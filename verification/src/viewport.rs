//! The visible rectangle in fractal-space coordinates.
//!
//! A [`Viewport`] is the axis-aligned rectangle `[min, max]` of the complex
//! plane currently mapped onto the screen.  Its two operations are the
//! cursor-anchored zoom ([`Viewport::zoom_about`]) and the drag pan
//! ([`Viewport::pan_by`]); both are specified by the rational formulas
//! [`zoom_lo`], [`zoom_hi`], [`pan_lo`] and [`pan_hi`], and both are exact.
//! The laws of the two transforms — the point under the cursor stays fixed
//! and the rectangle scales by exactly the zoom factor; a pan and its
//! inverse cancel — are proved in [`lemma_zoom_fixed_point`] and
//! [`lemma_pan_round_trip`].

use crate::rational::{
    lemma_add_congr, lemma_div_congr_left, lemma_mul_bounds, lemma_mul_congr, lemma_mul_pos,
    lemma_mul_regroup, lemma_neg_congr, lemma_neg_mul, lemma_pos_from_eq, lemma_r_eq_trans,
    lemma_sub_add_cancel, lemma_sub_congr, lemma_sub_neg_is_add, normalize, norm_fits, r_add,
    r_div, r_eq, r_int, r_le, r_lt, r_mul, r_neg, r_sub, r_wf, Rat, Ratio, RAT_BOUND,
};
use vstd::prelude::*;

verus! {

/// A point (or a vector) with exact rational coordinates.  Depending on
/// context it holds fractal-space coordinates, screen pixels, or a
/// cursor position normalized to the unit square.
#[derive(Clone, Copy, PartialEq, Eq, Structural, Debug)]
pub struct Point2 {
    pub x: Rat,
    pub y: Rat,
}

impl Point2 {
    /// Both coordinates are well-formed scalars.
    pub open spec fn wf(self) -> bool {
        self.x.wf() && self.y.wf()
    }

    /// The point `(x, y)`.
    pub fn new(x: Rat, y: Rat) -> (r: Point2)
        ensures
            r.x == x,
            r.y == y,
    {
        Point2 { x, y }
    }
}

/// The fractal-space point sitting at normalized position `p` of the span
/// `[lo, hi]`: `lo + p * (hi - lo)`.
pub open spec fn point_at(lo: Ratio, hi: Ratio, p: Ratio) -> Ratio {
    r_add(lo, r_mul(p, r_sub(hi, lo)))
}

/// The lower bound after zooming `[lo, hi]` about the anchor at normalized
/// position `p` with factor `f`: with `t = point_at(lo, hi, p)` the new
/// lower bound is `t - (t - lo) * f`.
pub open spec fn zoom_lo(lo: Ratio, hi: Ratio, p: Ratio, f: Ratio) -> Ratio {
    r_sub(point_at(lo, hi, p), r_mul(r_sub(point_at(lo, hi, p), lo), f))
}

/// The upper bound after the same zoom: `t + (hi - t) * f`.
pub open spec fn zoom_hi(lo: Ratio, hi: Ratio, p: Ratio, f: Ratio) -> Ratio {
    r_add(point_at(lo, hi, p), r_mul(r_sub(hi, point_at(lo, hi, p)), f))
}

/// The fractal-space displacement of a pan: a screen-pixel delta `dlt`
/// scaled by the span per pixel, `(hi - lo) / s`.
pub open spec fn pan_shift(lo: Ratio, hi: Ratio, dlt: Ratio, s: Ratio) -> Ratio {
    r_mul(dlt, r_div(r_sub(hi, lo), s))
}

/// The lower bound after panning: `lo - pan_shift`.
pub open spec fn pan_lo(lo: Ratio, hi: Ratio, dlt: Ratio, s: Ratio) -> Ratio {
    r_sub(lo, pan_shift(lo, hi, dlt, s))
}

/// The upper bound after panning: `hi - pan_shift`.
pub open spec fn pan_hi(lo: Ratio, hi: Ratio, dlt: Ratio, s: Ratio) -> Ratio {
    r_sub(hi, pan_shift(lo, hi, dlt, s))
}

/// Numerator of the anchor point over the common denominator [`zoom_d`].
pub open spec fn zoom_t(lo: Ratio, hi: Ratio, p: Ratio) -> int {
    lo.n * hi.d * p.d + p.n * (hi.n * lo.d - lo.n * hi.d)
}

/// Common denominator of the anchor point: `lo.d * hi.d * p.d`.
pub open spec fn zoom_d(lo: Ratio, hi: Ratio, p: Ratio) -> int {
    lo.d * hi.d * p.d
}

/// [`zoom_lo`] over a single common denominator, as the machine computes
/// it.  Denotes the same rational as `zoom_lo`.
pub open spec fn zoom_lo_raw(lo: Ratio, hi: Ratio, p: Ratio, f: Ratio) -> Ratio {
    let t = zoom_t(lo, hi, p);
    let dd = zoom_d(lo, hi, p);
    Ratio { n: t * lo.d * f.d - (t * lo.d - lo.n * dd) * f.n, d: dd * lo.d * f.d }
}

/// [`zoom_hi`] over a single common denominator, as the machine computes
/// it.  Denotes the same rational as `zoom_hi`.
pub open spec fn zoom_hi_raw(lo: Ratio, hi: Ratio, p: Ratio, f: Ratio) -> Ratio {
    let t = zoom_t(lo, hi, p);
    let dd = zoom_d(lo, hi, p);
    Ratio { n: t * hi.d * f.d + (hi.n * dd - t * hi.d) * f.n, d: dd * hi.d * f.d }
}

/// Numerator of the width `hi - lo` over the denominator `hi.d * lo.d`.
pub open spec fn width_n(lo: Ratio, hi: Ratio) -> int {
    hi.n * lo.d - lo.n * hi.d
}

/// [`pan_lo`] over a single common denominator, as the machine computes
/// it.  Denotes the same rational as `pan_lo`.
pub open spec fn pan_lo_raw(lo: Ratio, hi: Ratio, dlt: Ratio, s: Ratio) -> Ratio {
    Ratio {
        n: lo.n * dlt.d * hi.d * s.n - dlt.n * s.d * width_n(lo, hi),
        d: lo.d * dlt.d * hi.d * s.n,
    }
}

/// [`pan_hi`] over a single common denominator, as the machine computes
/// it.  Denotes the same rational as `pan_hi`.
pub open spec fn pan_hi_raw(lo: Ratio, hi: Ratio, dlt: Ratio, s: Ratio) -> Ratio {
    Ratio {
        n: hi.n * dlt.d * lo.d * s.n - dlt.n * s.d * width_n(lo, hi),
        d: hi.d * dlt.d * lo.d * s.n,
    }
}

/// The single-denominator zoom forms denote the definitional ones, are
/// well-formed pairs, their span is the old span scaled by `f`, and the
/// anchor point is kept fixed.
proof fn lemma_zoom_raw_props(lo: Ratio, hi: Ratio, p: Ratio, f: Ratio)
    requires
        r_wf(lo),
        r_wf(hi),
        r_wf(p),
        r_wf(f),
    ensures
        r_wf(zoom_lo_raw(lo, hi, p, f)),
        r_wf(zoom_hi_raw(lo, hi, p, f)),
        r_wf(zoom_lo(lo, hi, p, f)),
        r_wf(zoom_hi(lo, hi, p, f)),
        r_eq(zoom_lo_raw(lo, hi, p, f), zoom_lo(lo, hi, p, f)),
        r_eq(zoom_hi_raw(lo, hi, p, f), zoom_hi(lo, hi, p, f)),
        r_eq(
            r_sub(zoom_hi_raw(lo, hi, p, f), zoom_lo_raw(lo, hi, p, f)),
            r_mul(r_sub(hi, lo), f),
        ),
        r_eq(
            point_at(zoom_lo_raw(lo, hi, p, f), zoom_hi_raw(lo, hi, p, f), p),
            point_at(lo, hi, p),
        ),
{
    broadcast use vstd::arithmetic::mul::group_mul_is_commutative_and_distributive;

    let a = lo.n;
    let b = lo.d;
    let c = hi.n;
    let dh = hi.d;
    let e = p.n;
    let g = p.d;
    let h = f.n;
    let k = f.d;
    let wn = c * b - a * dh;
    let t = zoom_t(lo, hi, p);
    let dd = zoom_d(lo, hi, p);
    let rl = zoom_lo_raw(lo, hi, p, f);
    let rh = zoom_hi_raw(lo, hi, p, f);
    let q = t * b - a * dd;
    let q2 = c * dd - t * dh;
    let rln = rl.n;
    let rhn = rh.n;
    let rld = rl.d;
    let rhd = rh.d;

    // Shape of the raw components.
    assert(t == (a * dh) * g + e * wn);
    assert(dd == (b * dh) * g);
    assert(rln == (t * b) * k - q * h);
    assert(rhn == (t * dh) * k + q2 * h);
    assert(rld == (dd * b) * k);
    assert(rhd == (dd * dh) * k);

    // Positivity of the denominators involved.
    lemma_mul_pos(b, dh);
    lemma_mul_pos(b * dh, g);
    assert(dd > 0);
    lemma_mul_pos(dd, b);
    lemma_mul_pos(dd * b, k);
    assert(rld > 0);
    lemma_mul_pos(dd, dh);
    lemma_mul_pos(dd * dh, k);
    assert(rhd > 0);

    // The anchor point over the common denominator: `tp == (b*t, b*dd)`.
    let tp = point_at(lo, hi, p);
    let ss = b * dd;
    assert(tp.n == a * (g * (dh * b)) + (e * wn) * b);
    assert(tp.d == b * (g * (dh * b)));
    assert(a * (g * (dh * b)) == b * ((a * dh) * g)) by (nonlinear_arith);
    assert(b * t == b * ((a * dh) * g) + b * (e * wn));
    assert(tp.n == b * t);
    assert(g * (dh * b) == (b * dh) * g) by (nonlinear_arith);
    assert(tp.d == ss);
    lemma_mul_pos(b, dd);
    assert(tp.d > 0);

    // The definitional lower bound is the raw one scaled by `b * ss`.
    let zl = zoom_lo(lo, hi, p, f);
    let s1 = r_sub(tp, lo);
    assert(s1.n == tp.n * b - a * tp.d && s1.d == tp.d * b);
    assert((b * t) * b == b * (t * b)) by (nonlinear_arith);
    assert(a * (b * dd) == b * (a * dd)) by (nonlinear_arith);
    assert(s1.n == b * (t * b) - b * (a * dd) == b * q);
    assert(s1.d == b * ss);
    let s2 = r_mul(s1, f);
    assert(s2.n == (b * q) * h && s2.d == (b * ss) * k);
    assert(zl.n == tp.n * s2.d - s2.n * tp.d && zl.d == tp.d * s2.d);
    let scale = b * ss;
    assert((b * t) * ((b * ss) * k) == (b * ss) * ((t * b) * k)) by (nonlinear_arith);
    assert(((b * q) * h) * ss == (b * ss) * (q * h)) by (nonlinear_arith);
    assert(zl.n == scale * ((t * b) * k) - scale * (q * h) == scale * rln);
    assert(ss * ((b * ss) * k) == (b * ss) * (ss * k)) by (nonlinear_arith);
    assert(ss * k == (dd * b) * k) by (nonlinear_arith)
        requires
            ss == b * dd,
    ;
    assert(zl.d == scale * rld);
    lemma_mul_pos(b, ss);
    lemma_mul_pos(scale, rld);
    assert(zl.d > 0);
    assert(r_eq(rl, zl)) by (nonlinear_arith)
        requires
            zl.n == scale * rln,
            zl.d == scale * rld,
            rl.n == rln,
            rl.d == rld,
    ;

    // The definitional upper bound is the raw one scaled by the same factor.
    let zh = zoom_hi(lo, hi, p, f);
    let s3 = r_sub(hi, tp);
    assert(s3.n == c * tp.d - tp.n * dh && s3.d == dh * tp.d);
    assert(c * ss == b * (c * dd)) by (nonlinear_arith)
        requires
            ss == b * dd,
    ;
    assert((b * t) * dh == b * (t * dh)) by (nonlinear_arith);
    assert(s3.n == b * (c * dd) - b * (t * dh) == b * q2);
    assert(s3.d == dh * ss);
    let s4 = r_mul(s3, f);
    assert(s4.n == (b * q2) * h && s4.d == (dh * ss) * k);
    assert(zh.n == tp.n * s4.d + s4.n * tp.d && zh.d == tp.d * s4.d);
    assert((b * t) * ((dh * ss) * k) == (b * ss) * ((t * dh) * k)) by (nonlinear_arith);
    assert(((b * q2) * h) * ss == (b * ss) * (q2 * h)) by (nonlinear_arith);
    assert(zh.n == scale * ((t * dh) * k) + scale * (q2 * h) == scale * rhn);
    assert(ss * ((dh * ss) * k) == (ss * ss) * (dh * k)) by (nonlinear_arith);
    assert(ss * ss == (b * dd) * ss);
    assert(((b * dd) * ss) * (dh * k) == (b * ss) * ((dd * dh) * k)) by (nonlinear_arith);
    assert(zh.d == scale * rhd);
    lemma_mul_pos(scale, rhd);
    assert(zh.d > 0);
    assert(r_eq(rh, zh)) by (nonlinear_arith)
        requires
            zh.n == scale * rhn,
            zh.d == scale * rhd,
            rh.n == rhn,
            rh.d == rhd,
    ;

    // Span of the raw forms: `rh - rl` denotes `(hi - lo) * f`.
    let ws = r_sub(rh, rl);
    assert(ws.n == rhn * rld - rln * rhd && ws.d == rhd * rld);
    assert(rhn * ((dd * b) * k) == (dd * k) * (b * rhn)) by (nonlinear_arith);
    assert(rln * ((dd * dh) * k) == (dd * k) * (dh * rln)) by (nonlinear_arith);
    assert(ws.n == (dd * k) * (b * rhn) - (dd * k) * (dh * rln) == (dd * k) * (b * rhn - dh
        * rln));
    assert(b * rhn == b * ((t * dh) * k) + b * (q2 * h));
    assert(dh * rln == dh * ((t * b) * k) - dh * (q * h));
    assert(b * ((t * dh) * k) == dh * ((t * b) * k)) by (nonlinear_arith);
    assert(b * rhn - dh * rln == b * (q2 * h) + dh * (q * h));
    assert(b * (q2 * h) == (b * h) * (c * dd) - (b * h) * (t * dh)) by (nonlinear_arith)
        requires
            q2 == c * dd - t * dh,
    ;
    assert(dh * (q * h) == (dh * h) * (t * b) - (dh * h) * (a * dd)) by (nonlinear_arith)
        requires
            q == t * b - a * dd,
    ;
    assert((b * h) * (t * dh) == (dh * h) * (t * b)) by (nonlinear_arith);
    assert(b * (q2 * h) + dh * (q * h) == (b * h) * (c * dd) - (dh * h) * (a * dd));
    assert((b * h) * (c * dd) == h * (dd * (c * b))) by (nonlinear_arith);
    assert((dh * h) * (a * dd) == h * (dd * (a * dh))) by (nonlinear_arith);
    assert(dd * (c * b) - dd * (a * dh) == dd * wn);
    assert(h * (dd * (c * b)) - h * (dd * (a * dh)) == h * (dd * (c * b) - dd * (a * dh)));
    assert(b * rhn - dh * rln == h * (dd * wn));
    assert(ws.n == (dd * k) * (h * (dd * wn)));
    let wm = r_mul(r_sub(hi, lo), f);
    assert(wm.n == wn * h && wm.d == (dh * b) * k);
    let s2w = dd * (dd * k);
    assert(ws.n == s2w * (wn * h)) by (nonlinear_arith)
        requires
            ws.n == (dd * k) * (h * (dd * wn)),
            s2w == dd * (dd * k),
    ;
    let x1 = dd * dh;
    let y1 = dd * b;
    let z1 = dh * b;
    lemma_mul_regroup(x1, k, y1, k);
    lemma_mul_regroup(dd, dh, dd, b);
    assert(((dd * dd) * z1) * (k * k) == (dd * (dd * k)) * (z1 * k)) by (nonlinear_arith);
    assert(ws.d == s2w * ((dh * b) * k));
    assert(r_eq(ws, wm)) by (nonlinear_arith)
        requires
            ws.n == s2w * wm.n,
            ws.d == s2w * wm.d,
    ;

    // Fixed point: the anchor of the zoomed span is the anchor of the old.
    let pa = point_at(rl, rh, p);
    let w2 = dd * k;
    assert(pa.n == rln * (g * ws.d) + (e * ws.n) * rld && pa.d == rld * (g * ws.d));
    assert(rld == w2 * b) by (nonlinear_arith)
        requires
            rld == (dd * b) * k,
            w2 == dd * k,
    ;
    assert(rhd == w2 * dh) by (nonlinear_arith)
        requires
            rhd == (dd * dh) * k,
            w2 == dd * k,
    ;
    assert(ws.d == (w2 * dh) * (w2 * b));
    assert(ws.n == w2 * (h * (dd * wn)));
    assert(rln * (g * ((w2 * dh) * (w2 * b))) == (w2 * w2) * ((g * dh) * (b * rln)))
        by (nonlinear_arith);
    assert((e * (w2 * (h * (dd * wn)))) * (w2 * b) == (w2 * w2) * ((e * h) * (b * (dd * wn))))
        by (nonlinear_arith);
    assert(pa.n == (w2 * w2) * ((g * dh) * (b * rln)) + (w2 * w2) * ((e * h) * (b * (dd
        * wn))));
    assert((g * dh) * (b * rln) == b * ((g * dh) * rln)) by (nonlinear_arith);
    assert((e * h) * (b * (dd * wn)) == b * ((e * h) * (dd * wn))) by (nonlinear_arith);
    let inner = (g * dh) * rln + (e * h) * (dd * wn);
    assert(pa.n == (w2 * w2) * (b * ((g * dh) * rln)) + (w2 * w2) * (b * ((e * h) * (dd
        * wn))));
    assert(pa.n == (w2 * w2) * (b * ((g * dh) * rln) + b * ((e * h) * (dd * wn))));
    assert(pa.n == (w2 * w2) * (b * inner));
    // `inner` collapses to `(g*dh) * ((t*b)*k)`.
    assert((g * dh) * rln == (g * dh) * ((t * b) * k) - (g * dh) * (q * h));
    assert(e * wn == t - (a * dh) * g);
    assert((e * h) * (dd * wn) == (h * dd) * (e * wn)) by (nonlinear_arith);
    assert((h * dd) * (e * wn) == (h * dd) * t - (h * dd) * ((a * dh) * g));
    assert((g * dh) * (q * h) == (g * dh) * ((t * b) * h) - (g * dh) * ((a * dd) * h))
        by (nonlinear_arith)
        requires
            q == t * b - a * dd,
    ;
    assert((g * dh) * ((t * b) * h) == (h * dd) * t) by (nonlinear_arith)
        requires
            dd == (b * dh) * g,
    ;
    assert((g * dh) * ((a * dd) * h) == (h * dd) * ((a * dh) * g)) by (nonlinear_arith);
    assert(inner == (g * dh) * ((t * b) * k));
    // Assemble numerator and denominator as multiples of `t` and `dd`.
    let m2 = (w2 * w2) * (b * ((g * dh) * (b * k)));
    assert((w2 * w2) * (b * ((g * dh) * ((t * b) * k))) == t * ((w2 * w2) * (b * ((g * dh) * (b
        * k))))) by (nonlinear_arith);
    assert(pa.n == t * m2);
    assert(pa.d == (w2 * b) * (g * ((w2 * dh) * (w2 * b))));
    assert((w2 * b) * (g * ((w2 * dh) * (w2 * b))) == (w2 * w2) * (w2 * (b * (b * (g * dh)))))
        by (nonlinear_arith);
    assert(w2 * (b * (b * (g * dh))) == dd * (k * (b * (b * (g * dh))))) by (nonlinear_arith)
        requires
            w2 == dd * k,
    ;
    assert(k * (b * (b * (g * dh))) == b * ((g * dh) * (b * k))) by (nonlinear_arith);
    assert(pa.d == (w2 * w2) * (dd * (b * ((g * dh) * (b * k)))));
    assert((w2 * w2) * (dd * (b * ((g * dh) * (b * k)))) == dd * m2) by (nonlinear_arith)
        requires
            m2 == (w2 * w2) * (b * ((g * dh) * (b * k))),
    ;
    assert(pa.d == dd * m2);
    assert(r_eq(pa, tp)) by (nonlinear_arith)
        requires
            pa.n == t * m2,
            pa.d == dd * m2,
            tp.n == b * t,
            tp.d == b * dd,
    ;
}

/// The single-denominator pan forms denote the definitional ones, are
/// well-formed pairs, and panning keeps the span unchanged.
proof fn lemma_pan_raw_props(lo: Ratio, hi: Ratio, dlt: Ratio, s: Ratio)
    requires
        r_wf(lo),
        r_wf(hi),
        r_wf(dlt),
        r_wf(s),
        s.n > 0,
    ensures
        r_wf(pan_lo_raw(lo, hi, dlt, s)),
        r_wf(pan_hi_raw(lo, hi, dlt, s)),
        r_wf(pan_lo(lo, hi, dlt, s)),
        r_wf(pan_hi(lo, hi, dlt, s)),
        r_wf(pan_shift(lo, hi, dlt, s)),
        r_eq(pan_lo_raw(lo, hi, dlt, s), pan_lo(lo, hi, dlt, s)),
        r_eq(pan_hi_raw(lo, hi, dlt, s), pan_hi(lo, hi, dlt, s)),
        r_eq(r_sub(pan_hi_raw(lo, hi, dlt, s), pan_lo_raw(lo, hi, dlt, s)), r_sub(hi, lo)),
{
    broadcast use vstd::arithmetic::mul::group_mul_is_commutative_and_distributive;

    let a = lo.n;
    let b = lo.d;
    let c = hi.n;
    let dh = hi.d;
    let e = dlt.n;
    let g = dlt.d;
    let u = s.n;
    let v = s.d;
    let wn = width_n(lo, hi);
    let rl = pan_lo_raw(lo, hi, dlt, s);
    let rh = pan_hi_raw(lo, hi, dlt, s);

    // Shape of the raw components.
    assert(rl.n == ((a * g) * dh) * u - (e * v) * wn);
    assert(rl.d == ((b * g) * dh) * u);
    assert(rh.n == ((c * g) * b) * u - (e * v) * wn);
    assert(rh.d == ((dh * g) * b) * u);

    // Positivity of the denominators involved.
    lemma_mul_pos(b, g);
    lemma_mul_pos(b * g, dh);
    lemma_mul_pos((b * g) * dh, u);
    assert(rl.d > 0);
    lemma_mul_pos(dh, g);
    lemma_mul_pos(dh * g, b);
    lemma_mul_pos((dh * g) * b, u);
    assert(rh.d > 0);

    // The shift over its common denominator.
    let sh = pan_shift(lo, hi, dlt, s);
    assert(sh.n == e * (wn * v) && sh.d == g * ((dh * b) * u));
    lemma_mul_pos(dh, b);
    lemma_mul_pos(dh * b, u);
    lemma_mul_pos(g, (dh * b) * u);
    assert(sh.d > 0);

    // The definitional lower bound is the raw one scaled by `b`.
    let pl = pan_lo(lo, hi, dlt, s);
    assert(pl.n == a * sh.d - sh.n * b && pl.d == b * sh.d);
    assert(a * (g * ((dh * b) * u)) == b * (((a * g) * dh) * u)) by (nonlinear_arith);
    assert((e * (wn * v)) * b == b * ((e * v) * wn)) by (nonlinear_arith);
    assert(pl.n == b * (((a * g) * dh) * u) - b * ((e * v) * wn) == b * rl.n);
    assert(g * ((dh * b) * u) == ((b * g) * dh) * u) by (nonlinear_arith);
    assert(pl.d == b * rl.d);
    lemma_mul_pos(b, rl.d);
    assert(pl.d > 0);
    assert(r_eq(rl, pl)) by (nonlinear_arith)
        requires
            pl.n == b * rl.n,
            pl.d == b * rl.d,
    ;

    // The definitional upper bound is the raw one scaled by `dh`.
    let ph = pan_hi(lo, hi, dlt, s);
    assert(ph.n == c * sh.d - sh.n * dh && ph.d == dh * sh.d);
    assert(c * (g * ((dh * b) * u)) == dh * (((c * g) * b) * u)) by (nonlinear_arith);
    assert((e * (wn * v)) * dh == dh * ((e * v) * wn)) by (nonlinear_arith);
    assert(ph.n == dh * (((c * g) * b) * u) - dh * ((e * v) * wn) == dh * rh.n);
    assert(g * ((dh * b) * u) == ((dh * g) * b) * u) by (nonlinear_arith);
    assert(ph.d == dh * rh.d);
    lemma_mul_pos(dh, rh.d);
    assert(ph.d > 0);
    assert(r_eq(rh, ph)) by (nonlinear_arith)
        requires
            ph.n == dh * rh.n,
            ph.d == dh * rh.d,
    ;

    // Panning keeps the span: `rh - rl` denotes `hi - lo`.
    let ws = r_sub(rh, rl);
    assert(ws.n == rh.n * rl.d - rl.n * rh.d && ws.d == rh.d * rl.d);
    assert(rl.d == rh.d) by (nonlinear_arith)
        requires
            rl.d == ((b * g) * dh) * u,
            rh.d == ((dh * g) * b) * u,
    ;
    assert(ws.n == rh.n * rl.d - rl.n * rl.d == (rh.n - rl.n) * rl.d);
    assert(rh.n - rl.n == ((c * g) * b) * u - ((a * g) * dh) * u);
    assert(((c * g) * b) * u == (g * u) * (c * b)) by (nonlinear_arith);
    assert(((a * g) * dh) * u == (g * u) * (a * dh)) by (nonlinear_arith);
    assert(rh.n - rl.n == (g * u) * (c * b) - (g * u) * (a * dh) == (g * u) * wn);
    assert(ws.n == ((g * u) * wn) * rl.d);
    let wd = r_sub(hi, lo);
    assert(wd.n == wn && wd.d == dh * b);
    assert((((g * u) * wn) * rl.d) * (dh * b) == ((g * u) * (dh * b)) * (wn * rl.d))
        by (nonlinear_arith);
    assert(wn * ws.d == wn * (rl.d * rl.d));
    assert(wn * (rl.d * rl.d) == ((g * u) * (dh * b)) * (wn * rl.d)) by (nonlinear_arith)
        requires
            rl.d == ((b * g) * dh) * u,
    ;
    assert(r_eq(ws, wd));
}



/// A rational equal to the difference of a pair equal to a positive span is
/// itself positive: transfers `lo < hi` along value equality.
proof fn lemma_lt_transfer(nlo: Ratio, nhi: Ratio, rlo: Ratio, rhi: Ratio, w: Ratio)
    requires
        r_eq(nlo, rlo),
        r_eq(nhi, rhi),
        r_eq(r_sub(rhi, rlo), w),
        w.n > 0,
        w.d > 0,
        nlo.d > 0,
        nhi.d > 0,
        rlo.d > 0,
        rhi.d > 0,
    ensures
        r_lt(nlo, nhi),
{
    lemma_sub_congr(nhi, rhi, nlo, rlo);
    lemma_mul_pos(rhi.d, rlo.d);
    lemma_r_eq_trans(r_sub(nhi, nlo), r_sub(rhi, rlo), w);
    lemma_mul_pos(nhi.d, nlo.d);
    lemma_pos_from_eq(r_sub(nhi, nlo), w);
}

/// Zooms the span `[lo, hi]` about the anchor at normalized position `p`
/// with factor `f`, over a single common denominator.  Returns the exact
/// new bounds, or `None` exactly when a reduced bound does not fit.
fn zoom_axis(lo: Rat, hi: Rat, p: Rat, f: Rat) -> (r: Option<(Rat, Rat)>)
    requires
        lo.wf(),
        hi.wf(),
        p.wf(),
        f.wf(),
        f@.n > 0,
        r_lt(lo@, hi@),
    ensures
        r matches Some(q) ==> {
            &&& q.0.wf()
            &&& q.1.wf()
            &&& r_eq(q.0@, zoom_lo(lo@, hi@, p@, f@))
            &&& r_eq(q.1@, zoom_hi(lo@, hi@, p@, f@))
            &&& r_lt(q.0@, q.1@)
        },
        r is Some <==> {
            &&& norm_fits(zoom_lo_raw(lo@, hi@, p@, f@).n, zoom_lo_raw(lo@, hi@, p@, f@).d)
            &&& norm_fits(zoom_hi_raw(lo@, hi@, p@, f@).n, zoom_hi_raw(lo@, hi@, p@, f@).d)
        },
{
    let ghost bb = RAT_BOUND as int;
    let a = lo.num() as i128;
    let b = lo.den() as i128;
    let c = hi.num() as i128;
    let dh = hi.den() as i128;
    let e = p.num() as i128;
    let g = p.den() as i128;
    let h = f.num() as i128;
    let k = f.den() as i128;

    proof {
        lemma_mul_bounds(a as int, dh as int, bb, bb);
        lemma_mul_bounds(c as int, b as int, bb, bb);
    }
    let ad = a * dh;
    let cb = c * b;
    let w = cb - ad;
    proof {
        lemma_mul_bounds(ad as int, g as int, bb * bb, bb);
        lemma_mul_bounds(e as int, w as int, bb, 2 * (bb * bb));
        lemma_mul_bounds(b as int, dh as int, bb, bb);
    }
    let adg = ad * g;
    let ew = e * w;
    let t = adg + ew;
    let bd = b * dh;
    proof {
        lemma_mul_bounds(bd as int, g as int, bb * bb, bb);
        lemma_mul_pos(b as int, dh as int);
        lemma_mul_pos(bd as int, g as int);
    }
    let dd = bd * g;
    proof {
        lemma_mul_bounds(t as int, b as int, 3 * ((bb * bb) * bb), bb);
        lemma_mul_bounds(a as int, dd as int, bb, (bb * bb) * bb);
        lemma_mul_bounds(t as int, dh as int, 3 * ((bb * bb) * bb), bb);
        lemma_mul_bounds(c as int, dd as int, bb, (bb * bb) * bb);
    }
    let tb = t * b;
    let ad2 = a * dd;
    let q = tb - ad2;
    let td = t * dh;
    let cdd = c * dd;
    let q2 = cdd - td;
    proof {
        lemma_mul_bounds(tb as int, k as int, 3 * (((bb * bb) * bb) * bb), bb);
        lemma_mul_bounds(q as int, h as int, 4 * (((bb * bb) * bb) * bb), bb);
        lemma_mul_bounds(td as int, k as int, 3 * (((bb * bb) * bb) * bb), bb);
        lemma_mul_bounds(q2 as int, h as int, 4 * (((bb * bb) * bb) * bb), bb);
        lemma_mul_bounds(dd as int, b as int, (bb * bb) * bb, bb);
        lemma_mul_pos(dd as int, b as int);
        lemma_mul_bounds(dd as int, dh as int, (bb * bb) * bb, bb);
        lemma_mul_pos(dd as int, dh as int);
    }
    let tbk = tb * k;
    let qh = q * h;
    let nlo_n = tbk - qh;
    let tdk = td * k;
    let q2h = q2 * h;
    let nhi_n = tdk + q2h;
    let ddb = dd * b;
    let dddh = dd * dh;
    proof {
        lemma_mul_bounds(ddb as int, k as int, ((bb * bb) * bb) * bb, bb);
        lemma_mul_pos(ddb as int, k as int);
        lemma_mul_bounds(dddh as int, k as int, ((bb * bb) * bb) * bb, bb);
        lemma_mul_pos(dddh as int, k as int);
    }
    let nlo_d = ddb * k;
    let nhi_d = dddh * k;

    proof {
        assert(t as int == zoom_t(lo@, hi@, p@));
        assert(dd as int == zoom_d(lo@, hi@, p@));
        assert(nlo_n as int == zoom_lo_raw(lo@, hi@, p@, f@).n);
        assert(nlo_d as int == zoom_lo_raw(lo@, hi@, p@, f@).d);
        assert(nhi_n as int == zoom_hi_raw(lo@, hi@, p@, f@).n);
        assert(nhi_d as int == zoom_hi_raw(lo@, hi@, p@, f@).d);
        lemma_zoom_raw_props(lo@, hi@, p@, f@);
    }
    let rlo_opt = normalize(nlo_n, nlo_d);
    let rhi_opt = normalize(nhi_n, nhi_d);
    match (rlo_opt, rhi_opt) {
        (Some(nl), Some(nh)) => {
            proof {
                let rl = zoom_lo_raw(lo@, hi@, p@, f@);
                let rh = zoom_hi_raw(lo@, hi@, p@, f@);
                lemma_r_eq_trans(nl@, rl, zoom_lo(lo@, hi@, p@, f@));
                lemma_r_eq_trans(nh@, rh, zoom_hi(lo@, hi@, p@, f@));
                let wm = r_mul(r_sub(hi@, lo@), f@);
                assert(wm.n == width_n(lo@, hi@) * f@.n);
                lemma_mul_pos(width_n(lo@, hi@), f@.n);
                lemma_mul_pos(hi@.d, lo@.d);
                lemma_mul_pos(hi@.d * lo@.d, f@.d);
                lemma_lt_transfer(nl@, nh@, rl, rh, wm);
            }
            Some((nl, nh))
        },
        _ => None,
    }
}

/// Pans the span `[lo, hi]` by the screen-pixel delta `dlt` on a screen of
/// extent `sz`, over a single common denominator.  Returns the exact new
/// bounds, or `None` exactly when a reduced bound does not fit.
fn pan_axis(lo: Rat, hi: Rat, dlt: Rat, sz: Rat) -> (r: Option<(Rat, Rat)>)
    requires
        lo.wf(),
        hi.wf(),
        dlt.wf(),
        sz.wf(),
        sz@.n > 0,
        r_lt(lo@, hi@),
    ensures
        r matches Some(q) ==> {
            &&& q.0.wf()
            &&& q.1.wf()
            &&& r_eq(q.0@, pan_lo(lo@, hi@, dlt@, sz@))
            &&& r_eq(q.1@, pan_hi(lo@, hi@, dlt@, sz@))
            &&& r_lt(q.0@, q.1@)
        },
        r is Some <==> {
            &&& norm_fits(pan_lo_raw(lo@, hi@, dlt@, sz@).n, pan_lo_raw(lo@, hi@, dlt@, sz@).d)
            &&& norm_fits(pan_hi_raw(lo@, hi@, dlt@, sz@).n, pan_hi_raw(lo@, hi@, dlt@, sz@).d)
        },
{
    let ghost bb = RAT_BOUND as int;
    let a = lo.num() as i128;
    let b = lo.den() as i128;
    let c = hi.num() as i128;
    let dh = hi.den() as i128;
    let e = dlt.num() as i128;
    let g = dlt.den() as i128;
    let u = sz.num() as i128;
    let v = sz.den() as i128;

    proof {
        lemma_mul_bounds(c as int, b as int, bb, bb);
        lemma_mul_bounds(a as int, dh as int, bb, bb);
    }
    let cb = c * b;
    let ad = a * dh;
    let wn = cb - ad;
    proof {
        lemma_mul_bounds(a as int, g as int, bb, bb);
        lemma_mul_bounds(e as int, v as int, bb, bb);
    }
    let ag = a * g;
    let ev = e * v;
    proof {
        lemma_mul_bounds(ag as int, dh as int, bb * bb, bb);
        lemma_mul_bounds(ev as int, wn as int, bb * bb, 2 * (bb * bb));
    }
    let agd = ag * dh;
    let evw = ev * wn;
    proof {
        lemma_mul_bounds(agd as int, u as int, (bb * bb) * bb, bb);
    }
    let agdu = agd * u;
    let nlo_n = agdu - evw;
    proof {
        lemma_mul_bounds(b as int, g as int, bb, bb);
        lemma_mul_pos(b as int, g as int);
    }
    let bg = b * g;
    proof {
        lemma_mul_bounds(bg as int, dh as int, bb * bb, bb);
        lemma_mul_pos(bg as int, dh as int);
    }
    let bgd = bg * dh;
    proof {
        lemma_mul_bounds(bgd as int, u as int, (bb * bb) * bb, bb);
        lemma_mul_pos(bgd as int, u as int);
    }
    let nlo_d = bgd * u;
    proof {
        lemma_mul_bounds(c as int, g as int, bb, bb);
    }
    let cg = c * g;
    proof {
        lemma_mul_bounds(cg as int, b as int, bb * bb, bb);
    }
    let cgb = cg * b;
    proof {
        lemma_mul_bounds(cgb as int, u as int, (bb * bb) * bb, bb);
    }
    let cgbu = cgb * u;
    let nhi_n = cgbu - evw;
    proof {
        lemma_mul_bounds(dh as int, g as int, bb, bb);
        lemma_mul_pos(dh as int, g as int);
    }
    let dhg = dh * g;
    proof {
        lemma_mul_bounds(dhg as int, b as int, bb * bb, bb);
        lemma_mul_pos(dhg as int, b as int);
    }
    let dhgb = dhg * b;
    proof {
        lemma_mul_bounds(dhgb as int, u as int, (bb * bb) * bb, bb);
        lemma_mul_pos(dhgb as int, u as int);
    }
    let nhi_d = dhgb * u;

    proof {
        assert(wn as int == width_n(lo@, hi@));
        assert(nlo_n as int == pan_lo_raw(lo@, hi@, dlt@, sz@).n);
        assert(nlo_d as int == pan_lo_raw(lo@, hi@, dlt@, sz@).d);
        assert(nhi_n as int == pan_hi_raw(lo@, hi@, dlt@, sz@).n);
        assert(nhi_d as int == pan_hi_raw(lo@, hi@, dlt@, sz@).d);
        lemma_pan_raw_props(lo@, hi@, dlt@, sz@);
    }
    let rlo_opt = normalize(nlo_n, nlo_d);
    let rhi_opt = normalize(nhi_n, nhi_d);
    match (rlo_opt, rhi_opt) {
        (Some(nl), Some(nh)) => {
            proof {
                let rl = pan_lo_raw(lo@, hi@, dlt@, sz@);
                let rh = pan_hi_raw(lo@, hi@, dlt@, sz@);
                lemma_r_eq_trans(nl@, rl, pan_lo(lo@, hi@, dlt@, sz@));
                lemma_r_eq_trans(nh@, rh, pan_hi(lo@, hi@, dlt@, sz@));
                let wd = r_sub(hi@, lo@);
                lemma_mul_pos(hi@.d, lo@.d);
                lemma_lt_transfer(nl@, nh@, rl, rh, wd);
            }
            Some((nl, nh))
        },
        _ => None,
    }
}

/// The axis-aligned rectangle of fractal space currently on screen.
/// Invariant: `min < max` on both axes — the rectangle never degenerates.
#[derive(Clone, Copy, PartialEq, Eq, Structural, Debug)]
pub struct Viewport {
    pub min: Point2,
    pub max: Point2,
}

/// `[nlo, nhi]` is `[lo, hi]` zoomed about the anchor at `p` with factor
/// `f`: each new bound denotes the exact value of the zoom formula.
pub open spec fn axis_zoomed(lo: Ratio, hi: Ratio, p: Ratio, f: Ratio, nlo: Ratio, nhi: Ratio) -> bool {
    &&& r_eq(nlo, zoom_lo(lo, hi, p, f))
    &&& r_eq(nhi, zoom_hi(lo, hi, p, f))
}

/// Both zoomed bounds of one axis fit the scalar bounds once reduced.
pub open spec fn axis_zoom_fits(lo: Ratio, hi: Ratio, p: Ratio, f: Ratio) -> bool {
    &&& norm_fits(zoom_lo_raw(lo, hi, p, f).n, zoom_lo_raw(lo, hi, p, f).d)
    &&& norm_fits(zoom_hi_raw(lo, hi, p, f).n, zoom_hi_raw(lo, hi, p, f).d)
}

/// `[nlo, nhi]` is `[lo, hi]` panned by the screen delta `dlt` on a screen
/// of extent `s`: each new bound denotes the exact value of the pan
/// formula.
pub open spec fn axis_panned(lo: Ratio, hi: Ratio, dlt: Ratio, s: Ratio, nlo: Ratio, nhi: Ratio) -> bool {
    &&& r_eq(nlo, pan_lo(lo, hi, dlt, s))
    &&& r_eq(nhi, pan_hi(lo, hi, dlt, s))
}

/// Both panned bounds of one axis fit the scalar bounds once reduced.
pub open spec fn axis_pan_fits(lo: Ratio, hi: Ratio, dlt: Ratio, s: Ratio) -> bool {
    &&& norm_fits(pan_lo_raw(lo, hi, dlt, s).n, pan_lo_raw(lo, hi, dlt, s).d)
    &&& norm_fits(pan_hi_raw(lo, hi, dlt, s).n, pan_hi_raw(lo, hi, dlt, s).d)
}

/// `v1` is `v0` zoomed about the normalized cursor `p` with factor `f`:
/// each bound denotes the exact value of the zoom formula.
pub open spec fn viewport_zoomed(v0: Viewport, p: Point2, f: Rat, v1: Viewport) -> bool {
    &&& axis_zoomed(v0.min.x@, v0.max.x@, p.x@, f@, v1.min.x@, v1.max.x@)
    &&& axis_zoomed(v0.min.y@, v0.max.y@, p.y@, f@, v1.min.y@, v1.max.y@)
}

/// All four zoomed bounds fit the scalar bounds once reduced; exactly then
/// does [`Viewport::zoom_about`] succeed.
pub open spec fn zoom_fits(v: Viewport, p: Point2, f: Rat) -> bool {
    &&& axis_zoom_fits(v.min.x@, v.max.x@, p.x@, f@)
    &&& axis_zoom_fits(v.min.y@, v.max.y@, p.y@, f@)
}

/// `v1` is `v0` panned by the screen delta `dlt` on a screen of size `s`:
/// each bound denotes the exact value of the pan formula.
pub open spec fn viewport_panned(v0: Viewport, dlt: Point2, s: Point2, v1: Viewport) -> bool {
    &&& axis_panned(v0.min.x@, v0.max.x@, dlt.x@, s.x@, v1.min.x@, v1.max.x@)
    &&& axis_panned(v0.min.y@, v0.max.y@, dlt.y@, s.y@, v1.min.y@, v1.max.y@)
}

/// All four panned bounds fit the scalar bounds once reduced; exactly then
/// does [`Viewport::pan_by`] succeed.
pub open spec fn pan_fits(v: Viewport, dlt: Point2, s: Point2) -> bool {
    &&& axis_pan_fits(v.min.x@, v.max.x@, dlt.x@, s.x@)
    &&& axis_pan_fits(v.min.y@, v.max.y@, dlt.y@, s.y@)
}

impl Viewport {
    /// A well-formed rectangle: well-formed scalars and `min < max` on
    /// both axes.
    pub open spec fn wf(self) -> bool {
        &&& self.min.wf()
        &&& self.max.wf()
        &&& r_lt(self.min.x@, self.max.x@)
        &&& r_lt(self.min.y@, self.max.y@)
    }

    /// The rectangle `[min, max]`.
    pub fn new(min: Point2, max: Point2) -> (r: Viewport)
        requires
            min.wf(),
            max.wf(),
            r_lt(min.x@, max.x@),
            r_lt(min.y@, max.y@),
        ensures
            r.min == min,
            r.max == max,
            r.wf(),
    {
        Viewport { min, max }
    }

    /// Scales the rectangle by `factor` while keeping the fractal-space
    /// point under the normalized cursor position `p` fixed.  `factor < 1`
    /// zooms in, `factor > 1` zooms out.  On success the new bounds are the
    /// exact rationals of the zoom formula; when a reduced bound cannot be
    /// represented the rectangle is left unchanged and `false` returned.
    pub fn zoom_about(&mut self, p: Point2, factor: Rat) -> (ok: bool)
        requires
            old(self).wf(),
            p.wf(),
            factor.wf(),
            factor@.n > 0,
        ensures
            final(self).wf(),
            ok == zoom_fits(*old(self), p, factor),
            ok ==> viewport_zoomed(*old(self), p, factor, *final(self)),
            !ok ==> *final(self) == *old(self),
    {
        let rx = zoom_axis(self.min.x, self.max.x, p.x, factor);
        let ry = zoom_axis(self.min.y, self.max.y, p.y, factor);
        match (rx, ry) {
            (Some((nlx, nhx)), Some((nly, nhy))) => {
                self.min = Point2 { x: nlx, y: nly };
                self.max = Point2 { x: nhx, y: nhy };
                true
            },
            _ => false,
        }
    }

    /// Shifts the rectangle by the fractal-space image of the screen-pixel
    /// delta `screen_delta`, so that dragged content follows the pointer.
    /// On success the new bounds are the exact rationals of the pan
    /// formula; when a reduced bound cannot be represented the rectangle is
    /// left unchanged and `false` returned.
    pub fn pan_by(&mut self, screen_delta: Point2, screen_size: Point2) -> (ok: bool)
        requires
            old(self).wf(),
            screen_delta.wf(),
            screen_size.wf(),
            screen_size.x@.n > 0,
            screen_size.y@.n > 0,
        ensures
            final(self).wf(),
            ok == pan_fits(*old(self), screen_delta, screen_size),
            ok ==> viewport_panned(*old(self), screen_delta, screen_size, *final(self)),
            !ok ==> *final(self) == *old(self),
    {
        let rx = pan_axis(self.min.x, self.max.x, screen_delta.x, screen_size.x);
        let ry = pan_axis(self.min.y, self.max.y, screen_delta.y, screen_size.y);
        match (rx, ry) {
            (Some((nlx, nhx)), Some((nly, nhy))) => {
                self.min = Point2 { x: nlx, y: nly };
                self.max = Point2 { x: nhx, y: nhy };
                true
            },
            _ => false,
        }
    }

    /// Overwrites the rectangle with the given default bounds.
    pub fn reset(&mut self, default_min: Point2, default_max: Point2)
        requires
            default_min.wf(),
            default_max.wf(),
            r_lt(default_min.x@, default_max.x@),
            r_lt(default_min.y@, default_max.y@),
        ensures
            final(self).min == default_min,
            final(self).max == default_max,
            final(self).wf(),
    {
        self.min = default_min;
        self.max = default_max;
    }
}

/// Equal bounds have equal anchor points.
proof fn lemma_point_at_congr(x: Ratio, x2: Ratio, y: Ratio, y2: Ratio, p: Ratio)
    requires
        r_eq(x, x2),
        r_eq(y, y2),
    ensures
        r_eq(point_at(x, y, p), point_at(x2, y2, p)),
{
    lemma_sub_congr(y, y2, x, x2);
    lemma_mul_congr(p, p, r_sub(y, x), r_sub(y2, x2));
    lemma_add_congr(x, x2, r_mul(p, r_sub(y, x)), r_mul(p, r_sub(y2, x2)));
}

/// One axis of the zoom law: bounds equal to the zoom formulas keep the
/// anchor fixed and scale the span by exactly `f`.
proof fn lemma_zoom_axis_law(lo: Ratio, hi: Ratio, p: Ratio, f: Ratio, nlo: Ratio, nhi: Ratio)
    requires
        r_wf(lo),
        r_wf(hi),
        r_wf(p),
        r_wf(f),
        r_wf(nlo),
        r_wf(nhi),
        r_eq(nlo, zoom_lo(lo, hi, p, f)),
        r_eq(nhi, zoom_hi(lo, hi, p, f)),
    ensures
        r_eq(point_at(nlo, nhi, p), point_at(lo, hi, p)),
        r_eq(r_sub(nhi, nlo), r_mul(r_sub(hi, lo), f)),
{
    lemma_zoom_raw_props(lo, hi, p, f);
    let rl = zoom_lo_raw(lo, hi, p, f);
    let rh = zoom_hi_raw(lo, hi, p, f);
    lemma_r_eq_trans(nlo, zoom_lo(lo, hi, p, f), rl);
    lemma_r_eq_trans(nhi, zoom_hi(lo, hi, p, f), rh);
    lemma_sub_congr(nhi, rh, nlo, rl);
    lemma_mul_pos(rh.d, rl.d);
    lemma_r_eq_trans(r_sub(nhi, nlo), r_sub(rh, rl), r_mul(r_sub(hi, lo), f));
    lemma_point_at_congr(nlo, rl, nhi, rh, p);
    let pr = point_at(rl, rh, p);
    lemma_mul_pos(rh.d, rl.d);
    lemma_mul_pos(p.d, rh.d * rl.d);
    lemma_mul_pos(rl.d, p.d * (rh.d * rl.d));
    assert(pr.d == rl.d * (p.d * (rh.d * rl.d)));
    lemma_r_eq_trans(point_at(nlo, nhi, p), pr, point_at(lo, hi, p));
}

/// Cursor-anchored zoom law.  For any well-formed viewport, any cursor
/// position in the unit square and any positive factor: after a zoom, the
/// fractal-space point under the cursor is unchanged, and the rectangle's
/// width and height are the old ones multiplied by exactly the factor.
pub proof fn lemma_zoom_fixed_point(v0: Viewport, p: Point2, f: Rat, v1: Viewport)
    requires
        v0.wf(),
        v1.wf(),
        p.wf(),
        f.wf(),
        f@.n > 0,
        r_le(r_int(0), p.x@),
        r_le(p.x@, r_int(1)),
        r_le(r_int(0), p.y@),
        r_le(p.y@, r_int(1)),
        viewport_zoomed(v0, p, f, v1),
    ensures
        r_eq(
            point_at(v1.min.x@, v1.max.x@, p.x@),
            point_at(v0.min.x@, v0.max.x@, p.x@),
        ),
        r_eq(
            point_at(v1.min.y@, v1.max.y@, p.y@),
            point_at(v0.min.y@, v0.max.y@, p.y@),
        ),
        r_eq(r_sub(v1.max.x@, v1.min.x@), r_mul(r_sub(v0.max.x@, v0.min.x@), f@)),
        r_eq(r_sub(v1.max.y@, v1.min.y@), r_mul(r_sub(v0.max.y@, v0.min.y@), f@)),
{
    lemma_zoom_axis_law(v0.min.x@, v0.max.x@, p.x@, f@, v1.min.x@, v1.max.x@);
    lemma_zoom_axis_law(v0.min.y@, v0.max.y@, p.y@, f@, v1.min.y@, v1.max.y@);
}

/// One axis of the pan inverse law.
proof fn lemma_pan_axis_round_trip(
    lo: Ratio,
    hi: Ratio,
    dlt: Ratio,
    s: Ratio,
    lo1: Ratio,
    hi1: Ratio,
    lo2: Ratio,
    hi2: Ratio,
)
    requires
        r_wf(lo),
        r_wf(hi),
        r_wf(dlt),
        r_wf(s),
        s.n > 0,
        r_wf(lo1),
        r_wf(hi1),
        r_wf(lo2),
        r_wf(hi2),
        r_eq(lo1, pan_lo(lo, hi, dlt, s)),
        r_eq(hi1, pan_hi(lo, hi, dlt, s)),
        r_eq(lo2, pan_lo(lo1, hi1, r_neg(dlt), s)),
        r_eq(hi2, pan_hi(lo1, hi1, r_neg(dlt), s)),
    ensures
        r_eq(lo2, lo),
        r_eq(hi2, hi),
{
    lemma_pan_raw_props(lo, hi, dlt, s);
    let rl = pan_lo_raw(lo, hi, dlt, s);
    let rh = pan_hi_raw(lo, hi, dlt, s);
    lemma_r_eq_trans(lo1, pan_lo(lo, hi, dlt, s), rl);
    lemma_r_eq_trans(hi1, pan_hi(lo, hi, dlt, s), rh);

    // The panned span denotes the original span.
    let w1 = r_sub(hi1, lo1);
    let w = r_sub(hi, lo);
    lemma_sub_congr(hi1, rh, lo1, rl);
    lemma_mul_pos(rh.d, rl.d);
    lemma_r_eq_trans(w1, r_sub(rh, rl), w);

    // The second shift is the exact negation of the first.
    let sh1 = pan_shift(lo, hi, dlt, s);
    let sh2 = pan_shift(lo1, hi1, r_neg(dlt), s);
    let q1 = r_div(w1, s);
    let q0 = r_div(w, s);
    lemma_div_congr_left(w1, w, s);
    lemma_mul_congr(dlt, dlt, q1, q0);
    lemma_neg_mul(dlt, q1);
    assert(sh2 == r_neg(r_mul(dlt, q1)));
    lemma_neg_congr(r_mul(dlt, q1), sh1);
    assert(r_eq(sh2, r_neg(sh1)));

    // Positivity of the denominators along the chain.
    lemma_mul_pos(hi1.d, lo1.d);
    lemma_mul_pos(w1.d, s.n);
    lemma_mul_pos(dlt.d, w1.d * s.n);
    assert(sh2.d == dlt.d * (w1.d * s.n));
    assert(sh2.d > 0);
    assert(sh1.d > 0);
    lemma_mul_pos(lo1.d, sh2.d);
    lemma_mul_pos(lo1.d, sh1.d);
    lemma_mul_pos(lo.d, sh1.d);
    lemma_mul_pos(lo.d * sh1.d, sh1.d);
    lemma_mul_pos(hi1.d, sh2.d);
    lemma_mul_pos(hi1.d, sh1.d);
    lemma_mul_pos(hi.d, sh1.d);
    lemma_mul_pos(hi.d * sh1.d, sh1.d);

    // Walk `lo2` back to `lo`.
    lemma_sub_congr(lo1, lo1, sh2, r_neg(sh1));
    lemma_r_eq_trans(lo2, r_sub(lo1, sh2), r_sub(lo1, r_neg(sh1)));
    lemma_sub_neg_is_add(lo1, sh1);
    lemma_add_congr(lo1, r_sub(lo, sh1), sh1, sh1);
    lemma_r_eq_trans(lo2, r_add(lo1, sh1), r_add(r_sub(lo, sh1), sh1));
    lemma_sub_add_cancel(lo, sh1);
    lemma_r_eq_trans(lo2, r_add(r_sub(lo, sh1), sh1), lo);

    // Walk `hi2` back to `hi`.
    lemma_sub_congr(hi1, hi1, sh2, r_neg(sh1));
    lemma_r_eq_trans(hi2, r_sub(hi1, sh2), r_sub(hi1, r_neg(sh1)));
    lemma_sub_neg_is_add(hi1, sh1);
    lemma_add_congr(hi1, r_sub(hi, sh1), sh1, sh1);
    lemma_r_eq_trans(hi2, r_add(hi1, sh1), r_add(r_sub(hi, sh1), sh1));
    lemma_sub_add_cancel(hi, sh1);
    lemma_r_eq_trans(hi2, r_add(r_sub(hi, sh1), sh1), hi);
}

/// Pan inverse law.  Panning by a screen delta and then by its exact
/// negation returns every bound of the viewport to its original value.
pub proof fn lemma_pan_round_trip(
    v0: Viewport,
    dlt: Point2,
    nd: Point2,
    s: Point2,
    v1: Viewport,
    v2: Viewport,
)
    requires
        v0.wf(),
        v1.wf(),
        v2.wf(),
        dlt.wf(),
        s.wf(),
        s.x@.n > 0,
        s.y@.n > 0,
        nd.x@ == r_neg(dlt.x@),
        nd.y@ == r_neg(dlt.y@),
        viewport_panned(v0, dlt, s, v1),
        viewport_panned(v1, nd, s, v2),
    ensures
        r_eq(v2.min.x@, v0.min.x@),
        r_eq(v2.max.x@, v0.max.x@),
        r_eq(v2.min.y@, v0.min.y@),
        r_eq(v2.max.y@, v0.max.y@),
{
    lemma_pan_axis_round_trip(
        v0.min.x@,
        v0.max.x@,
        dlt.x@,
        s.x@,
        v1.min.x@,
        v1.max.x@,
        v2.min.x@,
        v2.max.x@,
    );
    lemma_pan_axis_round_trip(
        v0.min.y@,
        v0.max.y@,
        dlt.y@,
        s.y@,
        v1.min.y@,
        v1.max.y@,
        v2.min.y@,
        v2.max.y@,
    );
}

} // verus!
