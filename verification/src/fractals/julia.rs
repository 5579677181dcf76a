//! The Julia set variant: an extra angle parameter `a`, optionally
//! animated at a fixed angular speed.
//!
//! The angle is kept in units of pi radians and wrapped into `[0, 2)`, so
//! one full revolution is exactly `2` and the wrap is exact rational
//! arithmetic: advancing an angle of `0` by `8` seconds at a speed of a
//! quarter (pi/4 radians per second) lands exactly back on `0`.

use crate::fractals::fractal::{
    base_uniforms, Fractal, FractalData, Shader, Uniform, UniformName, UniformValue,
};
use crate::rational::{
    lemma_mul_bounds, lemma_mul_pos, lemma_view_injective, norm_fits, normalize, r_add, r_int,
    r_mul, reduced, Rat, Ratio, RAT_BOUND,
};
use crate::viewport::{Point2, Viewport};
use vstd::arithmetic::div_mod::{lemma_mod_bound, lemma_mod_multiples_vanish};
use vstd::prelude::*;

verus! {

/// The pair `x` with its numerator wrapped into `[0, 2)` of its
/// denominator: the angle `x` modulo one full revolution.
pub open spec fn wrap_two(x: Ratio) -> Ratio {
    Ratio { n: x.n % (2 * x.d), d: x.d }
}

/// A well-formed angle: a well-formed scalar whose value lies in `[0, 2)`
/// units of pi radians.
pub open spec fn angle_wf(a: Rat) -> bool {
    &&& a.wf()
    &&& 0 <= a@.n
    &&& a@.n < 2 * a@.d
}

/// The Julia set fractal: shared state plus the angle parameter `a` (in
/// units of pi radians), its animation flag, and the angular speed (in
/// units of pi radians per second).
pub struct Julia {
    pub data: FractalData,
    /// The angle parameter, in units of pi radians, kept in `[0, 2)`.
    pub a: Rat,
    /// Whether `update` advances the angle.
    pub animating: bool,
    /// Angle advance per second, in units of pi radians.
    pub animation_speed: Rat,
}

impl Julia {
    /// Sets the angle directly (the slider binding).
    pub fn set_angle(&mut self, a: Rat)
        requires
            old(self).wf(),
            angle_wf(a),
        ensures
            final(self).wf(),
            *final(self) == (Julia { a, ..*old(self) }),
    {
        self.a = a;
    }

    /// Flips the animation flag (the toggle button binding).
    pub fn toggle_animation(&mut self)
        requires
            old(self).wf(),
        ensures
            final(self).wf(),
            *final(self) == (Julia { animating: !old(self).animating, ..*old(self) }),
    {
        self.animating = !self.animating;
    }
}

impl Fractal for Julia {
    open spec fn wf(&self) -> bool {
        &&& self.data.wf()
        &&& angle_wf(self.a)
        &&& self.animation_speed.wf()
    }

    open spec fn data_spec(&self) -> FractalData {
        self.data
    }

    open spec fn with_data(&self, d: FractalData) -> Self {
        Julia { data: d, ..*self }
    }

    open spec fn is_default_vp(v: Viewport) -> bool {
        &&& v.min.x@ == (Ratio { n: -3, d: 2 })
        &&& v.min.y@ == (Ratio { n: -3, d: 2 })
        &&& v.max.x@ == (Ratio { n: 3, d: 2 })
        &&& v.max.y@ == (Ratio { n: 3, d: 2 })
    }

    open spec fn fresh_spec(&self) -> bool {
        &&& self.a@ == r_int(0)
        &&& !self.animating
        &&& self.animation_speed@ == (Ratio { n: 1, d: 4 })
    }

    open spec fn extra_uniforms_spec(&self) -> Seq<Uniform> {
        seq![Uniform { name: UniformName::JuliaA, value: UniformValue::F1(self.a) }]
    }

    /// While animating, the angle advances by `dt` times the angular
    /// speed and wraps into `[0, 2)`; otherwise nothing changes.  The
    /// advance fails, leaving everything unchanged, exactly when the
    /// reduced wrapped angle does not fit the scalar bounds.
    open spec fn updated(&self, dt: Rat, next: Self, ok: bool) -> bool {
        if self.animating {
            let wrapped = wrap_two(r_add(self.a@, r_mul(dt@, self.animation_speed@)));
            &&& ok == norm_fits(wrapped.n, wrapped.d)
            &&& (ok ==> next == (Julia { a: next.a, ..*self }) && next.a@ == reduced(
                wrapped.n,
                wrapped.d,
            ))
            &&& (!ok ==> next == *self)
        } else {
            next == *self && ok
        }
    }

    proof fn lemma_default_vp_unique(v1: Viewport, v2: Viewport) {
        lemma_view_injective(v1.min.x, v2.min.x);
        lemma_view_injective(v1.min.y, v2.min.y);
        lemma_view_injective(v1.max.x, v2.max.x);
        lemma_view_injective(v1.max.y, v2.max.y);
    }

    fn new(shader: Shader) -> (s: Self) {
        Julia {
            data: FractalData::new(shader, Self::default_viewport()),
            a: Rat::from_int(0),
            animating: false,
            animation_speed: Rat::new(1, 4),
        }
    }

    fn data(&self) -> (d: &FractalData) {
        &self.data
    }

    fn data_mut(&mut self) -> (d: &mut FractalData) {
        &mut self.data
    }

    fn default_viewport() -> (vp: Viewport) {
        Viewport::new(
            Point2::new(Rat::new(-3, 2), Rat::new(-3, 2)),
            Point2::new(Rat::new(3, 2), Rat::new(3, 2)),
        )
    }

    fn update(&mut self, dt: Rat) -> (ok: bool) {
        if !self.animating {
            return true;
        }
        let ghost bb = RAT_BOUND as int;
        let m = self.a.num() as i128;
        let n = self.a.den() as i128;
        let p = dt.num() as i128;
        let q = dt.den() as i128;
        let r = self.animation_speed.num() as i128;
        let s = self.animation_speed.den() as i128;
        proof {
            lemma_mul_bounds(q as int, s as int, bb, bb);
            lemma_mul_pos(q as int, s as int);
            lemma_mul_bounds(p as int, r as int, bb, bb);
        }
        let qs = q * s;
        let pr = p * r;
        proof {
            lemma_mul_bounds(m as int, qs as int, bb, bb * bb);
            lemma_mul_bounds(pr as int, n as int, bb * bb, bb);
            lemma_mul_bounds(n as int, qs as int, bb, bb * bb);
            lemma_mul_pos(n as int, qs as int);
        }
        let sum_n = m * qs + pr * n;
        let sum_d = n * qs;
        let mm = 2 * sum_d;
        proof {
            lemma_mul_bounds(mm as int, (bb * bb) * bb, 2 * ((bb * bb) * bb), (bb * bb) * bb);
            lemma_mul_pos(mm as int, (bb * bb) * bb);
        }
        proof {
            assert((bb * bb) * bb == 1152921504606846976);
        }
        let shifted = sum_n + mm * 1152921504606846976i128;
        proof {
            assert(shifted >= 0);
        }
        let rm = ((shifted as u128) % (mm as u128)) as i128;
        proof {
            lemma_mod_bound(shifted as int, mm as int);
            lemma_mod_multiples_vanish((bb * bb) * bb, sum_n as int, mm as int);
            assert(mm as int * ((bb * bb) * bb) == ((bb * bb) * bb) * (mm as int))
                by (nonlinear_arith);
            assert(rm == (sum_n as int) % (mm as int));
        }
        let na = normalize(rm, sum_d);
        match na {
            Some(aa) => {
                proof {
                    let sum = r_add(self.a@, r_mul(dt@, self.animation_speed@));
                    assert(sum.n == sum_n as int && sum.d == sum_d as int);
                    assert(wrap_two(sum).n == rm as int && wrap_two(sum).d == sum_d as int);
                    assert(aa@.n >= 0) by (nonlinear_arith)
                        requires
                            aa@.n * (sum_d as int) == (rm as int) * aa@.d,
                            aa@.d > 0,
                            sum_d > 0,
                            rm >= 0,
                    ;
                    assert(aa@.n < 2 * aa@.d) by (nonlinear_arith)
                        requires
                            aa@.n * (sum_d as int) == (rm as int) * aa@.d,
                            aa@.d > 0,
                            sum_d > 0,
                            rm < 2 * (sum_d as int),
                    ;
                }
                self.a = aa;
                true
            },
            None => false,
        }
    }

    fn extra_uniforms(&self) -> (u: Vec<Uniform>) {
        let mut u: Vec<Uniform> = Vec::new();
        u.push(Uniform { name: UniformName::JuliaA, value: UniformValue::F1(self.a) });
        proof {
            assert(u@ =~= self.extra_uniforms_spec());
        }
        u
    }

    fn reset_viewport(&mut self) {
        self.data.viewport.reset(
            Point2::new(Rat::new(-3, 2), Rat::new(-3, 2)),
            Point2::new(Rat::new(3, 2), Rat::new(3, 2)),
        );
    }

    fn handle_zoom(&mut self, screen_dimensions: Point2, wheel: i32, mouse: Point2) -> (ok:
        bool) {
        self.data.handle_zoom(screen_dimensions, wheel, mouse)
    }

    fn handle_panning(
        &mut self,
        screen_dimensions: Point2,
        prev_mouse_position: &mut Option<Point2>,
        space_down: bool,
        mouse_down: bool,
        mouse: Point2,
    ) -> (ok: bool) {
        self.data.handle_panning(
            screen_dimensions,
            prev_mouse_position,
            space_down,
            mouse_down,
            mouse,
        )
    }

    fn uniforms(&self, screen_dimensions: Point2) -> (u: Vec<Uniform>) {
        let mut u = base_uniforms(&self.data, screen_dimensions);
        let mut e = self.extra_uniforms();
        u.append(&mut e);
        u
    }
}

} // verus!
