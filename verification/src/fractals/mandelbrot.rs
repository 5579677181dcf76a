//! The Mandelbrot set variant: no extra state beyond the shared
//! [`FractalData`], over its own default viewport `[-2, 1] x [-1.5, 1.5]`.

use crate::fractals::fractal::{
    base_uniforms, base_uniforms_spec, Fractal, FractalData, Shader, Uniform,
};
use crate::rational::{lemma_view_injective, Rat, Ratio};
use crate::viewport::{Point2, Viewport};
use vstd::prelude::*;

verus! {

/// The Mandelbrot set fractal.
pub struct Mandelbrot {
    pub data: FractalData,
}

impl Fractal for Mandelbrot {
    open spec fn wf(&self) -> bool {
        self.data.wf()
    }

    open spec fn data_spec(&self) -> FractalData {
        self.data
    }

    open spec fn with_data(&self, d: FractalData) -> Self {
        Mandelbrot { data: d }
    }

    open spec fn is_default_vp(v: Viewport) -> bool {
        &&& v.min.x@ == (Ratio { n: -2, d: 1 })
        &&& v.min.y@ == (Ratio { n: -3, d: 2 })
        &&& v.max.x@ == (Ratio { n: 1, d: 1 })
        &&& v.max.y@ == (Ratio { n: 3, d: 2 })
    }

    open spec fn fresh_spec(&self) -> bool {
        true
    }

    open spec fn extra_uniforms_spec(&self) -> Seq<Uniform> {
        Seq::empty()
    }

    /// The Mandelbrot set has no animation state: a tick changes nothing.
    open spec fn updated(&self, dt: Rat, next: Self, ok: bool) -> bool {
        next == *self && ok
    }

    proof fn lemma_default_vp_unique(v1: Viewport, v2: Viewport) {
        lemma_view_injective(v1.min.x, v2.min.x);
        lemma_view_injective(v1.min.y, v2.min.y);
        lemma_view_injective(v1.max.x, v2.max.x);
        lemma_view_injective(v1.max.y, v2.max.y);
    }

    fn new(shader: Shader) -> (s: Self) {
        Mandelbrot { data: FractalData::new(shader, Self::default_viewport()) }
    }

    fn data(&self) -> (d: &FractalData) {
        &self.data
    }

    fn data_mut(&mut self) -> (d: &mut FractalData) {
        &mut self.data
    }

    fn default_viewport() -> (vp: Viewport) {
        Viewport::new(
            Point2::new(Rat::from_int(-2), Rat::new(-3, 2)),
            Point2::new(Rat::from_int(1), Rat::new(3, 2)),
        )
    }

    fn update(&mut self, dt: Rat) -> (ok: bool) {
        true
    }

    fn extra_uniforms(&self) -> (u: Vec<Uniform>) {
        let u: Vec<Uniform> = Vec::new();
        proof {
            assert(u@ =~= self.extra_uniforms_spec());
        }
        u
    }

    fn reset_viewport(&mut self) {
        self.data.viewport.reset(
            Point2::new(Rat::from_int(-2), Rat::new(-3, 2)),
            Point2::new(Rat::from_int(1), Rat::new(3, 2)),
        );
    }

    fn handle_zoom(&mut self, screen_dimensions: Point2, wheel: i32, mouse: Point2) -> (ok:
        bool) {
        self.data.handle_zoom(screen_dimensions, wheel, mouse)
    }

    fn handle_panning(
        &mut self,
        screen_dimensions: Point2,
        prev_mouse_position: &mut Option<Point2>,
        space_down: bool,
        mouse_down: bool,
        mouse: Point2,
    ) -> (ok: bool) {
        self.data.handle_panning(
            screen_dimensions,
            prev_mouse_position,
            space_down,
            mouse_down,
            mouse,
        )
    }

    fn uniforms(&self, screen_dimensions: Point2) -> (u: Vec<Uniform>) {
        let mut u = base_uniforms(&self.data, screen_dimensions);
        let mut e = self.extra_uniforms();
        u.append(&mut e);
        proof {
            assert(u@ =~= base_uniforms_spec(self.data_spec(), screen_dimensions)
                + self.extra_uniforms_spec());
        }
        u
    }
}

} // verus!
