//! The capability set shared by all fractal variants, and the per-frame
//! interaction logic that mutates a variant's [`FractalData`].
//!
//! The [`Fractal`] trait is the closed interface a variant implements:
//! construction with its own default viewport, the per-frame `update`,
//! the variant-specific shader inputs, and access to the shared
//! [`FractalData`].  The shared gesture handlers live on `FractalData`
//! itself and are specified by [`zoom_step`] and [`pan_step`]: scroll
//! zooms about the cursor with a fixed factor pair, and a space+button
//! drag pans by the pointer delta, with the previous pointer position as
//! the only cross-frame state.

use crate::rational::{norm_fits, r_div, r_int, r_le, r_sub, reduced, Rat, Ratio};
use crate::viewport::{
    axis_pan_fits, axis_panned, axis_zoom_fits, axis_zoomed, Point2, Viewport,
};
use vstd::prelude::*;

verus! {

/// The two fractal variants this engine renders.
#[derive(Clone, Copy, PartialEq, Eq, Structural, Debug)]
pub enum FractalType {
    Mandelbrot,
    Julia,
}

/// The pair of shader source paths a variant is built from.
#[derive(Clone, Debug)]
pub struct Shader {
    pub vertex: String,
    pub fragment: String,
}

/// The shader input names the engine binds, exactly as the fragment
/// shaders expect them.
#[derive(Clone, Copy, PartialEq, Eq, Structural, Debug)]
pub enum UniformName {
    ViewportMin,
    ViewportMax,
    ScreenDimensions,
    MaxIterations,
    EscapeRadius,
    JuliaA,
}

impl UniformName {
    /// The exact spelling of each shader input name.
    pub open spec fn spec_str(self) -> Seq<char> {
        match self {
            UniformName::ViewportMin => "u_viewport_min"@,
            UniformName::ViewportMax => "u_viewport_max"@,
            UniformName::ScreenDimensions => "u_screen_dimensions"@,
            UniformName::MaxIterations => "u_max_iterations"@,
            UniformName::EscapeRadius => "u_escape_radius"@,
            UniformName::JuliaA => "u_julia_a"@,
        }
    }

    /// The name as the string handed to the shader service.
    pub fn as_str(&self) -> (r: &'static str)
        ensures
            r@ == self.spec_str(),
    {
        match self {
            UniformName::ViewportMin => "u_viewport_min",
            UniformName::ViewportMax => "u_viewport_max",
            UniformName::ScreenDimensions => "u_screen_dimensions",
            UniformName::MaxIterations => "u_max_iterations",
            UniformName::EscapeRadius => "u_escape_radius",
            UniformName::JuliaA => "u_julia_a",
        }
    }
}

/// A value pushed into the shader service.
#[derive(Clone, Copy, PartialEq, Eq, Structural, Debug)]
pub enum UniformValue {
    /// A two-component float vector.
    F2(Rat, Rat),
    /// A scalar float.
    F1(Rat),
    /// A scalar integer.
    I1(i32),
}

/// One named shader input for the current frame.
#[derive(Clone, Copy, PartialEq, Eq, Structural, Debug)]
pub struct Uniform {
    pub name: UniformName,
    pub value: UniformValue,
}

/// The state every fractal variant owns: its shader sources, the visible
/// rectangle, and the user-tunable render parameters.
#[derive(Clone, Debug)]
pub struct FractalData {
    pub shader: Shader,
    pub viewport: Viewport,
    pub escape_radius: Rat,
    pub max_iterations: i32,
}

/// The zoom factor a scroll step maps to: scroll forward shrinks the
/// rectangle by `9/10`, scroll back grows it by `11/10`.
pub open spec fn zoom_factor(wheel: int) -> Ratio {
    if wheel > 0 {
        Ratio { n: 9, d: 10 }
    } else {
        Ratio { n: 11, d: 10 }
    }
}

/// What one zoom gesture does to the shared state: a zero scroll delta is
/// a no-op; otherwise the viewport is zoomed about the cursor position
/// normalized by the screen size, with the factor of [`zoom_factor`],
/// exactly when all reduced results fit, and is untouched otherwise.  The
/// shader and render parameters never change.
pub open spec fn zoom_step(
    d0: FractalData,
    screen: Point2,
    wheel: int,
    mouse: Point2,
    d1: FractalData,
    ok: bool,
) -> bool {
    let qx = r_div(mouse.x@, screen.x@);
    let qy = r_div(mouse.y@, screen.y@);
    let px = reduced(qx.n, qx.d);
    let py = reduced(qy.n, qy.d);
    let f = zoom_factor(wheel);
    let v0 = d0.viewport;
    let v1 = d1.viewport;
    &&& d1.shader == d0.shader
    &&& d1.escape_radius == d0.escape_radius
    &&& d1.max_iterations == d0.max_iterations
    &&& (wheel == 0 ==> d1 == d0 && ok)
    &&& (wheel != 0 ==> {
        &&& ok == {
            &&& norm_fits(qx.n, qx.d)
            &&& norm_fits(qy.n, qy.d)
            &&& axis_zoom_fits(v0.min.x@, v0.max.x@, px, f)
            &&& axis_zoom_fits(v0.min.y@, v0.max.y@, py, f)
        }
        &&& (ok ==> {
            &&& axis_zoomed(v0.min.x@, v0.max.x@, px, f, v1.min.x@, v1.max.x@)
            &&& axis_zoomed(v0.min.y@, v0.max.y@, py, f, v1.min.y@, v1.max.y@)
        })
        &&& (!ok ==> d1 == d0)
    })
}

/// What one pan gesture does to the shared state and to the saved pointer
/// position.  While space and the button are both held: on the activation
/// edge the position is recorded and nothing moves; on later frames the
/// viewport is panned by the pointer delta, exactly when all reduced
/// results fit, and the position is updated.  As soon as either key is
/// released the saved position is cleared, so no stale delta can ever be
/// applied on re-activation.  The shader and render parameters never
/// change.
pub open spec fn pan_step(
    d0: FractalData,
    screen: Point2,
    prev0: Option<Point2>,
    space_down: bool,
    mouse_down: bool,
    mouse: Point2,
    d1: FractalData,
    prev1: Option<Point2>,
    ok: bool,
) -> bool {
    let v0 = d0.viewport;
    let v1 = d1.viewport;
    &&& d1.shader == d0.shader
    &&& d1.escape_radius == d0.escape_radius
    &&& d1.max_iterations == d0.max_iterations
    &&& (!(space_down && mouse_down) ==> prev1 == None::<Point2> && d1 == d0 && ok)
    &&& (space_down && mouse_down ==> {
        &&& prev1 == Some(mouse)
        &&& match prev0 {
            None => d1 == d0 && ok,
            Some(pv) => {
                let sx = r_sub(mouse.x@, pv.x@);
                let sy = r_sub(mouse.y@, pv.y@);
                let dx = reduced(sx.n, sx.d);
                let dy = reduced(sy.n, sy.d);
                &&& ok == {
                    &&& norm_fits(sx.n, sx.d)
                    &&& norm_fits(sy.n, sy.d)
                    &&& axis_pan_fits(v0.min.x@, v0.max.x@, dx, screen.x@)
                    &&& axis_pan_fits(v0.min.y@, v0.max.y@, dy, screen.y@)
                }
                &&& (ok ==> {
                    &&& axis_panned(v0.min.x@, v0.max.x@, dx, screen.x@, v1.min.x@, v1.max.x@)
                    &&& axis_panned(v0.min.y@, v0.max.y@, dy, screen.y@, v1.min.y@, v1.max.y@)
                })
                &&& (!ok ==> d1 == d0)
            },
        }
    })
}

impl FractalData {
    /// Well-formed shared state: a proper rectangle, a nonnegative escape
    /// radius, a nonnegative iteration cap.
    pub open spec fn wf(self) -> bool {
        &&& self.viewport.wf()
        &&& self.escape_radius.wf()
        &&& r_le(r_int(0), self.escape_radius@)
        &&& self.max_iterations >= 0
    }

    /// Fresh shared state for a variant: its default viewport, an escape
    /// radius of `4` and an iteration cap of `1000`.
    pub fn new(shader: Shader, viewport: Viewport) -> (s: FractalData)
        requires
            viewport.wf(),
        ensures
            s.shader == shader,
            s.viewport == viewport,
            s.escape_radius@ == r_int(4),
            s.max_iterations == 1000,
            s.wf(),
    {
        FractalData {
            shader,
            viewport,
            escape_radius: Rat::from_int(4),
            max_iterations: 1000,
        }
    }

    /// One frame of the zoom gesture, as [`zoom_step`] specifies it:
    /// reads the scroll delta and, if it is nonzero, zooms about the
    /// cursor position normalized by the screen size.
    pub fn handle_zoom(&mut self, screen_dimensions: Point2, wheel: i32, mouse: Point2) -> (ok:
        bool)
        requires
            old(self).wf(),
            screen_dimensions.wf(),
            screen_dimensions.x@.n > 0,
            screen_dimensions.y@.n > 0,
            mouse.wf(),
        ensures
            final(self).wf(),
            zoom_step(*old(self), screen_dimensions, wheel as int, mouse, *final(self), ok),
    {
        if wheel == 0 {
            return true;
        }
        let factor = if wheel > 0 {
            Rat::new(9, 10)
        } else {
            Rat::new(11, 10)
        };
        let px = mouse.x.div(screen_dimensions.x);
        let py = mouse.y.div(screen_dimensions.y);
        match (px, py) {
            (Some(nx), Some(ny)) => self.viewport.zoom_about(Point2::new(nx, ny), factor),
            _ => false,
        }
    }

    /// One frame of the pan gesture, as [`pan_step`] specifies it: while
    /// space and the primary button are held, pans by the pointer delta
    /// since the previous frame; releasing either clears the saved
    /// position.
    pub fn handle_panning(
        &mut self,
        screen_dimensions: Point2,
        prev_mouse_position: &mut Option<Point2>,
        space_down: bool,
        mouse_down: bool,
        mouse: Point2,
    ) -> (ok: bool)
        requires
            old(self).wf(),
            screen_dimensions.wf(),
            screen_dimensions.x@.n > 0,
            screen_dimensions.y@.n > 0,
            mouse.wf(),
            (*old(prev_mouse_position)) matches Some(q) ==> q.wf(),
        ensures
            final(self).wf(),
            (*final(prev_mouse_position)) matches Some(q) ==> q.wf(),
            pan_step(
                *old(self),
                screen_dimensions,
                *old(prev_mouse_position),
                space_down,
                mouse_down,
                mouse,
                *final(self),
                *final(prev_mouse_position),
                ok,
            ),
    {
        if space_down && mouse_down {
            let prev = *prev_mouse_position;
            *prev_mouse_position = Some(mouse);
            match prev {
                Some(pv) => {
                    let dx = mouse.x.sub(pv.x);
                    let dy = mouse.y.sub(pv.y);
                    match (dx, dy) {
                        (Some(nx), Some(ny)) => self.viewport.pan_by(
                            Point2::new(nx, ny),
                            screen_dimensions,
                        ),
                        _ => false,
                    }
                },
                None => true,
            }
        } else {
            *prev_mouse_position = None;
            true
        }
    }
}

/// The shader inputs every variant pushes each frame, in binding order:
/// viewport bounds, screen size, iteration cap, escape radius.
pub open spec fn base_uniforms_spec(d: FractalData, screen: Point2) -> Seq<Uniform> {
    seq![
        Uniform {
            name: UniformName::ViewportMin,
            value: UniformValue::F2(d.viewport.min.x, d.viewport.min.y),
        },
        Uniform {
            name: UniformName::ViewportMax,
            value: UniformValue::F2(d.viewport.max.x, d.viewport.max.y),
        },
        Uniform { name: UniformName::ScreenDimensions, value: UniformValue::F2(screen.x, screen.y) },
        Uniform { name: UniformName::MaxIterations, value: UniformValue::I1(d.max_iterations) },
        Uniform { name: UniformName::EscapeRadius, value: UniformValue::F1(d.escape_radius) },
    ]
}

/// Builds the frame's shared shader inputs, exactly [`base_uniforms_spec`].
pub fn base_uniforms(d: &FractalData, screen: Point2) -> (u: Vec<Uniform>)
    ensures
        u@ == base_uniforms_spec(*d, screen),
{
    let mut u: Vec<Uniform> = Vec::new();
    u.push(Uniform {
        name: UniformName::ViewportMin,
        value: UniformValue::F2(d.viewport.min.x, d.viewport.min.y),
    });
    u.push(Uniform {
        name: UniformName::ViewportMax,
        value: UniformValue::F2(d.viewport.max.x, d.viewport.max.y),
    });
    u.push(Uniform {
        name: UniformName::ScreenDimensions,
        value: UniformValue::F2(screen.x, screen.y),
    });
    u.push(Uniform { name: UniformName::MaxIterations, value: UniformValue::I1(d.max_iterations) });
    u.push(Uniform { name: UniformName::EscapeRadius, value: UniformValue::F1(d.escape_radius) });
    proof {
        assert(u@ =~= base_uniforms_spec(*d, screen));
    }
    u
}

/// The capability set a fractal variant implements.  The engine mutates a
/// variant only through this interface and through the shared handlers on
/// [`FractalData`].
pub trait Fractal: Sized {
    /// The variant's whole state is well-formed.
    spec fn wf(&self) -> bool;

    /// The shared state the variant owns.
    spec fn data_spec(&self) -> FractalData;

    /// The variant with its shared state replaced and everything else
    /// kept; how methods express that they touched nothing but the data.
    spec fn with_data(&self, d: FractalData) -> Self;

    /// `v` is this variant's default viewport.
    spec fn is_default_vp(v: Viewport) -> bool;

    /// The variant-specific state is freshly initialized.
    spec fn fresh_spec(&self) -> bool;

    /// The variant-specific shader inputs of the current frame.
    spec fn extra_uniforms_spec(&self) -> Seq<Uniform>;

    /// What one `update` tick does to the variant-specific state.
    spec fn updated(&self, dt: Rat, next: Self, ok: bool) -> bool;

    /// A variant has exactly one default viewport.
    proof fn lemma_default_vp_unique(v1: Viewport, v2: Viewport)
        requires
            Self::is_default_vp(v1),
            Self::is_default_vp(v2),
        ensures
            v1 == v2,
    ;

    /// Builds the variant over its default viewport with the default
    /// render parameters and fresh variant state.
    fn new(shader: Shader) -> (s: Self)
        ensures
            s.wf(),
            s.data_spec().shader == shader,
            Self::is_default_vp(s.data_spec().viewport),
            s.data_spec().escape_radius@ == r_int(4),
            s.data_spec().max_iterations == 1000,
            s.fresh_spec(),
    ;

    /// Read access to the shared state.
    fn data(&self) -> (d: &FractalData)
        ensures
            *d == self.data_spec(),
    ;

    /// Write access to the shared state; nothing else is touched.
    fn data_mut(&mut self) -> (d: &mut FractalData)
        ensures
            *d == old(self).data_spec(),
            *final(self) == old(self).with_data(*final(d)),
    ;

    /// This variant's default viewport.
    fn default_viewport() -> (vp: Viewport)
        ensures
            vp.wf(),
            Self::is_default_vp(vp),
    ;

    /// Advances the variant's animation state by `dt` seconds; the shared
    /// state is never touched.
    fn update(&mut self, dt: Rat) -> (ok: bool)
        requires
            old(self).wf(),
            dt.wf(),
        ensures
            final(self).wf(),
            final(self).data_spec() == old(self).data_spec(),
            old(self).updated(dt, *final(self), ok),
    ;

    /// The variant-specific shader inputs of the current frame.
    fn extra_uniforms(&self) -> (u: Vec<Uniform>)
        requires
            self.wf(),
        ensures
            u@ == self.extra_uniforms_spec(),
    ;

    /// Restores the variant's own default viewport; shader, render
    /// parameters and variant state are kept.
    fn reset_viewport(&mut self)
        requires
            old(self).wf(),
        ensures
            final(self).wf(),
            *final(self) == old(self).with_data(final(self).data_spec()),
            Self::is_default_vp(final(self).data_spec().viewport),
            final(self).data_spec().shader == old(self).data_spec().shader,
            final(self).data_spec().escape_radius == old(self).data_spec().escape_radius,
            final(self).data_spec().max_iterations == old(self).data_spec().max_iterations,
    ;

    /// One frame of the zoom gesture against this variant's viewport; see
    /// [`zoom_step`].
    fn handle_zoom(&mut self, screen_dimensions: Point2, wheel: i32, mouse: Point2) -> (ok: bool)
        requires
            old(self).wf(),
            screen_dimensions.wf(),
            screen_dimensions.x@.n > 0,
            screen_dimensions.y@.n > 0,
            mouse.wf(),
        ensures
            final(self).wf(),
            *final(self) == old(self).with_data(final(self).data_spec()),
            zoom_step(
                old(self).data_spec(),
                screen_dimensions,
                wheel as int,
                mouse,
                final(self).data_spec(),
                ok,
            ),
    ;

    /// One frame of the pan gesture against this variant's viewport; see
    /// [`pan_step`].
    fn handle_panning(
        &mut self,
        screen_dimensions: Point2,
        prev_mouse_position: &mut Option<Point2>,
        space_down: bool,
        mouse_down: bool,
        mouse: Point2,
    ) -> (ok: bool)
        requires
            old(self).wf(),
            screen_dimensions.wf(),
            screen_dimensions.x@.n > 0,
            screen_dimensions.y@.n > 0,
            mouse.wf(),
            (*old(prev_mouse_position)) matches Some(q) ==> q.wf(),
        ensures
            final(self).wf(),
            *final(self) == old(self).with_data(final(self).data_spec()),
            (*final(prev_mouse_position)) matches Some(q) ==> q.wf(),
            pan_step(
                old(self).data_spec(),
                screen_dimensions,
                *old(prev_mouse_position),
                space_down,
                mouse_down,
                mouse,
                final(self).data_spec(),
                *final(prev_mouse_position),
                ok,
            ),
    ;

    /// Everything the frame's draw call needs to push into the shader
    /// service: the shared inputs of [`base_uniforms_spec`] followed by
    /// the variant's own.
    fn uniforms(&self, screen_dimensions: Point2) -> (u: Vec<Uniform>)
        requires
            self.wf(),
        ensures
            u@ == base_uniforms_spec(self.data_spec(), screen_dimensions)
                + self.extra_uniforms_spec(),
    ;
}

/// Resetting the viewport is idempotent: a variant has exactly one
/// default rectangle, so resetting twice yields the same rectangle as
/// resetting once.
pub proof fn lemma_reset_idempotent<T: Fractal>(v1: Viewport, v2: Viewport)
    requires
        T::is_default_vp(v1),
        T::is_default_vp(v2),
    ensures
        v1 == v2,
{
    T::lemma_default_vp_unique(v1, v2);
}

} // verus!
