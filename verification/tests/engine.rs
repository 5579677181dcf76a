use fractalviz::fractals::fractal::{
    base_uniforms, Fractal, FractalData, FractalType, Shader, Uniform, UniformName, UniformValue,
};
use fractalviz::fractals::julia::Julia;
use fractalviz::fractals::mandelbrot::Mandelbrot;
use fractalviz::rational::Rat;
use fractalviz::viewport::{Point2, Viewport};

fn shader() -> Shader {
    Shader { vertex: String::from("shaders/test.vert"), fragment: String::from("shaders/test.frag") }
}

fn point(nx: i64, dx: i64, ny: i64, dy: i64) -> Point2 {
    Point2::new(Rat::new(nx, dx), Rat::new(ny, dy))
}

fn mandelbrot_vp() -> Viewport {
    Viewport::new(point(-2, 1, -3, 2), point(1, 1, 3, 2))
}

fn assert_vp_eq(v: &Viewport, minx: Rat, miny: Rat, maxx: Rat, maxy: Rat) {
    assert!(v.min.x.eq_val(minx));
    assert!(v.min.y.eq_val(miny));
    assert!(v.max.x.eq_val(maxx));
    assert!(v.max.y.eq_val(maxy));
}

#[test]
fn rat_arithmetic_is_exact_and_reduced() {
    let half = Rat::new(1, 2);
    let third = Rat::new(1, 3);
    let sum = half.add(third).unwrap();
    assert!(sum.eq_val(Rat::new(5, 6)));
    let diff = half.sub(third).unwrap();
    assert!(diff.eq_val(Rat::new(1, 6)));
    let prod = half.mul(third).unwrap();
    assert!(prod.eq_val(Rat::new(1, 6)));
    // Division normalizes: 400/800 comes back as the pair 1/2 itself.
    let q = Rat::from_int(400).div(Rat::from_int(800)).unwrap();
    assert_eq!(q.num(), 1);
    assert_eq!(q.den(), 2);
    assert!(Rat::new(-4, 6).neg().eq_val(Rat::new(2, 3)));
    assert!(Rat::new(1, 3).lt(Rat::new(1, 2)));
    assert!(Rat::new(1, 2).le(Rat::new(1, 2)));
    assert!(!Rat::new(1, 2).lt(Rat::new(1, 2)));
}

#[test]
fn zoom_keeps_cursor_point_fixed_and_scales_width() {
    // An off-center cursor and a zoom-out factor.
    let mut v = mandelbrot_vp();
    let p = point(1, 4, 2, 3);
    let f = Rat::new(3, 2);
    // The fractal-space point under the cursor before the zoom.
    let before_x = v.min.x.add(p.x.mul(v.max.x.sub(v.min.x).unwrap()).unwrap()).unwrap();
    let before_y = v.min.y.add(p.y.mul(v.max.y.sub(v.min.y).unwrap()).unwrap()).unwrap();
    let old_w = v.max.x.sub(v.min.x).unwrap();
    let old_h = v.max.y.sub(v.min.y).unwrap();
    assert!(v.zoom_about(p, f));
    let after_x = v.min.x.add(p.x.mul(v.max.x.sub(v.min.x).unwrap()).unwrap()).unwrap();
    let after_y = v.min.y.add(p.y.mul(v.max.y.sub(v.min.y).unwrap()).unwrap()).unwrap();
    assert!(before_x.eq_val(after_x));
    assert!(before_y.eq_val(after_y));
    let new_w = v.max.x.sub(v.min.x).unwrap();
    let new_h = v.max.y.sub(v.min.y).unwrap();
    assert!(new_w.eq_val(old_w.mul(f).unwrap()));
    assert!(new_h.eq_val(old_h.mul(f).unwrap()));
}

#[test]
fn pan_and_inverse_pan_cancel() {
    let mut v = mandelbrot_vp();
    let screen = point(800, 1, 600, 1);
    let d = point(30, 1, -40, 1);
    let nd = point(-30, 1, 40, 1);
    assert!(v.pan_by(d, screen));
    assert!(v.pan_by(nd, screen));
    assert_vp_eq(&v, Rat::from_int(-2), Rat::new(-3, 2), Rat::from_int(1), Rat::new(3, 2));
}

#[test]
fn zoom_failure_leaves_viewport_unchanged() {
    // A factor with a huge prime-free denominator: the reduced bounds
    // cannot fit, the zoom reports failure and nothing moves.
    let mut v = Viewport::new(point(0, 1, 0, 1), point(1, 1, 1, 1));
    let before = v;
    let p = point(1, 3, 1, 3);
    let f = Rat::new(1048575, 1048576);
    assert!(!v.zoom_about(p, f));
    assert_eq!(v, before);
}

#[test]
fn mandelbrot_center_zoom_scenario() {
    // Default Mandelbrot viewport, 800x600 screen, one scroll-forward at
    // the exact center: the rectangle shrinks by 9/10 about its center.
    let mut m = <Mandelbrot as Fractal>::new(shader());
    let screen = point(800, 1, 600, 1);
    let mouse = point(400, 1, 300, 1);
    assert!(m.handle_zoom(screen, 1, mouse));
    assert_vp_eq(
        &m.data.viewport,
        Rat::new(-37, 20),
        Rat::new(-27, 20),
        Rat::new(17, 20),
        Rat::new(27, 20),
    );
}

#[test]
fn zero_scroll_delta_is_a_no_op() {
    let mut m = <Mandelbrot as Fractal>::new(shader());
    let before = m.data.viewport;
    let screen = point(800, 1, 600, 1);
    assert!(m.handle_zoom(screen, 0, point(1, 1, 1, 1)));
    assert_eq!(m.data.viewport, before);
}

#[test]
fn pan_gesture_activation_edge_does_not_move() {
    let mut m = <Mandelbrot as Fractal>::new(shader());
    let before = m.data.viewport;
    let screen = point(800, 1, 600, 1);
    let mut prev: Option<Point2> = None;
    // Activation edge: position recorded, viewport untouched.
    assert!(m.handle_panning(screen, &mut prev, true, true, point(100, 1, 100, 1)));
    assert_eq!(prev, Some(point(100, 1, 100, 1)));
    assert_eq!(m.data.viewport, before);
    // A later frame while held applies the delta.
    assert!(m.handle_panning(screen, &mut prev, true, true, point(140, 1, 130, 1)));
    assert_eq!(prev, Some(point(140, 1, 130, 1)));
    assert_ne!(m.data.viewport, before);
}

#[test]
fn releasing_pan_discards_stale_position() {
    let mut m = <Mandelbrot as Fractal>::new(shader());
    let screen = point(800, 1, 600, 1);
    let mut prev: Option<Point2> = None;
    assert!(m.handle_panning(screen, &mut prev, true, true, point(100, 1, 100, 1)));
    // Release: the saved position is cleared unconditionally.
    assert!(m.handle_panning(screen, &mut prev, false, true, point(700, 1, 500, 1)));
    assert_eq!(prev, None);
    let before = m.data.viewport;
    // Re-press far away: no delta from the stale pre-release position.
    assert!(m.handle_panning(screen, &mut prev, true, true, point(700, 1, 500, 1)));
    assert_eq!(m.data.viewport, before);
    assert_eq!(prev, Some(point(700, 1, 500, 1)));
}

#[test]
fn julia_full_revolution_returns_angle_to_zero() {
    let mut j = <Julia as Fractal>::new(shader());
    assert!(j.a.eq_val(Rat::from_int(0)));
    assert!(!j.animating);
    // Angular speed is a quarter in units of pi radians: pi/4 rad/s.
    assert!(j.animation_speed.eq_val(Rat::new(1, 4)));
    j.toggle_animation();
    assert!(j.animating);
    // Two seconds advance the angle to 1/2 (i.e. pi/2 radians).
    assert!(j.update(Rat::from_int(2)));
    assert!(j.a.eq_val(Rat::new(1, 2)));
    // Six more seconds complete one full revolution: exactly zero again.
    assert!(j.update(Rat::from_int(6)));
    assert!(j.a.eq_val(Rat::from_int(0)));
}

#[test]
fn julia_update_without_animation_holds_angle() {
    let mut j = <Julia as Fractal>::new(shader());
    j.set_angle(Rat::new(1, 3));
    assert!(j.update(Rat::from_int(8)));
    assert!(j.a.eq_val(Rat::new(1, 3)));
}

#[test]
fn julia_reset_restores_julia_default_not_mandelbrot() {
    let mut j = <Julia as Fractal>::new(shader());
    let screen = point(800, 1, 600, 1);
    assert!(j.handle_zoom(screen, 1, point(250, 1, 410, 1)));
    let mut prev = Some(point(100, 1, 100, 1));
    assert!(j.handle_panning(screen, &mut prev, true, true, point(160, 1, 120, 1)));
    j.reset_viewport();
    assert_eq!(j.data.viewport, <Julia as Fractal>::default_viewport());
    assert_vp_eq(
        &j.data.viewport,
        Rat::new(-3, 2),
        Rat::new(-3, 2),
        Rat::new(3, 2),
        Rat::new(3, 2),
    );
}

#[test]
fn reset_viewport_is_idempotent() {
    let mut m = <Mandelbrot as Fractal>::new(shader());
    let screen = point(800, 1, 600, 1);
    assert!(m.handle_zoom(screen, -1, point(123, 1, 456, 1)));
    m.reset_viewport();
    let once = m.data.viewport;
    m.reset_viewport();
    assert_eq!(m.data.viewport, once);
    assert_eq!(once, <Mandelbrot as Fractal>::default_viewport());
}

#[test]
fn fresh_fractal_data_has_default_parameters() {
    let d = FractalData::new(shader(), mandelbrot_vp());
    assert!(d.escape_radius.eq_val(Rat::from_int(4)));
    assert_eq!(d.max_iterations, 1000);
    assert_eq!(d.shader.vertex, "shaders/test.vert");
    assert_eq!(d.viewport, mandelbrot_vp());
}

#[test]
fn uniform_lists_match_the_shader_interface() {
    let m = <Mandelbrot as Fractal>::new(shader());
    let mu = m.uniforms(point(800, 1, 600, 1));
    assert_eq!(mu.len(), 5);
    assert_eq!(mu[0].name.as_str(), "u_viewport_min");
    assert_eq!(mu[1].name.as_str(), "u_viewport_max");
    assert_eq!(mu[2].name.as_str(), "u_screen_dimensions");
    assert_eq!(mu[3].name.as_str(), "u_max_iterations");
    assert_eq!(mu[4].name.as_str(), "u_escape_radius");
    assert_eq!(mu[3].value, UniformValue::I1(1000));
    assert_eq!(mu[0].value, UniformValue::F2(m.data.viewport.min.x, m.data.viewport.min.y));

    let mut j = <Julia as Fractal>::new(shader());
    j.set_angle(Rat::new(5, 4));
    let ju = j.uniforms(point(800, 1, 600, 1));
    assert_eq!(ju.len(), 6);
    assert_eq!(ju[5].name, UniformName::JuliaA);
    assert_eq!(ju[5].name.as_str(), "u_julia_a");
    assert_eq!(ju[5].value, UniformValue::F1(Rat::new(5, 4)));
}

#[test]
fn base_uniforms_follow_the_viewport() {
    let d = FractalData::new(shader(), mandelbrot_vp());
    let u: Vec<Uniform> = base_uniforms(&d, point(1024, 1, 768, 1));
    assert_eq!(u.len(), 5);
    assert_eq!(u[2].value, UniformValue::F2(Rat::from_int(1024), Rat::from_int(768)));
}

#[test]
fn fractal_type_distinguishes_variants() {
    assert_eq!(FractalType::Julia, FractalType::Julia);
    assert_ne!(FractalType::Julia, FractalType::Mandelbrot);
}
