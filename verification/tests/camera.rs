use infinite_canvas::camera::{Camera, ViewMatrix, ZOOM_MAX, ZOOM_MIN};
use infinite_canvas::fx::{Fx2, FX_ONE};
use infinite_canvas::angle::TAU_URAD;

#[test]
fn zoom_clamps_at_upper_bound() {
    let mut c = Camera::default();
    c.zoom_at(1_000_000_000, Fx2::new(0, 0));
    assert_eq!(c.zoom, ZOOM_MAX);
    // Further zooming in stays clamped.
    c.zoom_at(20_000, Fx2::new(0, 0));
    assert_eq!(c.zoom, ZOOM_MAX);
}

#[test]
fn zoom_clamps_at_lower_bound() {
    let mut c = Camera::default();
    c.zoom_at(0, Fx2::new(0, 0));
    assert_eq!(c.zoom, ZOOM_MIN);
    c.zoom_at(-50_000, Fx2::new(0, 0));
    assert_eq!(c.zoom, ZOOM_MIN);
}

#[test]
fn zoom_sequence_stays_in_bounds() {
    let mut c = Camera::default();
    let factors = [35_000i64, -7, 99_000_000, 1, 0, 12_345, 1_000_000_000_000];
    for &f in factors.iter() {
        c.zoom_at(f, Fx2::new(30_000, -20_000));
        assert!(ZOOM_MIN <= c.zoom && c.zoom <= ZOOM_MAX);
    }
}

#[test]
fn rotation_normalized_for_negative_angles() {
    let mut c = Camera::default();
    c.rotate(-1_000_000);
    assert_eq!(c.rotation, TAU_URAD - 1_000_000);
    assert!(0 <= c.rotation && c.rotation < TAU_URAD);
}

#[test]
fn rotation_normalized_for_large_angles() {
    let mut c = Camera::default();
    c.rotate(7_000_000);
    assert_eq!(c.rotation, 7_000_000 - TAU_URAD);
    c.rotate(6 * TAU_URAD);
    assert_eq!(c.rotation, 7_000_000 - TAU_URAD);
    c.rotate(i64::MAX);
    assert!(0 <= c.rotation && c.rotation < TAU_URAD);
}

#[test]
fn pan_moves_against_drag_scaled_by_zoom() {
    let mut c = Camera::default();
    c.pan(Fx2::new(10 * FX_ONE, 0));
    assert_eq!(c.position, Fx2::new(-10 * FX_ONE, 0));
}

#[test]
fn pan_then_inverse_pan_restores_position() {
    // Pan by (10, 0), then by (-10, 0): the position is restored exactly.
    let mut c = Camera::default();
    c.pan(Fx2::new(10 * FX_ONE, 0));
    c.pan(Fx2::new(-10 * FX_ONE, 0));
    assert_eq!(c.position, Fx2::new(0, 0));

    // The same with a zoom whose reciprocal does not divide evenly.
    let mut c2 = Camera::new(Fx2::new(123_456, -789), 3_000, 0);
    let before = c2.position;
    c2.pan(Fx2::new(100_000, 50_001));
    c2.pan(Fx2::new(-100_000, -50_001));
    assert_eq!(c2.position, before);
}

#[test]
fn screen_world_roundtrip_identity_camera() {
    let c = Camera::default();
    let s = Fx2::new(800 * FX_ONE, 600 * FX_ONE);
    // Whole-pixel screen points whose flipped device coordinates are
    // exactly representable for this viewport (600 units high: the y pixel
    // is a multiple of 3).
    for &(px, py) in [(123i64, 456i64), (0, 0), (800, 600), (400, 300), (1, 597)].iter() {
        let p = Fx2::new(px * FX_ONE, py * FX_ONE);
        let w = c.screen_to_world(p, s);
        let back = c.world_to_screen(w, s);
        assert_eq!(back, p);
    }
}

#[test]
fn screen_center_maps_to_camera_position() {
    let c = Camera::new(Fx2::new(100 * FX_ONE, 100 * FX_ONE), FX_ONE, 0);
    let s = Fx2::new(800 * FX_ONE, 600 * FX_ONE);
    let w = c.screen_to_world(Fx2::new(400 * FX_ONE, 300 * FX_ONE), s);
    assert_eq!(w, Fx2::new(100 * FX_ONE, 100 * FX_ONE));
}

#[test]
fn zoom_keeps_target_screen_point_fixed() {
    let mut c = Camera::default();
    let s = Fx2::new(800 * FX_ONE, 600 * FX_ONE);
    let target = Fx2::new(2 * FX_ONE, 4 * FX_ONE);
    let before = c.world_to_screen(target, s);
    c.zoom_at(2 * FX_ONE, target);
    assert_eq!(c.zoom, 2 * FX_ONE);
    let after = c.world_to_screen(target, s);
    assert_eq!(after, before);
}

#[test]
fn zoom_pivot_holds_with_achieved_zoom_when_clamped() {
    let mut c = Camera::default();
    let s = Fx2::new(800 * FX_ONE, 600 * FX_ONE);
    let target = Fx2::new(100_000, 200_000);
    let before = c.world_to_screen(target, s);
    // Requests zoom 1000.0; the camera clamps at 10.0.
    c.zoom_at(10_000_000, target);
    assert_eq!(c.zoom, ZOOM_MAX);
    let after = c.world_to_screen(target, s);
    assert_eq!(after, before);
}

#[test]
fn view_matrix_of_identity_camera() {
    let c = Camera::default();
    let m = c.view_matrix();
    assert_eq!(
        m,
        ViewMatrix { m00: FX_ONE, m01: 0, m10: 0, m11: FX_ONE, tx: 0, ty: 0 }
    );
}

#[test]
fn view_matrix_translates_before_scaling() {
    // At zoom 2 and no rotation the translation column is -2 * position:
    // the position is translated away first, then scaled.
    let c = Camera::new(Fx2::new(3 * FX_ONE, -5 * FX_ONE), 2 * FX_ONE, 0);
    let m = c.view_matrix();
    assert_eq!(m.m00, 2 * FX_ONE);
    assert_eq!(m.m11, 2 * FX_ONE);
    assert_eq!(m.tx, -6 * FX_ONE);
    assert_eq!(m.ty, 10 * FX_ONE);
}

#[test]
fn camera_new_normalizes_raw_values() {
    let c = Camera::new(Fx2::new(0, 0), 50_000_000, -1_000_000);
    assert_eq!(c.zoom, ZOOM_MAX);
    assert_eq!(c.rotation, TAU_URAD - 1_000_000);
}
