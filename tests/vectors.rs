use foxtrot::vector::{Vec2, Vec2Ext, Vec3, Vec3Ext};

fn v3(x: f32, y: f32, z: f32) -> Vec3 {
    Vec3::new(x.to_bits(), y.to_bits(), z.to_bits())
}

fn floats(v: Vec3) -> (f32, f32, f32) {
    (f32::from_bits(v.x), f32::from_bits(v.y), f32::from_bits(v.z))
}

#[test]
fn approx_zero_uses_the_threshold_on_every_component() {
    assert!(v3(0.0, -0.0, 9e-6).is_approx_zero());
    assert!(v3(-9.9e-6, 1e-7, 0.0).is_approx_zero());
    assert!(!v3(0.0, 1e-5, 0.0).is_approx_zero());
    assert!(!v3(0.0, 0.0, -2e-5).is_approx_zero());
    assert!(!v3(f32::NAN, 0.0, 0.0).is_approx_zero());
    assert!(!v3(f32::INFINITY, 0.0, 0.0).is_approx_zero());
    assert!(Vec2::new(1e-6f32.to_bits(), (-1e-6f32).to_bits()).is_approx_zero());
    assert!(!Vec2::new(0.5f32.to_bits(), 0.0f32.to_bits()).is_approx_zero());
}

#[test]
fn collapse_snaps_only_small_components() {
    let c = v3(3e-6, -1.5, -4e-6).collapse_approx_zero();
    assert_eq!(floats(c), (0.0, -1.5, 0.0));
    assert_eq!(c.z, 0.0f32.to_bits());
    let unchanged = v3(1e-5, 2.0, -3.0).collapse_approx_zero();
    assert_eq!(floats(unchanged), (1e-5, 2.0, -3.0));
}

#[test]
fn collapse_is_idempotent() {
    for v in [v3(3e-6, -1.5, -4e-6), v3(0.0, 0.0, 0.0), v3(1e-5, -1e-5, 7.0), v3(-0.0, 1e-9, 1e9)] {
        let once = v.collapse_approx_zero();
        assert_eq!(once.collapse_approx_zero(), once);
    }
}

#[test]
fn plane_projections_zero_the_y_axis() {
    assert_eq!(floats(v3(1.0, 2.0, 3.0).x0z()), (1.0, 0.0, 3.0));
    let lifted = Vec2::new(4.0f32.to_bits(), (-5.0f32).to_bits()).x0y();
    assert_eq!(floats(lifted), (4.0, 0.0, -5.0));
}
