use raytraceweekend::key::order_key;
use raytraceweekend::material::{
    faces_front, glass_bounce, glass_needs_draw, inside_unit, is_near_zero, metal_scatters, Glass,
    NEAR_ZERO,
};

fn k(x: f64) -> i64 {
    order_key(x.to_bits())
}

#[test]
fn near_zero_threshold() {
    assert_eq!(NEAR_ZERO, k(1e-8));
    assert!(is_near_zero(k(0.0), k(-5e-9), k(9.9e-9)));
    assert!(!is_near_zero(k(0.0), k(1e-8), k(0.0)));
    assert!(!is_near_zero(k(-1e-8), k(0.0), k(0.0)));
    assert!(!is_near_zero(k(0.0), k(0.0), k(0.3)));
}

#[test]
fn front_face_from_dot() {
    assert!(faces_front(k(-0.5)));
    assert!(!faces_front(k(0.5)));
    assert!(!faces_front(k(0.0)));
    assert!(!faces_front(k(-0.0)));
}

#[test]
fn metal_keeps_only_leaving_rays() {
    assert!(metal_scatters(k(0.25)));
    assert!(!metal_scatters(k(0.0)));
    assert!(!metal_scatters(k(-0.25)));
}

#[test]
fn glass_total_internal_reflection_ignores_draw() {
    // Leaving glass of index 1.5 at sin(theta) = 0.8: 1.5 * 0.8 > 1.
    let bend = k(1.5 * 0.8);
    assert!(!glass_needs_draw(bend));
    for draw in [0.0, 0.3, 0.999_999] {
        assert_eq!(glass_bounce(bend, k(0.04), k(draw)), Glass::Reflect);
    }
}

#[test]
fn glass_chooses_by_reflectance() {
    let bend = k(0.5);
    assert!(glass_needs_draw(bend));
    assert!(glass_needs_draw(k(1.0)));
    assert_eq!(glass_bounce(bend, k(0.04), k(0.01)), Glass::Reflect);
    assert_eq!(glass_bounce(bend, k(0.04), k(0.5)), Glass::Refract);
    assert_eq!(glass_bounce(bend, k(0.04), k(0.04)), Glass::Refract);
}

#[test]
fn rejection_sampling_bound() {
    assert!(inside_unit(k(0.99)));
    assert!(inside_unit(k(0.0)));
    assert!(!inside_unit(k(1.0)));
    assert!(!inside_unit(k(2.5)));
}
