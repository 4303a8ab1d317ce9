use raytraceweekend::hit::{first_in_window, nearest_hit, Hit};
use raytraceweekend::key::{order_key, INFINITY};

fn k(x: f64) -> i64 {
    order_key(x.to_bits())
}

#[test]
fn first_root_in_window_is_taken() {
    let roots = vec![k(0.5), k(1.5)];
    assert_eq!(first_in_window(&roots, k(0.001), INFINITY), Some(0));
}

#[test]
fn second_root_taken_when_first_is_behind() {
    let roots = vec![k(-0.5), k(1.5)];
    assert_eq!(first_in_window(&roots, k(0.001), INFINITY), Some(1));
}

#[test]
fn no_root_in_window() {
    let roots = vec![k(-2.0), k(-1.0)];
    assert_eq!(first_in_window(&roots, k(0.001), INFINITY), None);
    let empty: Vec<i64> = Vec::new();
    assert_eq!(first_in_window(&empty, k(0.001), INFINITY), None);
}

#[test]
fn window_is_half_open() {
    let roots = vec![k(1.0), k(2.0)];
    assert_eq!(first_in_window(&roots, k(1.0), k(2.0)), Some(0));
    assert_eq!(first_in_window(&roots, k(1.5), k(2.0)), None);
}

#[test]
fn nearest_of_two_overlapping_spheres() {
    // Sphere A meets the ray at 2 and 4, sphere B at 3 and 5.
    let scene = vec![vec![k(2.0), k(4.0)], vec![k(3.0), k(5.0)]];
    let h = nearest_hit(&scene, k(0.001), INFINITY).unwrap();
    assert_eq!(h, Hit { object: 0, root: 0, t: k(2.0) });
    let swapped = vec![vec![k(3.0), k(5.0)], vec![k(2.0), k(4.0)]];
    let h2 = nearest_hit(&swapped, k(0.001), INFINITY).unwrap();
    assert_eq!(h2, Hit { object: 1, root: 0, t: k(2.0) });
}

#[test]
fn nearest_from_inside_a_sphere() {
    // The ray starts inside the first sphere: its near root is behind.
    let scene = vec![vec![k(-1.0), k(6.0)], vec![k(3.0), k(5.0)], vec![]];
    let h = nearest_hit(&scene, k(0.001), INFINITY).unwrap();
    assert_eq!(h, Hit { object: 1, root: 0, t: k(3.0) });
}

#[test]
fn nearest_with_no_hit() {
    let scene = vec![vec![], vec![k(-3.0), k(-1.0)]];
    assert_eq!(nearest_hit(&scene, k(0.001), INFINITY), None);
    let empty: Vec<Vec<i64>> = Vec::new();
    assert_eq!(nearest_hit(&empty, k(0.001), INFINITY), None);
}

#[test]
fn nearest_tie_keeps_the_earlier_member() {
    let scene = vec![vec![k(2.0)], vec![k(2.0)]];
    let h = nearest_hit(&scene, k(0.0), INFINITY).unwrap();
    assert_eq!(h.object, 0);
}
