use raytraceweekend::key::{order_key, INFINITY, ONE};

#[test]
fn keys_follow_number_order() {
    let xs = [
        f64::NEG_INFINITY, -1e300, -2.5, -1.0, -1e-8, -5e-324, 0.0, 5e-324, 1e-8, 0.001, 0.999, 1.0,
        1.5, 1e300, f64::INFINITY,
    ];
    for a in xs.iter() {
        for b in xs.iter() {
            let (ka, kb) = (order_key(a.to_bits()), order_key(b.to_bits()));
            assert_eq!(a < b, ka < kb, "{} {}", a, b);
            assert_eq!(a == b, ka == kb, "{} {}", a, b);
        }
    }
}

#[test]
fn both_zeros_have_key_zero() {
    assert_eq!(order_key(0.0f64.to_bits()), 0);
    assert_eq!(order_key((-0.0f64).to_bits()), 0);
}

#[test]
fn negation_negates_key() {
    for x in [0.25f64, 1.0, 3.75, 1e-300, 7e200] {
        assert_eq!(order_key((-x).to_bits()), -order_key(x.to_bits()));
    }
}

#[test]
fn named_keys() {
    assert_eq!(ONE, order_key(1.0f64.to_bits()));
    assert_eq!(INFINITY, order_key(f64::INFINITY.to_bits()));
    assert_eq!(order_key(2.0f64.to_bits()), 0x4000_0000_0000_0000);
    assert_eq!(order_key((-2.0f64).to_bits()), -0x4000_0000_0000_0000);
}
