use raytraceweekend::pixel::{channel_byte, channel_bytes, CHANNEL_TOP};
use raytraceweekend::key::order_key;

fn by_float(x: f64) -> u8 {
    let c = if x < 0.0 {
        0.0
    } else if x > 0.999 {
        0.999
    } else {
        x
    };
    (256.0 * c) as u8
}

#[test]
fn channel_exact_values() {
    assert_eq!(channel_byte(0.5f64.to_bits()), 128);
    assert_eq!(channel_byte(0.25f64.to_bits()), 64);
    assert_eq!(channel_byte(0.999f64.to_bits()), 255);
    assert_eq!(channel_byte(1.0f64.to_bits()), 255);
    assert_eq!(channel_byte(7.5f64.to_bits()), 255);
    assert_eq!(channel_byte(0.0f64.to_bits()), 0);
    assert_eq!(channel_byte((-0.0f64).to_bits()), 0);
    assert_eq!(channel_byte((-0.3f64).to_bits()), 0);
    assert_eq!(channel_byte(f64::NAN.to_bits()), 0);
    assert_eq!(channel_byte(f64::INFINITY.to_bits()), 255);
    assert_eq!(channel_byte(f64::NEG_INFINITY.to_bits()), 0);
    assert_eq!(channel_byte(5e-324f64.to_bits()), 0);
    assert_eq!(channel_byte((1.0f64 / 256.0).to_bits()), 1);
    assert_eq!(channel_byte((1.0f64 / 256.0 - 1e-12).to_bits()), 0);
    assert_eq!(CHANNEL_TOP, order_key(0.999f64.to_bits()));
}

#[test]
fn channel_matches_float_quantization() {
    let mut x = -0.05f64;
    while x < 1.05 {
        assert_eq!(channel_byte(x.to_bits()), by_float(x), "{}", x);
        x += 0.000_37;
    }
    for x in [1e-300f64, 1e-20, 0.003_906_25, 0.5 - 1e-16, 0.998_999_999, 0.999_000_1] {
        assert_eq!(channel_byte(x.to_bits()), by_float(x), "{}", x);
    }
}

#[test]
fn bytes_in_channel_order() {
    let channels = vec![0.5f64.to_bits(), 1.0f64.to_bits(), 0.0f64.to_bits(), 0.25f64.to_bits()];
    assert_eq!(channel_bytes(&channels), vec![128, 255, 0, 64]);
    assert_eq!(channel_bytes(&Vec::new()), Vec::<u8>::new());
}
