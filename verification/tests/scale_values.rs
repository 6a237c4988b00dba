use star_rail_settings::scale::{Scale, FACTOR_COUNT, TOLERANCE};

fn scale(value: f64) -> Scale {
    Scale::from_bits(value.to_bits())
}

fn factor_number(step: usize) -> f64 {
    (6 + 2 * step) as f64 / 10.0
}

fn close_in_floats(current: f64, option: f64) -> bool {
    (option - current).abs() < 0.001
}

#[test]
fn the_factors_are_the_tenths_from_six_to_twenty() {
    assert_eq!(FACTOR_COUNT, 8);
    for step in 0..FACTOR_COUNT {
        assert_eq!(Scale::factor(step).to_bits(), factor_number(step).to_bits());
    }
    assert_eq!(f64::from_bits(Scale::factor(0).to_bits()), 0.6);
    assert_eq!(f64::from_bits(Scale::factor(7).to_bits()), 2.0);
}

#[test]
fn the_tolerance_is_one_thousandth() {
    assert_eq!(f64::from_bits(TOLERANCE), 0.001);
}

#[test]
fn bits_are_kept_as_given() {
    assert_eq!(Scale::from_bits(0x1234_5678_9ABC_DEF0).to_bits(), 0x1234_5678_9ABC_DEF0);
    assert_eq!(Scale::from_bits(0), Scale { bits: 0 });
}

#[test]
fn a_factor_is_close_to_itself_and_to_no_other() {
    for i in 0..FACTOR_COUNT {
        for j in 0..FACTOR_COUNT {
            assert_eq!(Scale::factor(i).is_close(Scale::factor(j)), i == j);
        }
    }
}

#[test]
fn closeness_at_chosen_values() {
    let one = Scale::factor(2);
    assert!(scale(1.0).is_close(one));
    assert!(scale(1.0005).is_close(one));
    assert!(scale(0.9995).is_close(one));
    assert!(scale(1.0 + 0.000999).is_close(one));
    assert!(!scale(1.0011).is_close(one));
    assert!(!scale(1.002).is_close(one));
    assert!(!scale(0.9989).is_close(one));
    assert!(!scale(0.998).is_close(one));
    assert!(!scale(-1.0).is_close(one));
    assert!(!scale(0.0).is_close(one));
    assert!(!scale(f64::NAN).is_close(one));
    assert!(!scale(f64::INFINITY).is_close(one));
    assert!(!scale(f64::NEG_INFINITY).is_close(one));
    assert!(!scale(f64::MAX).is_close(one));
    assert!(!scale(5e-324).is_close(one));
}

#[test]
fn closeness_agrees_with_float_arithmetic() {
    let mut samples: Vec<f64> = vec![
        0.0,
        -0.0,
        1.0,
        -1.0,
        f64::NAN,
        f64::INFINITY,
        f64::NEG_INFINITY,
        f64::MIN_POSITIVE,
        5e-324,
        f64::MAX,
        f64::MIN,
        0.25,
        0.3,
        0.5,
        3.999,
        4.0,
        1e300,
        1e-300,
    ];
    for step in 0..FACTOR_COUNT {
        let g = factor_number(step);
        for d in [0.0, 0.0005, 0.000999, 0.001, 0.0010001, 0.002, 0.1, 0.2] {
            samples.push(g + d);
            samples.push(g - d);
            samples.push(-(g + d));
        }
        for edge in [g + 0.001, g - 0.001] {
            let bits = edge.to_bits();
            for k in 0..8u64 {
                samples.push(f64::from_bits(bits + k));
                samples.push(f64::from_bits(bits - k));
            }
        }
        samples.push(g / 2.0);
        samples.push(g * 2.0);
    }
    let mut x: u64 = 0x9E37_79B9_7F4A_7C15;
    for _ in 0..20000 {
        x = x
            .wrapping_mul(6364136223846793005)
            .wrapping_add(1442695040888963407);
        samples.push(f64::from_bits(x));
        let unit = (x >> 11) as f64 / (1u64 << 53) as f64;
        samples.push(0.4 + unit * 1.9);
        let near = factor_number((x % 8) as usize) + (unit - 0.5) * 0.004;
        samples.push(near);
    }
    for sample in samples {
        for step in 0..FACTOR_COUNT {
            assert_eq!(
                scale(sample).is_close(Scale::factor(step)),
                close_in_floats(sample, factor_number(step)),
                "sample {sample:e} ({:#x}) against factor {step}",
                sample.to_bits()
            );
        }
    }
}
