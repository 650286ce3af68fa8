use macp::double::Double;

fn double(value: f64) -> Double {
    Double::from_bits(value.to_bits())
}

/// A plain generator of well-spread bits.
fn next(state: &mut u64) -> u64 {
    *state = state
        .wrapping_mul(6_364_136_223_846_793_005)
        .wrapping_add(1_442_695_040_888_963_407);
    let x = *state ^ (*state >> 31);
    x.wrapping_mul(0x9e37_79b9_7f4a_7c15)
}

fn samples() -> Vec<f64> {
    let mut values = vec![
        0.1,
        0.5,
        1.0,
        1.5,
        2.0,
        33.0,
        33.333_333_333,
        49.999_999,
        50.0,
        66.666_666_667,
        99.999_999_999_999,
        100.0,
        150.0,
        4_294_967_294.5,
        4_294_967_295.0,
        4_294_967_296.0,
        1e30,
        f64::MAX,
        f64::MIN_POSITIVE,
        f64::from_bits(1),
        f64::INFINITY,
    ];
    let mut state: u64 = 7;
    for _ in 0..20_000 {
        let bits = next(&mut state) >> 1;
        let value = f64::from_bits(bits);
        if value > 0.0 {
            values.push(value);
        }
        // Values near those that policies hold.
        let mantissa = next(&mut state) >> 12;
        values.push(f64::from_bits((1_015 + next(&mut state) % 20) << 52 | mantissa));
    }
    values
}

#[test]
fn positive_is_greater_than_zero() {
    for value in [0.0, -0.0, -1.0, f64::NAN, -f64::NAN, f64::NEG_INFINITY] {
        assert!(!double(value).is_positive(), "{value}");
    }
    for value in samples() {
        assert!(double(value).is_positive(), "{value}");
    }
}

#[test]
fn rounds_up_as_hardware_does() {
    for value in samples() {
        assert_eq!(double(value).round_up(), value.ceil() as u32, "{value:e}");
    }
}

#[test]
fn shares_round_up_as_hardware_does() {
    let mut state: u64 = 11;
    for value in samples() {
        for total in [1, 2, 3, 5, 7, 1_000, next(&mut state) >> (next(&mut state) % 60)] {
            if total > 0 {
                // A share that hardware rounds to zero is still more than nothing.
                let expected = (((value / 100.0) * total as f64).ceil() as u32).max(1);
                assert_eq!(
                    double(value).round_up_share(total),
                    expected,
                    "{value:e} of {total}"
                );
            }
        }
    }
}

#[test]
fn integers_become_the_nearest_doubles() {
    let mut state: u64 = 3;
    for shift in 0..64 {
        let n = next(&mut state) >> shift;
        assert_eq!(Double::from_u64(n).to_bits(), (n as f64).to_bits(), "{n}");
        let m = -((n >> 1) as i64) - 1;
        assert_eq!(
            Double::from_negative(m).to_bits(),
            (m as f64).to_bits(),
            "{m}"
        );
    }
    assert_eq!(Double::from_u64(u64::MAX).to_bits(), (u64::MAX as f64).to_bits());
}
