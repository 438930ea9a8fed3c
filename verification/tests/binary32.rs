use thalamic_relay::binary32::{
    Binary32, EPSILON_BITS, INFINITY_BITS, NOT_A_NUMBER_BITS, ONE_BITS, SIGN_BIT, ZERO_BITS,
};

fn b(value: f32) -> Binary32 {
    Binary32::from_bits(value.to_bits())
}

fn f(value: Binary32) -> f32 {
    f32::from_bits(value.bits)
}

/// Patterns at the edges of every class, and a few hundred in between.
fn patterns() -> Vec<u32> {
    let mut all = vec![
        0,
        1,
        2,
        3,
        0x007f_fffe,
        0x007f_ffff,
        0x0080_0000,
        0x0080_0001,
        0x00ff_ffff,
        0x0100_0000,
        0x3380_0000,
        0x3f7f_ffff,
        0x3f80_0000,
        0x3f80_0001,
        0x4b7f_ffff,
        0x4b80_0000,
        0x4f7f_ffff,
        0x4f80_0000,
        0x7f00_0000,
        0x7f7f_fffe,
        0x7f7f_ffff,
        0x7f80_0000,
        0x7f80_0001,
        0x7fc0_0000,
        0x7fff_ffff,
    ];
    for value in [0.1f32, 0.4, 0.5, 0.7, 0.85, 1.05, 25.0, 65.0, 75.0, 100.0, 350.0, 12_000.0] {
        all.push(value.to_bits());
    }
    let mut state: u32 = 0x1234_5678;
    for _ in 0..60 {
        state = state.wrapping_mul(1_664_525).wrapping_add(1_013_904_223);
        all.push(state & 0x7fff_ffff);
    }
    let negated: Vec<u32> = all.iter().map(|bits| bits | 0x8000_0000).collect();
    all.extend(negated);
    all
}

fn same(got: Binary32, want: f32) -> bool {
    if want.is_nan() {
        got.is_nan()
    } else {
        got.bits == want.to_bits()
    }
}

#[test]
fn arithmetic_agrees_with_the_machine_on_every_pair() {
    for x in patterns() {
        for y in patterns() {
            let (p, q) = (Binary32::from_bits(x), Binary32::from_bits(y));
            assert!(same(p.plus(q), f(p) + f(q)), "{x:#x} + {y:#x}");
            assert!(same(p.minus(q), f(p) - f(q)), "{x:#x} - {y:#x}");
            assert!(same(p.times(q), f(p) * f(q)), "{x:#x} * {y:#x}");
            assert!(same(p.divided_by(q), f(p) / f(q)), "{x:#x} / {y:#x}");
        }
    }
}

#[test]
fn comparisons_agree_with_the_machine() {
    for x in patterns() {
        for y in patterns() {
            let (p, q) = (Binary32::from_bits(x), Binary32::from_bits(y));
            assert_eq!(p.lt(q), f(p) < f(q), "{x:#x} < {y:#x}");
            assert_eq!(p.le(q), f(p) <= f(q), "{x:#x} <= {y:#x}");
        }
    }
}

#[test]
fn classes_signs_and_whole_parts_agree_with_the_machine() {
    for x in patterns() {
        let p = Binary32::from_bits(x);
        assert_eq!(p.is_nan(), f(p).is_nan());
        assert_eq!(p.is_finite(), f(p).is_finite());
        assert_eq!(p.negated().bits, (-f(p)).to_bits());
        assert_eq!(p.absolute().bits, f(p).abs().to_bits());
        assert_eq!(p.truncate(), f(p) as u32, "{x:#x} as u32");
    }
}

#[test]
fn integers_convert_to_the_nearest_value() {
    for n in [0u32, 1, 2, 999, 16_777_215, 16_777_216, 16_777_217, 16_777_219, u32::MAX] {
        assert_eq!(Binary32::from_integer(n).bits, (n as f32).to_bits(), "{n}");
    }
}

#[test]
fn clamping_agrees_with_the_machine() {
    for x in patterns() {
        let p = Binary32::from_bits(x);
        assert!(same(p.clamped(b(0.1), b(1.0)), f(p).clamp(0.1, 1.0)), "{x:#x}");
        assert!(same(p.clamped(b(0.0), b(1.0)), f(p).clamp(0.0, 1.0)), "{x:#x}");
    }
}

#[test]
fn named_patterns_are_the_machine_constants() {
    assert_eq!(ZERO_BITS, 0.0f32.to_bits());
    assert_eq!(ONE_BITS, 1.0f32.to_bits());
    assert_eq!(EPSILON_BITS, f32::EPSILON.to_bits());
    assert_eq!(INFINITY_BITS, f32::INFINITY.to_bits());
    assert_eq!(SIGN_BIT, (-0.0f32).to_bits());
    assert!(f32::from_bits(NOT_A_NUMBER_BITS).is_nan());
}

#[test]
fn a_positive_value_divided_by_itself_is_one() {
    for value in [f32::MIN_POSITIVE, 0.1, 3.0, 350.0, f32::MAX] {
        assert_eq!(b(value).divided_by(b(value)).bits, ONE_BITS);
    }
}
