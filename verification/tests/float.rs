use item_finder::float::{truncate_f32, truncate_f64};

#[test]
fn f32_fractions_are_cut_toward_zero() {
    assert_eq!(truncate_f32(12.5f32.to_bits()), 12);
    assert_eq!(truncate_f32(64.0f32.to_bits()), 64);
    assert_eq!(truncate_f32((-3.9f32).to_bits()), -3);
    assert_eq!(truncate_f32(0.99f32.to_bits()), 0);
    assert_eq!(truncate_f32((-0.99f32).to_bits()), 0);
    assert_eq!(truncate_f32(1.0f32.to_bits()), 1);
    assert_eq!(truncate_f32((-1.0f32).to_bits()), -1);
}

#[test]
fn f32_zeros_and_subnormals_are_zero() {
    assert_eq!(truncate_f32(0.0f32.to_bits()), 0);
    assert_eq!(truncate_f32((-0.0f32).to_bits()), 0);
    assert_eq!(truncate_f32(1), 0);
    assert_eq!(truncate_f32(0x007f_ffff), 0);
    assert_eq!(truncate_f32(0x807f_ffff), 0);
}

#[test]
fn f32_nan_is_zero_and_infinities_saturate() {
    assert_eq!(truncate_f32(f32::NAN.to_bits()), 0);
    assert_eq!(truncate_f32(0xffc0_0001), 0);
    assert_eq!(truncate_f32(f32::INFINITY.to_bits()), i64::MAX);
    assert_eq!(truncate_f32(f32::NEG_INFINITY.to_bits()), i64::MIN);
}

#[test]
fn f32_beyond_the_range_saturates() {
    assert_eq!(truncate_f32(1.0e30f32.to_bits()), i64::MAX);
    assert_eq!(truncate_f32((-1.0e30f32).to_bits()), i64::MIN);
    assert_eq!(truncate_f32(9223372036854775808.0f32.to_bits()), i64::MAX);
    assert_eq!(truncate_f32((-9223372036854775808.0f32).to_bits()), i64::MIN);
    assert_eq!(truncate_f32(f32::MAX.to_bits()), i64::MAX);
    assert_eq!(truncate_f32(f32::MIN.to_bits()), i64::MIN);
}

#[test]
fn f32_large_values_are_exact() {
    assert_eq!(truncate_f32(16777216.0f32.to_bits()), 16777216);
    assert_eq!(truncate_f32(4611686018427387904.0f32.to_bits()), 4611686018427387904);
    assert_eq!(truncate_f32((-4611686018427387904.0f32).to_bits()), -4611686018427387904);
    assert_eq!(truncate_f32(8388607.5f32.to_bits()), 8388607);
}

#[test]
fn f32_agrees_with_the_cast_on_a_sweep_of_patterns() {
    let mut bits: u32 = 0;
    loop {
        assert_eq!(truncate_f32(bits), f32::from_bits(bits) as i64, "bits {:#x}", bits);
        match bits.checked_add(0x0001_2345) {
            Some(next) => bits = next,
            None => break,
        }
    }
}

#[test]
fn f64_fractions_are_cut_toward_zero() {
    assert_eq!(truncate_f64(12.5f64.to_bits()), 12);
    assert_eq!(truncate_f64(64.0f64.to_bits()), 64);
    assert_eq!(truncate_f64((-3.9f64).to_bits()), -3);
    assert_eq!(truncate_f64(0.5f64.to_bits()), 0);
    assert_eq!(truncate_f64((-0.5f64).to_bits()), 0);
    assert_eq!(truncate_f64(4503599627370495.5f64.to_bits()), 4503599627370495);
}

#[test]
fn f64_special_values() {
    assert_eq!(truncate_f64(0.0f64.to_bits()), 0);
    assert_eq!(truncate_f64((-0.0f64).to_bits()), 0);
    assert_eq!(truncate_f64(1), 0);
    assert_eq!(truncate_f64(f64::NAN.to_bits()), 0);
    assert_eq!(truncate_f64(f64::INFINITY.to_bits()), i64::MAX);
    assert_eq!(truncate_f64(f64::NEG_INFINITY.to_bits()), i64::MIN);
    assert_eq!(truncate_f64(1.0e300f64.to_bits()), i64::MAX);
    assert_eq!(truncate_f64((-1.0e300f64).to_bits()), i64::MIN);
}

#[test]
fn f64_values_near_the_bounds() {
    assert_eq!(truncate_f64(9223372036854775808.0f64.to_bits()), i64::MAX);
    assert_eq!(truncate_f64((-9223372036854775808.0f64).to_bits()), i64::MIN);
    assert_eq!(truncate_f64(9223372036854774784.0f64.to_bits()), 9223372036854774784);
    assert_eq!(truncate_f64((-9223372036854774784.0f64).to_bits()), -9223372036854774784);
    assert_eq!(truncate_f64(9007199254740993.0f64.to_bits()), 9007199254740992);
}

#[test]
fn f64_agrees_with_the_cast_on_a_sweep_of_patterns() {
    let mut bits: u64 = 0;
    loop {
        assert_eq!(truncate_f64(bits), f64::from_bits(bits) as i64, "bits {:#x}", bits);
        match bits.checked_add(0x0000_0123_4567_89ab) {
            Some(next) => bits = next,
            None => break,
        }
    }
}
