use nsbmd::fixed_1_0_9::Fixed1_0_9;
use nsbmd::fixed_1_11_4::Fixed1_11_4;
use nsbmd::fixed_1_19_12::Fixed1_19_12;
use nsbmd::fixed_1_3_12::Fixed1_3_12;
use nsbmd::fixed_1_3_6::Fixed1_3_6;

#[test]
fn test_from_i16_max_positive() {
    let fixed = Fixed1_0_9::from_i16(0x1FF);
    assert_eq!(fixed.to_i16() as f32 / 512.0, 0.998046875);
}

#[test]
fn test_from_i16_min_negative() {
    let fixed = Fixed1_0_9::from_i16(0x200);
    assert_eq!(fixed.to_i16() as f32 / 512.0, -1.0);
}

#[test]
fn test_add_basic() {
    // 0.5 and 0.25 in raw 1.0.9 units.
    let a = Fixed1_0_9::from_i16(256);
    let b = Fixed1_0_9::from_i16(128);
    let sum = a.add(b);
    assert!((sum.to_i16() as f32 / 512.0 - 0.75).abs() < f32::EPSILON);
}

#[test]
fn test_add_overflow() {
    // Max positive plus the smallest fraction wraps the 10-bit range to -1.0.
    let a = Fixed1_0_9::from_i16(0x1FF);
    let b = Fixed1_0_9::from_i16(1);
    let sum = a.add(b);
    assert_eq!(sum.to_i16() as f32 / 512.0, -1.0);
}

#[test]
fn test_sub_basic() {
    let a = Fixed1_0_9::from_i16(384);
    let b = Fixed1_0_9::from_i16(128);
    let diff = a.sub(b);
    assert!((diff.to_i16() as f32 / 512.0 - 0.5).abs() < f32::EPSILON);
}

#[test]
fn test_sub_underflow() {
    // Most negative minus the smallest fraction wraps to the max positive.
    let a = Fixed1_0_9::from_i16(0x200);
    let b = Fixed1_0_9::from_i16(1);
    let diff = a.sub(b);
    assert_eq!(diff.to_i16() as f32 / 512.0, 0.998046875);
}

#[test]
fn test_mul_basic() {
    let a = Fixed1_0_9::from_i16(256);
    let b = Fixed1_0_9::from_i16(256);
    let product = a.mul(b);
    assert!((product.to_i16() as f32 / 512.0 - 0.25).abs() < f32::EPSILON);
}

#[test]
fn test_get_int_and_frac() {
    // 0.75390625 is raw 386.
    let fixed = Fixed1_0_9::from_i16(386);
    assert_eq!(fixed.get_int(), 0);
    assert_eq!(fixed.get_frac(), 386);
}

#[test]
fn fixed_1_3_12_test_addition() {
    // 1.5 + 2.25 == 3.75 at scale 4096.
    let a = Fixed1_3_12::from_i16(6144);
    let b = Fixed1_3_12::from_i16(9216);
    assert_eq!(a.add(b).to_i16(), 15360);
}

#[test]
fn fixed_1_3_12_test_subtraction() {
    let a = Fixed1_3_12::from_i16(15360);
    let b = Fixed1_3_12::from_i16(6144);
    assert_eq!(a.sub(b).to_i16(), 9216);
}

#[test]
fn fixed_1_3_12_test_multiplication() {
    // 2.0 * 1.5 == 3.0; -2.0 * 1.5 == -3.0.
    let a = Fixed1_3_12::from_i16(8192);
    let b = Fixed1_3_12::from_i16(6144);
    assert_eq!(a.mul(b).to_i16(), 12288);
    let c = Fixed1_3_12::from_i16(-8192);
    assert_eq!(c.mul(b).to_i16(), -12288);
}

#[test]
fn fixed_1_3_12_test_division() {
    // 3.0 / 2.0 == 1.5; -3.0 / 2.0 == -1.5.
    let a = Fixed1_3_12::from_i16(12288);
    let b = Fixed1_3_12::from_i16(8192);
    assert_eq!(a.div(b).to_i16(), 6144);
    let c = Fixed1_3_12::from_i16(-12288);
    assert_eq!(c.div(b).to_i16(), -6144);
}

#[test]
fn fixed_1_3_12_test_get_int_frac() {
    // 3.75 is 3 + 3072/4096; -3.75 floors to -4 + 1024/4096.
    let a = Fixed1_3_12::from_i16(15360);
    assert_eq!(a.get_int(), 3);
    assert_eq!(a.get_frac(), 3072);
    let b = Fixed1_3_12::from_i16(-15360);
    assert_eq!(b.get_int(), -4);
    assert_eq!(b.get_frac(), 1024);
    let c = Fixed1_3_12::from_i16(i16::MIN);
    assert_eq!(c.get_int(), -8);
    assert_eq!(c.get_frac(), 0);
}

#[test]
fn fixed_1_3_12_test_overflow_behavior() {
    // Raw i16::MAX plus raw 1 wraps to i16::MIN.
    let max_val = Fixed1_3_12::from_i16(i16::MAX);
    let smallest_frac = Fixed1_3_12::from_i16(1);
    let overflow_add = max_val.add(smallest_frac);
    assert_eq!(overflow_add.to_i16(), i16::MIN);
    // 4.0 * 3.0 == 12.0 wraps to -4.0 in the 16-bit range.
    let four = Fixed1_3_12::from_i16(16384);
    let three = Fixed1_3_12::from_i16(12288);
    assert_eq!(four.mul(three).to_i16(), -16384);
}

#[test]
fn fixed_1_11_4_test_addition() {
    // 1.5 + 2.25 at scale 16.
    let a = Fixed1_11_4::from_i16(24);
    let b = Fixed1_11_4::from_i16(36);
    assert_eq!(a.add(b).to_i16(), 60);
}

#[test]
fn fixed_1_11_4_test_multiplication() {
    // 2.0 * 1.5 == 3.0 at scale 16.
    let a = Fixed1_11_4::from_i16(32);
    let b = Fixed1_11_4::from_i16(24);
    assert_eq!(a.mul(b).to_i16(), 48);
}

#[test]
fn fixed_1_11_4_test_overflow_behavior() {
    let a = Fixed1_11_4::from_i16(i16::MAX);
    let b = Fixed1_11_4::from_i16(1);
    assert_eq!(a.add(b).to_i16(), i16::MIN);
}

#[test]
fn fixed_1_11_4_test_subtraction() {
    // 3.75 - 1.5 == 2.25 at scale 16.
    let a = Fixed1_11_4::from_i16(60);
    let b = Fixed1_11_4::from_i16(24);
    assert_eq!(a.sub(b).to_i16(), 36);
}

#[test]
fn fixed_1_11_4_test_division() {
    // 3.0 / 2.0 == 1.5 at scale 16.
    let a = Fixed1_11_4::from_i16(48);
    let b = Fixed1_11_4::from_i16(32);
    assert_eq!(a.div(b).to_i16(), 24);
}

#[test]
fn fixed_1_11_4_test_get_int_frac() {
    // 3.75 is 3 + 12/16; -3.75 floors to -4 + 4/16.
    let a = Fixed1_11_4::from_i16(60);
    assert_eq!(a.get_int(), 3);
    assert_eq!(a.get_frac(), 12);
    let b = Fixed1_11_4::from_i16(-60);
    assert_eq!(b.get_int(), -4);
    assert_eq!(b.get_frac(), 4);
}

#[test]
fn fixed_1_19_12_test_addition() {
    let a = Fixed1_19_12::from_i32(6144);
    let b = Fixed1_19_12::from_i32(9216);
    assert_eq!(a.add(b).to_i32(), 15360);
}

#[test]
fn fixed_1_19_12_test_multiplication() {
    // 2.0 * 1.5 == 3.0 at scale 4096.
    let a = Fixed1_19_12::from_i32(8192);
    let b = Fixed1_19_12::from_i32(6144);
    assert_eq!(a.mul(b).to_i32(), 12288);
}

#[test]
fn fixed_1_19_12_test_division() {
    let a = Fixed1_19_12::from_i32(12288);
    let b = Fixed1_19_12::from_i32(8192);
    assert_eq!(a.div(b).to_i32(), 6144);
}

#[test]
fn fixed_1_19_12_test_overflow_behavior() {
    let a = Fixed1_19_12::from_i32(i32::MAX);
    let b = Fixed1_19_12::from_i32(1);
    assert_eq!(a.add(b).to_i32(), i32::MIN);
}

#[test]
fn fixed_1_19_12_test_subtraction() {
    let a = Fixed1_19_12::from_i32(15360);
    let b = Fixed1_19_12::from_i32(6144);
    assert_eq!(a.sub(b).to_i32(), 9216);
}

#[test]
fn fixed_1_19_12_test_get_int_frac() {
    let a = Fixed1_19_12::from_i32(15360);
    assert_eq!(a.get_int(), 3);
    assert_eq!(a.get_frac(), 3072);
    let b = Fixed1_19_12::from_i32(-15360);
    assert_eq!(b.get_int(), -4);
    assert_eq!(b.get_frac(), 1024);
}

#[test]
fn raw_values_round_trip_through_every_variant() {
    // Wrapping variants store any 16- or 32-bit raw value verbatim.
    for raw in [i16::MIN, -1, 0, 1, 4096, i16::MAX] {
        assert_eq!(Fixed1_3_12::from_i16(Fixed1_3_12::from_i16(raw).to_i16()).to_i16(), raw);
        assert_eq!(Fixed1_11_4::from_i16(Fixed1_11_4::from_i16(raw).to_i16()).to_i16(), raw);
    }
    for raw in [i32::MIN, -1, 0, 4096, i32::MAX] {
        assert_eq!(Fixed1_19_12::from_i32(Fixed1_19_12::from_i32(raw).to_i32()).to_i32(), raw);
    }
    // Saturating variants propagate the sign bit once; stored values are
    // then fixed points of the rule.
    for raw in [0i16, 1, 511, 512, 1023, -1, i16::MIN, i16::MAX] {
        let stored = Fixed1_0_9::from_i16(raw).to_i16();
        assert_eq!(Fixed1_0_9::from_i16(stored).to_i16(), stored);
        let stored6 = Fixed1_3_6::from_i16(raw).to_i16();
        assert_eq!(Fixed1_3_6::from_i16(stored6).to_i16(), stored6);
    }
}

#[test]
fn fixed_1_3_6_sign_propagates_from_bit_nine() {
    // 0x3FF is the 10-bit two's-complement encoding of -1.
    assert_eq!(Fixed1_3_6::from_i16(0x3FF).to_i16(), -1);
    assert_eq!(Fixed1_3_6::from_i16(512).to_i16(), -512);
    assert_eq!(Fixed1_3_6::from_i16(511).to_i16(), 511);
    // A negative raw value (-1.5 at the 1/64 scale) is its own stored form.
    assert_eq!(Fixed1_3_6::from_i16(-96).to_i16(), -96);
    // Addition masks and sign-extends: the max positive plus the smallest
    // step wraps the 10-bit range to the most negative value.
    let a = Fixed1_3_6::from_i16(511);
    let b = Fixed1_3_6::from_i16(1);
    assert_eq!(a.add(b).to_i16(), -512);
}
