use kumir3_shared::f128::F128;
use kumir3_shared::f128::bits::FpCategory;

#[test]
fn nan_classification() {
    let n = F128::nan();
    assert!(n.is_nan());
    assert!(!n.is_infinite());
}

#[test]
fn zero_and_sign() {
    let z = F128::zero();
    let nz = F128::neg_zero();
    assert!(z.is_zero());
    assert!(nz.is_zero());
    assert!(z == nz); // -0.0 == +0.0 по IEEE 754
    assert!(z.total_cmp(&nz) == core::cmp::Ordering::Equal); // totalCmp считает их равными
}

#[test]
fn inf_ordering() {
    let p = F128::infinity();
    let n = F128::neg_infinity();
    assert!(p.is_infinite());
    assert!(n.is_infinite());
    assert!(n < p);
}

#[test]
fn nan_ordering() {
    let n = F128::nan();
    assert!(n.is_nan());
    assert!(n.partial_cmp(&n).is_none());
    assert_eq!(n.total_cmp(&n), core::cmp::Ordering::Equal);
}

#[test]
fn zero_total_cmp_equivalence() {
    let z = F128::zero();
    let nz = F128::neg_zero();
    assert_eq!(z.total_cmp(&nz), core::cmp::Ordering::Equal);
}

#[test]
fn nan_vs_normal_total_order() {
    let n = F128::nan();
    let x = F128::infinity();
    assert_eq!(x.total_cmp(&n), core::cmp::Ordering::Less);
    assert_eq!(n.total_cmp(&x), core::cmp::Ordering::Greater);
}

#[test]
fn add_basic() {
    let one = F128::from_bits(0x3fff_0000_0000_0000, 0);
    let two = F128::from_bits(0x4000_0000_0000_0000, 0);
    let sum = one + one;
    assert!(!sum.is_nan());
    assert!(!sum.is_infinite());
    assert!(!sum.is_zero());
    assert!(sum == two);

    let diff = two - one;
    assert!(!diff.is_nan());
    assert!(!diff.is_infinite());
    assert!(!diff.is_zero());
    assert!(diff == one);
}

#[test]
fn sub_basic() {
    let three = F128::from_bits(0x4000_8000_0000_0000, 0);
    let two = F128::from_bits(0x4000_0000_0000_0000, 0);
    let one = F128::from_bits(0x3fff_0000_0000_0000, 0);
    let result = three - one;
    assert!(!result.is_nan());
    assert!(!result.is_infinite());
    assert!(!result.is_zero());
    assert!(result == two);
}

#[test]
fn sub_inf_minus_inf_is_nan() {
    let p_inf = F128::infinity();
    let result = p_inf - p_inf;
    assert!(result.is_nan());
}

#[test]
fn sub_pos_inf_minus_neg_inf_is_inf() {
    let p_inf = F128::infinity();
    let n_inf = F128::neg_infinity();
    let result = p_inf - n_inf;
    assert!(result.is_infinite());
    assert!(!result.is_sign_negative());
}

#[test]
fn sub_neg_inf_minus_pos_inf_is_neg_inf() {
    let p_inf = F128::infinity();
    let n_inf = F128::neg_infinity();
    let result = n_inf - p_inf;
    assert!(result.is_infinite());
    assert!(result.is_sign_negative());
}

#[test]
fn add_inf_and_inf() {
    let p_inf = F128::infinity();
    let result = p_inf + p_inf;
    assert!(result.is_infinite());
    assert!(!result.is_sign_negative());
}

#[test]
fn mul_zero_and_inf() {
    let z = F128::zero();
    let inf = F128::infinity();
    let r1 = z * inf;
    let r2 = inf * z;
    assert!(r1.is_nan());
    assert!(r2.is_nan());
}

#[test]
fn mul_basic() {
    let two = F128::from_bits(0x4000_0000_0000_0000, 0);
    let three = F128::from_bits(0x4000_8000_0000_0000, 0);
    let six = F128::from_bits(0x4001_8000_0000_0000, 0);

    let result = two * three;
    assert!(!result.is_nan());
    assert!(!result.is_infinite());
    assert!(!result.is_sign_negative());
    assert!(!result.is_zero());
    assert!(result == six);
}

#[test]
fn div_zero_cases() {
    let z = F128::zero();
    let one = F128::from_bits(0x3fff_0000_0000_0000, 0);
    let r1 = z / one;
    assert!(r1.is_zero());

    let r2 = one / z;
    assert!(r2.is_infinite());
}

#[test]
fn div_basic() {
    let six = F128::from_bits(0x4001_8000_0000_0000, 0);
    let three = F128::from_bits(0x4000_8000_0000_0000, 0);
    let two = F128::from_bits(0x4000_0000_0000_0000, 0);

    let result = six / three;
    assert!(!result.is_nan());
    assert!(!result.is_infinite());
    assert!(!result.is_zero());
    assert!(result == two);
}

#[test]
fn mul_commutativity_two_three() {
    let two = F128::from_bits(0x4000_0000_0000_0000, 0);
    let three = F128::from_bits(0x4000_8000_0000_0000, 0);
    let six = F128::from_bits(0x4001_8000_0000_0000, 0);

    let a = two * three;
    let b = three * two;
    assert_eq!(a, b, "commutativity failed: two*three != three*two");
    assert_eq!(a, six, "expected 2*3 == 6");
}

#[test]
fn mul_power_of_two_doubling() {
    let two = F128::from_bits(0x4000_0000_0000_0000, 0); // 2.0
    let four = F128::from_bits(0x4001_0000_0000_0000, 0); // 4.0
    let res = two * two;
    assert_eq!(res, four, "2 * 2 should be 4");
}

#[test]
fn div_inverse_basic_cases() {
    let two = F128::from_bits(0x4000_0000_0000_0000, 0);
    let three = F128::from_bits(0x4000_8000_0000_0000, 0);
    let six = F128::from_bits(0x4001_8000_0000_0000, 0);

    assert_eq!(six / three, two, "6 / 3 should be 2");
    assert_eq!(six / two, three, "6 / 2 should be 3");
}

#[test]
fn mul_identity_and_div_identity() {
    let one = F128::from_bits(0x3fff_0000_0000_0000, 0);
    let two = F128::from_bits(0x4000_0000_0000_0000, 0);

    assert_eq!(one * two, two, "1 * x == x");
    assert_eq!(two / one, two, "x / 1 == x");
}

#[test]
fn div_by_self_returns_one() {
    let three = F128::from_bits(0x4000_8000_0000_0000, 0);
    let one = F128::from_bits(0x3fff_0000_0000_0000, 0);
    assert_eq!(three / three, one, "x / x == 1 (for normal non-zero x)");
}

#[test]
fn neg_flips_sign_bit() {
    let x = F128::from_bits(0x3fff_0000_0000_0000, 0);
    let y = -x;
    assert!(y.is_sign_negative());
    assert!(!y.is_zero());
}

#[test]
fn neg_nan_is_nan() {
    let n = F128::nan();
    let m = -n;
    assert!(m.is_nan());
}

#[test]
fn from_u64_basic() {
    let one = F128::from(1u64);
    let two = F128::from(2u64);
    assert!(one < two);
    assert!(one + one == two);
}

#[test]
fn from_i64_negative() {
    let minus_one = F128::from(-1i64);
    let one = F128::from(1i64);
    assert!(minus_one.is_sign_negative());
    let sum = minus_one + one;
    assert!(sum.is_zero());
}

#[test]
fn demo_f128_add() {
    let a = F128::from(3u64);
    let b = F128::from(2u64);
    let c = a + b;

    println!("{:?} + {:?} = {:?}", a, b, c);
}

#[test]
fn trunc_and_round_basic() {
    let x = F128::from(37) / F128::from(10); // 3.7
    let t = x.trunc();
    assert_eq!(t, F128::from(3));

    let y = F128::from(35) / F128::from(10); // 3.5
    let r = y.round();
    // Ожидаем: округление до ближайшего (3.5 -> 4)
    assert_eq!(r, F128::from(4));
}

#[test]
fn round_ties_to_even() {
    let two_point_five = F128::from(25) / F128::from(10); // 2.5
    let three_point_five = F128::from(35) / F128::from(10); // 3.5

    assert_eq!(two_point_five.round(), F128::from(2));
    assert_eq!(three_point_five.round(), F128::from(4));
}

#[test]
fn is_integer_checks() {
    let three = F128::from(3);
    assert_eq!(three, three.trunc());

    let frac = F128::from(37) / F128::from(10); // 3.7
    assert_ne!(frac, frac.trunc());

    // Большое целое: trunc не меняет значение
    let big = F128::from(i64::MAX);
    assert_eq!(big, big.trunc());
}

#[test]
fn add_one_past_i64_max_behaviour() {
    let inside = F128::from(i64::MAX);
    let bigger = inside + F128::from(1);
    assert!(bigger > inside);
    assert!(bigger.is_finite());
}

// ---------------------------------------------------------------------------
// Further checks of the number type.
// ---------------------------------------------------------------------------


#[test]
fn bits_roundtrip_and_fields() {
    let x = F128::from_bits(0xC000_8000_0000_0001, 7);
    assert_eq!(x.to_bits(), (0xC000_8000_0000_0001, 7));
    assert_eq!(x.sign_bit(), 1);
    assert_eq!(x.raw_exponent(), 0x4000);
    assert_eq!(x.raw_fraction(), (0x8000_0000_0001, 7));
    assert!(x.is_sign_negative());
    assert!(!x.is_sign_positive());
}

#[test]
fn classification_of_each_kind() {
    assert_eq!(F128::nan().classify(), FpCategory::Nan);
    assert_eq!(F128::infinity().classify(), FpCategory::Infinite);
    assert_eq!(F128::neg_zero().classify(), FpCategory::Zero);
    assert_eq!(F128::min_positive_subnormal().classify(), FpCategory::Subnormal);
    assert_eq!(F128::one().classify(), FpCategory::Normal);
    assert!(F128::one().is_one());
    assert!(F128::neg_one().is_neg_one());
    assert!(F128::min_positive_normal().is_normal());
    assert_eq!(F128::one().mantissa_digits(), 113);
    assert_eq!(F128::from_bits(0, 1u64 << 63).mantissa_digits(), 64);
    assert_eq!(F128::min_positive_subnormal().mantissa_digits(), 1);
}

#[test]
fn decompose_and_compose() {
    let (s, e, m) = F128::from_u64(6).decompose();
    assert!(!s);
    assert_eq!(e, 2);
    assert_eq!(m, 3u128 << 111);
    assert_eq!(F128::compose(false, 2, 3u128 << 111).to_bits(), F128::from_u64(6).to_bits());
    assert_eq!(F128::compose(true, 0, 0).to_bits(), F128::neg_zero().to_bits());
    assert!(F128::compose(false, 20000, 1).is_infinite());
    let (_, e0, m0) = F128::zero().decompose();
    assert_eq!((e0, m0), (-16383, 0));
}

#[test]
fn sign_operations() {
    let two = F128::from_i64(-2);
    assert_eq!(two.abs(), F128::from_u64(2));
    assert_eq!(F128::from_u64(3).copysign(two), F128::from_i64(-3));
    assert_eq!(two.signum(), F128::neg_one());
    assert!(F128::nan().signum().is_nan());
    assert_eq!(F128::neg_zero().signum().to_bits(), F128::neg_zero().to_bits());
    assert_eq!((-(-two)).to_bits(), two.to_bits());
}

#[test]
fn addition_commutes_with_signed_zeros() {
    let a = F128::from_u64(7) / F128::from_u64(3);
    let b = F128::from_i64(-5);
    assert_eq!((a + b).to_bits(), (b + a).to_bits());
    assert_eq!((F128::zero() + F128::neg_zero()).to_bits(), F128::zero().to_bits());
    assert_eq!((F128::neg_zero() + F128::zero()).to_bits(), F128::zero().to_bits());
    assert_eq!((F128::neg_zero() + F128::neg_zero()).to_bits(), F128::neg_zero().to_bits());
    assert_eq!((F128::zero() - F128::zero()).to_bits(), F128::zero().to_bits());
    assert_eq!((a * b).to_bits(), (b * a).to_bits());
}

#[test]
fn remainder_and_rounding() {
    let seven = F128::from_u64(7);
    let three = F128::from_u64(3);
    assert_eq!(seven % three, F128::one());
    assert!((seven % F128::zero()).is_nan());
    let x = F128::from_i64(-37) / F128::from_u64(10);
    assert_eq!(x.floor(), F128::from_i64(-4));
    assert_eq!(x.ceil(), F128::from_i64(-3));
    assert_eq!(x.trunc(), F128::from_i64(-3));
    assert_eq!(F128::from_u64(1234).round_to(-2), F128::from_u64(1200));
    assert_eq!(F128::from_u64(1250).round_to(-2), F128::from_u64(1200));
}

#[test]
fn integer_powers_and_conversions() {
    assert_eq!(F128::from_u64(2).powi(10), F128::from_u64(1024));
    assert_eq!(F128::from_u64(2).powi(-1), F128::from_u64(1) / F128::from_u64(2));
    assert_eq!(F128::from_u64(5).powi(0), F128::one());
    assert_eq!(F128::from_i64(-42).to_i64_checked(), Some(-42));
    assert_eq!(F128::nan().to_i64_checked(), None);
    assert_eq!(F128::from_u64(u64::MAX).to_i64_checked(), Some(i64::MAX));
    assert!(F128::from_u64(3).is_integer());
    assert!(!(F128::from_u64(7) / F128::from_u64(2)).is_integer());
    assert_eq!(F128::from(7u8), F128::from_u64(7));
    assert_eq!(F128::from(-7i32), F128::from_i64(-7));
}

#[test]
fn total_order_is_antisymmetric() {
    let a = F128::from_i64(-1);
    let b = F128::from_u64(2);
    assert_eq!(a.total_cmp(&b), core::cmp::Ordering::Less);
    assert_eq!(b.total_cmp(&a), core::cmp::Ordering::Greater);
    assert_eq!(a.total_cmp(&a), core::cmp::Ordering::Equal);
    assert!(F128::nan() != F128::nan());
}

fn bits(x: F128) -> (u64, u64) {
    (x.high, x.low)
}

#[test]
fn literals_are_read() {
    assert_eq!(bits("42".parse::<F128>().unwrap()), bits(F128::from(42i64)));
    assert_eq!(bits(" -7 ".parse::<F128>().unwrap()), bits(F128::from(-7i64)));
    assert_eq!(bits("+0".parse::<F128>().unwrap()), bits(F128::zero()));
    assert_eq!(bits("-0.0".parse::<F128>().unwrap()), bits(F128::neg_zero()));
    assert_eq!(bits("NaN".parse::<F128>().unwrap()), bits(F128::nan()));
    assert_eq!(bits("+Infinity".parse::<F128>().unwrap()), bits(F128::infinity()));
    assert_eq!(bits("-INF".parse::<F128>().unwrap()), bits(F128::neg_infinity()));
    // Each decimal place scales by ten.
    assert_eq!(bits(F128 { high: 0x4002_4000_0000_0000, low: 0 }), bits(F128::from(10i64)));
    assert_eq!(bits("1e3".parse::<F128>().unwrap()), bits(F128::from(1000i64)));
    assert_eq!(bits("25E-1".parse::<F128>().unwrap()), bits(F128::from(25i64) / F128::from(10i64)));
    assert_eq!(bits("2.5".parse::<F128>().unwrap()), (0x4000_4000_0000_0000, 0));
    assert_eq!(bits("1.5".parse::<F128>().unwrap()), bits(F128::from(15i64) / F128::from(10i64)));
    assert_eq!(bits("1.25".parse::<F128>().unwrap()), bits(F128::from(125i64) / F128::from(100i64)));
    assert_eq!(bits(".5".parse::<F128>().unwrap()), (0x3FFE_0000_0000_0000, 0));
    assert_eq!(bits("5.".parse::<F128>().unwrap()), bits(F128::from(5i64)));
    assert_eq!(bits("0.5e1".parse::<F128>().unwrap()), bits(F128::from(5i64)));
    assert!("1e999999".parse::<F128>().unwrap().is_infinite());
    assert!("1e-999999".parse::<F128>().unwrap().is_zero());
}

#[test]
fn malformed_literals_are_refused() {
    for s in ["", "   ", "abc", "1.2.3", ".", "-", "1e", "1e+", "1e12345678901", "12x", "1 2"] {
        assert!(s.parse::<F128>().is_err(), "{s:?}");
    }
    assert!(F128::read_literal("5").unwrap().is_ok());
    assert!(F128::read_literal("5.").unwrap().is_ok());
}

// --- Square roots and inverse functions, composed from the library's steps.
// The first guess of a square root is this file's own (one), where a
// program takes it from a hardware square root.

fn sqrt(x: F128) -> F128 {
    x.sqrt_with_guess(F128::from(1))
}

fn asin(x: F128) -> F128 {
    match x.asin_direct() {
        Some(r) => r,
        None => x.asin_step(asin(sqrt(x.asin_step_arg()))),
    }
}

fn acos(x: F128) -> F128 {
    match x.acos_direct() {
        Some(r) => r,
        None => F128::acos_from_asin(asin(x)),
    }
}

#[test]
fn sqrt_basic_perfect_square() {
    let four = F128::from_bits(0x4001_0000_0000_0000, 0);
    let two = F128::from_bits(0x4000_0000_0000_0000, 0);
    let r = sqrt(four);
    assert!(!r.is_nan());
    assert_eq!(r, two);
}

#[test]
fn sqrt_negative_is_nan() {
    let minus_one = -F128::from_bits(0x3fff_0000_0000_0000, 0);
    let r = sqrt(minus_one);
    assert!(r.is_nan());
}

#[test]
fn powf_one_anything() {
    let one = F128::from_bits(0x3fff_0000_0000_0000, 0);
    let three = F128::from_bits(0x4000_8000_0000_0000, 0);
    let r = one.powf(three);
    assert_eq!(r, one);
}

#[test]
fn powf_anything_zero() {
    let two = F128::from_bits(0x4000_0000_0000_0000, 0);
    let zero = F128::zero();
    let one = F128::from_bits(0x3fff_0000_0000_0000, 0);
    let r = two.powf(zero);
    assert_eq!(r, one);
}

#[test]
fn powf_zero_positive() {
    let zero = F128::zero();
    let two = F128::from_bits(0x4000_0000_0000_0000, 0);
    let r = zero.powf(two);
    assert!(r.is_zero());
}

#[test]
fn powf_zero_negative_inf() {
    let zero = F128::zero();
    let minus_two = -F128::from_bits(0x4000_0000_0000_0000, 0);
    let r = zero.powf(minus_two);
    assert!(r.is_infinite());
    assert!(!r.is_sign_negative());
}

#[test]
fn powf_negative_integer_exponent() {
    let minus_two = -F128::from_bits(0x4000_0000_0000_0000, 0);
    let three = F128::from_bits(0x4000_8000_0000_0000, 0);
    let r = minus_two.powf(three);
    assert!(r.is_sign_negative());
}

#[test]
fn powf_negative_non_integer_nan() {
    let minus_two = -F128::from_bits(0x4000_0000_0000_0000, 0);
    let half = F128::from_bits(0x3ffe_8000_0000_0000, 0);
    let r = minus_two.powf(half);
    assert!(r.is_nan());
}

#[test]
fn powf_two_squared_via_internal_ln_exp() {
    let two = F128::from_bits(0x4000_0000_0000_0000, 0);
    let two_exp = F128::from_bits(0x4000_0000_0000_0000, 0);
    let four = F128::from_bits(0x4001_0000_0000_0000, 0);
    let r = two.powf(two_exp);

    assert!(!r.is_nan());
    assert!(!r.is_infinite());
    assert!(!r.is_zero());

    let three = F128::from(3u64);
    let five = F128::from(5u64);
    println!("r = {:?}", r);
    assert!(r > three && r < five);
    assert!(r == four);
}

#[test]
fn trig_sin_cos_values() {
    let zero = F128::zero();
    let pi = F128::pi();
    let pi_2 = F128::frac_pi_2();
    let epsilon = F128::from_bits(0x3FEE_0000_0000_0000, 0);

    assert!(zero.sin().is_zero());
    assert_eq!(zero.cos(), F128::from(1));

    let s_pi2 = pi_2.sin();
    assert!((s_pi2 - F128::from(1)).abs() < epsilon);

    let c_pi = pi.cos();
    assert!((c_pi - F128::from(-1)).abs() < epsilon);
}

#[test]
fn trig_tan_values() {
    let zero = F128::zero();
    let pi_4 = F128::frac_pi_4();
    let epsilon = F128::from_bits(0x3FEE_0000_0000_0000, 0);

    assert!(zero.tan().is_zero());

    let t_pi4 = pi_4.tan();
    assert!((t_pi4 - F128::from(1)).abs() < epsilon);
}

#[test]
fn trig_pythagorean_identity_and_symmetry() {
    let pi = F128::pi();
    let eps = F128::from_bits(0x3FEE_0000_0000_0000, 0);

    let a = pi / F128::from(6);
    let b = pi / F128::from(4);
    let c = pi / F128::from(3);

    for &x in &[a, b, c] {
        let s = x.sin();
        let coss = x.cos();
        let lhs = s * s + coss * coss;
        assert!((lhs - F128::from(1)).abs() < eps);

        assert!(((-x).sin() + s).abs() < eps, "sin(-x) == -sin(x)");
        assert!(((-x).cos() - coss).abs() < eps, "cos(-x) == cos(x)");
        assert!(((-x).tan() + x.tan()).abs() < eps, "tan(-x) == -tan(x)");
    }
}

#[test]
fn trig_periodicity_and_shift_identities() {
    let pi = F128::pi();
    let two_pi = F128::two_pi();
    let eps = F128::from_bits(0x3FEE_0000_0000_0000, 0);

    let x = pi / F128::from(6);
    assert!(((x + two_pi).sin() - x.sin()).abs() < eps);
    assert!(((x + two_pi).cos() - x.cos()).abs() < eps);

    assert!(((x + pi).sin() + x.sin()).abs() < eps);
    assert!(((x + pi).cos() + x.cos()).abs() < eps);
}

#[test]
fn trig_addition_double_and_tan_identities() {
    let pi = F128::pi();
    let eps = F128::from_bits(0x3FEE_0000_0000_0000, 0);

    let a = pi / F128::from(6);
    let b = pi / F128::from(4);

    let sin_a = a.sin();
    let cos_a = a.cos();
    let sin_b = b.sin();
    let cos_b = b.cos();

    let lhs = (a + b).sin();
    let rhs = sin_a * cos_b + cos_a * sin_b;
    assert!((lhs - rhs).abs() < eps);

    let lhs = (a + b).cos();
    let rhs = cos_a * cos_b - sin_a * sin_b;
    assert!((lhs - rhs).abs() < eps);

    let lhs2 = (a + a).sin();
    let rhs2 = F128::from(2) * sin_a * cos_a;
    assert!((lhs2 - rhs2).abs() < eps);

    let tan_a = sin_a / cos_a;
    let tan_b = sin_b / cos_b;
    let lhs = (a + b).tan();
    let rhs = (tan_a + tan_b) / (F128::from(1) - tan_a * tan_b);
    assert!((lhs - rhs).abs() < eps);
}

#[test]
fn trig_tan_asymptote_small_angle_and_inverses() {
    let pi = F128::pi();
    let pi_2 = F128::frac_pi_2();
    let eps = F128::from_bits(0x3FEE_0000_0000_0000, 0);

    let cos_eps = F128::from_bits(0x3FEE_0000_0000_0000, 0);
    assert!(pi_2.cos().abs() < cos_eps);
    let t = pi_2.tan();
    assert!(t.is_infinite() || t.abs() > F128::from(1_000_000));

    let small = F128::from_bits(0x3F5A_2C0E_6FB3_7A6, 0);
    assert!((small.sin() - small).abs() < F128::from_bits(0x3FCB_0000_0000_0000, 0));
    let one_minus_cos = F128::from(1) - small.cos();
    let approx = small * small / F128::from(2);
    assert!((one_minus_cos - approx).abs() < F128::from_bits(0x3FCB_0000_0000_0000, 0));

    let x = pi / F128::from(6);
    let r = asin(x.sin());
    assert!((r - x).abs() < eps);

    let x2 = pi / F128::from(3);
    let r2 = acos(x2.cos());
    assert!((r2 - x2).abs() < eps);
}

#[test]
fn trig_asin_acos_values() {
    let zero = F128::zero();
    let one = F128::from(1);
    let neg_one = F128::from(-1);
    let epsilon = F128::from_bits(0x3FEE_0000_0000_0000, 0);

    assert!(asin(zero).is_zero());
    assert!(acos(one).is_zero());

    let as_1 = asin(one);
    assert!((as_1 - F128::frac_pi_2()).abs() < epsilon);

    let ac_neg1 = acos(neg_one);
    assert!((ac_neg1 - F128::pi()).abs() < epsilon);
}

#[test]
fn trig_domain_errors() {
    let two = F128::from(2);
    let inf = F128::infinity();
    let nan = F128::nan();

    assert!(asin(two).is_nan());
    assert!(acos(two).is_nan());

    assert!(inf.sin().is_nan());
    assert!(inf.cos().is_nan());

    assert!(nan.sin().is_nan());
    assert!(nan.cos().is_nan());
    assert!(nan.tan().is_nan());
    assert!(asin(nan).is_nan());
    assert!(acos(nan).is_nan());
}

#[test]
fn exp_and_logarithms() {
    let one = F128::from(1);
    assert_eq!(F128::zero().exp(), one);
    assert!(F128::nan().exp().is_nan());
    assert!(F128::from(20000).exp().is_infinite());
    assert!(F128::from(-20000).exp().is_zero());
    let e = one.exp();
    assert!((e - F128::e()).abs() < F128::from_bits(0x3FEE_0000_0000_0000, 0));
    assert!(one.ln().is_zero());
    assert!(F128::zero().ln().is_infinite() && F128::zero().ln().is_sign_negative());
    assert!(F128::neg_zero().ln().is_infinite() && F128::neg_zero().ln().is_sign_negative());
    assert!(F128::from(-1).ln().is_nan());
    assert!(F128::infinity().ln().is_infinite());
    let eight = F128::from(8);
    assert!((eight.log2() - F128::from(3)).abs() < F128::from_bits(0x3FEE_0000_0000_0000, 0));
    let thousand = F128::from(1000);
    assert!((thousand.log10() - F128::from(3)).abs() < F128::from_bits(0x3FEE_0000_0000_0000, 0));
    // A power that is not an integer goes through e^(y ln x).
    let root = F128::from(2).powf(F128::from_bits(0x3ffe_0000_0000_0000, 0));
    assert!((root * root - F128::from(2)).abs() < F128::from_bits(0x3FEE_0000_0000_0000, 0));
}

#[test]
fn reduction_of_large_arguments() {
    let (k, r) = F128::from(0).reduce_pi_2();
    assert_eq!((k, r.is_zero()), (0, true));
    let (k, r) = F128::infinity().reduce_pi_2();
    assert!(k == 0 && r.is_nan());
    let (k, _) = F128::pi().reduce_pi_2();
    assert_eq!(k, 2);
    // Above 2^61 the reduction works on the bits of 2/π.
    let big = F128::from_bits(0x4040_0000_0000_0000, 0);
    let (k, r) = big.reduce_pi_2();
    assert!((0..4).contains(&k));
    assert!(r.abs() < F128::frac_pi_2());
    assert!(big.sin().abs() <= F128::from(1));
    assert!(F128::from(1).ctg() > F128::from(0));
}

#[test]
fn sign_and_mantissa_digits() {
    assert!(F128::zero().is_sign_positive());
    assert!(F128::nan().is_sign_positive());
    assert!(F128::infinity().is_sign_positive());
    assert!(!F128::neg_zero().is_sign_positive());
    assert!(!F128::neg_infinity().is_sign_positive());
    assert_eq!(F128::from(1).mantissa_digits(), 113);
    assert_eq!(F128 { high: 0, low: 1 }.mantissa_digits(), 1);
    assert_eq!(F128 { high: 0x0000_8000_0000_0000, low: 0 }.mantissa_digits(), 112);
    assert_eq!(F128 { high: 0, low: 0x8000_0000_0000_0000 }.mantissa_digits(), 64);
}

#[test]
fn compose_undoes_decompose() {
    let values = [
        F128::zero(),
        F128::neg_zero(),
        F128::min_positive_subnormal(),
        F128::from_bits(0x0000_8000_0000_0000, 0),
        F128::from_bits(0x8000_0000_1234_5678, 0x9ABC_DEF0_0000_0001),
        F128::from_i64(-6),
        F128::from_u64(7) / F128::from_u64(3),
        F128::max_value(),
    ];
    for x in values {
        let (s, e, m) = x.decompose();
        assert_eq!(F128::compose(s, e, m).to_bits(), x.to_bits());
    }
}

#[test]
fn f64_bits_convert_exactly_into_f128() {
    let three_halves = F128::from_u64(3) / F128::from_u64(2);
    assert_eq!(F128::from_f64_bits(1.5f64.to_bits()).to_bits(), three_halves.to_bits());
    assert_eq!(F128::from_f64_bits((-0.0f64).to_bits()).to_bits(), F128::neg_zero().to_bits());
    assert!(F128::from_f64_bits(f64::NAN.to_bits()).is_nan());
    assert_eq!(F128::from_f64_bits(f64::NEG_INFINITY.to_bits()).to_bits(), F128::neg_infinity().to_bits());
    // The smallest subnormal f64 is 2^-1074.
    assert_eq!(F128::from_f64_bits(1).to_bits(), (0x3BCD_0000_0000_0000, 0));
    assert_eq!(F128::from_f32_bits(1).to_bits(), F128::from_f64_bits((2.0f64).powi(-149).to_bits()).to_bits());
    assert_eq!(F128::from_f32_bits(0.75f32.to_bits()).to_bits(), F128::from_f64_bits(0.75f64.to_bits()).to_bits());
}

#[test]
fn f128_rounds_to_nearest_f64_bits() {
    assert_eq!(F128::from_u64(3).to_f64_bits(), 3.0f64.to_bits());
    assert_eq!((F128::from_u64(7) / F128::from_u64(3)).to_f64_bits(), (7.0f64 / 3.0).to_bits());
    // Just below 2: rounding carries into the exponent.
    assert_eq!(F128::from_bits(0x3FFF_FFFF_FFFF_FFFF, 0xFFFF_FFFF_FFFF_FFFF).to_f64_bits(), 2.0f64.to_bits());
    // Subnormal results.
    assert_eq!(F128::from_bits(0x3BCD_0000_0000_0000, 0).to_f64_bits(), 1);
    assert_eq!(F128::from_bits(0x3C00_0000_0000_0000, 0).to_f64_bits(), 0x0008_0000_0000_0000);
    // Beyond the range of f64.
    assert_eq!(F128::max_value().to_f64_bits(), f64::INFINITY.to_bits());
    assert_eq!(F128::min_positive_subnormal().to_f64_bits(), 0);
    assert_eq!(F128::neg_zero().to_f64_bits(), (-0.0f64).to_bits());
    for v in [1.0f64, -2.5, 0.1, 1e300, -1e-300, 5e-324, f64::MAX, f64::MIN_POSITIVE, 123456.789] {
        assert_eq!(F128::from_f64_bits(v.to_bits()).to_f64_bits(), v.to_bits(), "{v}");
    }
}

#[test]
fn whole_exactly_when_truncation_keeps_the_value() {
    let values = [
        F128::from_u64(3),
        F128::from_u64(5) / F128::from_u64(2),
        F128::from_u64(1) / F128::from_u64(2),
        F128::neg_zero(),
        F128::from_i64(-7),
        F128::from_bits(0x4077_0000_0000_0000, 1),
        F128::from_bits(0x406E_0000_0000_0000, 1),
        F128::min_positive_subnormal(),
        F128::nan(),
    ];
    for x in values {
        assert_eq!(x.is_integer(), x.trunc() == x, "{:?}", x.to_bits());
    }
    assert!(!(F128::from_u64(5) / F128::from_u64(2)).is_integer());
    assert!(F128::from_bits(0x4077_0000_0000_0000, 1).is_integer());
    assert!(!F128::from_bits(0x406E_0000_0000_0000, 1).is_integer());
}
