//! Numbers: their formats, their texts and the elements of typed arrays.
use lumen::bigint::JsBigInt;
use lumen::literal::{
    is_decimal_literal, js_mod, num_to_str, parse_number, parse_place, place_point,
    private_display, significant_digits, string_own_key, string_to_bigint, trim, NumberText,
};
use lumen::number::{
    from_int, is_truthy, low_word, negate, relate, same_number, to_count, to_int32, Relation,
};
use lumen::value::typed::TaKind;
use lumen::value::width::{f16_to_f32, f32_to_f64, f64_to_f16, f64_to_f32, nearest_quotient};

const SAMPLES: [f64; 22] = [
    0.0,
    -0.0,
    1.0,
    -1.0,
    0.5,
    1.5,
    2.5,
    3.999999,
    -2147483649.0,
    4294967296.0,
    9007199254740993.0,
    1e300,
    -1e300,
    5e-324,
    65504.0,
    65519.0,
    65520.0,
    f64::MAX,
    f64::MIN_POSITIVE,
    f64::INFINITY,
    f64::NEG_INFINITY,
    f64::NAN,
];

fn js_int32(x: f64) -> i32 {
    if !x.is_finite() {
        return 0;
    }
    (x.trunc().rem_euclid(4294967296.0) as u64) as u32 as i32
}

#[test]
fn numbers_compare_as_floats() {
    for a in SAMPLES {
        for b in SAMPLES {
            let want = if a < b {
                Relation::Less
            } else if a > b {
                Relation::Greater
            } else if a == b {
                Relation::Equal
            } else {
                Relation::Unordered
            };
            assert_eq!(relate(a.to_bits(), b.to_bits()), want, "{a} {b}");
            assert_eq!(same_number(a.to_bits(), b.to_bits()), a == b, "{a} {b}");
        }
        assert_eq!(is_truthy(a.to_bits()), a != 0.0 && !a.is_nan());
        assert_eq!(to_int32(a.to_bits()), js_int32(a), "{a}");
        if !a.is_nan() {
            assert_eq!(negate(a.to_bits()), (-a).to_bits());
        }
    }
}

#[test]
fn integers_become_numbers_and_back() {
    for n in [0i64, 1, -1, 255, -4096, 2147483647, 9007199254740991, -9007199254740991] {
        assert_eq!(from_int(n), (n as f64).to_bits(), "{n}");
    }
    assert_eq!(to_int32(from_int(-7)), -7);
    assert_eq!(to_count(3.7f64.to_bits()), 3);
    assert_eq!(to_count((-1.0f64).to_bits()), 0);
    assert_eq!(low_word((-1.0f64).to_bits()), 4294967295);
    assert_eq!(low_word(18446744073709551616.0f64.to_bits()), 0);
}

#[test]
fn narrow_formats_round_to_even() {
    assert_eq!(f64_to_f16(65504.0f64.to_bits()), 0x7bff);
    assert_eq!(f64_to_f16(65519.0f64.to_bits()), 0x7bff);
    assert_eq!(f64_to_f16(65520.0f64.to_bits()), 0x7c00);
    assert_eq!(f64_to_f16(5.960464477539063e-8f64.to_bits()), 1);
    assert_eq!(f64_to_f16(2.0f64.powi(-25).to_bits()), 0);
    assert_eq!(f64_to_f16((-0.0f64).to_bits()), 0x8000);
    assert_eq!(f64_to_f16(1.00048828125f64.to_bits()), 0x3c00);
    for x in SAMPLES {
        if !x.is_nan() {
            assert_eq!(f64_to_f32(x.to_bits()), (x as f32).to_bits(), "{x}");
            assert_eq!(f32_to_f64((x as f32).to_bits()), (x as f32 as f64).to_bits(), "{x}");
        }
    }
    assert_eq!(f16_to_f32(0x3c01), 1.0009765625f32.to_bits());
    assert_eq!(nearest_quotient(5, 2), 2);
    assert_eq!(nearest_quotient(7, 2), 4);
}

#[test]
fn widening_a_half_reads_back() {
    for h in 0..=u16::MAX {
        let wide = f32_to_f64(f16_to_f32(h));
        if !f64::from_bits(wide).is_nan() {
            assert_eq!(f64_to_f16(wide), h);
        }
    }
}

#[test]
fn elements_of_typed_arrays() {
    let bits = |x: f64| x.to_bits();
    assert_eq!(TaKind::U8.write(bits(300.0)), vec![44]);
    assert_eq!(TaKind::I8.write(bits(-1.0)), vec![255]);
    assert_eq!(TaKind::U8Clamped.write(bits(300.0)), vec![255]);
    assert_eq!(TaKind::U8Clamped.write(bits(-5.0)), vec![0]);
    assert_eq!(TaKind::U8Clamped.write(bits(2.5)), vec![2]);
    assert_eq!(TaKind::U8Clamped.write(bits(3.5)), vec![4]);
    assert_eq!(TaKind::U16.write(bits(65537.0)), vec![1, 0]);
    assert_eq!(TaKind::I32.write(bits(-2.0)), vec![254, 255, 255, 255]);
    assert_eq!(TaKind::F64.write(bits(1.0)), 1.0f64.to_le_bytes().to_vec());
    assert_eq!(TaKind::F32.write(bits(1.5)), 1.5f32.to_le_bytes().to_vec());
    assert_eq!(TaKind::F16.write(bits(1.0)), vec![0, 0x3c]);
    assert_eq!(TaKind::U32.write(bits(f64::NAN)), vec![0, 0, 0, 0]);
    assert_eq!(TaKind::I8.read(&[0x80]), bits(-128.0));
    assert_eq!(TaKind::U16.read(&[1, 2]), bits(513.0));
    assert_eq!(TaKind::U32.read(&[255, 255, 255, 255]), bits(4294967295.0));
    for kind in [TaKind::I8, TaKind::I16, TaKind::I32, TaKind::F16, TaKind::F32, TaKind::F64] {
        assert_eq!(kind.read(&kind.write(bits(-100.0))), bits(-100.0));
    }
}

#[test]
fn big_elements_wrap() {
    assert_eq!(TaKind::I64.write_bigint(-1), vec![255; 8]);
    assert_eq!(TaKind::U64.read_bigint(&[255; 8]), u64::MAX as i128);
    assert_eq!(TaKind::I64.read_bigint(&[255; 8]), -1);
    assert_eq!(TaKind::U64.write_bigint(1 << 64), vec![0; 8]);
    let high = [0, 0, 0, 0, 0, 0, 0, 128];
    assert_eq!(TaKind::U64.write(9223372036854775808f64.to_bits()), high);
    assert_eq!(TaKind::I64.write((-9223372036854775808f64).to_bits()), high);
    assert_eq!(TaKind::U64.write(18446744073709551616f64.to_bits()), vec![0; 8]);
    assert_eq!(TaKind::I64.write((-1.5f64).to_bits()), vec![255; 8]);
    assert_eq!(TaKind::I64.write(f64::INFINITY.to_bits()), vec![0; 8]);
    assert!(TaKind::U64.is_bigint() && !TaKind::U32.is_bigint());
    assert_eq!(TaKind::F16.elsize(), 2);
    assert_eq!(TaKind::U8Clamped.name(), "Uint8ClampedArray");
}

#[test]
fn texts_of_numbers() {
    let show = |x: f64| {
        let sci = format!("{x:e}").replace('-', "");
        let (mantissa, _) = sci.split_once('e').unwrap();
        let exp: i64 = format!("{x:e}").split_once('e').unwrap().1.parse().unwrap();
        num_to_str(x.to_bits(), &significant_digits(mantissa), exp + 1)
    };
    assert_eq!(show(0.5), "0.5");
    assert_eq!(show(123456789.0), "123456789");
    assert_eq!(show(1e21), "1e+21");
    assert_eq!(show(123e-20), "1.23e-18");
    assert_eq!(show(1e-6), "0.000001");
    assert_eq!(show(1e-7), "1e-7");
    assert_eq!(show(-1.25), "-1.25");
    assert_eq!(show(1e20), "100000000000000000000");
    assert_eq!(num_to_str(f64::NAN.to_bits(), "0", 1), "NaN");
    assert_eq!(num_to_str(f64::NEG_INFINITY.to_bits(), "0", 1), "-Infinity");
    assert_eq!(num_to_str((-0.0f64).to_bits(), "0", 1), "0");
    assert_eq!(place_point("15", 1), "1.5");
}

#[test]
fn numbers_of_texts() {
    let known = |s: &str| match parse_number(s) {
        NumberText::Known(n) => Some(f64::from_bits(n)),
        _ => None,
    };
    assert_eq!(known("  \n"), Some(0.0));
    assert_eq!(known("Infinity"), Some(f64::INFINITY));
    assert_eq!(known(" -Infinity "), Some(f64::NEG_INFINITY));
    assert!(known("infinity").unwrap().is_nan());
    assert!(known("1_000").unwrap().is_nan());
    assert!(matches!(parse_number("0x1F"), NumberText::Radix(16, d) if d == "1F"));
    assert!(matches!(parse_number("0b101"), NumberText::Radix(2, d) if d == "101"));
    assert!(matches!(parse_number(" 1.5e3 "), NumberText::Decimal(d) if d == "1.5e3"));
    for good in ["1", "1.", ".5", "1e5", "1E-5", "+1.5e+3", "-0"] {
        assert!(is_decimal_literal(good), "{good}");
    }
    for bad in ["", ".", "e5", "1e", "1.5.2", "0x10", "1e+", "--1"] {
        assert!(!is_decimal_literal(bad), "{bad}");
    }
    assert_eq!(trim("\u{a0} x \t", false), "x");
    assert_eq!(trim("\u{feff}x", true), "x");
}

#[test]
fn remainders_that_need_no_division() {
    let at = |a: f64, b: f64| js_mod(a.to_bits(), b.to_bits()).map(f64::from_bits);
    assert!(at(f64::INFINITY, 2.0).unwrap().is_nan());
    assert!(at(1.0, 0.0).unwrap().is_nan());
    assert_eq!(at(5.0, f64::INFINITY), Some(5.0));
    assert_eq!(at(-0.0, 3.0).map(f64::to_bits), Some((-0.0f64).to_bits()));
    assert_eq!(at(5.0, 3.0), None);
}

#[test]
fn big_integers_of_texts() {
    let text = |s: &str| string_to_bigint(s).map(|b| b.to_string_radix(10));
    assert_eq!(text(" 12345678901234567890123 ").as_deref(), Some("12345678901234567890123"));
    assert_eq!(text("0xff").as_deref(), Some("255"));
    assert_eq!(text("").as_deref(), Some("0"));
    assert_eq!(text("-5").as_deref(), Some("-5"));
    assert_eq!(text("1.5"), None);
    assert_eq!(text("-0x1"), None);
    let big = JsBigInt::parse_radix("ffffffffffffffffff", 16).unwrap();
    assert_eq!(big.to_string_radix(16), "ffffffffffffffffff");
    assert_eq!(big.to_string_radix(2).len(), 72);
    assert!(JsBigInt::from_i64(-3).is_negative());
    assert_eq!(JsBigInt::from_i64(i64::MIN).to_string_radix(10), "-9223372036854775808");
    assert!(JsBigInt::zero().neg().is_zero());
    assert_eq!(big.bigint_as_i64(), -1);
    assert_eq!(JsBigInt::from_i64(-3).bigint_as_i64(), -3);
    assert_eq!(JsBigInt::from_u64(1 << 63).bigint_as_i64(), i64::MIN);
    assert_eq!(JsBigInt::zero().bigint_as_i64(), 0);
    assert_eq!(JsBigInt::parse_dec("18446744073709551617").unwrap().neg().bigint_as_i64(), -1);
    assert!(JsBigInt::parse_radix("12", 2).is_none());
}

#[test]
fn keys_of_strings() {
    assert_eq!(parse_place("12"), Some(12));
    assert_eq!(parse_place("x"), None);
    assert!(string_own_key(3, "length"));
    assert!(string_own_key(3, "2"));
    assert!(!string_own_key(3, "3"));
    assert!(!string_own_key(3, "name"));
    assert!(!string_own_key(3, "+1"));
    assert!(!string_own_key(3, "01"));
    assert_eq!(private_display("#secret"), "#secret");
}
