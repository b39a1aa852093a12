use wundergraph::scalar::{WundergraphScalarValue, WundergraphScalarVisitor};

#[test]
fn small_values_land_in_the_small_kind() {
    let v = WundergraphScalarVisitor;
    assert_eq!(v.visit_i16(7), WundergraphScalarValue::SmallInt(7));
    assert_eq!(v.visit_i32(7), WundergraphScalarValue::SmallInt(7));
    assert_eq!(v.visit_i64(7), WundergraphScalarValue::SmallInt(7));
    assert_eq!(v.visit_u32(7), WundergraphScalarValue::SmallInt(7));
    assert_eq!(v.visit_u64(7), WundergraphScalarValue::SmallInt(7));
    assert_eq!(v.visit_i32(-32768), WundergraphScalarValue::SmallInt(-32768));
    assert_eq!(v.visit_i64(32767), WundergraphScalarValue::SmallInt(32767));
}

#[test]
fn mid_values_land_in_the_int_kind() {
    let v = WundergraphScalarVisitor;
    assert_eq!(v.visit_i32(32768), WundergraphScalarValue::Int(32768));
    assert_eq!(v.visit_i32(-32769), WundergraphScalarValue::Int(-32769));
    assert_eq!(v.visit_i64(70000), WundergraphScalarValue::Int(70000));
    assert_eq!(v.visit_u32(2_000_000_000), WundergraphScalarValue::Int(2_000_000_000));
}

#[test]
fn large_values_land_in_the_big_kind() {
    let v = WundergraphScalarVisitor;
    assert_eq!(v.visit_i64(1 << 40), WundergraphScalarValue::BigInt(1 << 40));
    assert_eq!(v.visit_u32(3_000_000_000), WundergraphScalarValue::BigInt(3_000_000_000));
    assert_eq!(
        v.visit_u64(i64::MAX as u64),
        WundergraphScalarValue::BigInt(i64::MAX)
    );
    assert_eq!(v.visit_i64(i64::MIN), WundergraphScalarValue::BigInt(i64::MIN));
}

#[test]
fn unsigned_overflow_falls_back_to_double() {
    let v = WundergraphScalarVisitor;
    for value in [
        u64::MAX,
        (i64::MAX as u64) + 1,
        (1u64 << 63) + 1024,
        (1u64 << 63) + 1025,
        (1u64 << 63) + 3072,
        u64::MAX - 1024,
    ] {
        let expected_bits = (value as f64).to_bits();
        assert_eq!(
            v.visit_u64(value),
            WundergraphScalarValue::Double(expected_bits),
            "bits for {}",
            value
        );
    }
}

#[test]
fn booleans_and_strings_keep_their_kind() {
    let v = WundergraphScalarVisitor;
    assert_eq!(v.visit_bool(true), WundergraphScalarValue::Boolean(true));
    assert_eq!(
        v.visit_str("hello"),
        WundergraphScalarValue::String(String::from("hello"))
    );
    assert_eq!(
        v.visit_string(String::from("abc")),
        WundergraphScalarValue::String(String::from("abc"))
    );
    assert_eq!(
        WundergraphScalarValue::from("xyz"),
        WundergraphScalarValue::String(String::from("xyz"))
    );
}

#[test]
fn float_kinds_keep_their_bit_patterns() {
    let v = WundergraphScalarVisitor;
    let f = 1.5f32;
    let d = 2.25f64;
    assert_eq!(v.visit_f32_bits(f.to_bits()), WundergraphScalarValue::Float(f.to_bits()));
    assert_eq!(v.visit_f64_bits(d.to_bits()), WundergraphScalarValue::Double(d.to_bits()));
}

#[test]
fn as_float_widens_integers_exactly_as_the_hardware_does() {
    for v in [
        0i64,
        1,
        -1,
        7,
        -32768,
        32767,
        65536,
        -1_000_000,
        (1i64 << 52) + 1,
        (1i64 << 53) + 1,
        (1i64 << 53) + 3,
        -((1i64 << 53) + 5),
        i64::MAX,
        i64::MIN,
        i64::MIN + 1,
    ] {
        let expected = (v as f64).to_bits();
        assert_eq!(
            WundergraphScalarValue::BigInt(v).as_float(),
            Some(expected),
            "bits for {}",
            v
        );
    }
    assert_eq!(
        WundergraphScalarValue::SmallInt(-7).as_float(),
        Some((-7.0f64).to_bits())
    );
    assert_eq!(
        WundergraphScalarValue::Int(123456).as_float(),
        Some((123456.0f64).to_bits())
    );
}

#[test]
fn as_float_widens_floats_exactly_as_the_hardware_does() {
    for f in [
        0.0f32,
        -0.0,
        1.5,
        -2.25,
        f32::MAX,
        f32::MIN_POSITIVE,
        f32::from_bits(1),
        f32::from_bits(0x0007_FFFF),
        f32::INFINITY,
        f32::NEG_INFINITY,
        3.141592f32,
    ] {
        let expected = (f as f64).to_bits();
        assert_eq!(
            WundergraphScalarValue::Float(f.to_bits()).as_float(),
            Some(expected),
            "bits for {}",
            f
        );
    }
    let d = 6.02e23f64;
    assert_eq!(
        WundergraphScalarValue::Double(d.to_bits()).as_float(),
        Some(d.to_bits())
    );
}

#[test]
fn as_float_is_numerically_equal_to_the_original() {
    let cases: Vec<(WundergraphScalarValue, f64)> = vec![
        (WundergraphScalarValue::SmallInt(-3), -3.0),
        (WundergraphScalarValue::Int(70000), 70000.0),
        (WundergraphScalarValue::BigInt(1 << 40), (1u64 << 40) as f64),
        (WundergraphScalarValue::Float(1.5f32.to_bits()), 1.5),
        (WundergraphScalarValue::Double(2.25f64.to_bits()), 2.25),
    ];
    for (value, expected) in cases {
        let bits = value.as_float().unwrap();
        assert_eq!(f64::from_bits(bits), expected);
    }
    assert_eq!(
        WundergraphScalarValue::String(String::from("1")).as_float(),
        None
    );
    assert_eq!(WundergraphScalarValue::Boolean(true).as_float(), None);
}

#[test]
fn as_int_covers_only_the_two_narrow_kinds() {
    assert_eq!(WundergraphScalarValue::SmallInt(-3).as_int(), Some(-3));
    assert_eq!(WundergraphScalarValue::Int(70000).as_int(), Some(70000));
    assert_eq!(WundergraphScalarValue::BigInt(5).as_int(), None);
    assert_eq!(WundergraphScalarValue::Double(0).as_int(), None);
    assert_eq!(WundergraphScalarValue::Boolean(true).as_int(), None);
    assert_eq!(WundergraphScalarValue::String(String::from("5")).as_int(), None);
}

#[test]
fn as_string_and_as_boolean_do_not_coerce() {
    assert_eq!(
        WundergraphScalarValue::String(String::from("a")).as_string(),
        Some(String::from("a"))
    );
    assert_eq!(WundergraphScalarValue::Int(1).as_string(), None);
    assert_eq!(WundergraphScalarValue::Boolean(false).as_boolean(), Some(false));
    assert_eq!(WundergraphScalarValue::Int(1).as_boolean(), None);
    assert_eq!(WundergraphScalarValue::String(String::from("true")).as_boolean(), None);
}
