use obscura::double::to_unsigned;
use obscura::reply::nid_from_value;
use obscura::Reply;
use serde_json::{Number, Value};

fn float(x: f64) -> Value {
    Value::Number(Number::from_f64(x).unwrap())
}

fn cast(x: f64) -> Option<u64> {
    Some(x).filter(|f| f.is_finite() && *f >= 0.0).map(|f| f as u64)
}

#[test]
fn values_are_read_by_kind() {
    assert!(matches!(Reply::from_value(&Value::Null), Reply::Null));
    assert!(matches!(Reply::from_value(&Value::Bool(true)), Reply::Bool(true)));
    assert!(matches!(Reply::from_value(&Value::Bool(false)), Reply::Bool(false)));
    assert!(matches!(Reply::from_value(&Value::from(7u64)), Reply::Unsigned(7)));
    match Reply::from_value(&Value::from(-7i64)) {
        Reply::Float(bits) => assert_eq!(bits, (-7.0f64).to_bits()),
        _ => panic!("a negative integer reads as a float"),
    }
    match Reply::from_value(&float(2.5)) {
        Reply::Float(bits) => assert_eq!(bits, 2.5f64.to_bits()),
        _ => panic!("a float reads as a float"),
    }
    match Reply::from_value(&Value::String("x".to_string())) {
        Reply::Text(s) => assert_eq!(s, "x"),
        _ => panic!("a string reads as text"),
    }
    assert!(matches!(Reply::from_value(&Value::Array(vec![Value::Null])), Reply::Compound));
    assert!(matches!(Reply::from_value(&Value::Object(Default::default())), Reply::Compound));
}

#[test]
fn node_ids_come_as_integers_or_floats() {
    assert_eq!(nid_from_value(&Value::from(42u64)), Some(42));
    assert_eq!(nid_from_value(&Value::from(u64::MAX)), Some(u64::MAX));
    assert_eq!(nid_from_value(&float(42.0)), Some(42));
    assert_eq!(nid_from_value(&float(0.0)), Some(0));
    assert_eq!(nid_from_value(&float(-0.0)), Some(0));
    assert_eq!(nid_from_value(&float(3.99)), Some(3));
    assert_eq!(nid_from_value(&float(1e300)), Some(u64::MAX));
}

#[test]
fn nothing_else_is_a_node_id() {
    assert_eq!(nid_from_value(&Value::Null), None);
    assert_eq!(nid_from_value(&Value::Bool(true)), None);
    assert_eq!(nid_from_value(&Value::String("42".to_string())), None);
    assert_eq!(nid_from_value(&Value::Array(vec![Value::from(1u64)])), None);
    assert_eq!(nid_from_value(&Value::Object(Default::default())), None);
    assert_eq!(nid_from_value(&Value::from(-1i64)), None);
    assert_eq!(nid_from_value(&Value::from(i64::MIN)), None);
    assert_eq!(nid_from_value(&float(-0.5)), None);
}

#[test]
fn bit_patterns_are_cast_as_floats_are() {
    let mut patterns: Vec<u64> = vec![
        0,
        1,
        1 << 63,
        (1 << 63) + 1,
        f64::NAN.to_bits(),
        f64::INFINITY.to_bits(),
        f64::NEG_INFINITY.to_bits(),
        f64::MAX.to_bits(),
        f64::MIN_POSITIVE.to_bits(),
        0.999_999_999f64.to_bits(),
        1.0f64.to_bits(),
        9_007_199_254_740_991.0f64.to_bits(),
        9_007_199_254_740_993.0f64.to_bits(),
        18_446_744_073_709_549_568.0f64.to_bits(),
        18_446_744_073_709_551_616.0f64.to_bits(),
    ];
    for exponent in 0u64..2048 {
        for fraction in [0u64, 1, 0x8_0000_0000_0000, 0xf_ffff_ffff_ffff, 0x5_5555_5555_5555] {
            patterns.push((exponent << 52) | fraction);
            patterns.push((1 << 63) | (exponent << 52) | fraction);
        }
    }
    for bits in patterns {
        assert_eq!(to_unsigned(bits), cast(f64::from_bits(bits)));
    }
}

#[test]
fn whole_numbers_below_two_to_the_53_are_read_back() {
    let mut n: u64 = 1;
    while n < 1 << 53 {
        assert_eq!(to_unsigned((n as f64).to_bits()), Some(n));
        assert_eq!(Reply::Float((n as f64).to_bits()).nid(), Reply::Unsigned(n).nid());
        n = n * 3 + 1;
    }
    assert_eq!(to_unsigned((9_007_199_254_740_992.0f64).to_bits()), Some(1 << 53));
}

#[test]
fn texts_and_flags_are_read() {
    assert_eq!(Reply::Text("abc".to_string()).text(), "abc");
    assert_eq!(Reply::Null.text(), "");
    assert_eq!(Reply::Unsigned(1).text(), "");
    assert!(Reply::Bool(true).is_true());
    assert!(!Reply::Bool(false).is_true());
    assert!(!Reply::Unsigned(1).is_true());
    assert!(!Reply::Text("true".to_string()).is_true());
    assert!(Reply::Null.is_null());
    assert!(!Reply::Compound.is_null());
}
