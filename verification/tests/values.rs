use jazzlight::vm::api::val_as_int;
use jazzlight::vm::hash::{hash_bytes, hash_int, hash_str};
use jazzlight::vm::value::{Function, ValTag, Value};

#[test]
fn val_as_int_takes_integers_as_they_are() {
    assert_eq!(val_as_int(&Value::Int(-7)), -7);
    assert_eq!(val_as_int(&Value::Int(i64::MAX)), i64::MAX);
}

#[test]
fn val_as_int_truncates_floats_like_as() {
    let samples = [
        0.0f64,
        -0.0,
        0.5,
        -0.5,
        1.0,
        3.7,
        -2.5,
        123456789.99,
        -987654321.5,
        4503599627370497.0,
        9007199254740993.0,
        1e18,
        -1e18,
        9.223372036854776e18,
        -9.223372036854776e18,
        1e300,
        -1e300,
        5e-324,
        f64::MIN_POSITIVE,
        f64::INFINITY,
        f64::NEG_INFINITY,
        f64::NAN,
        f64::MAX,
        f64::MIN,
    ];
    for x in samples {
        assert_eq!(val_as_int(&Value::Float(x.to_bits())), x as i64, "{}", x);
    }
    assert_eq!(val_as_int(&Value::Float(3.7f64.to_bits())), 3);
    assert_eq!(val_as_int(&Value::Float((-2.5f64).to_bits())), -2);
    assert_eq!(val_as_int(&Value::Float(f64::NAN.to_bits())), 0);
    assert_eq!(val_as_int(&Value::Float(1e300f64.to_bits())), i64::MAX);
}

#[test]
fn hash_is_fnv1a_over_bytes() {
    assert_eq!(hash_str(""), 0xcbf29ce484222325);
    assert_eq!(hash_str("a"), 0xaf63dc4c8601ec8c);
    assert_eq!(hash_str("hello"), 0xa430d84680aabd0b);
    assert_eq!(hash_bytes(&[0xff]), 0xaf64724c8602eb6e);
    assert_eq!(hash_bytes(&[0x80, 0x01]), 0x09e58707b65d02ba);
    assert_eq!(hash_str("é"), 0x0ac21707b7181e01);
    assert_eq!(hash_int(1), 0x89cd31291d2aefa4);
}

#[test]
fn tags_name_each_kind() {
    assert_eq!(Value::Null.tag(), ValTag::Null);
    assert_eq!(Value::Bool(true).tag(), ValTag::Bool);
    assert_eq!(Value::Int(1).tag(), ValTag::Int);
    assert_eq!(Value::Float(0).tag(), ValTag::Float);
    assert_eq!(Value::String("s".to_string()).tag(), ValTag::Str);
    assert_eq!(
        Value::Function(Function { native: false, address: 0, argc: 0 }).tag(),
        ValTag::Func
    );
    assert_eq!(Value::Char('c').tag(), ValTag::Char);
}

#[test]
fn to_bool_follows_the_original_truth_rules() {
    assert!(!Value::Null.to_bool());
    assert!(!Value::Bool(false).to_bool());
    assert!(Value::Bool(true).to_bool());
    assert!(!Value::Int(0).to_bool());
    assert!(Value::Int(-3).to_bool());
    for x in [0.0f64, -0.0, 1.0, -2.5, f64::NAN, f64::INFINITY, 5e-324] {
        assert_eq!(Value::Float(x.to_bits()).to_bool(), x != 0.0, "{}", x);
    }
    assert!(Value::String(String::new()).to_bool());
    assert!(Value::Char('a').to_bool());
}

#[test]
fn to_int_takes_numbers_only() {
    assert_eq!(Value::Int(12).to_int(), Some(12));
    assert_eq!(Value::Float((-7.9f64).to_bits()).to_int(), Some(-7));
    assert_eq!(Value::Null.to_int(), None);
    assert_eq!(Value::Bool(true).to_int(), None);
}
