use xepak::error::XepakError;
use xepak::float::{
    finite, less, nearest_bits, not_a_number, to_int, within, Float64, FloatToInt,
};
use xepak::text::{int_to_string, join2, join3, nat_to_string, parse_bool, parse_int};
use xepak::types::{XepakType, XepakValue};

fn float(v: f64) -> Float64 {
    Float64::new(v.to_bits(), v.to_string())
}

fn whole(v: f64) -> Option<i128> {
    match to_int(v.to_bits()) {
        FloatToInt::Whole(i) => Some(i),
        _ => None,
    }
}

#[test]
fn float_with_fraction_is_no_integer() {
    let err = XepakValue::Float(float(2.5)).as_int().unwrap_err();
    match &err {
        XepakError::ConvertValue(from, to, detail) => {
            assert_eq!(*from, XepakType::Float);
            assert_eq!(*to, XepakType::Int);
            assert_eq!(detail, "Has fractional part 2.5");
        }
        other => panic!("{other:?}"),
    }
    assert_eq!(
        err.to_string(),
        "Can't covert type from Float to Int: Has fractional part 2.5"
    );
    assert_eq!(XepakValue::Float(float(2.0)).as_int().unwrap(), 2);
}

#[test]
fn float_to_int_follows_the_policy() {
    assert_eq!(whole(0.0), Some(0));
    assert_eq!(whole(-0.0), Some(0));
    assert_eq!(whole(1.0), Some(1));
    assert_eq!(whole(-1.0), Some(-1));
    assert_eq!(whole(123456789.0), Some(123456789));
    assert_eq!(whole(-4503599627370496.0), Some(-4503599627370496));
    assert_eq!(whole(9007199254740992.0), Some(9007199254740992));
    assert_eq!(whole(9007199254740994.0), Some(9007199254740994));
    assert_eq!(whole(1e18), Some(1000000000000000000));
    assert_eq!(whole(9223372036854774784.0), Some(9223372036854774784));
    assert_eq!(whole(-9223372036854775808.0), Some(i64::MIN as i128));
    // fractions up to the machine epsilon are cut off
    assert_eq!(whole(1e-20), Some(0));
    assert_eq!(whole(-1e-20), Some(0));
    assert_eq!(whole(f64::EPSILON), Some(0));
    assert_eq!(whole(1.0 + f64::EPSILON), Some(1));
    assert_eq!(whole(f64::MIN_POSITIVE), Some(0));
    assert_eq!(whole(5e-324), Some(0));
    for v in [0.5, -0.5, 2.5, 1e-10, 1.5 * f64::EPSILON, 4503599627370495.5, 3.0000001] {
        assert!(matches!(to_int(v.to_bits()), FloatToInt::Fractional), "{v}");
    }
    for v in [
        9223372036854775808.0,
        1e19,
        -1e19,
        -9223372036854777856.0,
        f64::MAX,
        f64::MIN,
        f64::INFINITY,
        f64::NEG_INFINITY,
        f64::NAN,
    ] {
        assert!(matches!(to_int(v.to_bits()), FloatToInt::OutOfRange), "{v}");
    }
}

#[test]
fn float_to_int_agrees_with_truncation() {
    let mut v = 1.0f64;
    for _ in 0..62 {
        for w in [v, -v, v + 1.0, v - 1.0, v * 1.5] {
            if w.fract().abs() > f64::EPSILON {
                assert!(matches!(to_int(w.to_bits()), FloatToInt::Fractional), "{w}");
            } else {
                assert_eq!(whole(w), Some(w.trunc() as i128), "{w}");
            }
        }
        v *= 2.0;
    }
}

#[test]
fn floats_are_held_to_ranges_of_counts() {
    let values = [
        0.0,
        -0.0,
        0.9,
        1.0,
        1.9,
        2.0,
        2.5,
        4.0,
        4.000000000000001,
        4.9,
        -0.5,
        -2.5,
        1e10,
        1.8446744073709552e19,
        1e300,
        -1e300,
        5e-324,
        -5e-324,
        f64::INFINITY,
        f64::NEG_INFINITY,
        f64::NAN,
    ];
    for v in values {
        for (from, to) in [(0usize, 0usize), (0, 4), (2, 4), (1, 1), (0, usize::MAX), (5, 3)] {
            let expected = (from as f64) <= v
                && if to == usize::MAX { v < 18446744073709551616.0 } else { v <= to as f64 };
            assert_eq!(within(v.to_bits(), from, to), expected, "{from} <= {v} <= {to}");
        }
    }
}

#[test]
fn float_order_is_the_order_of_the_values() {
    let values = [
        f64::NEG_INFINITY,
        f64::MIN,
        -2.5,
        -1.0,
        -5e-324,
        -0.0,
        0.0,
        5e-324,
        1.0,
        2.5,
        f64::MAX,
        f64::INFINITY,
        f64::NAN,
    ];
    for a in values {
        for b in values {
            assert_eq!(less(a.to_bits(), b.to_bits()), a < b, "{a} < {b}");
        }
    }
    assert!(finite(1.0f64.to_bits()));
    assert!(!finite(f64::INFINITY.to_bits()));
    assert!(!finite(f64::NAN.to_bits()));
    assert!(not_a_number(f64::NAN.to_bits()));
    assert!(!not_a_number(f64::INFINITY.to_bits()));
}

#[test]
fn whole_numbers_become_the_nearest_float() {
    let mut cases: Vec<i128> = vec![
        0,
        1,
        -1,
        2,
        3,
        7,
        1000,
        -123456789,
        4503599627370495,
        4503599627370496,
        4503599627370497,
        9007199254740991,
        9007199254740992,
        -9007199254740992,
        9007199254740993,
        -9007199254740993,
        9007199254740994,
        9007199254740995,
        9007199254740996,
        9007199254740997,
        18014398509481983,
        18014398509481984,
        18014398509481985,
        18014398509481986,
        18014398509481987,
        i64::MAX as i128,
        i64::MIN as i128,
        u64::MAX as i128,
        1180591620717411303424,
        1180591620717411303425,
        i128::MAX,
        i128::MIN,
        i128::MAX - 1,
        i128::MIN + 1,
    ];
    for shift in 50..127 {
        let base = 1i128 << shift;
        for delta in [-3i128, -2, -1, 0, 1, 2, 3] {
            cases.push(base + delta);
            cases.push(-(base + delta));
            cases.push(base + (base >> 53) + delta);
            cases.push(base + (base >> 52) + (base >> 53) + delta);
            cases.push(base * 3 / 2 + delta);
        }
    }
    for i in cases {
        let (bits, whole) = nearest_bits(i);
        assert_eq!(bits, (i as f64).to_bits(), "{i}");
        assert_eq!(whole as f64, (i as f64).abs(), "{i}");
        let made = Float64::from_int(i);
        assert_eq!(made.bits(), (i as f64).to_bits());
        assert_eq!(made.text().parse::<f64>().unwrap().to_bits(), (i as f64).to_bits());
        if i.unsigned_abs() < 9007199254740992 {
            assert_eq!(made.text(), (i as f64).to_string());
            assert_eq!(made.text(), i.to_string());
        }
    }
    assert_eq!(Float64::from_int(9007199254740993).text(), "9007199254740992");
    assert_eq!(Float64::from_int(-9007199254740995).text(), "-9007199254740996");
    assert_eq!(Float64::from_int(i128::MIN).text(), "-170141183460469231731687303715884105728");
    assert_eq!(Float64::from_int(i128::MAX).text(), "170141183460469231731687303715884105728");
    let copy = float(2.5).copy();
    assert_eq!(copy.bits(), 2.5f64.to_bits());
    assert_eq!(copy.text(), "2.5");
}

#[test]
fn whole_numbers_are_written_in_decimal() {
    for n in [0u128, 1, 9, 10, 11, 99, 100, 12345678901234567890, u128::MAX] {
        assert_eq!(nat_to_string(n), n.to_string());
    }
    for i in [0i128, 1, -1, 10, -10, 42, i64::MIN as i128, i128::MAX, i128::MIN] {
        assert_eq!(int_to_string(i), i.to_string());
    }
    assert_eq!(join2("ab", "cd"), "abcd");
    assert_eq!(join3("a", "", "c"), "ac");
}

#[test]
fn whole_numbers_are_read_strictly() {
    for text in [
        "",
        "+",
        "-",
        "0",
        "-0",
        "+0",
        "007",
        "+5",
        "-5",
        "5-",
        "1 ",
        " 1",
        "12a",
        "1.0",
        "1e3",
        "--1",
        "+-1",
        "٣",
        "170141183460469231731687303715884105727",
        "170141183460469231731687303715884105728",
        "-170141183460469231731687303715884105728",
        "-170141183460469231731687303715884105729",
        "999999999999999999999999999999999999999999",
        "0000000000000000000000000000000000000000000001",
    ] {
        assert_eq!(parse_int(text), text.parse::<i128>().ok(), "{text:?}");
    }
}

#[test]
fn truth_values_are_read_strictly() {
    assert_eq!(parse_bool("true"), Some(true));
    assert_eq!(parse_bool("false"), Some(false));
    for text in ["", "True", "TRUE", "1", "0", "yes", " true", "true ", "falsee"] {
        assert_eq!(parse_bool(text), None, "{text:?}");
    }
}

#[test]
fn column_types_map_to_value_types() {
    assert_eq!(XepakType::from_column_type("NULL"), XepakType::Null);
    for name in ["INTEGER", "INT", "BIGINT"] {
        assert_eq!(XepakType::from_column_type(name), XepakType::Int);
    }
    for name in ["REAL", "DOUBLE"] {
        assert_eq!(XepakType::from_column_type(name), XepakType::Float);
    }
    for name in ["TEXT", "null", "integer", "Int", "BOOLEAN", "BLOB", "", "NUMERIC", "real"] {
        assert_eq!(XepakType::from_column_type(name), XepakType::Text);
    }
    assert_eq!(XepakType::default(), XepakType::Text);
    assert_eq!(XepakType::Int.as_str(), "Int");
    assert_eq!(XepakType::Boolean.as_str(), "Boolean");
    assert_eq!(XepakType::Float.as_str(), "Float");
    assert_eq!(XepakType::Null.as_str(), "Null");
    assert_eq!(XepakType::Text.as_str(), "Text");
}

#[test]
fn values_know_their_type() {
    assert_eq!(XepakValue::Null.get_type(), XepakType::Null);
    assert_eq!(XepakValue::Boolean(true).get_type(), XepakType::Boolean);
    assert_eq!(XepakValue::Integer(1).get_type(), XepakType::Int);
    assert_eq!(XepakValue::Float(float(1.5)).get_type(), XepakType::Float);
    assert_eq!(XepakValue::from_str("x").get_type(), XepakType::Text);
    assert!(XepakValue::Null.is_null());
    assert!(!XepakValue::Integer(0).is_null());
    assert!(matches!(XepakValue::from("a".to_string()), XepakValue::Text(t) if t == "a"));
    assert!(matches!(XepakValue::from(-7i128), XepakValue::Integer(-7)));
    assert!(matches!(XepakValue::from(float(0.5)), XepakValue::Float(f) if f.text() == "0.5"));
    assert!(matches!(XepakValue::from_str("a").copy(), XepakValue::Text(t) if t == "a"));
    assert!(matches!(XepakValue::Float(float(0.5)).copy(), XepakValue::Float(f) if f.bits() == 0.5f64.to_bits()));
}

#[test]
fn every_value_has_a_text() {
    assert_eq!(XepakValue::Null.as_string().unwrap(), "");
    assert_eq!(XepakValue::Boolean(true).as_string().unwrap(), "true");
    assert_eq!(XepakValue::Boolean(false).as_string().unwrap(), "false");
    assert_eq!(XepakValue::Integer(-42).as_string().unwrap(), "-42");
    assert_eq!(XepakValue::Float(float(2.5)).as_string().unwrap(), "2.5");
    assert_eq!(XepakValue::from_str("abc").as_string().unwrap(), "abc");
}

#[test]
fn values_as_integers() {
    assert_eq!(XepakValue::Boolean(true).as_int().unwrap(), 1);
    assert_eq!(XepakValue::Boolean(false).as_int().unwrap(), 0);
    assert_eq!(XepakValue::Integer(i128::MAX).as_int().unwrap(), i128::MAX);
    assert_eq!(XepakValue::from_str("-12").as_int().unwrap(), -12);
    assert!(matches!(
        XepakValue::Null.as_int(),
        Err(XepakError::ConvertValue(XepakType::Null, XepakType::Int, d)) if d == "Not possible"
    ));
    assert!(matches!(XepakValue::from_str("12x").as_int(), Err(XepakError::Decode(_))));
    assert!(matches!(
        XepakValue::Float(float(1e19)).as_int(),
        Err(XepakError::ConvertValue(XepakType::Float, XepakType::Int, d)) if d == "Out of range 10000000000000000000"
    ));
    assert!(matches!(
        XepakValue::Float(float(f64::NAN)).as_int(),
        Err(XepakError::ConvertValue(XepakType::Float, XepakType::Int, d)) if d == "Out of range NaN"
    ));
}

#[test]
fn values_as_truth_values() {
    assert!(XepakValue::Boolean(true).as_bool().unwrap());
    assert!(!XepakValue::Integer(0).as_bool().unwrap());
    assert!(XepakValue::Integer(1).as_bool().unwrap());
    assert!(!XepakValue::Float(float(0.0)).as_bool().unwrap());
    assert!(!XepakValue::Float(float(-0.0)).as_bool().unwrap());
    assert!(XepakValue::Float(float(1.0)).as_bool().unwrap());
    assert!(XepakValue::from_str("true").as_bool().unwrap());
    assert!(!XepakValue::from_str("false").as_bool().unwrap());
    assert!(matches!(
        XepakValue::Integer(2).as_bool(),
        Err(XepakError::ConvertValue(XepakType::Int, XepakType::Boolean, d)) if d == "Integer value 2 can't be a boolean"
    ));
    assert!(matches!(
        XepakValue::Integer(-1).as_bool(),
        Err(XepakError::ConvertValue(XepakType::Int, XepakType::Boolean, _))
    ));
    assert!(matches!(
        XepakValue::Float(float(0.5)).as_bool(),
        Err(XepakError::ConvertValue(XepakType::Float, XepakType::Boolean, d)) if d == "Float value 0.5 can't be a boolean"
    ));
    assert!(matches!(
        XepakValue::Float(float(-1.0)).as_bool(),
        Err(XepakError::ConvertValue(XepakType::Float, XepakType::Boolean, _))
    ));
    assert!(matches!(
        XepakValue::Null.as_bool(),
        Err(XepakError::ConvertValue(XepakType::Null, XepakType::Boolean, _))
    ));
    assert!(matches!(XepakValue::from_str("1").as_bool(), Err(XepakError::Decode(_))));
}

#[test]
fn values_as_floats() {
    let one = XepakValue::Boolean(true).as_float(None).unwrap();
    assert_eq!((one.bits(), one.text()), (1.0f64.to_bits(), "1"));
    let zero = XepakValue::Boolean(false).as_float(None).unwrap();
    assert_eq!((zero.bits(), zero.text()), (0.0f64.to_bits(), "0"));
    let seven = XepakValue::Integer(-7).as_float(None).unwrap();
    assert_eq!((seven.bits(), seven.text()), ((-7.0f64).to_bits(), "-7"));
    let same = XepakValue::Float(float(2.5)).as_float(None).unwrap();
    assert_eq!((same.bits(), same.text()), (2.5f64.to_bits(), "2.5"));
    let read = XepakValue::from_str("2.5e0").as_float(Some(float(2.5))).unwrap();
    assert_eq!((read.bits(), read.text()), (2.5f64.to_bits(), "2.5"));
    assert!(matches!(XepakValue::from_str("x").as_float(None), Err(XepakError::Decode(_))));
    assert!(matches!(
        XepakValue::Null.as_float(None),
        Err(XepakError::ConvertValue(XepakType::Null, XepakType::Float, _))
    ));
    let rounded = XepakValue::Integer(9007199254740993).as_float(None).unwrap();
    assert_eq!(rounded.bits(), 9007199254740992.0f64.to_bits());
}

#[test]
fn texts_are_read_as_the_type_asked_for() {
    assert!(matches!(XepakValue::from_str_as("x", XepakType::Null, None), Ok(XepakValue::Null)));
    assert!(matches!(
        XepakValue::from_str_as("true", XepakType::Boolean, None),
        Ok(XepakValue::Boolean(true))
    ));
    assert!(matches!(
        XepakValue::from_str_as("yes", XepakType::Boolean, None),
        Err(XepakError::Decode(_))
    ));
    assert!(matches!(
        XepakValue::from_str_as("-15", XepakType::Int, None),
        Ok(XepakValue::Integer(-15))
    ));
    assert!(matches!(
        XepakValue::from_str_as("1.5", XepakType::Int, None),
        Err(XepakError::Decode(_))
    ));
    assert!(matches!(
        XepakValue::from_str_as("1.5", XepakType::Float, Some(float(1.5))),
        Ok(XepakValue::Float(f)) if f.bits() == 1.5f64.to_bits()
    ));
    assert!(matches!(
        XepakValue::from_str_as("abc", XepakType::Float, None),
        Err(XepakError::Decode(_))
    ));
    assert!(matches!(
        XepakValue::from_str_as("abc", XepakType::Text, None),
        Ok(XepakValue::Text(t)) if t == "abc"
    ));
}

#[test]
fn errors_in_words() {
    assert_eq!(XepakError::Cfg("x".into()).to_string(), "Config error: x");
    assert_eq!(XepakError::Io("x".into()).to_string(), "IO error: x");
    assert_eq!(XepakError::Input("x".into()).to_string(), "Input error: x");
    assert_eq!(XepakError::NotFound("x".into()).to_string(), "Record not found: x");
    assert_eq!(XepakError::Forbidden("x".into()).to_string(), "x");
    assert_eq!(XepakError::WeScrewed("x".into()).to_string(), "x");
    assert_eq!(XepakError::Convert("x".into()).to_string(), "Can't covert: x");
    assert_eq!(XepakError::Decode("x".into()).to_string(), "Decode error: x");
    assert_eq!(XepakError::ScriptParse("x".into()).to_string(), "Script parse error: x");
    assert_eq!(XepakError::Script("x".into()).to_string(), "Script execution error: x");
    assert_eq!(XepakError::NotConsistent("x".into()).to_string(), "Inconsistency found: x");
    assert_eq!(XepakError::Unexpected("x".into()).to_string(), "Unexpected: x");
    assert_eq!(XepakError::other("x".into()).to_string(), "Other error: x");
    assert_eq!(
        XepakError::ConvertValue(XepakType::Text, XepakType::Boolean, "x".into()).to_string(),
        "Can't covert type from Text to Boolean: x"
    );
    for expected in [
        XepakError::Input("x".into()),
        XepakError::NotFound("x".into()),
        XepakError::Decode("x".into()),
        XepakError::WeScrewed("x".into()),
        XepakError::Forbidden("x".into()),
    ] {
        assert!(expected.is_expectable());
    }
    for other in [
        XepakError::Cfg("x".into()),
        XepakError::Io("x".into()),
        XepakError::Unexpected("x".into()),
        XepakError::Convert("x".into()),
        XepakError::NotConsistent("x".into()),
    ] {
        assert!(!other.is_expectable());
    }
}
