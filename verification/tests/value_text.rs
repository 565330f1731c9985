use domain::models::typed_lines::FloatLiteral;
use domain::parse::{parse_value, value_to_string, Value};
use domain::schema::ValueType;

const INT_TEXTS: [&str; 16] = [
    "",
    "+",
    "-",
    "0",
    "-0",
    "+17",
    "42",
    "-42",
    "4x2",
    "9223372036854775807",
    "9223372036854775808",
    "-9223372036854775808",
    "-9223372036854775809",
    "99999999999999999999x",
    " 1",
    "+-1",
];

#[test]
fn reads_integers_as_std_does() {
    for s in INT_TEXTS {
        match s.parse::<i64>() {
            Ok(v) => assert_eq!(parse_value(s, ValueType::Int), Ok(Value::Int(v)), "{s:?}"),
            Err(e) => assert_eq!(parse_value(s, ValueType::Int), Err(e.to_string()), "{s:?}"),
        }
    }
}

#[test]
fn integer_errors_name_the_first_problem() {
    assert_eq!(
        parse_value("", ValueType::Int),
        Err("cannot parse integer from empty string".to_string())
    );
    assert_eq!(parse_value("12a", ValueType::Int), Err("invalid digit found in string".to_string()));
    assert_eq!(
        parse_value("9223372036854775808", ValueType::Int),
        Err("number too large to fit in target type".to_string())
    );
    assert_eq!(
        parse_value("-9223372036854775809", ValueType::Int),
        Err("number too small to fit in target type".to_string())
    );
}

#[test]
fn reads_floats_as_std_accepts_them() {
    for s in ["", "1", "1.5", "-0.25", "1e3", "inf", "NaN", ".5", "5.", "x", "1.2.3", "+", "e5"] {
        match s.parse::<f64>() {
            Ok(_) => assert_eq!(
                parse_value(s, ValueType::Float),
                Ok(Value::Float(FloatLiteral { text: s.to_string() })),
                "{s:?}"
            ),
            Err(e) => assert_eq!(parse_value(s, ValueType::Float), Err(e.to_string()), "{s:?}"),
        }
    }
}

#[test]
fn reads_booleans_and_strings() {
    assert_eq!(parse_value("true", ValueType::Bool), Ok(Value::Bool(true)));
    assert_eq!(parse_value("false", ValueType::Bool), Ok(Value::Bool(false)));
    let err = "True".parse::<bool>().unwrap_err().to_string();
    assert_eq!(parse_value("True", ValueType::Bool), Err(err));
    assert_eq!(parse_value(" any text ", ValueType::Str), Ok(Value::Str(" any text ".to_string())));
}

#[test]
fn prints_values_as_std_does() {
    for x in [0i64, 7, -7, 1234567890, i64::MAX, i64::MIN] {
        assert_eq!(value_to_string(&Value::Int(x)), x.to_string());
    }
    assert_eq!(value_to_string(&Value::Bool(true)), "true");
    assert_eq!(value_to_string(&Value::Bool(false)), "false");
    assert_eq!(value_to_string(&Value::Str("abc".to_string())), "abc");
    let lit = FloatLiteral { text: "2.50".to_string() };
    assert_eq!(value_to_string(&Value::Float(lit)), "2.50");
}

#[test]
fn printed_values_read_back() {
    for (v, ty) in [
        (Value::Int(-305), ValueType::Int),
        (Value::Int(i64::MIN), ValueType::Int),
        (Value::Bool(false), ValueType::Bool),
        (Value::Str("x y".to_string()), ValueType::Str),
        (Value::Float(FloatLiteral { text: "1e-3".to_string() }), ValueType::Float),
    ] {
        let text = value_to_string(&v);
        assert_eq!(parse_value(&text, ty), Ok(v));
    }
}
