use domain::literal::{parse_string_literal, string_lit};
use domain::text::{is_float_literal_str, parse_i64, str_less};

#[test]
fn parses_i64_like_std() {
    for s in ["0", "42", "-7", "+15", "9223372036854775807", "-9223372036854775808", "007"] {
        assert_eq!(parse_i64(s), s.parse::<i64>().ok(), "{s}");
    }
    for s in ["", "+", "-", "1.0", " 1", "9223372036854775808", "-9223372036854775809", "1a", "--1"] {
        assert_eq!(parse_i64(s), None, "{s}");
        assert!(s.parse::<i64>().is_err(), "{s}");
    }
}

#[test]
fn recognizes_f64_literals_like_std() {
    let cases = [
        "1", "1.", ".5", "1.5", "-2.5e10", "+3E-2", "inf", "-Infinity", "NaN", "nan", "1e", "e5",
        ".", "", "+", "1.2.3", "0x10", " 1", "1 ", "infinit", "1e+", "1e+5", "12.5e0", "-.5",
        "INF", "1_000",
    ];
    for s in cases {
        assert_eq!(is_float_literal_str(s), s.parse::<f64>().is_ok(), "{s:?}");
    }
}

#[test]
fn orders_strings_like_str() {
    let cases = [("a", "b"), ("ab", "a"), ("", "a"), ("Button", "Container"), ("é", "z"), ("a", "a")];
    for (a, b) in cases {
        assert_eq!(str_less(a, b), a < b, "{a} {b}");
        assert_eq!(str_less(b, a), b < a, "{b} {a}");
    }
}

#[test]
fn reads_string_literals() {
    assert_eq!(parse_string_literal("  \"Container\"  "), Some("Container".to_string()));
    assert_eq!(parse_string_literal("\"a\\\"b\\n\\t\\\\c\\x\""), Some("a\"b\n\t\\c\\x".to_string()));
    assert_eq!(parse_string_literal("\"\""), Some(String::new()));
    assert_eq!(parse_string_literal("length"), None);
    assert_eq!(parse_string_literal("\"open"), None);
}

#[test]
fn string_lit_round_trips_through_parse() {
    for s in ["px", "a\"b", "tab\there", "back\\slash", "line\nbreak"] {
        let lit = string_lit(s);
        assert_eq!(lit, format!("{:?}", s));
        assert_eq!(parse_string_literal(&lit), Some(s.to_string()));
    }
}

#[test]
fn escaped_text_between_quotes_reads_back() {
    for s in ["", "plain", "q\"uote", "\\\\", "cr\rlf\n", " lead and trail ", "\\n", "it's ~{}"] {
        let mut quoted = String::from("\"");
        for c in s.chars() {
            match c {
                '"' => quoted.push_str("\\\""),
                '\\' => quoted.push_str("\\\\"),
                '\n' => quoted.push_str("\\n"),
                '\r' => quoted.push_str("\\r"),
                '\t' => quoted.push_str("\\t"),
                other => quoted.push(other),
            }
        }
        quoted.push('"');
        assert_eq!(parse_string_literal(&quoted), Some(s.to_string()));
        assert_eq!(string_lit(s), quoted);
    }
}
