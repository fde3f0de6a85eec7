//! The two serialization backends on dynamic field values: round trips and
//! the exact wire forms.

use choices::json_codec::{json_decode, json_encode};
use choices::text_codec::{text_decode, text_encode};
use choices::value::{FieldValue, ScalarType, ScalarValue, ValueType};

fn scalar(v: ScalarValue) -> FieldValue {
    FieldValue::Scalar(v)
}

#[test]
fn text_codec_round_trip_values() {
    let cases: Vec<(ValueType, FieldValue)> = vec![
        (ValueType::Scalar(ScalarType::Bool), scalar(ScalarValue::Bool(true))),
        (ValueType::Scalar(ScalarType::Char), scalar(ScalarValue::Char('a'))),
        (ValueType::Scalar(ScalarType::I64), scalar(ScalarValue::Int(-42))),
        (ValueType::Scalar(ScalarType::U64), scalar(ScalarValue::Uint(42))),
        (
            ValueType::Scalar(ScalarType::Text),
            scalar(ScalarValue::Text(String::from("blabla"))),
        ),
        (ValueType::Optional(ScalarType::Bool), FieldValue::Optional(None)),
        (
            ValueType::Optional(ScalarType::Char),
            FieldValue::Optional(Some(ScalarValue::Char('z'))),
        ),
    ];
    for (ty, v) in cases {
        let body = text_encode(&v).unwrap();
        assert_eq!(text_decode(ty, &body), Ok(v));
    }
}

#[test]
fn text_codec_rejects_aggregates() {
    assert!(text_encode(&FieldValue::Sequence(Vec::new())).is_err());
    assert!(text_decode(ValueType::Sequence(ScalarType::U8), "[]").is_err());
}

#[test]
fn json_codec_round_trip_values() {
    let cases: Vec<(ValueType, FieldValue)> = vec![
        (ValueType::Scalar(ScalarType::Bool), scalar(ScalarValue::Bool(false))),
        (ValueType::Scalar(ScalarType::Char), scalar(ScalarValue::Char('a'))),
        (ValueType::Scalar(ScalarType::I128), scalar(ScalarValue::Int(i128::MIN))),
        (ValueType::Scalar(ScalarType::U128), scalar(ScalarValue::Uint(u128::MAX))),
        (
            ValueType::Scalar(ScalarType::Text),
            scalar(ScalarValue::Text(String::from("a\"b\\c\nd\u{7}e"))),
        ),
        (ValueType::Optional(ScalarType::I32), FieldValue::Optional(None)),
        (
            ValueType::Optional(ScalarType::I32),
            FieldValue::Optional(Some(ScalarValue::Int(-7))),
        ),
        (ValueType::Sequence(ScalarType::U8), FieldValue::Sequence(Vec::new())),
        (
            ValueType::Sequence(ScalarType::U8),
            FieldValue::Sequence(vec![
                ScalarValue::Uint(0),
                ScalarValue::Uint(1),
                ScalarValue::Uint(2),
            ]),
        ),
        (ValueType::Mapping(ScalarType::I32), FieldValue::Mapping(Vec::new())),
        (
            ValueType::Mapping(ScalarType::I32),
            FieldValue::Mapping(vec![
                (String::from("a"), ScalarValue::Int(1)),
                (String::from("b"), ScalarValue::Int(-2)),
            ]),
        ),
    ];
    for (ty, v) in cases {
        let body = json_encode(&v);
        assert_eq!(json_decode(ty, &body), Ok(v));
    }
}

#[test]
fn json_wire_forms() {
    assert_eq!(json_encode(&scalar(ScalarValue::Char('a'))), "\"a\"");
    assert_eq!(json_encode(&FieldValue::Optional(None)), "null");
    assert_eq!(
        json_encode(&scalar(ScalarValue::Text(String::from("x\"y")))),
        "\"x\\\"y\""
    );
    assert_eq!(
        json_encode(&scalar(ScalarValue::Text(String::from("tab\there")))),
        "\"tab\\there\""
    );
    assert_eq!(
        json_encode(&scalar(ScalarValue::Text(String::from("bell\u{7}")))),
        "\"bell\\u0007\""
    );
}

#[test]
fn json_decode_escapes() {
    assert_eq!(
        json_decode(ValueType::Scalar(ScalarType::Text), "\"a\\u0041b\""),
        Ok(scalar(ScalarValue::Text(String::from("aAb"))))
    );
    assert_eq!(
        json_decode(ValueType::Scalar(ScalarType::Text), "\"\\b\\f\\/\""),
        Ok(scalar(ScalarValue::Text(String::from("\u{8}\u{c}/"))))
    );
    assert!(json_decode(ValueType::Scalar(ScalarType::Text), "\"\\uD800\"").is_err());
    assert!(json_decode(ValueType::Scalar(ScalarType::Text), "\"\\q\"").is_err());
}

#[test]
fn json_decode_number_bounds() {
    assert_eq!(
        json_decode(ValueType::Scalar(ScalarType::U8), "255"),
        Ok(scalar(ScalarValue::Uint(255)))
    );
    assert!(json_decode(ValueType::Scalar(ScalarType::U8), "256").is_err());
    assert_eq!(
        json_decode(ValueType::Scalar(ScalarType::I8), "-128"),
        Ok(scalar(ScalarValue::Int(-128)))
    );
    assert!(json_decode(ValueType::Scalar(ScalarType::I8), "-129").is_err());
}

#[test]
fn text_wire_forms() {
    assert_eq!(text_encode(&scalar(ScalarValue::Bool(true))).unwrap(), "true");
    assert_eq!(text_encode(&scalar(ScalarValue::Int(-5))).unwrap(), "-5");
    assert_eq!(text_encode(&FieldValue::Optional(None)).unwrap(), "");
    assert_eq!(
        text_encode(&FieldValue::Optional(Some(ScalarValue::Uint(7)))).unwrap(),
        "7"
    );
}
