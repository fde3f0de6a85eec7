//! The setter pipeline: validators veto writes, observation callbacks see
//! them, and the direct write bypasses both.

use choices::attributes::{resolve, AnnotationDecl, AnnotationValue, FieldDecl};
use choices::routes::set_field;
use choices::configs::text::plain_field;
use choices::store::{apply_set, CallbackHost, ConfigStore, NoCallbacks};
use choices::value::{FieldValue, ScalarType, ScalarValue, ValueType};

fn tally_config_decls() -> Vec<FieldDecl> {
    let mut value = plain_field("value", "i32", ValueType::Scalar(ScalarType::I32));
    value.annotations.push(AnnotationDecl {
        name: String::from("on_set"),
        value: AnnotationValue::Callback(1),
    });
    let total = plain_field("total", "i32", ValueType::Scalar(ScalarType::I32));
    vec![value, total]
}

fn int_value(i: i128) -> FieldValue {
    FieldValue::Scalar(ScalarValue::Int(i))
}

fn read_int(store: &ConfigStore, idx: usize) -> i128 {
    match store.value_at(idx) {
        FieldValue::Scalar(ScalarValue::Int(i)) => *i,
        _ => panic!("expected an integer slot"),
    }
}

/// Adds every written `value` into the `total` slot.
struct Tally;

impl CallbackHost for Tally {
    fn validate(&self, _id: u64, _value: &FieldValue) -> Result<(), String> {
        Ok(())
    }

    fn on_set(&self, id: u64, value: &FieldValue, store: &mut ConfigStore) {
        if id == 1 {
            let add = match value {
                FieldValue::Scalar(ScalarValue::Int(i)) => *i,
                _ => 0,
            };
            let total = read_int(store, 1);
            store.set_direct(1, int_value(total + add));
        }
    }
}

#[test]
fn on_set_for_setter() {
    let schema = resolve(&Vec::new(), tally_config_decls()).unwrap();
    let mut store = ConfigStore::new(vec![int_value(0), int_value(0)]);
    let attrs = schema.fields[0].attributes;
    assert!(apply_set(&mut store, 0, int_value(2), &Tally, &attrs).is_ok());
    assert!(apply_set(&mut store, 0, int_value(3), &Tally, &attrs).is_ok());
    assert_eq!(read_int(&store, 0), 3);
    assert_eq!(read_int(&store, 1), 5);
}

/// Rejects negative candidates.
struct NonNegative;

impl CallbackHost for NonNegative {
    fn validate(&self, _id: u64, value: &FieldValue) -> Result<(), String> {
        match value {
            FieldValue::Scalar(ScalarValue::Int(i)) if *i >= 0 => Ok(()),
            _ => Err(String::new()),
        }
    }

    fn on_set(&self, _id: u64, _value: &FieldValue, _store: &mut ConfigStore) {}
}

const GOOD_VALUE: i128 = 1;
const BAD_VALUE: i128 = -1;

fn validated_config_decls() -> Vec<FieldDecl> {
    let mut value = plain_field("value", "i32", ValueType::Scalar(ScalarType::I32));
    value.annotations.push(AnnotationDecl {
        name: String::from("validator"),
        value: AnnotationValue::Callback(1),
    });
    vec![value]
}

#[test]
fn validation_for_setter() {
    let schema = resolve(&Vec::new(), validated_config_decls()).unwrap();
    let mut store = ConfigStore::new(vec![int_value(0)]);
    let attrs = schema.fields[0].attributes;
    assert!(apply_set(&mut store, 0, int_value(BAD_VALUE), &NonNegative, &attrs).is_err());
    assert_eq!(read_int(&store, 0), 0);
    assert!(apply_set(&mut store, 0, int_value(GOOD_VALUE), &NonNegative, &attrs).is_ok());
    assert_eq!(read_int(&store, 0), GOOD_VALUE);
}

#[test]
fn direct_write_bypasses_pipeline() {
    let mut store = ConfigStore::new(vec![int_value(0)]);
    store.set_direct(0, int_value(BAD_VALUE));
    assert_eq!(read_int(&store, 0), BAD_VALUE);
}

#[test]
fn pipeline_without_callbacks_commits() {
    let schema = resolve(&Vec::new(), vec![plain_field(
        "value",
        "i32",
        ValueType::Scalar(ScalarType::I32),
    )])
    .unwrap();
    let mut store = ConfigStore::new(vec![int_value(7)]);
    let attrs = schema.fields[0].attributes;
    assert!(apply_set(&mut store, 0, int_value(9), &NoCallbacks, &attrs).is_ok());
    assert_eq!(read_int(&store, 0), 9);
}

#[test]
fn set_field_by_name() {
    let schema = resolve(&Vec::new(), validated_config_decls()).unwrap();
    let mut store = ConfigStore::new(vec![int_value(0)]);
    assert!(set_field(&schema, &mut store, &NonNegative, "value", int_value(BAD_VALUE)).is_err());
    assert_eq!(read_int(&store, 0), 0);
    assert!(set_field(&schema, &mut store, &NonNegative, "value", int_value(GOOD_VALUE)).is_ok());
    assert_eq!(read_int(&store, 0), GOOD_VALUE);
    assert!(set_field(&schema, &mut store, &NonNegative, "fake", int_value(2)).is_err());
    assert_eq!(read_int(&store, 0), GOOD_VALUE);
}
