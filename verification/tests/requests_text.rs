//! Request handling over the text backend: the index, reads, writes,
//! hidden and skipped fields, and the concrete serving scenarios.

use choices::attributes::{resolve, AnnotationDecl, AnnotationValue, CompiledSchema, FieldDecl};
use choices::configs::text::{plain_field, SimpleBoolConfig};
use choices::index::ContentType;
use choices::routes::{handle_request, routes, Method, Response};
use choices::store::{CallbackHost, ConfigStore, NoCallbacks};
use choices::value::{FieldValue, ScalarType, ScalarValue, ValueType};

fn path(segs: &[&str]) -> Vec<String> {
    segs.iter().map(|s| String::from(*s)).collect()
}

fn flag(name: &str) -> AnnotationDecl {
    AnnotationDecl { name: String::from(name), value: AnnotationValue::Flag }
}

fn get(schema: &CompiledSchema, store: &mut ConfigStore, segs: &[&str]) -> Response {
    handle_request(schema, store, &NoCallbacks, Method::Get, &path(segs), "")
}

fn put(schema: &CompiledSchema, store: &mut ConfigStore, segs: &[&str], body: &str) -> Response {
    handle_request(schema, store, &NoCallbacks, Method::Put, &path(segs), body)
}

fn bool_store(debug: bool) -> ConfigStore {
    SimpleBoolConfig { debug }.store()
}

fn bool_schema() -> CompiledSchema {
    resolve(&SimpleBoolConfig::struct_annotations(), SimpleBoolConfig::field_decls()).unwrap()
}

#[test]
fn simple_bool_scenario() {
    let schema = bool_schema();
    let mut store = bool_store(true);

    let index = get(&schema, &mut store, &["config"]);
    assert_eq!(index.status, 200);
    assert_eq!(index.body, "Available configuration options:\n  - debug: bool\n");
    assert_eq!(index.content_type, ContentType::Text);

    let read = get(&schema, &mut store, &["config", "debug"]);
    assert_eq!(read.status, 200);
    assert_eq!(read.body, "true");

    let write = put(&schema, &mut store, &["config", "debug"], "false");
    assert_eq!(write.status, 200);
    assert_eq!(write.body, "");

    let reread = get(&schema, &mut store, &["config", "debug"]);
    assert_eq!(reread.status, 200);
    assert_eq!(reread.body, "false");
}

#[test]
fn get_non_existing_field() {
    let schema = bool_schema();
    let mut store = bool_store(true);
    assert_eq!(get(&schema, &mut store, &["config", "fake"]).status, 404);
}

#[test]
fn put_non_existing_field() {
    let schema = bool_schema();
    let mut store = bool_store(true);
    assert_eq!(put(&schema, &mut store, &["config", "fake"], "1").status, 404);
}

#[test]
fn unknown_root_is_not_found() {
    let schema = bool_schema();
    let mut store = bool_store(true);
    assert_eq!(get(&schema, &mut store, &["other"]).status, 404);
    assert_eq!(get(&schema, &mut store, &["config", "debug", "extra"]).status, 404);
    assert_eq!(put(&schema, &mut store, &["config"], "x").status, 404);
}

fn scalar_config() -> (CompiledSchema, ConfigStore) {
    let decls = vec![
        plain_field("b", "bool", ValueType::Scalar(ScalarType::Bool)),
        plain_field("c", "char", ValueType::Scalar(ScalarType::Char)),
        plain_field("int8", "i8", ValueType::Scalar(ScalarType::I8)),
        plain_field("uint16", "u16", ValueType::Scalar(ScalarType::U16)),
        plain_field("string", "String", ValueType::Scalar(ScalarType::Text)),
    ];
    let schema = resolve(&Vec::new(), decls).unwrap();
    let store = ConfigStore::new(vec![
        FieldValue::Scalar(ScalarValue::Bool(true)),
        FieldValue::Scalar(ScalarValue::Char('a')),
        FieldValue::Scalar(ScalarValue::Int(-5)),
        FieldValue::Scalar(ScalarValue::Uint(2)),
        FieldValue::Scalar(ScalarValue::Text(String::from("blabla"))),
    ]);
    (schema, store)
}

#[test]
fn get_scalar_field() {
    let (schema, mut store) = scalar_config();
    assert_eq!(get(&schema, &mut store, &["config", "b"]).body, "true");
    assert_eq!(get(&schema, &mut store, &["config", "c"]).body, "a");
    assert_eq!(get(&schema, &mut store, &["config", "int8"]).body, "-5");
    assert_eq!(get(&schema, &mut store, &["config", "uint16"]).body, "2");
}

#[test]
fn get_string_field() {
    let (schema, mut store) = scalar_config();
    let r = get(&schema, &mut store, &["config", "string"]);
    assert_eq!(r.status, 200);
    assert_eq!(r.body, "blabla");
}

#[test]
fn put_scalar_field() {
    let (schema, mut store) = scalar_config();
    assert_eq!(put(&schema, &mut store, &["config", "b"], "false").status, 200);
    assert_eq!(get(&schema, &mut store, &["config", "b"]).body, "false");
    assert_eq!(put(&schema, &mut store, &["config", "b"], "wrong").status, 400);
    assert_eq!(get(&schema, &mut store, &["config", "b"]).body, "false");
    assert_eq!(put(&schema, &mut store, &["config", "int8"], "-6").status, 200);
    assert_eq!(get(&schema, &mut store, &["config", "int8"]).body, "-6");
    assert_eq!(put(&schema, &mut store, &["config", "uint16"], "70000").status, 400);
    assert_eq!(get(&schema, &mut store, &["config", "uint16"]).body, "2");
}

#[test]
fn put_string_field() {
    let (schema, mut store) = scalar_config();
    assert_eq!(put(&schema, &mut store, &["config", "string"], "hello").status, 200);
    assert_eq!(get(&schema, &mut store, &["config", "string"]).body, "hello");
    assert_eq!(put(&schema, &mut store, &["config", "string"], "").status, 200);
    assert_eq!(get(&schema, &mut store, &["config", "string"]).body, "");
}

fn option_config() -> (CompiledSchema, ConfigStore) {
    let schema = resolve(
        &Vec::new(),
        choices::configs::text::OptionConfig::field_decls(),
    )
    .unwrap();
    let store = choices::configs::text::OptionConfig { character: Some('a'), empty: None }.store();
    (schema, store)
}

#[test]
fn get_option_field() {
    let (schema, mut store) = option_config();
    assert_eq!(get(&schema, &mut store, &["config", "character"]).body, "a");
    assert_eq!(get(&schema, &mut store, &["config", "empty"]).body, "");
}

#[test]
fn put_option_field() {
    let (schema, mut store) = option_config();
    assert_eq!(put(&schema, &mut store, &["config", "character"], "b").status, 200);
    assert_eq!(get(&schema, &mut store, &["config", "character"]).body, "b");
    assert_eq!(put(&schema, &mut store, &["config", "character"], "").status, 200);
    assert_eq!(get(&schema, &mut store, &["config", "character"]).body, "");
    assert_eq!(put(&schema, &mut store, &["config", "empty"], "true").status, 200);
    assert_eq!(get(&schema, &mut store, &["config", "empty"]).body, "true");
    assert_eq!(put(&schema, &mut store, &["config", "empty"], "wrong").status, 400);
    assert_eq!(get(&schema, &mut store, &["config", "empty"]).body, "true");
}

#[test]
fn check_message() {
    let anns = vec![AnnotationDecl {
        name: String::from("message"),
        value: AnnotationValue::Text(String::from("welcome")),
    }];
    let schema = resolve(&anns, Vec::new()).unwrap();
    let mut store = ConfigStore::new(Vec::new());
    let r = get(&schema, &mut store, &["config"]);
    assert_eq!(r.status, 200);
    assert_eq!(r.body, "welcome\n");
}

#[test]
fn check_message_empty() {
    let anns = vec![AnnotationDecl {
        name: String::from("message"),
        value: AnnotationValue::Text(String::new()),
    }];
    let schema = resolve(&anns, Vec::new()).unwrap();
    let mut store = ConfigStore::new(Vec::new());
    let r = get(&schema, &mut store, &["config"]);
    assert_eq!(r.status, 200);
    assert_eq!(r.body, "");
}

#[test]
fn custom_root_path() {
    let anns = vec![AnnotationDecl {
        name: String::from("path"),
        value: AnnotationValue::Text(String::from("myconfig")),
    }];
    let schema = resolve(&anns, SimpleBoolConfig::field_decls()).unwrap();
    let mut store = bool_store(true);
    assert_eq!(get(&schema, &mut store, &["myconfig", "debug"]).body, "true");
    assert_eq!(get(&schema, &mut store, &["config", "debug"]).status, 404);
}

fn hidden_config() -> (CompiledSchema, ConfigStore) {
    let mut a = plain_field("a", "i32", ValueType::Scalar(ScalarType::I32));
    a.annotations.push(flag("hide_get"));
    let mut b = plain_field("b", "i32", ValueType::Scalar(ScalarType::I32));
    b.annotations.push(flag("hide_put"));
    let mut c = plain_field("c", "i32", ValueType::Scalar(ScalarType::I32));
    c.annotations.push(flag("hide_get"));
    c.annotations.push(flag("hide_put"));
    let schema = resolve(&Vec::new(), vec![a, b, c]).unwrap();
    let store = ConfigStore::new(vec![
        FieldValue::Scalar(ScalarValue::Int(0)),
        FieldValue::Scalar(ScalarValue::Int(0)),
        FieldValue::Scalar(ScalarValue::Int(0)),
    ]);
    (schema, store)
}

#[test]
fn hidden_reader_is_not_found() {
    let (schema, mut store) = hidden_config();
    assert_eq!(get(&schema, &mut store, &["config", "a"]).status, 404);
    assert_eq!(put(&schema, &mut store, &["config", "a"], "3").status, 200);
    assert_eq!(store.value_at(0), &FieldValue::Scalar(ScalarValue::Int(3)));
}

#[test]
fn hidden_writer_is_not_found() {
    let (schema, mut store) = hidden_config();
    assert_eq!(get(&schema, &mut store, &["config", "b"]).body, "0");
    assert_eq!(put(&schema, &mut store, &["config", "b"], "3").status, 404);
    assert_eq!(get(&schema, &mut store, &["config", "b"]).body, "0");
}

#[test]
fn hidden_both_scenario() {
    let (schema, mut store) = hidden_config();
    assert_eq!(get(&schema, &mut store, &["config", "c"]).status, 404);
    assert_eq!(put(&schema, &mut store, &["config", "c"], "3").status, 404);
    let index = get(&schema, &mut store, &["config"]);
    assert!(index.body.contains("  - c: i32\n"));
    let table = routes(&schema);
    assert_eq!(table.len(), 2);
    assert!(table.iter().all(|e| e.field_name != "c"));
}

fn skip_config() -> (CompiledSchema, ConfigStore) {
    let mut debug = plain_field("debug", "bool", ValueType::Scalar(ScalarType::Bool));
    debug.annotations.push(flag("skip"));
    let schema = resolve(&Vec::new(), vec![debug]).unwrap();
    let store = ConfigStore::new(vec![FieldValue::Scalar(ScalarValue::Bool(false))]);
    (schema, store)
}

#[test]
fn skip_field_in_list() {
    let (schema, mut store) = skip_config();
    let r = get(&schema, &mut store, &["config"]);
    assert_eq!(r.status, 200);
    assert_eq!(r.body, "Available configuration options:\n");
}

#[test]
fn skip_field() {
    let (schema, mut store) = skip_config();
    assert_eq!(get(&schema, &mut store, &["config", "debug"]).status, 404);
}

#[test]
fn skip_field_mutable() {
    let (schema, mut store) = skip_config();
    assert_eq!(get(&schema, &mut store, &["config", "debug"]).status, 404);
    assert_eq!(put(&schema, &mut store, &["config", "debug"], "true").status, 404);
}

#[test]
fn payload_too_large() {
    let (schema, mut store) = scalar_config();
    let body: String = std::iter::repeat('1').take(16385).collect();
    let r = put(&schema, &mut store, &["config", "string"], &body);
    assert_eq!(r.status, 413);
    assert_eq!(get(&schema, &mut store, &["config", "string"]).body, "blabla");
}

/// Rejects port numbers at or below 1000.
struct PortPolicy;

impl CallbackHost for PortPolicy {
    fn validate(&self, _id: u64, value: &FieldValue) -> Result<(), String> {
        match value {
            FieldValue::Scalar(ScalarValue::Uint(u)) if *u > 1000 => Ok(()),
            _ => Err(String::from("the port must be above 1000")),
        }
    }

    fn on_set(&self, _id: u64, _value: &FieldValue, _store: &mut ConfigStore) {}
}

#[test]
fn port_validator_scenario() {
    let mut port = plain_field("port", "u16", ValueType::Scalar(ScalarType::U16));
    port.annotations.push(AnnotationDecl {
        name: String::from("validator"),
        value: AnnotationValue::Callback(1),
    });
    let schema = resolve(&Vec::new(), vec![port]).unwrap();
    let mut store = ConfigStore::new(vec![FieldValue::Scalar(ScalarValue::Uint(10000))]);

    let rejected = handle_request(
        &schema,
        &mut store,
        &PortPolicy,
        Method::Put,
        &path(&["config", "port"]),
        "100",
    );
    assert_eq!(rejected.status, 400);
    assert_eq!(rejected.body, "ValidationError: the port must be above 1000");
    assert_eq!(get(&schema, &mut store, &["config", "port"]).body, "10000");

    let accepted = handle_request(
        &schema,
        &mut store,
        &PortPolicy,
        Method::Put,
        &path(&["config", "port"]),
        "4200",
    );
    assert_eq!(accepted.status, 200);
    assert_eq!(get(&schema, &mut store, &["config", "port"]).body, "4200");
}

#[test]
fn on_set_for_put() {
    struct Tally;
    impl CallbackHost for Tally {
        fn validate(&self, _id: u64, _value: &FieldValue) -> Result<(), String> {
            Ok(())
        }

        fn on_set(&self, id: u64, value: &FieldValue, store: &mut ConfigStore) {
            if id == 1 {
                let add = match value {
                    FieldValue::Scalar(ScalarValue::Int(i)) => *i,
                    _ => 0,
                };
                let total = match store.value_at(1) {
                    FieldValue::Scalar(ScalarValue::Int(i)) => *i,
                    _ => 0,
                };
                store.set_direct(1, FieldValue::Scalar(ScalarValue::Int(total + add)));
            }
        }
    }

    let mut value = plain_field("value", "i32", ValueType::Scalar(ScalarType::I32));
    value.annotations.push(AnnotationDecl {
        name: String::from("on_set"),
        value: AnnotationValue::Callback(1),
    });
    let total = plain_field("total", "i32", ValueType::Scalar(ScalarType::I32));
    let schema = resolve(&Vec::new(), vec![value, total]).unwrap();
    let mut store = ConfigStore::new(vec![
        FieldValue::Scalar(ScalarValue::Int(0)),
        FieldValue::Scalar(ScalarValue::Int(0)),
    ]);

    let w1 = handle_request(
        &schema,
        &mut store,
        &Tally,
        Method::Put,
        &path(&["config", "value"]),
        "2",
    );
    assert_eq!(w1.status, 200);
    assert_eq!(get(&schema, &mut store, &["config", "value"]).body, "2");
    let w2 = handle_request(
        &schema,
        &mut store,
        &Tally,
        Method::Put,
        &path(&["config", "value"]),
        "3",
    );
    assert_eq!(w2.status, 200);
    assert_eq!(get(&schema, &mut store, &["config", "value"]).body, "3");
    assert_eq!(get(&schema, &mut store, &["config", "total"]).body, "5");
}

#[test]
fn validation_for_put() {
    struct NonNegative;
    impl CallbackHost for NonNegative {
        fn validate(&self, _id: u64, value: &FieldValue) -> Result<(), String> {
            match value {
                FieldValue::Scalar(ScalarValue::Int(i)) if *i >= 0 => Ok(()),
                _ => Err(String::new()),
            }
        }

        fn on_set(&self, _id: u64, _value: &FieldValue, _store: &mut ConfigStore) {}
    }

    let mut value = plain_field("value", "i32", ValueType::Scalar(ScalarType::I32));
    value.annotations.push(AnnotationDecl {
        name: String::from("validator"),
        value: AnnotationValue::Callback(1),
    });
    let schema = resolve(&Vec::new(), vec![value]).unwrap();
    let mut store = ConfigStore::new(vec![FieldValue::Scalar(ScalarValue::Int(0))]);

    let good = handle_request(
        &schema,
        &mut store,
        &NonNegative,
        Method::Put,
        &path(&["config", "value"]),
        "1",
    );
    assert_eq!(good.status, 200);
    assert_eq!(get(&schema, &mut store, &["config", "value"]).body, "1");
    let bad = handle_request(
        &schema,
        &mut store,
        &NonNegative,
        Method::Put,
        &path(&["config", "value"]),
        "-1",
    );
    assert_eq!(bad.status, 400);
    assert_eq!(get(&schema, &mut store, &["config", "value"]).body, "1");
}

#[test]
fn get_list() {
    let decls = vec![
        plain_field("debug", "bool", ValueType::Scalar(ScalarType::Bool)),
        plain_field("retries", "u8", ValueType::Scalar(ScalarType::U8)),
        choices::configs::text::generic_field(
            "score",
            "Option",
            "i32",
            ValueType::Optional(ScalarType::I32),
        ),
    ];
    let schema = resolve(&Vec::new(), decls).unwrap();
    let mut store = ConfigStore::new(vec![
        FieldValue::Scalar(ScalarValue::Bool(true)),
        FieldValue::Scalar(ScalarValue::Uint(3)),
        FieldValue::Optional(Some(ScalarValue::Int(3))),
    ]);
    let r = get(&schema, &mut store, &["config"]);
    assert_eq!(r.status, 200);
    assert_eq!(
        r.body,
        "Available configuration options:\n  - debug: bool\n  - retries: u8\n  - score: Option<i32>\n"
    );
}

#[test]
fn unserializable_value_is_server_error() {
    let decls = vec![choices::configs::text::generic_field(
        "vector",
        "Vec",
        "u8",
        ValueType::Sequence(ScalarType::U8),
    )];
    let schema = resolve(&Vec::new(), decls).unwrap();
    let mut store = ConfigStore::new(vec![FieldValue::Sequence(Vec::new())]);
    let r = get(&schema, &mut store, &["config", "vector"]);
    assert_eq!(r.status, 500);
    assert_eq!(
        r.body,
        "ParseError: the text backend supports only scalar and optional fields"
    );
}
