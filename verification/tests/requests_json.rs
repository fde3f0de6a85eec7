//! Request handling over the structured backend: the structured index and
//! typed JSON-shaped bodies.

use choices::attributes::{resolve, CompiledSchema, FieldDecl};
use choices::types::TypeExpr;
use choices::configs::json::{structured_annotations, OptionConfig, StringConfig, VecConfig};
use choices::configs::text::{generic_field, plain_field};
use choices::index::ContentType;
use choices::routes::{handle_request, Method, Response};
use choices::store::{ConfigStore, NoCallbacks};
use choices::value::{FieldValue, ScalarType, ScalarValue, ValueType};

fn path(segs: &[&str]) -> Vec<String> {
    segs.iter().map(|s| String::from(*s)).collect()
}

fn get(schema: &CompiledSchema, store: &mut ConfigStore, segs: &[&str]) -> Response {
    handle_request(schema, store, &NoCallbacks, Method::Get, &path(segs), "")
}

fn put(schema: &CompiledSchema, store: &mut ConfigStore, segs: &[&str], body: &str) -> Response {
    handle_request(schema, store, &NoCallbacks, Method::Put, &path(segs), body)
}

#[test]
fn get_list_structured() {
    let decls = vec![
        plain_field("debug", "bool", ValueType::Scalar(ScalarType::Bool)),
        plain_field("retries", "u8", ValueType::Scalar(ScalarType::U8)),
        generic_field("score", "Option", "i32", ValueType::Optional(ScalarType::I32)),
    ];
    let schema = resolve(&structured_annotations(), decls).unwrap();
    let mut store = ConfigStore::new(vec![
        FieldValue::Scalar(ScalarValue::Bool(false)),
        FieldValue::Scalar(ScalarValue::Uint(0)),
        FieldValue::Optional(None),
    ]);
    let r = get(&schema, &mut store, &["config"]);
    assert_eq!(r.status, 200);
    assert_eq!(r.content_type, ContentType::Structured);
    assert_eq!(
        r.body,
        "[{\"name\":\"debug\",\"type\":\"bool\"},{\"name\":\"retries\",\"type\":\"u8\"},{\"name\":\"score\",\"type\":\"Option<i32>\"}]"
    );
}

#[test]
fn user_type_index() {
    let u8_ty = || TypeExpr::Named { base: String::from("u8"), args: Vec::new() };
    let decls = vec![FieldDecl {
        name: String::from("field"),
        ty: TypeExpr::Named { base: String::from("UserType"), args: vec![u8_ty(), u8_ty()] },
        value_type: ValueType::Scalar(ScalarType::U8),
        annotations: Vec::new(),
    }];
    let schema = resolve(&structured_annotations(), decls).unwrap();
    let mut store = ConfigStore::new(vec![FieldValue::Scalar(ScalarValue::Uint(0))]);
    let r = get(&schema, &mut store, &["config"]);
    assert_eq!(r.status, 200);
    assert_eq!(r.body, "[{\"name\":\"field\",\"type\":\"UserType<u8, u8>\"}]");
}

#[test]
fn empty_struct_index_is_empty_array() {
    let schema = resolve(&structured_annotations(), Vec::new()).unwrap();
    let mut store = ConfigStore::new(Vec::new());
    let r = get(&schema, &mut store, &["config"]);
    assert_eq!(r.body, "[]");
}

#[test]
fn score_null_scenario() {
    let decls = vec![generic_field(
        "score",
        "Option",
        "i32",
        ValueType::Optional(ScalarType::I32),
    )];
    let structured = resolve(&structured_annotations(), decls).unwrap();
    let mut store = ConfigStore::new(vec![FieldValue::Optional(None)]);
    let r = get(&structured, &mut store, &["config", "score"]);
    assert_eq!(r.status, 200);
    assert_eq!(r.body, "null");

    let text_decls = vec![generic_field(
        "score",
        "Option",
        "i32",
        ValueType::Optional(ScalarType::I32),
    )];
    let text = resolve(&Vec::new(), text_decls).unwrap();
    let mut text_store = ConfigStore::new(vec![FieldValue::Optional(None)]);
    let rt = get(&text, &mut text_store, &["config", "score"]);
    assert_eq!(rt.status, 200);
    assert_eq!(rt.body, "");
}

#[test]
fn get_scalar_field_structured() {
    let decls = vec![
        plain_field("b", "bool", ValueType::Scalar(ScalarType::Bool)),
        plain_field("c", "char", ValueType::Scalar(ScalarType::Char)),
        plain_field("int8", "i8", ValueType::Scalar(ScalarType::I8)),
    ];
    let schema = resolve(&structured_annotations(), decls).unwrap();
    let mut store = ConfigStore::new(vec![
        FieldValue::Scalar(ScalarValue::Bool(true)),
        FieldValue::Scalar(ScalarValue::Char('a')),
        FieldValue::Scalar(ScalarValue::Int(-5)),
    ]);
    assert_eq!(get(&schema, &mut store, &["config", "b"]).body, "true");
    assert_eq!(get(&schema, &mut store, &["config", "c"]).body, "\"a\"");
    assert_eq!(get(&schema, &mut store, &["config", "int8"]).body, "-5");
}

#[test]
fn put_scalar_field_structured() {
    let decls = vec![plain_field("b", "bool", ValueType::Scalar(ScalarType::Bool))];
    let schema = resolve(&structured_annotations(), decls).unwrap();
    let mut store = ConfigStore::new(vec![FieldValue::Scalar(ScalarValue::Bool(false))]);
    assert_eq!(put(&schema, &mut store, &["config", "b"], "true").status, 200);
    assert_eq!(get(&schema, &mut store, &["config", "b"]).body, "true");
    assert_eq!(put(&schema, &mut store, &["config", "b"], "wrong").status, 400);
    assert_eq!(get(&schema, &mut store, &["config", "b"]).body, "true");
}

#[test]
fn put_string_field_structured() {
    let schema = resolve(&structured_annotations(), StringConfig::field_decls()).unwrap();
    let mut store = StringConfig { string: String::new() }.store();
    assert_eq!(put(&schema, &mut store, &["config", "string"], "\"blabla\"").status, 200);
    assert_eq!(get(&schema, &mut store, &["config", "string"]).body, "\"blabla\"");
    assert_eq!(put(&schema, &mut store, &["config", "string"], "\"\"").status, 200);
    assert_eq!(get(&schema, &mut store, &["config", "string"]).body, "\"\"");
}

#[test]
fn put_option_field_structured() {
    let schema = resolve(&structured_annotations(), OptionConfig::field_decls()).unwrap();
    let mut store = OptionConfig { character: None, empty: None }.store();
    assert_eq!(put(&schema, &mut store, &["config", "character"], "\"a\"").status, 200);
    assert_eq!(get(&schema, &mut store, &["config", "character"]).body, "\"a\"");
    assert_eq!(put(&schema, &mut store, &["config", "character"], "null").status, 200);
    assert_eq!(get(&schema, &mut store, &["config", "character"]).body, "null");
    assert_eq!(put(&schema, &mut store, &["config", "empty"], "true").status, 200);
    assert_eq!(get(&schema, &mut store, &["config", "empty"]).body, "true");
    assert_eq!(put(&schema, &mut store, &["config", "empty"], "wrong").status, 400);
    assert_eq!(get(&schema, &mut store, &["config", "empty"]).body, "true");
}

#[test]
fn put_vec_field() {
    let schema = resolve(&structured_annotations(), VecConfig::field_decls()).unwrap();
    let mut store = VecConfig::new().store();
    assert_eq!(get(&schema, &mut store, &["config", "vector"]).body, "[1,2,3]");
    assert_eq!(put(&schema, &mut store, &["config", "vector"], "[0,1,2]").status, 200);
    assert_eq!(get(&schema, &mut store, &["config", "vector"]).body, "[0,1,2]");
    assert_eq!(put(&schema, &mut store, &["config", "vector"], "[]").status, 200);
    assert_eq!(get(&schema, &mut store, &["config", "vector"]).body, "[]");
    assert_eq!(put(&schema, &mut store, &["config", "vector"], "[300]").status, 400);
    assert_eq!(get(&schema, &mut store, &["config", "vector"]).body, "[]");
}

#[test]
fn mapping_round_trip_over_requests() {
    let decls = vec![generic_field(
        "scores",
        "HashMap",
        "i32",
        ValueType::Mapping(ScalarType::I32),
    )];
    let schema = resolve(&structured_annotations(), decls).unwrap();
    let mut store = ConfigStore::new(vec![FieldValue::Mapping(Vec::new())]);
    assert_eq!(get(&schema, &mut store, &["config", "scores"]).body, "{}");
    assert_eq!(
        put(&schema, &mut store, &["config", "scores"], "{\"a\":1,\"b\":-2}").status,
        200
    );
    assert_eq!(get(&schema, &mut store, &["config", "scores"]).body, "{\"a\":1,\"b\":-2}");
}

#[test]
fn string_escapes_round_trip_over_requests() {
    let schema = resolve(&structured_annotations(), StringConfig::field_decls()).unwrap();
    let mut store = StringConfig { string: String::new() }.store();
    let body = "\"a\\\"b\\\\c\\nd\\u0007e\"";
    assert_eq!(put(&schema, &mut store, &["config", "string"], body).status, 200);
    let r = get(&schema, &mut store, &["config", "string"]);
    assert_eq!(r.body, "\"a\\\"b\\\\c\\nd\\u0007e\"");
}

#[test]
fn structured_parse_errors() {
    let schema = resolve(&structured_annotations(), StringConfig::field_decls()).unwrap();
    let mut store = StringConfig { string: String::from("keep") }.store();
    assert_eq!(put(&schema, &mut store, &["config", "string"], "noquotes").status, 400);
    assert_eq!(put(&schema, &mut store, &["config", "string"], "\"open").status, 400);
    assert_eq!(put(&schema, &mut store, &["config", "string"], "\"a\" extra").status, 400);
    assert_eq!(get(&schema, &mut store, &["config", "string"]).body, "\"keep\"");
}
