//! The attribute resolver: accepted schemas and each kind of schema error.

use choices::attributes::{
    resolve, AnnotationDecl, AnnotationValue, FieldDecl, LockKind, Serialization,
};
use choices::configs::json::structured_annotations;
use choices::configs::text::plain_field;
use choices::types::TypeExpr;
use choices::value::{ScalarType, ValueType};
use choices::SchemaError;

fn flag(name: &str) -> AnnotationDecl {
    AnnotationDecl { name: String::from(name), value: AnnotationValue::Flag }
}

fn text_ann(name: &str, value: &str) -> AnnotationDecl {
    AnnotationDecl { name: String::from(name), value: AnnotationValue::Text(String::from(value)) }
}

fn bool_field(name: &str) -> FieldDecl {
    plain_field(name, "bool", ValueType::Scalar(ScalarType::Bool))
}

#[test]
fn default_struct_attributes() {
    let schema = resolve(&Vec::new(), vec![bool_field("debug")]).unwrap();
    assert_eq!(schema.attributes.root_path, "config");
    assert_eq!(schema.attributes.root_message, None);
    assert_eq!(schema.attributes.serialization, Serialization::Text);
    assert_eq!(schema.attributes.lock_kind, LockKind::Exclusive);
    assert_eq!(schema.fields.len(), 1);
    assert_eq!(schema.fields[0].name, "debug");
    assert_eq!(schema.fields[0].rendered_type, "bool");
}

#[test]
fn custom_path_and_message() {
    let anns = vec![text_ann("path", "myconfig"), text_ann("message", "welcome")];
    let schema = resolve(&anns, Vec::new()).unwrap();
    assert_eq!(schema.attributes.root_path, "myconfig");
    assert_eq!(schema.attributes.root_message, Some(String::from("welcome")));
}

#[test]
fn empty_message_is_allowed() {
    let anns = vec![text_ann("message", "")];
    let schema = resolve(&anns, Vec::new()).unwrap();
    assert_eq!(schema.attributes.root_message, Some(String::new()));
}

#[test]
fn empty_path_is_rejected() {
    let anns = vec![text_ann("path", "")];
    assert_eq!(
        resolve(&anns, Vec::new()),
        Err(SchemaError::EmptyValueError { name: String::from("path") })
    );
}

#[test]
fn unknown_attribute_is_rejected() {
    let anns = vec![flag("colour")];
    assert_eq!(
        resolve(&anns, Vec::new()),
        Err(SchemaError::UnknownAttributeError { name: String::from("colour") })
    );
}

#[test]
fn field_annotation_on_struct_is_rejected() {
    let anns = vec![flag("skip")];
    assert_eq!(
        resolve(&anns, Vec::new()),
        Err(SchemaError::PlacementError { name: String::from("skip"), struct_level: false })
    );
}

#[test]
fn struct_annotation_on_field_is_rejected() {
    let mut field = bool_field("debug");
    field.annotations.push(flag("rw_lock"));
    assert_eq!(
        resolve(&Vec::new(), vec![field]),
        Err(SchemaError::PlacementError { name: String::from("rw_lock"), struct_level: true })
    );
}

#[test]
fn structured_with_message_conflicts() {
    let anns = vec![flag("json"), text_ann("message", "welcome")];
    assert_eq!(resolve(&anns, Vec::new()), Err(SchemaError::ConflictingAttributesError));
}

#[test]
fn structured_mode_is_selected() {
    let schema = resolve(&structured_annotations(), Vec::new()).unwrap();
    assert_eq!(schema.attributes.serialization, Serialization::Structured);
}

#[test]
fn rw_lock_selects_reader_writer() {
    let anns = vec![flag("rw_lock")];
    let schema = resolve(&anns, Vec::new()).unwrap();
    assert_eq!(schema.attributes.lock_kind, LockKind::ReadWrite);
}

#[test]
fn field_flags_accumulate() {
    let mut field = bool_field("a");
    field.annotations.push(flag("hide_get"));
    field.annotations.push(flag("hide_put"));
    let schema = resolve(&Vec::new(), vec![field]).unwrap();
    assert!(schema.fields[0].attributes.hide_read);
    assert!(schema.fields[0].attributes.hide_write);
    assert!(!schema.fields[0].attributes.skip);
}

#[test]
fn unsupported_type_is_rejected() {
    let field = FieldDecl {
        name: String::from("weird"),
        ty: TypeExpr::Unsupported,
        value_type: ValueType::Scalar(ScalarType::Bool),
        annotations: Vec::new(),
    };
    assert_eq!(resolve(&Vec::new(), vec![field]), Err(SchemaError::UnsupportedTypeError));
}

#[test]
fn skipped_field_type_is_never_rendered() {
    let mut field = FieldDecl {
        name: String::from("weird"),
        ty: TypeExpr::Unsupported,
        value_type: ValueType::Scalar(ScalarType::Bool),
        annotations: Vec::new(),
    };
    field.annotations.push(flag("skip"));
    let schema = resolve(&Vec::new(), vec![field]).unwrap();
    assert!(schema.fields[0].attributes.skip);
    assert_eq!(schema.fields[0].rendered_type, "");
}
