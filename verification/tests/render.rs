//! The type renderer: plain, generic, nested and failing forms.

use choices::types::{render, TypeExpr, RENDER_DEPTH_LIMIT};
use choices::SchemaError;

fn named(base: &str, args: Vec<TypeExpr>) -> TypeExpr {
    TypeExpr::Named { base: String::from(base), args }
}

#[test]
fn render_plain_type() {
    assert_eq!(render(&named("bool", Vec::new())).unwrap(), "bool");
}

#[test]
fn render_generic_type() {
    let ty = named("UserType", vec![named("u8", Vec::new()), named("u8", Vec::new())]);
    assert_eq!(render(&ty).unwrap(), "UserType<u8, u8>");
}

#[test]
fn render_nested_generic_type() {
    let inner = named("Option", vec![named("i32", Vec::new())]);
    let ty = named("HashMap", vec![named("u8", Vec::new()), inner]);
    assert_eq!(render(&ty).unwrap(), "HashMap<u8, Option<i32>>");
}

#[test]
fn render_unsupported_type() {
    assert_eq!(render(&TypeExpr::Unsupported), Err(SchemaError::UnsupportedTypeError));
    let ty = named("Vec", vec![TypeExpr::Unsupported]);
    assert_eq!(render(&ty), Err(SchemaError::UnsupportedTypeError));
}

#[test]
fn render_depth_limit() {
    let mut ty = named("u8", Vec::new());
    let mut depth = 1;
    while depth <= RENDER_DEPTH_LIMIT {
        ty = named("Wrap", vec![ty]);
        depth += 1;
    }
    assert_eq!(render(&ty), Err(SchemaError::TypeRenderingError));
}

#[test]
fn render_just_within_depth_limit() {
    let mut ty = named("u8", Vec::new());
    let mut depth = 1;
    while depth < RENDER_DEPTH_LIMIT {
        ty = named("W", vec![ty]);
        depth += 1;
    }
    let rendered = render(&ty).unwrap();
    assert!(rendered.starts_with("W<W<"));
    assert!(rendered.contains("<u8>"));
    assert!(rendered.ends_with(">"));
}
