//! Example configurations served by the text backend.

use vstd::prelude::*;
use crate::attributes::{AnnotationDecl, FieldDecl};
use crate::store::ConfigStore;
use crate::types::{render_spec, type_depth, type_well_formed, TypeExpr};
use crate::value::{FieldModel, FieldValue, ScalarModel, ScalarType, ScalarValue, ValueType};

verus! {

/// A declaration for a field of a plain named type with no annotations.
pub fn plain_field(name: &str, ty_name: &str, value_type: ValueType) -> (r: FieldDecl)
    ensures
        r@.name == name@,
        r@.ty == (TypeExpr::Named { base: r.ty->Named_base, args: r.ty->Named_args }),
        render_spec(r@.ty) == ty_name@,
        type_well_formed(r@.ty),
        type_depth(r@.ty) == 1,
        r@.value_type == value_type,
        r@.annotations.len() == 0,
{
    let decl = FieldDecl {
        name: String::from_str(name),
        ty: TypeExpr::Named { base: String::from_str(ty_name), args: Vec::new() },
        value_type,
        annotations: Vec::new(),
    };
    proof {
        assert(decl@.annotations =~= Seq::<crate::attributes::AnnotationModel>::empty());
    }
    decl
}

/// A declaration for a field of a one-argument generic type with no
/// annotations.
pub fn generic_field(name: &str, outer: &str, inner: &str, value_type: ValueType) -> (r: FieldDecl)
    ensures
        r@.name == name@,
        render_spec(r@.ty) == outer@ + "<"@ + inner@ + ">"@,
        type_well_formed(r@.ty),
        type_depth(r@.ty) == 2,
        r@.value_type == value_type,
        r@.annotations.len() == 0,
{
    let mut args: Vec<TypeExpr> = Vec::new();
    args.push(TypeExpr::Named { base: String::from_str(inner), args: Vec::new() });
    let decl = FieldDecl {
        name: String::from_str(name),
        ty: TypeExpr::Named { base: String::from_str(outer), args },
        value_type,
        annotations: Vec::new(),
    };
    proof {
        let t = decl@.ty;
        let inner_t = t->Named_args@[0];
        assert(inner_t->Named_args@.len() == 0);
        assert(render_spec(inner_t) == inner@);
        assert(crate::types::render_args_spec(t->Named_args@) == inner@);
        assert(render_spec(t) =~= outer@ + "<"@ + inner@ + ">"@) by {
            reveal_strlit("<");
            reveal_strlit(">");
            assert("<"@ =~= seq!['<']);
            assert(">"@ =~= seq!['>']);
        }
        assert(crate::types::args_depth(t->Named_args@.drop_last()) == 0) by {
            assert(t->Named_args@.drop_last() =~= Seq::<TypeExpr>::empty());
        }
        assert(type_depth(inner_t) == 1);
        assert(crate::types::args_depth(t->Named_args@) == 1);
        assert(type_depth(t) == 2);
        assert(type_well_formed(inner_t));
        assert(forall|k: int|
            0 <= k < t->Named_args@.len() ==> type_well_formed(#[trigger] t->Named_args@[k]));
        assert(type_well_formed(t));
        assert(decl@.annotations =~= Seq::<crate::attributes::AnnotationModel>::empty());
    }
    decl
}

/// A configuration of one boolean field.
#[derive(Debug, Clone, PartialEq, Eq)]
pub struct SimpleBoolConfig {
    pub debug: bool,
}

impl SimpleBoolConfig {
    /// The struct-level annotations: none, so the text backend serves it.
    pub fn struct_annotations() -> (r: Vec<AnnotationDecl>)
        ensures
            r@.len() == 0,
    {
        Vec::new()
    }

    /// The field declarations, in order.
    pub fn field_decls() -> (r: Vec<FieldDecl>)
        ensures
            r@.len() == 1,
            r@[0]@.name == "debug"@,
            render_spec(r@[0]@.ty) == "bool"@,
            r@[0]@.value_type == ValueType::Scalar(ScalarType::Bool),
            r@[0]@.annotations.len() == 0,
    {
        let mut decls: Vec<FieldDecl> = Vec::new();
        decls.push(plain_field("debug", "bool", ValueType::Scalar(ScalarType::Bool)));
        decls
    }

    /// The initial store for this configuration.
    pub fn store(&self) -> (r: ConfigStore)
        ensures
            r@ == seq![FieldModel::Scalar(ScalarModel::Bool(self.debug))],
    {
        let mut values: Vec<FieldValue> = Vec::new();
        values.push(FieldValue::Scalar(ScalarValue::Bool(self.debug)));
        let store = ConfigStore::new(values);
        proof {
            assert(store@ =~= seq![FieldModel::Scalar(ScalarModel::Bool(self.debug))]);
        }
        store
    }
}

/// A configuration of one string field.
#[derive(Debug, Clone, PartialEq, Eq)]
pub struct StringConfig {
    pub string: String,
}

impl StringConfig {
    /// The field declarations, in order.
    pub fn field_decls() -> (r: Vec<FieldDecl>)
        ensures
            r@.len() == 1,
            r@[0]@.name == "string"@,
            render_spec(r@[0]@.ty) == "String"@,
            r@[0]@.value_type == ValueType::Scalar(ScalarType::Text),
            r@[0]@.annotations.len() == 0,
    {
        let mut decls: Vec<FieldDecl> = Vec::new();
        decls.push(plain_field("string", "String", ValueType::Scalar(ScalarType::Text)));
        decls
    }

    /// The initial store for this configuration.
    pub fn store(&self) -> (r: ConfigStore)
        ensures
            r@ == seq![FieldModel::Scalar(ScalarModel::Text(self.string@))],
    {
        let mut values: Vec<FieldValue> = Vec::new();
        values.push(FieldValue::Scalar(ScalarValue::Text(self.string.clone())));
        let store = ConfigStore::new(values);
        proof {
            assert(store@ =~= seq![FieldModel::Scalar(ScalarModel::Text(self.string@))]);
        }
        store
    }
}

/// A configuration of two optional fields.
#[derive(Debug, Clone, PartialEq, Eq)]
pub struct OptionConfig {
    pub character: Option<char>,
    pub empty: Option<bool>,
}

impl OptionConfig {
    /// The field declarations, in order.
    pub fn field_decls() -> (r: Vec<FieldDecl>)
        ensures
            r@.len() == 2,
            r@[0]@.name == "character"@,
            render_spec(r@[0]@.ty) == "Option"@ + "<"@ + "char"@ + ">"@,
            r@[0]@.value_type == ValueType::Optional(ScalarType::Char),
            r@[1]@.name == "empty"@,
            render_spec(r@[1]@.ty) == "Option"@ + "<"@ + "bool"@ + ">"@,
            r@[1]@.value_type == ValueType::Optional(ScalarType::Bool),
    {
        let mut decls: Vec<FieldDecl> = Vec::new();
        decls.push(generic_field("character", "Option", "char", ValueType::Optional(ScalarType::Char)));
        decls.push(generic_field("empty", "Option", "bool", ValueType::Optional(ScalarType::Bool)));
        decls
    }

    /// The initial store for this configuration.
    pub fn store(&self) -> (r: ConfigStore)
        ensures
            r@.len() == 2,
            r@[0] == FieldModel::Optional(
                if self.character is Some {
                    Some(ScalarModel::Char(self.character->0))
                } else {
                    None
                },
            ),
            r@[1] == FieldModel::Optional(
                if self.empty is Some {
                    Some(ScalarModel::Bool(self.empty->0))
                } else {
                    None
                },
            ),
    {
        let character: Option<ScalarValue> = if self.character.is_some() {
            Some(crate::value::char_scalar(self.character.unwrap()))
        } else {
            None
        };
        let empty: Option<ScalarValue> = if self.empty.is_some() {
            Some(ScalarValue::Bool(self.empty.unwrap()))
        } else {
            None
        };
        let mut values: Vec<FieldValue> = Vec::new();
        values.push(FieldValue::Optional(character));
        values.push(FieldValue::Optional(empty));
        let ghost vm = values@;
        let store = ConfigStore::new(values);
        proof {
            assert(store@.len() == 2);
            assert(store@[0] == vm[0]@);
            assert(store@[1] == vm[1]@);
        }
        store
    }
}

} // verus!
