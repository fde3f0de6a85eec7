//! Example configurations served by the structured backend.

use vstd::prelude::*;
use crate::attributes::{AnnotationDecl, AnnotationValue, FieldDecl};
use crate::configs::text::{generic_field, plain_field};
use crate::store::ConfigStore;
use crate::types::render_spec;
use crate::value::{FieldModel, FieldValue, ScalarModel, ScalarType, ScalarValue, ValueType};

verus! {

/// The struct-level annotations selecting the structured backend.
pub fn structured_annotations() -> (r: Vec<AnnotationDecl>)
    ensures
        r@.len() == 1,
        r@[0]@.name == "json"@,
        r@[0]@.value is Flag,
{
    let mut anns: Vec<AnnotationDecl> = Vec::new();
    anns.push(AnnotationDecl { name: String::from_str("json"), value: AnnotationValue::Flag });
    anns
}

/// A configuration of one string field, served as structured data.
#[derive(Debug, Clone, PartialEq, Eq)]
pub struct StringConfig {
    pub string: String,
}

impl StringConfig {
    /// The field declarations, in order.
    pub fn field_decls() -> (r: Vec<FieldDecl>)
        ensures
            r@.len() == 1,
            r@[0]@.name == "string"@,
            render_spec(r@[0]@.ty) == "String"@,
            r@[0]@.value_type == ValueType::Scalar(ScalarType::Text),
    {
        let mut decls: Vec<FieldDecl> = Vec::new();
        decls.push(plain_field("string", "String", ValueType::Scalar(ScalarType::Text)));
        decls
    }

    /// The initial store for this configuration.
    pub fn store(&self) -> (r: ConfigStore)
        ensures
            r@ == seq![FieldModel::Scalar(ScalarModel::Text(self.string@))],
    {
        let mut values: Vec<FieldValue> = Vec::new();
        values.push(FieldValue::Scalar(ScalarValue::Text(self.string.clone())));
        let store = ConfigStore::new(values);
        proof {
            assert(store@ =~= seq![FieldModel::Scalar(ScalarModel::Text(self.string@))]);
        }
        store
    }
}

/// A configuration of two optional fields, served as structured data.
#[derive(Debug, Clone, PartialEq, Eq)]
pub struct OptionConfig {
    pub character: Option<char>,
    pub empty: Option<bool>,
}

impl OptionConfig {
    /// The field declarations, in order.
    pub fn field_decls() -> (r: Vec<FieldDecl>)
        ensures
            r@.len() == 2,
            r@[0]@.name == "character"@,
            r@[0]@.value_type == ValueType::Optional(ScalarType::Char),
            r@[1]@.name == "empty"@,
            r@[1]@.value_type == ValueType::Optional(ScalarType::Bool),
    {
        let mut decls: Vec<FieldDecl> = Vec::new();
        decls.push(generic_field("character", "Option", "char", ValueType::Optional(ScalarType::Char)));
        decls.push(generic_field("empty", "Option", "bool", ValueType::Optional(ScalarType::Bool)));
        decls
    }

    /// The initial store for this configuration.
    pub fn store(&self) -> (r: ConfigStore)
        ensures
            r@.len() == 2,
            r@[0] == FieldModel::Optional(
                if self.character is Some {
                    Some(ScalarModel::Char(self.character->0))
                } else {
                    None
                },
            ),
            r@[1] == FieldModel::Optional(
                if self.empty is Some {
                    Some(ScalarModel::Bool(self.empty->0))
                } else {
                    None
                },
            ),
    {
        let character: Option<ScalarValue> = if self.character.is_some() {
            Some(crate::value::char_scalar(self.character.unwrap()))
        } else {
            None
        };
        let empty: Option<ScalarValue> = if self.empty.is_some() {
            Some(ScalarValue::Bool(self.empty.unwrap()))
        } else {
            None
        };
        let mut values: Vec<FieldValue> = Vec::new();
        values.push(FieldValue::Optional(character));
        values.push(FieldValue::Optional(empty));
        let ghost vm = values@;
        let store = ConfigStore::new(values);
        proof {
            assert(vm.len() == 2);
            assert(store@ == vm.map_values(|v: FieldValue| v@));
            assert(store@.len() == 2);
            assert(store@[0] == vm[0]@);
            assert(store@[1] == vm[1]@);
        }
        store
    }
}

/// A configuration of one byte-sequence field, served as structured data.
#[derive(Debug, Clone, PartialEq, Eq)]
pub struct VecConfig {
    pub vector: Vec<u8>,
}

impl VecConfig {
    /// The example instance holding the bytes 1, 2 and 3.
    pub fn new() -> (r: Self)
        ensures
            r.vector@ == seq![1u8, 2u8, 3u8],
    {
        let mut vector: Vec<u8> = Vec::new();
        vector.push(1);
        vector.push(2);
        vector.push(3);
        assert(vector@ =~= seq![1u8, 2u8, 3u8]);
        VecConfig { vector }
    }

    /// The field declarations, in order.
    pub fn field_decls() -> (r: Vec<FieldDecl>)
        ensures
            r@.len() == 1,
            r@[0]@.name == "vector"@,
            render_spec(r@[0]@.ty) == "Vec"@ + "<"@ + "u8"@ + ">"@,
            r@[0]@.value_type == ValueType::Sequence(ScalarType::U8),
    {
        let mut decls: Vec<FieldDecl> = Vec::new();
        decls.push(generic_field("vector", "Vec", "u8", ValueType::Sequence(ScalarType::U8)));
        decls
    }

    /// The initial store for this configuration.
    pub fn store(&self) -> (r: ConfigStore)
        ensures
            r@.len() == 1,
            r@[0] matches FieldModel::Sequence(items) && items.len() == self.vector@.len()
                && forall|k: int|
                0 <= k < self.vector@.len() ==> #[trigger] (r@[0]->Sequence_0[k])
                    == ScalarModel::Uint(self.vector@[k] as nat),
    {
        let mut items: Vec<ScalarValue> = Vec::new();
        let mut i: usize = 0;
        while i < self.vector.len()
            invariant
                0 <= i <= self.vector@.len(),
                items@.len() == i,
                forall|k: int|
                    0 <= k < i ==> (#[trigger] items@[k])@ == ScalarModel::Uint(
                        self.vector@[k] as nat,
                    ),
            decreases self.vector@.len() - i,
        {
            items.push(ScalarValue::Uint(self.vector[i] as u128));
            i = i + 1;
        }
        let mut values: Vec<FieldValue> = Vec::new();
        values.push(FieldValue::Sequence(items));
        let ghost vm = values@;
        let store = ConfigStore::new(values);
        proof {
            assert(store@ =~= seq![vm[0]@]);
            assert(store@[0] == vm[0]@);
        }
        store
    }
}

} // verus!
