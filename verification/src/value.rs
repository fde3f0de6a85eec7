//! The dynamic values a configuration field can hold, and the field types
//! the serialization backends understand.

use vstd::prelude::*;

verus! {

/// The scalar type of a field, as far as the codecs are concerned.
#[derive(Debug, Clone, Copy, PartialEq, Eq)]
pub enum ScalarType {
    Bool,
    Char,
    I8,
    I16,
    I32,
    I64,
    I128,
    U8,
    U16,
    U32,
    U64,
    U128,
    USize,
    ISize,
    Text,
}

/// The serialization type of a field: a scalar, an optional scalar, a
/// sequence of scalars, or a string-keyed mapping of scalars.
#[derive(Debug, Clone, Copy, PartialEq, Eq)]
pub enum ValueType {
    Scalar(ScalarType),
    Optional(ScalarType),
    Sequence(ScalarType),
    Mapping(ScalarType),
}

/// A scalar value held by a field.
#[derive(Debug, Clone, PartialEq, Eq)]
pub enum ScalarValue {
    Bool(bool),
    Char(char),
    Int(i128),
    Uint(u128),
    Text(String),
}

/// A field's current value.
#[derive(Debug, Clone, PartialEq, Eq)]
pub enum FieldValue {
    Scalar(ScalarValue),
    Optional(Option<ScalarValue>),
    Sequence(Vec<ScalarValue>),
    Mapping(Vec<(String, ScalarValue)>),
}

/// Mathematical model of a scalar value.
pub enum ScalarModel {
    Bool(bool),
    Char(char),
    Int(int),
    Uint(nat),
    Text(Seq<char>),
}

/// Mathematical model of a field value.
pub enum FieldModel {
    Scalar(ScalarModel),
    Optional(Option<ScalarModel>),
    Sequence(Seq<ScalarModel>),
    Mapping(Seq<(Seq<char>, ScalarModel)>),
}

impl View for ScalarValue {
    type V = ScalarModel;

    open spec fn view(&self) -> ScalarModel {
        match self {
            ScalarValue::Bool(b) => ScalarModel::Bool(*b),
            ScalarValue::Char(c) => ScalarModel::Char(*c),
            ScalarValue::Int(i) => ScalarModel::Int(*i as int),
            ScalarValue::Uint(u) => ScalarModel::Uint(*u as nat),
            ScalarValue::Text(s) => ScalarModel::Text(s@),
        }
    }
}

impl View for FieldValue {
    type V = FieldModel;

    open spec fn view(&self) -> FieldModel {
        match self {
            FieldValue::Scalar(s) => FieldModel::Scalar(s@),
            FieldValue::Optional(o) => FieldModel::Optional(
                match o {
                    Some(s) => Some(s@),
                    None => None,
                },
            ),
            FieldValue::Sequence(v) => FieldModel::Sequence(v@.map_values(|s: ScalarValue| s@)),
            FieldValue::Mapping(v) => FieldModel::Mapping(
                v@.map_values(|p: (String, ScalarValue)| (p.0@, p.1@)),
            ),
        }
    }
}

/// The smallest value admitted by a signed scalar type (0 for the others).
pub open spec fn int_min(t: ScalarType) -> int {
    match t {
        ScalarType::I8 => i8::MIN as int,
        ScalarType::I16 => i16::MIN as int,
        ScalarType::I32 => i32::MIN as int,
        ScalarType::I64 => i64::MIN as int,
        ScalarType::I128 => i128::MIN as int,
        ScalarType::ISize => isize::MIN as int,
        _ => 0,
    }
}

/// The largest value admitted by a numeric scalar type (0 for the others).
pub open spec fn int_max(t: ScalarType) -> int {
    match t {
        ScalarType::I8 => i8::MAX as int,
        ScalarType::I16 => i16::MAX as int,
        ScalarType::I32 => i32::MAX as int,
        ScalarType::I64 => i64::MAX as int,
        ScalarType::I128 => i128::MAX as int,
        ScalarType::U8 => u8::MAX as int,
        ScalarType::U16 => u16::MAX as int,
        ScalarType::U32 => u32::MAX as int,
        ScalarType::U64 => u64::MAX as int,
        ScalarType::U128 => u128::MAX as int,
        ScalarType::USize => usize::MAX as int,
        ScalarType::ISize => isize::MAX as int,
        _ => 0,
    }
}

/// Whether `t` is one of the signed integer scalar types.
pub open spec fn is_signed(t: ScalarType) -> bool {
    t == ScalarType::I8 || t == ScalarType::I16 || t == ScalarType::I32 || t == ScalarType::I64
        || t == ScalarType::I128 || t == ScalarType::ISize
}

/// Whether `t` is one of the unsigned integer scalar types.
pub open spec fn is_unsigned(t: ScalarType) -> bool {
    t == ScalarType::U8 || t == ScalarType::U16 || t == ScalarType::U32 || t == ScalarType::U64
        || t == ScalarType::U128 || t == ScalarType::USize
}

/// Whether the scalar value `v` inhabits the scalar type `t`.
pub open spec fn scalar_well_typed(v: ScalarModel, t: ScalarType) -> bool {
    match v {
        ScalarModel::Bool(_) => t == ScalarType::Bool,
        ScalarModel::Char(_) => t == ScalarType::Char,
        ScalarModel::Int(i) => is_signed(t) && int_min(t) <= i <= int_max(t),
        ScalarModel::Uint(u) => is_unsigned(t) && u <= int_max(t),
        ScalarModel::Text(_) => t == ScalarType::Text,
    }
}

/// Whether the field value `v` inhabits the field type `t`.
pub open spec fn well_typed(v: FieldModel, t: ValueType) -> bool {
    match t {
        ValueType::Scalar(st) => v matches FieldModel::Scalar(s) && scalar_well_typed(s, st),
        ValueType::Optional(st) => v matches FieldModel::Optional(o) && (o matches Some(s)
            ==> scalar_well_typed(o->0, st)),
        ValueType::Sequence(st) => v matches FieldModel::Sequence(items) && (forall|i: int|
            0 <= i < items.len() ==> scalar_well_typed(#[trigger] items[i], st)),
        ValueType::Mapping(st) => v matches FieldModel::Mapping(pairs) && (forall|i: int|
            0 <= i < pairs.len() ==> scalar_well_typed(#[trigger] pairs[i].1, st)),
    }
}

/// The largest magnitude accepted by `t`, for executable range checks on
/// unsigned parses.
pub fn uint_bound(t: ScalarType) -> (r: u128)
    requires
        is_unsigned(t),
    ensures
        r as int == int_max(t),
{
    match t {
        ScalarType::U8 => u8::MAX as u128,
        ScalarType::U16 => u16::MAX as u128,
        ScalarType::U32 => u32::MAX as u128,
        ScalarType::U64 => u64::MAX as u128,
        ScalarType::USize => usize::MAX as u128,
        _ => u128::MAX,
    }
}

/// The bounds accepted by the signed type `t`, for executable range checks.
pub fn int_bounds(t: ScalarType) -> (r: (i128, i128))
    requires
        is_signed(t),
    ensures
        r.0 as int == int_min(t),
        r.1 as int == int_max(t),
{
    match t {
        ScalarType::I8 => (i8::MIN as i128, i8::MAX as i128),
        ScalarType::I16 => (i16::MIN as i128, i16::MAX as i128),
        ScalarType::I32 => (i32::MIN as i128, i32::MAX as i128),
        ScalarType::I64 => (i64::MIN as i128, i64::MAX as i128),
        ScalarType::ISize => (isize::MIN as i128, isize::MAX as i128),
        _ => (i128::MIN, i128::MAX),
    }
}

/// Wraps a character as a scalar value.
pub fn char_scalar(c: char) -> (r: ScalarValue)
    ensures
        r == ScalarValue::Char(c),
{
    ScalarValue::Char(c)
}

} // verus!
