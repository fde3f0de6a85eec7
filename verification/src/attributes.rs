//! The attribute resolver: turns struct-level and field-level annotation
//! declarations into a normalized, compiled schema, or rejects them with a
//! schema error before any route is built.

use vstd::prelude::*;
use crate::chars::str_to_chars;
use crate::error::{SchemaError, SchemaErrorModel};
use crate::text_codec::chars_eq;
use crate::types::{render, render_result, TypeExpr, RENDER_DEPTH_LIMIT};
use crate::value::ValueType;

verus! {

/// The value carried by an annotation: a bare flag, a string literal, or a
/// reference to a host-registered callback.
#[derive(Debug, Clone, PartialEq, Eq)]
pub enum AnnotationValue {
    Flag,
    Text(String),
    Callback(u64),
}

/// One annotation as declared, by name.
#[derive(Debug, Clone, PartialEq, Eq)]
pub struct AnnotationDecl {
    pub name: String,
    pub value: AnnotationValue,
}

/// One field as declared: its name, its declared type (for display), the
/// serialization type the codecs use for it, and its annotations.
#[derive(Debug, PartialEq, Eq)]
pub struct FieldDecl {
    pub name: String,
    pub ty: TypeExpr,
    pub value_type: ValueType,
    pub annotations: Vec<AnnotationDecl>,
}

/// Which serialization backend the schema uses.
#[derive(Debug, Clone, Copy, PartialEq, Eq)]
pub enum Serialization {
    Text,
    Structured,
}

/// The concurrency discipline guarding the stored values.
#[derive(Debug, Clone, Copy, PartialEq, Eq)]
pub enum LockKind {
    Unshared,
    Exclusive,
    ReadWrite,
}

/// The resolved struct-level annotations.
#[derive(Debug, Clone, PartialEq, Eq)]
pub struct StructAttributes {
    pub root_path: String,
    pub root_message: Option<String>,
    pub serialization: Serialization,
    pub lock_kind: LockKind,
}

/// The resolved field-level annotations.
#[derive(Debug, Clone, Copy, PartialEq, Eq)]
pub struct FieldAttributes {
    pub skip: bool,
    pub hide_read: bool,
    pub hide_write: bool,
    pub on_set: Option<u64>,
    pub validator: Option<u64>,
}

/// One compiled field: name, display type, codec type, and attributes.
#[derive(Debug, PartialEq, Eq)]
pub struct FieldSpec {
    pub name: String,
    pub ty: TypeExpr,
    pub rendered_type: String,
    pub value_type: ValueType,
    pub attributes: FieldAttributes,
}

/// The compiled schema: the fields in declaration order plus the resolved
/// struct attributes. Built once, read-only thereafter.
#[derive(Debug, PartialEq, Eq)]
pub struct CompiledSchema {
    pub fields: Vec<FieldSpec>,
    pub attributes: StructAttributes,
}

/// Mathematical model of an annotation value.
pub enum AnnotationValueModel {
    Flag,
    Text(Seq<char>),
    Callback(u64),
}

/// Mathematical model of an annotation declaration.
pub struct AnnotationModel {
    pub name: Seq<char>,
    pub value: AnnotationValueModel,
}

/// Mathematical model of a field declaration.
pub struct FieldDeclModel {
    pub name: Seq<char>,
    pub ty: TypeExpr,
    pub value_type: ValueType,
    pub annotations: Seq<AnnotationModel>,
}

/// Mathematical model of a compiled field.
pub struct FieldSpecModel {
    pub name: Seq<char>,
    pub ty: TypeExpr,
    pub rendered: Seq<char>,
    pub value_type: ValueType,
    pub attributes: FieldAttributes,
}

/// Mathematical model of the resolved struct attributes.
pub struct StructAttributesModel {
    pub root_path: Seq<char>,
    pub root_message: Option<Seq<char>>,
    pub serialization: Serialization,
    pub lock_kind: LockKind,
}

/// Mathematical model of a compiled schema.
pub struct SchemaModel {
    pub fields: Seq<FieldSpecModel>,
    pub attributes: StructAttributesModel,
}

impl View for AnnotationDecl {
    type V = AnnotationModel;

    open spec fn view(&self) -> AnnotationModel {
        AnnotationModel {
            name: self.name@,
            value: match self.value {
                AnnotationValue::Flag => AnnotationValueModel::Flag,
                AnnotationValue::Text(s) => AnnotationValueModel::Text(s@),
                AnnotationValue::Callback(id) => AnnotationValueModel::Callback(id),
            },
        }
    }
}

impl View for FieldDecl {
    type V = FieldDeclModel;

    open spec fn view(&self) -> FieldDeclModel {
        FieldDeclModel {
            name: self.name@,
            ty: self.ty,
            value_type: self.value_type,
            annotations: self.annotations@.map_values(|a: AnnotationDecl| a@),
        }
    }
}

impl View for FieldSpec {
    type V = FieldSpecModel;

    open spec fn view(&self) -> FieldSpecModel {
        FieldSpecModel {
            name: self.name@,
            ty: self.ty,
            rendered: self.rendered_type@,
            value_type: self.value_type,
            attributes: self.attributes,
        }
    }
}

impl View for StructAttributes {
    type V = StructAttributesModel;

    open spec fn view(&self) -> StructAttributesModel {
        StructAttributesModel {
            root_path: self.root_path@,
            root_message: match self.root_message {
                Some(m) => Some(m@),
                None => None,
            },
            serialization: self.serialization,
            lock_kind: self.lock_kind,
        }
    }
}

impl View for CompiledSchema {
    type V = SchemaModel;

    open spec fn view(&self) -> SchemaModel {
        SchemaModel {
            fields: self.fields@.map_values(|f: FieldSpec| f@),
            attributes: self.attributes@,
        }
    }
}

/// Whether the annotation's name and value shape are one of the known
/// forms.
pub open spec fn ann_known(a: AnnotationModel) -> bool {
    match a.value {
        AnnotationValueModel::Flag => a.name == "json"@ || a.name == "skip"@ || a.name
            == "hide_get"@ || a.name == "hide_put"@ || a.name == "rw_lock"@,
        AnnotationValueModel::Text(_) => a.name == "path"@ || a.name == "message"@,
        AnnotationValueModel::Callback(_) => a.name == "on_set"@ || a.name == "validator"@,
    }
}

/// Whether the (known) annotation may only appear at struct level; the
/// remaining known annotations may only appear at field level.
pub open spec fn ann_struct_level(name: Seq<char>) -> bool {
    name == "json"@ || name == "path"@ || name == "message"@ || name == "rw_lock"@
}

/// The error an annotation raises at the given level, if any: an empty
/// root path, an unknown name or shape, or a placement at the wrong level.
pub open spec fn ann_error(a: AnnotationModel, at_struct: bool) -> Option<SchemaErrorModel> {
    if a.value matches AnnotationValueModel::Text(t) && a.name == "path"@ && t.len() == 0 {
        Some(SchemaErrorModel::EmptyValueError("path"@))
    } else if !ann_known(a) {
        Some(SchemaErrorModel::UnknownAttributeError(a.name))
    } else if at_struct && !ann_struct_level(a.name) {
        Some(SchemaErrorModel::PlacementError { name: a.name, struct_level: false })
    } else if !at_struct && ann_struct_level(a.name) {
        Some(SchemaErrorModel::PlacementError { name: a.name, struct_level: true })
    } else {
        None
    }
}

/// Accumulator for the struct-level annotations.
pub struct StructAcc {
    pub root_path: Option<Seq<char>>,
    pub root_message: Option<Seq<char>>,
    pub structured: bool,
    pub rw_lock: bool,
}

/// The empty struct-annotation accumulator.
pub open spec fn struct_acc_init() -> StructAcc {
    StructAcc { root_path: None, root_message: None, structured: false, rw_lock: false }
}

/// Applies one struct-level annotation; a repeated annotation overwrites
/// the earlier one.
pub open spec fn struct_acc_step(acc: StructAcc, a: AnnotationModel) -> Result<
    StructAcc,
    SchemaErrorModel,
> {
    match ann_error(a, true) {
        Some(e) => Err(e),
        None => Ok(
            if a.name == "json"@ {
                StructAcc { structured: true, ..acc }
            } else if a.name == "path"@ {
                StructAcc { root_path: Some(a.value->Text_0), ..acc }
            } else if a.name == "message"@ {
                StructAcc { root_message: Some(a.value->Text_0), ..acc }
            } else {
                StructAcc { rw_lock: true, ..acc }
            },
        ),
    }
}

/// Folds the struct-level annotations left to right; the first error wins.
pub open spec fn fold_struct_attrs(anns: Seq<AnnotationModel>) -> Result<
    StructAcc,
    SchemaErrorModel,
>
    decreases anns.len(),
{
    if anns.len() == 0 {
        Ok(struct_acc_init())
    } else {
        match fold_struct_attrs(anns.drop_last()) {
            Ok(acc) => struct_acc_step(acc, anns.last()),
            Err(e) => Err(e),
        }
    }
}

/// The field attributes with nothing set.
pub open spec fn field_attrs_init() -> FieldAttributes {
    FieldAttributes { skip: false, hide_read: false, hide_write: false, on_set: None, validator: None }
}

/// Applies one field-level annotation.
pub open spec fn field_acc_step(acc: FieldAttributes, a: AnnotationModel) -> Result<
    FieldAttributes,
    SchemaErrorModel,
> {
    match ann_error(a, false) {
        Some(e) => Err(e),
        None => Ok(
            if a.name == "skip"@ {
                FieldAttributes { skip: true, ..acc }
            } else if a.name == "hide_get"@ {
                FieldAttributes { hide_read: true, ..acc }
            } else if a.name == "hide_put"@ {
                FieldAttributes { hide_write: true, ..acc }
            } else if a.name == "on_set"@ {
                FieldAttributes { on_set: Some(a.value->Callback_0), ..acc }
            } else {
                FieldAttributes { validator: Some(a.value->Callback_0), ..acc }
            },
        ),
    }
}

/// Folds the field-level annotations left to right; the first error wins.
pub open spec fn fold_field_attrs(anns: Seq<AnnotationModel>) -> Result<
    FieldAttributes,
    SchemaErrorModel,
>
    decreases anns.len(),
{
    if anns.len() == 0 {
        Ok(field_attrs_init())
    } else {
        match fold_field_attrs(anns.drop_last()) {
            Ok(acc) => field_acc_step(acc, anns.last()),
            Err(e) => Err(e),
        }
    }
}

/// When the annotations before `j` fold cleanly and annotation `j` fails,
/// that failure is the outcome for the whole struct-annotation list.
pub proof fn lemma_fold_struct_err_at(anns: Seq<AnnotationModel>, j: int)
    requires
        0 <= j < anns.len(),
        fold_struct_attrs(anns.take(j)) is Ok,
        struct_acc_step(fold_struct_attrs(anns.take(j))->Ok_0, anns[j]) is Err,
    ensures
        fold_struct_attrs(anns) == struct_acc_step(fold_struct_attrs(anns.take(j))->Ok_0, anns[j]),
    decreases anns.len(),
{
    if j == anns.len() - 1 {
        assert(anns.drop_last() =~= anns.take(j));
    } else {
        assert(anns.drop_last().take(j) =~= anns.take(j));
        assert(anns.drop_last()[j] == anns[j]);
        lemma_fold_struct_err_at(anns.drop_last(), j);
    }
}

/// Companion of [`lemma_fold_struct_err_at`] for field annotations.
pub proof fn lemma_fold_field_err_at(anns: Seq<AnnotationModel>, j: int)
    requires
        0 <= j < anns.len(),
        fold_field_attrs(anns.take(j)) is Ok,
        field_acc_step(fold_field_attrs(anns.take(j))->Ok_0, anns[j]) is Err,
    ensures
        fold_field_attrs(anns) == field_acc_step(fold_field_attrs(anns.take(j))->Ok_0, anns[j]),
    decreases anns.len(),
{
    if j == anns.len() - 1 {
        assert(anns.drop_last() =~= anns.take(j));
    } else {
        assert(anns.drop_last().take(j) =~= anns.take(j));
        assert(anns.drop_last()[j] == anns[j]);
        lemma_fold_field_err_at(anns.drop_last(), j);
    }
}

/// Resolves one field: its attributes first, then — unless the field is
/// skipped — its display type.
pub open spec fn resolve_field(d: FieldDeclModel) -> Result<FieldSpecModel, SchemaErrorModel> {
    match fold_field_attrs(d.annotations) {
        Err(e) => Err(e),
        Ok(attrs) => if attrs.skip {
            Ok(
                FieldSpecModel {
                    name: d.name,
                    ty: d.ty,
                    rendered: Seq::<char>::empty(),
                    value_type: d.value_type,
                    attributes: attrs,
                },
            )
        } else {
            match render_result(d.ty, RENDER_DEPTH_LIMIT as nat) {
                Ok(r) => Ok(
                    FieldSpecModel {
                        name: d.name,
                        ty: d.ty,
                        rendered: r,
                        value_type: d.value_type,
                        attributes: attrs,
                    },
                ),
                Err(e) => Err(e@),
            }
        },
    }
}

/// Resolves the fields in declaration order; the first error wins.
pub open spec fn resolve_fields(decls: Seq<FieldDeclModel>) -> Result<
    Seq<FieldSpecModel>,
    SchemaErrorModel,
>
    decreases decls.len(),
{
    if decls.len() == 0 {
        Ok(Seq::<FieldSpecModel>::empty())
    } else {
        match resolve_fields(decls.drop_last()) {
            Ok(rest) => match resolve_field(decls.last()) {
                Ok(f) => Ok(rest.push(f)),
                Err(e) => Err(e),
            },
            Err(e) => Err(e),
        }
    }
}

/// When the declarations before `j` resolve and declaration `j` fails,
/// that failure is the outcome for the whole declaration list.
pub proof fn lemma_resolve_fields_err_at(decls: Seq<FieldDeclModel>, j: int)
    requires
        0 <= j < decls.len(),
        resolve_fields(decls.take(j)) is Ok,
        resolve_field(decls[j]) is Err,
    ensures
        resolve_fields(decls) == Result::<Seq<FieldSpecModel>, SchemaErrorModel>::Err(
            resolve_field(decls[j])->Err_0,
        ),
    decreases decls.len(),
{
    if j == decls.len() - 1 {
        assert(decls.drop_last() =~= decls.take(j));
    } else {
        assert(decls.drop_last().take(j) =~= decls.take(j));
        assert(decls.drop_last()[j] == decls[j]);
        lemma_resolve_fields_err_at(decls.drop_last(), j);
    }
}

/// The struct attributes the accumulator resolves to: the root path
/// defaults to `config`, and `rw_lock` selects the reader/writer lock over
/// the single exclusive lock.
pub open spec fn acc_to_attrs(acc: StructAcc) -> StructAttributesModel {
    StructAttributesModel {
        root_path: match acc.root_path {
            Some(p) => p,
            None => "config"@,
        },
        root_message: acc.root_message,
        serialization: if acc.structured {
            Serialization::Structured
        } else {
            Serialization::Text
        },
        lock_kind: if acc.rw_lock {
            LockKind::ReadWrite
        } else {
            LockKind::Exclusive
        },
    }
}

/// The whole resolution pass: struct annotations, the conflict check
/// between the structured index and a custom root message, then the fields
/// in order.
pub open spec fn resolve_spec(
    struct_anns: Seq<AnnotationModel>,
    decls: Seq<FieldDeclModel>,
) -> Result<SchemaModel, SchemaErrorModel> {
    match fold_struct_attrs(struct_anns) {
        Err(e) => Err(e),
        Ok(acc) => if acc.structured && acc.root_message is Some {
            Err(SchemaErrorModel::ConflictingAttributesError)
        } else {
            match resolve_fields(decls) {
                Ok(fields) => Ok(SchemaModel { fields, attributes: acc_to_attrs(acc) }),
                Err(e) => Err(e),
            }
        },
    }
}

/// Whether the string equals the literal.
pub fn str_eq_lit(s: &str, lit: &str) -> (r: bool)
    ensures
        r == (s@ == lit@),
{
    let cs = str_to_chars(s);
    chars_eq(&cs, lit)
}

/// The known annotation names are pairwise distinct where the resolver
/// needs to tell them apart, and each sits at its level.
pub proof fn lemma_attr_names()
    ensures
        ann_struct_level("json"@),
        ann_struct_level("path"@),
        ann_struct_level("message"@),
        ann_struct_level("rw_lock"@),
        !ann_struct_level("skip"@),
        !ann_struct_level("hide_get"@),
        !ann_struct_level("hide_put"@),
        !ann_struct_level("on_set"@),
        !ann_struct_level("validator"@),
        "on_set"@ != "json"@ && "on_set"@ != "skip"@ && "on_set"@ != "hide_get"@ && "on_set"@
            != "hide_put"@ && "on_set"@ != "rw_lock"@ && "on_set"@ != "path"@ && "on_set"@
            != "message"@,
        "validator"@ != "json"@ && "validator"@ != "skip"@ && "validator"@ != "hide_get"@
            && "validator"@ != "hide_put"@ && "validator"@ != "rw_lock"@ && "validator"@ != "path"@
            && "validator"@ != "message"@,
        "path"@ != "json"@ && "path"@ != "skip"@ && "path"@ != "hide_get"@ && "path"@
            != "hide_put"@ && "path"@ != "rw_lock"@,
        "message"@ != "json"@ && "message"@ != "skip"@ && "message"@ != "hide_get"@ && "message"@
            != "hide_put"@ && "message"@ != "rw_lock"@,
{
    reveal_strlit("json");
    reveal_strlit("skip");
    reveal_strlit("hide_get");
    reveal_strlit("hide_put");
    reveal_strlit("rw_lock");
    reveal_strlit("path");
    reveal_strlit("message");
    reveal_strlit("on_set");
    reveal_strlit("validator");
    assert("json"@[0] == 'j' && "skip"@[0] == 's' && "path"@[0] == 'p' && "message"@[0] == 'm'
        && "rw_lock"@[0] == 'r' && "hide_get"@[0] == 'h' && "hide_put"@[0] == 'h' && "on_set"@[0]
        == 'o' && "validator"@[0] == 'v');
}

/// Checks one annotation at the given level, mirroring [`ann_error`].
fn ann_check(a: &AnnotationDecl, at_struct: bool) -> (r: Option<SchemaError>)
    ensures
        match r {
            Some(e) => ann_error(a@, at_struct) == Some(e@),
            None => ann_error(a@, at_struct) is None,
        },
{
    proof {
        lemma_attr_names();
    }
    match &a.value {
        AnnotationValue::Text(t) => {
            let is_path = str_eq_lit(a.name.as_str(), "path");
            if is_path && t.as_str().is_empty() {
                return Some(SchemaError::EmptyValueError { name: String::from_str("path") });
            }
            if !(is_path || str_eq_lit(a.name.as_str(), "message")) {
                return Some(SchemaError::UnknownAttributeError { name: a.name.clone() });
            }
            assert(ann_known(a@) && ann_struct_level(a@.name));
            if !at_struct {
                Some(SchemaError::PlacementError { name: a.name.clone(), struct_level: true })
            } else {
                None
            }
        },
        AnnotationValue::Flag => {
            let struct_level = str_eq_lit(a.name.as_str(), "json") || str_eq_lit(
                a.name.as_str(),
                "rw_lock",
            );
            let known = struct_level || str_eq_lit(a.name.as_str(), "skip") || str_eq_lit(
                a.name.as_str(),
                "hide_get",
            ) || str_eq_lit(a.name.as_str(), "hide_put");
            if !known {
                return Some(SchemaError::UnknownAttributeError { name: a.name.clone() });
            }
            assert(ann_known(a@));
            assert(struct_level == ann_struct_level(a@.name));
            if at_struct && !struct_level {
                Some(SchemaError::PlacementError { name: a.name.clone(), struct_level: false })
            } else if !at_struct && struct_level {
                Some(SchemaError::PlacementError { name: a.name.clone(), struct_level: true })
            } else {
                None
            }
        },
        AnnotationValue::Callback(_) => {
            let known = str_eq_lit(a.name.as_str(), "on_set") || str_eq_lit(
                a.name.as_str(),
                "validator",
            );
            if !known {
                return Some(SchemaError::UnknownAttributeError { name: a.name.clone() });
            }
            assert(ann_known(a@) && !ann_struct_level(a@.name));
            if at_struct {
                Some(SchemaError::PlacementError { name: a.name.clone(), struct_level: false })
            } else {
                None
            }
        },
    }
}

/// Resolves the field-level annotations of one field.
fn resolve_field_attrs(anns: &Vec<AnnotationDecl>) -> (r: Result<FieldAttributes, SchemaError>)
    ensures
        match fold_field_attrs(anns@.map_values(|a: AnnotationDecl| a@)) {
            Ok(m) => r matches Ok(attrs) && attrs == m,
            Err(e) => r matches Err(x) && x@ == e,
        },
{
    let ghost models = anns@.map_values(|a: AnnotationDecl| a@);
    let mut attrs = FieldAttributes {
        skip: false,
        hide_read: false,
        hide_write: false,
        on_set: None,
        validator: None,
    };
    let mut i: usize = 0;
    while i < anns.len()
        invariant
            0 <= i <= anns@.len(),
            models == anns@.map_values(|a: AnnotationDecl| a@),
            fold_field_attrs(models.take(i as int)) == Ok::<FieldAttributes, SchemaErrorModel>(
                attrs,
            ),
        decreases anns@.len() - i,
    {
        let a = &anns[i];
        proof {
            lemma_attr_names();
            assert(models[i as int] == a@);
            assert(models.take(i + 1 as int).drop_last() =~= models.take(i as int));
            assert(models.take(i + 1 as int).last() == a@);
        }
        match ann_check(a, false) {
            Some(e) => {
                proof {
                    lemma_fold_field_err_at(models, i as int);
                }
                return Err(e);
            },
            None => {
            },
        }
        if str_eq_lit(a.name.as_str(), "skip") {
            attrs.skip = true;
        } else if str_eq_lit(a.name.as_str(), "hide_get") {
            attrs.hide_read = true;
        } else if str_eq_lit(a.name.as_str(), "hide_put") {
            attrs.hide_write = true;
        } else if str_eq_lit(a.name.as_str(), "on_set") {
            match &a.value {
                AnnotationValue::Callback(id) => {
                    attrs.on_set = Some(*id);
                },
                _ => {
                    assert(false);
                },
            }
        } else {
            assert(a@.name == "validator"@);
            match &a.value {
                AnnotationValue::Callback(id) => {
                    attrs.validator = Some(*id);
                },
                _ => {
                    assert(false);
                },
            }
        }
        i = i + 1;
    }
    assert(models.take(i as int) =~= models);
    Ok(attrs)
}

/// Resolves the declared struct-level and field-level annotations into a
/// compiled schema, or the first schema error found. The pass is pure: it
/// checks placement, known names, empty values and conflicting annotations,
/// then renders each non-skipped field's display type.
#[verifier::loop_isolation(false)]
pub fn resolve(struct_annotations: &Vec<AnnotationDecl>, fields: Vec<FieldDecl>) -> (r: Result<
    CompiledSchema,
    SchemaError,
>)
    ensures
        match resolve_spec(
            struct_annotations@.map_values(|a: AnnotationDecl| a@),
            fields@.map_values(|d: FieldDecl| d@),
        ) {
            Ok(m) => r matches Ok(s) && s@ == m,
            Err(e) => r matches Err(x) && x@ == e,
        },
{
    let ghost sa_models = struct_annotations@.map_values(|a: AnnotationDecl| a@);
    let ghost fd_models = fields@.map_values(|d: FieldDecl| d@);
    let mut root_path: Option<String> = None;
    let mut root_message: Option<String> = None;
    let mut structured = false;
    let mut rw_lock = false;
    let mut i: usize = 0;
    while i < struct_annotations.len()
        invariant
            0 <= i <= struct_annotations@.len(),
            sa_models == struct_annotations@.map_values(|a: AnnotationDecl| a@),
            fold_struct_attrs(sa_models.take(i as int)) matches Ok(acc) && acc == (StructAcc {
                root_path: match root_path {
                    Some(ref p) => Some(p@),
                    None => None,
                },
                root_message: match root_message {
                    Some(ref m) => Some(m@),
                    None => None,
                },
                structured: structured,
                rw_lock: rw_lock,
            }),
        decreases struct_annotations@.len() - i,
    {
        let a = &struct_annotations[i];
        proof {
            lemma_attr_names();
            assert(sa_models[i as int] == a@);
            assert(sa_models.take(i + 1 as int).drop_last() =~= sa_models.take(i as int));
            assert(sa_models.take(i + 1 as int).last() == a@);
        }
        match ann_check(a, true) {
            Some(e) => {
                proof {
                    lemma_fold_struct_err_at(sa_models, i as int);
                }
                return Err(e);
            },
            None => {
            },
        }
        if str_eq_lit(a.name.as_str(), "json") {
            structured = true;
        } else if str_eq_lit(a.name.as_str(), "path") {
            match &a.value {
                AnnotationValue::Text(t) => {
                    root_path = Some(t.clone());
                },
                _ => {
                    assert(false);
                },
            }
        } else if str_eq_lit(a.name.as_str(), "message") {
            match &a.value {
                AnnotationValue::Text(t) => {
                    root_message = Some(t.clone());
                },
                _ => {
                    assert(false);
                },
            }
        } else {
            assert(a@.name == "rw_lock"@);
            rw_lock = true;
        }
        i = i + 1;
    }
    assert(sa_models.take(i as int) =~= sa_models);
    if structured && root_message.is_some() {
        return Err(SchemaError::ConflictingAttributesError);
    }
    let mut specs: Vec<FieldSpec> = Vec::new();
    let mut decls = fields;
    let total = decls.len();
    let ghost n = fd_models.len();
    proof {
        assert(n == total);
    }
    // Consume the declarations front to back, keeping the order.
    let mut k: usize = 0;
    proof {
        assert(decls@.map_values(|d: FieldDecl| d@) =~= fd_models);
        assert(fd_models.skip(0) =~= fd_models);
        assert(fd_models.take(0) =~= Seq::<FieldDeclModel>::empty());
        assert(specs@.map_values(|f: FieldSpec| f@) =~= Seq::<FieldSpecModel>::empty());
    }
    while decls.len() > 0
        invariant
            n == fd_models.len(),
            k + decls@.len() == n,
            k == specs@.len(),
            fold_struct_attrs(sa_models) == Ok::<StructAcc, SchemaErrorModel>(
                StructAcc {
                    root_path: match root_path {
                        Some(ref p) => Some(p@),
                        None => None,
                    },
                    root_message: match root_message {
                        Some(ref m) => Some(m@),
                        None => None,
                    },
                    structured: structured,
                    rw_lock: rw_lock,
                },
            ),
            !(structured && root_message is Some),
            fd_models.skip(k as int) == decls@.map_values(|d: FieldDecl| d@),
            resolve_fields(fd_models.take(k as int)) == Ok::<Seq<FieldSpecModel>, SchemaErrorModel>(
                specs@.map_values(|f: FieldSpec| f@),
            ),
        decreases decls@.len(),
    {
        let ghost old_decls = decls@;
        let d = decls.remove(0);
        let ghost dm = d@;
        proof {
            assert(old_decls.map_values(|x: FieldDecl| x@)[0] == dm);
            assert(dm == fd_models[k as int]);
            assert(decls@ =~= old_decls.subrange(1, old_decls.len() as int));
            let old_map = old_decls.map_values(|x: FieldDecl| x@);
            assert forall|j: int| 0 <= j < decls@.len() implies decls@.map_values(
                |x: FieldDecl| x@,
            )[j] == #[trigger] fd_models.skip(k + 1 as int)[j] by {
                assert(decls@[j] == old_decls[j + 1]);
                assert(old_map[j + 1] == old_decls[j + 1]@);
                assert(fd_models.skip(k as int)[j + 1] == fd_models[k + 1 + j]);
                assert(fd_models.skip(k + 1 as int)[j] == fd_models[k + 1 + j]);
            }
            assert(decls@.map_values(|x: FieldDecl| x@) =~= fd_models.skip(k + 1 as int));
            assert(fd_models.take(k + 1 as int).drop_last() =~= fd_models.take(k as int));
            assert(fd_models.take(k + 1 as int).last() == fd_models[k as int]);
        }
        let attrs = match resolve_field_attrs(&d.annotations) {
            Ok(attrs) => attrs,
            Err(e) => {
                proof {
                    assert(dm.annotations == d.annotations@.map_values(|a: AnnotationDecl| a@));
                    assert(resolve_field(dm) is Err);
                    lemma_resolve_fields_err_at(fd_models, k as int);
                }
                return Err(e);
            },
        };
        let rendered: String;
        if attrs.skip {
            rendered = String::new();
        } else {
            match render(&d.ty) {
                Ok(s) => {
                    rendered = s;
                },
                Err(e) => {
                    proof {
                        assert(resolve_field(dm) is Err);
                        lemma_resolve_fields_err_at(fd_models, k as int);
                    }
                    return Err(e);
                },
            }
        }
        let spec_entry = FieldSpec {
            name: d.name,
            ty: d.ty,
            rendered_type: rendered,
            value_type: d.value_type,
            attributes: attrs,
        };
        let ghost specs_prev = specs@;
        let ghost entry_model = spec_entry@;
        proof {
            assert(resolve_field(dm) == Ok::<FieldSpecModel, SchemaErrorModel>(entry_model));
        }
        specs.push(spec_entry);
        proof {
            assert(specs@ =~= specs_prev.push(spec_entry));
            assert(specs@.map_values(|f: FieldSpec| f@) =~= specs_prev.map_values(
                |f: FieldSpec| f@,
            ).push(entry_model));
        }
        k = k + 1;
    }
    proof {
        assert(fd_models.take(k as int) =~= fd_models);
    }
    let attributes = StructAttributes {
        root_path: match root_path {
            Some(p) => p,
            None => String::from_str("config"),
        },
        root_message: root_message,
        serialization: if structured {
            Serialization::Structured
        } else {
            Serialization::Text
        },
        lock_kind: if rw_lock {
            LockKind::ReadWrite
        } else {
            LockKind::Exclusive
        },
    };
    Ok(CompiledSchema { fields: specs, attributes })
}

} // verus!
