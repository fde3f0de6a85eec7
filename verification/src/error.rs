//! Error types: schema-compilation failures and request-time failures.

use vstd::prelude::*;

verus! {

/// A fatal error found while resolving a struct's annotations into a schema.
/// These are build-time failures: they are reported before any routing table
/// is constructed and never reach a running server.
#[derive(Debug, Clone, PartialEq, Eq)]
pub enum SchemaError {
    /// An annotation was applied at the wrong level. `struct_level` is the
    /// level the annotation requires: `true` means it may only appear on the
    /// struct, `false` means it may only appear on a field.
    PlacementError { name: String, struct_level: bool },
    /// An annotation name (or name/value shape) that the resolver does not
    /// know.
    UnknownAttributeError { name: String },
    /// A string-valued annotation whose value may not be empty was given an
    /// empty string.
    EmptyValueError { name: String },
    /// `json` (structured index) and a custom root message cannot be
    /// combined: the structured listing has no room for a free-text banner.
    ConflictingAttributesError,
    /// A field's declared type cannot be rendered as a simple named or
    /// generic form.
    UnsupportedTypeError,
    /// A field's declared type nests generic arguments deeper than the
    /// renderer's recursion limit.
    TypeRenderingError,
}

/// Mathematical model of a [`SchemaError`].
pub enum SchemaErrorModel {
    PlacementError { name: Seq<char>, struct_level: bool },
    UnknownAttributeError(Seq<char>),
    EmptyValueError(Seq<char>),
    ConflictingAttributesError,
    UnsupportedTypeError,
    TypeRenderingError,
}

impl View for SchemaError {
    type V = SchemaErrorModel;

    open spec fn view(&self) -> SchemaErrorModel {
        match self {
            SchemaError::PlacementError { name, struct_level } => SchemaErrorModel::PlacementError {
                name: name@,
                struct_level: *struct_level,
            },
            SchemaError::UnknownAttributeError { name } => SchemaErrorModel::UnknownAttributeError(
                name@,
            ),
            SchemaError::EmptyValueError { name } => SchemaErrorModel::EmptyValueError(name@),
            SchemaError::ConflictingAttributesError => SchemaErrorModel::ConflictingAttributesError,
            SchemaError::UnsupportedTypeError => SchemaErrorModel::UnsupportedTypeError,
            SchemaError::TypeRenderingError => SchemaErrorModel::TypeRenderingError,
        }
    }
}

/// A request-time or programmatic-setter error.
#[derive(Debug, Clone, PartialEq, Eq)]
pub enum ChoicesError {
    /// Generic parsing error.
    ParseError(String),
    /// Error while parsing an integer.
    ParseIntError(String),
    /// Error while parsing a bool.
    ParseBoolError(String),
    /// Error while parsing a char.
    ParseCharError(String),
    /// Error raised by a field's validator: the write was rejected.
    ValidationError(String),
    /// The guarded storage could not be acquired (for example a poisoned
    /// lock).
    AccessError(String),
}

/// Alias for a `Result` returning a `ChoicesError`.
pub type ChoicesResult<T> = Result<T, ChoicesError>;

/// Mathematical model of a [`ChoicesError`]: the variant together with the
/// message text.
pub enum ErrorModel {
    ParseError(Seq<char>),
    ParseIntError(Seq<char>),
    ParseBoolError(Seq<char>),
    ParseCharError(Seq<char>),
    ValidationError(Seq<char>),
    AccessError(Seq<char>),
}

impl View for ChoicesError {
    type V = ErrorModel;

    open spec fn view(&self) -> ErrorModel {
        match self {
            ChoicesError::ParseError(m) => ErrorModel::ParseError(m@),
            ChoicesError::ParseIntError(m) => ErrorModel::ParseIntError(m@),
            ChoicesError::ParseBoolError(m) => ErrorModel::ParseBoolError(m@),
            ChoicesError::ParseCharError(m) => ErrorModel::ParseCharError(m@),
            ChoicesError::ValidationError(m) => ErrorModel::ValidationError(m@),
            ChoicesError::AccessError(m) => ErrorModel::AccessError(m@),
        }
    }
}

impl ErrorModel {
    /// The description line of the modelled error, mirroring
    /// [`ChoicesError::describe_spec`].
    pub open spec fn describe_spec(self) -> Seq<char> {
        match self {
            ErrorModel::ParseError(m) => "ParseError: "@ + m,
            ErrorModel::ParseIntError(m) => "ParseIntError: "@ + m,
            ErrorModel::ParseBoolError(m) => "ParseBoolError: "@ + m,
            ErrorModel::ParseCharError(m) => "ParseCharError: "@ + m,
            ErrorModel::ValidationError(m) => "ValidationError: "@ + m,
            ErrorModel::AccessError(m) => "AccessError: "@ + m,
        }
    }
}

impl ChoicesError {
    /// The one-line description of the error, used as a response body.
    pub open spec fn describe_spec(&self) -> Seq<char> {
        self@.describe_spec()
    }

    /// Renders the error as a human-readable line.
    pub fn describe(&self) -> (r: String)
        ensures
            r@ == self.describe_spec(),
    {
        let mut s: String;
        match self {
            ChoicesError::ParseError(m) => {
                s = String::from_str("ParseError: ");
                s.append(m.as_str());
            },
            ChoicesError::ParseIntError(m) => {
                s = String::from_str("ParseIntError: ");
                s.append(m.as_str());
            },
            ChoicesError::ParseBoolError(m) => {
                s = String::from_str("ParseBoolError: ");
                s.append(m.as_str());
            },
            ChoicesError::ParseCharError(m) => {
                s = String::from_str("ParseCharError: ");
                s.append(m.as_str());
            },
            ChoicesError::ValidationError(m) => {
                s = String::from_str("ValidationError: ");
                s.append(m.as_str());
            },
            ChoicesError::AccessError(m) => {
                s = String::from_str("AccessError: ");
                s.append(m.as_str());
            },
        }
        s
    }
}

} // verus!
