//! The per-type serialization interface of the text backend: any type
//! implementing these traits can participate as a field. Default
//! implementations cover the built-in scalars, strings, and optional
//! values.

use vstd::prelude::*;
use crate::chars::{chars_to_string, str_to_chars};
use crate::digits::{dec_digits, dec_int, print_i128, print_u128};
use crate::error::{ChoicesError, ChoicesResult, ErrorModel};
use crate::text_codec::{text_scalar_dec, text_scalar_decode};
use crate::value::{int_max, int_min, is_signed, is_unsigned, ScalarModel, ScalarType, ScalarValue};

verus! {

/// Serializes a value into the character sequence the text backend sends.
pub trait ChoicesOutput {
    /// The exact characters the value serializes to.
    spec fn body_spec(&self) -> Seq<char>;

    /// Serializes `self` into a `String`.
    fn body_string(&self) -> (r: String)
        ensures
            r@ == self.body_spec(),
    ;
}

/// Recovers a value from the characters of a request body.
pub trait ChoicesInput: DeepView + Sized {
    /// The exact outcome of parsing a body as this type.
    spec fn from_chars_model(s: Seq<char>) -> Result<<Self as DeepView>::V, ErrorModel>;

    /// Parses an instance of `Self` from the characters of a body.
    fn from_chars(chars: &str) -> (r: ChoicesResult<Self>)
        ensures
            match Self::from_chars_model(chars@) {
                Ok(m) => r matches Ok(v) && v.deep_view() == m,
                Err(e) => r matches Err(x) && x@ == e,
            },
    ;
}

impl ChoicesOutput for bool {
    open spec fn body_spec(&self) -> Seq<char> {
        if *self {
            "true"@
        } else {
            "false"@
        }
    }

    fn body_string(&self) -> (r: String) {
        if *self {
            String::from_str("true")
        } else {
            String::from_str("false")
        }
    }
}

impl ChoicesOutput for char {
    open spec fn body_spec(&self) -> Seq<char> {
        seq![*self]
    }

    fn body_string(&self) -> (r: String) {
        let mut v: Vec<char> = Vec::new();
        v.push(*self);
        assert(v@ =~= seq![*self]);
        chars_to_string(&v)
    }
}

impl ChoicesOutput for String {
    open spec fn body_spec(&self) -> Seq<char> {
        self@
    }

    fn body_string(&self) -> (r: String) {
        self.clone()
    }
}

impl<T: ChoicesOutput> ChoicesOutput for Option<T> {
    open spec fn body_spec(&self) -> Seq<char> {
        match self {
            Some(v) => v.body_spec(),
            None => Seq::<char>::empty(),
        }
    }

    fn body_string(&self) -> (r: String) {
        match self {
            Some(v) => v.body_string(),
            None => String::new(),
        }
    }
}

/// Serializes an unsigned integer as its decimal form.
fn unsigned_body(n: u128) -> (r: String)
    ensures
        r@ == dec_digits(n as nat),
{
    let mut out: Vec<char> = Vec::new();
    print_u128(n, &mut out);
    chars_to_string(&out)
}

/// Serializes a signed integer as its decimal form.
fn signed_body(n: i128) -> (r: String)
    ensures
        r@ == dec_int(n as int),
{
    let mut out: Vec<char> = Vec::new();
    print_i128(n, &mut out);
    chars_to_string(&out)
}

/// Parses a body as the unsigned scalar type `t`, yielding the magnitude.
fn parse_uint_checked(t: ScalarType, chars: &str) -> (r: ChoicesResult<u128>)
    requires
        is_unsigned(t),
    ensures
        match text_scalar_dec(t, chars@) {
            Ok(m) => r matches Ok(u) && m == ScalarModel::Uint(u as nat) && u as int <= int_max(t),
            Err(e) => r matches Err(x) && x@ == e,
        },
{
    let cs = str_to_chars(chars);
    match text_scalar_decode(t, &cs) {
        Ok(v) => match v {
            ScalarValue::Uint(u) => Ok(u),
            _ => {
                proof {
                    assert(false);
                }
                Err(ChoicesError::ParseError(String::new()))
            },
        },
        Err(e) => Err(e),
    }
}

/// Parses a body as the signed scalar type `t`, yielding the value.
fn parse_int_checked(t: ScalarType, chars: &str) -> (r: ChoicesResult<i128>)
    requires
        is_signed(t),
    ensures
        match text_scalar_dec(t, chars@) {
            Ok(m) => r matches Ok(v) && m == ScalarModel::Int(v as int) && int_min(t) <= v as int
                <= int_max(t),
            Err(e) => r matches Err(x) && x@ == e,
        },
{
    let cs = str_to_chars(chars);
    match text_scalar_decode(t, &cs) {
        Ok(v) => match v {
            ScalarValue::Int(i) => Ok(i),
            _ => {
                proof {
                    assert(false);
                }
                Err(ChoicesError::ParseError(String::new()))
            },
        },
        Err(e) => Err(e),
    }
}

impl ChoicesInput for bool {
    open spec fn from_chars_model(s: Seq<char>) -> Result<bool, ErrorModel> {
        match text_scalar_dec(ScalarType::Bool, s) {
            Ok(m) => Ok(m->Bool_0),
            Err(e) => Err(e),
        }
    }

    fn from_chars(chars: &str) -> (r: ChoicesResult<bool>) {
        let cs = str_to_chars(chars);
        match text_scalar_decode(ScalarType::Bool, &cs) {
            Ok(v) => match v {
                ScalarValue::Bool(b) => Ok(b),
                _ => {
                    proof {
                        assert(false);
                    }
                    Err(ChoicesError::ParseError(String::new()))
                },
            },
            Err(e) => Err(e),
        }
    }
}

impl ChoicesInput for char {
    open spec fn from_chars_model(s: Seq<char>) -> Result<char, ErrorModel> {
        match text_scalar_dec(ScalarType::Char, s) {
            Ok(m) => Ok(m->Char_0),
            Err(e) => Err(e),
        }
    }

    fn from_chars(chars: &str) -> (r: ChoicesResult<char>) {
        let cs = str_to_chars(chars);
        match text_scalar_decode(ScalarType::Char, &cs) {
            Ok(v) => match v {
                ScalarValue::Char(c) => Ok(c),
                _ => {
                    proof {
                        assert(false);
                    }
                    Err(ChoicesError::ParseError(String::new()))
                },
            },
            Err(e) => Err(e),
        }
    }
}

impl ChoicesInput for String {
    open spec fn from_chars_model(s: Seq<char>) -> Result<Seq<char>, ErrorModel> {
        Ok(s)
    }

    fn from_chars(chars: &str) -> (r: ChoicesResult<String>) {
        Ok(String::from_str(chars))
    }
}

impl<T: ChoicesInput> ChoicesInput for Option<T> {
    open spec fn from_chars_model(s: Seq<char>) -> Result<
        Option<<T as DeepView>::V>,
        ErrorModel,
    > {
        if s.len() == 0 {
            Ok(None)
        } else {
            match T::from_chars_model(s) {
                Ok(m) => Ok(Some(m)),
                Err(e) => Err(e),
            }
        }
    }

    fn from_chars(chars: &str) -> (r: ChoicesResult<Option<T>>) {
        if chars.is_empty() {
            Ok(None)
        } else {
            match T::from_chars(chars) {
                Ok(v) => Ok(Some(v)),
                Err(e) => Err(e),
            }
        }
    }
}

impl ChoicesOutput for u8 {
    open spec fn body_spec(&self) -> Seq<char> {
        dec_digits(*self as nat)
    }

    fn body_string(&self) -> (r: String) {
        unsigned_body(*self as u128)
    }
}

impl ChoicesInput for u8 {
    open spec fn from_chars_model(s: Seq<char>) -> Result<u8, ErrorModel> {
        match text_scalar_dec(ScalarType::U8, s) {
            Ok(m) => Ok(m->Uint_0 as u8),
            Err(e) => Err(e),
        }
    }

    fn from_chars(chars: &str) -> (r: ChoicesResult<u8>) {
        match parse_uint_checked(ScalarType::U8, chars) {
            Ok(u) => Ok(u as u8),
            Err(e) => Err(e),
        }
    }
}

impl ChoicesOutput for u16 {
    open spec fn body_spec(&self) -> Seq<char> {
        dec_digits(*self as nat)
    }

    fn body_string(&self) -> (r: String) {
        unsigned_body(*self as u128)
    }
}

impl ChoicesInput for u16 {
    open spec fn from_chars_model(s: Seq<char>) -> Result<u16, ErrorModel> {
        match text_scalar_dec(ScalarType::U16, s) {
            Ok(m) => Ok(m->Uint_0 as u16),
            Err(e) => Err(e),
        }
    }

    fn from_chars(chars: &str) -> (r: ChoicesResult<u16>) {
        match parse_uint_checked(ScalarType::U16, chars) {
            Ok(u) => Ok(u as u16),
            Err(e) => Err(e),
        }
    }
}

impl ChoicesOutput for u32 {
    open spec fn body_spec(&self) -> Seq<char> {
        dec_digits(*self as nat)
    }

    fn body_string(&self) -> (r: String) {
        unsigned_body(*self as u128)
    }
}

impl ChoicesInput for u32 {
    open spec fn from_chars_model(s: Seq<char>) -> Result<u32, ErrorModel> {
        match text_scalar_dec(ScalarType::U32, s) {
            Ok(m) => Ok(m->Uint_0 as u32),
            Err(e) => Err(e),
        }
    }

    fn from_chars(chars: &str) -> (r: ChoicesResult<u32>) {
        match parse_uint_checked(ScalarType::U32, chars) {
            Ok(u) => Ok(u as u32),
            Err(e) => Err(e),
        }
    }
}

impl ChoicesOutput for u64 {
    open spec fn body_spec(&self) -> Seq<char> {
        dec_digits(*self as nat)
    }

    fn body_string(&self) -> (r: String) {
        unsigned_body(*self as u128)
    }
}

impl ChoicesInput for u64 {
    open spec fn from_chars_model(s: Seq<char>) -> Result<u64, ErrorModel> {
        match text_scalar_dec(ScalarType::U64, s) {
            Ok(m) => Ok(m->Uint_0 as u64),
            Err(e) => Err(e),
        }
    }

    fn from_chars(chars: &str) -> (r: ChoicesResult<u64>) {
        match parse_uint_checked(ScalarType::U64, chars) {
            Ok(u) => Ok(u as u64),
            Err(e) => Err(e),
        }
    }
}

impl ChoicesOutput for u128 {
    open spec fn body_spec(&self) -> Seq<char> {
        dec_digits(*self as nat)
    }

    fn body_string(&self) -> (r: String) {
        unsigned_body(*self as u128)
    }
}

impl ChoicesInput for u128 {
    open spec fn from_chars_model(s: Seq<char>) -> Result<u128, ErrorModel> {
        match text_scalar_dec(ScalarType::U128, s) {
            Ok(m) => Ok(m->Uint_0 as u128),
            Err(e) => Err(e),
        }
    }

    fn from_chars(chars: &str) -> (r: ChoicesResult<u128>) {
        match parse_uint_checked(ScalarType::U128, chars) {
            Ok(u) => Ok(u as u128),
            Err(e) => Err(e),
        }
    }
}

impl ChoicesOutput for usize {
    open spec fn body_spec(&self) -> Seq<char> {
        dec_digits(*self as nat)
    }

    fn body_string(&self) -> (r: String) {
        unsigned_body(*self as u128)
    }
}

impl ChoicesInput for usize {
    open spec fn from_chars_model(s: Seq<char>) -> Result<usize, ErrorModel> {
        match text_scalar_dec(ScalarType::USize, s) {
            Ok(m) => Ok(m->Uint_0 as usize),
            Err(e) => Err(e),
        }
    }

    fn from_chars(chars: &str) -> (r: ChoicesResult<usize>) {
        match parse_uint_checked(ScalarType::USize, chars) {
            Ok(u) => Ok(u as usize),
            Err(e) => Err(e),
        }
    }
}

impl ChoicesOutput for i8 {
    open spec fn body_spec(&self) -> Seq<char> {
        dec_int(*self as int)
    }

    fn body_string(&self) -> (r: String) {
        signed_body(*self as i128)
    }
}

impl ChoicesInput for i8 {
    open spec fn from_chars_model(s: Seq<char>) -> Result<i8, ErrorModel> {
        match text_scalar_dec(ScalarType::I8, s) {
            Ok(m) => Ok(m->Int_0 as i8),
            Err(e) => Err(e),
        }
    }

    fn from_chars(chars: &str) -> (r: ChoicesResult<i8>) {
        match parse_int_checked(ScalarType::I8, chars) {
            Ok(v) => Ok(v as i8),
            Err(e) => Err(e),
        }
    }
}

impl ChoicesOutput for i16 {
    open spec fn body_spec(&self) -> Seq<char> {
        dec_int(*self as int)
    }

    fn body_string(&self) -> (r: String) {
        signed_body(*self as i128)
    }
}

impl ChoicesInput for i16 {
    open spec fn from_chars_model(s: Seq<char>) -> Result<i16, ErrorModel> {
        match text_scalar_dec(ScalarType::I16, s) {
            Ok(m) => Ok(m->Int_0 as i16),
            Err(e) => Err(e),
        }
    }

    fn from_chars(chars: &str) -> (r: ChoicesResult<i16>) {
        match parse_int_checked(ScalarType::I16, chars) {
            Ok(v) => Ok(v as i16),
            Err(e) => Err(e),
        }
    }
}

impl ChoicesOutput for i32 {
    open spec fn body_spec(&self) -> Seq<char> {
        dec_int(*self as int)
    }

    fn body_string(&self) -> (r: String) {
        signed_body(*self as i128)
    }
}

impl ChoicesInput for i32 {
    open spec fn from_chars_model(s: Seq<char>) -> Result<i32, ErrorModel> {
        match text_scalar_dec(ScalarType::I32, s) {
            Ok(m) => Ok(m->Int_0 as i32),
            Err(e) => Err(e),
        }
    }

    fn from_chars(chars: &str) -> (r: ChoicesResult<i32>) {
        match parse_int_checked(ScalarType::I32, chars) {
            Ok(v) => Ok(v as i32),
            Err(e) => Err(e),
        }
    }
}

impl ChoicesOutput for i64 {
    open spec fn body_spec(&self) -> Seq<char> {
        dec_int(*self as int)
    }

    fn body_string(&self) -> (r: String) {
        signed_body(*self as i128)
    }
}

impl ChoicesInput for i64 {
    open spec fn from_chars_model(s: Seq<char>) -> Result<i64, ErrorModel> {
        match text_scalar_dec(ScalarType::I64, s) {
            Ok(m) => Ok(m->Int_0 as i64),
            Err(e) => Err(e),
        }
    }

    fn from_chars(chars: &str) -> (r: ChoicesResult<i64>) {
        match parse_int_checked(ScalarType::I64, chars) {
            Ok(v) => Ok(v as i64),
            Err(e) => Err(e),
        }
    }
}

impl ChoicesOutput for i128 {
    open spec fn body_spec(&self) -> Seq<char> {
        dec_int(*self as int)
    }

    fn body_string(&self) -> (r: String) {
        signed_body(*self as i128)
    }
}

impl ChoicesInput for i128 {
    open spec fn from_chars_model(s: Seq<char>) -> Result<i128, ErrorModel> {
        match text_scalar_dec(ScalarType::I128, s) {
            Ok(m) => Ok(m->Int_0 as i128),
            Err(e) => Err(e),
        }
    }

    fn from_chars(chars: &str) -> (r: ChoicesResult<i128>) {
        match parse_int_checked(ScalarType::I128, chars) {
            Ok(v) => Ok(v as i128),
            Err(e) => Err(e),
        }
    }
}

impl ChoicesOutput for isize {
    open spec fn body_spec(&self) -> Seq<char> {
        dec_int(*self as int)
    }

    fn body_string(&self) -> (r: String) {
        signed_body(*self as i128)
    }
}

impl ChoicesInput for isize {
    open spec fn from_chars_model(s: Seq<char>) -> Result<isize, ErrorModel> {
        match text_scalar_dec(ScalarType::ISize, s) {
            Ok(m) => Ok(m->Int_0 as isize),
            Err(e) => Err(e),
        }
    }

    fn from_chars(chars: &str) -> (r: ChoicesResult<isize>) {
        match parse_int_checked(ScalarType::ISize, chars) {
            Ok(v) => Ok(v as isize),
            Err(e) => Err(e),
        }
    }
}

} // verus!
