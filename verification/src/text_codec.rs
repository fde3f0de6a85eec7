//! The plain-text serialization backend: scalars and strings round-trip
//! through their usual textual form, and an optional value with nothing in
//! it is written as the empty body.

use vstd::prelude::*;
use crate::chars::{chars_to_string, str_to_chars};
use crate::digits::{
    all_digits, char_to_digit, dec_digits, dec_int, dec_val, digits_value, is_digit,
    lemma_dec_digits_shape, lemma_dec_digits_val, print_i128, print_u128, scan_digits,
};
use crate::error::{ChoicesError, ChoicesResult, ErrorModel};
use crate::value::{
    int_bounds, int_max, int_min, is_signed, is_unsigned, scalar_well_typed, uint_bound,
    well_typed, FieldModel, FieldValue, ScalarModel, ScalarType, ScalarValue, ValueType,
};

verus! {

/// Message used when the text backend meets a sequence or mapping field.
pub open spec fn text_unsupported_msg() -> Seq<char> {
    "the text backend supports only scalar and optional fields"@
}

/// The textual form of a scalar value.
pub open spec fn text_scalar_enc(v: ScalarModel) -> Seq<char> {
    match v {
        ScalarModel::Bool(b) => if b {
            "true"@
        } else {
            "false"@
        },
        ScalarModel::Char(c) => seq![c],
        ScalarModel::Int(i) => dec_int(i),
        ScalarModel::Uint(u) => dec_digits(u),
        ScalarModel::Text(s) => s,
    }
}

/// The textual form of a field value; sequences and mappings have none.
pub open spec fn text_enc(v: FieldModel) -> Result<Seq<char>, ErrorModel> {
    match v {
        FieldModel::Scalar(s) => Ok(text_scalar_enc(s)),
        FieldModel::Optional(o) => match o {
            Some(s) => Ok(text_scalar_enc(s)),
            None => Ok(Seq::<char>::empty()),
        },
        _ => Err(ErrorModel::ParseError(text_unsupported_msg())),
    }
}

/// Splits an optional leading sign off a numeric token: whether the token
/// is negated, and the digits that remain.
pub open spec fn strip_sign(s: Seq<char>) -> (bool, Seq<char>) {
    if s.len() > 0 && (s[0] == '-' || s[0] == '+') {
        (s[0] == '-', s.drop_first())
    } else {
        (false, s)
    }
}

/// Parses a decimal token as the integer scalar type `t`.
pub open spec fn text_int_dec(t: ScalarType, s: Seq<char>) -> Result<ScalarModel, ErrorModel> {
    let (neg, rest) = strip_sign(s);
    if s.len() == 0 {
        Err(ErrorModel::ParseIntError("cannot parse integer from empty string"@))
    } else if rest.len() == 0 || !all_digits(rest) || (neg && is_unsigned(t)) {
        Err(ErrorModel::ParseIntError("invalid digit found in string"@))
    } else {
        let v: int = if neg {
            -(dec_val(rest) as int)
        } else {
            dec_val(rest) as int
        };
        if v > int_max(t) {
            Err(ErrorModel::ParseIntError("number too large to fit in target type"@))
        } else if v < int_min(t) {
            Err(ErrorModel::ParseIntError("number too small to fit in target type"@))
        } else if is_unsigned(t) {
            Ok(ScalarModel::Uint(dec_val(rest)))
        } else {
            Ok(ScalarModel::Int(v))
        }
    }
}

/// Parses a textual body as the scalar type `t`.
pub open spec fn text_scalar_dec(t: ScalarType, s: Seq<char>) -> Result<ScalarModel, ErrorModel> {
    match t {
        ScalarType::Bool => if s == "true"@ {
            Ok(ScalarModel::Bool(true))
        } else if s == "false"@ {
            Ok(ScalarModel::Bool(false))
        } else {
            Err(ErrorModel::ParseBoolError("provided string was not `true` or `false`"@))
        },
        ScalarType::Char => if s.len() == 1 {
            Ok(ScalarModel::Char(s[0]))
        } else if s.len() == 0 {
            Err(ErrorModel::ParseCharError("cannot parse char from empty string"@))
        } else {
            Err(ErrorModel::ParseCharError("too many characters in string"@))
        },
        ScalarType::Text => Ok(ScalarModel::Text(s)),
        _ => text_int_dec(t, s),
    }
}

/// Parses a textual body as the field type `t`. An empty body for an
/// optional field is the absent value.
pub open spec fn text_dec(t: ValueType, s: Seq<char>) -> Result<FieldModel, ErrorModel> {
    match t {
        ValueType::Scalar(st) => match text_scalar_dec(st, s) {
            Ok(v) => Ok(FieldModel::Scalar(v)),
            Err(e) => Err(e),
        },
        ValueType::Optional(st) => if s.len() == 0 {
            Ok(FieldModel::Optional(None))
        } else {
            match text_scalar_dec(st, s) {
                Ok(v) => Ok(FieldModel::Optional(Some(v))),
                Err(e) => Err(e),
            }
        },
        _ => Err(ErrorModel::ParseError(text_unsupported_msg())),
    }
}

/// Whether the whole character vector equals the literal.
pub fn chars_eq(s: &Vec<char>, lit: &str) -> (r: bool)
    ensures
        r <==> s@ == lit@,
{
    let l = str_to_chars(lit);
    if s.len() != l.len() {
        return false;
    }
    let mut i: usize = 0;
    while i < s.len()
        invariant
            0 <= i <= s@.len(),
            s@.len() == l@.len(),
            l@ == lit@,
            forall|j: int| 0 <= j < i ==> s@[j] == l@[j],
        decreases s@.len() - i,
    {
        if s[i] != l[i] {
            assert(s@[i as int] != lit@[i as int]);
            return false;
        }
        i = i + 1;
    }
    assert(s@ =~= lit@);
    true
}

/// Appends the textual form of the scalar `v` to `out`.
pub fn text_scalar_encode(v: &ScalarValue, out: &mut Vec<char>)
    ensures
        final(out)@ == old(out)@ + text_scalar_enc(v@),
{
    match v {
        ScalarValue::Bool(b) => {
            proof {
                reveal_strlit("true");
                reveal_strlit("false");
            }
            if *b {
                out.push('t');
                out.push('r');
                out.push('u');
                out.push('e');
                assert(out@ =~= old(out)@ + "true"@);
            } else {
                out.push('f');
                out.push('a');
                out.push('l');
                out.push('s');
                out.push('e');
                assert(out@ =~= old(out)@ + "false"@);
            }
        },
        ScalarValue::Char(c) => {
            out.push(*c);
            assert(out@ =~= old(out)@ + seq![*c]);
        },
        ScalarValue::Int(i) => {
            print_i128(*i, out);
        },
        ScalarValue::Uint(u) => {
            print_u128(*u, out);
        },
        ScalarValue::Text(s) => {
            let mut cs = str_to_chars(s.as_str());
            out.append(&mut cs);
        },
    }
}

/// Serializes `v` for the text backend.
pub fn text_encode(v: &FieldValue) -> (r: ChoicesResult<String>)
    ensures
        match text_enc(v@) {
            Ok(body) => r matches Ok(s) && s@ == body,
            Err(e) => r matches Err(x) && x@ == e,
        },
{
    match v {
        FieldValue::Scalar(s) => {
            let mut out: Vec<char> = Vec::new();
            text_scalar_encode(s, &mut out);
            Ok(chars_to_string(&out))
        },
        FieldValue::Optional(o) => match o {
            Some(s) => {
                let mut out: Vec<char> = Vec::new();
                text_scalar_encode(s, &mut out);
                Ok(chars_to_string(&out))
            },
            None => {
                let out: Vec<char> = Vec::new();
                Ok(chars_to_string(&out))
            },
        },
        _ => Err(
            ChoicesError::ParseError(
                String::from_str("the text backend supports only scalar and optional fields"),
            ),
        ),
    }
}

/// Parses the decimal token `s` as the integer scalar type `t`.
fn text_int_decode(t: ScalarType, s: &Vec<char>) -> (r: ChoicesResult<ScalarValue>)
    requires
        is_signed(t) || is_unsigned(t),
    ensures
        match text_int_dec(t, s@) {
            Ok(m) => r matches Ok(v) && v@ == m,
            Err(e) => r matches Err(x) && x@ == e,
        },
{
    let ghost spec_pair = strip_sign(s@);
    if s.len() == 0 {
        return Err(
            ChoicesError::ParseIntError(String::from_str("cannot parse integer from empty string")),
        );
    }
    let c0 = s[0];
    let (neg, start): (bool, usize) = if c0 == '-' || c0 == '+' {
        (c0 == '-', 1)
    } else {
        (false, 0)
    };
    let ghost rest = spec_pair.1;
    proof {
        assert(rest =~= s@.subrange(start as int, s@.len() as int));
    }
    let end = scan_digits(s, start);
    let invalid = ChoicesError::ParseIntError(String::from_str("invalid digit found in string"));
    if end < s.len() {
        assert(!is_digit(s@[end as int]));
        assert(rest[end - start] == s@[end as int]);
        assert(!all_digits(rest));
        return Err(invalid);
    }
    if start == s.len() {
        assert(rest.len() == 0);
        return Err(invalid);
    }
    let signed = match t {
        ScalarType::U8 | ScalarType::U16 | ScalarType::U32 | ScalarType::U64 | ScalarType::U128
        | ScalarType::USize => {
            false
        },
        _ => true,
    };
    if neg && !signed {
        return Err(invalid);
    }
    assert(rest =~= s@.subrange(start as int, end as int));
    let mag = digits_value(s, start, end);
    let ghost v: int = if neg {
        -(dec_val(rest) as int)
    } else {
        dec_val(rest) as int
    };
    let too_large = ChoicesError::ParseIntError(
        String::from_str("number too large to fit in target type"),
    );
    let too_small = ChoicesError::ParseIntError(
        String::from_str("number too small to fit in target type"),
    );
    match mag {
        None => {
            if neg {
                assert(v < int_min(t));
                Err(too_small)
            } else {
                assert(v > int_max(t));
                Err(too_large)
            }
        },
        Some(mag) => {
            if !signed {
                if mag > uint_bound(t) {
                    Err(too_large)
                } else {
                    Ok(ScalarValue::Uint(mag))
                }
            } else {
                let (min, max) = int_bounds(t);
                if !neg {
                    if max >= 0 && mag > (max as u128) {
                        Err(too_large)
                    } else {
                        Ok(ScalarValue::Int(mag as i128))
                    }
                } else {
                    let min_mag: u128 = ((-(min + 1)) as u128) + 1;
                    if mag > min_mag {
                        Err(too_small)
                    } else {
                        let value: i128 = if mag > (i128::MAX as u128) {
                            assert(mag == 170141183460469231731687303715884105728);
                            i128::MIN
                        } else {
                            -(mag as i128)
                        };
                        assert(value as int == v);
                        Ok(ScalarValue::Int(value))
                    }
                }
            }
        },
    }
}

/// Parses the body `s` as the scalar type `t`.
pub fn text_scalar_decode(t: ScalarType, s: &Vec<char>) -> (r: ChoicesResult<ScalarValue>)
    ensures
        match text_scalar_dec(t, s@) {
            Ok(m) => r matches Ok(v) && v@ == m,
            Err(e) => r matches Err(x) && x@ == e,
        },
{
    match t {
        ScalarType::Bool => {
            if chars_eq(s, "true") {
                Ok(ScalarValue::Bool(true))
            } else if chars_eq(s, "false") {
                Ok(ScalarValue::Bool(false))
            } else {
                Err(
                    ChoicesError::ParseBoolError(
                        String::from_str("provided string was not `true` or `false`"),
                    ),
                )
            }
        },
        ScalarType::Char => {
            if s.len() == 1 {
                Ok(ScalarValue::Char(s[0]))
            } else if s.len() == 0 {
                Err(
                    ChoicesError::ParseCharError(
                        String::from_str("cannot parse char from empty string"),
                    ),
                )
            } else {
                Err(ChoicesError::ParseCharError(String::from_str("too many characters in string")))
            }
        },
        ScalarType::Text => Ok(ScalarValue::Text(chars_to_string(s))),
        _ => text_int_decode(t, s),
    }
}

/// Deserializes `body` as a value of the field type `t` for the text
/// backend.
pub fn text_decode(t: ValueType, body: &str) -> (r: ChoicesResult<FieldValue>)
    ensures
        match text_dec(t, body@) {
            Ok(m) => r matches Ok(v) && v@ == m,
            Err(e) => r matches Err(x) && x@ == e,
        },
{
    let s = str_to_chars(body);
    match t {
        ValueType::Scalar(st) => match text_scalar_decode(st, &s) {
            Ok(v) => Ok(FieldValue::Scalar(v)),
            Err(e) => Err(e),
        },
        ValueType::Optional(st) => {
            if s.len() == 0 {
                Ok(FieldValue::Optional(None))
            } else {
                match text_scalar_decode(st, &s) {
                    Ok(v) => Ok(FieldValue::Optional(Some(v))),
                    Err(e) => Err(e),
                }
            }
        },
        _ => Err(
            ChoicesError::ParseError(
                String::from_str("the text backend supports only scalar and optional fields"),
            ),
        ),
    }
}

/// Round trip of the text backend on scalars: parsing the printed form of a
/// well-typed scalar gives the scalar back.
pub proof fn lemma_text_scalar_round_trip(v: ScalarModel, t: ScalarType)
    requires
        scalar_well_typed(v, t),
    ensures
        text_scalar_dec(t, text_scalar_enc(v)) == Ok::<ScalarModel, ErrorModel>(v),
{
    reveal_strlit("true");
    reveal_strlit("false");
    match v {
        ScalarModel::Bool(b) => {
            assert("true"@.len() == 4);
            assert("false"@.len() == 5);
        },
        ScalarModel::Char(c) => {
        },
        ScalarModel::Int(i) => {
            let s = text_scalar_enc(v);
            if i >= 0 {
                lemma_dec_digits_shape(i as nat);
                lemma_dec_digits_val(i as nat);
                let (neg, rest) = strip_sign(s);
                assert(is_digit(s[0]));
                assert(!neg && rest == s);
            } else {
                lemma_dec_digits_shape((-i) as nat);
                lemma_dec_digits_val((-i) as nat);
                let (neg, rest) = strip_sign(s);
                assert(s[0] == '-');
                assert(neg);
                assert(rest =~= dec_digits((-i) as nat));
            }
        },
        ScalarModel::Uint(u) => {
            lemma_dec_digits_shape(u);
            lemma_dec_digits_val(u);
            let s = text_scalar_enc(v);
            let (neg, rest) = strip_sign(s);
            assert(is_digit(s[0]));
            assert(!neg && rest == s);
        },
        ScalarModel::Text(s) => {
        },
    }
}

/// Round trip of the text backend (scalar and optional fields). The one
/// exception is an optional whose present value prints as the empty string:
/// the empty body is read back as the absent value.
pub proof fn lemma_text_round_trip(v: FieldModel, t: ValueType)
    requires
        well_typed(v, t),
        t matches ValueType::Scalar(_) || t matches ValueType::Optional(_),
        (v matches FieldModel::Optional(o) && o matches Some(s)) ==> text_scalar_enc(
            v->Optional_0->0,
        ).len() > 0,
    ensures
        text_enc(v) matches Ok(body) && text_dec(t, body) == Ok::<FieldModel, ErrorModel>(v),
{
    match t {
        ValueType::Scalar(st) => {
            lemma_text_scalar_round_trip(v->Scalar_0, st);
        },
        ValueType::Optional(st) => {
            match v->Optional_0 {
                Some(s) => {
                    lemma_text_scalar_round_trip(s, st);
                },
                None => {
                },
            }
        },
        _ => {
        },
    }
}

} // verus!
