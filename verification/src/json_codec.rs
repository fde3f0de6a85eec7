//! The structured serialization backend: a JSON-shaped format covering
//! booleans, integers, strings, characters, absent values (`null`),
//! sequences, and string-keyed mappings of scalars.

use vstd::prelude::*;
use crate::chars::{char_from_u32, chars_to_string, str_to_chars};
use crate::digits::{
    all_digits, dec_digits, dec_int, dec_val, digits_value, is_digit, lemma_dec_digits_shape,
    lemma_dec_digits_val, print_i128, print_u128, scan_digits,
};
use crate::error::{ChoicesError, ChoicesResult, ErrorModel};
use crate::text_codec::chars_eq;
use crate::value::{
    int_bounds, int_max, int_min, is_signed, is_unsigned, scalar_well_typed, uint_bound,
    well_typed, FieldModel, FieldValue, ScalarModel, ScalarType, ScalarValue, ValueType,
};

verus! {

/// The lowercase hexadecimal digit character for `d` (0 through 15).
pub open spec fn hex_char(d: nat) -> char {
    if d < 10 {
        crate::digits::digit_char(d)
    } else if d == 10 {
        'a'
    } else if d == 11 {
        'b'
    } else if d == 12 {
        'c'
    } else if d == 13 {
        'd'
    } else if d == 14 {
        'e'
    } else {
        'f'
    }
}

/// Whether `c` is a hexadecimal digit character (either case).
pub open spec fn is_hex(c: char) -> bool {
    is_digit(c) || c == 'a' || c == 'b' || c == 'c' || c == 'd' || c == 'e' || c == 'f' || c == 'A'
        || c == 'B' || c == 'C' || c == 'D' || c == 'E' || c == 'F'
}

/// The numeric value of a hexadecimal digit character.
pub open spec fn hex_val(c: char) -> nat {
    if is_digit(c) {
        crate::digits::digit_val(c)
    } else if c == 'a' || c == 'A' {
        10
    } else if c == 'b' || c == 'B' {
        11
    } else if c == 'c' || c == 'C' {
        12
    } else if c == 'd' || c == 'D' {
        13
    } else if c == 'e' || c == 'E' {
        14
    } else {
        15
    }
}

/// The escape sequence (or the character itself) used for `c` inside a
/// string literal.
pub open spec fn json_escape_char(c: char) -> Seq<char> {
    if c == '"' {
        seq!['\\', '"']
    } else if c == '\\' {
        seq!['\\', '\\']
    } else if c == '\n' {
        seq!['\\', 'n']
    } else if c == '\r' {
        seq!['\\', 'r']
    } else if c == '\t' {
        seq!['\\', 't']
    } else if (c as nat) < 0x20 {
        seq!['\\', 'u', '0', '0', hex_char((c as nat) / 16), hex_char((c as nat) % 16)]
    } else {
        seq![c]
    }
}

/// The escaped form of the string content `s`.
pub open spec fn json_escape(s: Seq<char>) -> Seq<char>
    decreases s.len(),
{
    if s.len() == 0 {
        Seq::<char>::empty()
    } else {
        json_escape_char(s[0]) + json_escape(s.drop_first())
    }
}

/// The string literal for the content `s`: quotes around the escaped form.
pub open spec fn json_string_enc(s: Seq<char>) -> Seq<char> {
    seq!['"'] + json_escape(s) + seq!['"']
}

/// The structured form of a scalar value.
pub open spec fn json_scalar_enc(v: ScalarModel) -> Seq<char> {
    match v {
        ScalarModel::Bool(b) => if b {
            "true"@
        } else {
            "false"@
        },
        ScalarModel::Char(c) => json_string_enc(seq![c]),
        ScalarModel::Int(i) => dec_int(i),
        ScalarModel::Uint(u) => dec_digits(u),
        ScalarModel::Text(s) => json_string_enc(s),
    }
}

/// The comma-separated structured forms of the sequence items.
pub open spec fn json_items_enc(items: Seq<ScalarModel>) -> Seq<char>
    decreases items.len(),
{
    if items.len() == 0 {
        Seq::<char>::empty()
    } else if items.len() == 1 {
        json_scalar_enc(items[0])
    } else {
        json_items_enc(items.drop_last()) + seq![','] + json_scalar_enc(items.last())
    }
}

/// The comma-separated `"key":value` forms of the mapping pairs.
pub open spec fn json_pairs_enc(pairs: Seq<(Seq<char>, ScalarModel)>) -> Seq<char>
    decreases pairs.len(),
{
    if pairs.len() == 0 {
        Seq::<char>::empty()
    } else if pairs.len() == 1 {
        json_string_enc(pairs[0].0) + seq![':'] + json_scalar_enc(pairs[0].1)
    } else {
        json_pairs_enc(pairs.drop_last()) + seq![','] + json_string_enc(pairs.last().0) + seq![':']
            + json_scalar_enc(pairs.last().1)
    }
}

/// The structured form of a field value.
pub open spec fn json_enc(v: FieldModel) -> Seq<char> {
    match v {
        FieldModel::Scalar(s) => json_scalar_enc(s),
        FieldModel::Optional(o) => match o {
            Some(s) => json_scalar_enc(s),
            None => "null"@,
        },
        FieldModel::Sequence(items) => seq!['['] + json_items_enc(items) + seq![']'],
        FieldModel::Mapping(pairs) => seq!['{'] + json_pairs_enc(pairs) + seq!['}'],
    }
}

/// The lowercase hexadecimal digit character for `d`, as executable code.
pub fn hex_to_char(d: u8) -> (c: char)
    requires
        d < 16,
    ensures
        c == hex_char(d as nat),
{
    if d < 10 {
        crate::digits::digit_to_char(d)
    } else {
        match d {
            10 => 'a',
            11 => 'b',
            12 => 'c',
            13 => 'd',
            14 => 'e',
            _ => 'f',
        }
    }
}

/// The numeric value of `c` when it is a hexadecimal digit character.
pub fn char_to_hex(c: char) -> (r: Option<u8>)
    ensures
        r is Some <==> is_hex(c),
        r matches Some(d) ==> d == hex_val(c) && d < 16,
{
    match crate::digits::char_to_digit(c) {
        Some(d) => Some(d),
        None => match c {
            'a' | 'A' => Some(10),
            'b' | 'B' => Some(11),
            'c' | 'C' => Some(12),
            'd' | 'D' => Some(13),
            'e' | 'E' => Some(14),
            'f' | 'F' => Some(15),
            _ => None,
        },
    }
}

/// Appends the escape sequence (or the character) for `c` to `out`.
fn json_escape_char_push(c: char, out: &mut Vec<char>)
    ensures
        final(out)@ == old(out)@ + json_escape_char(c),
{
    if c == '"' {
        out.push('\\');
        out.push('"');
        assert(out@ =~= old(out)@ + json_escape_char(c));
    } else if c == '\\' {
        out.push('\\');
        out.push('\\');
        assert(out@ =~= old(out)@ + json_escape_char(c));
    } else if c == '\n' {
        out.push('\\');
        out.push('n');
        assert(out@ =~= old(out)@ + json_escape_char(c));
    } else if c == '\r' {
        out.push('\\');
        out.push('r');
        assert(out@ =~= old(out)@ + json_escape_char(c));
    } else if c == '\t' {
        out.push('\\');
        out.push('t');
        assert(out@ =~= old(out)@ + json_escape_char(c));
    } else if (c as u32) < 0x20 {
        out.push('\\');
        out.push('u');
        out.push('0');
        out.push('0');
        out.push(hex_to_char(((c as u32) / 16) as u8));
        out.push(hex_to_char(((c as u32) % 16) as u8));
        assert(out@ =~= old(out)@ + json_escape_char(c));
    } else {
        out.push(c);
        assert(out@ =~= old(out)@ + json_escape_char(c));
    }
}

/// Appends the string literal for the content `s` to `out`.
pub fn json_string_push(s: &str, out: &mut Vec<char>)
    ensures
        final(out)@ == old(out)@ + json_string_enc(s@),
{
    let cs = str_to_chars(s);
    out.push('"');
    let mut i: usize = 0;
    while i < cs.len()
        invariant
            0 <= i <= cs@.len(),
            cs@ == s@,
            out@ == old(out)@ + seq!['"'] + json_escape(s@.take(i as int)),
        decreases cs@.len() - i,
    {
        json_escape_char_push(cs[i], out);
        proof {
            lemma_json_escape_snoc(s@.take(i as int), s@[i as int]);
            assert(s@.take(i + 1 as int) =~= s@.take(i as int).push(s@[i as int]));
        }
        i = i + 1;
    }
    assert(s@.take(i as int) =~= s@);
    out.push('"');
    assert(out@ =~= old(out)@ + json_string_enc(s@));
}

/// Escaping a string one character longer appends that character's escape.
pub proof fn lemma_json_escape_snoc(s: Seq<char>, c: char)
    ensures
        json_escape(s.push(c)) == json_escape(s) + json_escape_char(c),
    decreases s.len(),
{
    if s.len() == 0 {
        assert(s.push(c).drop_first() =~= Seq::<char>::empty());
        assert(s.push(c)[0] == c);
        assert(json_escape(s.push(c)) == json_escape_char(c) + json_escape(Seq::<char>::empty()));
        assert(json_escape_char(c) + Seq::<char>::empty() =~= json_escape_char(c));
        assert(json_escape(s) + json_escape_char(c) =~= json_escape_char(c));
    } else {
        assert(s.push(c).drop_first() =~= s.drop_first().push(c));
        lemma_json_escape_snoc(s.drop_first(), c);
        assert(json_escape(s.push(c)) == json_escape_char(s[0]) + (json_escape(s.drop_first())
            + json_escape_char(c)));
        assert(json_escape_char(s[0]) + (json_escape(s.drop_first()) + json_escape_char(c)) =~= (
        json_escape_char(s[0]) + json_escape(s.drop_first())) + json_escape_char(c));
    }
}

/// Appends the structured form of the scalar `v` to `out`.
fn json_scalar_push(v: &ScalarValue, out: &mut Vec<char>)
    ensures
        final(out)@ == old(out)@ + json_scalar_enc(v@),
{
    match v {
        ScalarValue::Bool(b) => {
            proof {
                reveal_strlit("true");
                reveal_strlit("false");
            }
            if *b {
                out.push('t');
                out.push('r');
                out.push('u');
                out.push('e');
                assert(out@ =~= old(out)@ + "true"@);
            } else {
                out.push('f');
                out.push('a');
                out.push('l');
                out.push('s');
                out.push('e');
                assert(out@ =~= old(out)@ + "false"@);
            }
        },
        ScalarValue::Char(c) => {
            let mut one: Vec<char> = Vec::new();
            one.push(*c);
            let s = chars_to_string(&one);
            json_string_push(s.as_str(), out);
            assert(s@ =~= seq![*c]);
        },
        ScalarValue::Int(i) => {
            print_i128(*i, out);
        },
        ScalarValue::Uint(u) => {
            print_u128(*u, out);
        },
        ScalarValue::Text(s) => {
            json_string_push(s.as_str(), out);
        },
    }
}

/// Serializes `v` for the structured backend. Serialization never fails for
/// this backend.
pub fn json_encode(v: &FieldValue) -> (r: String)
    ensures
        r@ == json_enc(v@),
{
    let mut out: Vec<char> = Vec::new();
    match v {
        FieldValue::Scalar(s) => {
            json_scalar_push(s, &mut out);
        },
        FieldValue::Optional(o) => {
            match o {
                Some(s) => {
                    json_scalar_push(s, &mut out);
                },
                None => {
                    proof {
                        reveal_strlit("null");
                    }
                    out.push('n');
                    out.push('u');
                    out.push('l');
                    out.push('l');
                    assert(out@ =~= "null"@);
                },
            }
        },
        FieldValue::Sequence(items) => {
            out.push('[');
            let ghost m = v@->Sequence_0;
            let mut i: usize = 0;
            while i < items.len()
                invariant
                    0 <= i <= items@.len(),
                    m == items@.map_values(|s: ScalarValue| s@),
                    out@ == seq!['['] + json_items_enc(m.take(i as int)),
                decreases items@.len() - i,
            {
                if i > 0 {
                    out.push(',');
                }
                json_scalar_push(&items[i], &mut out);
                proof {
                    assert(m.take(i + 1 as int) =~= m.take(i as int).push(items@[i as int]@));
                    if i == 0 {
                        assert(m.take(1).len() == 1);
                        assert(m.take(1)[0] == items@[0]@);
                        assert(out@ =~= seq!['['] + json_items_enc(m.take(1)));
                    } else {
                        assert(m.take(i + 1 as int).drop_last() =~= m.take(i as int));
                        assert(out@ =~= seq!['['] + json_items_enc(m.take(i + 1 as int)));
                    }
                }
                i = i + 1;
            }
            assert(m.take(i as int) =~= m);
            out.push(']');
            assert(out@ =~= json_enc(v@));
        },
        FieldValue::Mapping(pairs) => {
            out.push('{');
            let ghost m = v@->Mapping_0;
            let mut i: usize = 0;
            while i < pairs.len()
                invariant
                    0 <= i <= pairs@.len(),
                    m == pairs@.map_values(|p: (String, ScalarValue)| (p.0@, p.1@)),
                    out@ == seq!['{'] + json_pairs_enc(m.take(i as int)),
                decreases pairs@.len() - i,
            {
                if i > 0 {
                    out.push(',');
                }
                json_string_push(pairs[i].0.as_str(), &mut out);
                out.push(':');
                json_scalar_push(&pairs[i].1, &mut out);
                proof {
                    let ghost p = (pairs@[i as int].0@, pairs@[i as int].1@);
                    assert(m.take(i + 1 as int) =~= m.take(i as int).push(p));
                    if i == 0 {
                        assert(m.take(1).len() == 1);
                        assert(m.take(1)[0] == p);
                        assert(out@ =~= seq!['{'] + json_pairs_enc(m.take(1)));
                    } else {
                        assert(m.take(i + 1 as int).drop_last() =~= m.take(i as int));
                        assert(m.take(i + 1 as int).last() == p);
                        assert(out@ =~= seq!['{'] + json_pairs_enc(m.take(i + 1 as int)));
                    }
                }
                i = i + 1;
            }
            assert(m.take(i as int) =~= m);
            out.push('}');
            assert(out@ =~= json_enc(v@));
        },
    }
    chars_to_string(&out)
}

/// The first index at or after `i` whose character is not a digit
/// (specification twin of [`scan_digits`]).
pub open spec fn digits_end(s: Seq<char>, i: int) -> int
    decreases s.len() - i
        when 0 <= i <= s.len()
{
    if i >= s.len() {
        i
    } else if is_digit(s[i]) {
        digits_end(s, i + 1)
    } else {
        i
    }
}

/// `digits_end` is pinned by its characteristic properties.
pub proof fn lemma_digits_end_char(s: Seq<char>, i: int, r: int)
    requires
        0 <= i <= r <= s.len(),
        all_digits(s.subrange(i, r)),
        r == s.len() || !is_digit(s[r]),
    ensures
        digits_end(s, i) == r,
    decreases r - i,
{
    if i < r {
        assert(is_digit(s.subrange(i, r)[0]));
        assert(s.subrange(i + 1, r) =~= s.subrange(i, r).drop_first());
        lemma_digits_end_char(s, i + 1, r);
    }
}

/// The character a short escape sequence stands for.
pub open spec fn unescape_short(e: char) -> char {
    if e == 'n' {
        '\n'
    } else if e == 'r' {
        '\r'
    } else if e == 't' {
        '\t'
    } else if e == 'b' {
        '\u{8}'
    } else if e == 'f' {
        '\u{c}'
    } else {
        e
    }
}

/// Whether `e` is one of the single-character escapes.
pub open spec fn is_short_escape(e: char) -> bool {
    e == '"' || e == '\\' || e == '/' || e == 'n' || e == 'r' || e == 't' || e == 'b' || e == 'f'
}

/// Parses string-literal content starting at `i` (just after the opening
/// quote) up to and including the closing quote. Returns the decoded
/// content and the index after the closing quote.
pub open spec fn json_str_body(s: Seq<char>, i: int) -> Result<(Seq<char>, int), ErrorModel>
    decreases s.len() - i
        when 0 <= i <= s.len()
{
    if i >= s.len() {
        Err(ErrorModel::ParseError("unterminated string"@))
    } else if s[i] == '"' {
        Ok((Seq::<char>::empty(), i + 1))
    } else if s[i] == '\\' {
        if s.len() - i < 2 {
            Err(ErrorModel::ParseError("unterminated string"@))
        } else {
            let e = s[i + 1];
            if e == 'u' {
                if s.len() - i < 6 {
                    Err(ErrorModel::ParseError("invalid escape"@))
                } else if !(is_hex(s[i + 2]) && is_hex(s[i + 3]) && is_hex(s[i + 4]) && is_hex(
                    s[i + 5],
                )) {
                    Err(ErrorModel::ParseError("invalid escape"@))
                } else {
                    let code = ((hex_val(s[i + 2]) * 16 + hex_val(s[i + 3])) * 16 + hex_val(
                        s[i + 4],
                    )) * 16 + hex_val(s[i + 5]);
                    if code < 0xD800 || 0xE000 <= code {
                        match json_str_body(s, i + 6) {
                            Ok((rest, j)) => Ok((seq![code as char] + rest, j)),
                            Err(e) => Err(e),
                        }
                    } else {
                        Err(ErrorModel::ParseError("invalid unicode code point"@))
                    }
                }
            } else if is_short_escape(e) {
                match json_str_body(s, i + 2) {
                    Ok((rest, j)) => Ok((seq![unescape_short(e)] + rest, j)),
                    Err(x) => Err(x),
                }
            } else {
                Err(ErrorModel::ParseError("invalid escape"@))
            }
        }
    } else {
        match json_str_body(s, i + 1) {
            Ok((rest, j)) => Ok((seq![s[i]] + rest, j)),
            Err(e) => Err(e),
        }
    }
}

/// A parsed position never runs backwards and stays inside the input.
pub proof fn lemma_json_str_body_bounds(s: Seq<char>, i: int)
    requires
        0 <= i <= s.len(),
    ensures
        json_str_body(s, i) matches Ok(p) ==> i < p.1 <= s.len(),
    decreases s.len() - i,
{
    if i < s.len() && s[i] != '"' {
        if s[i] == '\\' && s.len() - i >= 2 {
            if s[i + 1] == 'u' {
                if s.len() - i >= 6 {
                    lemma_json_str_body_bounds(s, i + 6);
                }
            } else {
                lemma_json_str_body_bounds(s, i + 2);
            }
        } else if s[i] != '\\' {
            lemma_json_str_body_bounds(s, i + 1);
        }
    }
}

/// Whether `lit` occurs in `s` starting at `i`.
pub open spec fn starts_with(s: Seq<char>, i: int, lit: Seq<char>) -> bool {
    0 <= i && i + lit.len() <= s.len() && s.subrange(i, i + lit.len()) == lit
}

/// Parses a string literal starting at `i` (at the opening quote).
pub open spec fn json_string_token(s: Seq<char>, i: int) -> Result<(Seq<char>, int), ErrorModel> {
    if 0 <= i < s.len() && s[i] == '"' {
        json_str_body(s, i + 1)
    } else {
        Err(ErrorModel::ParseError("expected value"@))
    }
}

/// Parses a decimal number token at `i` as the integer scalar type `t`.
pub open spec fn json_int_token(t: ScalarType, s: Seq<char>, i: int) -> Result<
    (ScalarModel, int),
    ErrorModel,
> {
    let neg = 0 <= i < s.len() && s[i] == '-';
    let di = if neg {
        i + 1
    } else {
        i
    };
    let end = digits_end(s, di);
    if end == di {
        Err(ErrorModel::ParseError("expected value"@))
    } else {
        let v: int = if neg {
            -(dec_val(s.subrange(di, end)) as int)
        } else {
            dec_val(s.subrange(di, end)) as int
        };
        if v > int_max(t) {
            Err(ErrorModel::ParseIntError("number too large to fit in target type"@))
        } else if v < int_min(t) {
            Err(ErrorModel::ParseIntError("number too small to fit in target type"@))
        } else if is_unsigned(t) {
            Ok((ScalarModel::Uint(dec_val(s.subrange(di, end))), end))
        } else {
            Ok((ScalarModel::Int(v), end))
        }
    }
}

/// Parses one scalar token of type `t` at `i`: the value and the index just
/// after the token.
pub open spec fn json_scalar_token(t: ScalarType, s: Seq<char>, i: int) -> Result<
    (ScalarModel, int),
    ErrorModel,
> {
    match t {
        ScalarType::Bool => if starts_with(s, i, "true"@) {
            Ok((ScalarModel::Bool(true), i + 4))
        } else if starts_with(s, i, "false"@) {
            Ok((ScalarModel::Bool(false), i + 5))
        } else {
            Err(ErrorModel::ParseError("expected value"@))
        },
        ScalarType::Char => match json_string_token(s, i) {
            Ok((content, j)) => if content.len() == 1 {
                Ok((ScalarModel::Char(content[0]), j))
            } else {
                Err(ErrorModel::ParseCharError("expected a string with one character"@))
            },
            Err(e) => Err(e),
        },
        ScalarType::Text => match json_string_token(s, i) {
            Ok((content, j)) => Ok((ScalarModel::Text(content), j)),
            Err(e) => Err(e),
        },
        _ => json_int_token(t, s, i),
    }
}

/// Parses `item (',' item)* ']'` starting at the first item. Returns the
/// items and the index just after the closing bracket.
pub open spec fn json_seq_rest(st: ScalarType, s: Seq<char>, i: int) -> Result<
    (Seq<ScalarModel>, int),
    ErrorModel,
>
    decreases s.len() - i
        when 0 <= i <= s.len()
{
    match json_scalar_token(st, s, i) {
        Err(e) => Err(e),
        Ok((v, j)) => if !(i < j <= s.len()) {
            Err(ErrorModel::ParseError("expected value"@))
        } else if j == s.len() {
            Err(ErrorModel::ParseError("expected `,` or `]`"@))
        } else if s[j] == ']' {
            Ok((seq![v], j + 1))
        } else if s[j] == ',' {
            match json_seq_rest(st, s, j + 1) {
                Ok((rest, k)) => Ok((seq![v] + rest, k)),
                Err(e) => Err(e),
            }
        } else {
            Err(ErrorModel::ParseError("expected `,` or `]`"@))
        },
    }
}

/// Parses `pair (',' pair)* '}'` starting at the first pair, where a pair
/// is `"key":value`.
pub open spec fn json_map_rest(st: ScalarType, s: Seq<char>, i: int) -> Result<
    (Seq<(Seq<char>, ScalarModel)>, int),
    ErrorModel,
>
    decreases s.len() - i
        when 0 <= i <= s.len()
{
    if !(0 <= i < s.len() && s[i] == '"') {
        Err(ErrorModel::ParseError("expected string key"@))
    } else {
        match json_str_body(s, i + 1) {
            Err(e) => Err(e),
            Ok((key, j)) => if !(i < j <= s.len()) {
                Err(ErrorModel::ParseError("expected string key"@))
            } else if j == s.len() || s[j] != ':' {
                Err(ErrorModel::ParseError("expected `:`"@))
            } else {
                match json_scalar_token(st, s, j + 1) {
                    Err(e) => Err(e),
                    Ok((v, k)) => if !(j < k <= s.len()) {
                        Err(ErrorModel::ParseError("expected value"@))
                    } else if k == s.len() {
                        Err(ErrorModel::ParseError("expected `,` or `}`"@))
                    } else if s[k] == '}' {
                        Ok((seq![(key, v)], k + 1))
                    } else if s[k] == ',' {
                        match json_map_rest(st, s, k + 1) {
                            Ok((rest, m)) => Ok((seq![(key, v)] + rest, m)),
                            Err(e) => Err(e),
                        }
                    } else {
                        Err(ErrorModel::ParseError("expected `,` or `}`"@))
                    },
                }
            },
        }
    }
}

/// Parses a whole body as a value of the field type `t` for the structured
/// backend. The body must be consumed exactly; no surrounding whitespace is
/// accepted.
pub open spec fn json_dec(t: ValueType, s: Seq<char>) -> Result<FieldModel, ErrorModel> {
    match t {
        ValueType::Scalar(st) => match json_scalar_token(st, s, 0) {
            Ok((v, j)) => if j == s.len() {
                Ok(FieldModel::Scalar(v))
            } else {
                Err(ErrorModel::ParseError("trailing characters"@))
            },
            Err(e) => Err(e),
        },
        ValueType::Optional(st) => if s == "null"@ {
            Ok(FieldModel::Optional(None))
        } else {
            match json_scalar_token(st, s, 0) {
                Ok((v, j)) => if j == s.len() {
                    Ok(FieldModel::Optional(Some(v)))
                } else {
                    Err(ErrorModel::ParseError("trailing characters"@))
                },
                Err(e) => Err(e),
            }
        },
        ValueType::Sequence(st) => if s.len() == 0 || s[0] != '[' {
            Err(ErrorModel::ParseError("expected value"@))
        } else if s.len() >= 2 && s[1] == ']' {
            if s.len() == 2 {
                Ok(FieldModel::Sequence(Seq::<ScalarModel>::empty()))
            } else {
                Err(ErrorModel::ParseError("trailing characters"@))
            }
        } else {
            match json_seq_rest(st, s, 1) {
                Ok((items, j)) => if j == s.len() {
                    Ok(FieldModel::Sequence(items))
                } else {
                    Err(ErrorModel::ParseError("trailing characters"@))
                },
                Err(e) => Err(e),
            }
        },
        ValueType::Mapping(st) => if s.len() == 0 || s[0] != '{' {
            Err(ErrorModel::ParseError("expected value"@))
        } else if s.len() >= 2 && s[1] == '}' {
            if s.len() == 2 {
                Ok(FieldModel::Mapping(Seq::<(Seq<char>, ScalarModel)>::empty()))
            } else {
                Err(ErrorModel::ParseError("trailing characters"@))
            }
        } else {
            match json_map_rest(st, s, 1) {
                Ok((pairs, j)) => if j == s.len() {
                    Ok(FieldModel::Mapping(pairs))
                } else {
                    Err(ErrorModel::ParseError("trailing characters"@))
                },
                Err(e) => Err(e),
            }
        },
    }
}

/// Whether the literal occurs in `s` at position `i`.
fn match_lit(s: &Vec<char>, i: usize, lit: &str) -> (r: bool)
    ensures
        r == starts_with(s@, i as int, lit@),
{
    let l = str_to_chars(lit);
    let n = s.len();
    if i > n || n - i < l.len() {
        return false;
    }
    let mut k: usize = 0;
    while k < l.len()
        invariant
            0 <= k <= l@.len(),
            i + l@.len() <= s@.len(),
            s@.len() == n,
            l@ == lit@,
            forall|j: int| 0 <= j < k ==> s@[i + j] == l@[j],
        decreases l@.len() - k,
    {
        if s[i + k] != l[k] {
            assert(s@.subrange(i as int, i + lit@.len())[k as int] != lit@[k as int]);
            return false;
        }
        k = k + 1;
    }
    assert(s@.subrange(i as int, i + lit@.len()) =~= lit@);
    true
}

/// Parses string-literal content starting just after the opening quote;
/// returns the decoded content and the index after the closing quote.
fn parse_str_body(s: &Vec<char>, i: usize) -> (r: ChoicesResult<(Vec<char>, usize)>)
    requires
        i <= s@.len(),
    ensures
        match json_str_body(s@, i as int) {
            Ok(p) => r matches Ok(q) && q.0@ == p.0 && q.1 == p.1,
            Err(e) => r matches Err(x) && x@ == e,
        },
    decreases s@.len() - i,
{
    if i >= s.len() {
        return Err(ChoicesError::ParseError(String::from_str("unterminated string")));
    }
    let c = s[i];
    if c == '"' {
        let content: Vec<char> = Vec::new();
        return Ok((content, i + 1));
    }
    if c == '\\' {
        if s.len() - i < 2 {
            return Err(ChoicesError::ParseError(String::from_str("unterminated string")));
        }
        let e = s[i + 1];
        if e == 'u' {
            if s.len() - i < 6 {
                return Err(ChoicesError::ParseError(String::from_str("invalid escape")));
            }
            let h1 = char_to_hex(s[i + 2]);
            let h2 = char_to_hex(s[i + 3]);
            let h3 = char_to_hex(s[i + 4]);
            let h4 = char_to_hex(s[i + 5]);
            match (h1, h2, h3, h4) {
                (Some(a), Some(b), Some(cc), Some(d)) => {
                    let code: u32 = ((a as u32 * 16 + b as u32) * 16 + cc as u32) * 16 + d as u32;
                    if code < 0xD800 || 0xE000 <= code {
                        let ch = match char_from_u32(code) {
                            Some(ch) => ch,
                            None => {
                                // unreachable: the range was just checked
                                return Err(
                                    ChoicesError::ParseError(
                                        String::from_str("invalid unicode code point"),
                                    ),
                                );
                            },
                        };
                        match parse_str_body(s, i + 6) {
                            Ok((mut rest, j)) => {
                                rest.insert(0, ch);
                                assert(rest@ =~= seq![ch] + json_str_body(s@, i + 6 as int)->Ok_0.0);
                                Ok((rest, j))
                            },
                            Err(x) => Err(x),
                        }
                    } else {
                        Err(ChoicesError::ParseError(String::from_str("invalid unicode code point")))
                    }
                },
                _ => Err(ChoicesError::ParseError(String::from_str("invalid escape"))),
            }
        } else if e == '"' || e == '\\' || e == '/' || e == 'n' || e == 'r' || e == 't' || e == 'b'
            || e == 'f' {
            let ch: char = match e {
                'n' => '\n',
                'r' => '\r',
                't' => '\t',
                'b' => '\u{8}',
                'f' => '\u{c}',
                other => other,
            };
            assert(ch == unescape_short(e));
            match parse_str_body(s, i + 2) {
                Ok((mut rest, j)) => {
                    rest.insert(0, ch);
                    assert(rest@ =~= seq![ch] + json_str_body(s@, i + 2 as int)->Ok_0.0);
                    Ok((rest, j))
                },
                Err(x) => Err(x),
            }
        } else {
            Err(ChoicesError::ParseError(String::from_str("invalid escape")))
        }
    } else {
        match parse_str_body(s, i + 1) {
            Ok((mut rest, j)) => {
                rest.insert(0, c);
                assert(rest@ =~= seq![c] + json_str_body(s@, i + 1 as int)->Ok_0.0);
                Ok((rest, j))
            },
            Err(x) => Err(x),
        }
    }
}

/// Parses a decimal number token at `i` as the integer scalar type `t`.
fn parse_int_token(t: ScalarType, s: &Vec<char>, i: usize) -> (r: ChoicesResult<
    (ScalarValue, usize),
>)
    requires
        i <= s@.len(),
        is_signed(t) || is_unsigned(t),
    ensures
        match json_int_token(t, s@, i as int) {
            Ok(p) => r matches Ok(q) && q.0@ == p.0 && q.1 == p.1,
            Err(e) => r matches Err(x) && x@ == e,
        },
{
    let neg = i < s.len() && s[i] == '-';
    let di = if neg {
        i + 1
    } else {
        i
    };
    let end = scan_digits(s, di);
    proof {
        lemma_digits_end_char(s@, di as int, end as int);
    }
    if end == di {
        return Err(ChoicesError::ParseError(String::from_str("expected value")));
    }
    let ghost digits = s@.subrange(di as int, end as int);
    let ghost v: int = if neg {
        -(dec_val(digits) as int)
    } else {
        dec_val(digits) as int
    };
    let mag = digits_value(s, di, end);
    let too_large = ChoicesError::ParseIntError(
        String::from_str("number too large to fit in target type"),
    );
    let too_small = ChoicesError::ParseIntError(
        String::from_str("number too small to fit in target type"),
    );
    let signed = match t {
        ScalarType::U8 | ScalarType::U16 | ScalarType::U32 | ScalarType::U64 | ScalarType::U128
        | ScalarType::USize => {
            false
        },
        _ => true,
    };
    match mag {
        None => {
            if neg {
                assert(v < int_min(t));
                Err(too_small)
            } else {
                assert(v > int_max(t));
                Err(too_large)
            }
        },
        Some(mag) => {
            if !signed {
                if neg {
                    if mag == 0 {
                        Ok((ScalarValue::Uint(0), end))
                    } else {
                        assert(v < int_min(t));
                        Err(too_small)
                    }
                } else if mag > uint_bound(t) {
                    Err(too_large)
                } else {
                    Ok((ScalarValue::Uint(mag), end))
                }
            } else {
                let (min, max) = int_bounds(t);
                if !neg {
                    if max >= 0 && mag > (max as u128) {
                        Err(too_large)
                    } else {
                        Ok((ScalarValue::Int(mag as i128), end))
                    }
                } else {
                    let min_mag: u128 = ((-(min + 1)) as u128) + 1;
                    if mag > min_mag {
                        Err(too_small)
                    } else {
                        let value: i128 = if mag > (i128::MAX as u128) {
                            assert(mag == 170141183460469231731687303715884105728);
                            i128::MIN
                        } else {
                            -(mag as i128)
                        };
                        assert(value as int == v);
                        Ok((ScalarValue::Int(value), end))
                    }
                }
            }
        },
    }
}

/// Parses one scalar token of type `t` at `i`.
fn parse_scalar_token(t: ScalarType, s: &Vec<char>, i: usize) -> (r: ChoicesResult<
    (ScalarValue, usize),
>)
    requires
        i <= s@.len(),
    ensures
        match json_scalar_token(t, s@, i as int) {
            Ok(p) => r matches Ok(q) && q.0@ == p.0 && q.1 <= s@.len() && q.1 == p.1,
            Err(e) => r matches Err(x) && x@ == e,
        },
{
    let n = s.len();
    match t {
        ScalarType::Bool => {
            if match_lit(s, i, "true") {
                proof {
                    reveal_strlit("true");
                }
                Ok((ScalarValue::Bool(true), i + 4))
            } else if match_lit(s, i, "false") {
                proof {
                    reveal_strlit("false");
                }
                Ok((ScalarValue::Bool(false), i + 5))
            } else {
                Err(ChoicesError::ParseError(String::from_str("expected value")))
            }
        },
        ScalarType::Char => {
            if i < s.len() && s[i] == '"' {
                proof {
                    lemma_json_str_body_bounds(s@, i + 1);
                }
                match parse_str_body(s, i + 1) {
                    Ok((content, j)) => {
                        if content.len() == 1 {
                            Ok((ScalarValue::Char(content[0]), j))
                        } else {
                            Err(
                                ChoicesError::ParseCharError(
                                    String::from_str("expected a string with one character"),
                                ),
                            )
                        }
                    },
                    Err(x) => Err(x),
                }
            } else {
                Err(ChoicesError::ParseError(String::from_str("expected value")))
            }
        },
        ScalarType::Text => {
            if i < s.len() && s[i] == '"' {
                proof {
                    lemma_json_str_body_bounds(s@, i + 1);
                }
                match parse_str_body(s, i + 1) {
                    Ok((content, j)) => Ok((ScalarValue::Text(chars_to_string(&content)), j)),
                    Err(x) => Err(x),
                }
            } else {
                Err(ChoicesError::ParseError(String::from_str("expected value")))
            }
        },
        _ => {
            let r = parse_int_token(t, s, i);
            proof {
                if i < s@.len() && s@[i as int] == '-' {
                    lemma_digits_end_bounds(s@, i + 1);
                } else {
                    lemma_digits_end_bounds(s@, i as int);
                }
            }
            r
        },
    }
}

/// `digits_end` stays inside the input.
pub proof fn lemma_digits_end_bounds(s: Seq<char>, i: int)
    requires
        0 <= i <= s.len(),
    ensures
        i <= digits_end(s, i) <= s.len(),
    decreases s.len() - i,
{
    if i < s.len() && is_digit(s[i]) {
        lemma_digits_end_bounds(s, i + 1);
    }
}

/// Parses `item (',' item)* ']'` starting at the first item.
fn parse_seq_rest(st: ScalarType, s: &Vec<char>, i: usize) -> (r: ChoicesResult<
    (Vec<ScalarValue>, usize),
>)
    requires
        i <= s@.len(),
    ensures
        match json_seq_rest(st, s@, i as int) {
            Ok(p) => r matches Ok(q) && q.0@.map_values(|x: ScalarValue| x@) == p.0 && q.1 == p.1,
            Err(e) => r matches Err(x) && x@ == e,
        },
    decreases s@.len() - i,
{
    match parse_scalar_token(st, s, i) {
        Err(e) => Err(e),
        Ok((v, j)) => {
            if !(i < j && j <= s.len()) {
                Err(ChoicesError::ParseError(String::from_str("expected value")))
            } else if j == s.len() {
                Err(ChoicesError::ParseError(String::from_str("expected `,` or `]`")))
            } else if s[j] == ']' {
                let mut items: Vec<ScalarValue> = Vec::new();
                items.push(v);
                assert(items@.map_values(|x: ScalarValue| x@) =~= seq![v@]);
                Ok((items, j + 1))
            } else if s[j] == ',' {
                match parse_seq_rest(st, s, j + 1) {
                    Ok((mut rest, k)) => {
                        let ghost rest_model = json_seq_rest(st, s@, j + 1 as int)->Ok_0.0;
                        rest.insert(0, v);
                        assert(rest@.map_values(|x: ScalarValue| x@) =~= seq![v@] + rest_model);
                        Ok((rest, k))
                    },
                    Err(e) => Err(e),
                }
            } else {
                Err(ChoicesError::ParseError(String::from_str("expected `,` or `]`")))
            }
        },
    }
}

/// Parses `pair (',' pair)* '}'` starting at the first pair.
fn parse_map_rest(st: ScalarType, s: &Vec<char>, i: usize) -> (r: ChoicesResult<
    (Vec<(String, ScalarValue)>, usize),
>)
    requires
        i <= s@.len(),
    ensures
        match json_map_rest(st, s@, i as int) {
            Ok(p) => r matches Ok(q) && q.0@.map_values(|x: (String, ScalarValue)| (x.0@, x.1@))
                == p.0 && q.1 == p.1,
            Err(e) => r matches Err(x) && x@ == e,
        },
    decreases s@.len() - i,
{
    if !(i < s.len() && s[i] == '"') {
        return Err(ChoicesError::ParseError(String::from_str("expected string key")));
    }
    match parse_str_body(s, i + 1) {
        Err(e) => Err(e),
        Ok((key, j)) => {
            if !(i < j && j <= s.len()) {
                Err(ChoicesError::ParseError(String::from_str("expected string key")))
            } else if j == s.len() || s[j] != ':' {
                Err(ChoicesError::ParseError(String::from_str("expected `:`")))
            } else {
                match parse_scalar_token(st, s, j + 1) {
                    Err(e) => Err(e),
                    Ok((v, k)) => {
                        if !(j < k && k <= s.len()) {
                            Err(ChoicesError::ParseError(String::from_str("expected value")))
                        } else if k == s.len() {
                            Err(ChoicesError::ParseError(String::from_str("expected `,` or `}`")))
                        } else if s[k] == '}' {
                            let mut pairs: Vec<(String, ScalarValue)> = Vec::new();
                            pairs.push((chars_to_string(&key), v));
                            assert(pairs@.map_values(|x: (String, ScalarValue)| (x.0@, x.1@)) =~= seq![
                                (key@, v@),
                            ]);
                            Ok((pairs, k + 1))
                        } else if s[k] == ',' {
                            match parse_map_rest(st, s, k + 1) {
                                Ok((mut rest, m)) => {
                                    let ghost rest_model = json_map_rest(
                                        st,
                                        s@,
                                        k + 1 as int,
                                    )->Ok_0.0;
                                    rest.insert(0, (chars_to_string(&key), v));
                                    assert(rest@.map_values(
                                        |x: (String, ScalarValue)| (x.0@, x.1@),
                                    ) =~= seq![(key@, v@)] + rest_model);
                                    Ok((rest, m))
                                },
                                Err(e) => Err(e),
                            }
                        } else {
                            Err(ChoicesError::ParseError(String::from_str("expected `,` or `}`")))
                        }
                    },
                }
            }
        },
    }
}

/// Deserializes `body` as a value of the field type `t` for the structured
/// backend.
pub fn json_decode(t: ValueType, body: &str) -> (r: ChoicesResult<FieldValue>)
    ensures
        match json_dec(t, body@) {
            Ok(m) => r matches Ok(v) && v@ == m,
            Err(e) => r matches Err(x) && x@ == e,
        },
{
    let s = str_to_chars(body);
    match t {
        ValueType::Scalar(st) => match parse_scalar_token(st, &s, 0) {
            Ok((v, j)) => {
                if j == s.len() {
                    Ok(FieldValue::Scalar(v))
                } else {
                    Err(ChoicesError::ParseError(String::from_str("trailing characters")))
                }
            },
            Err(e) => Err(e),
        },
        ValueType::Optional(st) => {
            if chars_eq(&s, "null") {
                Ok(FieldValue::Optional(None))
            } else {
                match parse_scalar_token(st, &s, 0) {
                    Ok((v, j)) => {
                        if j == s.len() {
                            Ok(FieldValue::Optional(Some(v)))
                        } else {
                            Err(ChoicesError::ParseError(String::from_str("trailing characters")))
                        }
                    },
                    Err(e) => Err(e),
                }
            }
        },
        ValueType::Sequence(st) => {
            if s.len() == 0 || s[0] != '[' {
                Err(ChoicesError::ParseError(String::from_str("expected value")))
            } else if s.len() >= 2 && s[1] == ']' {
                if s.len() == 2 {
                    let items: Vec<ScalarValue> = Vec::new();
                    assert(items@.map_values(|x: ScalarValue| x@) =~= Seq::<ScalarModel>::empty());
                    Ok(FieldValue::Sequence(items))
                } else {
                    Err(ChoicesError::ParseError(String::from_str("trailing characters")))
                }
            } else {
                match parse_seq_rest(st, &s, 1) {
                    Ok((items, j)) => {
                        if j == s.len() {
                            Ok(FieldValue::Sequence(items))
                        } else {
                            Err(ChoicesError::ParseError(String::from_str("trailing characters")))
                        }
                    },
                    Err(e) => Err(e),
                }
            }
        },
        ValueType::Mapping(st) => {
            if s.len() == 0 || s[0] != '{' {
                Err(ChoicesError::ParseError(String::from_str("expected value")))
            } else if s.len() >= 2 && s[1] == '}' {
                if s.len() == 2 {
                    let pairs: Vec<(String, ScalarValue)> = Vec::new();
                    assert(pairs@.map_values(|x: (String, ScalarValue)| (x.0@, x.1@)) =~= Seq::<
                        (Seq<char>, ScalarModel),
                    >::empty());
                    Ok(FieldValue::Mapping(pairs))
                } else {
                    Err(ChoicesError::ParseError(String::from_str("trailing characters")))
                }
            } else {
                match parse_map_rest(st, &s, 1) {
                    Ok((pairs, j)) => {
                        if j == s.len() {
                            Ok(FieldValue::Mapping(pairs))
                        } else {
                            Err(ChoicesError::ParseError(String::from_str("trailing characters")))
                        }
                    },
                    Err(e) => Err(e),
                }
            }
        },
    }
}

/// The hexadecimal digit characters are hexadecimal digits and read back as
/// their value.
pub proof fn lemma_hex_char(d: nat)
    requires
        d < 16,
    ensures
        is_hex(hex_char(d)),
        hex_val(hex_char(d)) == d,
{
}

/// Parsing a string literal built by the encoder recovers the content.
pub proof fn lemma_str_body_of_enc(pre: Seq<char>, content: Seq<char>, tail: Seq<char>)
    ensures
        json_str_body(pre + json_escape(content) + seq!['"'] + tail, pre.len() as int) == Ok::<
            (Seq<char>, int),
            ErrorModel,
        >((content, (pre.len() + json_escape(content).len() + 1) as int)),
    decreases content.len(),
{
    let s = pre + json_escape(content) + seq!['"'] + tail;
    let i = pre.len() as int;
    assert(0 <= i <= s.len());
    if content.len() == 0 {
        assert(s[i] == '"');
        assert(content =~= Seq::<char>::empty());
    } else {
        let c0 = content[0];
        let rest = content.drop_first();
        let esc0 = json_escape_char(c0);
        let escr = json_escape(rest);
        assert(json_escape(content) == esc0 + escr);
        let pre2 = pre + esc0;
        assert(s =~= pre2 + json_escape(rest) + seq!['"'] + tail);
        lemma_str_body_of_enc(pre2, rest, tail);
        assert(json_str_body(s, pre2.len() as int) == Ok::<(Seq<char>, int), ErrorModel>(
            (rest, (pre2.len() + escr.len() + 1) as int),
        ));
        assert(forall|k: int| 0 <= k < esc0.len() ==> s[i + k] == esc0[k]);
        assert(pre2.len() + escr.len() + 1 == pre.len() + json_escape(content).len() + 1);
        if c0 == '"' || c0 == '\\' || c0 == '\n' || c0 == '\r' || c0 == '\t' {
            assert(esc0.len() == 2);
            assert(s[i] == '\\');
            assert(s.len() - i >= 2);
            assert(is_short_escape(s[i + 1]));
            assert(s[i + 1] != 'u');
            assert(unescape_short(s[i + 1]) == c0);
            assert(json_str_body(s, i) == Ok::<(Seq<char>, int), ErrorModel>(
                (seq![c0] + rest, (pre2.len() + escr.len() + 1) as int),
            ));
            assert(seq![c0] + rest =~= content);
        } else if (c0 as nat) < 0x20 {
            assert(esc0 == seq!['\\', 'u', '0', '0', hex_char((c0 as nat) / 16), hex_char(
                (c0 as nat) % 16,
            )]);
            assert(s[i] == '\\');
            assert(s[i + 1] == 'u');
            assert(s.len() - i >= 6);
            assert(s[i + 2] == '0' && s[i + 3] == '0');
            assert(is_hex('0')) by {
                assert(is_digit('0'));
            }
            lemma_hex_char((c0 as nat) / 16);
            lemma_hex_char((c0 as nat) % 16);
            assert(hex_val('0') == 0) by {
                assert(is_digit('0'));
            }
            let code = ((hex_val(s[i + 2]) * 16 + hex_val(s[i + 3])) * 16 + hex_val(s[i + 4])) * 16
                + hex_val(s[i + 5]);
            assert(code == ((c0 as nat) / 16) * 16 + (c0 as nat) % 16);
            vstd::arithmetic::div_mod::lemma_fundamental_div_mod(c0 as int, 16);
            assert(code == c0 as nat);
            assert(code < 0xD800);
            vstd::utf8::char_u32_cast(c0, c0 as u32);
            assert((c0 as u32) as char == c0);
            assert(code as char == c0);
            assert(json_str_body(s, i) == Ok::<(Seq<char>, int), ErrorModel>(
                (seq![c0] + rest, (pre2.len() + escr.len() + 1) as int),
            ));
            assert(seq![c0] + rest =~= content);
        } else {
            assert(esc0 == seq![c0]);
            assert(s[i] == c0);
            assert(s[i] != '"' && s[i] != '\\');
            assert(json_str_body(s, i) == Ok::<(Seq<char>, int), ErrorModel>(
                (seq![c0] + rest, (pre2.len() + escr.len() + 1) as int),
            ));
            assert(seq![c0] + rest =~= content);
        }
    }
}

/// Whether a token may validly be followed by the first character of
/// `tail`: the delimiters that end a token, or the end of the input.
pub open spec fn is_delim(tail: Seq<char>) -> bool {
    tail.len() == 0 || tail[0] == ',' || tail[0] == ']' || tail[0] == '}' || tail[0] == ':'
}

/// The structured form of a scalar is never empty, and its first character
/// marks the token kind.
pub proof fn lemma_scalar_enc_first(v: ScalarModel)
    ensures
        json_scalar_enc(v).len() >= 1,
        json_scalar_enc(v)[0] == 't' || json_scalar_enc(v)[0] == 'f' || json_scalar_enc(v)[0] == '"'
            || json_scalar_enc(v)[0] == '-' || is_digit(json_scalar_enc(v)[0]),
{
    reveal_strlit("true");
    reveal_strlit("false");
    match v {
        ScalarModel::Bool(b) => {
        },
        ScalarModel::Char(c) => {
            assert(json_scalar_enc(v)[0] == '"');
        },
        ScalarModel::Int(i) => {
            if i >= 0 {
                lemma_dec_digits_shape(i as nat);
                assert(is_digit(dec_digits(i as nat)[0]));
            } else {
                lemma_dec_digits_shape((-i) as nat);
                assert(json_scalar_enc(v)[0] == '-');
            }
        },
        ScalarModel::Uint(u) => {
            lemma_dec_digits_shape(u);
            assert(is_digit(dec_digits(u)[0]));
        },
        ScalarModel::Text(s) => {
            assert(json_scalar_enc(v)[0] == '"');
        },
    }
}

/// Parsing a scalar token built by the encoder recovers the scalar, when
/// what follows begins with a delimiter.
pub proof fn lemma_scalar_token_of_enc(t: ScalarType, v: ScalarModel, pre: Seq<char>, tail: Seq<char>)
    requires
        scalar_well_typed(v, t),
        is_delim(tail),
    ensures
        json_scalar_token(t, pre + json_scalar_enc(v) + tail, pre.len() as int) == Ok::<
            (ScalarModel, int),
            ErrorModel,
        >((v, (pre.len() + json_scalar_enc(v).len()) as int)),
{
    let enc = json_scalar_enc(v);
    let s = pre + enc + tail;
    let i = pre.len() as int;
    reveal_strlit("true");
    reveal_strlit("false");
    assert(forall|k: int| 0 <= k < enc.len() ==> s[i + k] == enc[k]);
    match v {
        ScalarModel::Bool(b) => {
            if b {
                assert(s.subrange(i, i + 4) =~= "true"@);
                assert(starts_with(s, i, "true"@));
            } else {
                assert(s.subrange(i, i + 5) =~= "false"@);
                assert(starts_with(s, i, "false"@));
                assert(s[i] == 'f');
                if starts_with(s, i, "true"@) {
                    assert(s.subrange(i, i + 4)[0] == 't');
                    assert(false);
                }
            }
        },
        ScalarModel::Char(c) => {
            assert(s[i] == '"');
            let pre2 = pre + seq!['"'];
            assert(s =~= pre2 + json_escape(seq![c]) + seq!['"'] + tail);
            lemma_str_body_of_enc(pre2, seq![c], tail);
            assert(enc.len() == json_escape(seq![c]).len() + 2);
        },
        ScalarModel::Text(txt) => {
            assert(s[i] == '"');
            let pre2 = pre + seq!['"'];
            assert(s =~= pre2 + json_escape(txt) + seq!['"'] + tail);
            lemma_str_body_of_enc(pre2, txt, tail);
            assert(enc.len() == json_escape(txt).len() + 2);
        },
        ScalarModel::Uint(u) => {
            lemma_dec_digits_shape(u);
            lemma_dec_digits_val(u);
            assert(enc == dec_digits(u));
            assert(is_digit(s[i]));
            assert(s[i] != '-');
            let r = i + enc.len();
            assert(s.subrange(i, r) =~= enc);
            assert(r == s.len() || !is_digit(s[r])) by {
                if r < s.len() {
                    assert(s[r] == tail[0]);
                }
            }
            lemma_digits_end_char(s, i, r);
        },
        ScalarModel::Int(n) => {
            if n >= 0 {
                lemma_dec_digits_shape(n as nat);
                lemma_dec_digits_val(n as nat);
                assert(enc == dec_digits(n as nat));
                assert(is_digit(s[i]));
                assert(s[i] != '-');
                let r = i + enc.len();
                assert(s.subrange(i, r) =~= enc);
                assert(r == s.len() || !is_digit(s[r])) by {
                    if r < s.len() {
                        assert(s[r] == tail[0]);
                    }
                }
                lemma_digits_end_char(s, i, r);
            } else {
                lemma_dec_digits_shape((-n) as nat);
                lemma_dec_digits_val((-n) as nat);
                assert(enc == seq!['-'] + dec_digits((-n) as nat));
                assert(s[i] == '-');
                let r = i + enc.len();
                assert(s.subrange(i + 1, r) =~= dec_digits((-n) as nat));
                assert(r == s.len() || !is_digit(s[r])) by {
                    if r < s.len() {
                        assert(s[r] == tail[0]);
                    }
                }
                lemma_digits_end_char(s, i + 1, r);
            }
        },
    }
}

/// `json_items_enc`, unfolded at the front instead of the back.
pub proof fn lemma_items_enc_first(items: Seq<ScalarModel>)
    requires
        items.len() >= 1,
    ensures
        items.len() == 1 ==> json_items_enc(items) == json_scalar_enc(items[0]),
        items.len() > 1 ==> json_items_enc(items) == json_scalar_enc(items[0]) + seq![',']
            + json_items_enc(items.drop_first()),
    decreases items.len(),
{
    if items.len() > 1 {
        lemma_items_enc_first(items.drop_last());
        let d = items.drop_first();
        if items.len() == 2 {
            assert(items.drop_last() =~= seq![items[0]]);
            assert(d =~= seq![items[1]]);
            assert(json_items_enc(items) == json_scalar_enc(items[0]) + seq![',']
                + json_scalar_enc(items[1]));
        } else {
            assert(items.drop_last().drop_first() =~= d.drop_last());
            assert(items.drop_last()[0] == items[0]);
            assert(d.last() == items.last());
            assert(json_items_enc(items) == (json_scalar_enc(items[0]) + seq![','] + json_items_enc(
                d.drop_last(),
            )) + seq![','] + json_scalar_enc(d.last()));
            assert((json_scalar_enc(items[0]) + seq![','] + json_items_enc(d.drop_last()))
                + seq![','] + json_scalar_enc(d.last()) =~= json_scalar_enc(items[0]) + seq![',']
                + (json_items_enc(d.drop_last()) + seq![','] + json_scalar_enc(d.last())));
        }
    }
}

/// `json_pairs_enc`, unfolded at the front instead of the back.
pub proof fn lemma_pairs_enc_first(pairs: Seq<(Seq<char>, ScalarModel)>)
    requires
        pairs.len() >= 1,
    ensures
        pairs.len() == 1 ==> json_pairs_enc(pairs) == json_string_enc(pairs[0].0) + seq![':']
            + json_scalar_enc(pairs[0].1),
        pairs.len() > 1 ==> json_pairs_enc(pairs) == json_string_enc(pairs[0].0) + seq![':']
            + json_scalar_enc(pairs[0].1) + seq![','] + json_pairs_enc(pairs.drop_first()),
    decreases pairs.len(),
{
    if pairs.len() > 1 {
        lemma_pairs_enc_first(pairs.drop_last());
        let d = pairs.drop_first();
        let head = json_string_enc(pairs[0].0) + seq![':'] + json_scalar_enc(pairs[0].1);
        if pairs.len() == 2 {
            assert(pairs.drop_last() =~= seq![pairs[0]]);
            assert(d =~= seq![pairs[1]]);
            let second = json_string_enc(pairs[1].0) + seq![':'] + json_scalar_enc(pairs[1].1);
            assert(json_pairs_enc(pairs) == head + seq![','] + json_string_enc(pairs.last().0)
                + seq![':'] + json_scalar_enc(pairs.last().1));
            assert(head + seq![','] + json_string_enc(pairs.last().0) + seq![':'] + json_scalar_enc(
                pairs.last().1,
            ) =~= head + seq![','] + second);
            assert(json_pairs_enc(d) == second);
        } else {
            assert(pairs.drop_last().drop_first() =~= d.drop_last());
            assert(pairs.drop_last()[0] == pairs[0]);
            assert(d.last() == pairs.last());
            let tail_part = json_string_enc(pairs.last().0) + seq![':'] + json_scalar_enc(
                pairs.last().1,
            );
            assert(json_pairs_enc(pairs) == (head + seq![','] + json_pairs_enc(d.drop_last()))
                + seq![','] + tail_part);
            assert(json_pairs_enc(d) == json_pairs_enc(d.drop_last()) + seq![','] + tail_part);
            assert((head + seq![','] + json_pairs_enc(d.drop_last())) + seq![','] + tail_part =~= head
                + seq![','] + (json_pairs_enc(d.drop_last()) + seq![','] + tail_part));
        }
    }
}

/// Parsing the encoded items of a non-empty sequence recovers the items.
pub proof fn lemma_seq_rest_of_enc(
    st: ScalarType,
    items: Seq<ScalarModel>,
    pre: Seq<char>,
    tail: Seq<char>,
)
    requires
        items.len() >= 1,
        forall|k: int| 0 <= k < items.len() ==> scalar_well_typed(#[trigger] items[k], st),
    ensures
        json_seq_rest(st, pre + json_items_enc(items) + seq![']'] + tail, pre.len() as int) == Ok::<
            (Seq<ScalarModel>, int),
            ErrorModel,
        >((items, (pre.len() + json_items_enc(items).len() + 1) as int)),
    decreases items.len(),
{
    let s = pre + json_items_enc(items) + seq![']'] + tail;
    let i = pre.len() as int;
    let enc0 = json_scalar_enc(items[0]);
    lemma_items_enc_first(items);
    lemma_scalar_enc_first(items[0]);
    if items.len() == 1 {
        assert(s =~= pre + enc0 + (seq![']'] + tail));
        lemma_scalar_token_of_enc(st, items[0], pre, seq![']'] + tail);
        let j = (i + enc0.len()) as int;
        assert(s[j] == ']');
        assert(seq![items[0]] =~= items);
    } else {
        let rest = items.drop_first();
        let tail2 = seq![','] + json_items_enc(rest) + seq![']'] + tail;
        assert(s =~= pre + enc0 + tail2);
        lemma_scalar_token_of_enc(st, items[0], pre, tail2);
        let j = (i + enc0.len()) as int;
        assert(s[j] == ',');
        assert(s[j] != ']');
        let pre2 = pre + enc0 + seq![','];
        assert(s =~= pre2 + json_items_enc(rest) + seq![']'] + tail);
        lemma_seq_rest_of_enc(st, rest, pre2, tail);
        assert(json_seq_rest(st, s, j + 1) == Ok::<(Seq<ScalarModel>, int), ErrorModel>(
            (rest, (pre2.len() + json_items_enc(rest).len() + 1) as int),
        ));
        assert(seq![items[0]] + rest =~= items);
    }
}

/// Parsing one encoded `"key":value` pair: the key literal, the colon, and
/// the scalar token, ending just before `tail2`.
proof fn lemma_pair_of_enc(
    st: ScalarType,
    key: Seq<char>,
    val: ScalarModel,
    pre: Seq<char>,
    tail2: Seq<char>,
)
    requires
        scalar_well_typed(val, st),
        is_delim(tail2),
    ensures
        ({
            let s = pre + (json_string_enc(key) + seq![':'] + json_scalar_enc(val)) + tail2;
            let i = pre.len() as int;
            let j = (pre.len() + json_string_enc(key).len()) as int;
            let k = (j + 1 + json_scalar_enc(val).len()) as int;
            s[i] == '"' && json_str_body(s, i + 1) == Ok::<(Seq<char>, int), ErrorModel>((key, j))
                && s[j] == ':' && json_scalar_token(st, s, j + 1) == Ok::<
                (ScalarModel, int),
                ErrorModel,
            >((val, k))
        }),
{
    let s = pre + (json_string_enc(key) + seq![':'] + json_scalar_enc(val)) + tail2;
    let i = pre.len() as int;
    let j = (pre.len() + json_string_enc(key).len()) as int;
    let pre2 = pre + seq!['"'];
    assert(s[i] == '"') by {
        assert(json_string_enc(key)[0] == '"');
    }
    assert(s =~= pre2 + json_escape(key) + seq!['"'] + (seq![':'] + json_scalar_enc(val) + tail2));
    lemma_str_body_of_enc(pre2, key, seq![':'] + json_scalar_enc(val) + tail2);
    assert(j == (pre2.len() + json_escape(key).len() + 1) as int);
    assert(s[j] == ':') by {
        assert(s.subrange(j, s.len() as int) =~= seq![':'] + json_scalar_enc(val) + tail2);
    }
    let pre3 = pre + json_string_enc(key) + seq![':'];
    assert(s =~= pre3 + json_scalar_enc(val) + tail2);
    lemma_scalar_token_of_enc(st, val, pre3, tail2);
}

/// Parsing the encoded pairs of a non-empty mapping recovers the pairs.
#[verifier::rlimit(100)]
#[verifier::spinoff_prover]
pub proof fn lemma_map_rest_of_enc(
    st: ScalarType,
    pairs: Seq<(Seq<char>, ScalarModel)>,
    pre: Seq<char>,
    tail: Seq<char>,
)
    requires
        pairs.len() >= 1,
        forall|k: int| 0 <= k < pairs.len() ==> scalar_well_typed(#[trigger] pairs[k].1, st),
    ensures
        json_map_rest(st, pre + json_pairs_enc(pairs) + seq!['}'] + tail, pre.len() as int) == Ok::<
            (Seq<(Seq<char>, ScalarModel)>, int),
            ErrorModel,
        >((pairs, (pre.len() + json_pairs_enc(pairs).len() + 1) as int)),
    decreases pairs.len(),
{
    let s = pre + json_pairs_enc(pairs) + seq!['}'] + tail;
    let i = pre.len() as int;
    let key = pairs[0].0;
    let kenc = json_string_enc(key);
    let venc = json_scalar_enc(pairs[0].1);
    let pair_enc = kenc + seq![':'] + venc;
    lemma_pairs_enc_first(pairs);
    if pairs.len() == 1 {
        let tail2 = seq!['}'] + tail;
        assert(s =~= pre + (kenc + seq![':'] + venc) + tail2);
        lemma_pair_of_enc(st, key, pairs[0].1, pre, tail2);
        let j = (pre.len() + kenc.len()) as int;
        let k = (j + 1 + venc.len()) as int;
        assert(s[k] == '}') by {
            assert(s.subrange(k, s.len() as int) =~= tail2);
        }
        assert(json_map_rest(st, s, i) == Ok::<(Seq<(Seq<char>, ScalarModel)>, int), ErrorModel>(
            (seq![(key, pairs[0].1)], k + 1),
        ));
        assert(seq![(key, pairs[0].1)] =~= pairs);
    } else {
        let rest = pairs.drop_first();
        let tail2 = seq![','] + json_pairs_enc(rest) + seq!['}'] + tail;
        assert(s =~= pre + (kenc + seq![':'] + venc) + tail2);
        lemma_pair_of_enc(st, key, pairs[0].1, pre, tail2);
        let j = (pre.len() + kenc.len()) as int;
        let k = (j + 1 + venc.len()) as int;
        assert(s[k] == ',') by {
            assert(s.subrange(k, s.len() as int) =~= tail2);
        }
        assert(s[k] != '}');
        let pre4 = pre + pair_enc + seq![','];
        assert(s =~= pre4 + json_pairs_enc(rest) + seq!['}'] + tail);
        lemma_map_rest_of_enc(st, rest, pre4, tail);
        assert(json_map_rest(st, s, k + 1) == Ok::<(Seq<(Seq<char>, ScalarModel)>, int), ErrorModel>(
            (rest, (pre4.len() + json_pairs_enc(rest).len() + 1) as int),
        ));
        assert(seq![(key, pairs[0].1)] + rest =~= pairs);
    }
}

/// Round trip of the structured backend: parsing the encoded form of a
/// well-typed value gives the value back, for scalar, optional, sequence
/// and mapping fields alike.
pub proof fn lemma_json_round_trip(v: FieldModel, t: ValueType)
    requires
        well_typed(v, t),
    ensures
        json_dec(t, json_enc(v)) == Ok::<FieldModel, ErrorModel>(v),
{
    let s = json_enc(v);
    reveal_strlit("null");
    match t {
        ValueType::Scalar(st) => {
            let sv = v->Scalar_0;
            assert(v == FieldModel::Scalar(sv));
            assert(s =~= Seq::<char>::empty() + json_scalar_enc(sv) + Seq::<char>::empty());
            lemma_scalar_token_of_enc(st, sv, Seq::<char>::empty(), Seq::<char>::empty());
            assert(json_scalar_token(st, s, 0) == Ok::<(ScalarModel, int), ErrorModel>(
                (sv, s.len() as int),
            ));
        },
        ValueType::Optional(st) => {
            match v->Optional_0 {
                None => {
                    assert(v == FieldModel::Optional(None));
                    assert(s == "null"@);
                },
                Some(sv) => {
                    assert(v == FieldModel::Optional(Some(sv)));
                    lemma_scalar_enc_first(sv);
                    assert(s == json_scalar_enc(sv));
                    assert(s[0] != 'n');
                    assert("null"@[0] == 'n');
                    assert(s != "null"@);
                    assert(s =~= Seq::<char>::empty() + json_scalar_enc(sv) + Seq::<char>::empty());
                    lemma_scalar_token_of_enc(st, sv, Seq::<char>::empty(), Seq::<char>::empty());
                    assert(json_scalar_token(st, s, 0) == Ok::<(ScalarModel, int), ErrorModel>(
                        (sv, s.len() as int),
                    ));
                },
            }
        },
        ValueType::Sequence(st) => {
            let items = v->Sequence_0;
            assert(v == FieldModel::Sequence(items));
            if items.len() == 0 {
                assert(s =~= seq!['[', ']']);
                assert(s.len() == 2 && s[0] == '[' && s[1] == ']');
                assert(items =~= Seq::<ScalarModel>::empty());
            } else {
                lemma_items_enc_first(items);
                lemma_scalar_enc_first(items[0]);
                assert(s[0] == '[');
                assert(s[1] == json_items_enc(items)[0]);
                assert(json_items_enc(items)[0] == json_scalar_enc(items[0])[0]);
                assert(s[1] != ']');
                assert(s =~= seq!['['] + json_items_enc(items) + seq![']'] + Seq::<char>::empty());
                lemma_seq_rest_of_enc(st, items, seq!['['], Seq::<char>::empty());
                assert(json_seq_rest(st, s, 1) == Ok::<(Seq<ScalarModel>, int), ErrorModel>(
                    (items, s.len() as int),
                ));
            }
        },
        ValueType::Mapping(st) => {
            let pairs = v->Mapping_0;
            assert(v == FieldModel::Mapping(pairs));
            if pairs.len() == 0 {
                assert(s =~= seq!['{', '}']);
                assert(s.len() == 2 && s[0] == '{' && s[1] == '}');
                assert(pairs =~= Seq::<(Seq<char>, ScalarModel)>::empty());
            } else {
                lemma_pairs_enc_first(pairs);
                assert(s[0] == '{');
                assert(s[1] == json_pairs_enc(pairs)[0]);
                assert(json_pairs_enc(pairs)[0] == json_string_enc(pairs[0].0)[0]);
                assert(json_string_enc(pairs[0].0)[0] == '"');
                assert(s[1] != '}');
                assert(s =~= seq!['{'] + json_pairs_enc(pairs) + seq!['}'] + Seq::<char>::empty());
                lemma_map_rest_of_enc(st, pairs, seq!['{'], Seq::<char>::empty());
                assert(json_map_rest(st, s, 1) == Ok::<
                    (Seq<(Seq<char>, ScalarModel)>, int),
                    ErrorModel,
                >((pairs, s.len() as int)));
            }
        },
    }
}

} // verus!
