//! Per-type serialization: parsing and printing through the text backend's
//! capability traits.

use choices::serde::{ChoicesInput, ChoicesOutput};
use choices::ChoicesError;

#[test]
fn generic_number_from_chars() {
    let i: u16 = 56;
    let mut buf = String::with_capacity(16);
    buf.push_str(&i.to_string());
    assert_eq!(u16::from_chars(&buf), Ok(i));
}

#[test]
fn option_from_chars() {
    let i: u16 = 56;
    let mut buf = String::with_capacity(16);
    buf.push_str(&i.to_string());
    assert_eq!(Option::<u16>::from_chars(&buf), Ok(Some(i)));
    let buf = String::with_capacity(16);
    assert_eq!(Option::<u16>::from_chars(&buf), Ok(None));
}

#[test]
fn unsigned_round_trips() {
    assert_eq!(5u8.body_string(), "5");
    assert_eq!(u8::from_chars(&5u8.body_string()), Ok(5));
    assert_eq!(2u16.body_string(), "2");
    assert_eq!(3u32.body_string(), "3");
    assert_eq!(4u64.body_string(), "4");
    assert_eq!(1u128.body_string(), "1");
    assert_eq!(6usize.body_string(), "6");
    assert_eq!(u128::from_chars("340282366920938463463374607431768211455"), Ok(u128::MAX));
    assert_eq!(usize::from_chars("6"), Ok(6));
}

#[test]
fn signed_round_trips() {
    assert_eq!((-5i8).body_string(), "-5");
    assert_eq!(i8::from_chars("-5"), Ok(-5));
    assert_eq!((-2i16).body_string(), "-2");
    assert_eq!((-3i32).body_string(), "-3");
    assert_eq!((-4i64).body_string(), "-4");
    assert_eq!((-1i128).body_string(), "-1");
    assert_eq!((-6isize).body_string(), "-6");
    assert_eq!(i128::from_chars("-170141183460469231731687303715884105728"), Ok(i128::MIN));
    assert_eq!(i128::from_chars("170141183460469231731687303715884105727"), Ok(i128::MAX));
}

#[test]
fn bool_and_char_round_trips() {
    assert_eq!(true.body_string(), "true");
    assert_eq!(false.body_string(), "false");
    assert_eq!(bool::from_chars("true"), Ok(true));
    assert_eq!(bool::from_chars("false"), Ok(false));
    assert_eq!('a'.body_string(), "a");
    assert_eq!(char::from_chars("a"), Ok('a'));
}

#[test]
fn string_round_trips() {
    assert_eq!(String::from("blabla").body_string(), "blabla");
    assert_eq!(String::from_chars("blabla"), Ok(String::from("blabla")));
    assert_eq!(String::from_chars(""), Ok(String::new()));
}

#[test]
fn parse_int_errors() {
    assert_eq!(
        u16::from_chars("wrong"),
        Err(ChoicesError::ParseIntError(String::from("invalid digit found in string")))
    );
    assert_eq!(
        u8::from_chars("300"),
        Err(ChoicesError::ParseIntError(String::from("number too large to fit in target type")))
    );
    assert_eq!(
        i8::from_chars("-300"),
        Err(ChoicesError::ParseIntError(String::from("number too small to fit in target type")))
    );
    assert_eq!(
        u16::from_chars(""),
        Err(ChoicesError::ParseIntError(String::from("cannot parse integer from empty string")))
    );
    assert_eq!(
        u16::from_chars("-1"),
        Err(ChoicesError::ParseIntError(String::from("invalid digit found in string")))
    );
}

#[test]
fn parse_bool_error() {
    assert_eq!(
        bool::from_chars("wrong"),
        Err(ChoicesError::ParseBoolError(String::from("provided string was not `true` or `false`")))
    );
}

#[test]
fn parse_char_errors() {
    assert_eq!(
        char::from_chars(""),
        Err(ChoicesError::ParseCharError(String::from("cannot parse char from empty string")))
    );
    assert_eq!(
        char::from_chars("ab"),
        Err(ChoicesError::ParseCharError(String::from("too many characters in string")))
    );
}

#[test]
fn optional_output() {
    let some: Option<char> = Some('a');
    let none: Option<bool> = None;
    assert_eq!(some.body_string(), "a");
    assert_eq!(none.body_string(), "");
}
