//! An alternative per-type output interface whose optional values print
//! with an explicit wrapper (`Some(x)` / `None`) instead of the empty
//! body.

use vstd::prelude::*;
use crate::chars::{chars_to_string, str_to_chars};
use crate::digits::{dec_digits, dec_int, print_i128, print_u128};

verus! {

/// Serializes a value into a character sequence.
pub trait ChoicesOutput {
    /// The exact characters the value serializes to.
    spec fn body_spec(&self) -> Seq<char>;

    /// Serializes `self` into a `String`.
    fn body_string(&self) -> (r: String)
        ensures
            r@ == self.body_spec(),
    ;
}

impl ChoicesOutput for bool {
    open spec fn body_spec(&self) -> Seq<char> {
        if *self {
            "true"@
        } else {
            "false"@
        }
    }

    fn body_string(&self) -> (r: String) {
        if *self {
            String::from_str("true")
        } else {
            String::from_str("false")
        }
    }
}

impl ChoicesOutput for char {
    open spec fn body_spec(&self) -> Seq<char> {
        seq![*self]
    }

    fn body_string(&self) -> (r: String) {
        let mut v: Vec<char> = Vec::new();
        v.push(*self);
        assert(v@ =~= seq![*self]);
        chars_to_string(&v)
    }
}

impl ChoicesOutput for String {
    open spec fn body_spec(&self) -> Seq<char> {
        self@
    }

    fn body_string(&self) -> (r: String) {
        self.clone()
    }
}

impl<T: ChoicesOutput> ChoicesOutput for Option<T> {
    open spec fn body_spec(&self) -> Seq<char> {
        match self {
            Some(v) => "Some("@ + v.body_spec() + seq![')'],
            None => "None"@,
        }
    }

    fn body_string(&self) -> (r: String) {
        match self {
            Some(v) => {
                let mut s = String::from_str("Some(");
                s.append(v.body_string().as_str());
                s.append(")");
                proof {
                    reveal_strlit(")");
                    assert(")"@ =~= seq![')']);
                }
                s
            },
            None => String::from_str("None"),
        }
    }
}

impl ChoicesOutput for u8 {
    open spec fn body_spec(&self) -> Seq<char> {
        dec_digits(*self as nat)
    }

    fn body_string(&self) -> (r: String) {
        let mut out: Vec<char> = Vec::new();
        print_u128(*self as u128, &mut out);
        chars_to_string(&out)
    }
}

impl ChoicesOutput for u16 {
    open spec fn body_spec(&self) -> Seq<char> {
        dec_digits(*self as nat)
    }

    fn body_string(&self) -> (r: String) {
        let mut out: Vec<char> = Vec::new();
        print_u128(*self as u128, &mut out);
        chars_to_string(&out)
    }
}

impl ChoicesOutput for u32 {
    open spec fn body_spec(&self) -> Seq<char> {
        dec_digits(*self as nat)
    }

    fn body_string(&self) -> (r: String) {
        let mut out: Vec<char> = Vec::new();
        print_u128(*self as u128, &mut out);
        chars_to_string(&out)
    }
}

impl ChoicesOutput for u64 {
    open spec fn body_spec(&self) -> Seq<char> {
        dec_digits(*self as nat)
    }

    fn body_string(&self) -> (r: String) {
        let mut out: Vec<char> = Vec::new();
        print_u128(*self as u128, &mut out);
        chars_to_string(&out)
    }
}

impl ChoicesOutput for u128 {
    open spec fn body_spec(&self) -> Seq<char> {
        dec_digits(*self as nat)
    }

    fn body_string(&self) -> (r: String) {
        let mut out: Vec<char> = Vec::new();
        print_u128(*self as u128, &mut out);
        chars_to_string(&out)
    }
}

impl ChoicesOutput for usize {
    open spec fn body_spec(&self) -> Seq<char> {
        dec_digits(*self as nat)
    }

    fn body_string(&self) -> (r: String) {
        let mut out: Vec<char> = Vec::new();
        print_u128(*self as u128, &mut out);
        chars_to_string(&out)
    }
}

impl ChoicesOutput for i8 {
    open spec fn body_spec(&self) -> Seq<char> {
        dec_int(*self as int)
    }

    fn body_string(&self) -> (r: String) {
        let mut out: Vec<char> = Vec::new();
        print_i128(*self as i128, &mut out);
        chars_to_string(&out)
    }
}

impl ChoicesOutput for i16 {
    open spec fn body_spec(&self) -> Seq<char> {
        dec_int(*self as int)
    }

    fn body_string(&self) -> (r: String) {
        let mut out: Vec<char> = Vec::new();
        print_i128(*self as i128, &mut out);
        chars_to_string(&out)
    }
}

impl ChoicesOutput for i32 {
    open spec fn body_spec(&self) -> Seq<char> {
        dec_int(*self as int)
    }

    fn body_string(&self) -> (r: String) {
        let mut out: Vec<char> = Vec::new();
        print_i128(*self as i128, &mut out);
        chars_to_string(&out)
    }
}

impl ChoicesOutput for i64 {
    open spec fn body_spec(&self) -> Seq<char> {
        dec_int(*self as int)
    }

    fn body_string(&self) -> (r: String) {
        let mut out: Vec<char> = Vec::new();
        print_i128(*self as i128, &mut out);
        chars_to_string(&out)
    }
}

impl ChoicesOutput for i128 {
    open spec fn body_spec(&self) -> Seq<char> {
        dec_int(*self as int)
    }

    fn body_string(&self) -> (r: String) {
        let mut out: Vec<char> = Vec::new();
        print_i128(*self as i128, &mut out);
        chars_to_string(&out)
    }
}

impl ChoicesOutput for isize {
    open spec fn body_spec(&self) -> Seq<char> {
        dec_int(*self as int)
    }

    fn body_string(&self) -> (r: String) {
        let mut out: Vec<char> = Vec::new();
        print_i128(*self as i128, &mut out);
        chars_to_string(&out)
    }
}

} // verus!
