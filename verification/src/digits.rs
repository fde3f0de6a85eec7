//! Decimal printing and parsing, the core shared by both serialization
//! backends.

use vstd::prelude::*;
use vstd::arithmetic::div_mod::lemma_fundamental_div_mod;

verus! {

/// The decimal digit character for `d` (0 through 9).
pub open spec fn digit_char(d: nat) -> char {
    if d == 0 {
        '0'
    } else if d == 1 {
        '1'
    } else if d == 2 {
        '2'
    } else if d == 3 {
        '3'
    } else if d == 4 {
        '4'
    } else if d == 5 {
        '5'
    } else if d == 6 {
        '6'
    } else if d == 7 {
        '7'
    } else if d == 8 {
        '8'
    } else {
        '9'
    }
}

/// Whether `c` is a decimal digit character.
pub open spec fn is_digit(c: char) -> bool {
    c == '0' || c == '1' || c == '2' || c == '3' || c == '4' || c == '5' || c == '6' || c == '7'
        || c == '8' || c == '9'
}

/// The numeric value of a digit character.
pub open spec fn digit_val(c: char) -> nat {
    if c == '0' {
        0
    } else if c == '1' {
        1
    } else if c == '2' {
        2
    } else if c == '3' {
        3
    } else if c == '4' {
        4
    } else if c == '5' {
        5
    } else if c == '6' {
        6
    } else if c == '7' {
        7
    } else if c == '8' {
        8
    } else {
        9
    }
}

/// The canonical decimal rendering of `n` (no sign, no leading zeros).
pub open spec fn dec_digits(n: nat) -> Seq<char>
    decreases n,
{
    if n < 10 {
        seq![digit_char(n)]
    } else {
        dec_digits(n / 10).push(digit_char(n % 10))
    }
}

/// The canonical decimal rendering of the integer `n`, with a leading `-`
/// for negative values.
pub open spec fn dec_int(n: int) -> Seq<char> {
    if n >= 0 {
        dec_digits(n as nat)
    } else {
        seq!['-'] + dec_digits((-n) as nat)
    }
}

/// Whether every character of `s` is a decimal digit.
pub open spec fn all_digits(s: Seq<char>) -> bool {
    forall|i: int| 0 <= i < s.len() ==> is_digit(#[trigger] s[i])
}

/// The numeric value of the digit string `s` (most significant digit first).
pub open spec fn dec_val(s: Seq<char>) -> nat
    decreases s.len(),
{
    if s.len() == 0 {
        0
    } else {
        dec_val(s.drop_last()) * 10 + digit_val(s.last())
    }
}

/// `dec_digits` produces at least one character, all of them digits, and the
/// first is `'0'` only for zero itself.
pub proof fn lemma_dec_digits_shape(n: nat)
    ensures
        dec_digits(n).len() >= 1,
        all_digits(dec_digits(n)),
        n > 0 ==> dec_digits(n)[0] != '0',
    decreases n,
{
    if n >= 10 {
        lemma_dec_digits_shape(n / 10);
    }
}

/// Reading back the canonical decimal rendering recovers the number.
pub proof fn lemma_dec_digits_val(n: nat)
    ensures
        dec_val(dec_digits(n)) == n,
    decreases n,
{
    if n < 10 {
        let s = seq![digit_char(n)];
        assert(s.drop_last() =~= Seq::<char>::empty());
        assert(dec_val(s) == dec_val(s.drop_last()) * 10 + digit_val(s.last()));
    } else {
        lemma_dec_digits_val(n / 10);
        let s = dec_digits(n / 10).push(digit_char(n % 10));
        assert(s.drop_last() =~= dec_digits(n / 10));
        lemma_fundamental_div_mod(n as int, 10);
    }
}

/// The value of a digit string grows (weakly) with each appended digit, so
/// an overflowing prefix means the whole string overflows.
pub proof fn lemma_dec_val_prefix(s: Seq<char>, i: int)
    requires
        0 <= i <= s.len(),
    ensures
        dec_val(s.take(i)) <= dec_val(s),
    decreases s.len() - i,
{
    if i < s.len() {
        let t = s.take(i + 1);
        assert(t.drop_last() =~= s.take(i));
        assert(dec_val(s.take(i + 1)) == dec_val(s.take(i)) * 10 + digit_val(s.take(i + 1).last()));
        assert(dec_val(s.take(i)) * 10 >= dec_val(s.take(i))) by (nonlinear_arith);
        lemma_dec_val_prefix(s, i + 1);
        assert(s.take(s.len() as int) =~= s);
    } else {
        assert(s.take(i) =~= s);
    }
}

/// The digit character for `d`, as executable code.
pub fn digit_to_char(d: u8) -> (c: char)
    requires
        d < 10,
    ensures
        c == digit_char(d as nat),
{
    match d {
        0 => '0',
        1 => '1',
        2 => '2',
        3 => '3',
        4 => '4',
        5 => '5',
        6 => '6',
        7 => '7',
        8 => '8',
        _ => '9',
    }
}

/// The numeric value of `c` when it is a digit character.
pub fn char_to_digit(c: char) -> (r: Option<u8>)
    ensures
        r is Some <==> is_digit(c),
        r matches Some(d) ==> d == digit_val(c) && d < 10,
{
    match c {
        '0' => Some(0),
        '1' => Some(1),
        '2' => Some(2),
        '3' => Some(3),
        '4' => Some(4),
        '5' => Some(5),
        '6' => Some(6),
        '7' => Some(7),
        '8' => Some(8),
        '9' => Some(9),
        _ => None,
    }
}

/// Appends the canonical decimal rendering of `n` to `out`.
pub fn print_u128(n: u128, out: &mut Vec<char>)
    ensures
        final(out)@ == old(out)@ + dec_digits(n as nat),
    decreases n,
{
    if n < 10 {
        out.push(digit_to_char((n % 10) as u8));
        assert(out@ =~= old(out)@ + dec_digits(n as nat));
    } else {
        print_u128(n / 10, out);
        out.push(digit_to_char((n % 10) as u8));
        assert(out@ =~= old(out)@ + dec_digits(n as nat));
    }
}

/// Appends the canonical decimal rendering of the signed `n` to `out`.
pub fn print_i128(n: i128, out: &mut Vec<char>)
    ensures
        final(out)@ == old(out)@ + dec_int(n as int),
{
    if n >= 0 {
        print_u128(n as u128, out);
    } else {
        out.push('-');
        let mag: u128 = ((-(n + 1)) as u128) + 1;
        assert(mag == -(n as int));
        print_u128(mag, out);
        assert(out@ =~= old(out)@ + dec_int(n as int));
    }
}

/// The first index at or after `from` whose character is not a digit.
pub fn scan_digits(s: &Vec<char>, from: usize) -> (r: usize)
    requires
        from <= s@.len(),
    ensures
        from <= r <= s@.len(),
        all_digits(s@.subrange(from as int, r as int)),
        r < s@.len() ==> !is_digit(s@[r as int]),
{
    let mut i = from;
    while i < s.len()
        invariant
            from <= i <= s@.len(),
            all_digits(s@.subrange(from as int, i as int)),
        decreases s@.len() - i,
    {
        if char_to_digit(s[i]).is_none() {
            return i;
        }
        assert(s@.subrange(from as int, i + 1 as int) =~= s@.subrange(from as int, i as int).push(
            s@[i as int],
        ));
        i = i + 1;
    }
    i
}

/// The value of the digit run `s[from..to]`, or `None` when it exceeds
/// `u128::MAX`.
pub fn digits_value(s: &Vec<char>, from: usize, to: usize) -> (r: Option<u128>)
    requires
        from <= to <= s@.len(),
        all_digits(s@.subrange(from as int, to as int)),
    ensures
        r matches Some(v) ==> v as nat == dec_val(s@.subrange(from as int, to as int)),
        r is None ==> dec_val(s@.subrange(from as int, to as int)) > u128::MAX,
{
    let ghost whole = s@.subrange(from as int, to as int);
    let mut acc: u128 = 0;
    let mut i = from;
    while i < to
        invariant
            from <= i <= to <= s@.len(),
            all_digits(whole),
            whole == s@.subrange(from as int, to as int),
            acc as nat == dec_val(s@.subrange(from as int, i as int)),
        decreases to - i,
    {
        assert(s@[i as int] == whole[i - from]);
        let d = match char_to_digit(s[i]) {
            Some(d) => d,
            None => {
                // unreachable: the range holds digits only
                return None;
            },
        };
        let ghost prefix = s@.subrange(from as int, i as int);
        let ghost next = s@.subrange(from as int, i + 1 as int);
        assert(next.drop_last() =~= prefix);
        assert(dec_val(next) == dec_val(prefix) * 10 + digit_val(next.last()));
        if acc > u128::MAX / 10 || (acc == u128::MAX / 10 && d as u128 > u128::MAX % 10) {
            assert(dec_val(next) > u128::MAX) by {
                lemma_fundamental_div_mod(u128::MAX as int, 10);
                assert(acc as nat * 10 + digit_val(next.last()) > u128::MAX) by (nonlinear_arith)
                    requires
                        acc > u128::MAX / 10 || (acc == u128::MAX / 10 && digit_val(next.last())
                            > u128::MAX % 10),
                        digit_val(next.last()) < 10,
                        u128::MAX == (u128::MAX / 10) * 10 + u128::MAX % 10,
                ;
            }
            proof {
                lemma_dec_val_prefix(whole, i + 1 - from);
                assert(whole.take(i + 1 - from) =~= next);
            }
            return None;
        }
        assert(acc as nat * 10 + d as nat <= u128::MAX) by (nonlinear_arith)
            requires
                d < 10,
                acc <= u128::MAX / 10,
                !(acc > u128::MAX / 10 || (acc == u128::MAX / 10 && d as u128 > u128::MAX % 10)),
                u128::MAX == (u128::MAX / 10) * 10 + u128::MAX % 10,
        ;
        proof {
            lemma_fundamental_div_mod(u128::MAX as int, 10);
        }
        acc = acc * 10 + d as u128;
        i = i + 1;
    }
    assert(s@.subrange(from as int, i as int) =~= whole);
    Some(acc)
}

} // verus!
