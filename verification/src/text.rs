//! Small text utilities: string equality, string building, and verified
//! decimal formatting of integers.

use vstd::prelude::*;

verus! {

/// Relies on std's `str` equality: two string slices are equal exactly when
/// their character sequences are.
#[verifier::external_body]
pub(crate) fn str_eq(a: &str, b: &str) -> (r: bool)
    ensures
        r == (a@ == b@),
{
    a == b
}

/// Relies on std's `FromIterator` for `String`: collecting a sequence of
/// characters yields the string of exactly those characters.
#[verifier::external_body]
pub(crate) fn chars_to_string(v: &Vec<char>) -> (s: String)
    ensures
        s@ == v@,
{
    v.iter().collect()
}

/// The decimal digit character for a value below ten.
pub open spec fn spec_digit(d: nat) -> char {
    if d == 0 {
        '0'
    } else if d == 1 {
        '1'
    } else if d == 2 {
        '2'
    } else if d == 3 {
        '3'
    } else if d == 4 {
        '4'
    } else if d == 5 {
        '5'
    } else if d == 6 {
        '6'
    } else if d == 7 {
        '7'
    } else if d == 8 {
        '8'
    } else {
        '9'
    }
}

/// The decimal digits of a natural number, most significant first, without
/// leading zeros (zero itself is the single digit `0`).
pub open spec fn spec_udigits(n: nat) -> Seq<char>
    decreases n,
{
    if n < 10 {
        seq![spec_digit(n)]
    } else {
        spec_udigits(n / 10).push(spec_digit(n % 10))
    }
}

/// The decimal text of an integer: a `-` sign where it is negative, then its
/// magnitude's digits.
pub open spec fn spec_int_str(x: int) -> Seq<char> {
    if x >= 0 {
        spec_udigits(x as nat)
    } else {
        seq!['-'] + spec_udigits((-x) as nat)
    }
}

fn digit_char(d: u64) -> (c: char)
    requires
        d < 10,
    ensures
        c == spec_digit(d as nat),
{
    match d {
        0 => '0',
        1 => '1',
        2 => '2',
        3 => '3',
        4 => '4',
        5 => '5',
        6 => '6',
        7 => '7',
        8 => '8',
        _ => '9',
    }
}

fn push_digits(n: u64, v: &mut Vec<char>)
    ensures
        final(v)@ == old(v)@ + spec_udigits(n as nat),
    decreases n,
{
    if n < 10 {
        v.push(digit_char(n));
        proof {
            assert(v@ =~= old(v)@ + spec_udigits(n as nat));
        }
    } else {
        push_digits(n / 10, v);
        v.push(digit_char(n % 10));
        proof {
            assert(v@ =~= old(v)@ + spec_udigits(n as nat));
        }
    }
}

/// The decimal text of an integer.
pub fn int_to_string(x: i64) -> (s: String)
    ensures
        s@ == spec_int_str(x as int),
{
    let mut v: Vec<char> = Vec::new();
    if x < 0 {
        v.push('-');
    }
    let mag: u64 = if x >= 0 {
        x as u64
    } else if x == i64::MIN {
        9223372036854775808u64
    } else {
        (-x) as u64
    };
    push_digits(mag, &mut v);
    proof {
        if x < 0 {
            assert(v@ =~= seq!['-'] + spec_udigits(mag as nat));
        }
    }
    chars_to_string(&v)
}

} // verus!
