//! Decimal rendering of the integers that appear in the generated text:
//! signal values, delay counts and bit-range bounds.

use vstd::prelude::*;

verus! {

/// The character for a single decimal digit value.
pub open spec fn dec_digit(d: int) -> char {
    if d == 0 {
        '0'
    } else if d == 1 {
        '1'
    } else if d == 2 {
        '2'
    } else if d == 3 {
        '3'
    } else if d == 4 {
        '4'
    } else if d == 5 {
        '5'
    } else if d == 6 {
        '6'
    } else if d == 7 {
        '7'
    } else if d == 8 {
        '8'
    } else {
        '9'
    }
}

/// Decimal spelling of a non-negative integer, most significant digit first.
pub open spec fn dec_seq(n: nat) -> Seq<char>
    decreases n,
{
    if n < 10 {
        seq![dec_digit(n as int)]
    } else {
        dec_seq(n / 10) + seq![dec_digit((n % 10) as int)]
    }
}

/// Decimal spelling of a signed integer: a leading minus sign for
/// negative values, the plain digit run otherwise.
pub open spec fn signed_dec_seq(v: int) -> Seq<char> {
    if v < 0 {
        seq!['-'] + dec_seq((-v) as nat)
    } else {
        dec_seq(v as nat)
    }
}

/// The numeric value of a decimal digit character, or -1 for any other
/// character.
pub open spec fn digit_value(c: char) -> int {
    if c == '0' {
        0
    } else if c == '1' {
        1
    } else if c == '2' {
        2
    } else if c == '3' {
        3
    } else if c == '4' {
        4
    } else if c == '5' {
        5
    } else if c == '6' {
        6
    } else if c == '7' {
        7
    } else if c == '8' {
        8
    } else if c == '9' {
        9
    } else {
        -1
    }
}

pub open spec fn is_digit(c: char) -> bool {
    digit_value(c) >= 0
}

/// Every character is a decimal digit and there is at least one.
pub open spec fn all_digits(s: Seq<char>) -> bool {
    s.len() > 0 && forall|i: int| 0 <= i < s.len() ==> is_digit(s[i])
}

/// The integer a digit run denotes, read left to right.
pub open spec fn dec_value(s: Seq<char>) -> int
    decreases s.len(),
{
    if s.len() == 0 {
        0
    } else {
        dec_value(s.drop_last()) * 10 + digit_value(s.last())
    }
}

/// Decoding inverts encoding: the digit run of `n` denotes `n`.
pub proof fn lemma_dec_seq_value(n: nat)
    ensures
        all_digits(dec_seq(n)),
        dec_value(dec_seq(n)) == n,
    decreases n,
{
    if n < 10 {
        let s = dec_seq(n);
        assert(s =~= seq![dec_digit(n as int)]);
        assert(s.drop_last() =~= Seq::<char>::empty());
        assert(s.last() == dec_digit(n as int));
        assert(digit_value(dec_digit(n as int)) == n);
        assert(dec_value(s) == n) by {
            reveal_with_fuel(dec_value, 2);
        }
    } else {
        lemma_dec_seq_value(n / 10);
        let s = dec_seq(n);
        let hi = dec_seq(n / 10);
        assert(s =~= hi + seq![dec_digit((n % 10) as int)]);
        assert(s.drop_last() =~= hi);
        assert(s.last() == dec_digit((n % 10) as int));
        assert(digit_value(dec_digit((n % 10) as int)) == n % 10);
    }
}

/// The signed spelling decodes back to its value as well.
pub open spec fn signed_dec_value(s: Seq<char>) -> int {
    if s.len() > 0 && s[0] == '-' {
        -dec_value(s.drop_first())
    } else {
        dec_value(s)
    }
}

/// Round trip for signed values: decoding the spelling of `v` yields `v`.
pub proof fn lemma_signed_dec_round_trip(v: int)
    ensures
        signed_dec_value(signed_dec_seq(v)) == v,
{
    if v < 0 {
        lemma_dec_seq_value((-v) as nat);
        let s = signed_dec_seq(v);
        assert(s.drop_first() =~= dec_seq((-v) as nat));
        assert(s[0] == '-');
    } else {
        lemma_dec_seq_value(v as nat);
        let s = signed_dec_seq(v);
        if s[0] == '-' {
            assert(is_digit(dec_seq(v as nat)[0]));
        }
    }
}

/// The &str spelling of a single digit value.
fn digit_str(d: u64) -> (r: &'static str)
    requires
        d < 10,
    ensures
        r@ == seq![dec_digit(d as int)],
{
    proof {
        reveal_strlit("0");
        reveal_strlit("1");
        reveal_strlit("2");
        reveal_strlit("3");
        reveal_strlit("4");
        reveal_strlit("5");
        reveal_strlit("6");
        reveal_strlit("7");
        reveal_strlit("8");
        reveal_strlit("9");
    }
    let r = if d == 0 {
        "0"
    } else if d == 1 {
        "1"
    } else if d == 2 {
        "2"
    } else if d == 3 {
        "3"
    } else if d == 4 {
        "4"
    } else if d == 5 {
        "5"
    } else if d == 6 {
        "6"
    } else if d == 7 {
        "7"
    } else if d == 8 {
        "8"
    } else {
        "9"
    };
    proof {
        assert(r@ =~= seq![dec_digit(d as int)]);
    }
    r
}

/// Renders `n` in decimal.
pub fn u64_to_dec(n: u64) -> (r: String)
    ensures
        r@ == dec_seq(n as nat),
    decreases n,
{
    if n < 10 {
        String::from_str(digit_str(n))
    } else {
        let mut s = u64_to_dec(n / 10);
        s.append(digit_str(n % 10));
        s
    }
}

/// Renders `v` in decimal, with a minus sign for negative values.
pub fn i64_to_dec(v: i64) -> (r: String)
    ensures
        r@ == signed_dec_seq(v as int),
{
    if v >= 0 {
        u64_to_dec(v as u64)
    } else {
        let magnitude: u64 = if v == i64::MIN {
            9223372036854775808u64
        } else {
            (-v) as u64
        };
        assert(magnitude == -(v as int));
        let mut s = String::from_str("-");
        proof {
            reveal_strlit("-");
        }
        s.append(u64_to_dec(magnitude).as_str());
        proof {
            assert(s@ =~= seq!['-'] + dec_seq((-(v as int)) as nat));
        }
        s
    }
}

} // verus!
