//! Configuration parsing: the timing-unit directive (`unit` or
//! `unit/unit`, where a unit is an integer, an optional magnitude
//! prefix and the time-unit letter) and the delay pair
//! (`first[:second]`, the second defaulting to zero).

use vstd::prelude::*;
use vstd::string::StrSliceExecFns;

use crate::model::EmitError;
use crate::numfmt::{all_digits, dec_value, digit_value, is_digit};

verus! {

/// The index of the first occurrence of `c` in `s`, or `s.len()` when
/// there is none.
pub open spec fn first_index_of(s: Seq<char>, c: char) -> int
    decreases s.len(),
{
    if s.len() == 0 {
        0
    } else if s[0] == c {
        0
    } else {
        1 + first_index_of(s.drop_first(), c)
    }
}

proof fn lemma_first_index_witness(s: Seq<char>, c: char, i: int)
    requires
        0 <= i <= s.len(),
        forall|j: int| 0 <= j < i ==> s[j] != c,
        i < s.len() ==> s[i] == c,
    ensures
        first_index_of(s, c) == i,
    decreases s.len(),
{
    if s.len() == 0 {
    } else if s[0] == c {
        assert(i == 0);
    } else {
        assert(i >= 1);
        let d = s.drop_first();
        assert(forall|j: int| 0 <= j < i - 1 ==> #[trigger] d[j] == s[j + 1]);
        lemma_first_index_witness(d, c, i - 1);
    }
}

/// The decoded value of a digit run that fits a `u32`, if `s` is one.
pub open spec fn spec_parse_u32(s: Seq<char>) -> Option<u32> {
    if all_digits(s) && dec_value(s) <= u32::MAX {
        Some(dec_value(s) as u32)
    } else {
        None
    }
}

proof fn lemma_dec_value_nonneg(s: Seq<char>)
    requires
        forall|i: int| 0 <= i < s.len() ==> is_digit(#[trigger] s[i]),
    ensures
        dec_value(s) >= 0,
    decreases s.len(),
{
    if s.len() > 0 {
        lemma_dec_value_nonneg(s.drop_last());
    }
}

proof fn lemma_dec_value_prefix_le(s: Seq<char>, k: int)
    requires
        0 <= k <= s.len(),
        forall|i: int| 0 <= i < s.len() ==> is_digit(#[trigger] s[i]),
    ensures
        dec_value(s.take(k)) <= dec_value(s),
    decreases s.len() - k,
{
    if k == s.len() {
        assert(s.take(k) =~= s);
    } else {
        let t1 = s.take(k + 1);
        assert(t1.drop_last() =~= s.take(k));
        assert(t1.last() == s[k]);
        lemma_dec_value_nonneg(s.take(k));
        assert(dec_value(s.take(k)) <= dec_value(t1));
        lemma_dec_value_prefix_le(s, k + 1);
    }
}

fn char_digit(c: char) -> (r: Option<u32>)
    ensures
        match r {
            Some(d) => is_digit(c) && d == digit_value(c),
            None => !is_digit(c),
        },
{
    let u = c as u32;
    if '0' as u32 <= u && u <= '9' as u32 {
        let d = u - '0' as u32;
        proof {
            if c == '0' {
            } else if c == '1' {
            } else if c == '2' {
            } else if c == '3' {
            } else if c == '4' {
            } else if c == '5' {
            } else if c == '6' {
            } else if c == '7' {
            } else if c == '8' {
            } else {
                assert(c == '9') by {
                    assert(c as u32 == '9' as u32);
                };
            }
        }
        Some(d)
    } else {
        None
    }
}

/// Parses a digit run as a `u32`, rejecting any other character and
/// any value out of range.
fn parse_u32(s: &str) -> (r: Option<u32>)
    ensures
        r == spec_parse_u32(s@),
{
    let len = s.unicode_len();
    if len == 0 {
        return None;
    }
    let mut acc: u64 = 0;
    let mut i: usize = 0;
    while i < len
        invariant
            0 <= i <= len,
            len == s@.len(),
            forall|j: int| 0 <= j < i ==> is_digit(#[trigger] s@[j]),
            acc == dec_value(s@.take(i as int)),
            acc <= u32::MAX,
        decreases len - i,
    {
        let c = s.get_char(i);
        match char_digit(c) {
            None => {
                assert(!all_digits(s@));
                return None;
            },
            Some(d) => {
                let next: u64 = acc * 10 + d as u64;
                proof {
                    let t1 = s@.take(i as int + 1);
                    assert(t1.drop_last() =~= s@.take(i as int));
                    assert(t1.last() == s@[i as int]);
                    assert(dec_value(t1) == acc * 10 + d);
                }
                if next > u32::MAX as u64 {
                    proof {
                        if all_digits(s@) {
                            lemma_dec_value_prefix_le(s@, i as int + 1);
                        }
                    }
                    return None;
                }
                acc = next;
            },
        }
        i = i + 1;
    }
    proof {
        assert(s@.take(len as int) =~= s@);
    }
    Some(acc as u32)
}

/// The delay pair `s` denotes: a single number means a zero second
/// delay; a colon separates the two numbers; anything else is
/// malformed.
pub open spec fn spec_parse_delay(s: Seq<char>) -> Option<(u32, u32)> {
    let i = first_index_of(s, ':');
    if i == s.len() {
        match spec_parse_u32(s) {
            Some(v) => Some((v, 0u32)),
            None => None,
        }
    } else {
        match (spec_parse_u32(s.take(i)), spec_parse_u32(s.subrange(i + 1, s.len() as int))) {
            (Some(a), Some(b)) => Some((a, b)),
            _ => None,
        }
    }
}

/// Finds the first occurrence of `c`, or the length when none occurs.
fn find_first(s: &str, c: char) -> (r: usize)
    ensures
        r == first_index_of(s@, c),
        r <= s@.len(),
{
    let len = s.unicode_len();
    let mut i: usize = 0;
    while i < len
        invariant
            0 <= i <= len,
            len == s@.len(),
            forall|j: int| 0 <= j < i ==> s@[j] != c,
        decreases len - i,
    {
        if s.get_char(i) == c {
            proof {
                lemma_first_index_witness(s@, c, i as int);
            }
            return i;
        }
        i = i + 1;
    }
    proof {
        lemma_first_index_witness(s@, c, len as int);
    }
    len
}

/// Parses a delay specification `first[:second]`. Succeeds exactly on
/// a digit run fitting a `u32`, optionally followed by a colon and a
/// second such run; the second delay defaults to zero.
pub fn parse_delay(s: &str) -> (r: Result<(u32, u32), EmitError>)
    ensures
        match r {
            Ok(d) => spec_parse_delay(s@) == Some(d),
            Err(e) => spec_parse_delay(s@) is None && e == EmitError::InvalidDelay,
        },
{
    let len = s.unicode_len();
    let i = find_first(s, ':');
    if i == len {
        match parse_u32(s) {
            Some(v) => Ok((v, 0)),
            None => Err(EmitError::InvalidDelay),
        }
    } else {
        let first = s.substring_char(0, i);
        let second = s.substring_char(i + 1, len);
        proof {
            assert(first@ =~= s@.take(i as int));
            assert(second@ =~= s@.subrange(i as int + 1, s@.len() as int));
        }
        match (parse_u32(first), parse_u32(second)) {
            (Some(a), Some(b)) => Ok((a, b)),
            _ => Err(EmitError::InvalidDelay),
        }
    }
}

/// A magnitude prefix letter of a time unit.
pub open spec fn is_magnitude_prefix(c: char) -> bool {
    c == 'm' || c == 'u' || c == 'n' || c == 'p' || c == 'f'
}

/// A time unit: an integer, an optional magnitude prefix, and the
/// letter `s`.
pub open spec fn is_time_unit(s: Seq<char>) -> bool {
    &&& s.len() >= 2
    &&& s.last() == 's'
    &&& {
        let body = s.drop_last();
        all_digits(body) || (body.len() >= 2 && is_magnitude_prefix(body.last()) && all_digits(
            body.drop_last(),
        ))
    }
}

fn char_is_magnitude_prefix(c: char) -> (b: bool)
    ensures
        b == is_magnitude_prefix(c),
{
    c == 'm' || c == 'u' || c == 'n' || c == 'p' || c == 'f'
}

fn str_all_digits(s: &str, from: usize, to: usize) -> (b: bool)
    requires
        from <= to <= s@.len(),
    ensures
        b == all_digits(s@.subrange(from as int, to as int)),
{
    if from == to {
        proof {
            assert(s@.subrange(from as int, to as int).len() == 0);
        }
        return false;
    }
    let mut i: usize = from;
    while i < to
        invariant
            from <= i <= to <= s@.len(),
            forall|j: int| from <= j < i ==> is_digit(#[trigger] s@[j]),
        decreases to - i,
    {
        match char_digit(s.get_char(i)) {
            None => {
                proof {
                    let sub = s@.subrange(from as int, to as int);
                    assert(sub[i - from] == s@[i as int]);
                }
                return false;
            },
            Some(_) => (),
        }
        i = i + 1;
    }
    proof {
        let sub = s@.subrange(from as int, to as int);
        assert(forall|j: int| 0 <= j < sub.len() ==> #[trigger] sub[j] == s@[j + from]);
    }
    true
}

/// Whether `s` is a time unit.
fn str_is_time_unit(s: &str) -> (b: bool)
    ensures
        b == is_time_unit(s@),
{
    let len = s.unicode_len();
    if len < 2 {
        return false;
    }
    if s.get_char(len - 1) != 's' {
        return false;
    }
    proof {
        assert(s@.drop_last() =~= s@.subrange(0, len as int - 1));
        assert(s@.drop_last().drop_last() =~= s@.subrange(0, len as int - 2));
    }
    if str_all_digits(s, 0, len - 1) {
        return true;
    }
    if len >= 3 && char_is_magnitude_prefix(s.get_char(len - 2)) && str_all_digits(s, 0, len - 2) {
        proof {
            assert(s@.drop_last().last() == s@[len as int - 2]);
        }
        return true;
    }
    proof {
        if len >= 3 {
            assert(s@.drop_last().last() == s@[len as int - 2]);
        }
    }
    false
}

/// The normalized timescale `s` denotes: a single unit is doubled to
/// `unit/unit`, a full `unit/unit` pair stays as it is, and anything
/// else is malformed.
pub open spec fn spec_parse_timescale(s: Seq<char>) -> Option<Seq<char>> {
    let i = first_index_of(s, '/');
    if i == s.len() {
        if is_time_unit(s) {
            Some(s + seq!['/'] + s)
        } else {
            None
        }
    } else {
        if is_time_unit(s.take(i)) && is_time_unit(s.subrange(i + 1, s.len() as int)) {
            Some(s)
        } else {
            None
        }
    }
}

/// Parses and normalizes a timescale specification: `unit` becomes
/// `unit/unit`, `unit/unit` stays unchanged, and anything else is a
/// configuration error.
pub fn parse_timescale(s: &str) -> (r: Result<String, EmitError>)
    ensures
        match r {
            Ok(t) => spec_parse_timescale(s@) == Some(t@),
            Err(e) => spec_parse_timescale(s@) is None && e == EmitError::InvalidTimescale,
        },
{
    let len = s.unicode_len();
    let i = find_first(s, '/');
    if i == len {
        if str_is_time_unit(s) {
            let mut out = String::from_str(s);
            out.append("/");
            out.append(s);
            proof {
                reveal_strlit("/");
                assert(out@ =~= s@ + seq!['/'] + s@);
            }
            Ok(out)
        } else {
            Err(EmitError::InvalidTimescale)
        }
    } else {
        let first = s.substring_char(0, i);
        let second = s.substring_char(i + 1, len);
        proof {
            assert(first@ =~= s@.take(i as int));
            assert(second@ =~= s@.subrange(i as int + 1, s@.len() as int));
        }
        if str_is_time_unit(first) && str_is_time_unit(second) {
            Ok(String::from_str(s))
        } else {
            Err(EmitError::InvalidTimescale)
        }
    }
}

} // verus!
