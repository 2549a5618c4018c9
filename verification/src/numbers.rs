//! Unsigned integers read from text the way `str::parse` and
//! `from_str_radix` read them: an optional `+`, then at least one digit of the
//! radix, with a value that fits.

use vstd::prelude::*;

use crate::text::chars_of;

verus! {

/// The value of a digit in the given radix (up to 36), letters in either case.
pub open spec fn digit_value(c: char, radix: nat) -> Option<nat> {
    let v = c as u32;
    let d: int = if 48 <= v <= 57 {
        v - 48
    } else if 97 <= v <= 122 {
        v - 87
    } else if 65 <= v <= 90 {
        v - 55
    } else {
        radix as int
    };
    if 0 <= d < radix {
        Some(d as nat)
    } else {
        None
    }
}

pub open spec fn all_digits_of(s: Seq<char>, radix: nat) -> bool {
    forall|i: int| 0 <= i < s.len() ==> (#[trigger] digit_value(s[i], radix)) is Some
}

/// The value of a run of digits in the given radix.
pub open spec fn digits_value_in(s: Seq<char>, radix: nat) -> nat
    decreases s.len(),
{
    if s.len() == 0 {
        0
    } else {
        digits_value_in(s.drop_last(), radix) * radix + match digit_value(s.last(), radix) {
            Some(d) => d,
            None => 0,
        }
    }
}

/// The digits of an unsigned number: the text after an optional leading `+`.
pub open spec fn unsigned_digits(s: Seq<char>) -> Seq<char> {
    if s.len() > 0 && s[0] == '+' {
        s.drop_first()
    } else {
        s
    }
}

/// What `from_str_radix` accepts for an unsigned type whose largest value is
/// `max`: an optional `+` and at least one digit, with a value no larger than
/// `max`.
pub open spec fn radix_value(s: Seq<char>, radix: nat, max: nat) -> Option<nat> {
    let digits = unsigned_digits(s);
    if digits.len() == 0 || !all_digits_of(digits, radix) || digits_value_in(digits, radix) > max {
        None
    } else {
        Some(digits_value_in(digits, radix))
    }
}

/// What `str::parse` accepts for an unsigned type whose largest value is `max`.
pub open spec fn unsigned_value(s: Seq<char>, max: nat) -> Option<nat> {
    radix_value(s, 10, max)
}

proof fn lemma_digits_value_grows(s: Seq<char>, radix: nat, i: int)
    requires
        0 <= i <= s.len(),
        radix >= 2,
    ensures
        digits_value_in(s.take(i), radix) <= digits_value_in(s, radix),
    decreases s.len() - i,
{
    if i < s.len() {
        lemma_digits_value_grows(s, radix, i + 1);
        let t = s.take(i + 1);
        assert(t.drop_last() =~= s.take(i));
        let a = digits_value_in(s.take(i), radix);
        assert(a <= a * radix) by (nonlinear_arith)
            requires
                radix >= 2,
        ;
    } else {
        assert(s.take(i) =~= s);
    }
}

fn digit_of(c: char, radix: u32) -> (r: Option<u64>)
    requires
        2 <= radix <= 36,
    ensures
        match r {
            Some(d) => digit_value(c, radix as nat) == Some(d as nat),
            None => digit_value(c, radix as nat) is None,
        },
{
    let v = c as u32;
    let d: u32 = if 48 <= v && v <= 57 {
        v - 48
    } else if 97 <= v && v <= 122 {
        v - 87
    } else if 65 <= v && v <= 90 {
        v - 55
    } else {
        radix
    };
    if d < radix {
        Some(d as u64)
    } else {
        None
    }
}

/// Parses the characters as an unsigned number in `radix`, no larger than `max`.
pub fn parse_digits(cs: &[char], radix: u32, max: u64) -> (r: Option<u64>)
    requires
        2 <= radix <= 36,
    ensures
        match r {
            Some(v) => radix_value(cs@, radix as nat, max as nat) == Some(v as nat),
            None => radix_value(cs@, radix as nat, max as nat) is None,
        },
{
    let start: usize = if cs.len() > 0 && cs[0] == '+' { 1 } else { 0 };
    let ghost digits = unsigned_digits(cs@);
    assert(digits =~= cs@.skip(start as int));
    if start >= cs.len() {
        return None;
    }
    let mut value: u128 = 0;
    let mut i: usize = start;
    while i < cs.len()
        invariant
            2 <= radix <= 36,
            start <= i <= cs@.len(),
            digits == cs@.skip(start as int),
            digits == unsigned_digits(cs@),
            all_digits_of(digits.take(i - start), radix as nat),
            value == digits_value_in(digits.take(i - start), radix as nat),
            value <= max,
        decreases cs@.len() - i,
    {
        let c = cs[i];
        let d = match digit_of(c, radix) {
            Some(d) => d,
            None => {
                proof {
                    assert(digits[i - start] == c);
                }
                return None;
            },
        };
        assert(value * (radix as u128) <= 0xffff_ffff_ffff_ffffu128 * 36) by (nonlinear_arith)
            requires
                value <= 0xffff_ffff_ffff_ffffu128,
                radix <= 36,
        ;
        value = value * (radix as u128) + (d as u128);
        proof {
            let taken = digits.take(i - start + 1);
            assert(taken.drop_last() =~= digits.take(i - start));
            assert(taken.last() == c);
            assert(value == digits_value_in(taken, radix as nat));
            assert forall|j: int| 0 <= j < taken.len() implies (#[trigger] digit_value(
                taken[j],
                radix as nat,
            )) is Some by {
                if j < taken.len() - 1 {
                    assert(taken[j] == digits.take(i - start)[j]);
                }
            }
        }
        i += 1;
        if value > max as u128 {
            proof {
                lemma_digits_value_grows(digits, radix as nat, i - start);
            }
            return None;
        }
    }
    assert(digits.take(i - start) =~= digits);
    Some(value as u64)
}

/// Parses a decimal unsigned number no larger than `max`, as `str::parse`
/// does for the unsigned integer types.
pub fn parse_unsigned(s: &str, max: u64) -> (r: Option<u64>)
    ensures
        match r {
            Some(v) => unsigned_value(s@, max as nat) == Some(v as nat),
            None => unsigned_value(s@, max as nat) is None,
        },
{
    let cs = chars_of(s);
    parse_digits(cs.as_slice(), 10, max)
}

} // verus!
