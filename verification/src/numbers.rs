//! Decimal numbers on the wire: parsing a digit string into an integer
//! and printing an integer back, both exact.

use vstd::prelude::*;

verus! {

/// The numeric value of a decimal digit character; `None` for any other
/// character.
pub open spec fn spec_digit(c: char) -> Option<int> {
    match c {
        '0' => Some(0),
        '1' => Some(1),
        '2' => Some(2),
        '3' => Some(3),
        '4' => Some(4),
        '5' => Some(5),
        '6' => Some(6),
        '7' => Some(7),
        '8' => Some(8),
        '9' => Some(9),
        _ => None,
    }
}

/// The digit's value, with non-digits counting as zero; only meaningful
/// where `spec_all_digits` holds.
pub open spec fn spec_digit_or0(c: char) -> int {
    match spec_digit(c) {
        Some(d) => d,
        None => 0,
    }
}

/// Every character of the sequence is a decimal digit.
pub open spec fn spec_all_digits(s: Seq<char>) -> bool {
    forall|i: int| 0 <= i < s.len() ==> spec_digit(s[i]) is Some
}

/// The integer a digit sequence denotes, read most significant first.
pub open spec fn spec_dec_value(s: Seq<char>) -> int
    decreases s.len(),
{
    if s.len() == 0 {
        0
    } else {
        spec_dec_value(s.drop_last()) * 10 + spec_digit_or0(s.last())
    }
}

/// The digit character for a value below ten.
pub open spec fn spec_char_of_digit(d: int) -> char {
    if d == 0 {
        '0'
    } else if d == 1 {
        '1'
    } else if d == 2 {
        '2'
    } else if d == 3 {
        '3'
    } else if d == 4 {
        '4'
    } else if d == 5 {
        '5'
    } else if d == 6 {
        '6'
    } else if d == 7 {
        '7'
    } else if d == 8 {
        '8'
    } else {
        '9'
    }
}

/// The shortest decimal rendering of a number: no sign, no leading zero
/// except for zero itself.
pub open spec fn spec_dec_string(n: nat) -> Seq<char>
    decreases n,
{
    if n < 10 {
        seq![spec_char_of_digit(n as int)]
    } else {
        spec_dec_string(n / 10) + seq![spec_char_of_digit((n % 10) as int)]
    }
}

/// A digit sequence denotes a non-negative integer.
pub proof fn lemma_dec_value_nonneg(s: Seq<char>)
    ensures
        spec_dec_value(s) >= 0,
    decreases s.len(),
{
    if s.len() > 0 {
        lemma_dec_value_nonneg(s.drop_last());
    }
}

/// Extending a digit sequence never lowers its value.
pub proof fn lemma_dec_value_prefix_le(s: Seq<char>, i: int)
    requires
        0 <= i <= s.len(),
    ensures
        spec_dec_value(s.take(i)) <= spec_dec_value(s),
    decreases s.len() - i,
{
    if i < s.len() {
        lemma_dec_value_prefix_le(s, i + 1);
        assert(s.take(i + 1).drop_last() =~= s.take(i));
        lemma_dec_value_nonneg(s.take(i));
    } else {
        assert(s.take(i) =~= s);
    }
}

/// The numeric value of one character, or `None` for a non-digit.
fn digit_of(c: char) -> (r: Option<u64>)
    ensures
        match r {
            Some(d) => spec_digit(c) == Some(d as int),
            None => spec_digit(c) is None,
        },
{
    match c {
        '0' => Some(0),
        '1' => Some(1),
        '2' => Some(2),
        '3' => Some(3),
        '4' => Some(4),
        '5' => Some(5),
        '6' => Some(6),
        '7' => Some(7),
        '8' => Some(8),
        '9' => Some(9),
        _ => None,
    }
}

/// Parses a non-empty all-digit string as an unsigned number; `None` on
/// an empty string, a non-digit character, or a value that does not fit.
pub fn parse_u64(s: &str) -> (r: Option<u64>)
    ensures
        r is Some <==> s@.len() > 0 && spec_all_digits(s@) && spec_dec_value(s@) <= u64::MAX,
        r matches Some(v) ==> v as int == spec_dec_value(s@),
{
    let n = s.unicode_len();
    if n == 0 {
        return None;
    }
    let mut acc: u64 = 0;
    let mut i: usize = 0;
    while i < n
        invariant
            0 < n == s@.len(),
            i <= n,
            spec_all_digits(s@.take(i as int)),
            acc as int == spec_dec_value(s@.take(i as int)),
        decreases n - i,
    {
        let c = s.get_char(i);
        proof {
            assert(s@.take(i + 1).drop_last() =~= s@.take(i as int));
            assert(s@.take(i + 1).last() == s@[i as int]);
        }
        match digit_of(c) {
            None => {
                proof {
                    assert(spec_digit(s@[i as int]) is None);
                }
                return None;
            },
            Some(d) => {
                match acc.checked_mul(10) {
                    None => {
                        proof {
                            lemma_dec_value_nonneg(s@.take(i as int));
                            lemma_dec_value_prefix_le(s@, i + 1);
                        }
                        return None;
                    },
                    Some(x) => {
                        match x.checked_add(d) {
                            None => {
                                proof {
                                    lemma_dec_value_prefix_le(s@, i + 1);
                                }
                                return None;
                            },
                            Some(y) => {
                                acc = y;
                            },
                        }
                    },
                }
            },
        }
        i += 1;
    }
    proof {
        assert(s@.take(n as int) =~= s@);
    }
    Some(acc)
}

/// The digit character for a value below ten.
fn char_of_digit(d: u64) -> (r: char)
    requires
        d < 10,
    ensures
        r == spec_char_of_digit(d as int),
{
    match d {
        0 => '0',
        1 => '1',
        2 => '2',
        3 => '3',
        4 => '4',
        5 => '5',
        6 => '6',
        7 => '7',
        8 => '8',
        _ => '9',
    }
}

/// Appends the decimal rendering of `n` to `s`.
fn push_u64_decimal(s: &mut String, n: u64)
    ensures
        final(s)@ == old(s)@ + spec_dec_string(n as nat),
    decreases n,
{
    if n < 10 {
        s.push(char_of_digit(n));
        proof {
            assert(old(s)@.push(spec_char_of_digit(n as int)) =~= old(s)@ + spec_dec_string(
                n as nat,
            ));
        }
    } else {
        push_u64_decimal(s, n / 10);
        s.push(char_of_digit(n % 10));
        proof {
            assert((old(s)@ + spec_dec_string((n / 10) as nat)).push(
                spec_char_of_digit((n % 10) as int),
            ) =~= old(s)@ + spec_dec_string(n as nat));
        }
    }
}

/// The decimal rendering of a number, as sent on the wire.
pub fn u64_to_string(n: u64) -> (r: String)
    ensures
        r@ == spec_dec_string(n as nat),
{
    let mut s = String::new();
    push_u64_decimal(&mut s, n);
    proof {
        assert(Seq::<char>::empty() + spec_dec_string(n as nat) =~= spec_dec_string(n as nat));
    }
    s
}

} // verus!
