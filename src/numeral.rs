//! Decimal numerals: digit strings, their values, and amounts of hours.
use crate::date::{find_char, first_index, lemma_first_index_bounds};
use vstd::prelude::*;

verus! {

pub open spec fn is_digit(c: char) -> bool {
    '0' <= c && c <= '9'
}

pub open spec fn digit_value(c: char) -> int {
    c as int - '0' as int
}

/// At most this many digits stand before the decimal point of an amount of hours.
pub const MAX_WHOLE_DIGITS: usize = 9;

pub open spec fn all_digits(s: Seq<char>) -> bool {
    forall|i: int| 0 <= i < s.len() ==> is_digit(#[trigger] s[i])
}

/// The number a string of decimal digits denotes.
pub open spec fn digits_value(s: Seq<char>) -> int
    decreases s.len(),
{
    if s.len() == 0 {
        0
    } else {
        digits_value(s.drop_last()) * 10 + digit_value(s.last())
    }
}

pub open spec fn pow10(n: nat) -> int
    decreases n,
{
    if n == 0 {
        1
    } else {
        10 * pow10((n - 1) as nat)
    }
}

pub proof fn lemma_digits_value_bound(s: Seq<char>)
    requires
        all_digits(s),
    ensures
        0 <= digits_value(s) < pow10(s.len()),
    decreases s.len(),
{
    if s.len() > 0 {
        let t = s.drop_last();
        assert(all_digits(t)) by {
            assert forall|i: int| 0 <= i < t.len() implies is_digit(#[trigger] t[i]) by {
                assert(t[i] == s[i]);
            }
        }
        lemma_digits_value_bound(t);
        assert(is_digit(s[s.len() - 1]));
        let v = digits_value(t);
        let p = pow10(t.len());
        let d = digit_value(s.last());
        assert(v * 10 + d < p * 10) by (nonlinear_arith)
            requires
                0 <= v < p,
                0 <= d <= 9,
        ;
    }
}

/// The digit a character denotes, or zero where there is no such character.
pub open spec fn digit_at(s: Seq<char>, i: int) -> int {
    if 0 <= i < s.len() {
        digit_value(s[i])
    } else {
        0
    }
}

/// An amount of hours written as a decimal numeral (`8`, `2.5`, `.75`,
/// `1.125`), in hundredths of an hour rounded half up; `None` for anything
/// else, for an empty numeral, and for more than nine whole digits.
pub open spec fn hundredths_of(s: Seq<char>) -> Option<int> {
    let k = first_index(s, '.');
    let whole = s.subrange(0, k);
    let frac = if k < s.len() {
        s.subrange(k + 1, s.len() as int)
    } else {
        Seq::empty()
    };
    if all_digits(whole) && all_digits(frac) && whole.len() + frac.len() > 0 && whole.len()
        <= MAX_WHOLE_DIGITS {
        Some(
            digits_value(whole) * 100 + digit_at(frac, 0) * 10 + digit_at(frac, 1) + if digit_at(
                frac,
                2,
            ) >= 5 {
                1int
            } else {
                0int
            },
        )
    } else {
        None
    }
}

/// Whether every character of `s` from `from` up to `to` is a digit.
fn digits_between(s: &str, from: usize, to: usize) -> (r: bool)
    requires
        from <= to <= s@.len(),
    ensures
        r == all_digits(s@.subrange(from as int, to as int)),
{
    let mut i = from;
    while i < to
        invariant
            from <= i <= to,
            to <= s@.len(),
            all_digits(s@.subrange(from as int, i as int)),
        decreases to - i,
    {
        let c = s.get_char(i);
        if !('0' <= c && c <= '9') {
            assert(s@.subrange(from as int, to as int)[i - from] == c);
            return false;
        }
        assert forall|j: int| 0 <= j < i + 1 - from implies is_digit(
            #[trigger] s@.subrange(from as int, i + 1)[j],
        ) by {
            if j < i - from {
                assert(s@.subrange(from as int, i + 1)[j] == s@.subrange(from as int, i as int)[j]);
            }
        }
        i = i + 1;
    }
    true
}

/// The number the digits of `s` from `from` up to `to` denote; `None` where
/// one of them is no digit.
pub fn read_digits(s: &str, from: usize, to: usize) -> (r: Option<u64>)
    requires
        from <= to <= s@.len(),
        to - from <= MAX_WHOLE_DIGITS,
    ensures
        match r {
            Some(v) => all_digits(s@.subrange(from as int, to as int)) && v == digits_value(
                s@.subrange(from as int, to as int),
            ) && v < 1_000_000_000,
            None => !all_digits(s@.subrange(from as int, to as int)),
        },
{
    if !digits_between(s, from, to) {
        return None;
    }
    let ghost part = s@.subrange(from as int, to as int);
    let len: usize = to - from;
    proof {
        reveal_with_fuel(pow10, 10);
        assert(pow10(9) == 1_000_000_000);
        lemma_pow10_mono(len as nat, 9);
    }
    let mut acc: u64 = 0;
    let mut i: usize = 0;
    while i < len
        invariant
            i <= len,
            len == to - from,
            to <= s@.len(),
            part == s@.subrange(from as int, to as int),
            all_digits(part),
            acc == digits_value(part.subrange(0, i as int)),
            acc < pow10(i as nat),
            pow10(len as nat) <= 1_000_000_000,
        decreases len - i,
    {
        let c = s.get_char(from + i);
        proof {
            assert(part.subrange(0, i + 1).drop_last() == part.subrange(0, i as int));
            assert(part.subrange(0, i + 1).last() == part[i as int]);
            assert(part[i as int] == c);
            assert(is_digit(part[i as int]));
            lemma_pow10_mono((i + 1) as nat, len as nat);
            let d = c as int - '0' as int;
            let a = acc as int;
            let p = pow10(i as nat);
            assert(a * 10 + d < p * 10) by (nonlinear_arith)
                requires
                    0 <= a < p,
                    0 <= d <= 9,
            ;
        }
        acc = acc * 10 + (c as u64 - '0' as u64);
        i = i + 1;
    }
    assert(part.subrange(0, len as int) == part);
    Some(acc)
}

/// Reads an amount of hours, in hundredths, from a decimal numeral.
pub fn parse_hours(s: &str) -> (r: Option<u64>)
    ensures
        match r {
            Some(v) => hundredths_of(s@) == Some(v as int),
            None => hundredths_of(s@) is None,
        },
{
    let n = s.unicode_len();
    let k = find_char(s, '.');
    proof {
        lemma_first_index_bounds(s@, '.');
    }
    let frac_start: usize = if k < n {
        k + 1
    } else {
        n
    };
    let frac_ok = digits_between(s, frac_start, n);
    let ghost frac = if k < n {
        s@.subrange(k + 1, n as int)
    } else {
        Seq::empty()
    };
    assert(s@.subrange(frac_start as int, n as int) =~= frac);
    if !frac_ok || k + (n - frac_start) == 0 || k > MAX_WHOLE_DIGITS {
        return None;
    }
    let acc = match read_digits(s, 0, k) {
        Some(v) => v,
        None => {
            return None;
        },
    };
    let fl = n - frac_start;
    let d1: u64 = if fl > 0 {
        s.get_char(frac_start) as u64 - '0' as u64
    } else {
        0
    };
    let d2: u64 = if fl > 1 {
        s.get_char(frac_start + 1) as u64 - '0' as u64
    } else {
        0
    };
    let up: u64 = if fl > 2 && s.get_char(frac_start + 2) >= '5' {
        1
    } else {
        0
    };
    proof {
        if fl > 0 {
            assert(frac[0] == s@[frac_start as int]);
            assert(is_digit(frac[0]));
        }
        if fl > 1 {
            assert(frac[1] == s@[frac_start + 1]);
            assert(is_digit(frac[1]));
        }
        if fl > 2 {
            assert(frac[2] == s@[frac_start + 2]);
            assert(is_digit(frac[2]));
        }
    }
    Some(acc * 100 + d1 * 10 + d2 + up)
}

pub proof fn lemma_pow10_mono(a: nat, b: nat)
    requires
        a <= b,
    ensures
        1 <= pow10(a) <= pow10(b),
    decreases b,
{
    lemma_pow10_pos(a);
    if a < b {
        lemma_pow10_mono(a, (b - 1) as nat);
    }
}

pub proof fn lemma_pow10_pos(a: nat)
    ensures
        pow10(a) >= 1,
    decreases a,
{
    if a > 0 {
        lemma_pow10_pos((a - 1) as nat);
    }
}

/// A numeral holding a character that is neither a digit nor the decimal
/// point is no amount of hours.
pub proof fn lemma_non_numeral_rejected(s: Seq<char>, i: int)
    requires
        0 <= i < s.len(),
        !is_digit(s[i]),
        s[i] != '.',
    ensures
        hundredths_of(s) is None,
{
    lemma_first_index_bounds(s, '.');
    let k = first_index(s, '.');
    if i < k {
        assert(s.subrange(0, k)[i] == s[i]);
    } else {
        assert(i != k);
        assert(s.subrange(k + 1, s.len() as int)[i - k - 1] == s[i]);
    }
}

} // verus!
