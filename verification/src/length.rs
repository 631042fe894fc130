//! Lengths in user space, as whole numbers of units.
//!
//! A coordinate is a signed number of units, `UNITS_PER_USER_UNIT` of them to
//! one user unit. The shaping backend measures text in such units, and the
//! position attributes of text elements are read into them.

use vstd::prelude::*;
use crate::error::{ValueErrorKind, ValueErrorText};
use crate::strings::{chars_of, find_char, index_of_char, trim, trimmed};

verus! {

/// How many units make one user unit.
pub const UNITS_PER_USER_UNIT: i64 = 1024;

/// The most digits that a number can have before its decimal point.
pub const MAX_WHOLE_DIGITS: usize = 12;

/// The most digits behind the decimal point that count; those behind them
/// are passed over.
pub const MAX_FRACTION_DIGITS: usize = 9;

/// Whether `c` is a decimal digit.
pub open spec fn is_digit(c: char) -> bool {
    '0' <= c <= '9'
}

/// Whether `s` holds decimal digits only.
pub open spec fn all_digits(s: Seq<char>) -> bool {
    forall|i: int| 0 <= i < s.len() ==> is_digit(#[trigger] s[i])
}

/// The number that the decimal digits `s` write.
pub open spec fn digits_value(s: Seq<char>) -> int
    decreases s.len(),
{
    if s.len() == 0 {
        0
    } else {
        digits_value(s.drop_last()) * 10 + (s.last() as int - '0' as int)
    }
}

/// Ten to the power of `n`.
pub open spec fn pow10(n: nat) -> int
    decreases n,
{
    if n == 0 {
        1
    } else {
        10 * pow10((n - 1) as nat)
    }
}

/// The digits behind the decimal point that count.
pub open spec fn counted_fraction(frac: Seq<char>) -> Seq<char> {
    if frac.len() > MAX_FRACTION_DIGITS {
        frac.take(MAX_FRACTION_DIGITS as int)
    } else {
        frac
    }
}

/// The number of units that an unsigned decimal number stands for, rounded
/// down: digits, which a decimal point and more digits may follow; or a
/// decimal point and digits.
pub open spec fn parsed_magnitude(body: Seq<char>) -> Option<int> {
    let dot = find_char(body, '.', 0);
    let whole = body.take(dot);
    let frac = if dot < body.len() {
        body.skip(dot + 1)
    } else {
        Seq::<char>::empty()
    };
    let counted = counted_fraction(frac);
    if all_digits(whole) && all_digits(frac) && whole.len() <= MAX_WHOLE_DIGITS && (whole.len() > 0
        || frac.len() > 0) && (dot < body.len() ==> frac.len() > 0) {
        Some(
            digits_value(whole) * UNITS_PER_USER_UNIT + digits_value(counted) * UNITS_PER_USER_UNIT
                / pow10(counted.len()),
        )
    } else {
        None
    }
}

/// The number of units that the text of a length stands for: a decimal
/// number in user units, with a sign or without, and with white space around
/// it or without.
pub open spec fn parsed_length(s: Seq<char>) -> Option<int> {
    let t = trim(s);
    if t.len() > 0 && t[0] == '-' {
        match parsed_magnitude(t.skip(1)) {
            Some(m) => Some(-m),
            None => None,
        }
    } else if t.len() > 0 && t[0] == '+' {
        parsed_magnitude(t.skip(1))
    } else {
        parsed_magnitude(t)
    }
}

/// The message of the error for a text that is no length.
pub open spec fn invalid_length_message() -> Seq<char> {
    "expected a number"@
}

/// The number that `n` digits write is less than ten to the power of `n`.
pub proof fn lemma_digits_value_bounds(s: Seq<char>)
    requires
        all_digits(s),
    ensures
        0 <= digits_value(s) < pow10(s.len()),
    decreases s.len(),
{
    if s.len() > 0 {
        assert(is_digit(s[s.len() - 1]));
        assert forall|i: int| 0 <= i < s.drop_last().len() implies is_digit(
            #[trigger] s.drop_last()[i],
        ) by {
            assert(s.drop_last()[i] == s[i]);
        }
        lemma_digits_value_bounds(s.drop_last());
    }
}

/// The powers of ten are positive and grow with the exponent.
pub proof fn lemma_pow10_monotonic(a: nat, b: nat)
    requires
        a <= b,
    ensures
        0 < pow10(a) <= pow10(b),
    decreases b,
{
    if b > 0 {
        if a < b {
            lemma_pow10_monotonic(a, (b - 1) as nat);
        } else {
            lemma_pow10_monotonic((a - 1) as nat, (b - 1) as nat);
        }
    }
}

/// Reads the decimal digits `v[from..to]`, at most `limit` of them.
fn read_digits(v: &Vec<char>, from: usize, to: usize, limit: usize) -> (r: Option<(i64, i64)>)
    requires
        from <= to <= v.len(),
        limit <= 12,
    ensures
        match r {
            Some((value, power)) => all_digits(v@.subrange(from as int, to as int)) && to - from
                <= limit && value == digits_value(v@.subrange(from as int, to as int)) && power
                == pow10((to - from) as nat) && 0 <= value < power <= pow10(limit as nat),
            None => !all_digits(v@.subrange(from as int, to as int)) || to - from > limit,
        },
{
    let ghost s = v@.subrange(from as int, to as int);
    if to - from > limit {
        return None;
    }
    let mut value: i64 = 0;
    let mut power: i64 = 1;
    let mut i: usize = from;
    proof {
        assert(s.take(0) =~= Seq::<char>::empty());
        lemma_pow10_monotonic(12, 12);
        reveal_with_fuel(pow10, 13);
        assert(pow10(12) == 1_000_000_000_000);
    }
    while i < to
        invariant
            from <= i <= to <= v.len(),
            to - from <= limit <= 12,
            s == v@.subrange(from as int, to as int),
            all_digits(s.take(i - from)),
            value == digits_value(s.take(i - from)),
            power == pow10((i - from) as nat),
            0 <= value < power,
            pow10(12) == 1_000_000_000_000,
        decreases to - i,
    {
        let c = v[i];
        if !('0' <= c && c <= '9') {
            assert(s[i - from] == c);
            return None;
        }
        proof {
            let next = s.take(i - from + 1);
            assert(next.drop_last() == s.take(i - from));
            assert(next.last() == c);
            assert forall|k: int| 0 <= k < next.len() implies is_digit(#[trigger] next[k]) by {
                if k < i - from {
                    assert(s.take(i - from)[k] == next[k]);
                }
            }
            lemma_pow10_monotonic((i - from + 1) as nat, 12);
            lemma_digits_value_bounds(next);
        }
        value = value * 10 + (c as i64 - '0' as i64);
        power = power * 10;
        i = i + 1;
    }
    proof {
        assert(s.take(to - from) == s);
        lemma_pow10_monotonic((to - from) as nat, limit as nat);
    }
    Some((value, power))
}

/// Reads an unsigned decimal number `v[from..]` into units.
#[verifier::loop_isolation(false)]
fn parse_magnitude(v: &Vec<char>, from: usize) -> (r: Option<i64>)
    requires
        from <= v.len(),
    ensures
        match r {
            Some(m) => parsed_magnitude(v@.skip(from as int)) == Some(m as int) && 0 <= m
                <= 1_024_000_000_000_000,
            None => parsed_magnitude(v@.skip(from as int)) is None,
        },
{
    let ghost body = v@.skip(from as int);
    let dot = index_of_char(v, '.', from);
    proof {
        lemma_find_char_skip(v@, '.', from as int, from as int);
        reveal_with_fuel(pow10, 13);
        assert(pow10(12) == 1_000_000_000_000);
        assert(pow10(9) == 1_000_000_000);
    }
    assert(find_char(body, '.', 0) == dot - from);
    let ghost whole = body.take(dot - from);
    assert(whole == v@.subrange(from as int, dot as int));
    let frac_from: usize = if dot < v.len() {
        dot + 1
    } else {
        v.len()
    };
    let ghost frac = v@.subrange(frac_from as int, v.len() as int);
    proof {
        if dot < v.len() {
            assert(frac == body.skip(dot - from + 1));
        } else {
            assert(frac =~= Seq::<char>::empty());
        }
    }
    let frac_len: usize = v.len() - frac_from;
    if (dot - from == 0 && frac_len == 0) || (dot < v.len() && frac_len == 0) {
        return None;
    }
    let w = match read_digits(v, from, dot, MAX_WHOLE_DIGITS) {
        Some(w) => w,
        None => {
            return None;
        },
    };
    // The digits that do not count still have to be digits.
    let counted_to: usize = if frac_len > MAX_FRACTION_DIGITS {
        frac_from + MAX_FRACTION_DIGITS
    } else {
        v.len()
    };
    let mut k: usize = counted_to;
    while k < v.len()
        invariant
            frac_from <= counted_to <= k <= v.len(),
            forall|j: int| counted_to <= j < k ==> is_digit(#[trigger] v@[j]),
        decreases v.len() - k,
    {
        let c = v[k];
        if !('0' <= c && c <= '9') {
            assert(frac[k - frac_from] == c);
            return None;
        }
        k = k + 1;
    }
    let ghost counted = v@.subrange(frac_from as int, counted_to as int);
    assert(counted == counted_fraction(frac));
    let f = match read_digits(v, frac_from, counted_to, MAX_FRACTION_DIGITS) {
        Some(f) => f,
        None => {
            assert(!all_digits(frac)) by {
                if all_digits(frac) {
                    assert forall|j: int| 0 <= j < counted.len() implies is_digit(
                        #[trigger] counted[j],
                    ) by {
                        assert(counted[j] == frac[j]);
                    }
                }
            }
            return None;
        },
    };
    assert(all_digits(frac)) by {
        assert forall|j: int| 0 <= j < frac.len() implies is_digit(#[trigger] frac[j]) by {
            if j < counted.len() {
                assert(frac[j] == counted[j]);
            } else {
                assert(frac[j] == v@[frac_from + j]);
            }
        }
    }
    let whole_units: i64 = w.0 * UNITS_PER_USER_UNIT;
    let part: i64 = f.0 * UNITS_PER_USER_UNIT / f.1;
    assert(0 <= part <= 1024) by (nonlinear_arith)
        requires
            0 <= f.0 < f.1,
            part == f.0 * 1024 / (f.1 as int),
    ;
    Some(whole_units + part)
}

/// The first `sep` of `s` at or after `i` is where it is in what follows
/// `from`, moved by `from`.
pub proof fn lemma_find_char_skip(s: Seq<char>, sep: char, from: int, i: int)
    requires
        0 <= from <= i <= s.len(),
    ensures
        find_char(s.skip(from), sep, i - from) == find_char(s, sep, i) - from,
    decreases s.len() - i,
{
    if i < s.len() && s[i] != sep {
        assert(s.skip(from)[i - from] == s[i]);
        lemma_find_char_skip(s, sep, from, i + 1);
    } else if i < s.len() {
        assert(s.skip(from)[i - from] == s[i]);
    }
}

/// Reads the text of a length into units.
pub fn parse_length(s: &str) -> (r: Result<i64, ValueErrorKind>)
    ensures
        match r {
            Ok(v) => parsed_length(s@) == Some(v as int),
            Err(e) => parsed_length(s@) is None && e@ == ValueErrorText::Parse(
                invalid_length_message(),
            ),
        },
{
    let t = trimmed(s);
    let v = chars_of(t.as_str());
    let r = if v.len() > 0 && v[0] == '-' {
        match parse_magnitude(&v, 1) {
            Some(m) => Some(-m),
            None => None,
        }
    } else if v.len() > 0 && v[0] == '+' {
        parse_magnitude(&v, 1)
    } else {
        assert(v@.skip(0) == v@);
        parse_magnitude(&v, 0)
    };
    match r {
        Some(units) => Ok(units),
        None => Err(ValueErrorKind::parse_error("expected a number")),
    }
}

} // verus!
