//! Calendar dates in the ISO `YYYY-MM-DD` form the profile DTOs use, and the
//! unsigned-integer reading that `str::parse` gives the other date shapes.

use vstd::prelude::*;

use crate::text::{all_digits, digits_value, is_digit, parse_digits, to_chars};

verus! {

broadcast use {vstd::std_specs::vec::group_vec_axioms, vstd::seq::group_seq_axioms};

/// A Gregorian leap year.
pub open spec fn is_leap(y: nat) -> bool {
    (y % 4 == 0 && y % 100 != 0) || y % 400 == 0
}

/// Days in month `m` (1-based) of year `y`.
pub open spec fn days_in_month(y: nat, m: nat) -> nat {
    if m == 2 {
        if is_leap(y) {
            29
        } else {
            28
        }
    } else if m == 4 || m == 6 || m == 9 || m == 11 {
        30
    } else {
        31
    }
}

/// The (year, month, day) of a strict `YYYY-MM-DD` calendar date.
pub open spec fn iso_ymd(s: Seq<char>) -> Option<(nat, nat, nat)> {
    if s.len() == 10 && s[4] == '-' && s[7] == '-' && all_digits(s.subrange(0, 4)) && all_digits(
        s.subrange(5, 7),
    ) && all_digits(s.subrange(8, 10)) {
        let y = digits_value(s.subrange(0, 4));
        let m = digits_value(s.subrange(5, 7));
        let d = digits_value(s.subrange(8, 10));
        if 1 <= m <= 12 && 1 <= d <= days_in_month(y, m) {
            Some((y, m, d))
        } else {
            None
        }
    } else {
        None
    }
}

/// Calendar order on (year, month, day).
pub open spec fn ymd_before(a: (nat, nat, nat), b: (nat, nat, nat)) -> bool {
    a.0 < b.0 || (a.0 == b.0 && (a.1 < b.1 || (a.1 == b.1 && a.2 < b.2)))
}

/// What `str::parse` gives for an unsigned integer type whose largest value
/// is `max`: an optional `+`, then one or more ASCII digits, in range.
pub open spec fn parse_unsigned(t: Seq<char>, max: nat) -> Option<nat> {
    let body = if t.len() > 0 && t[0] == '+' {
        t.drop_first()
    } else {
        t
    };
    if body.len() > 0 && all_digits(body) && digits_value(body) <= max {
        Some(digits_value(body))
    } else {
        None
    }
}

/// `str::parse` into an unsigned integer no larger than `max`.
#[verifier::loop_isolation(false)]
pub fn parse_unsigned_chars(t: &Vec<char>, max: u64) -> (res: Option<u64>)
    ensures
        match res {
            Some(v) => parse_unsigned(t@, max as nat) == Some(v as nat),
            None => parse_unsigned(t@, max as nat) is None,
        },
{
    let from: usize = if t.len() > 0 && t[0] == '+' {
        1
    } else {
        0
    };
    let ghost body = t@.subrange(from as int, t@.len() as int);
    proof {
        if from == 1 {
            assert(body == t@.drop_first());
        } else {
            assert(body == t@);
        }
    }
    if from == t.len() {
        return None;
    }
    let mut i = from;
    while i < t.len()
        invariant
            from <= i <= t@.len(),
            from <= 1,
            body == t@.subrange(from as int, t@.len() as int),
            forall|j: int| from <= j < i ==> is_digit(#[trigger] t@[j]),
        decreases t@.len() - i,
    {
        if !('0' <= t[i] && t[i] <= '9') {
            assert(!is_digit(body[i - from]));
            return None;
        }
        i = i + 1;
    }
    assert(all_digits(body)) by {
        assert forall|k: int| 0 <= k < body.len() implies is_digit(#[trigger] body[k]) by {
            assert(body[k] == t@[k + from]);
        }
    }
    parse_digits(t, from, t.len(), max)
}

/// Parses a strict `YYYY-MM-DD` calendar date.
pub fn parse_iso(s: &str) -> (res: Option<(u32, u32, u32)>)
    ensures
        match res {
            Some((y, m, d)) => iso_ymd(s@) == Some((y as nat, m as nat, d as nat)),
            None => iso_ymd(s@) is None,
        },
{
    let t = to_chars(s);
    if t.len() != 10 || t[4] != '-' || t[7] != '-' {
        return None;
    }
    let mut i: usize = 0;
    while i < 10
        invariant
            t@ == s@,
            t@.len() == 10,
            i <= 10,
            forall|j: int| 0 <= j < i && j != 4 && j != 7 ==> is_digit(#[trigger] t@[j]),
        decreases 10 - i,
    {
        if i != 4 && i != 7 && !('0' <= t[i] && t[i] <= '9') {
            proof {
                if i < 4 {
                    assert(!is_digit(s@.subrange(0, 4)[i as int]));
                } else if i < 7 {
                    assert(!is_digit(s@.subrange(5, 7)[i - 5]));
                } else {
                    assert(!is_digit(s@.subrange(8, 10)[i - 8]));
                }
            }
            return None;
        }
        i = i + 1;
    }
    assert(all_digits(t@.subrange(0, 4)));
    assert(all_digits(t@.subrange(5, 7)));
    assert(all_digits(t@.subrange(8, 10)));
    let y = match parse_digits(&t, 0, 4, 9999) {
        Some(v) => v,
        None => {
            proof {
                digits_bound(t@.subrange(0, 4));
            }
            return None;
        },
    };
    let m = match parse_digits(&t, 5, 7, 99) {
        Some(v) => v,
        None => {
            proof {
                digits_bound(t@.subrange(5, 7));
            }
            return None;
        },
    };
    let d = match parse_digits(&t, 8, 10, 99) {
        Some(v) => v,
        None => {
            proof {
                digits_bound(t@.subrange(8, 10));
            }
            return None;
        },
    };
    if m < 1 || m > 12 || d < 1 {
        return None;
    }
    let leap = (y % 4 == 0 && y % 100 != 0) || y % 400 == 0;
    let dim: u64 = if m == 2 {
        if leap {
            29
        } else {
            28
        }
    } else if m == 4 || m == 6 || m == 9 || m == 11 {
        30
    } else {
        31
    };
    if d > dim {
        return None;
    }
    Some((y as u32, m as u32, d as u32))
}

/// `10^n`.
pub open spec fn pow10(n: nat) -> nat
    decreases n,
{
    if n == 0 {
        1
    } else {
        10 * pow10((n - 1) as nat)
    }
}

/// A run of `n` digits is below `10^n`.
pub proof fn lemma_digits_below(s: Seq<char>)
    requires
        all_digits(s),
    ensures
        digits_value(s) < pow10(s.len()),
    decreases s.len(),
{
    if s.len() > 0 {
        let t = s.drop_last();
        assert(all_digits(t)) by {
            assert forall|k: int| 0 <= k < t.len() implies is_digit(#[trigger] t[k]) by {
                assert(t[k] == s[k]);
            }
        }
        lemma_digits_below(t);
        assert(is_digit(s[s.len() - 1]));
    }
}

/// Short digit runs are below the bounds a date field needs.
proof fn digits_bound(s: Seq<char>)
    requires
        1 <= s.len() <= 4,
        all_digits(s),
    ensures
        s.len() == 4 ==> digits_value(s) <= 9999,
        s.len() == 2 ==> digits_value(s) <= 99,
{
    lemma_digits_below(s);
    reveal_with_fuel(pow10, 5);
}

} // verus!
