//! Element-literal parsing: decimal integers with optional sign and range
//! check, boolean literals, and the grammar of decimal/scientific float
//! literals. Everything here works on character sequences.

use vstd::prelude::*;

verus! {

/// Whether `c` is a decimal digit.
pub open spec fn is_digit(c: char) -> bool {
    48 <= c as u32 <= 57
}

/// The numeric value of a digit.
pub open spec fn digit_val(c: char) -> int {
    c as u32 - 48
}

/// Whether every character is a decimal digit.
pub open spec fn all_digits(s: Seq<char>) -> bool {
    forall|i: int| 0 <= i < s.len() ==> is_digit(s[i])
}

/// The value of a digit string read in base ten.
pub open spec fn digits_val(s: Seq<char>) -> int
    decreases s.len(),
{
    if s.len() == 0 {
        0
    } else {
        digits_val(s.drop_last()) * 10 + digit_val(s.last())
    }
}

pub proof fn lemma_digits_val_nonneg(s: Seq<char>)
    requires
        all_digits(s),
    ensures
        digits_val(s) >= 0,
    decreases s.len(),
{
    if s.len() > 0 {
        lemma_digits_val_nonneg(s.drop_last());
    }
}

/// The value of an integer literal: an optional sign followed by one or
/// more digits. A minus sign is admitted only where `allow_neg` holds.
pub open spec fn int_lit_val(s: Seq<char>, allow_neg: bool) -> Option<int> {
    if s.len() == 0 {
        None
    } else {
        let neg = s[0] == '-';
        let has_sign = s[0] == '-' || s[0] == '+';
        let body = if has_sign {
            s.subrange(1, s.len() as int)
        } else {
            s
        };
        if neg && !allow_neg {
            None
        } else if body.len() > 0 && all_digits(body) {
            Some(
                if neg {
                    -digits_val(body)
                } else {
                    digits_val(body)
                },
            )
        } else {
            None
        }
    }
}

/// The value of an integer literal of a kind whose range is `lo ..= hi`.
pub open spec fn int_elem_val(s: Seq<char>, lo: int, hi: int, allow_neg: bool) -> Option<int> {
    match int_lit_val(s, allow_neg) {
        Some(v) => if lo <= v <= hi {
            Some(v)
        } else {
            None
        },
        None => None,
    }
}

/// The value of a boolean literal: exactly `true` or `false`.
pub open spec fn bool_elem_val(s: Seq<char>) -> Option<bool> {
    if s == "true"@ {
        Some(true)
    } else if s == "false"@ {
        Some(false)
    } else {
        None
    }
}

/// One step of the float-literal automaton. States: 0 start, 1 after sign,
/// 2 integral digits, 3 dot with no digit yet, 4 dot after digits or
/// fractional digits, 5 after the exponent marker, 6 after the exponent
/// sign, 7 exponent digits; -1 rejects and absorbs.
pub open spec fn float_step(st: int, c: char) -> int {
    if st == 0 {
        if c == '+' || c == '-' {
            1
        } else if is_digit(c) {
            2
        } else if c == '.' {
            3
        } else {
            -1
        }
    } else if st == 1 {
        if is_digit(c) {
            2
        } else if c == '.' {
            3
        } else {
            -1
        }
    } else if st == 2 {
        if is_digit(c) {
            2
        } else if c == '.' {
            4
        } else if c == 'e' || c == 'E' {
            5
        } else {
            -1
        }
    } else if st == 3 {
        if is_digit(c) {
            4
        } else {
            -1
        }
    } else if st == 4 {
        if is_digit(c) {
            4
        } else if c == 'e' || c == 'E' {
            5
        } else {
            -1
        }
    } else if st == 5 {
        if c == '+' || c == '-' {
            6
        } else if is_digit(c) {
            7
        } else {
            -1
        }
    } else if st == 6 || st == 7 {
        if is_digit(c) {
            7
        } else {
            -1
        }
    } else {
        -1
    }
}

/// The automaton state after reading the whole sequence.
pub open spec fn float_run(s: Seq<char>) -> int
    decreases s.len(),
{
    if s.len() == 0 {
        0
    } else {
        float_step(float_run(s.drop_last()), s.last())
    }
}

/// Whether `s` is a decimal or scientific float literal.
pub open spec fn is_float_lit(s: Seq<char>) -> bool {
    float_run(s) == 2 || float_run(s) == 4 || float_run(s) == 7
}

/// Whether the characters form a float literal.
pub fn check_float_lit(el: &Vec<char>) -> (r: bool)
    ensures
        r == is_float_lit(el@),
{
    let mut st: i32 = 0;
    let mut i: usize = 0;
    while i < el.len()
        invariant
            i <= el@.len(),
            -1 <= st <= 7,
            st as int == float_run(el@.subrange(0, i as int)),
        decreases el@.len() - i,
    {
        let c: char = el[i];
        proof {
            crate::text::lemma_subrange_step(el@, i as int);
        }
        let cu: u32 = c as u32;
        let digit: bool = 48 <= cu && cu <= 57;
        st = if st == 0 {
            if c == '+' || c == '-' {
                1
            } else if digit {
                2
            } else if c == '.' {
                3
            } else {
                -1
            }
        } else if st == 1 {
            if digit {
                2
            } else if c == '.' {
                3
            } else {
                -1
            }
        } else if st == 2 {
            if digit {
                2
            } else if c == '.' {
                4
            } else if c == 'e' || c == 'E' {
                5
            } else {
                -1
            }
        } else if st == 3 {
            if digit {
                4
            } else {
                -1
            }
        } else if st == 4 {
            if digit {
                4
            } else if c == 'e' || c == 'E' {
                5
            } else {
                -1
            }
        } else if st == 5 {
            if c == '+' || c == '-' {
                6
            } else if digit {
                7
            } else {
                -1
            }
        } else if st == 6 || st == 7 {
            if digit {
                7
            } else {
                -1
            }
        } else {
            -1
        };
        i = i + 1;
    }
    proof {
        assert(el@.subrange(0, el@.len() as int) =~= el@);
    }
    st == 2 || st == 4 || st == 7
}

/// The magnitude and sign of an integer literal, when the magnitude fits
/// in a machine word. `None` also covers a magnitude above `u64::MAX`,
/// which lies outside every supported kind's range.
pub fn parse_sign_mag(el: &Vec<char>, allow_neg: bool) -> (r: Option<(bool, u64)>)
    ensures
        match r {
            Some(p) => int_lit_val(el@, allow_neg) == Some(
                if p.0 {
                    -(p.1 as int)
                } else {
                    p.1 as int
                },
            ),
            None => match int_lit_val(el@, allow_neg) {
                Some(v) => v > u64::MAX || v < -(u64::MAX as int),
                None => true,
            },
        },
{
    if el.len() == 0 {
        return None;
    }
    let c0: char = el[0];
    let neg: bool = c0 == '-';
    let has_sign: bool = c0 == '-' || c0 == '+';
    if neg && !allow_neg {
        return None;
    }
    let start: usize = if has_sign {
        1
    } else {
        0
    };
    let ghost body: Seq<char> = if has_sign {
        el@.subrange(1, el@.len() as int)
    } else {
        el@
    };
    if el.len() == start {
        return None;
    }
    let mut acc: u64 = 0;
    let mut i: usize = start;
    while i < el.len()
        invariant
            start <= i <= el@.len(),
            el@.len() > 0,
            neg == (el@[0] == '-'),
            allow_neg || !neg,
            start == (if el@[0] == '-' || el@[0] == '+' {
                1usize
            } else {
                0usize
            }),
            body == el@.subrange(start as int, el@.len() as int),
            body.len() > 0,
            all_digits(body.subrange(0, i - start)),
            acc as int == digits_val(body.subrange(0, i - start)),
        decreases el@.len() - i,
    {
        let c: char = el[i];
        let cu: u32 = c as u32;
        if !(48 <= cu && cu <= 57) {
            proof {
                assert(el@.subrange(0, el@.len() as int) =~= el@);
                assert(!is_digit(body[i - start]));
            }
            return None;
        }
        let d: u64 = (cu - 48) as u64;
        proof {
            crate::text::lemma_subrange_step(body, i - start);
            lemma_digits_val_nonneg(body.subrange(0, i - start));
        }
        if acc > 1844674407370955161u64 || (acc == 1844674407370955161u64 && d > 5) {
            // The digits read so far already exceed every kind's range, and
            // further digits can only grow the value.
            proof {
                assert(el@.subrange(0, el@.len() as int) =~= el@);
                assert(is_digit(body[i - start]));
                assert(all_digits(body.subrange(0, i + 1 - start)));
                assert(digits_val(body.subrange(0, i + 1 - start)) == acc as int * 10 + d as int);
                assert(acc as int * 10 + d as int > u64::MAX);
                if all_digits(body) {
                    lemma_digits_val_grows(body, i + 1 - start);
                    assert(digits_val(body) > u64::MAX);
                }
            }
            return None;
        }
        acc = acc * 10 + d;
        i = i + 1;
    }
    proof {
        assert(body.subrange(0, body.len() as int) =~= body);
    }
    Some((neg, acc))
}

/// Appending digits never shrinks the value of a digit string.
pub proof fn lemma_digits_val_grows(s: Seq<char>, k: int)
    requires
        0 <= k <= s.len(),
        all_digits(s.subrange(0, k)),
        all_digits(s),
    ensures
        digits_val(s) >= digits_val(s.subrange(0, k)),
    decreases s.len() - k,
{
    lemma_digits_val_nonneg(s.subrange(0, k));
    if k < s.len() {
        crate::text::lemma_subrange_step(s, k);
        lemma_digits_val_nonneg(s.subrange(0, k + 1));
        lemma_digits_val_grows(s, k + 1);
    } else {
        assert(s.subrange(0, k) =~= s);
    }
}

/// A literal read without a minus sign never has a negative value.
pub proof fn lemma_int_lit_val_unsigned_nonneg(s: Seq<char>)
    ensures
        match int_lit_val(s, false) {
            Some(v) => v >= 0,
            None => true,
        },
{
    match int_lit_val(s, false) {
        Some(v) => {
            let has_sign = s[0] == '-' || s[0] == '+';
            let body = if has_sign {
                s.subrange(1, s.len() as int)
            } else {
                s
            };
            lemma_digits_val_nonneg(body);
        },
        None => {},
    }
}

/// An unsigned integer literal, range-checked against `hi`.
pub fn parse_elem_unsigned(el: &Vec<char>, hi: u64) -> (r: Option<u64>)
    ensures
        match r {
            Some(v) => int_elem_val(el@, 0, hi as int, false) == Some(v as int),
            None => int_elem_val(el@, 0, hi as int, false) is None,
        },
{
    match parse_sign_mag(el, false) {
        Some((neg, mag)) => {
            proof {
                lemma_int_lit_val_unsigned_nonneg(el@);
            }
            if mag <= hi {
                Some(mag)
            } else {
                None
            }
        },
        None => None,
    }
}

/// A signed integer literal, range-checked against `lo ..= hi`.
pub fn parse_elem_signed(el: &Vec<char>, lo: i64, hi: i64) -> (r: Option<i64>)
    ensures
        match r {
            Some(v) => int_elem_val(el@, lo as int, hi as int, true) == Some(v as int),
            None => int_elem_val(el@, lo as int, hi as int, true) is None,
        },
{
    match parse_sign_mag(el, true) {
        Some((neg, mag)) => {
            if neg {
                if mag <= i64::MAX as u64 {
                    let v: i64 = -(mag as i64);
                    if lo <= v && v <= hi {
                        Some(v)
                    } else {
                        None
                    }
                } else if mag == 9223372036854775808u64 {
                    let v: i64 = i64::MIN;
                    if lo <= v && v <= hi {
                        Some(v)
                    } else {
                        None
                    }
                } else {
                    None
                }
            } else {
                if mag <= i64::MAX as u64 {
                    let v: i64 = mag as i64;
                    if lo <= v && v <= hi {
                        Some(v)
                    } else {
                        None
                    }
                } else {
                    None
                }
            }
        },
        None => None,
    }
}

} // verus!
