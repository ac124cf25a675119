//! Parsing of numeric offsets as they appear on the command line and in
//! persisted symbol-size entries: a decimal number, or a hexadecimal one
//! introduced by `0x`.

use vstd::prelude::*;

verus! {

pub const CHAR_ZERO: u8 = 48;
pub const CHAR_NINE: u8 = 57;
pub const CHAR_LOWER_A: u8 = 97;
pub const CHAR_LOWER_F: u8 = 102;
pub const CHAR_UPPER_A: u8 = 65;
pub const CHAR_UPPER_F: u8 = 70;
pub const CHAR_LOWER_X: u8 = 120;

/// Value of a decimal digit character, if it is one.
pub open spec fn dec_digit_val(c: u8) -> Option<u8> {
    if CHAR_ZERO <= c && c <= CHAR_NINE {
        Some((c - CHAR_ZERO) as u8)
    } else {
        None
    }
}

/// Value of a hexadecimal digit character (either case), if it is one.
pub open spec fn hex_digit_val(c: u8) -> Option<u8> {
    if CHAR_ZERO <= c && c <= CHAR_NINE {
        Some((c - CHAR_ZERO) as u8)
    } else if CHAR_LOWER_A <= c && c <= CHAR_LOWER_F {
        Some((c - CHAR_LOWER_A + 10) as u8)
    } else if CHAR_UPPER_A <= c && c <= CHAR_UPPER_F {
        Some((c - CHAR_UPPER_A + 10) as u8)
    } else {
        None
    }
}

pub open spec fn digit_val(c: u8, base: nat) -> Option<u8> {
    if base == 16 {
        hex_digit_val(c)
    } else {
        dec_digit_val(c)
    }
}

/// Numeric value of a digit string in the given base; `None` when the
/// string is empty or holds a character that is no digit of the base.
pub open spec fn digits_val(s: Seq<u8>, base: nat) -> Option<nat>
    decreases s.len(),
{
    if s.len() == 0 {
        None
    } else if s.len() == 1 {
        match digit_val(s[0], base) {
            Some(d) => Some(d as nat),
            None => None,
        }
    } else {
        match (digits_val(s.drop_last(), base), digit_val(s.last(), base)) {
            (Some(v), Some(d)) => Some((v * base + d) as nat),
            _ => None,
        }
    }
}

/// The number an offset string denotes: hexadecimal after a `0x` prefix,
/// decimal otherwise.
pub open spec fn offset_value(s: Seq<u8>) -> Option<nat> {
    if s.len() >= 2 && s[0] == CHAR_ZERO && s[1] == CHAR_LOWER_X {
        digits_val(s.skip(2), 16)
    } else {
        digits_val(s, 10)
    }
}

/// Whether an offset string denotes a number that fits in 64 bits.
pub open spec fn offset_parses(s: Seq<u8>) -> bool {
    match offset_value(s) {
        Some(n) => n <= u64::MAX,
        None => false,
    }
}

/// A `Some` digit string has only valid digits, and every non-empty prefix
/// is itself a `Some` digit string with a value no larger than the whole.
proof fn lemma_digits_val_props(s: Seq<u8>, base: nat)
    requires
        base >= 1,
        digits_val(s, base) is Some,
    ensures
        forall|i: int| 0 <= i < s.len() ==> digit_val(s[i], base) is Some,
        forall|k: int|
            1 <= k <= s.len() ==> (#[trigger] digits_val(s.take(k), base) matches Some(m)
                && m <= digits_val(s, base)->Some_0),
    decreases s.len(),
{
    if s.len() <= 1 {
        assert(s.take(1) =~= s);
    } else {
        lemma_digits_val_props(s.drop_last(), base);
        assert(s.take(s.len() as int) =~= s);
        assert forall|k: int|
            1 <= k <= s.len() implies (#[trigger] digits_val(s.take(k), base) matches Some(m)
            && m <= digits_val(s, base)->Some_0) by {
            if k < s.len() {
                assert(s.take(k) =~= s.drop_last().take(k));
                let whole = digits_val(s.drop_last(), base)->Some_0;
                let d = digit_val(s.last(), base)->Some_0;
                assert(whole * base + d >= whole) by (nonlinear_arith)
                    requires
                        base >= 1,
                        d >= 0,
                        whole >= 0,
                ;
            }
        }
        assert forall|i: int| 0 <= i < s.len() implies digit_val(s[i], base) is Some by {
            if i < s.len() - 1 {
                assert(s.drop_last()[i] == s[i]);
            }
        }
    }
}

/// If some digit of the string is invalid, the whole string has no value.
proof fn lemma_digits_val_invalid(s: Seq<u8>, base: nat, i: int)
    requires
        base >= 1,
        0 <= i < s.len(),
        digit_val(s[i], base) is None,
    ensures
        digits_val(s, base) is None,
{
    if digits_val(s, base) is Some {
        lemma_digits_val_props(s, base);
    }
}

/// Parses the digit portion of an offset, rejecting values over `u64::MAX`.
fn parse_digits(v: &[u8], start: usize, base16: bool) -> (r: Option<u64>)
    requires
        start <= v@.len(),
    ensures
        ({
            let digits = v@.skip(start as int);
            let base: nat = if base16 { 16 } else { 10 };
            match digits_val(digits, base) {
                Some(n) => if n <= u64::MAX {
                    r == Some(n as u64)
                } else {
                    r is None
                },
                None => r is None,
            }
        }),
{
    let ghost digits = v@.skip(start as int);
    let ghost base: nat = if base16 { 16 } else { 10 };
    if start == v.len() {
        return None;
    }
    let mut acc: u64 = 0;
    let mut i: usize = start;
    while i < v.len()
        invariant
            start <= i <= v@.len(),
            start < v@.len(),
            digits == v@.skip(start as int),
            base == if base16 { 16nat } else { 10nat },
            i > start ==> digits_val(digits.take(i - start), base) == Some(acc as nat),
            i == start ==> acc == 0,
        decreases v@.len() - i,
    {
        let d: u8 = {
            let c = v[i];
            let dv: Option<u8> = if base16 {
                if CHAR_ZERO <= c && c <= CHAR_NINE {
                    Some(c - CHAR_ZERO)
                } else if CHAR_LOWER_A <= c && c <= CHAR_LOWER_F {
                    Some(c - CHAR_LOWER_A + 10)
                } else if CHAR_UPPER_A <= c && c <= CHAR_UPPER_F {
                    Some(c - CHAR_UPPER_A + 10)
                } else {
                    None
                }
            } else {
                if CHAR_ZERO <= c && c <= CHAR_NINE {
                    Some(c - CHAR_ZERO)
                } else {
                    None
                }
            };
            assert(dv == digit_val(digits[i - start], base));
            match dv {
                Some(d) => d,
                None => {
                    proof {
                        lemma_digits_val_invalid(digits, base, i - start);
                    }
                    return None;
                },
            }
        };
        let next: u64 = if base16 {
            if acc > 0xFFF_FFFF_FFFF_FFFFu64 {
                proof {
                    overflow_step(digits, base, i - start, acc as nat, d as nat);
                }
                return None;
            }
            acc * 16
        } else {
            if acc > 1_844_674_407_370_955_161u64 {
                proof {
                    overflow_step(digits, base, i - start, acc as nat, d as nat);
                }
                return None;
            }
            acc * 10
        };
        if next > u64::MAX - (d as u64) {
            proof {
                overflow_step(digits, base, i - start, acc as nat, d as nat);
            }
            return None;
        }
        proof {
            step_value(digits, base, i - start, acc as nat, d as nat);
        }
        acc = next + (d as u64);
        i = i + 1;
    }
    assert(digits.take(digits.len() as int) =~= digits);
    Some(acc)
}

/// Unfolds one step of `digits_val`: the value of a prefix extended by one
/// valid digit.
proof fn step_value(digits: Seq<u8>, base: nat, j: int, acc: nat, d: nat)
    requires
        0 <= j < digits.len(),
        j > 0 ==> digits_val(digits.take(j), base) == Some(acc),
        j == 0 ==> acc == 0,
        digit_val(digits[j], base) == Some(d as u8),
        d == digit_val(digits[j], base)->Some_0,
    ensures
        digits_val(digits.take(j + 1), base) == Some(acc * base + d),
{
    let t = digits.take(j + 1);
    if j == 0 {
        assert(t.len() == 1);
        assert(t[0] == digits[0]);
    } else {
        assert(t.drop_last() =~= digits.take(j));
        assert(t.last() == digits[j]);
    }
}

/// When one more digit would push the accumulated value past `u64::MAX`,
/// the whole digit string denotes no 64-bit value.
proof fn overflow_step(digits: Seq<u8>, base: nat, j: int, acc: nat, d: nat)
    requires
        0 <= j < digits.len(),
        j > 0 ==> digits_val(digits.take(j), base) == Some(acc),
        j == 0 ==> acc == 0,
        digit_val(digits[j], base) == Some(d as u8),
        d == digit_val(digits[j], base)->Some_0,
        acc * base + d > u64::MAX,
    ensures
        digits_val(digits, base) matches Some(n) ==> n > u64::MAX,
{
    step_value(digits, base, j, acc, d);
    if digits_val(digits, base) is Some {
        lemma_digits_val_props(digits, base);
        assert(digits_val(digits.take(j + 1), base) matches Some(m) && m
            <= digits_val(digits, base)->Some_0);
    }
}

/// Parses a decimal or `0x`-prefixed hexadecimal offset.
pub fn parse_offset(v: &[u8]) -> (r: Option<u64>)
    ensures
        match offset_value(v@) {
            Some(n) => if n <= u64::MAX {
                r == Some(n as u64)
            } else {
                r is None
            },
            None => r is None,
        },
        r matches Some(x) ==> offset_value(v@) == Some(x as nat),
        r is Some <==> offset_parses(v@),
{
    if v.len() >= 2 && v[0] == CHAR_ZERO && v[1] == CHAR_LOWER_X {
        parse_digits(v, 2, true)
    } else {
        proof {
            assert(v@.skip(0) =~= v@);
        }
        parse_digits(v, 0, false)
    }
}

/// Whether the argument is a well-formed decimal or hexadecimal number.
pub fn is_vaild_number(v: &[u8]) -> (r: bool)
    ensures
        r == offset_parses(v@),
{
    parse_offset(v).is_some()
}

} // verus!
