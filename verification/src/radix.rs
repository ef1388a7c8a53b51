//! Verified evaluation of binary and hexadecimal digit strings.
//!
//! The number scanner assembles the digits of a `0b`/`0x` literal into a byte
//! string (an optional leading `-`, then ASCII digits) and needs its value as
//! a 64-bit signed integer, with overflow reported as failure.

use vstd::prelude::*;

verus! {

/// Numeric value of an ASCII digit byte; bytes outside the digit ranges are
/// mapped to 0 and excluded by [`is_radix_digit`].
pub open spec fn digit_val(b: u8) -> int {
    if 48 <= b && b <= 57 {
        b - 48
    } else if 97 <= b && b <= 102 {
        b - 87
    } else if 65 <= b && b <= 70 {
        b - 55
    } else {
        0
    }
}

/// Whether the byte is a digit of the given radix.
pub open spec fn is_radix_digit(b: u8, radix: int) -> bool {
    ((48 <= b && b <= 57) || (97 <= b && b <= 102) || (65 <= b && b <= 70)) && digit_val(b)
        < radix
}

/// Value of an unsigned digit string, most significant digit first.
pub open spec fn digits_val(ds: Seq<u8>, radix: int) -> int
    decreases ds.len(),
{
    if ds.len() == 0 {
        0
    } else {
        digits_val(ds.drop_last(), radix) * radix + digit_val(ds.last())
    }
}

/// Whether every byte of the string is a digit of the radix.
pub open spec fn all_radix_digits(ds: Seq<u8>, radix: int) -> bool {
    forall|k: int| 0 <= k < ds.len() ==> is_radix_digit(#[trigger] ds[k], radix)
}

/// The 64-bit signed value of an optionally `-`-signed digit string:
/// `None` when no digit follows the sign, when a byte is not a digit of the
/// radix, or when the value does not fit in `i64`.
pub open spec fn i64_from_radix(s: Seq<u8>, radix: int) -> Option<i64> {
    let neg = s.len() > 0 && s[0] == 45;
    let ds = if neg {
        s.skip(1)
    } else {
        s
    };
    if ds.len() == 0 || !all_radix_digits(ds, radix) {
        None
    } else if !neg && digits_val(ds, radix) <= i64::MAX {
        Some(digits_val(ds, radix) as i64)
    } else if neg && digits_val(ds, radix) <= 0x8000_0000_0000_0000 {
        Some((-digits_val(ds, radix)) as i64)
    } else {
        None
    }
}

/// A string of radix digits has a nonnegative value.
proof fn lemma_digits_val_nonneg(ds: Seq<u8>, radix: int)
    requires
        radix >= 2,
        forall|k: int| 0 <= k < ds.len() ==> is_radix_digit(#[trigger] ds[k], radix),
    ensures
        digits_val(ds, radix) >= 0,
    decreases ds.len(),
{
    if ds.len() > 0 {
        lemma_digits_val_nonneg(ds.drop_last(), radix);
        assert(digits_val(ds.drop_last(), radix) * radix >= 0) by (nonlinear_arith)
            requires
                digits_val(ds.drop_last(), radix) >= 0,
                radix >= 2,
        ;
    }
}

/// Appending a digit cannot shrink a value already past a nonnegative bound.
proof fn lemma_digits_val_grows(ds: Seq<u8>, radix: int, bound: int)
    requires
        radix >= 2,
        ds.len() > 0,
        bound >= 0,
        digits_val(ds.drop_last(), radix) > bound,
    ensures
        digits_val(ds, radix) > bound,
{
    let prefix = digits_val(ds.drop_last(), radix);
    assert(prefix * radix >= prefix * 2) by (nonlinear_arith)
        requires
            prefix >= 0,
            radix >= 2,
    ;
}

/// Value of an optionally signed binary or hexadecimal digit string as a
/// 64-bit signed integer; `None` on an empty or malformed digit run and on
/// overflow, as `i64::from_str_radix` reports them.
pub fn parse_i64_radix(s: &Vec<u8>, radix: u32) -> (r: Option<i64>)
    requires
        radix == 2 || radix == 16,
    ensures
        r == i64_from_radix(s@, radix as int),
{
    let neg = s.len() > 0 && s[0] == 45;
    let start: usize = if neg {
        1
    } else {
        0
    };
    let ghost ds = if neg {
        s@.skip(1)
    } else {
        s@
    };
    if s.len() == start {
        return None;
    }
    let bound: u64 = if neg {
        0x8000_0000_0000_0000
    } else {
        0x7fff_ffff_ffff_ffff
    };
    let mut mag: u64 = 0;
    let mut overflow = false;
    let mut i: usize = start;
    while i < s.len()
        invariant
            radix == 2 || radix == 16,
            start <= i <= s@.len(),
            start == if neg { 1int } else { 0int },
            neg == (s@.len() > 0 && s@[0] == 45),
            ds == if neg { s@.skip(1) } else { s@ },
            bound == if neg { 0x8000_0000_0000_0000u64 } else { 0x7fff_ffff_ffff_ffffu64 },
            forall|k: int| 0 <= k < i - start ==> is_radix_digit(#[trigger] ds[k], radix as int),
            !overflow ==> mag == digits_val(ds.take(i - start), radix as int) && mag <= bound,
            overflow ==> digits_val(ds.take(i - start), radix as int) > bound,
        decreases s@.len() - i,
    {
        let b = s[i];
        let d: u64 = if b >= 48 && b <= 57 {
            (b - 48) as u64
        } else if b >= 97 && b <= 102 {
            (b - 87) as u64
        } else if b >= 65 && b <= 70 {
            (b - 55) as u64
        } else {
            255
        };
        if d >= radix as u64 {
            assert(ds[i - start] == s@[i as int]);
            assert(!all_radix_digits(ds, radix as int)) by {
                assert(0 <= i - start < ds.len() && !is_radix_digit(ds[i - start], radix as int));
            }
            return None;
        }
        let ghost processed = ds.take(i - start);
        let ghost extended = ds.take(i + 1 - start);
        assert(extended.drop_last() == processed);
        assert(extended.last() == ds[i - start]);
        if !overflow {
            proof {
                assert((mag as int) * (radix as int) <= 0x8000_0000_0000_0000 * 16) by (nonlinear_arith)
                    requires
                        0 <= mag as int <= 0x8000_0000_0000_0000,
                        0 <= radix as int <= 16,
                ;
            }
            let tmp: u128 = mag as u128 * radix as u128 + d as u128;
            if tmp > bound as u128 {
                overflow = true;
            } else {
                mag = tmp as u64;
            }
        } else {
            proof {
                lemma_digits_val_grows(extended, radix as int, bound as int);
            }
        }
        i += 1;
    }
    assert(ds.take(i - start) == ds);
    assert(all_radix_digits(ds, radix as int));
    if overflow {
        proof {
            lemma_digits_val_nonneg(ds, radix as int);
        }
        None
    } else if neg {
        if mag == 0x8000_0000_0000_0000 {
            Some(i64::MIN)
        } else {
            Some(-(mag as i64))
        }
    } else {
        Some(mag as i64)
    }
}

} // verus!
