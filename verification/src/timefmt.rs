//! Rendering of capture timestamps as decimal seconds.
//!
//! A resolution that is a power of ten yields an exact rendering with as many
//! fractional digits as the resolution has zeros. Any other resolution is
//! rendered with six fractional digits, rounding the exact rational value
//! half-to-even (the rounding that binary floating-point formatting applies
//! to exactly representable values such as fractions over a power of two).

use vstd::prelude::*;
use vstd::string::StringExecFns;

use crate::strutil::push_char;
use crate::strutil::spec_dec;
use crate::strutil::spec_zero_pad;

verus! {

/// The number of decimal digits of a resolution that is a power of ten:
/// `Some(d)` when `resolution == 10^d`, `None` otherwise (zero included).
pub open spec fn spec_decimal_digits(resolution: nat) -> Option<nat>
    decreases resolution,
{
    if resolution == 0 {
        None
    } else if resolution == 1 {
        Some(0)
    } else if resolution % 10 != 0 {
        None
    } else {
        match spec_decimal_digits(resolution / 10) {
            Some(d) => Some(d + 1),
            None => None,
        }
    }
}

/// Powers of ten.
pub open spec fn spec_pow10(d: nat) -> nat
    decreases d,
{
    if d == 0 {
        1
    } else {
        10 * spec_pow10((d - 1) as nat)
    }
}

/// A resolution with a digit count is the corresponding power of ten.
pub proof fn lemma_decimal_digits_pow(n: nat)
    ensures
        match spec_decimal_digits(n) {
            Some(d) => n == spec_pow10(d),
            None => true,
        },
    decreases n,
{
    if n == 0 || n == 1 || n % 10 != 0 {
    } else {
        lemma_decimal_digits_pow(n / 10);
    }
}

pub proof fn lemma_pow10_at_least(d: nat, k: nat)
    requires
        d >= k,
    ensures
        spec_pow10(d) >= spec_pow10(k),
    decreases d,
{
    if d == k {
    } else {
        lemma_pow10_at_least((d - 1) as nat, k);
        assert(spec_pow10((d - 1) as nat) >= 1) by {
            lemma_pow10_pos((d - 1) as nat);
        }
    }
}

pub proof fn lemma_pow10_pos(d: nat)
    ensures
        spec_pow10(d) >= 1,
    decreases d,
{
    if d == 0 {
    } else {
        lemma_pow10_pos((d - 1) as nat);
    }
}

/// The digit count of a 64-bit power-of-ten resolution is at most 19.
pub proof fn lemma_decimal_digits_small(n: nat)
    requires
        n <= 0xFFFF_FFFF_FFFF_FFFF,
    ensures
        match spec_decimal_digits(n) {
            Some(d) => d <= 19,
            None => true,
        },
{
    lemma_decimal_digits_pow(n);
    if let Some(d) = spec_decimal_digits(n) {
        if d > 19 {
            assert(spec_pow10(20) == 100000000000000000000) by {
                reveal_with_fuel(spec_pow10, 21);
            }
            lemma_pow10_at_least(d, 20);
        }
    }
}

/// Count the zeros of a power-of-ten resolution.
pub fn decimal_digits(resolution: u64) -> (r: Option<usize>)
    ensures
        r == match spec_decimal_digits(resolution as nat) {
            Some(d) => Some::<usize>(d as usize),
            None => None::<usize>,
        },
    decreases resolution,
{
    proof {
        lemma_decimal_digits_small(resolution as nat);
    }
    if resolution == 0 {
        None
    } else if resolution == 1 {
        Some(0)
    } else if resolution % 10 != 0 {
        None
    } else {
        proof {
            lemma_decimal_digits_small(resolution as nat / 10);
        }
        match decimal_digits(resolution / 10) {
            Some(d) => Some(d + 1),
            None => None,
        }
    }
}

/// `num / den` rounded to the nearest integer, ties to the even neighbor.
pub open spec fn spec_div_round_even(num: nat, den: nat) -> nat
    recommends
        den > 0,
{
    let q = num / den;
    let r = num % den;
    if 2 * r > den || (2 * r == den && q % 2 == 1) {
        q + 1
    } else {
        q
    }
}

/// The timestamp text: negative seconds clamp to `0.000000`; a power-of-ten
/// resolution prints the fractional field zero-padded to the resolution's
/// digit count; any other resolution prints six fractional digits of the
/// rounded rational value.
pub open spec fn spec_format_timestamp(seconds: int, fractional: nat, resolution: nat) -> Seq<
    char,
> {
    if seconds < 0 {
        "0.000000"@
    } else {
        match spec_decimal_digits(resolution) {
            Some(d) => spec_dec(seconds as nat) + seq!['.'] + spec_zero_pad(
                spec_dec(fractional),
                d,
            ),
            None => {
                let scaled = spec_div_round_even(fractional * 1000000, resolution);
                let total = seconds + scaled / 1000000;
                spec_dec(total as nat) + seq!['.'] + spec_zero_pad(spec_dec(scaled % 1000000), 6)
            },
        }
    }
}

/// Render a timestamp in decimal seconds.
pub fn format_timestamp(seconds: i64, fractional: u64, resolution: u64) -> (s: String)
    requires
        resolution >= 1,
    ensures
        s@ == spec_format_timestamp(seconds as int, fractional as nat, resolution as nat),
{
    if seconds < 0 {
        return String::from_str("0.000000");
    }
    proof {
        lemma_decimal_digits_small(resolution as nat);
    }
    match decimal_digits(resolution) {
        Some(digits) => {
            let mut s = String::new();
            crate::strutil::append_u64_dec(&mut s, seconds as u64);
            push_char(&mut s, '.');
            crate::strutil::append_u64_dec_pad(&mut s, fractional, digits);
            proof {
                assert(s@ =~= spec_format_timestamp(
                    seconds as int,
                    fractional as nat,
                    resolution as nat,
                ));
            }
            s
        },
        None => {
            let num: u128 = fractional as u128 * 1000000;
            let den: u128 = resolution as u128;
            let q = num / den;
            let r = num % den;
            let scaled: u128 = if 2 * r > den || (2 * r == den && q % 2 == 1) {
                q + 1
            } else {
                q
            };
            proof {
                assert(scaled == spec_div_round_even(fractional as nat * 1000000, resolution as nat));
            }
            let total: u128 = seconds as u128 + scaled / 1000000;
            let fracpart: u64 = (scaled % 1000000) as u64;
            let mut s = String::new();
            crate::strutil::append_u128_dec(&mut s, total);
            push_char(&mut s, '.');
            crate::strutil::append_u64_dec_pad(&mut s, fracpart, 6);
            proof {
                assert(s@ =~= spec_format_timestamp(
                    seconds as int,
                    fractional as nat,
                    resolution as nat,
                ));
            }
            s
        },
    }
}

} // verus!
