//! Small string-building helpers: appending single characters, and decimal
//! renderings of integers. All output strings are specified as sequences of
//! characters.

use vstd::prelude::*;
use vstd::string::StrSliceExecFns;
use vstd::string::StringExecFns;

verus! {

/// Relies on String::push: appends the given character to the end of the string.
#[verifier::external_body]
pub fn push_char(s: &mut String, c: char)
    ensures
        final(s)@ == old(s)@.push(c),
{
    s.push(c);
}

/// The character for a single decimal digit.
pub open spec fn dec_digit(d: nat) -> char
    recommends
        d < 10,
{
    ((0x30 + d) as char)
}

/// The character for a single hexadecimal digit, upper case.
pub open spec fn hex_digit(d: nat) -> char
    recommends
        d < 16,
{
    if d < 10 {
        ((0x30 + d) as char)
    } else {
        ((0x41 + (d - 10)) as char)
    }
}

/// The character for a single hexadecimal digit, lower case.
pub open spec fn hex_digit_lower(d: nat) -> char
    recommends
        d < 16,
{
    if d < 10 {
        ((0x30 + d) as char)
    } else {
        ((0x61 + (d - 10)) as char)
    }
}

/// The usual decimal rendering of a natural number, most significant digit
/// first, without leading zeros (except for the number zero itself).
pub open spec fn spec_dec(n: nat) -> Seq<char>
    decreases n,
{
    if n < 10 {
        seq![dec_digit(n)]
    } else {
        spec_dec(n / 10).push(dec_digit(n % 10))
    }
}

/// Append the decimal rendering of `n` to `out`.
pub fn append_u64_dec(out: &mut String, n: u64)
    ensures
        final(out)@ == old(out)@ + spec_dec(n as nat),
    decreases n,
{
    if n < 10 {
        push_char(out, (0x30u8 + n as u8) as char);
        proof {
            assert(out@ =~= old(out)@ + spec_dec(n as nat));
        }
    } else {
        append_u64_dec(out, n / 10);
        push_char(out, (0x30u8 + (n % 10) as u8) as char);
        proof {
            assert(out@ =~= old(out)@ + spec_dec(n as nat));
        }
    }
}

/// Append the decimal rendering of a 128-bit `n` to `out`.
pub fn append_u128_dec(out: &mut String, n: u128)
    ensures
        final(out)@ == old(out)@ + spec_dec(n as nat),
    decreases n,
{
    if n < 10 {
        push_char(out, (0x30u8 + n as u8) as char);
        proof {
            assert(out@ =~= old(out)@ + spec_dec(n as nat));
        }
    } else {
        append_u128_dec(out, n / 10);
        push_char(out, (0x30u8 + (n % 10) as u8) as char);
        proof {
            assert(out@ =~= old(out)@ + spec_dec(n as nat));
        }
    }
}

/// The decimal rendering of `n` as a fresh string.
pub fn u64_dec(n: u64) -> (s: String)
    ensures
        s@ == spec_dec(n as nat),
{
    let mut s = String::new();
    append_u64_dec(&mut s, n);
    proof {
        assert(s@ =~= spec_dec(n as nat));
    }
    s
}

/// `s` zero-padded on the left to at least `width` characters.
pub open spec fn spec_zero_pad(s: Seq<char>, width: nat) -> Seq<char>
    decreases width - s.len(),
{
    if s.len() >= width {
        s
    } else {
        spec_zero_pad(seq!['0'] + s, width)
    }
}

/// The zero-padded rendering keeps the digits as a suffix and puts only `'0'`
/// characters in front of them; its length is the larger of `width` and the
/// digit count.
pub proof fn lemma_zero_pad_shape(s: Seq<char>, width: nat)
    ensures
        spec_zero_pad(s, width).len() == if s.len() >= width {
            s.len() as int
        } else {
            width as int
        },
        spec_zero_pad(s, width).skip(spec_zero_pad(s, width).len() - s.len()) =~= s,
        forall|i: int|
            0 <= i < spec_zero_pad(s, width).len() - s.len() ==> spec_zero_pad(s, width)[i] == '0',
    decreases width - s.len(),
{
    if s.len() >= width {
    } else {
        let t = seq!['0'] + s;
        lemma_zero_pad_shape(t, width);
        let zp = spec_zero_pad(s, width);
        let k = zp.len() - t.len();
        assert(zp.skip(k) =~= t);
        assert forall|j: int| 0 <= j < s.len() implies zp[zp.len() - s.len() + j] == s[j] by {
            assert(zp.skip(k)[j + 1] == t[j + 1]);
        }
        assert(zp.skip(zp.len() - s.len()) =~= s);
        assert forall|i: int| 0 <= i < zp.len() - s.len() implies zp[i] == '0' by {
            if i == k {
                assert(zp.skip(k)[0] == t[0]);
            }
        }
    }
}

/// Append `n` in decimal, zero-padded on the left to at least `width` digits.
pub fn append_u64_dec_pad(out: &mut String, n: u64, width: usize)
    ensures
        final(out)@ == old(out)@ + spec_zero_pad(spec_dec(n as nat), width as nat),
{
    let digits = u64_dec(n);
    let ghost padded = spec_zero_pad(spec_dec(n as nat), width as nat);
    proof {
        lemma_zero_pad_shape(spec_dec(n as nat), width as nat);
    }
    let dlen = digits.as_str().unicode_len();
    let zeros = if width > dlen {
        width - dlen
    } else {
        0
    };
    proof {
        assert(zeros + dlen == padded.len());
    }
    let mut pad: usize = 0;
    while pad < zeros
        invariant
            dlen == digits@.len(),
            digits@ == spec_dec(n as nat),
            padded == spec_zero_pad(spec_dec(n as nat), width as nat),
            pad <= zeros,
            zeros + dlen == padded.len(),
            padded.skip(zeros as int) =~= digits@,
            forall|i: int| 0 <= i < zeros ==> padded[i] == '0',
            out@ == old(out)@ + padded.take(pad as int),
        decreases zeros - pad,
    {
        push_char(out, '0');
        proof {
            assert(padded[pad as int] == '0');
            assert(padded.take(pad as int + 1) =~= padded.take(pad as int).push('0'));
            assert(out@ =~= old(out)@ + padded.take(pad as int + 1));
        }
        pad = pad + 1;
    }
    out.append(digits.as_str());
    proof {
        assert(padded.take(zeros as int) + digits@ =~= padded);
        assert(out@ =~= old(out)@ + padded);
    }
}

} // verus!
