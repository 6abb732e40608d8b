//! Decimal rendering of integers, with optional zero padding for
//! timestamps.

use vstd::prelude::*;
use vstd::string::StringExecFns;
use crate::hex::hex_char_of;
use crate::hex::hex_digit_str;

verus! {

/// Decimal digits of `n`, most significant first.
pub open spec fn dec_str(n: nat) -> Seq<char>
    decreases n,
{
    if n < 10 {
        seq![hex_char_of(n as int)]
    } else {
        dec_str(n / 10).push(hex_char_of((n % 10) as int))
    }
}

/// Decimal digits, with a leading minus sign when negative.
pub open spec fn int_dec_str(v: int) -> Seq<char> {
    if v < 0 {
        seq!['-'] + dec_str((-v) as nat)
    } else {
        dec_str(v as nat)
    }
}

/// `k` zero characters.
pub open spec fn zero_chars(k: nat) -> Seq<char> {
    Seq::new(k, |i: int| '0')
}

/// Decimal digits of `n`, left-padded with zeros to at least `w`
/// characters.
pub open spec fn dec_pad_str(n: nat, w: nat) -> Seq<char> {
    if dec_str(n).len() >= w {
        dec_str(n)
    } else {
        zero_chars((w - dec_str(n).len()) as nat) + dec_str(n)
    }
}

pub fn u64_to_dec(n: u64) -> (r: String)
    ensures
        r@ == dec_str(n as nat),
    decreases n,
{
    if n < 10 {
        String::from_str(hex_digit_str(n as u8))
    } else {
        let mut r = u64_to_dec(n / 10);
        r.append(hex_digit_str((n % 10) as u8));
        r
    }
}

pub fn i64_to_dec(n: i64) -> (r: String)
    ensures
        r@ == int_dec_str(n as int),
{
    if n >= 0 {
        u64_to_dec(n as u64)
    } else {
        let m: u64 = ((-(n + 1)) as u64) + 1;
        proof {
            assert(m == -(n as int));
        }
        let mut r = String::from_str("-");
        proof {
            reveal_strlit("-");
            assert("-"@ =~= seq!['-']);
        }
        let d = u64_to_dec(m);
        r.append(d.as_str());
        r
    }
}

/// Decimal rendering left-padded with zeros to at least `w` characters.
pub fn u64_to_dec_pad(n: u64, w: usize) -> (r: String)
    ensures
        r@ == dec_pad_str(n as nat, w as nat),
{
    let d = u64_to_dec(n);
    let dn = d.as_str().unicode_len();
    if dn >= w {
        return d;
    }
    let mut r = String::new();
    let mut k: usize = 0;
    while k < w - dn
        invariant
            k <= w - dn,
            dn == dec_str(n as nat).len(),
            dn < w,
            r@ == zero_chars(k as nat),
        decreases w - dn - k,
    {
        r.append("0");
        proof {
            reveal_strlit("0");
            assert("0"@ =~= seq!['0']);
            assert(zero_chars(k as nat).push('0') =~= zero_chars((k + 1) as nat));
        }
        k = k + 1;
    }
    r.append(d.as_str());
    r
}

} // verus!
