//! 128-bit attribute and service identifiers, with the canonical
//! hyphenated lowercase text form (8-4-4-4-12 hexadecimal digits).

use vstd::prelude::*;
use vstd::string::StringExecFns;
use vstd::string::StrSliceExecFns;
use vstd::utf8::is_ascii_chars;
use crate::hex::hex_lower_of;
use crate::hex::hex_lower_str;
use crate::hex::is_hex_digit;
use crate::hex::hex_val;

verus! {

/// A 128-bit identifier.
#[derive(Clone, Copy, PartialEq, Eq, Structural, Debug, Hash)]
pub struct UuidVal {
    pub bits: u128,
}

/// Lowercase hexadecimal digits of `n`, zero-padded to exactly `w`
/// characters, most significant first.
pub open spec fn hexw(n: nat, w: nat) -> Seq<char>
    decreases w,
{
    if w == 0 {
        Seq::empty()
    } else {
        hexw(n / 16, (w - 1) as nat).push(hex_lower_of((n % 16) as int))
    }
}

/// The canonical text form: 32 lowercase hexadecimal digits with
/// hyphens after the 8th, 12th, 16th and 20th.
pub open spec fn uuid_chars(bits: u128) -> Seq<char> {
    let h = hexw(bits as nat, 32);
    h.subrange(0, 8) + seq!['-'] + h.subrange(8, 12) + seq!['-'] + h.subrange(12, 16) + seq!['-']
        + h.subrange(16, 20) + seq!['-'] + h.subrange(20, 32)
}

proof fn lemma_hexw_len_ascii(n: nat, w: nat)
    ensures
        hexw(n, w).len() == w,
        forall|i: int| 0 <= i < w ==> '\0' <= #[trigger] hexw(n, w)[i] <= '\u{7f}',
    decreases w,
{
    if w == 0 {
    } else {
        lemma_hexw_len_ascii(n / 16, (w - 1) as nat);
        assert('\0' <= hex_lower_of((n % 16) as int) <= '\u{7f}');
    }
}

fn u128_hexw(n: u128, w: usize) -> (r: String)
    ensures
        r@ == hexw(n as nat, w as nat),
    decreases w,
{
    if w == 0 {
        String::new()
    } else {
        let mut r = u128_hexw(n / 16, w - 1);
        r.append(hex_lower_str((n % 16) as u8));
        r
    }
}

impl UuidVal {
    pub fn new(bits: u128) -> (r: UuidVal)
        ensures
            r.bits == bits,
    {
        UuidVal { bits }
    }

    /// Canonical hyphenated lowercase rendering.
    pub fn to_text(&self) -> (r: String)
        ensures
            r@ == uuid_chars(self.bits),
    {
        let h = u128_hexw(self.bits, 32);
        proof {
            lemma_hexw_len_ascii(self.bits as nat, 32);
            assert(is_ascii_chars(h@));
        }
        let hs = h.as_str();
        let mut r = String::new();
        r.append(hs.substring_ascii(0, 8));
        r.append("-");
        r.append(hs.substring_ascii(8, 12));
        r.append("-");
        r.append(hs.substring_ascii(12, 16));
        r.append("-");
        r.append(hs.substring_ascii(16, 20));
        r.append("-");
        r.append(hs.substring_ascii(20, 32));
        proof {
            reveal_strlit("-");
            assert("-"@ =~= seq!['-']);
            assert(r@ =~= uuid_chars(self.bits));
        }
        r
    }
}

/// The canonical text is 36 ASCII characters.
pub proof fn lemma_uuid_chars_ascii(bits: u128)
    ensures
        uuid_chars(bits).len() == 36,
        is_ascii_chars(uuid_chars(bits)),
{
    lemma_hexw_len_ascii(bits as nat, 32);
    let h = hexw(bits as nat, 32);
    let u = uuid_chars(bits);
    assert(u.len() == 36);
    assert forall|i: int| 0 <= i < u.len() implies '\0' <= #[trigger] u[i] <= '\u{7f}' by {
        if i < 8 {
            assert(u[i] == h[i]);
        } else if i == 8 {
            assert(u[i] == '-');
        } else if i < 13 {
            assert(u[i] == h[i - 1]);
        } else if i == 13 {
            assert(u[i] == '-');
        } else if i < 18 {
            assert(u[i] == h[i - 2]);
        } else if i == 18 {
            assert(u[i] == '-');
        } else if i < 23 {
            assert(u[i] == h[i - 3]);
        } else if i == 23 {
            assert(u[i] == '-');
        } else {
            assert(u[i] == h[i - 4]);
        }
    }
}

/// Whether `i` is one of the four hyphen positions of the canonical
/// form.
pub open spec fn is_hyphen_pos(i: int) -> bool {
    i == 8 || i == 13 || i == 18 || i == 23
}

/// How many digits stand before position `i` of the canonical form.
pub open spec fn digits_before(i: int) -> int {
    if i <= 8 {
        i
    } else if i <= 13 {
        i - 1
    } else if i <= 18 {
        i - 2
    } else if i <= 23 {
        i - 3
    } else {
        i - 4
    }
}

/// Position of digit number `k` in the canonical form.
pub open spec fn digit_pos(k: int) -> int {
    if k < 8 {
        k
    } else if k < 12 {
        k + 1
    } else if k < 16 {
        k + 2
    } else if k < 20 {
        k + 3
    } else {
        k + 4
    }
}

/// Whether `s` has the canonical shape: 36 characters, hyphens exactly
/// at the four hyphen positions, hexadecimal digits everywhere else.
pub open spec fn uuid_text_wf(s: Seq<char>) -> bool {
    s.len() == 36 && (forall|i: int| 0 <= i < 36 && is_hyphen_pos(i) ==> s[i] == '-') && (forall|
        k: int,
    |
        0 <= k < 32 ==> is_hex_digit(#[trigger] s[digit_pos(k)]))
}

/// The 32 digit characters of a canonical uuid text.
pub open spec fn uuid_digit_seq(s: Seq<char>) -> Seq<char> {
    Seq::new(32, |k: int| s[digit_pos(k)])
}

/// Big-endian base-16 value of a digit string.
pub open spec fn horner16(d: Seq<char>) -> nat
    decreases d.len(),
{
    if d.len() == 0 {
        0
    } else {
        horner16(d.drop_last()) * 16 + hex_val(d.last()) as nat
    }
}

/// The value a canonical uuid text denotes.
pub open spec fn uuid_text_value(s: Seq<char>) -> nat {
    horner16(uuid_digit_seq(s))
}

pub open spec fn pow16(e: nat) -> nat
    decreases e,
{
    if e == 0 {
        1
    } else {
        16 * pow16((e - 1) as nat)
    }
}

proof fn lemma_pow16_pos(e: nat)
    ensures
        pow16(e) >= 1,
    decreases e,
{
    if e > 0 {
        lemma_pow16_pos((e - 1) as nat);
    }
}

proof fn lemma_pow16_mono(a: nat, b: nat)
    requires
        a <= b,
    ensures
        pow16(a) <= pow16(b),
    decreases b,
{
    if a < b {
        lemma_pow16_mono(a, (b - 1) as nat);
        lemma_pow16_pos((b - 1) as nat);
    }
}

proof fn lemma_pow16_32()
    ensures
        pow16(32) == 0x100000000000000000000000000000000,
{
    reveal_with_fuel(pow16, 33);
}

/// Parses the canonical hyphenated form; any other shape is rejected.
#[verifier::rlimit(50)]
pub fn parse_uuid(s: &str) -> (r: Option<UuidVal>)
    ensures
        r is Some <==> uuid_text_wf(s@),
        r matches Some(u) ==> u.bits as nat == uuid_text_value(s@),
{
    let n = s.unicode_len();
    if n != 36 {
        return None;
    }
    let mut acc: u128 = 0;
    let mut k: usize = 0;
    let mut i: usize = 0;
    while i < 36
        invariant
            i <= 36,
            s@.len() == 36,
            k == digits_before(i as int),
            forall|j: int| 0 <= j < i && is_hyphen_pos(j) ==> s@[j] == '-',
            forall|t: int|
                0 <= t < k ==> digit_pos(t) < i && is_hex_digit(#[trigger] s@[digit_pos(t)]),
            acc as nat == horner16(Seq::new(k as nat, |t: int| s@[digit_pos(t)])),
            (acc as nat) < pow16(k as nat),
        decreases 36 - i,
    {
        let c = s.get_char(i);
        if i == 8 || i == 13 || i == 18 || i == 23 {
            if c != '-' {
                proof {
                    assert(is_hyphen_pos(i as int));
                    assert(!uuid_text_wf(s@)) by {
                        if uuid_text_wf(s@) {
                            assert(s@[i as int] == '-');
                        }
                    }
                }
                return None;
            }
        } else {
            let v = crate::hex::hex_val_checked(c);
            match v {
                None => {
                    proof {
                        assert(digit_pos(k as int) == i);
                        assert(!is_hex_digit(s@[digit_pos(k as int)]));
                    }
                    return None;
                },
                Some(hv) => {
                    proof {
                        lemma_pow16_mono((k + 1) as nat, 32);
                        lemma_pow16_32();
                        assert(acc * 16 + 15 < pow16((k + 1) as nat));
                    }
                    acc = acc * 16 + (hv as u128);
                    proof {
                        let d0 = Seq::new(k as nat, |t: int| s@[digit_pos(t)]);
                        let d1 = Seq::new((k + 1) as nat, |t: int| s@[digit_pos(t)]);
                        assert(d1.drop_last() =~= d0);
                        assert(d1.last() == s@[digit_pos(k as int)]);
                        assert(digit_pos(k as int) == i);
                    }
                    k = k + 1;
                },
            }
        }
        i = i + 1;
    }
    proof {
        assert(k == 32);
        assert(Seq::new(32, |t: int| s@[digit_pos(t)]) =~= uuid_digit_seq(s@));
        assert(uuid_text_wf(s@));
    }
    Some(UuidVal { bits: acc })
}

} // verus!
