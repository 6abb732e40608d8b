//! Hexadecimal text codec: bytes are rendered as uppercase two-digit
//! pairs separated by single spaces, and parsed back leniently
//! (spaces are ignored, digits may be upper or lower case).

use vstd::prelude::*;
use vstd::string::StringExecFns;

verus! {

/// The uppercase hexadecimal digit for a value below 16.
pub open spec fn hex_char_of(n: int) -> char {
    if n == 0 {
        '0'
    } else if n == 1 {
        '1'
    } else if n == 2 {
        '2'
    } else if n == 3 {
        '3'
    } else if n == 4 {
        '4'
    } else if n == 5 {
        '5'
    } else if n == 6 {
        '6'
    } else if n == 7 {
        '7'
    } else if n == 8 {
        '8'
    } else if n == 9 {
        '9'
    } else if n == 10 {
        'A'
    } else if n == 11 {
        'B'
    } else if n == 12 {
        'C'
    } else if n == 13 {
        'D'
    } else if n == 14 {
        'E'
    } else {
        'F'
    }
}

pub open spec fn is_hex_digit(c: char) -> bool {
    ('0' as u32 <= c as u32 && c as u32 <= '9' as u32) || ('a' as u32 <= c as u32 && c as u32
        <= 'f' as u32) || ('A' as u32 <= c as u32 && c as u32 <= 'F' as u32)
}

/// Numeric value of a hexadecimal digit.
pub open spec fn hex_val(c: char) -> u8 {
    if '0' as u32 <= c as u32 && c as u32 <= '9' as u32 {
        (c as u32 - '0' as u32) as u8
    } else if 'a' as u32 <= c as u32 && c as u32 <= 'f' as u32 {
        (c as u32 - 'a' as u32 + 10) as u8
    } else if 'A' as u32 <= c as u32 && c as u32 <= 'F' as u32 {
        (c as u32 - 'A' as u32 + 10) as u8
    } else {
        0
    }
}

/// The two hexadecimal digits of one byte.
pub open spec fn byte_hex(b: u8) -> Seq<char> {
    seq![hex_char_of(b as int / 16), hex_char_of(b as int % 16)]
}

/// Space-separated rendering of a byte sequence: "DE AD BE EF".
pub open spec fn hex_str(bytes: Seq<u8>) -> Seq<char>
    decreases bytes.len(),
{
    if bytes.len() == 0 {
        Seq::empty()
    } else if bytes.len() == 1 {
        byte_hex(bytes[0])
    } else {
        byte_hex(bytes[0]) + seq![' '] + hex_str(bytes.drop_first())
    }
}

proof fn lemma_hex_str_push(s: Seq<u8>, b: u8)
    ensures
        hex_str(s.push(b)) == if s.len() == 0 {
            byte_hex(b)
        } else {
            hex_str(s) + seq![' '] + byte_hex(b)
        },
    decreases s.len(),
{
    if s.len() == 0 {
        assert(s.push(b) =~= seq![b]);
    } else {
        assert(s.push(b).drop_first() =~= s.drop_first().push(b));
        lemma_hex_str_push(s.drop_first(), b);
        if s.len() == 1 {
            assert(hex_str(s.push(b)) =~= hex_str(s) + seq![' '] + byte_hex(b));
        } else {
            assert(hex_str(s.push(b)) =~= hex_str(s) + seq![' '] + byte_hex(b));
        }
    }
}

/// The lowercase hexadecimal digit for a value below 16.
pub open spec fn hex_lower_of(n: int) -> char {
    if n == 10 {
        'a'
    } else if n == 11 {
        'b'
    } else if n == 12 {
        'c'
    } else if n == 13 {
        'd'
    } else if n == 14 {
        'e'
    } else if n == 15 {
        'f'
    } else {
        hex_char_of(n)
    }
}

/// One-character string slice holding the lowercase hexadecimal digit
/// for `n`.
pub(crate) fn hex_lower_str(n: u8) -> (s: &'static str)
    requires
        n < 16,
    ensures
        s@ == seq![hex_lower_of(n as int)],
{
    if n < 10 {
        hex_digit_str(n)
    } else {
        let s: &'static str = if n == 10 {
            "a"
        } else if n == 11 {
            "b"
        } else if n == 12 {
            "c"
        } else if n == 13 {
            "d"
        } else if n == 14 {
            "e"
        } else {
            "f"
        };
        proof {
            reveal_strlit("a");
            reveal_strlit("b");
            reveal_strlit("c");
            reveal_strlit("d");
            reveal_strlit("e");
            reveal_strlit("f");
            assert(s@ =~= seq![hex_lower_of(n as int)]);
        }
        s
    }
}

/// One-character string slice holding the hexadecimal digit for `n`.
pub(crate) fn hex_digit_str(n: u8) -> (s: &'static str)
    requires
        n < 16,
    ensures
        s@ == seq![hex_char_of(n as int)],
{
    let s: &'static str = if n == 0 {
        "0"
    } else if n == 1 {
        "1"
    } else if n == 2 {
        "2"
    } else if n == 3 {
        "3"
    } else if n == 4 {
        "4"
    } else if n == 5 {
        "5"
    } else if n == 6 {
        "6"
    } else if n == 7 {
        "7"
    } else if n == 8 {
        "8"
    } else if n == 9 {
        "9"
    } else if n == 10 {
        "A"
    } else if n == 11 {
        "B"
    } else if n == 12 {
        "C"
    } else if n == 13 {
        "D"
    } else if n == 14 {
        "E"
    } else {
        "F"
    };
    proof {
        reveal_strlit("0");
        reveal_strlit("1");
        reveal_strlit("2");
        reveal_strlit("3");
        reveal_strlit("4");
        reveal_strlit("5");
        reveal_strlit("6");
        reveal_strlit("7");
        reveal_strlit("8");
        reveal_strlit("9");
        reveal_strlit("A");
        reveal_strlit("B");
        reveal_strlit("C");
        reveal_strlit("D");
        reveal_strlit("E");
        reveal_strlit("F");
        assert(s@ =~= seq![hex_char_of(n as int)]);
    }
    s
}

/// Renders bytes as uppercase hexadecimal pairs separated by spaces.
pub fn bytes_to_hex(bytes: &Vec<u8>) -> (r: String)
    ensures
        r@ == hex_str(bytes@),
{
    let mut r = String::new();
    let mut i: usize = 0;
    while i < bytes.len()
        invariant
            i <= bytes@.len(),
            r@ == hex_str(bytes@.take(i as int)),
        decreases bytes@.len() - i,
    {
        if i > 0 {
            r.append(" ");
            proof {
                reveal_strlit(" ");
                assert(" "@ =~= seq![' ']);
            }
        }
        let b = bytes[i];
        r.append(hex_digit_str(b / 16));
        r.append(hex_digit_str(b % 16));
        proof {
            lemma_hex_str_push(bytes@.take(i as int), b);
            assert(bytes@.take(i as int).push(b) =~= bytes@.take(i + 1 as int));
            assert(r@ =~= hex_str(bytes@.take(i + 1 as int)));
        }
        i = i + 1;
    }
    proof {
        assert(bytes@.take(bytes@.len() as int) =~= bytes@);
    }
    r
}

/// The input with every space removed.
pub open spec fn strip_spaces(s: Seq<char>) -> Seq<char>
    decreases s.len(),
{
    if s.len() == 0 {
        Seq::empty()
    } else if s[0] == ' ' {
        strip_spaces(s.drop_first())
    } else {
        seq![s[0]] + strip_spaces(s.drop_first())
    }
}

pub open spec fn all_hex_digits(s: Seq<char>) -> bool {
    forall|i: int| 0 <= i < s.len() ==> is_hex_digit(s[i])
}

/// Bytes of consecutive digit pairs; a dangling last digit is dropped.
pub open spec fn pairs_to_bytes(s: Seq<char>) -> Seq<u8>
    decreases s.len(),
{
    if s.len() < 2 {
        Seq::empty()
    } else {
        seq![(hex_val(s[0]) * 16 + hex_val(s[1])) as u8] + pairs_to_bytes(s.skip(2))
    }
}

/// What hexadecimal parsing returns: the byte sequence when every
/// non-space character is a digit and the digit count is even,
/// nothing otherwise.
pub open spec fn parse_hex_spec(s: Seq<char>) -> Option<Seq<u8>> {
    if all_hex_digits(strip_spaces(s)) && strip_spaces(s).len() % 2 == 0 {
        Some(pairs_to_bytes(strip_spaces(s)))
    } else {
        None
    }
}

/// Index of the first character that is neither a space nor a
/// hexadecimal digit, or -1 when there is none.
pub open spec fn first_non_hex(s: Seq<char>) -> int
    decreases s.len(),
{
    if s.len() == 0 {
        -1
    } else if s[0] != ' ' && !is_hex_digit(s[0]) {
        0
    } else {
        let r = first_non_hex(s.drop_first());
        if r == -1 {
            -1
        } else {
            r + 1
        }
    }
}

/// Index of the last non-space character, or -1 when there is none.
pub open spec fn last_non_space(s: Seq<char>) -> int
    decreases s.len(),
{
    if s.len() == 0 {
        -1
    } else if s.last() != ' ' {
        s.len() - 1
    } else {
        last_non_space(s.drop_last())
    }
}

proof fn lemma_strip_spaces_push(s: Seq<char>, c: char)
    ensures
        strip_spaces(s.push(c)) == if c == ' ' {
            strip_spaces(s)
        } else {
            strip_spaces(s).push(c)
        },
    decreases s.len(),
{
    assert(strip_spaces(Seq::<char>::empty()) =~= Seq::<char>::empty());
    if s.len() == 0 {
        assert(s.push(c) =~= seq![c]);
        assert(seq![c].drop_first() =~= Seq::<char>::empty());
        if c == ' ' {
        } else {
            assert(strip_spaces(seq![c]) =~= strip_spaces(s).push(c));
        }
    } else {
        assert(s.push(c).drop_first() =~= s.drop_first().push(c));
        lemma_strip_spaces_push(s.drop_first(), c);
        if c == ' ' {
        } else {
            assert(strip_spaces(s.push(c)) =~= strip_spaces(s).push(c));
        }
    }
}

proof fn lemma_first_non_hex_range(s: Seq<char>)
    ensures
        -1 <= first_non_hex(s) < s.len(),
    decreases s.len(),
{
    if s.len() == 0 {
    } else {
        lemma_first_non_hex_range(s.drop_first());
    }
}

proof fn lemma_first_non_hex_push(s: Seq<char>, c: char)
    ensures
        first_non_hex(s.push(c)) == if first_non_hex(s) != -1 {
            first_non_hex(s)
        } else if c != ' ' && !is_hex_digit(c) {
            s.len() as int
        } else {
            -1
        },
    decreases s.len(),
{
    assert(first_non_hex(Seq::<char>::empty()) == -1);
    if s.len() == 0 {
        assert(s =~= Seq::<char>::empty());
        assert(s.push(c) =~= seq![c]);
        assert(seq![c].drop_first() =~= Seq::<char>::empty());
        assert(first_non_hex(s.push(c)) == if first_non_hex(s) != -1 {
            first_non_hex(s)
        } else if c != ' ' && !is_hex_digit(c) {
            s.len() as int
        } else {
            -1int
        });
    } else {
        assert(s.push(c)[0] == s[0]);
        assert(s.push(c).drop_first() =~= s.drop_first().push(c));
        lemma_first_non_hex_push(s.drop_first(), c);
        lemma_first_non_hex_range(s.drop_first());
        if s[0] != ' ' && !is_hex_digit(s[0]) {
            assert(first_non_hex(s.push(c)) == 0);
            assert(first_non_hex(s) == 0);
        } else {
            let r = first_non_hex(s.drop_first().push(c));
            assert(first_non_hex(s.push(c)) == if r == -1 {
                -1int
            } else {
                r + 1
            });
            let q = first_non_hex(s.drop_first());
            assert(first_non_hex(s) == if q == -1 {
                -1int
            } else {
                q + 1
            });
        }
        if first_non_hex(s) != -1 {
            assert(first_non_hex(s.push(c)) == first_non_hex(s));
        } else if c != ' ' && !is_hex_digit(c) {
            assert(!(s[0] != ' ' && !is_hex_digit(s[0])));
            assert(first_non_hex(s.drop_first()) == -1);
            assert(first_non_hex(s.drop_first().push(c)) == s.drop_first().len() as int);
            assert(s.drop_first().len() as int == s.len() as int - 1);
            assert(first_non_hex(s.push(c)) == s.len() as int);
        } else {
            assert(first_non_hex(s.push(c)) == -1);
        }
    }
}

proof fn lemma_pairs_to_bytes_push(s: Seq<char>, c: char)
    ensures
        s.len() % 2 == 0 ==> pairs_to_bytes(s.push(c)) == pairs_to_bytes(s),
        s.len() % 2 == 1 ==> pairs_to_bytes(s.push(c)) == pairs_to_bytes(s).push(
            (hex_val(s.last()) * 16 + hex_val(c)) as u8,
        ),
    decreases s.len(),
{
    if s.len() == 0 {
        assert(s.push(c) =~= seq![c]);
    } else if s.len() == 1 {
        assert(s.push(c) =~= seq![s[0], c]);
        assert(pairs_to_bytes(seq![s[0], c]).len() == 1 + pairs_to_bytes(
            seq![s[0], c].skip(2),
        ).len());
        assert(seq![s[0], c].skip(2) =~= Seq::<char>::empty());
        assert(pairs_to_bytes(s.push(c)) =~= pairs_to_bytes(s).push(
            (hex_val(s.last()) * 16 + hex_val(c)) as u8,
        ));
    } else {
        assert(s.push(c).skip(2) =~= s.skip(2).push(c));
        lemma_pairs_to_bytes_push(s.skip(2), c);
        if s.len() % 2 == 0 {
            assert(pairs_to_bytes(s.push(c)) =~= pairs_to_bytes(s));
        } else {
            assert(s.skip(2).last() == s.last());
            assert(pairs_to_bytes(s.push(c)) =~= pairs_to_bytes(s).push(
                (hex_val(s.last()) * 16 + hex_val(c)) as u8,
            ));
        }
    }
}

proof fn lemma_first_non_hex_prefix(a: Seq<char>, b: Seq<char>)
    requires
        first_non_hex(a) >= 0,
    ensures
        first_non_hex(a + b) == first_non_hex(a),
    decreases a.len(),
{
    assert((a + b).drop_first() =~= a.drop_first() + b);
    if a[0] != ' ' && !is_hex_digit(a[0]) {
        assert((a + b)[0] == a[0]);
    } else {
        lemma_first_non_hex_prefix(a.drop_first(), b);
    }
}

proof fn lemma_bad_char_not_all_hex(s: Seq<char>)
    requires
        first_non_hex(s) >= 0,
    ensures
        !all_hex_digits(strip_spaces(s)),
    decreases s.len(),
{
    if s[0] != ' ' && !is_hex_digit(s[0]) {
        assert(strip_spaces(s) =~= seq![s[0]] + strip_spaces(s.drop_first()));
        assert(strip_spaces(s)[0] == s[0]);
        assert(!is_hex_digit(strip_spaces(s)[0]));
    } else if s[0] == ' ' {
        lemma_bad_char_not_all_hex(s.drop_first());
    } else {
        lemma_bad_char_not_all_hex(s.drop_first());
        let t = strip_spaces(s.drop_first());
        let j = choose|j: int| 0 <= j < t.len() && !is_hex_digit(t[j]);
        assert(strip_spaces(s) =~= seq![s[0]] + t);
        assert(strip_spaces(s)[j + 1] == t[j]);
        assert(!is_hex_digit(strip_spaces(s)[j + 1]));
    }
}

fn is_hex_digit_exec(c: char) -> (r: bool)
    ensures
        r == is_hex_digit(c),
{
    let v = c as u32;
    ('0' as u32 <= v && v <= '9' as u32) || ('a' as u32 <= v && v <= 'f' as u32) || ('A' as u32 <= v
        && v <= 'F' as u32)
}

fn hex_val_exec(c: char) -> (r: u8)
    requires
        is_hex_digit(c),
    ensures
        r == hex_val(c),
        r < 16,
{
    let v = c as u32;
    if '0' as u32 <= v && v <= '9' as u32 {
        (v - '0' as u32) as u8
    } else if 'a' as u32 <= v && v <= 'f' as u32 {
        (v - 'a' as u32 + 10) as u8
    } else {
        (v - 'A' as u32 + 10) as u8
    }
}

/// The digit's value when `c` is a hexadecimal digit.
pub(crate) fn hex_val_checked(c: char) -> (r: Option<u8>)
    ensures
        r is Some <==> is_hex_digit(c),
        r matches Some(v) ==> v == hex_val(c) && v < 16,
{
    if is_hex_digit_exec(c) {
        Some(hex_val_exec(c))
    } else {
        None
    }
}

/// Parses space-tolerant hexadecimal pairs. On failure the error
/// carries the character position: of the first offending character,
/// or of the dangling digit when the digit count is odd.
pub fn parse_hex(s: &str) -> (r: Result<Vec<u8>, usize>)
    ensures
        r is Ok <==> parse_hex_spec(s@) is Some,
        r matches Ok(v) ==> Some(v@) == parse_hex_spec(s@),
        r matches Err(pos) ==> if first_non_hex(s@) >= 0 {
            pos == first_non_hex(s@)
        } else {
            pos == last_non_space(s@)
        },
{
    let n = s.unicode_len();
    let mut out: Vec<u8> = Vec::new();
    let mut pending: Option<u8> = None;
    let mut pending_pos: usize = 0;
    let mut i: usize = 0;
    while i < n
        invariant
            i <= n,
            n == s@.len(),
            first_non_hex(s@.take(i as int)) == -1,
            all_hex_digits(strip_spaces(s@.take(i as int))),
            out@ == pairs_to_bytes(strip_spaces(s@.take(i as int))),
            pending is Some <==> strip_spaces(s@.take(i as int)).len() % 2 == 1,
            pending matches Some(h) ==> h == hex_val(strip_spaces(s@.take(i as int)).last()) && h
                < 16 && pending_pos == last_non_space(s@.take(i as int)) && pending_pos < i,
        decreases n - i,
    {
        let c = s.get_char(i);
        proof {
            assert(s@.take(i + 1 as int).drop_last() =~= s@.take(i as int));
            assert(s@.take(i + 1 as int).last() == s@[i as int]);
            lemma_strip_spaces_push(s@.take(i as int), c);
            lemma_first_non_hex_push(s@.take(i as int), c);
            lemma_pairs_to_bytes_push(strip_spaces(s@.take(i as int)), c);
            assert(s@.take(i as int).push(c) =~= s@.take(i + 1 as int));
        }
        if c == ' ' {
            // spaces are skipped wherever they stand
        } else if !is_hex_digit_exec(c) {
            proof {
                assert(first_non_hex(s@.take(i + 1 as int)) == i);
                assert(s@ =~= s@.take(i + 1 as int) + s@.skip(i + 1 as int));
                lemma_first_non_hex_prefix(s@.take(i + 1 as int), s@.skip(i + 1 as int));
                lemma_bad_char_not_all_hex(s@);
            }
            return Err(i);
        } else {
            let v = hex_val_exec(c);
            match pending {
                None => {
                    pending = Some(v);
                    pending_pos = i;
                },
                Some(h) => {
                    out.push(h * 16 + v);
                    pending = None;
                },
            }
        }
        i = i + 1;
    }
    proof {
        assert(s@.take(n as int) =~= s@);
    }
    match pending {
        None => Ok(out),
        Some(_) => Err(pending_pos),
    }
}

proof fn lemma_strip_spaces_concat(a: Seq<char>, b: Seq<char>)
    ensures
        strip_spaces(a + b) == strip_spaces(a) + strip_spaces(b),
    decreases a.len(),
{
    if a.len() == 0 {
        assert(a + b =~= b);
        assert(strip_spaces(a) + strip_spaces(b) =~= strip_spaces(b));
    } else {
        assert((a + b).drop_first() =~= a.drop_first() + b);
        lemma_strip_spaces_concat(a.drop_first(), b);
        if a[0] == ' ' {
        } else {
            assert(seq![a[0]] + (strip_spaces(a.drop_first()) + strip_spaces(b)) =~= (seq![a[0]]
                + strip_spaces(a.drop_first())) + strip_spaces(b));
        }
    }
}

proof fn lemma_strip_no_spaces(s: Seq<char>)
    requires
        forall|i: int| 0 <= i < s.len() ==> s[i] != ' ',
    ensures
        strip_spaces(s) == s,
    decreases s.len(),
{
    if s.len() == 0 {
        assert(strip_spaces(s) =~= s);
    } else {
        lemma_strip_no_spaces(s.drop_first());
        assert(strip_spaces(s) =~= seq![s[0]] + s.drop_first());
        assert(strip_spaces(s) =~= s);
    }
}

proof fn lemma_byte_hex_no_spaces(b: u8)
    ensures
        byte_hex(b)[0] != ' ',
        byte_hex(b)[1] != ' ',
        is_hex_digit(byte_hex(b)[0]),
        is_hex_digit(byte_hex(b)[1]),
{
    lemma_hex_char_val(b as int / 16);
    lemma_hex_char_val(b as int % 16);
    assert(hex_char_of(b as int / 16) != ' ');
    assert(hex_char_of(b as int % 16) != ' ');
}

proof fn lemma_strip_hex_str(bytes: Seq<u8>)
    ensures
        strip_spaces(hex_str(bytes)) == flat_digits(bytes),
    decreases bytes.len(),
{
    if bytes.len() == 0 {
        assert(strip_spaces(hex_str(bytes)) =~= flat_digits(bytes));
    } else if bytes.len() == 1 {
        assert(hex_str(bytes) =~= byte_hex(bytes[0]));
        lemma_byte_hex_no_spaces(bytes[0]);
        lemma_strip_no_spaces(byte_hex(bytes[0]));
        assert(flat_digits(bytes.drop_first()) =~= Seq::<char>::empty());
        assert(strip_spaces(hex_str(bytes)) =~= flat_digits(bytes));
    } else {
        lemma_strip_hex_str(bytes.drop_first());
        lemma_strip_spaces_concat(byte_hex(bytes[0]) + seq![' '], hex_str(bytes.drop_first()));
        assert(hex_str(bytes) =~= (byte_hex(bytes[0]) + seq![' ']) + hex_str(bytes.drop_first()));
        lemma_byte_hex_no_spaces(bytes[0]);
        assert((byte_hex(bytes[0]) + seq![' ']).drop_first() =~= seq![byte_hex(bytes[0])[1], ' ']);
        assert(seq![byte_hex(bytes[0])[1], ' '].drop_first() =~= seq![' ']);
        assert(seq![' '].drop_first() =~= Seq::<char>::empty());
        assert(strip_spaces(Seq::<char>::empty()) =~= Seq::<char>::empty());
        assert(strip_spaces(seq![' ']) =~= Seq::<char>::empty());
        assert(strip_spaces(seq![byte_hex(bytes[0])[1], ' ']) =~= seq![byte_hex(bytes[0])[1]]);
        assert(strip_spaces(byte_hex(bytes[0]) + seq![' ']) =~= byte_hex(bytes[0]));
        assert(strip_spaces(hex_str(bytes)) =~= flat_digits(bytes));
    }
}

/// The digits of `hex_str` without the separating spaces.
pub open spec fn flat_digits(bytes: Seq<u8>) -> Seq<char>
    decreases bytes.len(),
{
    if bytes.len() == 0 {
        Seq::empty()
    } else {
        byte_hex(bytes[0]) + flat_digits(bytes.drop_first())
    }
}

proof fn lemma_hex_char_val(n: int)
    requires
        0 <= n < 16,
    ensures
        is_hex_digit(hex_char_of(n)),
        hex_val(hex_char_of(n)) == n,
{
}

proof fn lemma_flat_digits_parse(bytes: Seq<u8>)
    ensures
        flat_digits(bytes).len() == 2 * bytes.len(),
        all_hex_digits(flat_digits(bytes)),
        pairs_to_bytes(flat_digits(bytes)) == bytes,
    decreases bytes.len(),
{
    if bytes.len() == 0 {
        assert(pairs_to_bytes(flat_digits(bytes)) =~= bytes);
    } else {
        lemma_flat_digits_parse(bytes.drop_first());
        let b = bytes[0];
        lemma_hex_char_val(b as int / 16);
        lemma_hex_char_val(b as int % 16);
        let f = flat_digits(bytes);
        assert(f[0] == hex_char_of(b as int / 16));
        assert(f[1] == hex_char_of(b as int % 16));
        assert forall|i: int| 0 <= i < f.len() implies is_hex_digit(f[i]) by {
            if i >= 2 {
                assert(f[i] == flat_digits(bytes.drop_first())[i - 2]);
            }
        }
        assert(f.skip(2) =~= flat_digits(bytes.drop_first()));
        assert(hex_val(f[0]) * 16 + hex_val(f[1]) == b);
        assert(pairs_to_bytes(f) =~= bytes);
    }
}

/// Round trip: parsing the rendering of any byte sequence gives the
/// bytes back.
pub proof fn lemma_hex_round_trip(bytes: Seq<u8>)
    ensures
        parse_hex_spec(hex_str(bytes)) == Some(bytes),
{
    lemma_strip_hex_str(bytes);
    lemma_flat_digits_parse(bytes);
}

} // verus!
