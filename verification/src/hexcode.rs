//! Verified hexadecimal encoding and decoding of byte strings.
//!
//! Encoding is lowercase, two digits per byte, high nibble first. Decoding
//! accepts both digit cases and fails on odd length or a non-digit.

use vstd::prelude::*;

verus! {

/// The lowercase hexadecimal digit character of a nibble value.
pub open spec fn hex_digit_char(n: int) -> char
    recommends
        0 <= n < 16,
{
    if n == 0 {
        '0'
    } else if n == 1 {
        '1'
    } else if n == 2 {
        '2'
    } else if n == 3 {
        '3'
    } else if n == 4 {
        '4'
    } else if n == 5 {
        '5'
    } else if n == 6 {
        '6'
    } else if n == 7 {
        '7'
    } else if n == 8 {
        '8'
    } else if n == 9 {
        '9'
    } else if n == 10 {
        'a'
    } else if n == 11 {
        'b'
    } else if n == 12 {
        'c'
    } else if n == 13 {
        'd'
    } else if n == 14 {
        'e'
    } else {
        'f'
    }
}

/// Numeric value of a hexadecimal digit character, either case; 16 marks a
/// character that is no hexadecimal digit.
pub open spec fn hex_char_val(c: char) -> int {
    if c == '0' {
        0
    } else if c == '1' {
        1
    } else if c == '2' {
        2
    } else if c == '3' {
        3
    } else if c == '4' {
        4
    } else if c == '5' {
        5
    } else if c == '6' {
        6
    } else if c == '7' {
        7
    } else if c == '8' {
        8
    } else if c == '9' {
        9
    } else if c == 'a' || c == 'A' {
        10
    } else if c == 'b' || c == 'B' {
        11
    } else if c == 'c' || c == 'C' {
        12
    } else if c == 'd' || c == 'D' {
        13
    } else if c == 'e' || c == 'E' {
        14
    } else if c == 'f' || c == 'F' {
        15
    } else {
        16
    }
}

pub open spec fn is_hex_char(c: char) -> bool {
    hex_char_val(c) < 16
}

/// Lowercase hexadecimal spelling of a byte sequence.
pub open spec fn hex_of(b: Seq<u8>) -> Seq<char>
    decreases b.len(),
{
    if b.len() == 0 {
        Seq::empty()
    } else {
        seq![
            hex_digit_char(b[0] as int / 16),
            hex_digit_char(b[0] as int % 16),
        ] + hex_of(b.drop_first())
    }
}

/// The bytes a character sequence spells in hexadecimal, if it does: the
/// length must be even and every character a digit of either case.
pub open spec fn unhex(s: Seq<char>) -> Option<Seq<u8>>
    decreases s.len(),
{
    if s.len() == 0 {
        Some(Seq::empty())
    } else if s.len() == 1 {
        None
    } else if !is_hex_char(s[0]) || !is_hex_char(s[1]) {
        None
    } else {
        match unhex(s.skip(2)) {
            Some(rest) => Some(
                seq![(hex_char_val(s[0]) * 16 + hex_char_val(s[1])) as u8] + rest,
            ),
            None => None,
        }
    }
}

/// Every emitted digit is a lowercase hexadecimal digit with the nibble's
/// value.
pub proof fn lemma_hex_digit_char(n: int)
    requires
        0 <= n < 16,
    ensures
        is_hex_char(hex_digit_char(n)),
        hex_char_val(hex_digit_char(n)) == n,
{
}

/// Hex spelling distributes over concatenation.
pub proof fn lemma_hex_of_concat(a: Seq<u8>, b: Seq<u8>)
    ensures
        hex_of(a + b) == hex_of(a) + hex_of(b),
    decreases a.len(),
{
    if a.len() == 0 {
        assert(a + b =~= b);
        assert(hex_of(a) + hex_of(b) =~= hex_of(b));
    } else {
        lemma_hex_of_concat(a.drop_first(), b);
        assert((a + b).drop_first() =~= a.drop_first() + b);
        assert(hex_of(a + b) =~= hex_of(a) + hex_of(b));
    }
}

pub proof fn lemma_hex_of_len(b: Seq<u8>)
    ensures
        hex_of(b).len() == 2 * b.len(),
    decreases b.len(),
{
    if b.len() > 0 {
        lemma_hex_of_len(b.drop_first());
    }
}

/// Hex spelling of a single byte: exactly its two digits.
pub proof fn lemma_hex_of_singleton(x: u8)
    ensures
        hex_of(seq![x]) == seq![
            hex_digit_char(x as int / 16),
            hex_digit_char(x as int % 16),
        ],
{
    assert(seq![x].drop_first() =~= Seq::<u8>::empty());
    assert(hex_of(Seq::<u8>::empty()) == Seq::<char>::empty());
    assert(hex_of(seq![x]) =~= seq![
        hex_digit_char(x as int / 16),
        hex_digit_char(x as int % 16),
    ]);
}

/// Decoding recovers exactly the bytes that were encoded.
pub proof fn lemma_hex_roundtrip(b: Seq<u8>)
    ensures
        unhex(hex_of(b)) == Some(b),
    decreases b.len(),
{
    if b.len() == 0 {
        assert(unhex(hex_of(b)) == Some(Seq::<u8>::empty()));
        assert(Seq::<u8>::empty() =~= b);
    } else {
        let s = hex_of(b);
        lemma_hex_of_len(b.drop_first());
        lemma_hex_digit_char(b[0] as int / 16);
        lemma_hex_digit_char(b[0] as int % 16);
        assert(s.skip(2) =~= hex_of(b.drop_first()));
        lemma_hex_roundtrip(b.drop_first());
        assert(hex_char_val(s[0]) * 16 + hex_char_val(s[1]) == b[0] as int);
        assert(unhex(s).unwrap() =~= b);
    }
}

/// Hex spelling is injective.
pub proof fn lemma_hex_of_injective(a: Seq<u8>, b: Seq<u8>)
    requires
        hex_of(a) == hex_of(b),
    ensures
        a == b,
{
    lemma_hex_roundtrip(a);
    lemma_hex_roundtrip(b);
}

/// The lowercase hexadecimal digit character of a nibble value.
pub(crate) fn hex_digit(n: u8) -> (c: char)
    requires
        n < 16,
    ensures
        c == hex_digit_char(n as int),
{
    match n {
        0 => '0',
        1 => '1',
        2 => '2',
        3 => '3',
        4 => '4',
        5 => '5',
        6 => '6',
        7 => '7',
        8 => '8',
        9 => '9',
        10 => 'a',
        11 => 'b',
        12 => 'c',
        13 => 'd',
        14 => 'e',
        _ => 'f',
    }
}

/// Numeric value of a hexadecimal digit character; 16 for a non-digit.
pub(crate) fn hex_val(c: char) -> (r: u8)
    ensures
        r == hex_char_val(c),
{
    match c {
        '0' => 0,
        '1' => 1,
        '2' => 2,
        '3' => 3,
        '4' => 4,
        '5' => 5,
        '6' => 6,
        '7' => 7,
        '8' => 8,
        '9' => 9,
        'a' | 'A' => 10,
        'b' | 'B' => 11,
        'c' | 'C' => 12,
        'd' | 'D' => 13,
        'e' | 'E' => 14,
        'f' | 'F' => 15,
        _ => 16,
    }
}

/// Hex spelling of the bytes, appended to `out` as characters.
pub fn hex_encode_chars(b: &[u8], out: &mut Vec<char>)
    ensures
        final(out)@ == old(out)@ + hex_of(b@),
{
    let n: usize = b.len();
    let mut i: usize = 0;
    while i < n
        invariant
            i <= n,
            n == b@.len(),
            out@ == old(out)@ + hex_of(b@.subrange(0, i as int)),
        decreases n - i,
    {
        let byte = b[i];
        out.push(hex_digit(byte / 16));
        out.push(hex_digit(byte % 16));
        proof {
            let pre = b@.subrange(0, i as int);
            let cur = b@.subrange(i as int, i + 1);
            assert(cur =~= seq![b@[i as int]]);
            assert(b@.subrange(0, i + 1) =~= pre + cur);
            lemma_hex_of_concat(pre, cur);
            lemma_hex_of_singleton(b@[i as int]);
            assert(out@ =~= old(out)@ + hex_of(b@.subrange(0, i + 1)));
        }
        i += 1;
    }
    proof {
        assert(b@.subrange(0, n as int) =~= b@);
    }
}

/// Lowercase hex spelling of the bytes, as a string.
pub fn hex_encode(b: &[u8]) -> (r: String)
    ensures
        r@ == hex_of(b@),
{
    let mut cs: Vec<char> = Vec::new();
    hex_encode_chars(b, &mut cs);
    crate::textutil::chars_to_string(&cs)
}

/// The bytes a character sequence spells in hexadecimal, if it does.
pub fn hex_decode_chars(s: &Vec<char>) -> (r: Option<Vec<u8>>)
    ensures
        match r {
            Some(v) => unhex(s@) == Some(v@),
            None => unhex(s@) is None,
        },
{
    let n: usize = s.len();
    let mut acc: Vec<u8> = Vec::new();
    let mut i: usize = 0;
    proof {
        assert(s@.skip(0) =~= s@);
        match unhex(s@) {
            Some(t) => {
                assert(Seq::<u8>::empty() + t =~= t);
            },
            None => {},
        }
    }
    while i + 1 < n
        invariant
            i <= n,
            i % 2 == 0,
            n == s@.len(),
            match unhex(s@.skip(i as int)) {
                Some(t) => unhex(s@) == Some(acc@ + t),
                None => unhex(s@) is None,
            },
        decreases n - i,
    {
        let hi = hex_val(s[i]);
        let lo = hex_val(s[i + 1]);
        if hi == 16 || lo == 16 {
            proof {
                assert(unhex(s@.skip(i as int)) is None);
            }
            return None;
        }
        acc.push(hi * 16 + lo);
        proof {
            let rest = s@.skip(i as int);
            assert(rest.skip(2) =~= s@.skip(i + 2));
            match unhex(s@.skip(i + 2)) {
                Some(t) => {
                    assert(unhex(rest) == Some(
                        seq![(hex_char_val(rest[0]) * 16 + hex_char_val(rest[1])) as u8] + t,
                    ));
                    assert(acc@ + t =~= acc@.drop_last() + (seq![
                        (hex_char_val(rest[0]) * 16 + hex_char_val(rest[1])) as u8,
                    ] + t));
                },
                None => {
                    assert(unhex(rest) is None);
                },
            }
        }
        i += 2;
    }
    if i < n {
        proof {
            assert(s@.skip(i as int).len() == 1);
            assert(unhex(s@.skip(i as int)) is None);
        }
        return None;
    }
    proof {
        assert(s@.skip(i as int) =~= Seq::<char>::empty());
        assert(unhex(s@.skip(i as int)) == Some(Seq::<u8>::empty()));
        assert(acc@ + Seq::<u8>::empty() =~= acc@);
    }
    Some(acc)
}

/// The bytes a string spells in hexadecimal, if it does.
pub fn hex_decode(s: &str) -> (r: Option<Vec<u8>>)
    ensures
        match r {
            Some(v) => unhex(s@) == Some(v@),
            None => unhex(s@) is None,
        },
{
    let cs = crate::textutil::str_chars(s);
    hex_decode_chars(&cs)
}

} // verus!
