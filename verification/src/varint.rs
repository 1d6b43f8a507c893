//! Verified base-128 varints, the length and tag encoding of the binary
//! wire format. Least significant seven-bit group first; every group but the
//! last carries the continuation bit.

use vstd::prelude::*;

verus! {

use vstd::arithmetic::div_mod::lemma_fundamental_div_mod;

/// Canonical varint encoding of an unsigned value.
pub open spec fn varint(n: nat) -> Seq<u8>
    decreases n,
{
    if n < 128 {
        seq![n as u8]
    } else {
        seq![(128 + n % 128) as u8] + varint(n / 128)
    }
}

/// Parse of one varint from the front of `s`: the value and what follows.
/// Accepts any terminated varint, canonical or not.
pub open spec fn parse_varint(s: Seq<u8>) -> Option<(nat, Seq<u8>)>
    decreases s.len(),
{
    if s.len() == 0 {
        None
    } else if s[0] < 128 {
        Some((s[0] as nat, s.drop_first()))
    } else {
        match parse_varint(s.drop_first()) {
            Some((v, rest)) => Some((((s[0] - 128) + 128 * v) as nat, rest)),
            None => None,
        }
    }
}

/// Parsing undoes encoding, whatever follows the varint.
pub proof fn lemma_varint_roundtrip(n: nat, rest: Seq<u8>)
    ensures
        parse_varint(varint(n) + rest) == Some((n, rest)),
    decreases n,
{
    if n < 128 {
        assert((varint(n) + rest).drop_first() =~= rest);
    } else {
        let s = varint(n) + rest;
        assert(s[0] == 128 + n % 128);
        assert(s.drop_first() =~= varint(n / 128) + rest);
        lemma_varint_roundtrip(n / 128, rest);
        lemma_fundamental_div_mod(n as int, 128);
    }
}

/// A varint determines its value and is prefix-free: equal streams that
/// begin with varints carry equal values and equal tails.
pub proof fn lemma_varint_prefix_free(a: nat, b: nat, x: Seq<u8>, y: Seq<u8>)
    requires
        varint(a) + x == varint(b) + y,
    ensures
        a == b,
        x == y,
{
    lemma_varint_roundtrip(a, x);
    lemma_varint_roundtrip(b, y);
}

/// What follows a parsed varint is strictly shorter than the input.
pub proof fn lemma_parse_varint_rest_len(s: Seq<u8>)
    ensures
        parse_varint(s) matches Some(p) ==> p.1.len() < s.len(),
    decreases s.len(),
{
    if s.len() > 0 && s[0] >= 128 {
        lemma_parse_varint_rest_len(s.drop_first());
    }
}


/// Canonical varint encoding, appended to `out`.
pub fn varint_write(out: &mut Vec<u8>, n: u64)
    ensures
        final(out)@ == old(out)@ + varint(n as nat),
{
    let mut m: u64 = n;
    while m >= 128
        invariant
            old(out)@ + varint(n as nat) == out@ + varint(m as nat),
        decreases m,
    {
        out.push((m % 128 + 128) as u8);
        proof {
            assert(varint(m as nat) =~= seq![(128 + m as nat % 128) as u8]
                + varint(m as nat / 128));
            assert(out@ + varint(m as nat / 128) =~= out@.drop_last() + varint(m as nat));
        }
        m = m / 128;
    }
    out.push(m as u8);
    proof {
        assert(varint(m as nat) =~= seq![m as u8]);
        assert(out@ =~= old(out)@ + varint(n as nat));
    }
}

/// One varint read from `s` at `pos`: the value and the position after it.
/// Rejects what `parse_varint` rejects, and a value that exceeds `u64`.
pub fn varint_read(s: &[u8], pos: usize) -> (r: Option<(u64, usize)>)
    requires
        pos <= s@.len(),
    ensures
        match r {
            Some(p) => {
                &&& parse_varint(s@.skip(pos as int)) == Some(
                    (p.0 as nat, s@.skip(p.1 as int)),
                )
                &&& pos < p.1 <= s@.len()
            },
            None => match parse_varint(s@.skip(pos as int)) {
                Some(p) => p.0 > u64::MAX,
                None => true,
            },
        },
    decreases s@.len() - pos,
{
    if pos == s.len() {
        return None;
    }
    let b = s[pos];
    proof {
        assert(s@.skip(pos as int)[0] == s@[pos as int]);
    }
    if b < 128 {
        proof {
            assert(s@.skip(pos as int).drop_first() =~= s@.skip(pos + 1));
        }
        Some((b as u64, pos + 1))
    } else {
        let low: u64 = (b - 128) as u64;
        proof {
            assert(s@.skip(pos as int).drop_first() =~= s@.skip(pos + 1));
        }
        match varint_read(s, pos + 1) {
            None => {
                proof {
                    match parse_varint(s@.skip(pos + 1)) {
                        Some(p) => {
                            assert(128 * p.0 >= p.0) by (nonlinear_arith)
                                requires p.0 >= 0;
                        },
                        None => {},
                    }
                }
                None
            },
            Some((v, np)) => {
                if v > (u64::MAX - low) / 128 {
                    proof {
                        let big = low + 128 * (v as int);
                        assert(big > u64::MAX) by (nonlinear_arith)
                            requires
                                v as int > (u64::MAX - low) / 128,
                                0 <= low < 128,
                                big == low + 128 * (v as int),
                                u64::MAX == 0xffff_ffff_ffff_ffff,
                        ;
                    }
                    None
                } else {
                    proof {
                        let val = low + 128 * (v as int);
                        assert(val <= u64::MAX) by (nonlinear_arith)
                            requires
                                0 <= v as int <= (u64::MAX - low) / 128,
                                0 <= low < 128,
                                val == low + 128 * (v as int),
                                u64::MAX == 0xffff_ffff_ffff_ffff,
                        ;
                    }
                    Some((low + 128 * v, np))
                }
            },
        }
    }
}

} // verus!
