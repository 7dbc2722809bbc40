//! Little-endian base-128 variable-length integers, the primitive of the
//! wire format.
//!
//! An encoded integer is a run of bytes whose low seven bits carry the
//! value, least significant group first; the high bit of a byte is set
//! exactly when another byte follows. The codec is canonical: the encoder
//! emits the unique minimal encoding, and the decoder accepts only that
//! encoding.

use vstd::prelude::*;

verus! {

/// The minimal base-128 encoding of `n`.
pub open spec fn varint(n: u64) -> Seq<u8>
    decreases n,
{
    if n < 0x80 {
        seq![n as u8]
    } else {
        seq![((n % 0x80) + 0x80) as u8] + varint(n / 0x80)
    }
}

/// Parse one minimally-encoded varint from the front of `b`: the value
/// and the count of bytes consumed. `None` if `b` does not begin with the
/// minimal encoding of some `u64`.
pub open spec fn parse_varint(b: Seq<u8>) -> Option<(u64, int)>
    decreases b.len(),
{
    if b.len() == 0 {
        None
    } else if b[0] < 0x80 {
        Some((b[0] as u64, 1))
    } else {
        let lo = b[0] - 0x80;
        match parse_varint(b.skip(1)) {
            None => None,
            Some((v, n)) => {
                if v == 0 || lo + 0x80 * v > u64::MAX {
                    None
                } else {
                    Some(((lo + 0x80 * v) as u64, n + 1))
                }
            },
        }
    }
}

/// `0x80^k`, the count of values encodable in `k` bytes.
pub open spec fn pow128(k: nat) -> int
    decreases k,
{
    if k == 0 {
        1
    } else {
        0x80 * pow128((k - 1) as nat)
    }
}

proof fn lemma_varint_len_below(n: u64, k: nat)
    requires
        1 <= k,
        n < pow128(k),
    ensures
        varint(n).len() <= k,
    decreases k,
{
    if n >= 0x80 {
        assert(pow128(k) == 0x80 * pow128((k - 1) as nat));
        assert(n / 0x80 < pow128((k - 1) as nat)) by (nonlinear_arith)
            requires
                n < 0x80 * pow128((k - 1) as nat),
                pow128((k - 1) as nat) >= 1,
        ;
        lemma_varint_len_below(n / 0x80, (k - 1) as nat);
    }
}

/// A varint encoding takes between one and ten bytes.
pub proof fn lemma_varint_len(n: u64)
    ensures
        1 <= varint(n).len() <= 10,
{
    assert(pow128(10) == 0x40_0000_0000_0000_0000) by {
        reveal_with_fuel(pow128, 11);
    }
    lemma_varint_len_below(n, 10);
}

/// Parsing inverts encoding: the front of `varint(n) + rest` parses to
/// `n`, consuming exactly the encoding.
pub proof fn lemma_parse_varint_round_trip(n: u64, rest: Seq<u8>)
    ensures
        parse_varint(varint(n) + rest) == Some((n, varint(n).len() as int)),
    decreases n,
{
    let b = varint(n) + rest;
    if n < 0x80 {
        assert(b[0] == n as u8);
    } else {
        lemma_parse_varint_round_trip(n / 0x80, rest);
        assert(b.skip(1) =~= varint(n / 0x80) + rest);
        assert(b[0] == ((n % 0x80) + 0x80) as u8);
        let lo = b[0] - 0x80;
        let v = n / 0x80;
        assert(v >= 1);
        vstd::arithmetic::div_mod::lemma_fundamental_div_mod(n as int, 0x80);
        assert(lo + 0x80 * v == n);
    }
}

/// Parsing is sound: a successful parse consumed exactly the minimal
/// encoding of the value it returned.
pub proof fn lemma_parse_varint_sound(b: Seq<u8>)
    ensures
        parse_varint(b) matches Some((v, n)) ==> {
            &&& 1 <= n <= b.len()
            &&& b.subrange(0, n) == varint(v)
        },
    decreases b.len(),
{
    if b.len() == 0 {
    } else if b[0] < 0x80 {
        assert(b.subrange(0, 1) =~= seq![b[0]]);
    } else {
        lemma_parse_varint_sound(b.skip(1));
        if parse_varint(b) is Some {
            let (v, n) = parse_varint(b).unwrap();
            let lo = b[0] - 0x80;
            let (v1, n1) = parse_varint(b.skip(1)).unwrap();
            assert(v == lo + 0x80 * v1 && n == n1 + 1);
            assert(v1 >= 1);
            vstd::arithmetic::div_mod::lemma_fundamental_div_mod_converse(
                v as int,
                0x80,
                v1 as int,
                lo as int,
            );
            assert(v as u64 / 0x80 == v1 && v as u64 % 0x80 == lo);
            assert(v >= 0x80);
            assert(b.skip(1).subrange(0, n1) == varint(v1));
            assert(b.subrange(0, n) =~= seq![b[0]] + b.skip(1).subrange(0, n1));
            assert(varint(v as u64) == seq![((v % 0x80) + 0x80) as u8] + varint(v as u64 / 0x80));
        }
    }
}

/// Append the minimal encoding of `n` to `out`.
pub fn encode_varint(n: u64, out: &mut Vec<u8>)
    ensures
        final(out)@ == old(out)@ + varint(n),
    decreases n,
{
    if n < 0x80 {
        out.push(n as u8);
        assert(out@ =~= old(out)@ + varint(n));
    } else {
        out.push(((n % 0x80) + 0x80) as u8);
        encode_varint(n / 0x80, out);
        assert(out@ =~= old(out)@ + varint(n));
    }
}

/// Parse one varint from `buf` at `pos`: the value and the position just
/// past its last byte. `None` when the bytes at `pos` do not begin with a
/// minimal encoding.
pub fn decode_varint(buf: &[u8], pos: usize) -> (r: Option<(u64, usize)>)
    requires
        pos <= buf@.len(),
    ensures
        match r {
            Some(p) => {
                &&& pos < p.1 <= buf@.len()
                &&& parse_varint(buf@.skip(pos as int)) == Some((p.0, p.1 - pos))
            },
            None => parse_varint(buf@.skip(pos as int)) is None,
        },
    decreases buf@.len() - pos,
{
    if pos >= buf.len() {
        return None;
    }
    let b0 = buf[pos];
    if b0 < 0x80 {
        Some((b0 as u64, pos + 1))
    } else {
        let lo = (b0 - 0x80) as u64;
        assert(buf@.skip(pos as int).skip(1) =~= buf@.skip(pos as int + 1));
        match decode_varint(buf, pos + 1) {
            None => None,
            Some((v, end)) => {
                if v == 0 {
                    None
                } else if v > (u64::MAX - lo) / 0x80 {
                    proof {
                        lemma_div_bound_iff(lo, v);
                    }
                    None
                } else {
                    proof {
                        lemma_div_bound_iff(lo, v);
                    }
                    Some((lo + 0x80 * v, end))
                }
            },
        }
    }
}

/// For `lo < 0x80`: the quotient test used by the decoder agrees with the
/// overflow condition of the parser.
proof fn lemma_div_bound_iff(lo: u64, v: u64)
    requires
        lo < 0x80,
    ensures
        v > (u64::MAX - lo) / 0x80 <==> lo + 0x80 * v > u64::MAX,
{
    vstd::arithmetic::div_mod::lemma_fundamental_div_mod((u64::MAX - lo) as int, 0x80);
    assert(v > (u64::MAX - lo) / 0x80 <==> lo + 0x80 * v > u64::MAX) by (nonlinear_arith)
        requires
            lo < 0x80,
            v >= 0,
            (u64::MAX - lo) as int == 0x80 * ((u64::MAX - lo) as int / 0x80) + (u64::MAX
                - lo) as int % 0x80,
            0 <= (u64::MAX - lo) as int % 0x80 < 0x80,
    ;
}

} // verus!
