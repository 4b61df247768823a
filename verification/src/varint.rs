use crate::errors::DecodeError;
use vstd::prelude::*;

verus! {

/// 128 raised to the power `k`.
pub open spec fn pow128(k: nat) -> nat
    decreases k,
{
    if k == 0 {
        1
    } else {
        128 * pow128((k - 1) as nat)
    }
}

/// Core of varint decoding. `k` bytes have been consumed so far, all with
/// their continuation bit set, and `acc` holds their payload bits. Each of
/// the first 8 bytes contributes 7 bits; a 9th byte, if reached, contributes
/// all 8 of its bits and terminates unconditionally. `None` means the buffer
/// ends before the termination rule is met.
pub open spec fn varint_rec(s: Seq<u8>, pos: int, k: nat, acc: nat) -> Option<(nat, nat)>
    decreases 8 - k,
{
    if !(0 <= pos < s.len()) {
        None
    } else if k >= 8 {
        Some(((acc * 256 + s[pos]) as nat, 9))
    } else if s[pos] < 128 {
        Some(((acc * 128 + s[pos]) as nat, (k + 1) as nat))
    } else {
        varint_rec(s, pos + 1, (k + 1) as nat, (acc * 128 + (s[pos] - 128)) as nat)
    }
}

/// The value and byte length of the varint starting at `pos`, or `None` when
/// fewer bytes remain than the termination rule requires.
pub open spec fn varint_at(s: Seq<u8>, pos: int) -> Option<(nat, nat)> {
    varint_rec(s, pos, 0, 0)
}

pub proof fn lemma_pow128_monotone(a: nat, b: nat)
    requires
        a <= b,
    ensures
        pow128(a) <= pow128(b),
    decreases b,
{
    if a < b {
        lemma_pow128_monotone(a, (b - 1) as nat);
    }
}

/// A decoded varint value always fits in 64 bits, its length lies in
/// `(k, 9]`, and all its bytes lie inside the buffer.
pub proof fn lemma_varint_rec_bound(s: Seq<u8>, pos: int, k: nat, acc: nat)
    requires
        k <= 8,
        acc < pow128(k),
    ensures
        varint_rec(s, pos, k, acc) matches Some(r) ==> {
            &&& r.0 < pow128(8) * 256
            &&& k < r.1 <= 9
            &&& pos + (r.1 - k) <= s.len()
        },
    decreases 8 - k,
{
    if 0 <= pos < s.len() && k < 8 && s[pos] >= 128 {
        lemma_pow128_monotone((k + 1) as nat, 8);
        lemma_varint_rec_bound(s, pos + 1, (k + 1) as nat, (acc * 128 + (s[pos] - 128)) as nat);
    }
    if 0 <= pos < s.len() && k < 8 && s[pos] < 128 {
        lemma_pow128_monotone((k + 1) as nat, 8);
    }
}

/// The varint value at `pos` fits in a `u64` and its bytes lie inside the
/// buffer.
pub proof fn lemma_varint_at_bound(s: Seq<u8>, pos: int)
    ensures
        varint_at(s, pos) matches Some(r) ==> {
            &&& r.0 < 0x1_0000_0000_0000_0000
            &&& 1 <= r.1 <= 9
            &&& pos + r.1 <= s.len()
        },
{
    lemma_varint_rec_bound(s, pos, 0, 0);
    assert(pow128(8) == 0x100_0000_0000_0000) by {
        reveal_with_fuel(pow128, 9);
    }
}

/// The byte length of the minimal varint encoding of `v`: the number of
/// 7-bit groups `v` needs, except that a value needing more than 8 groups
/// takes the 9-byte form.
pub open spec fn varint_len_of(v: nat) -> nat {
    if v < pow128(1) {
        1
    } else if v < pow128(2) {
        2
    } else if v < pow128(3) {
        3
    } else if v < pow128(4) {
        4
    } else if v < pow128(5) {
        5
    } else if v < pow128(6) {
        6
    } else if v < pow128(7) {
        7
    } else if v < pow128(8) {
        8
    } else {
        9
    }
}

pub proof fn lemma_pow128_values()
    ensures
        pow128(1) == 0x80,
        pow128(2) == 0x4000,
        pow128(3) == 0x20_0000,
        pow128(4) == 0x1000_0000,
        pow128(5) == 0x8_0000_0000,
        pow128(6) == 0x400_0000_0000,
        pow128(7) == 0x2_0000_0000_0000,
        pow128(8) == 0x100_0000_0000_0000,
{
    reveal_with_fuel(pow128, 9);
}

/// Decodes the varint starting at `cursor` and returns its value together
/// with its length in bytes. The length always lies in `[1, 9]`, and it is 9
/// exactly when all of the first 8 bytes have their continuation bit set.
/// Fails with `OutOfBounds` when fewer bytes remain in the buffer than are
/// required to reach the termination rule.
pub fn varint_parser(bytes: &[u8], cursor: usize) -> (r: Result<(u64, usize), DecodeError>)
    ensures
        match r {
            Ok(res) => {
                &&& varint_at(bytes@, cursor as int) == Some((res.0 as nat, res.1 as nat))
                &&& 1 <= res.1 <= 9
                &&& cursor + res.1 <= bytes@.len()
                &&& (res.1 == 9 <==> (forall|j: int|
                    cursor <= j < cursor + 8 ==> bytes@[j] >= 128))
            },
            Err(e) => {
                &&& e == DecodeError::OutOfBounds
                &&& varint_at(bytes@, cursor as int) is None
            },
        },
{
    let n = bytes.len();
    if cursor >= n {
        return Err(DecodeError::OutOfBounds);
    }
    let mut val: u64 = 0;
    let mut i: usize = 0;
    while i < 8
        invariant
            i <= 8,
            cursor < n,
            cursor + i <= n,
            n == bytes@.len(),
            val < pow128(i as nat),
            varint_at(bytes@, cursor as int) == varint_rec(
                bytes@,
                cursor + i,
                i as nat,
                val as nat,
            ),
            forall|j: int| cursor <= j < cursor + i ==> bytes@[j] >= 128,
        decreases 8 - i,
    {
        if n - cursor <= i {
            return Err(DecodeError::OutOfBounds);
        }
        let b = bytes[cursor + i];
        proof {
            lemma_pow128_monotone(i as nat, 7);
            assert(pow128(7) == 0x2_0000_0000_0000) by {
                reveal_with_fuel(pow128, 8);
            }
        }
        if b < 128 {
            return Ok((val * 128 + b as u64, i + 1));
        }
        val = val * 128 + ((b - 128) as u64);
        i = i + 1;
    }
    if n - cursor <= 8 {
        return Err(DecodeError::OutOfBounds);
    }
    let b9 = bytes[cursor + 8];
    proof {
        assert(pow128(8) == 0x100_0000_0000_0000) by {
            reveal_with_fuel(pow128, 9);
        }
    }
    Ok((val * 256 + b9 as u64, 9))
}

/// Encodes `v` as a varint of minimal length: 7 bits per byte with the
/// continuation bit set on every byte but the last, except that a value
/// needing more than 56 bits takes a 9-byte form whose last byte carries all
/// 8 of its bits. Decoding the result yields `v` again, together with the
/// encoding's own length: the varint round trip.
#[verifier::rlimit(100)]
pub fn varint_encode(v: u64) -> (r: Vec<u8>)
    ensures
        r@.len() == varint_len_of(v as nat),
        varint_at(r@, 0) == Some((v as nat, r@.len() as nat)),
{
    proof {
        lemma_pow128_values();
    }
    let mut out: Vec<u8> = Vec::new();
    if v < 0x80 {
        out.push(v as u8);
        proof {
            reveal_with_fuel(varint_rec, 10);
        }
    } else if v < 0x4000 {
        out.push((v / 0x80 % 0x80 + 0x80) as u8);
        out.push((v % 0x80) as u8);
        proof {
            reveal_with_fuel(varint_rec, 10);
            assert((v / 0x80 % 0x80) * 0x80 + v % 0x80 == v) by (bit_vector)
                requires
                    v < 0x4000,
            ;
        }
    } else if v < 0x20_0000 {
        out.push((v / 0x4000 % 0x80 + 0x80) as u8);
        out.push((v / 0x80 % 0x80 + 0x80) as u8);
        out.push((v % 0x80) as u8);
        proof {
            reveal_with_fuel(varint_rec, 10);
            assert((v / 0x4000 % 0x80) * 0x4000 + (v / 0x80 % 0x80) * 0x80 + v % 0x80 == v)
                by (bit_vector)
                requires
                    v < 0x20_0000,
            ;
        }
    } else if v < 0x1000_0000 {
        out.push((v / 0x20_0000 % 0x80 + 0x80) as u8);
        out.push((v / 0x4000 % 0x80 + 0x80) as u8);
        out.push((v / 0x80 % 0x80 + 0x80) as u8);
        out.push((v % 0x80) as u8);
        proof {
            reveal_with_fuel(varint_rec, 10);
            assert((v / 0x20_0000 % 0x80) * 0x20_0000 + (v / 0x4000 % 0x80) * 0x4000 + (v / 0x80
                % 0x80) * 0x80 + v % 0x80 == v) by (bit_vector)
                requires
                    v < 0x1000_0000,
            ;
        }
    } else if v < 0x8_0000_0000 {
        out.push((v / 0x1000_0000 % 0x80 + 0x80) as u8);
        out.push((v / 0x20_0000 % 0x80 + 0x80) as u8);
        out.push((v / 0x4000 % 0x80 + 0x80) as u8);
        out.push((v / 0x80 % 0x80 + 0x80) as u8);
        out.push((v % 0x80) as u8);
        proof {
            reveal_with_fuel(varint_rec, 10);
            assert((v / 0x1000_0000 % 0x80) * 0x1000_0000 + (v / 0x20_0000 % 0x80) * 0x20_0000 + (
            v / 0x4000 % 0x80) * 0x4000 + (v / 0x80 % 0x80) * 0x80 + v % 0x80 == v)
                by (bit_vector)
                requires
                    v < 0x8_0000_0000,
            ;
        }
    } else if v < 0x400_0000_0000 {
        out.push((v / 0x8_0000_0000 % 0x80 + 0x80) as u8);
        out.push((v / 0x1000_0000 % 0x80 + 0x80) as u8);
        out.push((v / 0x20_0000 % 0x80 + 0x80) as u8);
        out.push((v / 0x4000 % 0x80 + 0x80) as u8);
        out.push((v / 0x80 % 0x80 + 0x80) as u8);
        out.push((v % 0x80) as u8);
        proof {
            reveal_with_fuel(varint_rec, 10);
            assert((v / 0x8_0000_0000 % 0x80) * 0x8_0000_0000 + (v / 0x1000_0000 % 0x80)
                * 0x1000_0000 + (v / 0x20_0000 % 0x80) * 0x20_0000 + (v / 0x4000 % 0x80) * 0x4000
                + (v / 0x80 % 0x80) * 0x80 + v % 0x80 == v) by (bit_vector)
                requires
                    v < 0x400_0000_0000,
            ;
        }
    } else if v < 0x2_0000_0000_0000 {
        out.push((v / 0x400_0000_0000 % 0x80 + 0x80) as u8);
        out.push((v / 0x8_0000_0000 % 0x80 + 0x80) as u8);
        out.push((v / 0x1000_0000 % 0x80 + 0x80) as u8);
        out.push((v / 0x20_0000 % 0x80 + 0x80) as u8);
        out.push((v / 0x4000 % 0x80 + 0x80) as u8);
        out.push((v / 0x80 % 0x80 + 0x80) as u8);
        out.push((v % 0x80) as u8);
        proof {
            reveal_with_fuel(varint_rec, 10);
            assert((v / 0x400_0000_0000 % 0x80) * 0x400_0000_0000 + (v / 0x8_0000_0000 % 0x80)
                * 0x8_0000_0000 + (v / 0x1000_0000 % 0x80) * 0x1000_0000 + (v / 0x20_0000 % 0x80)
                * 0x20_0000 + (v / 0x4000 % 0x80) * 0x4000 + (v / 0x80 % 0x80) * 0x80 + v % 0x80
                == v) by (bit_vector)
                requires
                    v < 0x2_0000_0000_0000,
            ;
        }
    } else if v < 0x100_0000_0000_0000 {
        out.push((v / 0x2_0000_0000_0000 % 0x80 + 0x80) as u8);
        out.push((v / 0x400_0000_0000 % 0x80 + 0x80) as u8);
        out.push((v / 0x8_0000_0000 % 0x80 + 0x80) as u8);
        out.push((v / 0x1000_0000 % 0x80 + 0x80) as u8);
        out.push((v / 0x20_0000 % 0x80 + 0x80) as u8);
        out.push((v / 0x4000 % 0x80 + 0x80) as u8);
        out.push((v / 0x80 % 0x80 + 0x80) as u8);
        out.push((v % 0x80) as u8);
        proof {
            reveal_with_fuel(varint_rec, 10);
            assert((v / 0x2_0000_0000_0000 % 0x80) * 0x2_0000_0000_0000 + (v / 0x400_0000_0000
                % 0x80) * 0x400_0000_0000 + (v / 0x8_0000_0000 % 0x80) * 0x8_0000_0000 + (v
                / 0x1000_0000 % 0x80) * 0x1000_0000 + (v / 0x20_0000 % 0x80) * 0x20_0000 + (v
                / 0x4000 % 0x80) * 0x4000 + (v / 0x80 % 0x80) * 0x80 + v % 0x80 == v)
                by (bit_vector)
                requires
                    v < 0x100_0000_0000_0000,
            ;
        }
    } else {
        let w = v / 0x100;
        out.push((w / 0x2_0000_0000_0000 % 0x80 + 0x80) as u8);
        out.push((w / 0x400_0000_0000 % 0x80 + 0x80) as u8);
        out.push((w / 0x8_0000_0000 % 0x80 + 0x80) as u8);
        out.push((w / 0x1000_0000 % 0x80 + 0x80) as u8);
        out.push((w / 0x20_0000 % 0x80 + 0x80) as u8);
        out.push((w / 0x4000 % 0x80 + 0x80) as u8);
        out.push((w / 0x80 % 0x80 + 0x80) as u8);
        out.push((w % 0x80 + 0x80) as u8);
        out.push((v % 0x100) as u8);
        proof {
            reveal_with_fuel(varint_rec, 11);
            assert(((v / 0x100 / 0x2_0000_0000_0000 % 0x80) * 0x2_0000_0000_0000 + (v / 0x100
                / 0x400_0000_0000 % 0x80) * 0x400_0000_0000 + (v / 0x100 / 0x8_0000_0000 % 0x80)
                * 0x8_0000_0000 + (v / 0x100 / 0x1000_0000 % 0x80) * 0x1000_0000 + (v / 0x100
                / 0x20_0000 % 0x80) * 0x20_0000 + (v / 0x100 / 0x4000 % 0x80) * 0x4000 + (v / 0x100
                / 0x80 % 0x80) * 0x80 + v / 0x100 % 0x80) * 0x100 + v % 0x100 == v)
                by (bit_vector);
        }
    }
    out
}

} // verus!
