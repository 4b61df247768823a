use vstd::prelude::*;

verus! {

/// 256 raised to the power `k`.
pub open spec fn pow256(k: nat) -> nat
    decreases k,
{
    if k == 0 {
        1
    } else {
        256 * pow256((k - 1) as nat)
    }
}

/// The value of a big-endian byte sequence: the sum of `s[i] * 256^(len-1-i)`
/// over all indices `i`, written in Horner form.
pub open spec fn be_val(s: Seq<u8>) -> nat
    decreases s.len(),
{
    if s.len() == 0 {
        0
    } else {
        (be_val(s.drop_last()) * 256 + s.last()) as nat
    }
}

pub proof fn lemma_pow256_monotone(a: nat, b: nat)
    requires
        a <= b,
    ensures
        pow256(a) <= pow256(b),
    decreases b,
{
    if a < b {
        lemma_pow256_monotone(a, (b - 1) as nat);
    }
}

/// A sequence of `n` bytes encodes a value below `256^n`.
pub proof fn lemma_be_val_bound(s: Seq<u8>)
    ensures
        be_val(s) < pow256(s.len()),
    decreases s.len(),
{
    if s.len() > 0 {
        lemma_be_val_bound(s.drop_last());
    }
}

/// Decodes a fixed-width big-endian unsigned integer from a byte slice of
/// width 1 to 8.
pub fn be_parser(bytes: &[u8]) -> (r: u64)
    requires
        1 <= bytes@.len() <= 8,
    ensures
        r == be_val(bytes@),
{
    let n = bytes.len();
    let mut val: u64 = 0;
    let mut i: usize = 0;
    while i < n
        invariant
            i <= n,
            n == bytes@.len(),
            n <= 8,
            val == be_val(bytes@.take(i as int)),
        decreases n - i,
    {
        proof {
            lemma_be_val_bound(bytes@.take(i as int));
            lemma_pow256_monotone(i as nat, 7);
            assert(pow256(7) == 0x100000000000000) by {
                reveal_with_fuel(pow256, 8);
            }
            assert(bytes@.take(i + 1).drop_last() =~= bytes@.take(i as int));
        }
        val = val * 256 + (bytes[i] as u64);
        i = i + 1;
    }
    proof {
        assert(bytes@.take(n as int) =~= bytes@);
    }
    val
}

} // verus!
