//! Big-endian integers inside a byte buffer.

use vstd::prelude::*;

verus! {

/// The number that `bytes` spells in base 256, most significant byte first.
pub open spec fn be_value(bytes: Seq<u8>) -> nat
    decreases bytes.len(),
{
    if bytes.len() == 0 {
        0
    } else {
        be_value(bytes.drop_last()) * 256 + bytes.last() as nat
    }
}

/// 256 to the power `n`.
pub open spec fn pow256(n: nat) -> nat
    decreases n,
{
    if n == 0 {
        1
    } else {
        256 * pow256((n - 1) as nat)
    }
}

/// A big-endian number of `n` bytes is below `256^n`.
pub proof fn lemma_be_value_bound(bytes: Seq<u8>)
    ensures
        be_value(bytes) < pow256(bytes.len()),
    decreases bytes.len(),
{
    if bytes.len() > 0 {
        lemma_be_value_bound(bytes.drop_last());
    }
}

/// `pow256` grows with its exponent.
pub proof fn lemma_pow256_monotonic(a: nat, b: nat)
    requires
        a <= b,
    ensures
        pow256(a) <= pow256(b),
    decreases b,
{
    if a < b {
        lemma_pow256_monotonic(a, (b - 1) as nat);
    }
}

/// The values of `pow256` at the widths that frame headers use.
pub proof fn lemma_pow256_values()
    ensures
        pow256(1) == 0x100,
        pow256(2) == 0x1_0000,
        pow256(4) == 0x1_0000_0000,
        pow256(6) == 0x1_0000_0000_0000,
        pow256(16) == 0x1_0000_0000_0000_0000_0000_0000_0000_0000,
{
    reveal_with_fuel(pow256, 17);
}

/// Reads `count` bytes at `offset` as one big-endian number.
pub fn read_be(data: &[u8], offset: usize, count: usize) -> (value: u128)
    requires
        count <= 16,
        offset + count <= data.len(),
    ensures
        value == be_value(data@.subrange(offset as int, offset + count)),
        value < pow256(count as nat),
{
    let mut value: u128 = 0;
    let mut i: usize = 0;
    while i < count
        invariant
            i <= count <= 16,
            offset + count <= data.len(),
            value == be_value(data@.subrange(offset as int, offset + i)),
            value < pow256(i as nat),
        decreases count - i,
    {
        let byte: u8 = data[offset + i];
        proof {
            let next = data@.subrange(offset as int, offset + i + 1);
            assert(next.drop_last() =~= data@.subrange(offset as int, offset + i));
            assert(next.last() == byte);
            lemma_pow256_monotonic((i + 1) as nat, 16);
            lemma_pow256_values();
        }
        value = value * 256 + byte as u128;
        i = i + 1;
    }
    value
}

} // verus!
