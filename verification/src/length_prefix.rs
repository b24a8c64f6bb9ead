//! The variable-length count that opens an encoded list.
//!
//! The number of trailing zero bits of the first byte, plus one, is the
//! number of bytes the count takes. With fewer than nine bytes they hold,
//! least significant byte first, the count shifted left past the marker bits;
//! with nine, the first byte is zero and the other eight hold the count.

use vstd::arithmetic::power2::pow2;
use vstd::bits::lemma_u64_shr_is_div;
use vstd::prelude::*;
use vstd::std_specs::bits::{axiom_u8_trailing_zeros, u8_trailing_zeros};

verus! {

/// How many bytes a count takes whose first byte is `first`.
pub open spec fn prefix_len(first: u8) -> nat {
    (u8_trailing_zeros(first) + 1) as nat
}

/// The number that `bytes` hold, least significant byte first.
pub open spec fn le_value(bytes: Seq<u8>) -> nat
    decreases bytes.len(),
{
    if bytes.len() == 0 {
        0
    } else {
        bytes[0] as nat + 256 * le_value(bytes.drop_first())
    }
}

/// The count that opens `bytes`, or `None` where `bytes` end before the
/// count does.
pub open spec fn announced_count(bytes: Seq<u8>) -> Option<nat> {
    if bytes.len() == 0 {
        None
    } else {
        let n = prefix_len(bytes[0]);
        if bytes.len() < n {
            None
        } else if n == 9 {
            Some(le_value(bytes.subrange(1, 9)))
        } else {
            Some(le_value(bytes.subrange(0, n as int)) / pow2(n))
        }
    }
}

/// Whether `bytes` open with a count and hold, after it, at least that many
/// items of `item_len` bytes each.
pub open spec fn count_fits(bytes: Seq<u8>, item_len: nat) -> bool {
    match announced_count(bytes) {
        Some(count) => count * item_len <= bytes.len() - prefix_len(bytes[0]),
        None => false,
    }
}

/// 256 to the power of `k`.
spec fn radix(k: nat) -> nat
    decreases k,
{
    if k == 0 {
        1
    } else {
        256 * radix((k - 1) as nat)
    }
}

/// Eight bytes hold a number below 2^64, and fewer bytes a smaller one.
proof fn lemma_radix_bound(k: nat)
    requires
        k <= 8,
    ensures
        radix(k) <= 0x1_0000_0000_0000_0000,
        k < 8 ==> radix(k) <= 0x100_0000_0000_0000,
{
    reveal_with_fuel(radix, 10);
}

/// Reads the number that `bytes[from..to]` hold, least significant byte first.
fn read_le(bytes: &[u8], from: usize, to: usize) -> (r: u64)
    requires
        from <= to <= bytes@.len(),
        to - from <= 8,
    ensures
        r == le_value(bytes@.subrange(from as int, to as int)),
{
    let mut acc: u64 = 0;
    let mut i: usize = to;
    assert(bytes@.subrange(to as int, to as int) =~= Seq::<u8>::empty());
    while i > from
        invariant
            from <= i <= to <= bytes@.len(),
            to - from <= 8,
            acc == le_value(bytes@.subrange(i as int, to as int)),
            acc < radix((to - i) as nat),
        decreases i,
    {
        i = i - 1;
        let ghost tail = bytes@.subrange(i as int, to as int);
        assert(tail.drop_first() =~= bytes@.subrange(i + 1, to as int));
        proof {
            lemma_radix_bound((to - i - 1) as nat);
            lemma_radix_bound((to - i) as nat);
        }
        acc = acc * 256 + bytes[i] as u64;
    }
    acc
}

/// Reads the count that opens `bytes`.
pub fn read_count(bytes: &[u8]) -> (r: Option<u64>)
    ensures
        match r {
            Some(count) => announced_count(bytes@) == Some(count as nat),
            None => announced_count(bytes@) is None,
        },
{
    if bytes.len() == 0 {
        return None;
    }
    let first = bytes[0];
    proof {
        axiom_u8_trailing_zeros(first);
    }
    let n: usize = first.trailing_zeros() as usize + 1;
    if bytes.len() < n {
        return None;
    }
    if n == 9 {
        Some(read_le(bytes, 1, 9))
    } else {
        let raw = read_le(bytes, 0, n);
        proof {
            lemma_u64_shr_is_div(raw, n as u64);
        }
        Some(raw >> (n as u64))
    }
}

/// Tells whether `bytes` open with a count and hold, after it, at least that
/// many items of `item_len` bytes each.
pub fn announced_items_fit(bytes: &[u8], item_len: usize) -> (r: bool)
    requires
        item_len > 0,
    ensures
        r == count_fits(bytes@, item_len as nat),
{
    match read_count(bytes) {
        None => false,
        Some(count) => {
            proof {
                axiom_u8_trailing_zeros(bytes@[0]);
            }
            let used: usize = bytes[0].trailing_zeros() as usize + 1;
            let room: usize = (bytes.len() - used) / item_len;
            assert(count as nat * item_len as nat <= bytes@.len() - used <==> count <= room)
                by (nonlinear_arith)
                requires
                    item_len > 0,
                    used <= bytes@.len(),
                    room == (bytes@.len() - used) / item_len as int,
            ;
            count <= room as u64
        },
    }
}

} // verus!
