//! The hash that gives each key its home slot: a weighted sum of the key's
//! bytes, kept in 64 bits and reduced modulo the table's capacity.

use vstd::arithmetic::div_mod::{lemma_add_mod_noop, lemma_mul_mod_noop_general};
use vstd::arithmetic::power::{lemma_pow0, lemma_pow1, lemma_pow_adds, pow};
use vstd::prelude::*;

verus! {

/// The weight of the byte at `position` (counted from 0). A byte at an even
/// position counts once. The bytes at odd positions share a multiplier that
/// starts at 1 and is multiplied by 256 at every odd position, the first one
/// included: positions 1, 3, 5, ... weigh 256, 256^2, 256^3, ...
pub open spec fn weight(position: nat) -> int {
    if position % 2 == 0 {
        1
    } else {
        pow(256, position / 2 + 1)
    }
}

/// The sum of all bytes, each multiplied by the weight of its position.
pub open spec fn weighted_sum(bytes: Seq<u8>) -> int
    decreases bytes.len(),
{
    if bytes.len() == 0 {
        0
    } else {
        weighted_sum(bytes.drop_last()) + bytes.last() as int * weight((bytes.len() - 1) as nat)
    }
}

/// The number of values that the 64-bit accumulator can hold.
pub open spec fn accumulator_range() -> int {
    0x1_0000_0000_0000_0000
}

/// What the 64-bit accumulator holds, read as an unsigned number, once every
/// byte has been added: the weighted sum, wrapped around on overflow.
pub open spec fn accumulated(bytes: Seq<u8>) -> int {
    weighted_sum(bytes) % accumulator_range()
}

/// The index that the hash gives to a key with these bytes in a table of
/// `capacity` slots.
pub open spec fn hash_index(bytes: Seq<u8>, capacity: nat) -> int
    recommends
        capacity > 0,
{
    accumulated(bytes) % (capacity as int)
}

/// While the weighted sum fits the accumulator, the index is simply the sum
/// modulo the capacity.
pub proof fn hash_index_of_small_sum(bytes: Seq<u8>, capacity: nat)
    requires
        capacity > 0,
        0 <= weighted_sum(bytes) < accumulator_range(),
    ensures
        hash_index(bytes, capacity) == weighted_sum(bytes) % (capacity as int),
{
}

/// One more byte adds its weighted value to the sum.
proof fn weighted_sum_step(bytes: Seq<u8>, i: int)
    requires
        0 <= i < bytes.len(),
    ensures
        weighted_sum(bytes.take(i + 1)) == weighted_sum(bytes.take(i)) + bytes[i] as int * weight(
            i as nat,
        ),
{
    assert(bytes.take(i + 1).drop_last() =~= bytes.take(i));
}

/// Multiplying a wrapped power of 256 by 256 gives the next power, wrapped.
proof fn next_factor(factor: int, exponent: nat)
    requires
        factor == pow(256, exponent) % accumulator_range(),
    ensures
        (factor * 256) % accumulator_range() == pow(256, exponent + 1) % accumulator_range(),
{
    lemma_pow_adds(256, exponent, 1);
    lemma_pow1(256);
    lemma_mul_mod_noop_general(pow(256, exponent), 256, accumulator_range());
}

/// Adding a wrapped term to a wrapped sum gives the wrapped sum of both.
proof fn next_sum(sum: int, total: int, byte: int, factor: int, full_weight: int)
    requires
        sum == total % accumulator_range(),
        factor == full_weight % accumulator_range(),
    ensures
        (sum + (byte * factor) % accumulator_range()) % accumulator_range() == (total + byte
            * full_weight) % accumulator_range(),
{
    lemma_mul_mod_noop_general(byte, full_weight, accumulator_range());
    lemma_add_mod_noop(total, byte * full_weight, accumulator_range());
}

/// Computes the hash of `bytes` for a table of `capacity` slots.
pub fn hash_bytes(bytes: &[u8], capacity: usize) -> (index: usize)
    requires
        capacity > 0,
    ensures
        index == hash_index(bytes@, capacity as nat),
        index < capacity,
{
    let mut sum: u64 = 0;
    let mut factor: u64 = 1;
    let mut i: usize = 0;
    proof {
        lemma_pow0(256);
    }
    while i < bytes.len()
        invariant
            i <= bytes.len(),
            sum as int == weighted_sum(bytes@.take(i as int)) % accumulator_range(),
            factor as int == pow(256, (i / 2) as nat) % accumulator_range(),
        decreases bytes.len() - i,
    {
        let byte: u64 = bytes[i] as u64;
        proof {
            weighted_sum_step(bytes@, i as int);
        }
        if i % 2 == 0 {
            proof {
                lemma_pow0(256);
                next_sum(sum as int, weighted_sum(bytes@.take(i as int)), byte as int, 1, 1);
            }
            sum = sum.wrapping_add(byte);
        } else {
            proof {
                next_factor(factor as int, (i / 2) as nat);
            }
            factor = factor.wrapping_mul(256);
            proof {
                next_sum(
                    sum as int,
                    weighted_sum(bytes@.take(i as int)),
                    byte as int,
                    factor as int,
                    pow(256, (i / 2 + 1) as nat),
                );
            }
            sum = sum.wrapping_add(byte.wrapping_mul(factor));
        }
        i += 1;
    }
    assert(bytes@.take(i as int) =~= bytes@);
    (sum % (capacity as u64)) as usize
}

} // verus!
