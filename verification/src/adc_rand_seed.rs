//! This module is used to generate a truly random seed for random number generator
//! application should read values of ADC, assigned to a not connected pin
//! the adc_seed function takes as an argument a heapless vector that contains those values
//! and composes LSB of each value into a seed value

use vstd::prelude::*;

use crate::buffers::{sample_values, samples_slice};

verus! {

/// Most samples a seed can take: one bit of the 64-bit seed for each.
pub const SEED_SAMPLES: usize = 64;

/// The least significant bit of a sample.
pub open spec fn lsb(value: u16) -> nat {
    (value % 2) as nat
}

/// The seed composed of the samples' least significant bits, the first
/// sample giving the most significant of them.
pub open spec fn spec_seed(samples: Seq<u16>) -> nat
    decreases samples.len(),
{
    if samples.len() == 0 {
        0
    } else {
        2 * spec_seed(samples.drop_last()) + lsb(samples.last())
    }
}

/// 2 to the power `n`.
pub open spec fn pow2(n: nat) -> nat
    decreases n,
{
    if n == 0 { 1 } else { 2 * pow2((n - 1) as nat) }
}

/// A seed of `n` samples stays below `2^n`.
pub proof fn lemma_seed_bound(samples: Seq<u16>)
    ensures
        spec_seed(samples) < pow2(samples.len()),
    decreases samples.len(),
{
    if samples.len() > 0 {
        lemma_seed_bound(samples.drop_last());
    }
}

/// One more sample shifts the seed left by one bit and brings in the
/// sample's least significant bit.
pub proof fn lemma_seed_push(samples: Seq<u16>, value: u16)
    ensures
        spec_seed(samples.push(value)) == 2 * spec_seed(samples) + lsb(value),
        spec_seed(samples.push(value)) % 2 == lsb(value),
{
    assert(samples.push(value).drop_last() =~= samples);
}

/// Only the least significant bits count: samples that agree in them give
/// the same seed.
pub proof fn lemma_low_bits_decide_seed(samples: Seq<u16>, others: Seq<u16>)
    requires
        samples.len() == others.len(),
        forall|i: int| 0 <= i < samples.len() ==> lsb(#[trigger] samples[i]) == lsb(others[i]),
    ensures
        spec_seed(samples) == spec_seed(others),
    decreases samples.len(),
{
    if samples.len() > 0 {
        assert forall|i: int| 0 <= i < samples.drop_last().len() implies lsb(#[trigger] samples.drop_last()[i])
            == lsb(others.drop_last()[i]) by {
            assert(samples.drop_last()[i] == samples[i]);
            assert(others.drop_last()[i] == others[i]);
        }
        lemma_low_bits_decide_seed(samples.drop_last(), others.drop_last());
        assert(lsb(samples[samples.len() - 1]) == lsb(others[others.len() - 1]));
    }
}

/// Compose the least significant bits of `samples` into a seed.
pub fn seed_from_samples(samples: &[u16]) -> (res: u64)
    requires
        0 < samples@.len() <= 64,
    ensures
        res == spec_seed(samples@),
{
    let mut res = 0u64;
    let mut i: usize = 0;
    while i < samples.len()
        invariant
            i <= samples@.len() <= 64,
            res == spec_seed(samples@.take(i as int)),
            res < pow2(i as nat),
        decreases samples@.len() - i,
    {
        let value = samples[i];
        assert(samples@.take(i + 1).drop_last() =~= samples@.take(i as int));
        assert(pow2(i as nat) <= 0x8000_0000_0000_0000) by {
            lemma_pow2_monotonic(i as nat, 63);
            assert(pow2(63) == 0x8000_0000_0000_0000) by {
                reveal_with_fuel(pow2, 64);
            }
        }
        let shifted = res << 1;
        assert(res < 0x8000_0000_0000_0000 ==> shifted == 2 * res) by (bit_vector)
            requires shifted == res << 1;
        let bit: u64 = if (value & 0x01) != 0 { 1 } else { 0 };
        assert((value & 0x01) != 0 <==> value % 2 == 1) by (bit_vector);
        res = shifted + bit;
        i = i + 1;
    }
    assert(samples@.take(i as int) =~= samples@);
    res
}

/// `pow2` grows with its exponent.
pub proof fn lemma_pow2_monotonic(a: nat, b: nat)
    requires
        a <= b,
    ensures
        pow2(a) <= pow2(b),
    decreases b,
{
    if a < b {
        lemma_pow2_monotonic(a, (b - 1) as nat);
    }
}

/// Compose LSBs of each value in vector into a seed value
pub fn adc_seed(vec: heapless::Vec<u16, SEED_SAMPLES>) -> (res: u64)
    requires
        sample_values(vec).len() > 0,
    ensures
        res == spec_seed(sample_values(vec)),
{
    let samples = samples_slice(&vec);
    seed_from_samples(samples)
}

/// The seed of a vector of samples, or `None` when it holds no sample.
pub fn checked_adc_seed(vec: heapless::Vec<u16, SEED_SAMPLES>) -> (res: Option<u64>)
    ensures
        res is None <==> sample_values(vec).len() == 0,
        res matches Some(seed) ==> seed == spec_seed(sample_values(vec)),
{
    let samples = samples_slice(&vec);
    if samples.len() == 0 {
        None
    } else {
        Some(adc_seed(vec))
    }
}

} // verus!
