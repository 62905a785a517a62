//! The fixed-capacity vectors of `heapless` that the patterns and the seed
//! samples travel in, with what the library relies on of them.

use vstd::prelude::*;

use crate::adc_rand_seed::SEED_SAMPLES;
use crate::garland::{LEN, RGB8};

verus! {

/// `heapless::Vec<T, N>`: a vector of at most `N` items stored inline.
#[verifier::external_type_specification]
#[verifier::external_body]
#[verifier::reject_recursive_types(T)]
pub struct ExHeaplessVec<T, const N: usize>(heapless::Vec<T, N>);

/// The colours held, in order, by a vector of capacity one.
pub uninterp spec fn point_colors(v: heapless::Vec<RGB8, 1>) -> Seq<RGB8>;

/// The colours held, in order, by a vector of capacity `LEN` (48).
pub uninterp spec fn wave_colors(v: heapless::Vec<RGB8, LEN>) -> Seq<RGB8>;

/// The samples held, in order, by a vector of capacity 64.
pub uninterp spec fn sample_values(v: heapless::Vec<u16, SEED_SAMPLES>) -> Seq<u16>;

/// `heapless::Vec::<RGB8, 1>::new`: the source builds a vector of length 0.
#[verifier::external_body]
pub(crate) fn new_point_buffer() -> (v: heapless::Vec<RGB8, 1>)
    ensures
        point_colors(v) == Seq::<RGB8>::empty(),
{
    heapless::Vec::new()
}

/// `heapless::Vec::<RGB8, 1>::push`: the source appends the item and answers
/// `Ok` while the length is below the capacity, and otherwise hands the item
/// back in `Err` and leaves the vector as it was.
#[verifier::external_body]
pub(crate) fn push_point(v: &mut heapless::Vec<RGB8, 1>, item: RGB8) -> (r: Result<(), RGB8>)
    ensures
        r is Ok <==> point_colors(*old(v)).len() < 1,
        r is Ok ==> point_colors(*final(v)) == point_colors(*old(v)).push(item),
        r is Err ==> r->Err_0 == item && point_colors(*final(v)) == point_colors(*old(v)),
{
    v.push(item)
}

/// `heapless::Vec::<RGB8, 48>::new`: the source builds a vector of length 0.
#[verifier::external_body]
pub(crate) fn new_wave_buffer() -> (v: heapless::Vec<RGB8, LEN>)
    ensures
        wave_colors(v) == Seq::<RGB8>::empty(),
{
    heapless::Vec::new()
}

/// `heapless::Vec::<RGB8, 48>::push`: the source appends the item and answers
/// `Ok` while the length is below the capacity, and otherwise hands the item
/// back in `Err` and leaves the vector as it was.
#[verifier::external_body]
pub(crate) fn push_wave(v: &mut heapless::Vec<RGB8, LEN>, item: RGB8) -> (r: Result<(), RGB8>)
    ensures
        r is Ok <==> wave_colors(*old(v)).len() < LEN,
        r is Ok ==> wave_colors(*final(v)) == wave_colors(*old(v)).push(item),
        r is Err ==> r->Err_0 == item && wave_colors(*final(v)) == wave_colors(*old(v)),
{
    v.push(item)
}

/// `heapless::Vec::<u16, 64>::as_slice`: the source returns the stored
/// samples in order; a heapless vector never holds more than its capacity.
#[verifier::external_body]
pub(crate) fn samples_slice(v: &heapless::Vec<u16, SEED_SAMPLES>) -> (s: &[u16])
    ensures
        s@ == sample_values(*v),
        s@.len() <= SEED_SAMPLES,
{
    v.as_slice()
}

} // verus!
