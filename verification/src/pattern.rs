//! Endless supply of garland patterns: a pseudo-random colour, made vivid,
//! played as a triangle wave. The generator is tinyrand's standard one
//! (Wyrand), seeded from the noise of the ADC; every colour it yields is a
//! function of its 64-bit state, and so of the seed.

use vstd::prelude::*;

use tinyrand::{RandRange, Seeded, StdRand};

use crate::adc_rand_seed::{checked_adc_seed, lsb, lemma_low_bits_decide_seed, spec_seed, SEED_SAMPLES};
use crate::buffers::{sample_values, wave_colors};
use crate::garland::{
    brightness, lemma_no_pastel_keeps_brightness, lemma_triangle_wave_shape, within, no_pastel,
    spec_no_pastel, spec_triangle_wave, triangle_wave, AMPLITUDE, LEN, RGB8,
};

verus! {

/// `tinyrand::Wyrand`, the generator behind `tinyrand::StdRand`.
#[verifier::external_type_specification]
#[verifier::external_body]
pub struct ExWyrand(tinyrand::Wyrand);

/// What `<StdRand as RandRange<u16>>::next_range(start..end)` returns when
/// the generator's state is `state`.
pub uninterp spec fn range_draw(state: u64, start: u16, end: u16) -> u16;

/// The generator's state after that call.
pub uninterp spec fn range_after(state: u64, start: u16, end: u16) -> u64;

/// A colour whose components all stay below `AMPLITUDE`.
pub open spec fn dim_color(color: RGB8) -> bool {
    color.r < AMPLITUDE && color.g < AMPLITUDE && color.b < AMPLITUDE
}

/// The pattern played for a colour: the colour made vivid, as a triangle wave.
pub open spec fn spec_pattern_of(color: RGB8) -> Seq<RGB8> {
    spec_triangle_wave(spec_no_pastel(color))
}

/// The pattern of a colour below `AMPLITUDE` fits the pattern buffer with a
/// step to spare, peaks at the vivid colour, and is nowhere brighter than
/// the colour drawn.
pub proof fn lemma_pattern_fits(color: RGB8)
    requires
        dim_color(color),
    ensures
        spec_pattern_of(color).len() < LEN,
        spec_pattern_of(color).len() == (if brightness(color) == 0 { 0 } else { 6 * brightness(color) - 1 }),
        forall|i: int| 0 <= i < spec_pattern_of(color).len() ==> within(#[trigger] spec_pattern_of(color)[i], color),
        brightness(color) >= 1 ==> spec_pattern_of(color)[3 * brightness(color) - 1] == spec_no_pastel(color),
{
    lemma_no_pastel_keeps_brightness(color);
    lemma_triangle_wave_shape(spec_no_pastel(color));
    let vivid = spec_no_pastel(color);
    assert forall|i: int| 0 <= i < spec_pattern_of(color).len() implies within(#[trigger] spec_pattern_of(color)[i], color) by {
        assert(within(spec_triangle_wave(vivid)[i], vivid));
    }
}

/// The colour drawn from a generator in state `state`, red, green and blue
/// in that order, each from `0..AMPLITUDE`, and the state after the draws.
pub open spec fn color_draw(state: u64) -> (RGB8, u64) {
    let s1 = range_after(state, 0, AMPLITUDE);
    let s2 = range_after(s1, 0, AMPLITUDE);
    let s3 = range_after(s2, 0, AMPLITUDE);
    (
        RGB8 {
            r: range_draw(state, 0, AMPLITUDE) as u8,
            g: range_draw(s1, 0, AMPLITUDE) as u8,
            b: range_draw(s2, 0, AMPLITUDE) as u8,
        },
        s3,
    )
}

/// A colour takes three successive draws from `0..AMPLITUDE`: red the
/// first, green the second and blue the third, and the generator moves on
/// past all three.
pub proof fn lemma_color_takes_three_draws(state: u64)
    ensures
        ({
            let s1 = range_after(state, 0, AMPLITUDE);
            let s2 = range_after(s1, 0, AMPLITUDE);
            &&& color_draw(state).0.r == range_draw(state, 0, AMPLITUDE) as u8
            &&& color_draw(state).0.g == range_draw(s1, 0, AMPLITUDE) as u8
            &&& color_draw(state).0.b == range_draw(s2, 0, AMPLITUDE) as u8
            &&& color_draw(state).1 == range_after(s2, 0, AMPLITUDE)
        }),
{
}

/// The first `n` colours a generator in state `state` yields.
pub open spec fn color_stream(state: u64, n: nat) -> Seq<RGB8>
    decreases n,
{
    if n == 0 {
        Seq::empty()
    } else {
        seq![color_draw(state).0] + color_stream(color_draw(state).1, (n - 1) as nat)
    }
}

/// The frames of the first `n` patterns a generator in state `state` yields:
/// the pattern of each colour in turn.
pub open spec fn frame_stream(state: u64, n: nat) -> Seq<RGB8>
    decreases n,
{
    if n == 0 {
        Seq::empty()
    } else {
        spec_pattern_of(color_draw(state).0) + frame_stream(color_draw(state).1, (n - 1) as nat)
    }
}

/// Each pattern follows the one before: the frames of `n + 1` patterns are
/// those of the next pattern, then those of the `n` after it.
pub proof fn lemma_frame_stream_step(state: u64, n: nat)
    ensures
        frame_stream(state, n + 1) == frame_stream(state, 1) + frame_stream(color_draw(state).1, n),
        color_stream(state, n + 1) == color_stream(state, 1) + color_stream(color_draw(state).1, n),
{
    assert(frame_stream(color_draw(state).1, 0) =~= Seq::<RGB8>::empty());
    assert(spec_pattern_of(color_draw(state).0) + Seq::<RGB8>::empty() =~= spec_pattern_of(color_draw(state).0));
    assert(color_stream(color_draw(state).1, 0) =~= Seq::<RGB8>::empty());
    assert(seq![color_draw(state).0] + Seq::<RGB8>::empty() =~= seq![color_draw(state).0]);
}

/// Samples that agree in their least significant bits seed the generator
/// alike, so they give the same colours and the same frames.
pub proof fn lemma_low_bits_decide_frames(samples: Seq<u16>, others: Seq<u16>, n: nat)
    requires
        samples.len() == others.len(),
        forall|i: int| 0 <= i < samples.len() ==> lsb(#[trigger] samples[i]) == lsb(others[i]),
    ensures
        color_stream(spec_seed(samples) as u64, n) == color_stream(spec_seed(others) as u64, n),
        frame_stream(spec_seed(samples) as u64, n) == frame_stream(spec_seed(others) as u64, n),
{
    lemma_low_bits_decide_seed(samples, others);
}

/// A source of garland patterns.
pub struct PatternSource {
    rand: StdRand,
    state: Ghost<u64>,
}

impl PatternSource {
    /// The state of the generator.
    pub closed spec fn gen_state(&self) -> u64 {
        self.state@
    }

    /// `<StdRand as Seeded>::seed`: the source stores the seed as the
    /// generator's whole state.
    #[verifier::external_body]
    fn seeded(seed: u64) -> (source: PatternSource)
        ensures
            source.gen_state() == seed,
    {
        PatternSource { rand: StdRand::seed(seed), state: Ghost(seed) }
    }

    /// `<StdRand as RandRange<u16>>::next_range` on `start..end`. The source
    /// panics on an empty range; otherwise it draws until it finds a value
    /// of the range (`start` plus the high half of a 16-bit draw times
    /// `end - start`), so what it returns and the state it leaves are
    /// functions of the state and the range.
    #[verifier::external_body]
    fn draw_in_range(&mut self, start: u16, end: u16) -> (r: u16)
        requires
            start < end,
        ensures
            r == range_draw(old(self).gen_state(), start, end),
            start <= r < end,
            final(self).gen_state() == range_after(old(self).gen_state(), start, end),
    {
        self.rand.next_range(start..end)
    }

    /// A source whose generator is seeded with the seed of the ADC samples,
    /// or `None` when there is no sample.
    pub fn from_samples(samples: heapless::Vec<u16, SEED_SAMPLES>) -> (r: Option<PatternSource>)
        ensures
            r is None <==> sample_values(samples).len() == 0,
            r matches Some(source) ==> source.gen_state() == spec_seed(sample_values(samples)),
    {
        match checked_adc_seed(samples) {
            None => None,
            Some(seed) => Some(PatternSource::seeded(seed)),
        }
    }

    /// The next colour of the generator: red, green and blue drawn in that
    /// order from `0..AMPLITUDE`.
    pub fn random_color(&mut self) -> (color: RGB8)
        ensures
            (color, final(self).gen_state()) == color_draw(old(self).gen_state()),
            dim_color(color),
            ({
                let s0 = old(self).gen_state();
                let s1 = range_after(s0, 0, AMPLITUDE);
                let s2 = range_after(s1, 0, AMPLITUDE);
                &&& color.r == range_draw(s0, 0, AMPLITUDE) as u8
                &&& color.g == range_draw(s1, 0, AMPLITUDE) as u8
                &&& color.b == range_draw(s2, 0, AMPLITUDE) as u8
                &&& final(self).gen_state() == range_after(s2, 0, AMPLITUDE)
            }),
    {
        let r = self.draw_in_range(0, AMPLITUDE);
        let g = self.draw_in_range(0, AMPLITUDE);
        let b = self.draw_in_range(0, AMPLITUDE);
        RGB8 { r: r as u8, g: g as u8, b: b as u8 }
    }

    /// The next pattern: the generator's next colour, made vivid, as a
    /// triangle wave. The colour returned is the one drawn.
    pub fn next_pattern(&mut self) -> (r: (RGB8, heapless::Vec<RGB8, LEN>))
        ensures
            (r.0, final(self).gen_state()) == color_draw(old(self).gen_state()),
            dim_color(r.0),
            ({
                let s0 = old(self).gen_state();
                let s1 = range_after(s0, 0, AMPLITUDE);
                let s2 = range_after(s1, 0, AMPLITUDE);
                &&& r.0.r == range_draw(s0, 0, AMPLITUDE) as u8
                &&& r.0.g == range_draw(s1, 0, AMPLITUDE) as u8
                &&& r.0.b == range_draw(s2, 0, AMPLITUDE) as u8
                &&& final(self).gen_state() == range_after(s2, 0, AMPLITUDE)
            }),
            wave_colors(r.1) == spec_pattern_of(r.0),
            frame_stream(old(self).gen_state(), 1) == wave_colors(r.1),
    {
        let color = self.random_color();
        let vivid = no_pastel(color);
        proof {
            lemma_no_pastel_keeps_brightness(color);
        }
        let pattern = triangle_wave(vivid);
        proof {
            assert(frame_stream(color_draw(old(self).gen_state()).1, 0) =~= Seq::<RGB8>::empty());
            assert(spec_pattern_of(color) + Seq::<RGB8>::empty() =~= spec_pattern_of(color));
        }
        (color, pattern)
    }
}

} // verus!
