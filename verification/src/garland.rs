use vstd::prelude::*;

use vstd::arithmetic::div_mod::{lemma_div_is_ordered, lemma_div_multiples_vanish};
use vstd::arithmetic::mul::{lemma_mul_inequality, lemma_mul_is_commutative};

use crate::buffers::{new_point_buffer, new_wave_buffer, point_colors, push_point, push_wave, wave_colors};

verus! {

/// Number of WS2812 LEDs in the LED strip
pub const LED_NUMBER: usize = 1;

/// Max value for a color component: R, G or B
pub const AMPLITUDE: u16 = 8;

/// Capacity of a triangle-wave pattern: six steps per unit of amplitude.
pub const LEN: usize = 48;

/// Store all the LED color values for the LED strip
pub type ColorFrame = [RGB8; LED_NUMBER];

/// A colour of one LED: red, green and blue components of 8 bits each.
#[derive(Clone, Copy, Debug, PartialEq, Eq, Structural)]
pub struct RGB8 {
    pub r: u8,
    pub g: u8,
    pub b: u8,
}

impl Default for RGB8 {
    /// Black: every component 0.
    fn default() -> (r: Self)
        ensures
            r == dark(),
    {
        RGB8 { r: 0, g: 0, b: 0 }
    }
}

/// The largest of two components.
pub open spec fn spec_max2(one: u8, two: u8) -> u8 {
    if one > two { one } else { two }
}

/// The largest of three components.
pub open spec fn spec_max(one: u8, two: u8, three: u8) -> u8 {
    spec_max2(one, spec_max2(two, three))
}

/// Largest of two values.
pub fn max2(one: u8, two: u8) -> (r: u8)
    ensures
        r == spec_max2(one, two),
        r >= one && r >= two,
        r == one || r == two,
{
    if one > two {
        one
    } else {
        two
    }
}

/// Largest of three values.
pub fn max(one: u8, two: u8, three: u8) -> (r: u8)
    ensures
        r == spec_max(one, two, three),
        r >= one && r >= two && r >= three,
        r == one || r == two || r == three,
{
    max2(one, max2(two, three))
}

/// The colour of an LED that is switched off.
pub open spec fn dark() -> RGB8 {
    RGB8 { r: 0, g: 0, b: 0 }
}

/// Brightest component of a colour.
pub open spec fn brightness(color: RGB8) -> u8 {
    spec_max(color.r, color.g, color.b)
}

/// A pastel colour made vivid: the brightest component (the first of them,
/// in the order r, g, b) stays, and the two others are divided by 3.
pub open spec fn spec_no_pastel(color: RGB8) -> RGB8 {
    let m = brightness(color);
    if color.r == m {
        RGB8 { r: color.r, g: color.g / 3, b: color.b / 3 }
    } else if color.g == m {
        RGB8 { r: color.r / 3, g: color.g, b: color.b / 3 }
    } else {
        RGB8 { r: color.r / 3, g: color.g / 3, b: color.b }
    }
}

/// Make pastel color not so pastel by decreasing two of three RGB components:
/// the brightest component stays, the two others are divided by 3.
pub fn no_pastel(color: RGB8) -> (res: RGB8)
    ensures
        res == spec_no_pastel(color),
        color.r >= color.g && color.r >= color.b ==> res == (RGB8 { r: color.r, g: color.g / 3, b: color.b / 3 }),
        color.g > color.r && color.g >= color.b ==> res == (RGB8 { r: color.r / 3, g: color.g, b: color.b / 3 }),
        color.b > color.r && color.b > color.g ==> res == (RGB8 { r: color.r / 3, g: color.g / 3, b: color.b }),
{
    let mut res = color;
    let m = max(color.r, color.g, color.b);
    if color.r == m {
        res.g = res.g / 3;
        res.b = res.b / 3;
    } else if color.g == m {
        res.r = res.r / 3;
        res.b = res.b / 3;
    } else {
        res.r = res.r / 3;
        res.g = res.g / 3;
    }
    res
}

/// Making a colour vivid keeps its brightest component and lowers none.
pub proof fn lemma_no_pastel_keeps_brightness(color: RGB8)
    ensures
        brightness(spec_no_pastel(color)) == brightness(color),
        spec_no_pastel(color).r <= color.r,
        spec_no_pastel(color).g <= color.g,
        spec_no_pastel(color).b <= color.b,
{
}

/// The first brightest component, in the order r, g, b, is kept and every
/// other component is divided by 3; ties go to the earlier component.
pub proof fn lemma_no_pastel_keeps_first_brightest(color: RGB8)
    ensures
        color.r >= color.g && color.r >= color.b ==> spec_no_pastel(color)
            == (RGB8 { r: color.r, g: color.g / 3, b: color.b / 3 }),
        color.g > color.r && color.g >= color.b ==> spec_no_pastel(color)
            == (RGB8 { r: color.r / 3, g: color.g, b: color.b / 3 }),
        color.b > color.r && color.b > color.g ==> spec_no_pastel(color)
            == (RGB8 { r: color.r / 3, g: color.g / 3, b: color.b }),
{
}

/// Two of the three components are lowered: when one component alone is
/// the brightest, it stays, and each other one that is lit comes out lower.
pub proof fn lemma_no_pastel_lowers_two(color: RGB8)
    ensures
        ({
            let v = spec_no_pastel(color);
            let m = brightness(color);
            &&& (color.r == m && color.g < m && color.b < m) ==> v.r == color.r
                && (color.g > 0 ==> v.g < color.g) && (color.b > 0 ==> v.b < color.b)
            &&& (color.g == m && color.r < m && color.b < m) ==> v.g == color.g
                && (color.r > 0 ==> v.r < color.r) && (color.b > 0 ==> v.b < color.b)
            &&& (color.b == m && color.r < m && color.g < m) ==> v.b == color.b
                && (color.r > 0 ==> v.r < color.r) && (color.g > 0 ==> v.g < color.g)
        }),
{
}

/// One component scaled by `numerator / denominator`, rounded down and kept
/// to its low 8 bits.
pub open spec fn scale_component(c: u8, numerator: u8, denominator: u8) -> u8 {
    ((c * numerator) / (denominator as int)) as u8
}

/// A colour scaled by `numerator / denominator`, component by component.
pub open spec fn scaled(color: RGB8, numerator: u8, denominator: u8) -> RGB8 {
    RGB8 {
        r: scale_component(color.r, numerator, denominator),
        g: scale_component(color.g, numerator, denominator),
        b: scale_component(color.b, numerator, denominator),
    }
}

/// Scale each component of a colour by `numerator / denominator`.
pub fn mul_on_ratio(color: RGB8, numerator: u8, denominator: u8) -> (res: RGB8)
    requires
        denominator > 0,
    ensures
        res == scaled(color, numerator, denominator),
{
    proof {
        lemma_component_product_fits(color.r, numerator);
        lemma_component_product_fits(color.g, numerator);
        lemma_component_product_fits(color.b, numerator);
    }
    RGB8 {
        r: ((color.r as u16) * (numerator as u16) / (denominator as u16)) as u8,
        g: ((color.g as u16) * (numerator as u16) / (denominator as u16)) as u8,
        b: ((color.b as u16) * (numerator as u16) / (denominator as u16)) as u8,
    }
}

proof fn lemma_component_product_fits(c: u8, n: u8)
    ensures
        c * n <= 65025,
{
    assert(c * n <= 255 * 255) by (nonlinear_arith)
        requires
            c <= 255,
            n <= 255,
    ;
}

/// Color pattern made of single points
pub fn single_point(color: RGB8) -> (res: heapless::Vec<RGB8, 1>)
    ensures
        point_colors(res) == seq![color],
{
    let mut res = new_point_buffer();
    let pushed = push_point(&mut res, color);
    assert(pushed is Ok);
    res
}

/// `n` dark LEDs.
pub open spec fn darkness(n: nat) -> Seq<RGB8> {
    Seq::new(n, |i: int| dark())
}

/// The rising edge of a wave of height `m`: the colour scaled by 1/m, 2/m, ..., m/m.
pub open spec fn rising(color: RGB8, m: u8) -> Seq<RGB8> {
    Seq::new(m as nat, |i: int| scaled(color, (i + 1) as u8, m))
}

/// The falling edge of a wave of height `m`: the colour scaled by (m-1)/m, ..., 1/m.
pub open spec fn falling(color: RGB8, m: u8) -> Seq<RGB8> {
    Seq::new(if m >= 1 { (m - 1) as nat } else { 0 }, |i: int| scaled(color, (m - 1 - i) as u8, m))
}

/// The triangle wave of a colour: dark for twice its brightness, then the
/// rising edge, the falling edge, and dark again for twice its brightness.
pub open spec fn spec_triangle_wave(color: RGB8) -> Seq<RGB8> {
    let m = brightness(color);
    darkness(2 * m as nat) + rising(color, m) + falling(color, m) + darkness(2 * m as nat)
}

/// Color pattern with brightness changing as triangle wave /\: one peak at
/// the colour itself, the same steps on the way up and on the way down.
pub fn triangle_wave(color: RGB8) -> (res: heapless::Vec<RGB8, LEN>)
    requires
        brightness(color) <= AMPLITUDE,
    ensures
        wave_colors(res) == spec_triangle_wave(color),
        ({
            let m = brightness(color) as int;
            let w = wave_colors(res);
            &&& w.len() == (if m == 0 { 0 } else { 6 * m - 1 })
            &&& forall|x: int| 1 <= x <= m ==> #[trigger] w[2 * m + x - 1] == fade(color, x, m)
            &&& forall|x: int| 1 <= x < m ==> #[trigger] w[4 * m - 1 - x] == fade(color, x, m)
        }),
{
    proof {
        lemma_triangle_wave_steps(color);
        lemma_triangle_wave_shape(color);
    }
    let len = max(color.r, color.g, color.b);
    let mut res = new_wave_buffer();

    let mut i: u8 = 0;
    while i < len * 2
        invariant
            len <= 8,
            i <= 2 * len,
            wave_colors(res) == darkness(i as nat),
        decreases 2 * len - i,
    {
        let pushed = push_wave(&mut res, RGB8::default());
        assert(pushed is Ok);
        assert(darkness(i as nat).push(dark()) =~= darkness((i + 1) as nat));
        i = i + 1;
    }
    let ghost first = darkness(2 * len as nat);

    let mut x: u8 = 1;
    while x <= len
        invariant
            len <= 8,
            1 <= x <= len + 1,
            wave_colors(res) == first + rising(color, len).take(x - 1),
            first.len() == 2 * len,
        decreases len + 1 - x,
    {
        let value = mul_on_ratio(color, x, len);
        let pushed = push_wave(&mut res, value);
        assert(pushed is Ok);
        assert(rising(color, len).take(x - 1).push(value) =~= rising(color, len).take(x as int));
        assert((first + rising(color, len).take(x - 1)).push(value)
            =~= first + rising(color, len).take(x as int));
        x = x + 1;
    }
    assert(rising(color, len).take(len as int) =~= rising(color, len));
    let ghost second = first + rising(color, len);

    let mut x: u8 = len;
    while x > 1
        invariant
            len <= 8,
            1 <= len ==> 1 <= x <= len,
            len == 0 ==> x == 0,
            wave_colors(res) == second + falling(color, len).take(len - x),
            second.len() == 3 * len,
        decreases x,
    {
        let value = mul_on_ratio(color, x - 1, len);
        let pushed = push_wave(&mut res, value);
        assert(pushed is Ok);
        assert(falling(color, len).take(len - x).push(value) =~= falling(color, len).take(len - x + 1));
        assert((second + falling(color, len).take(len - x)).push(value)
            =~= second + falling(color, len).take(len - x + 1));
        x = x - 1;
    }
    assert(falling(color, len).take(falling(color, len).len() as int) =~= falling(color, len));
    let ghost third = second + falling(color, len);

    let mut i: u8 = 0;
    while i < len * 2
        invariant
            len <= 8,
            i <= 2 * len,
            wave_colors(res) == third + darkness(i as nat),
            third.len() <= 6 * len,
            1 <= len ==> third.len() + 1 == 4 * len,
        decreases 2 * len - i,
    {
        let pushed = push_wave(&mut res, RGB8::default());
        assert(pushed is Ok);
        assert(darkness(i as nat).push(dark()) =~= darkness((i + 1) as nat));
        assert((third + darkness(i as nat)).push(dark()) =~= third + darkness((i + 1) as nat));
        i = i + 1;
    }
    res
}

/// `color` at `x / m` of its brightness: each component times `x`, divided
/// by `m` and rounded down.
pub open spec fn fade(color: RGB8, x: int, m: int) -> RGB8 {
    RGB8 {
        r: ((color.r as int) * x / m) as u8,
        g: ((color.g as int) * x / m) as u8,
        b: ((color.b as int) * x / m) as u8,
    }
}

/// The steps of a wave of brightness `m`: rising, step `2m + x - 1` is the
/// colour at `x / m` for `x` from 1 to `m`; falling, step `4m - 1 - x` is
/// the colour at `x / m` again for `x` from 1 to `m - 1`. No component is
/// rounded above the colour's own.
pub proof fn lemma_triangle_wave_steps(color: RGB8)
    ensures
        ({
            let m = brightness(color) as int;
            let w = spec_triangle_wave(color);
            &&& forall|x: int| 1 <= x <= m ==> #[trigger] w[2 * m + x - 1] == fade(color, x, m)
            &&& forall|x: int| 1 <= x < m ==> #[trigger] w[4 * m - 1 - x] == fade(color, x, m)
            &&& forall|x: int| 1 <= x <= m ==> {
                &&& (#[trigger] fade(color, x, m)).r as int == (color.r as int) * x / m
                &&& fade(color, x, m).g as int == (color.g as int) * x / m
                &&& fade(color, x, m).b as int == (color.b as int) * x / m
            }
        }),
{
    let mm = brightness(color);
    let m = mm as int;
    let w = spec_triangle_wave(color);
    let d = darkness(2 * mm as nat);
    let up = rising(color, mm);
    let down = falling(color, mm);
    assert(w == d + up + down + d);
    assert forall|x: int| 1 <= x <= m implies #[trigger] w[2 * m + x - 1] == fade(color, x, m) by {
        assert(w[2 * m + x - 1] == up[x - 1]);
        assert(up[x - 1] == scaled(color, x as u8, mm));
    }
    assert forall|x: int| 1 <= x < m implies #[trigger] w[4 * m - 1 - x] == fade(color, x, m) by {
        assert(w[4 * m - 1 - x] == down[m - 1 - x]);
        assert(down[m - 1 - x] == scaled(color, x as u8, mm));
    }
    assert forall|x: int| 1 <= x <= m implies {
        &&& (#[trigger] fade(color, x, m)).r as int == (color.r as int) * x / m
        &&& fade(color, x, m).g as int == (color.g as int) * x / m
        &&& fade(color, x, m).b as int == (color.b as int) * x / m
    } by {
        lemma_component_ratio(color.r, x as u8, mm);
        lemma_component_ratio(color.g, x as u8, mm);
        lemma_component_ratio(color.b, x as u8, mm);
    }
}

/// Every component of `color` is at most the same component of `bound`.
pub open spec fn within(color: RGB8, bound: RGB8) -> bool {
    color.r <= bound.r && color.g <= bound.g && color.b <= bound.b
}

proof fn lemma_component_ratio(c: u8, n: u8, d: u8)
    requires
        0 < d,
        n <= d,
    ensures
        0 <= (c * n) / (d as int) <= c,
        scale_component(c, n, d) == (c * n) / (d as int),
        scale_component(c, n, d) <= c,
        n == d ==> scale_component(c, n, d) == c,
{
    lemma_mul_inequality(n as int, d as int, c as int);
    lemma_mul_is_commutative(n as int, c as int);
    lemma_mul_is_commutative(d as int, c as int);
    lemma_div_is_ordered(c * n, c * d, d as int);
    lemma_div_multiples_vanish(c as int, d as int);
    assert(0 <= c * n) by (nonlinear_arith)
        requires
            0 <= c,
            0 <= n,
    ;
    assert(0 <= (c * n) / (d as int)) by (nonlinear_arith)
        requires
            0 <= c * n,
            0 < d,
    ;
}

/// Scaling by a ratio of at most one lowers no component, and the ratio one
/// gives the colour back.
pub proof fn lemma_scaled_within(color: RGB8, numerator: u8, denominator: u8)
    requires
        0 < denominator,
        numerator <= denominator,
    ensures
        within(scaled(color, numerator, denominator), color),
        numerator == denominator ==> scaled(color, numerator, denominator) == color,
{
    lemma_component_ratio(color.r, numerator, denominator);
    lemma_component_ratio(color.g, numerator, denominator);
    lemma_component_ratio(color.b, numerator, denominator);
}

/// The shape of a triangle wave of brightness `m`: `6m - 1` steps (none when
/// the colour is black), dark for the first and the last `2m` of them, never
/// brighter than the colour in any component, the colour itself at its
/// peak, step `3m - 1`, and the same read from either end.
pub proof fn lemma_triangle_wave_shape(color: RGB8)
    ensures
        ({
            let m = brightness(color) as int;
            let w = spec_triangle_wave(color);
            &&& w.len() == (if m == 0 { 0 } else { 6 * m - 1 })
            &&& forall|i: int| 0 <= i < w.len() ==> within(#[trigger] w[i], color)
            &&& forall|i: int| 0 <= i < 2 * m ==> #[trigger] w[i] == dark()
            &&& forall|i: int| w.len() - 2 * m <= i < w.len() ==> #[trigger] w[i] == dark()
            &&& m >= 1 ==> w[3 * m - 1] == color
            &&& forall|i: int| 0 <= i < w.len() ==> #[trigger] w[i] == w[w.len() - 1 - i]
        }),
{
    let m = brightness(color);
    let w = spec_triangle_wave(color);
    let d = darkness(2 * m as nat);
    let up = rising(color, m);
    let down = falling(color, m);
    assert(w == d + up + down + d);
    assert forall|i: int| 0 <= i < w.len() implies within(#[trigger] w[i], color) by {
        if i < 2 * m {
            assert(w[i] == d[i]);
        } else if i < 3 * m {
            assert(w[i] == up[i - 2 * m]);
            lemma_scaled_within(color, (i - 2 * m + 1) as u8, m);
        } else if i < 3 * m + down.len() {
            assert(w[i] == down[i - 3 * m]);
            lemma_scaled_within(color, (m - 1 - (i - 3 * m)) as u8, m);
        } else {
            assert(w[i] == d[i - 3 * m - down.len()]);
        }
    }
    assert forall|i: int| 0 <= i < 2 * m implies #[trigger] w[i] == dark() by {
        assert(w[i] == d[i]);
    }
    assert forall|i: int| w.len() - 2 * m <= i < w.len() implies #[trigger] w[i] == dark() by {
        assert(w[i] == d[i - 3 * m - down.len()]);
    }
    if m >= 1 {
        assert(w[3 * m - 1] == up[m - 1]);
        lemma_scaled_within(color, m, m);
    }
    assert forall|i: int| 0 <= i < w.len() implies #[trigger] w[i] == w[w.len() - 1 - i] by {
        let j = w.len() - 1 - i;
        if i < 2 * m {
            assert(w[i] == d[i]);
            assert(w[j] == d[j - 3 * m - down.len()]);
        } else if i < 3 * m {
            assert(w[i] == up[i - 2 * m]);
            if i == 3 * m - 1 {
                assert(j == i);
            } else {
                assert(w[j] == down[j - 3 * m]);
            }
        } else if i < 3 * m + down.len() {
            assert(w[i] == down[i - 3 * m]);
            assert(w[j] == up[j - 2 * m]);
        } else {
            assert(w[i] == d[i - 3 * m - down.len()]);
            assert(w[j] == d[j]);
        }
    }
}

} // verus!
