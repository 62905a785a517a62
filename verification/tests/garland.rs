use web_serial_blinky::garland::{
    max, max2, mul_on_ratio, no_pastel, single_point, triangle_wave, AMPLITUDE, LEN, RGB8,
};

fn rgb(r: u8, g: u8, b: u8) -> RGB8 {
    RGB8 { r, g, b }
}

#[test]
fn correct_ratio() {
    let res = mul_on_ratio(RGB8 { r: 20, g: 10, b: 5 }, 1, 5);

    assert_eq!(RGB8 { r: 4, g: 2, b: 1 }, res);
}

#[test]
fn ratio_rounds_down_and_full_ratio_keeps_colour() {
    assert_eq!(mul_on_ratio(rgb(7, 5, 3), 2, 3), rgb(4, 3, 2));
    assert_eq!(mul_on_ratio(rgb(7, 5, 3), 3, 3), rgb(7, 5, 3));
    assert_eq!(mul_on_ratio(rgb(255, 255, 255), 255, 255), rgb(255, 255, 255));
}

#[test]
fn ratio_above_one_keeps_low_byte() {
    // 200 * 3 / 2 = 300, of which the low byte is 44
    assert_eq!(mul_on_ratio(rgb(200, 10, 0), 3, 2), rgb(44, 15, 0));
}

#[test]
fn max_picks_largest() {
    assert_eq!(max2(3, 9), 9);
    assert_eq!(max2(9, 3), 9);
    assert_eq!(max2(4, 4), 4);
    assert_eq!(max(1, 2, 3), 3);
    assert_eq!(max(3, 2, 1), 3);
    assert_eq!(max(1, 3, 2), 3);
}

#[test]
fn no_pastel_red_brightest() {
    // red is the largest: green and blue are divided by 3
    assert_eq!(no_pastel(rgb(6, 5, 4)), rgb(6, 1, 1));
    assert_eq!(no_pastel(rgb(7, 3, 6)), rgb(7, 1, 2));
}

#[test]
fn no_pastel_green_brightest() {
    assert_eq!(no_pastel(rgb(5, 6, 4)), rgb(1, 6, 1));
    assert_eq!(no_pastel(rgb(3, 7, 6)), rgb(1, 7, 2));
}

#[test]
fn no_pastel_blue_brightest() {
    assert_eq!(no_pastel(rgb(5, 4, 6)), rgb(1, 1, 6));
    assert_eq!(no_pastel(rgb(6, 3, 7)), rgb(2, 1, 7));
}

#[test]
fn no_pastel_ties_and_black() {
    // red and green tie: red counts as the brightest
    assert_eq!(no_pastel(rgb(6, 6, 3)), rgb(6, 2, 1));
    assert_eq!(no_pastel(rgb(0, 0, 0)), rgb(0, 0, 0));
}

#[test]
fn no_pastel_lowers_two_components() {
    for r in 0..8u8 {
        for g in 0..8u8 {
            for b in 0..8u8 {
                let v = no_pastel(rgb(r, g, b));
                let m = max(r, g, b);
                let lowered = [(r, v.r), (g, v.g), (b, v.b)]
                    .iter()
                    .filter(|(before, after)| after < before)
                    .count();
                if [r, g, b].iter().filter(|c| **c == m).count() == 1 && r > 0 && g > 0 && b > 0 {
                    assert_eq!(lowered, 2);
                }
            }
        }
    }
}

#[test]
fn no_pastel_keeps_brightness() {
    for r in 0..8u8 {
        for g in 0..8u8 {
            for b in 0..8u8 {
                let c = rgb(r, g, b);
                let v = no_pastel(c);
                assert_eq!(max(v.r, v.g, v.b), max(r, g, b));
                assert!(v.r <= r && v.g <= g && v.b <= b);
            }
        }
    }
}

#[test]
fn single_point_holds_the_colour() {
    let p = single_point(rgb(1, 2, 3));
    assert_eq!(p.len(), 1);
    assert_eq!(p[0], rgb(1, 2, 3));
}

#[test]
fn triangle_wave_of_black_is_empty() {
    assert_eq!(triangle_wave(rgb(0, 0, 0)).len(), 0);
}

#[test]
fn triangle_wave_height_two() {
    let c = rgb(2, 1, 0);
    let w = triangle_wave(c);
    let black = rgb(0, 0, 0);
    let expected = [
        black,
        black,
        black,
        black,
        rgb(1, 0, 0),
        rgb(2, 1, 0),
        rgb(1, 0, 0),
        black,
        black,
        black,
        black,
    ];
    assert_eq!(w.as_slice(), &expected[..]);
}

#[test]
fn triangle_wave_shape_at_full_amplitude() {
    let c = rgb(8, 4, 2);
    let w = triangle_wave(c);
    let m = 8usize;
    assert_eq!(w.len(), 6 * m - 1);
    assert!(w.len() <= LEN);
    assert_eq!(w[3 * m - 1], c);
    for i in 0..2 * m {
        assert_eq!(w[i], rgb(0, 0, 0));
        assert_eq!(w[w.len() - 1 - i], rgb(0, 0, 0));
    }
    for x in w.iter() {
        assert!(x.r <= c.r && x.g <= c.g && x.b <= c.b);
    }
    // rising edge: x/8 of the colour for x = 1..=8
    for x in 1..=8u8 {
        assert_eq!(w[2 * m + x as usize - 1], mul_on_ratio(c, x, 8));
    }
    // falling edge: x/8 for x = 7 down to 1
    for k in 0..7usize {
        assert_eq!(w[3 * m + k], mul_on_ratio(c, 7 - k as u8, 8));
    }
    // the same read from either end
    for i in 0..w.len() {
        assert_eq!(w[i], w[w.len() - 1 - i]);
    }
    assert_eq!(AMPLITUDE, 8);
}
