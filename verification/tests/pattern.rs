use heapless::Vec;
use web_serial_blinky::garland::{max, no_pastel, triangle_wave, AMPLITUDE};
use web_serial_blinky::pattern::PatternSource;

#[test]
fn no_samples_no_source() {
    assert!(PatternSource::from_samples(Vec::new()).is_none());
}

#[test]
fn patterns_follow_their_colour() {
    let samples: Vec<u16, 64> = Vec::from_slice(&[1, 0, 1, 1, 0, 0, 1, 0]).unwrap();
    let mut source = PatternSource::from_samples(samples).unwrap();
    for _ in 0..200 {
        let (color, pattern) = source.next_pattern();
        assert!((color.r as u16) < AMPLITUDE);
        assert!((color.g as u16) < AMPLITUDE);
        assert!((color.b as u16) < AMPLITUDE);
        let expected = triangle_wave(no_pastel(color));
        assert_eq!(pattern.as_slice(), expected.as_slice());
        let m = max(color.r, color.g, color.b) as usize;
        assert_eq!(pattern.len(), if m == 0 { 0 } else { 6 * m - 1 });
    }
}

#[test]
fn same_seed_same_colours() {
    let samples: Vec<u16, 64> = Vec::from_slice(&[3, 8, 5, 5, 2]).unwrap();
    let mut a = PatternSource::from_samples(samples.clone()).unwrap();
    let mut b = PatternSource::from_samples(samples).unwrap();
    for _ in 0..20 {
        assert_eq!(a.random_color(), b.random_color());
    }
}

#[test]
fn only_low_bits_of_samples_count() {
    let a: Vec<u16, 64> = Vec::from_slice(&[0x0101, 0x0200, 0x0003, 0xFFFE]).unwrap();
    let b: Vec<u16, 64> = Vec::from_slice(&[0x0001, 0x7F00, 0x1235, 0x0000]).unwrap();
    let mut x = PatternSource::from_samples(a).unwrap();
    let mut y = PatternSource::from_samples(b).unwrap();
    for _ in 0..20 {
        let (cx, px) = x.next_pattern();
        let (cy, py) = y.next_pattern();
        assert_eq!(cx, cy);
        assert_eq!(px.as_slice(), py.as_slice());
    }
}
