use heapless::Vec;
use web_serial_blinky::adc_rand_seed::{adc_seed, checked_adc_seed, seed_from_samples};

fn samples(values: &[u16]) -> Vec<u16, 64> {
    Vec::from_slice(values).unwrap()
}

#[test]
fn get_1111_0000() {
    let expectations: Vec<u16, 64> = samples(&[
        0x0001, // LSB = 1
        0x00FF, // LSB = 1
        0xFFFF, // LSB = 1
        0xFFFF, // LSB = 1
        0x0000, // LSB = 0
        0x00FE, // LSB = 0
        0xFFFE, // LSB = 0
        0xFFFE, // LSB = 0
    ]);

    assert_eq!(0b1111_0000, adc_seed(expectations));
}

#[test]
fn first_sample_is_most_significant() {
    assert_eq!(adc_seed(samples(&[1])), 1);
    assert_eq!(adc_seed(samples(&[0])), 0);
    assert_eq!(adc_seed(samples(&[1, 0])), 0b10);
    assert_eq!(adc_seed(samples(&[0, 1])), 0b01);
    assert_eq!(adc_seed(samples(&[3, 5, 6])), 0b110);
}

#[test]
fn sixty_four_samples_fill_the_seed() {
    let all_odd = samples(&[0x1235u16; 64]);
    assert_eq!(adc_seed(all_odd), u64::MAX);
    let mut alternating = [0u16; 64];
    for (i, v) in alternating.iter_mut().enumerate() {
        *v = if i % 2 == 0 { 1 } else { 2 };
    }
    assert_eq!(adc_seed(samples(&alternating)), 0xAAAA_AAAA_AAAA_AAAA);
}

#[test]
fn appending_a_sample_shifts_in_its_bit() {
    let base = [7u16, 2, 9];
    let s = seed_from_samples(&base);
    assert_eq!(seed_from_samples(&[7, 2, 9, 4]), 2 * s);
    assert_eq!(seed_from_samples(&[7, 2, 9, 5]), 2 * s + 1);
    assert!(s < 1 << base.len());
}

#[test]
fn checked_seed_refuses_no_samples() {
    assert_eq!(checked_adc_seed(Vec::new()), None);
    assert_eq!(checked_adc_seed(samples(&[1, 1])), Some(3));
}
