//! Colour patterns for a WS2812 garland and the small pieces of logic of a
//! USB-controlled blinky: the seed taken from ADC noise, the garland patterns
//! and the LED commands that arrive over the serial port.

pub mod garland;
pub mod buffers;
pub mod adc_rand_seed;
pub mod control;
pub mod pattern;
