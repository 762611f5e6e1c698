//! Real-time analysis core of an audio effect: overlap windowing, spectrum
//! post-processing, level metering and the relay that hands results to a
//! display thread.
//!
//! Levels are fixed-point numbers, thousandths of a decibel in an `i32`;
//! coefficients between zero and one are parts per million in a `u32`.
//! Samples pass through untouched, whatever their type. The transform and
//! the transcendental functions around it are the caller's: the library
//! takes the tables and the levels that the caller has computed and does the
//! rest.
//!
//! - `level`: levels, their range, and the attack/release recurrence.
//! - `ring`: the ring accumulator that gathers samples into windows.
//! - `window_functions`: window tables and the blend of three spectra.
//! - `magnitude`: from the magnitude of a bin to the level that is shown.
//! - `smoothing`: smoothing of a frame over time and over frequency.
//! - `spectrum`: the spectrum pipeline, producer and consumer.
//! - `meter`: peak metering, producer and consumer.
//! - `relay`: the lock-free relay between the two threads.
//! - `grid`: the description of the display's grid.

pub mod grid;
pub mod level;
pub mod magnitude;
pub mod meter;
pub mod relay;
pub mod ring;
pub mod smoothing;
pub mod spectrum;
pub mod window_functions;
