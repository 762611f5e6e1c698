//! From the magnitude of a transform's bin to the level that is shown.
//!
//! Everything here works on levels, so the scaling of the transform and the
//! compensation for the window, which are factors on an amplitude, are terms
//! that are added to or taken from its level. The caller brings the level of
//! each bin's magnitude, the level of the window size, the level of the
//! window's coherent gain, and for each bin its distance from the reference
//! frequency of 1 kHz in thousandths of an octave.

use vstd::prelude::*;
use crate::level::{clamped, div_floor, frame_in_range, level_in_range, LEVEL_CEILING,
    LEVEL_FLOOR};

verus! {

/// The tilt that makes pink-noise-like material look flat: 4.5 dB per
/// octave.
pub const SPECTRUM_TILT_DB_PER_OCT: i32 = 4_500;

/// The level of the factor two by which every bin but the first is raised
/// for a single-sided spectrum: 6.021 dB.
pub const SINGLE_SIDED_GAIN_DB: i32 = 6_021;

/// Amplitudes at or below this level, -160 dB, read as the floor.
pub const MIN_AMPLITUDE_DB: i32 = -160_000;

/// Thousandths of an octave in one octave.
pub const PER_OCTAVE: i32 = 1000;

/// The level of the amplitude of a bin: the level of its magnitude, scaled
/// by one over the window size for the first bin and by two over the window
/// size for every other, and divided by the coherent gain of the window.
pub open spec fn amplitude_level(
    bin: int,
    magnitude: int,
    window_size_level: int,
    coherent_gain_level: int,
) -> int {
    magnitude + (if bin == 0 {
        0
    } else {
        SINGLE_SIDED_GAIN_DB as int
    }) - window_size_level - coherent_gain_level
}

/// A level tilted by `tilt` thousandths of a decibel per octave over
/// `octaves` thousandths of an octave, rounded down.
pub open spec fn tilted(level: int, octaves: int, tilt: int) -> int {
    level + (tilt * octaves) / (PER_OCTAVE as int)
}

/// The level that is shown for a bin. An amplitude not above the threshold
/// reads as the floor; every bin but the first, whose frequency is zero, is
/// tilted by its distance from the reference frequency; and the result is
/// held to the range between the floor and the ceiling.
pub open spec fn magnitude_level(
    bin: int,
    magnitude: int,
    window_size_level: int,
    coherent_gain_level: int,
    octaves: int,
) -> int {
    let amplitude = amplitude_level(bin, magnitude, window_size_level, coherent_gain_level);
    let db = if amplitude > MIN_AMPLITUDE_DB {
        amplitude
    } else {
        LEVEL_FLOOR as int
    };
    if bin == 0 {
        clamped(db)
    } else {
        clamped(tilted(db, octaves, SPECTRUM_TILT_DB_PER_OCT as int))
    }
}

/// The levels that are shown for the bins of one transform: one for each
/// bin that has both a magnitude and a distance from the reference.
pub open spec fn magnitude_levels(
    magnitudes: Seq<i32>,
    window_size_level: int,
    coherent_gain_level: int,
    octaves: Seq<i32>,
) -> Seq<i32> {
    Seq::new(
        if magnitudes.len() < octaves.len() {
            magnitudes.len()
        } else {
            octaves.len()
        },
        |bin: int|
            magnitude_level(
                bin,
                magnitudes[bin] as int,
                window_size_level,
                coherent_gain_level,
                octaves[bin] as int,
            ) as i32,
    )
}

/// A bin whose amplitude is not above the threshold reads as the floor if
/// it lies at or below the reference frequency. Above it the tilt lifts even
/// a silent bin over the floor.
pub proof fn lemma_silent_bin(
    bin: int,
    magnitude: int,
    window_size_level: int,
    coherent_gain_level: int,
    octaves: int,
)
    requires
        amplitude_level(bin, magnitude, window_size_level, coherent_gain_level)
            <= MIN_AMPLITUDE_DB,
    ensures
        bin == 0 || octaves <= 0 ==> magnitude_level(
            bin,
            magnitude,
            window_size_level,
            coherent_gain_level,
            octaves,
        ) == LEVEL_FLOOR,
        bin != 0 && 0 < octaves <= 53_000 ==> magnitude_level(
            bin,
            magnitude,
            window_size_level,
            coherent_gain_level,
            octaves,
        ) == LEVEL_FLOOR + (SPECTRUM_TILT_DB_PER_OCT * octaves) / (PER_OCTAVE as int),
{
    let shift = (SPECTRUM_TILT_DB_PER_OCT * octaves) / (PER_OCTAVE as int);
    if octaves <= 0 {
        assert(shift <= 0) by (nonlinear_arith)
            requires
                shift == (4_500 * octaves) / 1000,
                octaves <= 0,
        ;
    }
    if 0 < octaves <= 53_000 {
        assert(0 <= shift <= 238_500) by (nonlinear_arith)
            requires
                shift == (4_500 * octaves) / 1000,
                0 < octaves <= 53_000,
        ;
    }
}

/// By how much a tilt of `tilt_db_per_oct` moves a level over `octaves`
/// thousandths of an octave.
fn tilt_shift(octaves: i32, tilt_db_per_oct: i32) -> (shift: i64)
    ensures
        shift == (tilt_db_per_oct as int * octaves as int) / (PER_OCTAVE as int),
        -0x8000_0000 * 0x8000_0000 <= shift <= 0x8000_0000 * 0x8000_0000,
{
    proof {
        let product = tilt_db_per_oct as int * octaves as int;
        assert(-0x8000_0000 * 0x8000_0000 <= product <= 0x8000_0000 * 0x8000_0000)
            by (nonlinear_arith)
            requires
                product == tilt_db_per_oct as int * octaves as int,
                -0x8000_0000 <= tilt_db_per_oct <= 0x8000_0000,
                -0x8000_0000 <= octaves <= 0x8000_0000,
        ;
        assert(-0x8000_0000 * 0x8000_0000 <= product / 1000 <= 0x8000_0000 * 0x8000_0000)
            by (nonlinear_arith)
            requires
                -0x8000_0000 * 0x8000_0000 <= product <= 0x8000_0000 * 0x8000_0000,
        ;
    }
    let product: i128 = (tilt_db_per_oct as i128) * (octaves as i128);
    div_floor(product, PER_OCTAVE as i128) as i64
}

/// Tilts a level by `tilt_db_per_oct` over `octaves` thousandths of an
/// octave: up above the reference frequency, down below it.
pub fn apply_tilt_compensation(magnitude_db: i32, octaves: i32, tilt_db_per_oct: i32) -> (r: i64)
    ensures
        r == tilted(magnitude_db as int, octaves as int, tilt_db_per_oct as int),
{
    magnitude_db as i64 + tilt_shift(octaves, tilt_db_per_oct)
}

/// The level that is shown for one bin of a transform.
pub fn magnitude_db(
    bin_idx: usize,
    magnitude: i32,
    window_size_level: i32,
    coherent_gain_level: i32,
    octaves: i32,
) -> (level: i32)
    ensures
        level == magnitude_level(
            bin_idx as int,
            magnitude as int,
            window_size_level as int,
            coherent_gain_level as int,
            octaves as int,
        ),
        level_in_range(level as int),
{
    let scale: i64 = if bin_idx == 0 {
        0
    } else {
        SINGLE_SIDED_GAIN_DB as i64
    };
    let amplitude: i64 = magnitude as i64 + scale - window_size_level as i64
        - coherent_gain_level as i64;
    let db: i64 = if amplitude > MIN_AMPLITUDE_DB as i64 {
        amplitude
    } else {
        LEVEL_FLOOR as i64
    };
    let raised: i64 = if bin_idx == 0 {
        db
    } else {
        db + tilt_shift(octaves, SPECTRUM_TILT_DB_PER_OCT)
    };
    if raised < LEVEL_FLOOR as i64 {
        LEVEL_FLOOR
    } else if raised > LEVEL_CEILING as i64 {
        LEVEL_CEILING
    } else {
        raised as i32
    }
}

/// The levels that are shown for the bins of one transform.
pub fn compute_magnitude_spectrum(
    magnitudes: &[i32],
    window_size_level: i32,
    window_coherent_gain_level: i32,
    octaves: &[i32],
) -> (spectrum: Vec<i32>)
    ensures
        spectrum@ == magnitude_levels(
            magnitudes@,
            window_size_level as int,
            window_coherent_gain_level as int,
            octaves@,
        ),
        frame_in_range(spectrum@),
{
    let mut spectrum: Vec<i32> = Vec::with_capacity(magnitudes.len());
    compute_magnitude_spectrum_into(
        magnitudes,
        window_size_level,
        window_coherent_gain_level,
        octaves,
        &mut spectrum,
    );
    spectrum
}

/// Writes the levels that are shown for the bins of one transform into
/// `out`, which is emptied first and keeps its allocation.
pub fn compute_magnitude_spectrum_into(
    magnitudes: &[i32],
    window_size_level: i32,
    window_coherent_gain_level: i32,
    octaves: &[i32],
    out: &mut Vec<i32>,
)
    ensures
        final(out)@ == magnitude_levels(
            magnitudes@,
            window_size_level as int,
            window_coherent_gain_level as int,
            octaves@,
        ),
        frame_in_range(final(out)@),
{
    let len: usize = if magnitudes.len() < octaves.len() {
        magnitudes.len()
    } else {
        octaves.len()
    };
    out.clear();
    let mut bin: usize = 0;
    while bin < len
        invariant
            len <= magnitudes@.len(),
            len <= octaves@.len(),
            bin <= len,
            out@.len() == bin,
            forall|k: int|
                0 <= k < bin ==> #[trigger] out@[k] == magnitude_level(
                    k,
                    magnitudes@[k] as int,
                    window_size_level as int,
                    window_coherent_gain_level as int,
                    octaves@[k] as int,
                ),
        decreases len - bin,
    {
        let level: i32 = magnitude_db(
            bin,
            magnitudes[bin],
            window_size_level,
            window_coherent_gain_level,
            octaves[bin],
        );
        out.push(level);
        bin += 1;
    }
    assert(out@ =~= magnitude_levels(
        magnitudes@,
        window_size_level as int,
        window_coherent_gain_level as int,
        octaves@,
    ));
}

} // verus!
