//! Window tables for spectral analysis and the strategy that blends the
//! spectra taken through three of them.
//!
//! A window coefficient is a number between zero and one in parts per
//! million. The cosines that the tapering shapes are made of come from the
//! caller as a table: entry `i` of a table of `n` entries stands for
//! `cos(2 * pi * i / n)`, in parts per million.

use vstd::prelude::*;
use crate::level::{frame_in_range, level_in_range, mix_levels, mixed, UNITY};
use crate::ring::wrapped;

verus! {

/// The shapes a window can have.
#[derive(Debug, Clone, Copy, PartialEq, Eq, Hash, Structural)]
pub enum WindowType {
    /// No tapering: the best frequency resolution.
    Rectangular,
    /// Raised cosine: a good general balance.
    Hann,
    /// Raised cosine on a pedestal: lower first side lobe.
    Hamming,
    /// Two cosine terms: very low side lobes, wider main lobe.
    Blackman,
}

/// A table entry as a cosine: an entry beyond plus or minus one counts as
/// the nearest of the two.
pub open spec fn unit_cosine(entry: int) -> int {
    if entry < -(UNITY as int) {
        -(UNITY as int)
    } else if entry > UNITY as int {
        UNITY as int
    } else {
        entry
    }
}

/// The Hann coefficient `0.5 * (1 - c)` for the cosine `c`.
pub open spec fn hann_coefficient(c: int) -> int {
    (UNITY as int - c) / 2
}

/// The Hamming coefficient `0.54 - 0.46 * c` for the cosine `c`.
pub open spec fn hamming_coefficient(c: int) -> int {
    (54 * (UNITY as int) - 46 * c) / 100
}

/// The Blackman coefficient `0.42 - 0.5 * c + 0.08 * d` for the cosine `c`
/// of the angle and the cosine `d` of twice the angle, never below zero.
pub open spec fn blackman_coefficient(c: int, d: int) -> int {
    let numerator = 42 * (UNITY as int) - 50 * c + 8 * d;
    if numerator < 0 {
        0
    } else {
        numerator / 100
    }
}

/// Coefficient `i` of the window of the given shape over the cosine table.
pub open spec fn window_coefficient(shape: WindowType, cosines: Seq<i32>, i: int) -> int {
    match shape {
        WindowType::Rectangular => UNITY as int,
        WindowType::Hann => hann_coefficient(unit_cosine(cosines[i] as int)),
        WindowType::Hamming => hamming_coefficient(unit_cosine(cosines[i] as int)),
        WindowType::Blackman => blackman_coefficient(
            unit_cosine(cosines[i] as int),
            unit_cosine(cosines[wrapped(2 * i, cosines.len() as int)] as int),
        ),
    }
}

/// The window of the given shape over the cosine table: as many coefficients
/// as the table has entries.
pub open spec fn generated(shape: WindowType, cosines: Seq<i32>) -> Seq<u32> {
    Seq::new(cosines.len(), |i: int| window_coefficient(shape, cosines, i) as u32)
}

/// Whether every coefficient lies between zero and one.
pub open spec fn coefficients_in_unit(coefficients: Seq<u32>) -> bool {
    forall|i: int| 0 <= i < coefficients.len() ==> #[trigger] coefficients[i] <= UNITY
}

/// The sum of the values.
pub open spec fn total(values: Seq<u32>) -> int
    decreases values.len(),
{
    if values.len() == 0 {
        0
    } else {
        total(values.drop_last()) + values.last()
    }
}

/// The mean of the values, rounded down; zero for no values.
pub open spec fn mean(values: Seq<u32>) -> int {
    if values.len() == 0 {
        0
    } else {
        total(values) / (values.len() as int)
    }
}

/// A sum of values lies between zero and the number of values times their
/// largest.
pub proof fn lemma_total_bounds(values: Seq<u32>, bound: int)
    requires
        forall|i: int| 0 <= i < values.len() ==> #[trigger] values[i] <= bound,
    ensures
        0 <= total(values) <= values.len() * bound,
    decreases values.len(),
{
    if values.len() > 0 {
        lemma_total_bounds(values.drop_last(), bound);
        assert(values.len() * bound == (values.len() - 1) * bound + bound) by (nonlinear_arith);
    }
}

/// The sum of `n` equal values.
pub proof fn lemma_total_of_constant(values: Seq<u32>, value: u32)
    requires
        forall|i: int| 0 <= i < values.len() ==> #[trigger] values[i] == value,
    ensures
        total(values) == values.len() * value,
    decreases values.len(),
{
    if values.len() > 0 {
        lemma_total_of_constant(values.drop_last(), value);
        assert(values.len() * value == (values.len() - 1) * value + value) by (nonlinear_arith);
    }
}

/// The coherent gain of a rectangular window of any positive size is one.
pub proof fn lemma_rectangular_gain_is_unity(cosines: Seq<i32>)
    requires
        cosines.len() > 0,
    ensures
        mean(generated(WindowType::Rectangular, cosines)) == UNITY,
{
    let window = generated(WindowType::Rectangular, cosines);
    lemma_total_of_constant(window, UNITY);
    let n = window.len() as int;
    assert((n * 1_000_000) / n == 1_000_000) by (nonlinear_arith)
        requires
            n > 0,
    ;
}

/// Generating a window twice from the same shape and table gives the same
/// coefficients, entry by entry.
pub proof fn lemma_generate_is_repeatable(
    shape: WindowType,
    cosines: Seq<i32>,
    first: Seq<u32>,
    second: Seq<u32>,
)
    requires
        first == generated(shape, cosines),
        second == generated(shape, cosines),
    ensures
        first == second,
        first.len() == cosines.len(),
{
}

/// A cosine table entry as a cosine.
fn cosine_at(cosines: &[i32], i: usize) -> (c: i64)
    requires
        i < cosines@.len(),
    ensures
        c == unit_cosine(cosines@[i as int] as int),
{
    let entry: i32 = cosines[i];
    let unit: i64 = UNITY as i64;
    if (entry as i64) < -unit {
        -unit
    } else if (entry as i64) > unit {
        unit
    } else {
        entry as i64
    }
}

/// The Hann window `0.5 * (1 - cos(2 * pi * i / n))` over a cosine table of
/// `n` entries.
pub fn generate_hann_window(cosines: &[i32]) -> (window: Vec<u32>)
    ensures
        window@ == generated(WindowType::Hann, cosines@),
        coefficients_in_unit(window@),
{
    let n: usize = cosines.len();
    let mut window: Vec<u32> = Vec::with_capacity(n);
    let mut i: usize = 0;
    while i < n
        invariant
            n == cosines@.len(),
            i <= n,
            window@.len() == i,
            forall|k: int|
                0 <= k < i ==> #[trigger] window@[k] == window_coefficient(
                    WindowType::Hann,
                    cosines@,
                    k,
                ),
        decreases n - i,
    {
        let c: i64 = cosine_at(cosines, i);
        window.push(((UNITY as i64 - c) / 2) as u32);
        i += 1;
    }
    assert(window@ =~= generated(WindowType::Hann, cosines@));
    window
}

/// The Hamming window `0.54 - 0.46 * cos(2 * pi * i / n)` over a cosine
/// table of `n` entries.
pub fn generate_hamming_window(cosines: &[i32]) -> (window: Vec<u32>)
    ensures
        window@ == generated(WindowType::Hamming, cosines@),
        coefficients_in_unit(window@),
{
    let n: usize = cosines.len();
    let mut window: Vec<u32> = Vec::with_capacity(n);
    let mut i: usize = 0;
    while i < n
        invariant
            n == cosines@.len(),
            i <= n,
            window@.len() == i,
            forall|k: int|
                0 <= k < i ==> #[trigger] window@[k] == window_coefficient(
                    WindowType::Hamming,
                    cosines@,
                    k,
                ),
        decreases n - i,
    {
        let c: i64 = cosine_at(cosines, i);
        window.push(((54 * (UNITY as i64) - 46 * c) / 100) as u32);
        i += 1;
    }
    assert(window@ =~= generated(WindowType::Hamming, cosines@));
    window
}

/// The Blackman window
/// `0.42 - 0.5 * cos(2 * pi * i / n) + 0.08 * cos(4 * pi * i / n)` over a
/// cosine table of `n` entries. The cosine of the doubled angle is the table
/// entry at twice the index, taken around the table.
pub fn generate_blackman_window(cosines: &[i32]) -> (window: Vec<u32>)
    ensures
        window@ == generated(WindowType::Blackman, cosines@),
        coefficients_in_unit(window@),
{
    let n: usize = cosines.len();
    let mut window: Vec<u32> = Vec::with_capacity(n);
    let mut i: usize = 0;
    while i < n
        invariant
            n == cosines@.len(),
            i <= n,
            window@.len() == i,
            forall|k: int|
                0 <= k < i ==> #[trigger] window@[k] == window_coefficient(
                    WindowType::Blackman,
                    cosines@,
                    k,
                ),
        decreases n - i,
    {
        let c: i64 = cosine_at(cosines, i);
        let doubled: usize = if i < n - i {
            i + i
        } else {
            i - (n - i)
        };
        let d: i64 = cosine_at(cosines, doubled);
        let numerator: i64 = 42 * (UNITY as i64) - 50 * c + 8 * d;
        let coefficient: u32 = if numerator < 0 {
            0
        } else {
            (numerator / 100) as u32
        };
        window.push(coefficient);
        i += 1;
    }
    assert(window@ =~= generated(WindowType::Blackman, cosines@));
    window
}

impl WindowType {
    /// The window of this shape over a cosine table: one coefficient for
    /// each entry of the table, each between zero and one.
    pub fn generate(self, cosines: &[i32]) -> (window: Vec<u32>)
        ensures
            window@ == generated(self, cosines@),
            window@.len() == cosines@.len(),
            coefficients_in_unit(window@),
    {
        match self {
            WindowType::Rectangular => {
                let n: usize = cosines.len();
                let mut window: Vec<u32> = Vec::with_capacity(n);
                let mut i: usize = 0;
                while i < n
                    invariant
                        n == cosines@.len(),
                        i <= n,
                        window@.len() == i,
                        forall|k: int| 0 <= k < i ==> #[trigger] window@[k] == UNITY,
                    decreases n - i,
                {
                    window.push(UNITY);
                    i += 1;
                }
                assert(window@ =~= generated(WindowType::Rectangular, cosines@));
                window
            },
            WindowType::Hann => generate_hann_window(cosines),
            WindowType::Hamming => generate_hamming_window(cosines),
            WindowType::Blackman => generate_blackman_window(cosines),
        }
    }

    /// The coherent gain of a window: the mean of its coefficients, which
    /// undoes the loss of amplitude that the window brings. Zero for a
    /// window without coefficients.
    pub fn coherent_gain(self, coefficients: &[u32]) -> (gain: u32)
        ensures
            gain == mean(coefficients@),
            coefficients_in_unit(coefficients@) ==> gain <= UNITY,
    {
        let n: usize = coefficients.len();
        if n == 0 {
            return 0;
        }
        let mut sum: u128 = 0;
        let mut i: usize = 0;
        while i < n
            invariant
                n == coefficients@.len(),
                i <= n,
                sum == total(coefficients@.take(i as int)),
                sum <= i * 0xffff_ffff,
            decreases n - i,
        {
            proof {
                let next = coefficients@.take(i + 1);
                assert(next.drop_last() =~= coefficients@.take(i as int));
                assert((i + 1) * 0xffff_ffff == i * 0xffff_ffff + 0xffff_ffff)
                    by (nonlinear_arith);
                assert(i * 0xffff_ffff <= 0xffff_ffff_ffff_ffff * 0xffff_ffff)
                    by (nonlinear_arith)
                    requires
                        i <= 0xffff_ffff_ffff_ffff,
                ;
            }
            sum = sum + coefficients[i] as u128;
            i += 1;
        }
        proof {
            assert(coefficients@.take(n as int) =~= coefficients@);
            let t = total(coefficients@);
            let len = n as int;
            assert(0 <= t / len <= 0xffff_ffff) by (nonlinear_arith)
                requires
                    0 <= t <= len * 0xffff_ffff,
                    len > 0,
            ;
            if coefficients_in_unit(coefficients@) {
                lemma_total_bounds(coefficients@, UNITY as int);
                assert(t / len <= 1_000_000) by (nonlinear_arith)
                    requires
                        0 <= t <= len * 1_000_000,
                        len > 0,
                ;
            }
        }
        (sum / (n as u128)) as u32
    }
}

/// One window table: the coefficients that the samples are multiplied by
/// before the transform, and their coherent gain.
pub struct WindowData {
    /// One coefficient for each sample of the analysis window.
    pub coefficients: Vec<u32>,
    /// The mean of the coefficients.
    pub coherent_gain: u32,
}

impl WindowData {
    /// Whether the coefficients lie between zero and one and the gain is
    /// their mean.
    pub open spec fn wf(&self) -> bool {
        &&& coefficients_in_unit(self.coefficients@)
        &&& self.coherent_gain == mean(self.coefficients@)
    }

    /// The table of the given shape over a cosine table.
    pub fn new(shape: WindowType, cosines: &[i32]) -> (data: WindowData)
        ensures
            data.wf(),
            data.coefficients@ == generated(shape, cosines@),
    {
        let coefficients = shape.generate(cosines);
        let coherent_gain = shape.coherent_gain(coefficients.as_slice());
        WindowData { coefficients, coherent_gain }
    }
}

/// The three window tables of an adaptive analysis, one for each region of
/// the spectrum.
pub struct AdaptiveWindows {
    /// For the low region, where resolution matters most.
    pub low_freq: WindowData,
    /// For the middle region.
    pub mid_freq: WindowData,
    /// For the high region, where a clean display matters most.
    pub high_freq: WindowData,
}

impl AdaptiveWindows {
    /// Whether the three tables are well formed and equally long.
    pub open spec fn wf(&self) -> bool {
        &&& self.low_freq.wf()
        &&& self.mid_freq.wf()
        &&& self.high_freq.wf()
        &&& self.mid_freq.coefficients@.len() == self.low_freq.coefficients@.len()
        &&& self.high_freq.coefficients@.len() == self.low_freq.coefficients@.len()
    }

    /// The three tables that a strategy asks for, over one cosine table.
    pub fn new(strategy: &AdaptiveWindowStrategy, cosines: &[i32]) -> (windows: AdaptiveWindows)
        ensures
            windows.wf(),
            windows.low_freq.coefficients@ == generated(strategy.low_freq_window, cosines@),
            windows.mid_freq.coefficients@ == generated(strategy.mid_freq_window, cosines@),
            windows.high_freq.coefficients@ == generated(strategy.high_freq_window, cosines@),
    {
        AdaptiveWindows {
            low_freq: WindowData::new(strategy.low_freq_window, cosines),
            mid_freq: WindowData::new(strategy.mid_freq_window, cosines),
            high_freq: WindowData::new(strategy.high_freq_window, cosines),
        }
    }
}

/// Whether the centre frequency of a bin, `bin * sample_rate / window_size`,
/// lies below `hz`.
pub open spec fn bin_below(bin: int, sample_rate: int, window_size: int, hz: int) -> bool {
    bin * sample_rate < hz * window_size
}

/// Whether the centre frequency of a bin lies above `hz`.
pub open spec fn bin_above(bin: int, sample_rate: int, window_size: int, hz: int) -> bool {
    bin * sample_rate > hz * window_size
}

/// How far the centre frequency of a bin has come from `from_hz` to `to_hz`,
/// in parts per million, rounded down.
pub open spec fn crossfade_factor(
    bin: int,
    sample_rate: int,
    window_size: int,
    from_hz: int,
    to_hz: int,
) -> int {
    ((bin * sample_rate - from_hz * window_size) * (UNITY as int)) / ((to_hz - from_hz)
        * window_size)
}

/// Whether the centre frequency of a bin lies below `hz`.
pub fn is_bin_below(bin: usize, sample_rate: u32, window_size: usize, hz: u32) -> (below: bool)
    ensures
        below == bin_below(bin as int, sample_rate as int, window_size as int, hz as int),
{
    proof {
        lemma_product_fits(bin as int, sample_rate as int);
        lemma_product_fits(window_size as int, hz as int);
    }
    (bin as u128) * (sample_rate as u128) < (hz as u128) * (window_size as u128)
}

/// Whether the centre frequency of a bin lies above `hz`.
pub fn is_bin_above(bin: usize, sample_rate: u32, window_size: usize, hz: u32) -> (above: bool)
    ensures
        above == bin_above(bin as int, sample_rate as int, window_size as int, hz as int),
{
    proof {
        lemma_product_fits(bin as int, sample_rate as int);
        lemma_product_fits(window_size as int, hz as int);
    }
    (bin as u128) * (sample_rate as u128) > (hz as u128) * (window_size as u128)
}

/// The product of a machine index and a 32-bit rate stays below 2^96.
pub proof fn lemma_product_fits(index: int, rate: int)
    requires
        0 <= index <= 0xffff_ffff_ffff_ffff,
        0 <= rate <= 0xffff_ffff,
    ensures
        0 <= index * rate <= 0xffff_ffff_ffff_ffff * 0xffff_ffff,
        rate * index == index * rate,
{
    assert(0 <= index * rate <= 0xffff_ffff_ffff_ffff * 0xffff_ffff) by (nonlinear_arith)
        requires
            0 <= index <= 0xffff_ffff_ffff_ffff,
            0 <= rate <= 0xffff_ffff,
    ;
    assert(rate * index == index * rate) by (nonlinear_arith);
}

/// Inside a crossfade band the factor lies between zero and one.
pub proof fn lemma_crossfade_factor_in_unit(
    bin: int,
    sample_rate: int,
    window_size: int,
    from_hz: int,
    to_hz: int,
)
    requires
        window_size > 0,
        !bin_below(bin, sample_rate, window_size, from_hz),
        bin_below(bin, sample_rate, window_size, to_hz),
    ensures
        from_hz < to_hz,
        (to_hz - from_hz) * window_size == to_hz * window_size - from_hz * window_size,
        0 <= crossfade_factor(bin, sample_rate, window_size, from_hz, to_hz) < UNITY,
{
    let position = bin * sample_rate - from_hz * window_size;
    let width = (to_hz - from_hz) * window_size;
    assert(width == to_hz * window_size - from_hz * window_size) by (nonlinear_arith)
        requires
            width == (to_hz - from_hz) * window_size,
    ;
    assert(from_hz < to_hz) by (nonlinear_arith)
        requires
            from_hz * window_size < to_hz * window_size,
            window_size > 0,
    ;
    let u = UNITY as int;
    let q = (position * u) / width;
    assert(0 <= q < u) by (nonlinear_arith)
        requires
            q == (position * u) / width,
            0 <= position < width,
            u == 1_000_000,
    ;
}

/// The strategy of an adaptive analysis: which window serves which region of
/// the spectrum, and the two bands, in hertz, over which one region fades
/// into the next.
pub struct AdaptiveWindowStrategy {
    /// The window for the low region.
    pub low_freq_window: WindowType,
    /// The window for the middle region.
    pub mid_freq_window: WindowType,
    /// The window for the high region.
    pub high_freq_window: WindowType,
    /// Where the low region starts and ends fading into the middle one.
    pub low_mid_crossfade: (u32, u32),
    /// Where the middle region starts and ends fading into the high one.
    pub mid_high_crossfade: (u32, u32),
}

impl Default for AdaptiveWindowStrategy {
    /// Hann below, Hann in the middle, Blackman above, fading over
    /// 480-520 Hz and over 8000-9000 Hz.
    fn default() -> (strategy: Self)
        ensures
            strategy.low_freq_window == WindowType::Hann,
            strategy.mid_freq_window == WindowType::Hann,
            strategy.high_freq_window == WindowType::Blackman,
            strategy.low_mid_crossfade == (480u32, 520u32),
            strategy.mid_high_crossfade == (8000u32, 9000u32),
    {
        AdaptiveWindowStrategy {
            low_freq_window: WindowType::Hann,
            mid_freq_window: WindowType::Hann,
            high_freq_window: WindowType::Blackman,
            low_mid_crossfade: (480, 520),
            mid_high_crossfade: (8000, 9000),
        }
    }
}

impl AdaptiveWindowStrategy {
    /// The blended level of one bin: the low spectrum below the first band,
    /// the middle one between the bands, the high one above the second band,
    /// and inside a band a linear crossfade by the bin's centre frequency.
    pub open spec fn blended_bin(
        &self,
        low: Seq<i32>,
        mid: Seq<i32>,
        high: Seq<i32>,
        bin: int,
        sample_rate: int,
        window_size: int,
    ) -> int {
        if bin_below(bin, sample_rate, window_size, self.low_mid_crossfade.0 as int) {
            low[bin] as int
        } else if bin_below(bin, sample_rate, window_size, self.low_mid_crossfade.1 as int) {
            mixed(
                low[bin] as int,
                mid[bin] as int,
                crossfade_factor(
                    bin,
                    sample_rate,
                    window_size,
                    self.low_mid_crossfade.0 as int,
                    self.low_mid_crossfade.1 as int,
                ),
            )
        } else if bin_below(bin, sample_rate, window_size, self.mid_high_crossfade.0 as int) {
            mid[bin] as int
        } else if bin_below(bin, sample_rate, window_size, self.mid_high_crossfade.1 as int) {
            mixed(
                mid[bin] as int,
                high[bin] as int,
                crossfade_factor(
                    bin,
                    sample_rate,
                    window_size,
                    self.mid_high_crossfade.0 as int,
                    self.mid_high_crossfade.1 as int,
                ),
            )
        } else {
            high[bin] as int
        }
    }

    /// The blended spectrum: bin by bin, as long as the low spectrum.
    pub open spec fn blended(
        &self,
        low: Seq<i32>,
        mid: Seq<i32>,
        high: Seq<i32>,
        sample_rate: int,
        window_size: int,
    ) -> Seq<i32> {
        Seq::new(
            low.len(),
            |bin: int| self.blended_bin(low, mid, high, bin, sample_rate, window_size) as i32,
        )
    }

    /// Blends the three spectra of one analysis window, each taken through
    /// the window of its region, into one. The result has a bin for each bin
    /// of the low spectrum; the other two must have at least as many. Every
    /// bin of the result lies between the least and the greatest of the three
    /// levels that it is blended from.
    pub fn blend_frequency_spectrums(
        &self,
        low_spectrum: &[i32],
        mid_spectrum: &[i32],
        high_spectrum: &[i32],
        sample_rate: u32,
        window_size: usize,
    ) -> (blended: Vec<i32>)
        requires
            window_size > 0,
            mid_spectrum@.len() >= low_spectrum@.len(),
            high_spectrum@.len() >= low_spectrum@.len(),
        ensures
            blended@ == self.blended(
                low_spectrum@,
                mid_spectrum@,
                high_spectrum@,
                sample_rate as int,
                window_size as int,
            ),
            blended@.len() == low_spectrum@.len(),
            forall|bin: int|
                0 <= bin < low_spectrum@.len() ==> between(
                    #[trigger] blended@[bin] as int,
                    low_spectrum@[bin] as int,
                    mid_spectrum@[bin] as int,
                    high_spectrum@[bin] as int,
                ),
            frame_in_range(low_spectrum@) && frame_in_range(mid_spectrum@) && frame_in_range(
                high_spectrum@,
            ) ==> frame_in_range(blended@),
    {
        let mut blended: Vec<i32> = Vec::with_capacity(low_spectrum.len());
        self.blend_into(
            low_spectrum,
            mid_spectrum,
            high_spectrum,
            sample_rate,
            window_size,
            &mut blended,
        );
        blended
    }

    /// Blends the three spectra of one analysis window into `out`, which is
    /// emptied first and keeps its allocation.
    pub fn blend_into(
        &self,
        low_spectrum: &[i32],
        mid_spectrum: &[i32],
        high_spectrum: &[i32],
        sample_rate: u32,
        window_size: usize,
        out: &mut Vec<i32>,
    )
        requires
            window_size > 0,
            mid_spectrum@.len() >= low_spectrum@.len(),
            high_spectrum@.len() >= low_spectrum@.len(),
        ensures
            final(out)@ == self.blended(
                low_spectrum@,
                mid_spectrum@,
                high_spectrum@,
                sample_rate as int,
                window_size as int,
            ),
            final(out)@.len() == low_spectrum@.len(),
            forall|bin: int|
                0 <= bin < low_spectrum@.len() ==> between(
                    #[trigger] final(out)@[bin] as int,
                    low_spectrum@[bin] as int,
                    mid_spectrum@[bin] as int,
                    high_spectrum@[bin] as int,
                ),
            frame_in_range(low_spectrum@) && frame_in_range(mid_spectrum@) && frame_in_range(
                high_spectrum@,
            ) ==> frame_in_range(final(out)@),
    {
        let n: usize = low_spectrum.len();
        out.clear();
        let mut bin: usize = 0;
        while bin < n
            invariant
                window_size > 0,
                n == low_spectrum@.len(),
                mid_spectrum@.len() >= n,
                high_spectrum@.len() >= n,
                bin <= n,
                out@.len() == bin,
                forall|k: int|
                    0 <= k < bin ==> #[trigger] out@[k] == self.blended_bin(
                        low_spectrum@,
                        mid_spectrum@,
                        high_spectrum@,
                        k,
                        sample_rate as int,
                        window_size as int,
                    ),
                forall|k: int|
                    0 <= k < bin ==> between(
                        #[trigger] out@[k] as int,
                        low_spectrum@[k] as int,
                        mid_spectrum@[k] as int,
                        high_spectrum@[k] as int,
                    ),
            decreases n - bin,
        {
            let low: i32 = low_spectrum[bin];
            let mid: i32 = mid_spectrum[bin];
            let high: i32 = high_spectrum[bin];
            let value = if is_bin_below(bin, sample_rate, window_size, self.low_mid_crossfade.0) {
                low
            } else if is_bin_below(bin, sample_rate, window_size, self.low_mid_crossfade.1) {
                let factor = band_factor(
                    bin,
                    sample_rate,
                    window_size,
                    self.low_mid_crossfade.0,
                    self.low_mid_crossfade.1,
                );
                mix_levels(low, mid, factor)
            } else if is_bin_below(bin, sample_rate, window_size, self.mid_high_crossfade.0) {
                mid
            } else if is_bin_below(bin, sample_rate, window_size, self.mid_high_crossfade.1) {
                let factor = band_factor(
                    bin,
                    sample_rate,
                    window_size,
                    self.mid_high_crossfade.0,
                    self.mid_high_crossfade.1,
                );
                mix_levels(mid, high, factor)
            } else {
                high
            };
            out.push(value);
            bin += 1;
        }
        proof {
            assert(out@ =~= self.blended(
                low_spectrum@,
                mid_spectrum@,
                high_spectrum@,
                sample_rate as int,
                window_size as int,
            ));
            if frame_in_range(low_spectrum@) && frame_in_range(mid_spectrum@) && frame_in_range(
                high_spectrum@,
            ) {
                assert forall|k: int| 0 <= k < out@.len() implies level_in_range(
                    #[trigger] out@[k] as int,
                ) by {
                    assert(between(
                        out@[k] as int,
                        low_spectrum@[k] as int,
                        mid_spectrum@[k] as int,
                        high_spectrum@[k] as int,
                    ));
                    assert(level_in_range(low_spectrum@[k] as int));
                    assert(level_in_range(mid_spectrum@[k] as int));
                    assert(level_in_range(high_spectrum@[k] as int));
                }
            }
        }
    }
}

/// Whether `x` is neither below the least nor above the greatest of three
/// levels. Where the three are one level, `x` is that level.
pub open spec fn between(x: int, a: int, b: int, c: int) -> bool {
    &&& a <= x || b <= x || c <= x
    &&& x <= a || x <= b || x <= c
}

/// The crossfade factor of a bin inside a band.
fn band_factor(bin: usize, sample_rate: u32, window_size: usize, from_hz: u32, to_hz: u32) -> (factor:
    u32)
    requires
        window_size > 0,
        !bin_below(bin as int, sample_rate as int, window_size as int, from_hz as int),
        bin_below(bin as int, sample_rate as int, window_size as int, to_hz as int),
    ensures
        factor == crossfade_factor(
            bin as int,
            sample_rate as int,
            window_size as int,
            from_hz as int,
            to_hz as int,
        ),
        factor < UNITY,
{
    proof {
        lemma_product_fits(bin as int, sample_rate as int);
        lemma_product_fits(window_size as int, from_hz as int);
        lemma_product_fits(window_size as int, to_hz as int);
        lemma_crossfade_factor_in_unit(
            bin as int,
            sample_rate as int,
            window_size as int,
            from_hz as int,
            to_hz as int,
        );
    }
    let start: u128 = (from_hz as u128) * (window_size as u128);
    let position: u128 = (bin as u128) * (sample_rate as u128) - start;
    let width: u128 = (to_hz as u128) * (window_size as u128) - start;
    proof {
        assert(position * 1_000_000 <= 0xffff_ffff_ffff_ffff * 0xffff_ffff * 1_000_000)
            by (nonlinear_arith)
            requires
                position <= 0xffff_ffff_ffff_ffff * 0xffff_ffff,
        ;
    }
    let factor: u128 = (position * (UNITY as u128)) / width;
    factor as u32
}

} // verus!
