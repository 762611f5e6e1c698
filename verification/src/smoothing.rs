//! Smoothing of a spectrum frame: over time, by the attack/release
//! recurrence in every bin, and then over frequency, by kernels that grow
//! wider towards the high end of the spectrum.

use vstd::prelude::*;
use crate::level::{div_floor, frame_in_range, level_in_range, smooth_level, smoothed,
    LEVEL_CEILING, LEVEL_FLOOR, UNITY};
use crate::window_functions::{bin_above, is_bin_above};

verus! {

/// Above this frequency, in hertz, a bin is averaged over five bins.
pub const SMOOTHING_MID_FREQ_HZ: u32 = 800;

/// Above this frequency a bin is averaged over seven bins.
pub const SMOOTHING_MID_HIGH_FREQ_HZ: u32 = 2000;

/// Above this frequency a bin is averaged over nine bins.
pub const SMOOTHING_HIGH_FREQ_HZ: u32 = 5000;

/// The width of the kernel for the highest region.
pub const HIGH_FREQ_KERNEL_SIZE: usize = 9;

/// The width of the kernel for the region below the highest.
pub const MID_HIGH_FREQ_KERNEL_SIZE: usize = 7;

/// The weight that stands for 1.0 in a kernel.
pub const KERNEL_UNITY: i128 = 1_000_000_000;

/// The smoothing coefficients of one update: the share of the way that a
/// level covers towards a higher input (attack) and towards a lower one
/// (release), in parts per million.
#[derive(Debug, Clone, Copy, PartialEq, Eq, Structural)]
pub struct SmoothingCoefficients {
    /// The coefficient for a rising level.
    pub attack: u32,
    /// The coefficient for a falling level.
    pub release: u32,
}

impl SmoothingCoefficients {
    /// Whether both coefficients are at most one.
    pub open spec fn wf(&self) -> bool {
        self.attack <= UNITY && self.release <= UNITY
    }

    /// The pair of coefficients, if neither is above one.
    pub fn new(attack: u32, release: u32) -> (coefficients: Option<Self>)
        ensures
            coefficients.is_some() <==> attack <= UNITY && release <= UNITY,
            coefficients matches Some(c) ==> c.wf() && c.attack == attack && c.release
                == release,
    {
        if attack <= UNITY && release <= UNITY {
            Some(SmoothingCoefficients { attack, release })
        } else {
            None
        }
    }
}

/// The weight of a bin at `distance` from the centre of a kernel, in
/// billionths: `exp(-distance^2)` for the strong kernel and
/// `exp(-distance^2 / 2)` for the moderate one, rounded to the nearest.
pub open spec fn kernel_weight(strong: bool, distance: int) -> int {
    if strong {
        if distance == 0 {
            1_000_000_000
        } else if distance == 1 {
            367_879_441
        } else if distance == 2 {
            18_315_639
        } else if distance == 3 {
            123_410
        } else if distance == 4 {
            113
        } else {
            0
        }
    } else {
        if distance == 0 {
            1_000_000_000
        } else if distance == 1 {
            606_530_660
        } else if distance == 2 {
            135_335_283
        } else if distance == 3 {
            11_108_997
        } else if distance == 4 {
            335_463
        } else {
            0
        }
    }
}

/// The distance between two bins.
pub open spec fn bin_distance(a: int, b: int) -> int {
    if a < b {
        b - a
    } else {
        a - b
    }
}

/// The weighted sum of the bins `from..to` of a spectrum, for the kernel
/// centred on `center`.
pub open spec fn weighted_sum(
    spectrum: Seq<i32>,
    center: int,
    from: int,
    to: int,
    strong: bool,
) -> int
    decreases to - from,
{
    if to <= from {
        0
    } else {
        weighted_sum(spectrum, center, from, to - 1, strong) + kernel_weight(
            strong,
            bin_distance(to - 1, center),
        ) * spectrum[to - 1]
    }
}

/// The sum of the weights of the bins `from..to`, for the kernel centred on
/// `center`.
pub open spec fn weight_sum(center: int, from: int, to: int, strong: bool) -> int
    decreases to - from,
{
    if to <= from {
        0
    } else {
        weight_sum(center, from, to - 1, strong) + kernel_weight(
            strong,
            bin_distance(to - 1, center),
        )
    }
}

/// The first bin of a kernel of `kernel_size` bins centred on `center`, in a
/// spectrum of `len` bins.
pub open spec fn kernel_start(len: int, center: int, kernel_size: int) -> int {
    let half = kernel_half(len, kernel_size);
    if center < half {
        0
    } else {
        center - half
    }
}

/// The last bin of that kernel.
pub open spec fn kernel_end(len: int, center: int, kernel_size: int) -> int {
    let half = kernel_half(len, kernel_size);
    if center + half < len - 1 {
        center + half
    } else {
        len - 1
    }
}

/// Half the width of a kernel: the kernel is never wider than the spectrum
/// less one bin.
pub open spec fn kernel_half(len: int, kernel_size: int) -> int {
    if kernel_size < len - 1 {
        kernel_size / 2
    } else {
        (len - 1) / 2
    }
}

/// The weighted average of the bins around `center`: each bin of the kernel
/// by its weight, over the sum of the weights that take part.
pub open spec fn kernel_average(
    spectrum: Seq<i32>,
    center: int,
    kernel_size: int,
    strong: bool,
) -> int {
    let from = kernel_start(spectrum.len() as int, center, kernel_size);
    let to = kernel_end(spectrum.len() as int, center, kernel_size) + 1;
    weighted_sum(spectrum, center, from, to, strong) / weight_sum(center, from, to, strong)
}

/// The five-point average around `center`: weights 0.1, 0.2, 0.4, 0.2, 0.1.
/// Where the spectrum ends before the outer bin on the low side, the first
/// bin stands in; on the high side, the centre does.
pub open spec fn five_point_average(spectrum: Seq<i32>, center: int) -> int {
    let before = if center < 2 {
        0
    } else {
        center - 2
    };
    let after = if center + 2 < spectrum.len() {
        center + 2
    } else {
        center
    };
    (spectrum[before] + 2 * spectrum[center - 1] + 4 * spectrum[center] + 2 * spectrum[center
        + 1] + spectrum[after]) / 10
}

/// One bin after smoothing over frequency. The first and the last bin and
/// the bins up to 800 Hz stay as they are; above 800 Hz the five-point
/// average, above 2 kHz the moderate kernel of seven bins, above 5 kHz the
/// strong kernel of nine.
pub open spec fn frequency_smoothed_bin(
    spectrum: Seq<i32>,
    bin: int,
    sample_rate: int,
    window_size: int,
) -> int {
    if bin < 1 || bin >= spectrum.len() - 1 {
        spectrum[bin] as int
    } else if bin_above(bin, sample_rate, window_size, SMOOTHING_HIGH_FREQ_HZ as int) {
        kernel_average(spectrum, bin, HIGH_FREQ_KERNEL_SIZE as int, true)
    } else if bin_above(bin, sample_rate, window_size, SMOOTHING_MID_HIGH_FREQ_HZ as int) {
        kernel_average(spectrum, bin, MID_HIGH_FREQ_KERNEL_SIZE as int, false)
    } else if bin_above(bin, sample_rate, window_size, SMOOTHING_MID_FREQ_HZ as int) {
        five_point_average(spectrum, bin)
    } else {
        spectrum[bin] as int
    }
}

/// A spectrum after smoothing over frequency. Every bin is computed from the
/// spectrum as it came in.
pub open spec fn frequency_smoothed(spectrum: Seq<i32>, sample_rate: int, window_size: int) -> Seq<
    i32,
> {
    Seq::new(
        spectrum.len(),
        |bin: int| frequency_smoothed_bin(spectrum, bin, sample_rate, window_size) as i32,
    )
}

/// A spectrum after smoothing over time: bin by bin the attack/release step
/// from the previous frame towards the current one, over the bins that both
/// frames have.
pub open spec fn temporally_smoothed(
    current: Seq<i32>,
    previous: Seq<i32>,
    coefficients: SmoothingCoefficients,
) -> Seq<i32> {
    Seq::new(
        if current.len() < previous.len() {
            current.len()
        } else {
            previous.len()
        },
        |bin: int|
            smoothed(
                previous[bin] as int,
                current[bin] as int,
                coefficients.attack as int,
                coefficients.release as int,
            ) as i32,
    )
}

/// Whether every bin `from..to` of a spectrum lies between `low` and `high`.
pub open spec fn bins_within(spectrum: Seq<i32>, from: int, to: int, low: int, high: int) -> bool {
    forall|j: int| from <= j < to ==> low <= #[trigger] spectrum[j] <= high
}

/// Weights are never negative, and at most one.
pub proof fn lemma_kernel_weight_bounds(strong: bool, distance: int)
    ensures
        0 <= kernel_weight(strong, distance) <= KERNEL_UNITY,
        distance == 0 ==> kernel_weight(strong, distance) == KERNEL_UNITY,
{
}

/// A weighted sum lies between the sum of the weights times the least bin
/// and the sum of the weights times the greatest; the sum of the weights is
/// at least one when the centre takes part.
pub proof fn lemma_weighted_sum_bounds(
    spectrum: Seq<i32>,
    center: int,
    from: int,
    to: int,
    strong: bool,
    low: int,
    high: int,
)
    requires
        0 <= from <= to <= spectrum.len(),
        bins_within(spectrum, from, to, low, high),
    ensures
        0 <= weight_sum(center, from, to, strong) <= (to - from) * KERNEL_UNITY,
        from <= center < to ==> weight_sum(center, from, to, strong) >= KERNEL_UNITY,
        low * weight_sum(center, from, to, strong) <= weighted_sum(
            spectrum,
            center,
            from,
            to,
            strong,
        ) <= high * weight_sum(center, from, to, strong),
    decreases to - from,
{
    if from < to {
        lemma_weighted_sum_bounds(spectrum, center, from, to - 1, strong, low, high);
        let w = kernel_weight(strong, bin_distance(to - 1, center));
        let x = spectrum[to - 1] as int;
        let total = weight_sum(center, from, to - 1, strong);
        lemma_kernel_weight_bounds(strong, bin_distance(to - 1, center));
        assert(low <= x <= high);
        assert(low * (total + w) == low * total + low * w) by (nonlinear_arith);
        assert(high * (total + w) == high * total + high * w) by (nonlinear_arith);
        assert(low * w <= w * x <= high * w) by (nonlinear_arith)
            requires
                low <= x <= high,
                0 <= w,
        ;
        assert((to - from) * KERNEL_UNITY == (to - 1 - from) * KERNEL_UNITY + KERNEL_UNITY)
            by (nonlinear_arith);
    }
}

/// A quotient lies between two bounds when the dividend lies between the
/// bounds times the positive divisor.
pub proof fn lemma_quotient_between(sum: int, weight: int, low: int, high: int)
    requires
        weight > 0,
        low * weight <= sum <= high * weight,
    ensures
        low <= sum / weight <= high,
{
    let q = sum / weight;
    assert(q * weight <= sum < q * weight + weight) by (nonlinear_arith)
        requires
            q == sum / weight,
            weight > 0,
    ;
    assert(low <= q) by (nonlinear_arith)
        requires
            low * weight <= sum,
            sum < q * weight + weight,
            weight > 0,
    ;
    assert(q <= high) by (nonlinear_arith)
        requires
            sum <= high * weight,
            q * weight <= sum,
            weight > 0,
    ;
}

/// The kernel of a bin that is neither the first nor the last lies inside
/// the spectrum and holds its centre.
pub proof fn lemma_kernel_span(len: int, center: int, kernel_size: int)
    requires
        1 <= center < len - 1,
        0 <= kernel_size <= 9,
    ensures
        0 <= kernel_start(len, center, kernel_size) <= center,
        center <= kernel_end(len, center, kernel_size) < len,
        kernel_end(len, center, kernel_size) - kernel_start(len, center, kernel_size) <= 8,
        0 <= kernel_half(len, kernel_size) <= 4,
{
}

/// A kernel average lies between any two bounds that hold all the bins of
/// the spectrum.
pub proof fn lemma_kernel_average_between(
    spectrum: Seq<i32>,
    center: int,
    kernel_size: int,
    strong: bool,
    low: int,
    high: int,
)
    requires
        1 <= center < spectrum.len() - 1,
        0 <= kernel_size <= 9,
        bins_within(spectrum, 0, spectrum.len() as int, low, high),
    ensures
        low <= kernel_average(spectrum, center, kernel_size, strong) <= high,
{
    let len = spectrum.len() as int;
    lemma_kernel_span(len, center, kernel_size);
    let from = kernel_start(len, center, kernel_size);
    let to = kernel_end(len, center, kernel_size) + 1;
    assert(bins_within(spectrum, from, to, low, high));
    lemma_weighted_sum_bounds(spectrum, center, from, to, strong, low, high);
    lemma_quotient_between(
        weighted_sum(spectrum, center, from, to, strong),
        weight_sum(center, from, to, strong),
        low,
        high,
    );
}

/// A five-point average lies between any two bounds that hold all the bins
/// of the spectrum.
pub proof fn lemma_five_point_between(spectrum: Seq<i32>, center: int, low: int, high: int)
    requires
        1 <= center < spectrum.len() - 1,
        bins_within(spectrum, 0, spectrum.len() as int, low, high),
    ensures
        low <= five_point_average(spectrum, center) <= high,
{
    let before = if center < 2 {
        0
    } else {
        center - 2
    };
    let after = if center + 2 < spectrum.len() {
        center + 2
    } else {
        center
    };
    assert(low <= spectrum[before] <= high);
    assert(low <= spectrum[center - 1] <= high);
    assert(low <= spectrum[center] <= high);
    assert(low <= spectrum[center + 1] <= high);
    assert(low <= spectrum[after] <= high);
}

/// Smoothing over frequency keeps every bin between any two bounds that
/// held all the bins before.
pub proof fn lemma_frequency_smoothed_between(
    spectrum: Seq<i32>,
    sample_rate: int,
    window_size: int,
    bin: int,
    low: int,
    high: int,
)
    requires
        0 <= bin < spectrum.len(),
        bins_within(spectrum, 0, spectrum.len() as int, low, high),
    ensures
        low <= frequency_smoothed_bin(spectrum, bin, sample_rate, window_size) <= high,
{
    if bin < 1 || bin >= spectrum.len() - 1 {
        assert(low <= spectrum[bin] <= high);
    } else if bin_above(bin, sample_rate, window_size, SMOOTHING_HIGH_FREQ_HZ as int) {
        lemma_kernel_average_between(spectrum, bin, HIGH_FREQ_KERNEL_SIZE as int, true, low, high);
    } else if bin_above(bin, sample_rate, window_size, SMOOTHING_MID_HIGH_FREQ_HZ as int) {
        lemma_kernel_average_between(
            spectrum,
            bin,
            MID_HIGH_FREQ_KERNEL_SIZE as int,
            false,
            low,
            high,
        );
    } else if bin_above(bin, sample_rate, window_size, SMOOTHING_MID_FREQ_HZ as int) {
        lemma_five_point_between(spectrum, bin, low, high);
    } else {
        assert(low <= spectrum[bin] <= high);
    }
}

/// The weight of a bin at `distance` from the centre of a kernel.
fn weight_at(strong: bool, distance: usize) -> (w: i128)
    ensures
        w == kernel_weight(strong, distance as int),
        0 <= w <= KERNEL_UNITY,
{
    if strong {
        if distance == 0 {
            1_000_000_000
        } else if distance == 1 {
            367_879_441
        } else if distance == 2 {
            18_315_639
        } else if distance == 3 {
            123_410
        } else if distance == 4 {
            113
        } else {
            0
        }
    } else {
        if distance == 0 {
            1_000_000_000
        } else if distance == 1 {
            606_530_660
        } else if distance == 2 {
            135_335_283
        } else if distance == 3 {
            11_108_997
        } else if distance == 4 {
            335_463
        } else {
            0
        }
    }
}

/// The weighted average of the bins around `center`.
fn average_kernel(spectrum: &[i32], center: usize, kernel_size: usize, strong: bool) -> (r: i32)
    requires
        1 <= center < spectrum@.len() - 1,
        kernel_size <= 9,
    ensures
        r == kernel_average(spectrum@, center as int, kernel_size as int, strong),
{
    let len: usize = spectrum.len();
    let size: usize = if kernel_size < len - 1 {
        kernel_size
    } else {
        len - 1
    };
    let half: usize = size / 2;
    let from: usize = if center < half {
        0
    } else {
        center - half
    };
    let last: usize = if half < len - 1 - center {
        center + half
    } else {
        len - 1
    };
    let ghost low = -0x8000_0000int;
    let ghost high = 0x7fff_ffffint;
    proof {
        lemma_kernel_span(len as int, center as int, kernel_size as int);
        assert(bins_within(spectrum@, 0, len as int, low, high));
    }
    let mut sum: i128 = 0;
    let mut weights: i128 = 0;
    let mut j: usize = from;
    while j <= last
        invariant
            len == spectrum@.len(),
            from <= center <= last < len,
            last - from <= 8,
            from <= j <= last + 1,
            low == -0x8000_0000,
            high == 0x7fff_ffff,
            sum == weighted_sum(spectrum@, center as int, from as int, j as int, strong),
            weights == weight_sum(center as int, from as int, j as int, strong),
        decreases last + 1 - j,
    {
        let distance: usize = if j < center {
            center - j
        } else {
            j - center
        };
        let w: i128 = weight_at(strong, distance);
        let x: i128 = spectrum[j] as i128;
        proof {
            assert(bins_within(spectrum@, from as int, j as int, low, high));
            lemma_weighted_sum_bounds(
                spectrum@,
                center as int,
                from as int,
                j as int,
                strong,
                low,
                high,
            );
            let t = weight_sum(center as int, from as int, j as int, strong);
            assert(0 <= t <= 9 * KERNEL_UNITY) by (nonlinear_arith)
                requires
                    0 <= t <= (j - from) * KERNEL_UNITY,
                    j - from <= 9,
            ;
            assert(low * t >= -0x8000_0000 * (9 * KERNEL_UNITY)) by (nonlinear_arith)
                requires
                    0 <= t <= 9 * KERNEL_UNITY,
                    low == -0x8000_0000,
            ;
            assert(high * t <= 0x7fff_ffff * (9 * KERNEL_UNITY)) by (nonlinear_arith)
                requires
                    0 <= t <= 9 * KERNEL_UNITY,
                    high == 0x7fff_ffff,
            ;
            assert(-0x8000_0000 * KERNEL_UNITY <= w * x <= 0x8000_0000 * KERNEL_UNITY)
                by (nonlinear_arith)
                requires
                    0 <= w <= KERNEL_UNITY,
                    -0x8000_0000 <= x <= 0x7fff_ffff,
            ;
        }
        sum = sum + w * x;
        weights = weights + w;
        j += 1;
    }
    proof {
        assert(bins_within(spectrum@, from as int, last + 1, low, high));
        lemma_weighted_sum_bounds(
            spectrum@,
            center as int,
            from as int,
            last + 1,
            strong,
            low,
            high,
        );
        let t = weight_sum(center as int, from as int, last + 1, strong);
        assert(0 <= t <= 9 * KERNEL_UNITY) by (nonlinear_arith)
            requires
                0 <= t <= (last + 1 - from) * KERNEL_UNITY,
                last + 1 - from <= 9,
        ;
        assert(low * t >= -0x8000_0000 * (9 * KERNEL_UNITY)) by (nonlinear_arith)
            requires
                0 <= t <= 9 * KERNEL_UNITY,
                low == -0x8000_0000,
        ;
        lemma_quotient_between(sum as int, weights as int, low, high);
    }
    div_floor(sum, weights) as i32
}

/// The five-point average around `center`.
fn average_five_points(spectrum: &[i32], center: usize) -> (r: i32)
    requires
        1 <= center < spectrum@.len() - 1,
    ensures
        r == five_point_average(spectrum@, center as int),
{
    let len: usize = spectrum.len();
    let before: usize = if center < 2 {
        0
    } else {
        center - 2
    };
    let after: usize = if 2 < len - center {
        center + 2
    } else {
        center
    };
    proof {
        assert(bins_within(spectrum@, 0, len as int, -0x8000_0000, 0x7fff_ffff));
        lemma_five_point_between(spectrum@, center as int, -0x8000_0000, 0x7fff_ffff);
    }
    let sum: i128 = spectrum[before] as i128 + 2 * (spectrum[center - 1] as i128) + 4 * (
    spectrum[center] as i128) + 2 * (spectrum[center + 1] as i128) + spectrum[after] as i128;
    div_floor(sum, 10) as i32
}

/// Smooths a spectrum over frequency: the low end keeps its detail, and the
/// higher a bin lies, the wider the kernel that averages it with its
/// neighbours.
pub fn apply_frequency_dependent_smoothing(
    spectrum: &[i32],
    sample_rate: u32,
    window_size: usize,
) -> (smoothed: Vec<i32>)
    ensures
        smoothed@ == frequency_smoothed(spectrum@, sample_rate as int, window_size as int),
        smoothed@.len() == spectrum@.len(),
        frame_in_range(spectrum@) ==> frame_in_range(smoothed@),
{
    let mut smoothed: Vec<i32> = Vec::with_capacity(spectrum.len());
    smooth_over_frequency_into(spectrum, sample_rate, window_size, &mut smoothed);
    smoothed
}

/// Smooths a spectrum over frequency into `out`, which is emptied first and
/// keeps its allocation.
pub fn smooth_over_frequency_into(
    spectrum: &[i32],
    sample_rate: u32,
    window_size: usize,
    out: &mut Vec<i32>,
)
    ensures
        final(out)@ == frequency_smoothed(spectrum@, sample_rate as int, window_size as int),
        final(out)@.len() == spectrum@.len(),
        frame_in_range(spectrum@) ==> frame_in_range(final(out)@),
{
    let len: usize = spectrum.len();
    out.clear();
    let mut bin: usize = 0;
    while bin < len
        invariant
            len == spectrum@.len(),
            bin <= len,
            out@.len() == bin,
            forall|k: int|
                0 <= k < bin ==> #[trigger] out@[k] == frequency_smoothed_bin(
                    spectrum@,
                    k,
                    sample_rate as int,
                    window_size as int,
                ),
        decreases len - bin,
    {
        let value: i32 = if bin < 1 || bin >= len - 1 {
            spectrum[bin]
        } else if is_bin_above(bin, sample_rate, window_size, SMOOTHING_HIGH_FREQ_HZ) {
            average_kernel(spectrum, bin, HIGH_FREQ_KERNEL_SIZE, true)
        } else if is_bin_above(bin, sample_rate, window_size, SMOOTHING_MID_HIGH_FREQ_HZ) {
            average_kernel(spectrum, bin, MID_HIGH_FREQ_KERNEL_SIZE, false)
        } else if is_bin_above(bin, sample_rate, window_size, SMOOTHING_MID_FREQ_HZ) {
            average_five_points(spectrum, bin)
        } else {
            spectrum[bin]
        };
        out.push(value);
        bin += 1;
    }
    proof {
        assert(out@ =~= frequency_smoothed(spectrum@, sample_rate as int, window_size as int));
        if frame_in_range(spectrum@) {
            assert(bins_within(
                spectrum@,
                0,
                len as int,
                LEVEL_FLOOR as int,
                LEVEL_CEILING as int,
            )) by {
                assert forall|j: int| 0 <= j < len implies LEVEL_FLOOR <= #[trigger] spectrum@[j]
                    <= LEVEL_CEILING by {
                    assert(level_in_range(spectrum@[j] as int));
                }
            }
            assert forall|k: int| 0 <= k < out@.len() implies level_in_range(
                #[trigger] out@[k] as int,
            ) by {
                lemma_frequency_smoothed_between(
                    spectrum@,
                    sample_rate as int,
                    window_size as int,
                    k,
                    LEVEL_FLOOR as int,
                    LEVEL_CEILING as int,
                );
            }
        }
    }
}

/// Smooths a spectrum over time: in every bin the attack/release step from
/// the previous frame towards the current one.
pub fn apply_temporal_smoothing(
    current_spectrum: &[i32],
    previous_spectrum: &[i32],
    coefficients: SmoothingCoefficients,
) -> (result: Vec<i32>)
    requires
        coefficients.wf(),
    ensures
        result@ == temporally_smoothed(current_spectrum@, previous_spectrum@, coefficients),
        frame_in_range(current_spectrum@) && frame_in_range(previous_spectrum@)
            ==> frame_in_range(result@),
{
    let mut result: Vec<i32> = Vec::new();
    smooth_over_time_into(current_spectrum, previous_spectrum, coefficients, &mut result);
    result
}

/// Smooths a spectrum over time into `out`, which is emptied first and keeps
/// its allocation.
pub fn smooth_over_time_into(
    current_spectrum: &[i32],
    previous_spectrum: &[i32],
    coefficients: SmoothingCoefficients,
    out: &mut Vec<i32>,
)
    requires
        coefficients.wf(),
    ensures
        final(out)@ == temporally_smoothed(current_spectrum@, previous_spectrum@, coefficients),
        frame_in_range(current_spectrum@) && frame_in_range(previous_spectrum@)
            ==> frame_in_range(final(out)@),
{
    let len: usize = if current_spectrum.len() < previous_spectrum.len() {
        current_spectrum.len()
    } else {
        previous_spectrum.len()
    };
    out.clear();
    let mut bin: usize = 0;
    while bin < len
        invariant
            coefficients.wf(),
            len <= current_spectrum@.len(),
            len <= previous_spectrum@.len(),
            bin <= len,
            out@.len() == bin,
            forall|k: int|
                0 <= k < bin ==> #[trigger] out@[k] == smoothed(
                    previous_spectrum@[k] as int,
                    current_spectrum@[k] as int,
                    coefficients.attack as int,
                    coefficients.release as int,
                ),
            forall|k: int|
                0 <= k < bin ==> (previous_spectrum@[k] <= #[trigger] out@[k]
                    <= current_spectrum@[k] || current_spectrum@[k] <= out@[k]
                    <= previous_spectrum@[k]),
        decreases len - bin,
    {
        let value: i32 = smooth_level(
            previous_spectrum[bin],
            current_spectrum[bin],
            coefficients.attack,
            coefficients.release,
        );
        out.push(value);
        bin += 1;
    }
    proof {
        assert(out@ =~= temporally_smoothed(current_spectrum@, previous_spectrum@, coefficients));
        if frame_in_range(current_spectrum@) && frame_in_range(previous_spectrum@) {
            assert forall|k: int| 0 <= k < out@.len() implies level_in_range(
                #[trigger] out@[k] as int,
            ) by {
                assert(level_in_range(current_spectrum@[k] as int));
                assert(level_in_range(previous_spectrum@[k] as int));
            }
        }
    }
}

/// Smooths a new spectrum frame against the previous smoothed frame: first
/// over time, then over frequency. Returns the smoothed frame twice: once to
/// show, once to keep as the previous frame of the next call.
pub fn apply_spectrum_smoothing(
    current_spectrum: &[i32],
    previous_spectrum: &[i32],
    coefficients: SmoothingCoefficients,
    sample_rate: u32,
    window_size: usize,
) -> (result: (Vec<i32>, Vec<i32>))
    requires
        coefficients.wf(),
    ensures
        result.0@ == frequency_smoothed(
            temporally_smoothed(current_spectrum@, previous_spectrum@, coefficients),
            sample_rate as int,
            window_size as int,
        ),
        result.1@ == result.0@,
        frame_in_range(current_spectrum@) && frame_in_range(previous_spectrum@)
            ==> frame_in_range(result.0@),
{
    let over_time = apply_temporal_smoothing(current_spectrum, previous_spectrum, coefficients);
    let over_frequency = apply_frequency_dependent_smoothing(
        over_time.as_slice(),
        sample_rate,
        window_size,
    );
    let kept = copy_frame(over_frequency.as_slice());
    (over_frequency, kept)
}

/// A copy of a frame.
pub fn copy_frame(frame: &[i32]) -> (copy: Vec<i32>)
    ensures
        copy@ == frame@,
{
    let mut copy: Vec<i32> = Vec::with_capacity(frame.len());
    copy_frame_into(frame, &mut copy);
    copy
}

/// Copies a frame into `out`, which is emptied first and keeps its
/// allocation.
pub fn copy_frame_into(frame: &[i32], out: &mut Vec<i32>)
    ensures
        final(out)@ == frame@,
{
    let len: usize = frame.len();
    out.clear();
    let mut i: usize = 0;
    while i < len
        invariant
            len == frame@.len(),
            i <= len,
            out@.len() == i,
            forall|k: int| 0 <= k < i ==> out@[k] == frame@[k],
        decreases len - i,
    {
        out.push(frame[i]);
        i += 1;
    }
    assert(out@ =~= frame@);
}

} // verus!
