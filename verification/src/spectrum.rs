//! The spectrum pipeline: the producer on the audio thread, which gathers
//! samples, says when a window is due for analysis and turns the transformed
//! spectra into the frame that is shown; and the consumer on the display
//! thread, which reads the latest frame.
//!
//! The transform itself lies outside: when `process` reports that a window is
//! due, the caller takes the window with `analysis_window`, transforms it once
//! through each of the three window tables, turns the bins into levels with
//! the `magnitude` module and hands the three spectra to `publish_spectrum`;
//! if the transform fails it calls `record_fft_failure` instead and the frame
//! before stays.

use vstd::prelude::*;
use vstd::arithmetic::power::pow;
use vstd::arithmetic::power2::{is_pow2, is_pow2_equiv, is_pow2_exists};
use crate::level::{clamp_level, clamped, frame_in_range, lemma_mixed_same,
    lemma_smoothed_between, level_in_range, LEVEL_FLOOR, UNITY};
use crate::relay::{reader_frame, relay_open, relay_peek, relay_publish, relay_stage,
    relay_update};
use crate::ring::{counted_by, shifted_by, RingAccumulator};
use crate::smoothing::{copy_frame, copy_frame_into, frequency_smoothed,
    lemma_frequency_smoothed_between, smooth_over_frequency_into, smooth_over_time_into,
    temporally_smoothed, SmoothingCoefficients};
use crate::window_functions::{crossfade_factor, generated, AdaptiveWindowStrategy,
    AdaptiveWindows};

verus! {

/// The size of the analysis window unless another is asked for.
pub const SPECTRUM_WINDOW_SIZE: usize = 2048;

/// The number of bins of a spectrum for the default window size.
pub const SPECTRUM_BINS: usize = SPECTRUM_WINDOW_SIZE / 2 + 1;

/// The overlap of consecutive windows unless another is asked for: one half.
pub const FFT_OVERLAP_FACTOR: u32 = 500_000;

/// How fast the shown spectrum follows the signal.
#[derive(Debug, Clone, Copy, PartialEq, Eq, Hash, Structural)]
pub enum SpectrumSpeed {
    /// A very calm display.
    VerySlow,
    /// Good for watching the overall balance.
    Slow,
    /// A balance of calm and response.
    Medium,
    /// Good for transients.
    Fast,
    /// Very nearly immediate.
    VeryFast,
}

impl SpectrumSpeed {
    /// The attack and release time constants of a speed, in milliseconds.
    pub open spec fn time_constants(self) -> (u32, u32) {
        match self {
            SpectrumSpeed::VerySlow => (100u32, 2000u32),
            SpectrumSpeed::Slow => (50u32, 1000u32),
            SpectrumSpeed::Medium => (20u32, 400u32),
            SpectrumSpeed::Fast => (5u32, 100u32),
            SpectrumSpeed::VeryFast => (1u32, 20u32),
        }
    }

    /// The attack and release time constants of this speed, in milliseconds.
    pub fn time_constants_ms(&self) -> (constants: (u32, u32))
        ensures
            constants == self.time_constants(),
            0 < constants.0 < constants.1,
    {
        match self {
            SpectrumSpeed::VerySlow => (100, 2000),
            SpectrumSpeed::Slow => (50, 1000),
            SpectrumSpeed::Medium => (20, 400),
            SpectrumSpeed::Fast => (5, 100),
            SpectrumSpeed::VeryFast => (1, 20),
        }
    }
}

/// What can be wrong with a configuration or with a frame.
#[derive(Debug, Clone, Copy, PartialEq, Eq, Structural)]
pub enum SpectrumError {
    /// The window size is not a power of two, or twice the size does not
    /// fit the machine.
    InvalidWindowSize,
    /// The overlap is one or more, or leaves a hop of no samples.
    InvalidOverlap,
    /// The cosine table does not have one entry for each sample of the
    /// window.
    TableLength,
    /// A spectrum does not have one level for each bin.
    FrameLength,
    /// The relay holds a frame of another length, or a level out of range.
    MalformedFrame,
}

/// Whether `n` is a power of two: whether it is two to the power of some
/// natural number.
pub open spec fn power_of_two(n: nat) -> bool {
    exists|k: nat| pow(2, k) == n
}

/// The number of bins of the spectrum of a window: half the window size and
/// one.
pub open spec fn bins_of(window_size: nat) -> nat {
    window_size / 2 + 1
}

/// The hop for a window size and an overlap in parts per million: the share
/// of the window that the overlap leaves, rounded down.
pub open spec fn hop_of(window_size: nat, overlap: nat) -> int {
    (window_size * (UNITY as nat - overlap)) / (UNITY as int)
}

/// A frame of `bins` levels, all at the floor.
pub open spec fn floor_frame(bins: nat) -> Seq<i32> {
    Seq::new(bins, |i: int| LEVEL_FLOOR)
}

/// A frame with every level held to the range between the floor and the
/// ceiling.
pub open spec fn clamped_frame(frame: Seq<i32>) -> Seq<i32> {
    Seq::new(frame.len(), |i: int| clamped(frame[i] as int) as i32)
}

/// Whether `n` is a power of two.
pub fn is_power_of_two(n: usize) -> (yes: bool)
    ensures
        yes == power_of_two(n as nat),
{
    proof {
        is_pow2_equiv(n as int);
        assert(is_pow2_exists(n as int) == power_of_two(n as nat));
    }
    if n == 0 {
        assert(!is_pow2(0)) by {
            reveal(is_pow2);
        }
        return false;
    }
    let mut m: usize = n;
    while m > 1 && m % 2 == 0
        invariant
            m > 0,
            is_pow2(m as int) == is_pow2(n as int),
        decreases m,
    {
        assert(is_pow2(m as int) == is_pow2(m as int / 2)) by {
            reveal(is_pow2);
        }
        m = m / 2;
    }
    assert(is_pow2(m as int) == (m == 1)) by {
        reveal(is_pow2);
    }
    m == 1
}

/// A frame of `bins` levels, all at the floor.
pub fn silence_frame(bins: usize) -> (frame: Vec<i32>)
    ensures
        frame@ == floor_frame(bins as nat),
        frame_in_range(frame@),
{
    let mut frame: Vec<i32> = Vec::with_capacity(bins);
    silence_frame_into(bins, &mut frame);
    frame
}

/// Writes a frame of `bins` levels, all at the floor, into `out`, which is
/// emptied first and keeps its allocation.
pub fn silence_frame_into(bins: usize, out: &mut Vec<i32>)
    ensures
        final(out)@ == floor_frame(bins as nat),
        frame_in_range(final(out)@),
{
    out.clear();
    let mut i: usize = 0;
    while i < bins
        invariant
            i <= bins,
            out@.len() == i,
            forall|k: int| 0 <= k < i ==> out@[k] == LEVEL_FLOOR,
        decreases bins - i,
    {
        out.push(LEVEL_FLOOR);
        i += 1;
    }
    assert(out@ =~= floor_frame(bins as nat));
}

/// Holds every level of a frame to the range between the floor and the
/// ceiling.
pub fn clamp_frame(frame: &[i32]) -> (held: Vec<i32>)
    ensures
        held@ == clamped_frame(frame@),
        frame_in_range(held@),
{
    let mut held: Vec<i32> = Vec::with_capacity(frame.len());
    clamp_frame_into(frame, &mut held);
    held
}

/// Writes a frame with every level held to the range into `out`, which is
/// emptied first and keeps its allocation.
pub fn clamp_frame_into(frame: &[i32], out: &mut Vec<i32>)
    ensures
        final(out)@ == clamped_frame(frame@),
        frame_in_range(final(out)@),
{
    let len: usize = frame.len();
    out.clear();
    let mut i: usize = 0;
    while i < len
        invariant
            len == frame@.len(),
            i <= len,
            out@.len() == i,
            forall|k: int| 0 <= k < i ==> out@[k] == clamped(frame@[k] as int),
        decreases len - i,
    {
        out.push(clamp_level(frame[i]));
        i += 1;
    }
    assert(out@ =~= clamped_frame(frame@));
}

/// Whether every level of a frame lies between the floor and the ceiling.
pub fn is_frame_in_range(frame: &[i32]) -> (yes: bool)
    ensures
        yes == frame_in_range(frame@),
{
    let mut i: usize = 0;
    while i < frame.len()
        invariant
            i <= frame@.len(),
            forall|k: int| 0 <= k < i ==> level_in_range(#[trigger] frame@[k] as int),
        decreases frame@.len() - i,
    {
        if clamp_level(frame[i]) != frame[i] {
            assert(!level_in_range(frame@[i as int] as int));
            return false;
        }
        i += 1;
    }
    true
}

/// Whether a frame is a spectrum of `bins` bins: whether it has one level
/// for each bin, each of them in range.
pub open spec fn valid_frame(frame: Seq<i32>, bins: nat) -> bool {
    frame.len() == bins && frame_in_range(frame)
}

/// The spectrum that a relayed frame stands for: a copy of the frame if it
/// has one level for each of the `bins` bins, each of them in range; a
/// refusal otherwise.
pub fn decode_frame(frame: &Vec<i32>, bins: usize) -> (result: Result<Vec<i32>, SpectrumError>)
    ensures
        result.is_ok() <==> valid_frame(frame@, bins as nat),
        result matches Ok(spectrum) ==> spectrum@ == frame@,
        result matches Err(e) ==> e == SpectrumError::MalformedFrame,
{
    if frame.len() == bins && is_frame_in_range(frame.as_slice()) {
        Ok(copy_frame(frame.as_slice()))
    } else {
        Err(SpectrumError::MalformedFrame)
    }
}

/// The display thread's end of the spectrum pipeline.
pub struct SpectrumConsumer {
    output: triple_buffer::Output<Vec<i32>>,
    bins: usize,
}

impl SpectrumConsumer {
    /// The number of bins of the frames that this consumer hands out.
    pub closed spec fn bins(&self) -> nat {
        self.bins as nat
    }

    /// The frame in the slot of the relay that the consumer owns.
    pub closed spec fn latest_frame(&self) -> Seq<i32> {
        reader_frame(self.output)
    }

    /// Whether the frame that the consumer holds has one level for each bin,
    /// each of them in range.
    pub open spec fn holds_valid_frame(&self) -> bool {
        valid_frame(self.latest_frame(), self.bins())
    }

    /// A consumer for the reader end of a relay that carries frames of
    /// `bins` levels.
    pub fn new(output: triple_buffer::Output<Vec<i32>>, bins: usize) -> (consumer: Self)
        ensures
            consumer.bins() == bins,
            consumer.latest_frame() == reader_frame(output),
    {
        SpectrumConsumer { output, bins }
    }

    /// Fetches what the audio thread published last, without blocking, and
    /// returns the frame that the consumer now holds: the new one if there
    /// was one, the one it had otherwise. A frame that is not a spectrum of
    /// this pipeline is refused.
    pub fn read(&mut self) -> (result: Result<Vec<i32>, SpectrumError>)
        ensures
            final(self).bins() == old(self).bins(),
            match result {
                Ok(frame) => {
                    &&& final(self).holds_valid_frame()
                    &&& frame@ == final(self).latest_frame()
                    &&& frame@.len() == old(self).bins()
                    &&& frame_in_range(frame@)
                },
                Err(e) => e == SpectrumError::MalformedFrame && !final(self).holds_valid_frame(),
            },
    {
        let _ = relay_update(&mut self.output);
        decode_frame(relay_peek(&self.output), self.bins)
    }

    /// Like `read`, with the floor in every bin where `read` would refuse.
    pub fn read_or_silence(&mut self) -> (frame: Vec<i32>)
        ensures
            final(self).bins() == old(self).bins(),
            frame@ == if final(self).holds_valid_frame() {
                final(self).latest_frame()
            } else {
                floor_frame(old(self).bins())
            },
            frame@.len() == old(self).bins(),
            frame_in_range(frame@),
    {
        match self.read() {
            Ok(frame) => frame,
            Err(_) => silence_frame(self.bins),
        }
    }

    /// Fetches what the audio thread published last and says whether it had
    /// published since the last fetch. If it had not, the consumer holds the
    /// frame that it held.
    pub fn refresh(&mut self) -> (fresh: bool)
        ensures
            final(self).bins() == old(self).bins(),
            !fresh ==> final(self).latest_frame() == old(self).latest_frame(),
    {
        relay_update(&mut self.output)
    }
}

/// The configuration of a spectrum pipeline, gathered step by step.
pub struct SpectrumProducerBuilder {
    window_size: usize,
    overlap: u32,
    speed: SpectrumSpeed,
    window_strategy: Option<AdaptiveWindowStrategy>,
}

impl Default for SpectrumProducerBuilder {
    /// The configuration with the default settings.
    fn default() -> (builder: Self)
        ensures
            builder.chosen_window_size() == SPECTRUM_WINDOW_SIZE,
            builder.chosen_overlap() == FFT_OVERLAP_FACTOR,
            builder.chosen_speed() == SpectrumSpeed::Medium,
            builder.chosen_strategy().is_none(),
    {
        SpectrumProducerBuilder {
            window_size: SPECTRUM_WINDOW_SIZE,
            overlap: FFT_OVERLAP_FACTOR,
            speed: SpectrumSpeed::Medium,
            window_strategy: None,
        }
    }
}

impl SpectrumProducerBuilder {
    /// The window size that was asked for.
    pub closed spec fn chosen_window_size(&self) -> usize {
        self.window_size
    }

    /// The overlap that was asked for, in parts per million.
    pub closed spec fn chosen_overlap(&self) -> u32 {
        self.overlap
    }

    /// The speed that was asked for.
    pub closed spec fn chosen_speed(&self) -> SpectrumSpeed {
        self.speed
    }

    /// The window strategy that was asked for, if one was.
    pub closed spec fn chosen_strategy(&self) -> Option<AdaptiveWindowStrategy> {
        self.window_strategy
    }

    /// What is wrong with this configuration and a cosine table of
    /// `table_len` entries, if anything is.
    pub open spec fn fault(&self, table_len: nat) -> Option<SpectrumError> {
        if !power_of_two(self.chosen_window_size() as nat) || 2 * self.chosen_window_size()
            > usize::MAX {
            Some(SpectrumError::InvalidWindowSize)
        } else if self.chosen_overlap() >= UNITY || hop_of(
            self.chosen_window_size() as nat,
            self.chosen_overlap() as nat,
        ) < 1 {
            Some(SpectrumError::InvalidOverlap)
        } else if table_len != self.chosen_window_size() {
            Some(SpectrumError::TableLength)
        } else {
            None
        }
    }

    /// A configuration with the default settings: a window of 2048 samples,
    /// half a window of overlap, medium speed and the default window
    /// strategy.
    pub fn new() -> (builder: Self)
        ensures
            builder.chosen_window_size() == SPECTRUM_WINDOW_SIZE,
            builder.chosen_overlap() == FFT_OVERLAP_FACTOR,
            builder.chosen_speed() == SpectrumSpeed::Medium,
            builder.chosen_strategy().is_none(),
    {
        SpectrumProducerBuilder::default()
    }

    /// Sets the window size. It must be a power of two; `build` refuses any
    /// other.
    pub fn window_size(self, size: usize) -> (builder: Self)
        ensures
            builder.chosen_window_size() == size,
            builder.chosen_overlap() == self.chosen_overlap(),
            builder.chosen_speed() == self.chosen_speed(),
            builder.chosen_strategy() == self.chosen_strategy(),
    {
        SpectrumProducerBuilder { window_size: size, ..self }
    }

    /// Sets the overlap of consecutive windows, in parts per million of the
    /// window.
    pub fn overlap(self, overlap: u32) -> (builder: Self)
        ensures
            builder.chosen_window_size() == self.chosen_window_size(),
            builder.chosen_overlap() == overlap,
            builder.chosen_speed() == self.chosen_speed(),
            builder.chosen_strategy() == self.chosen_strategy(),
    {
        SpectrumProducerBuilder { overlap, ..self }
    }

    /// Sets the speed of the temporal smoothing.
    pub fn speed(self, speed: SpectrumSpeed) -> (builder: Self)
        ensures
            builder.chosen_window_size() == self.chosen_window_size(),
            builder.chosen_overlap() == self.chosen_overlap(),
            builder.chosen_speed() == speed,
            builder.chosen_strategy() == self.chosen_strategy(),
    {
        SpectrumProducerBuilder { speed, ..self }
    }

    /// Sets the window strategy.
    pub fn window_strategy(self, strategy: AdaptiveWindowStrategy) -> (builder: Self)
        ensures
            builder.chosen_window_size() == self.chosen_window_size(),
            builder.chosen_overlap() == self.chosen_overlap(),
            builder.chosen_speed() == self.chosen_speed(),
            builder.chosen_strategy() == Some(strategy),
    {
        SpectrumProducerBuilder { window_strategy: Some(strategy), ..self }
    }

    /// Builds the producer and the consumer of one pipeline, or says what is
    /// wrong with the configuration. `silence` is the sample that stands for
    /// what has not been heard yet, and `cosines` the table of one turn of
    /// the cosine with one entry for each sample of the window, from which
    /// the window tables are made.
    pub fn build<S: Copy>(self, silence: S, cosines: &[i32]) -> (result: Result<
        (SpectrumProducer<S>, SpectrumConsumer),
        SpectrumError,
    >)
        ensures
            match result {
                Ok((producer, consumer)) => {
                    &&& self.fault(cosines@.len()).is_none()
                    &&& producer.wf()
                    &&& producer.window_len() == self.chosen_window_size()
                    &&& producer.hop_len() == hop_of(
                        self.chosen_window_size() as nat,
                        self.chosen_overlap() as nat,
                    )
                    &&& producer.pending_len() == 0
                    &&& producer.history() == Seq::new(
                        2 * self.chosen_window_size() as nat,
                        |k: int| silence,
                    )
                    &&& producer.chosen_speed() == self.chosen_speed()
                    &&& producer.strategy() == match self.chosen_strategy() {
                        Some(strategy) => strategy,
                        None => default_strategy(),
                    }
                    &&& producer.windows().low_freq.coefficients@ == generated(
                        producer.strategy().low_freq_window,
                        cosines@,
                    )
                    &&& producer.windows().mid_freq.coefficients@ == generated(
                        producer.strategy().mid_freq_window,
                        cosines@,
                    )
                    &&& producer.windows().high_freq.coefficients@ == generated(
                        producer.strategy().high_freq_window,
                        cosines@,
                    )
                    &&& producer.published() == floor_frame(producer.bins())
                    &&& producer.previous() == floor_frame(producer.bins())
                    &&& producer.failures() == 0
                    &&& consumer.bins() == producer.bins()
                    &&& consumer.latest_frame() == floor_frame(producer.bins())
                },
                Err(e) => self.fault(cosines@.len()) == Some(e),
            },
    {
        if !is_power_of_two(self.window_size) || self.window_size > usize::MAX / 2 {
            return Err(SpectrumError::InvalidWindowSize);
        }
        if self.overlap >= UNITY {
            return Err(SpectrumError::InvalidOverlap);
        }
        let window_size: usize = self.window_size;
        let share: u32 = UNITY - self.overlap;
        proof {
            assert(window_size * share <= 0xffff_ffff_ffff_ffff * 1_000_000) by (nonlinear_arith)
                requires
                    0 <= window_size <= 0xffff_ffff_ffff_ffff,
                    0 <= share <= 1_000_000,
            ;
            assert((window_size * share) / 1_000_000 <= window_size) by (nonlinear_arith)
                requires
                    0 <= window_size,
                    0 <= share <= 1_000_000,
            ;
        }
        let hop: usize = (((window_size as u128) * (share as u128)) / (UNITY as u128)) as usize;
        if hop == 0 {
            return Err(SpectrumError::InvalidOverlap);
        }
        if cosines.len() != window_size {
            return Err(SpectrumError::TableLength);
        }
        let ring: RingAccumulator<S> = match RingAccumulator::new(window_size, hop, silence) {
            Some(ring) => ring,
            None => {
                return Err(SpectrumError::InvalidWindowSize);
            },
        };
        let window_strategy: AdaptiveWindowStrategy = match self.window_strategy {
            Some(strategy) => strategy,
            None => AdaptiveWindowStrategy::default(),
        };
        let adaptive_windows = AdaptiveWindows::new(&window_strategy, cosines);
        let bins: usize = window_size / 2 + 1;
        let initial: Vec<i32> = silence_frame(bins);
        let (input, output) = relay_open(&initial);
        let producer = SpectrumProducer {
            window_strategy,
            adaptive_windows,
            ring,
            spectrum_result: silence_frame(bins),
            previous_spectrum: silence_frame(bins),
            held_low: Vec::with_capacity(bins),
            held_mid: Vec::with_capacity(bins),
            held_high: Vec::with_capacity(bins),
            blended: Vec::with_capacity(bins),
            over_time: Vec::with_capacity(bins),
            spectrum_producer: input,
            speed: self.speed,
            fft_failure_count: 0,
        };
        Ok((producer, SpectrumConsumer { output, bins }))
    }
}

/// The strategy that a pipeline uses when none was asked for.
pub open spec fn default_strategy() -> AdaptiveWindowStrategy {
    AdaptiveWindowStrategy {
        low_freq_window: crate::window_functions::WindowType::Hann,
        mid_freq_window: crate::window_functions::WindowType::Hann,
        high_freq_window: crate::window_functions::WindowType::Blackman,
        low_mid_crossfade: (480u32, 520u32),
        mid_high_crossfade: (8000u32, 9000u32),
    }
}

/// The audio thread's end of the spectrum pipeline.
pub struct SpectrumProducer<S> {
    window_strategy: AdaptiveWindowStrategy,
    adaptive_windows: AdaptiveWindows,
    ring: RingAccumulator<S>,
    spectrum_result: Vec<i32>,
    previous_spectrum: Vec<i32>,
    held_low: Vec<i32>,
    held_mid: Vec<i32>,
    held_high: Vec<i32>,
    blended: Vec<i32>,
    over_time: Vec<i32>,
    spectrum_producer: triple_buffer::Input<Vec<i32>>,
    speed: SpectrumSpeed,
    fft_failure_count: u32,
}

impl<S: Copy> SpectrumProducer<S> {
    /// The invariant: the ring and the window tables are well formed, the
    /// tables are as long as the window, and the frame that was published
    /// last and the frame that the smoothing remembers have one level for
    /// each bin, each of them in range.
    pub closed spec fn wf(&self) -> bool {
        &&& self.ring.wf()
        &&& self.adaptive_windows.wf()
        &&& self.adaptive_windows.low_freq.coefficients@.len() == self.ring.window_len()
        &&& self.spectrum_result@.len() == bins_of(self.ring.window_len())
        &&& self.previous_spectrum@.len() == bins_of(self.ring.window_len())
        &&& frame_in_range(self.spectrum_result@)
        &&& frame_in_range(self.previous_spectrum@)
    }

    /// The number of samples in one analysis window.
    pub closed spec fn window_len(&self) -> nat {
        self.ring.window_len()
    }

    /// The number of new samples between two analyses.
    pub closed spec fn hop_len(&self) -> nat {
        self.ring.hop_len()
    }

    /// The number of samples taken in since the last analysis.
    pub closed spec fn pending_len(&self) -> nat {
        self.ring.pending_len()
    }

    /// The last two windows' worth of samples, the oldest first.
    pub closed spec fn history(&self) -> Seq<S> {
        self.ring.history()
    }

    /// The most recent window of samples, the oldest first.
    pub open spec fn window(&self) -> Seq<S> {
        self.history().subrange(self.window_len() as int, 2 * self.window_len() as int)
    }

    /// The number of bins of a frame.
    pub open spec fn bins(&self) -> nat {
        bins_of(self.window_len())
    }

    /// The window strategy.
    pub closed spec fn strategy(&self) -> AdaptiveWindowStrategy {
        self.window_strategy
    }

    /// The three window tables.
    pub closed spec fn windows(&self) -> AdaptiveWindows {
        self.adaptive_windows
    }

    /// The speed of the temporal smoothing.
    pub closed spec fn chosen_speed(&self) -> SpectrumSpeed {
        self.speed
    }

    /// The frame that was handed to the relay last.
    pub closed spec fn published(&self) -> Seq<i32> {
        self.spectrum_result@
    }

    /// The smoothed frame that the next frame is smoothed against.
    pub closed spec fn previous(&self) -> Seq<i32> {
        self.previous_spectrum@
    }

    /// The number of transforms that failed, counted around the 32-bit
    /// range.
    pub closed spec fn failures(&self) -> u32 {
        self.fft_failure_count
    }

    /// What stays the same while samples come in and frames go out.
    pub open spec fn same_setup(&self, other: &Self) -> bool {
        &&& self.window_len() == other.window_len()
        &&& self.hop_len() == other.hop_len()
        &&& self.strategy() == other.strategy()
        &&& self.windows() == other.windows()
        &&& self.chosen_speed() == other.chosen_speed()
    }

    /// In a well-formed producer the frame that was published last and the
    /// frame that the smoothing remembers have one level for each bin, each
    /// of them between the floor and the ceiling.
    pub proof fn lemma_wf_frames(&self)
        requires
            self.wf(),
        ensures
            self.published().len() == self.bins(),
            frame_in_range(self.published()),
            self.previous().len() == self.bins(),
            frame_in_range(self.previous()),
            self.window_len() > 0,
            0 < self.hop_len() <= self.window_len(),
            self.history().len() == 2 * self.window_len(),
            self.windows().wf(),
            self.windows().low_freq.coefficients@.len() == self.window_len(),
    {
        self.ring.lemma_wf_bounds();
    }

    /// A configuration with the default settings, to be changed and built.
    pub fn builder() -> (builder: SpectrumProducerBuilder)
        ensures
            builder.chosen_window_size() == SPECTRUM_WINDOW_SIZE,
            builder.chosen_overlap() == FFT_OVERLAP_FACTOR,
            builder.chosen_speed() == SpectrumSpeed::Medium,
            builder.chosen_strategy().is_none(),
    {
        SpectrumProducerBuilder::new()
    }

    /// Takes the mono samples of one callback into the ring and says whether
    /// an analysis is due: whether a hop's worth of samples has come since
    /// the last one. When it says so it starts counting anew.
    pub fn process(&mut self, samples: &[S]) -> (due: bool)
        requires
            old(self).wf(),
        ensures
            final(self).wf(),
            final(self).same_setup(old(self)),
            final(self).history() == shifted_by(old(self).history(), samples@),
            due == (counted_by(old(self).pending_len() as int, samples@.len() as int) >= old(
                self,
            ).hop_len()),
            final(self).pending_len() == if due {
                0
            } else {
                counted_by(old(self).pending_len() as int, samples@.len() as int)
            },
            final(self).published() == old(self).published(),
            final(self).previous() == old(self).previous(),
            final(self).failures() == old(self).failures(),
    {
        self.ring.extend(samples);
        if self.ring.analysis_due() {
            self.ring.restart_hop();
            true
        } else {
            false
        }
    }

    /// Writes the most recent window of samples into `out`, the oldest
    /// first.
    pub fn analysis_window(&self, out: &mut Vec<S>)
        requires
            self.wf(),
        ensures
            final(out)@ == self.window(),
            final(out)@.len() == self.window_len(),
    {
        self.ring.snapshot(out);
    }

    /// The number of samples in one analysis window.
    pub fn window_size(&self) -> (n: usize)
        requires
            self.wf(),
        ensures
            n == self.window_len(),
            n > 0,
    {
        self.ring.window_size()
    }

    /// The number of new samples between two analyses.
    pub fn hop_size(&self) -> (n: usize)
        requires
            self.wf(),
        ensures
            n == self.hop_len(),
            0 < n <= self.window_len(),
    {
        self.ring.hop_size()
    }

    /// The three window tables, each as long as the window.
    pub fn adaptive_windows(&self) -> (windows: &AdaptiveWindows)
        requires
            self.wf(),
        ensures
            *windows == self.windows(),
            windows.wf(),
            windows.low_freq.coefficients@.len() == self.window_len(),
    {
        &self.adaptive_windows
    }

    /// The speed of the temporal smoothing.
    pub fn speed(&self) -> (speed: SpectrumSpeed)
        ensures
            speed == self.chosen_speed(),
    {
        self.speed
    }

    /// The frame that an analysis leads to, given the frame that the
    /// smoothing remembers.
    pub open spec fn next_frame(
        &self,
        low: Seq<i32>,
        mid: Seq<i32>,
        high: Seq<i32>,
        coefficients: SmoothingCoefficients,
        sample_rate: u32,
    ) -> Seq<i32> {
        analysed_frame(
            self.strategy(),
            self.previous(),
            low,
            mid,
            high,
            coefficients,
            sample_rate as int,
            self.window_len() as int,
        )
    }

    /// Completes an analysis: blends the spectra that the transform gave
    /// through the low, middle and high window, smooths the result and
    /// publishes it. The published frame has one level for each bin, each
    /// between the floor and the ceiling. All of it happens in buffers that
    /// were allocated when the pipeline was built.
    ///
    /// A spectrum that does not have one level for each bin is refused, and
    /// nothing changes.
    pub fn publish_spectrum(
        &mut self,
        low_spectrum: &[i32],
        mid_spectrum: &[i32],
        high_spectrum: &[i32],
        coefficients: SmoothingCoefficients,
        sample_rate: u32,
    ) -> (result: Result<(), SpectrumError>)
        requires
            old(self).wf(),
            coefficients.wf(),
        ensures
            final(self).wf(),
            final(self).same_setup(old(self)),
            final(self).history() == old(self).history(),
            final(self).pending_len() == old(self).pending_len(),
            final(self).failures() == old(self).failures(),
            result.is_ok() <==> low_spectrum@.len() == old(self).bins() && mid_spectrum@.len()
                == old(self).bins() && high_spectrum@.len() == old(self).bins(),
            result matches Err(e) ==> e == SpectrumError::FrameLength,
            final(self).published() == if result.is_ok() {
                old(self).next_frame(
                    low_spectrum@,
                    mid_spectrum@,
                    high_spectrum@,
                    coefficients,
                    sample_rate,
                )
            } else {
                old(self).published()
            },
            final(self).previous() == if result.is_ok() {
                final(self).published()
            } else {
                old(self).previous()
            },
            final(self).published().len() == old(self).bins(),
            frame_in_range(final(self).published()),
    {
        let window_size: usize = self.ring.window_size();
        let bins: usize = window_size / 2 + 1;
        if low_spectrum.len() != bins || mid_spectrum.len() != bins || high_spectrum.len() != bins {
            return Err(SpectrumError::FrameLength);
        }
        clamp_frame_into(low_spectrum, &mut self.held_low);
        clamp_frame_into(mid_spectrum, &mut self.held_mid);
        clamp_frame_into(high_spectrum, &mut self.held_high);
        self.window_strategy.blend_into(
            self.held_low.as_slice(),
            self.held_mid.as_slice(),
            self.held_high.as_slice(),
            sample_rate,
            window_size,
            &mut self.blended,
        );
        smooth_over_time_into(
            self.blended.as_slice(),
            self.previous_spectrum.as_slice(),
            coefficients,
            &mut self.over_time,
        );
        smooth_over_frequency_into(
            self.over_time.as_slice(),
            sample_rate,
            window_size,
            &mut self.spectrum_result,
        );
        copy_frame_into(self.spectrum_result.as_slice(), &mut self.previous_spectrum);
        relay_stage(&mut self.spectrum_producer, &self.spectrum_result);
        let _ = relay_publish(&mut self.spectrum_producer);
        Ok(())
    }

    /// Notes that the transform of the window that was due has failed. No
    /// frame is published for it: the display keeps the frame before.
    pub fn record_fft_failure(&mut self)
        ensures
            final(self).failures() == if old(self).failures() == u32::MAX {
                0u32
            } else {
                (old(self).failures() + 1) as u32
            },
            final(self).wf() == old(self).wf(),
            final(self).same_setup(old(self)),
            final(self).history() == old(self).history(),
            final(self).pending_len() == old(self).pending_len(),
            final(self).published() == old(self).published(),
            final(self).previous() == old(self).previous(),
    {
        self.fft_failure_count = if self.fft_failure_count == u32::MAX {
            0
        } else {
            self.fft_failure_count + 1
        };
    }

    /// Publishes the floor in every bin, for when the effect is switched
    /// off, so that the display shows silence and not the last sound.
    pub fn write_silence(&mut self)
        requires
            old(self).wf(),
        ensures
            final(self).wf(),
            final(self).same_setup(old(self)),
            final(self).history() == old(self).history(),
            final(self).pending_len() == old(self).pending_len(),
            final(self).failures() == old(self).failures(),
            final(self).published() == floor_frame(old(self).bins()),
            final(self).previous() == old(self).previous(),
    {
        let window_size: usize = self.ring.window_size();
        let bins: usize = window_size / 2 + 1;
        silence_frame_into(bins, &mut self.spectrum_result);
        relay_stage(&mut self.spectrum_producer, &self.spectrum_result);
        let _ = relay_publish(&mut self.spectrum_producer);
    }

    /// The frame that was handed to the relay last.
    pub fn published_frame(&self) -> (frame: &Vec<i32>)
        ensures
            frame@ == self.published(),
            self.wf() ==> frame@.len() == self.bins() && frame_in_range(frame@),
    {
        &self.spectrum_result
    }

    /// The number of transforms that have failed so far.
    pub fn fft_failure_count(&self) -> (count: u32)
        ensures
            count == self.failures(),
    {
        self.fft_failure_count
    }
}

/// The frame that an analysis leads to: the three spectra, each level held
/// to the range, blended by the window strategy, then smoothed against the
/// previous frame over time and over frequency.
pub open spec fn analysed_frame(
    strategy: AdaptiveWindowStrategy,
    previous: Seq<i32>,
    low: Seq<i32>,
    mid: Seq<i32>,
    high: Seq<i32>,
    coefficients: SmoothingCoefficients,
    sample_rate: int,
    window_size: int,
) -> Seq<i32> {
    frequency_smoothed(
        temporally_smoothed(
            strategy.blended(
                clamped_frame(low),
                clamped_frame(mid),
                clamped_frame(high),
                sample_rate,
                window_size,
            ),
            previous,
            coefficients,
        ),
        sample_rate,
        window_size,
    )
}

/// The frame that the smoothing remembers after `frames` analyses of
/// silence, each of them with the floor in every bin of every spectrum.
pub open spec fn after_silence(
    strategy: AdaptiveWindowStrategy,
    previous: Seq<i32>,
    coefficients: SmoothingCoefficients,
    sample_rate: int,
    window_size: int,
    frames: nat,
) -> Seq<i32>
    decreases frames,
{
    if frames == 0 {
        previous
    } else {
        analysed_frame(
            strategy,
            after_silence(
                strategy,
                previous,
                coefficients,
                sample_rate,
                window_size,
                (frames - 1) as nat,
            ),
            floor_frame(previous.len()),
            floor_frame(previous.len()),
            floor_frame(previous.len()),
            coefficients,
            sample_rate,
            window_size,
        )
    }
}

/// Whether no level of a frame lies below the floor or above `bound`.
pub open spec fn frame_at_most(frame: Seq<i32>, bound: int) -> bool {
    forall|i: int| 0 <= i < frame.len() ==> LEVEL_FLOOR <= #[trigger] frame[i] <= bound
}

/// One analysis of silence brings every bin that is above the floor down by
/// at least one thousandth of a decibel, and none below the floor.
pub proof fn lemma_silence_lowers(
    strategy: AdaptiveWindowStrategy,
    previous: Seq<i32>,
    coefficients: SmoothingCoefficients,
    sample_rate: int,
    window_size: int,
    bound: int,
)
    requires
        coefficients.wf(),
        coefficients.release > 0,
        LEVEL_FLOOR <= bound <= i32::MAX,
        frame_at_most(previous, bound),
    ensures
        after_silence(strategy, previous, coefficients, sample_rate, window_size, 1).len()
            == previous.len(),
        frame_at_most(
            after_silence(strategy, previous, coefficients, sample_rate, window_size, 1),
            if bound > LEVEL_FLOOR {
                bound - 1
            } else {
                LEVEL_FLOOR as int
            },
        ),
{
    let n = previous.len();
    let floor = floor_frame(n);
    let lower = if bound > LEVEL_FLOOR {
        bound - 1
    } else {
        LEVEL_FLOOR as int
    };
    assert(after_silence(strategy, previous, coefficients, sample_rate, window_size, 0)
        == previous);
    assert(clamped_frame(floor) =~= floor);
    let blended = strategy.blended(floor, floor, floor, sample_rate, window_size);
    assert(blended =~= floor) by {
        assert forall|bin: int| 0 <= bin < n implies blended[bin] == LEVEL_FLOOR by {
            assert(floor[bin] == LEVEL_FLOOR);
            lemma_mixed_same(
                LEVEL_FLOOR as int,
                crossfade_factor(
                    bin,
                    sample_rate,
                    window_size,
                    strategy.low_mid_crossfade.0 as int,
                    strategy.low_mid_crossfade.1 as int,
                ),
            );
            lemma_mixed_same(
                LEVEL_FLOOR as int,
                crossfade_factor(
                    bin,
                    sample_rate,
                    window_size,
                    strategy.mid_high_crossfade.0 as int,
                    strategy.mid_high_crossfade.1 as int,
                ),
            );
        }
    }
    let over_time = temporally_smoothed(floor, previous, coefficients);
    assert forall|j: int| 0 <= j < over_time.len() implies LEVEL_FLOOR <= #[trigger] over_time[j]
        <= lower by {
        assert(LEVEL_FLOOR <= previous[j] <= bound);
        lemma_smoothed_between(
            previous[j] as int,
            LEVEL_FLOOR as int,
            coefficients.attack as int,
            coefficients.release as int,
        );
    }
    let shown = frequency_smoothed(over_time, sample_rate, window_size);
    assert(shown == after_silence(strategy, previous, coefficients, sample_rate, window_size, 1));
    assert forall|i: int| 0 <= i < shown.len() implies LEVEL_FLOOR <= #[trigger] shown[i]
        <= lower by {
        lemma_frequency_smoothed_between(
            over_time,
            sample_rate,
            window_size,
            i,
            LEVEL_FLOOR as int,
            lower,
        );
    }
}

/// Silence settles: with a release above zero, after `frames` analyses of
/// silence no bin lies more than `bound - frames` above the floor, so that
/// after as many analyses as the highest bin was thousandths of a decibel
/// above the floor every bin is at the floor, and stays there.
pub proof fn lemma_silence_settles(
    strategy: AdaptiveWindowStrategy,
    previous: Seq<i32>,
    coefficients: SmoothingCoefficients,
    sample_rate: int,
    window_size: int,
    bound: int,
    frames: nat,
)
    requires
        coefficients.wf(),
        coefficients.release > 0,
        LEVEL_FLOOR <= bound <= i32::MAX,
        frame_at_most(previous, bound),
    ensures
        after_silence(strategy, previous, coefficients, sample_rate, window_size, frames).len()
            == previous.len(),
        frame_at_most(
            after_silence(strategy, previous, coefficients, sample_rate, window_size, frames),
            if bound - frames > LEVEL_FLOOR {
                bound - frames
            } else {
                LEVEL_FLOOR as int
            },
        ),
        frames >= bound - LEVEL_FLOOR ==> after_silence(
            strategy,
            previous,
            coefficients,
            sample_rate,
            window_size,
            frames,
        ) == floor_frame(previous.len()),
    decreases frames,
{
    let settled = after_silence(strategy, previous, coefficients, sample_rate, window_size, frames);
    if frames > 0 {
        let before = after_silence(
            strategy,
            previous,
            coefficients,
            sample_rate,
            window_size,
            (frames - 1) as nat,
        );
        lemma_silence_settles(
            strategy,
            previous,
            coefficients,
            sample_rate,
            window_size,
            bound,
            (frames - 1) as nat,
        );
        let reached = if bound - (frames - 1) > LEVEL_FLOOR {
            bound - (frames - 1)
        } else {
            LEVEL_FLOOR as int
        };
        lemma_silence_lowers(strategy, before, coefficients, sample_rate, window_size, reached);
        assert(after_silence(strategy, before, coefficients, sample_rate, window_size, 0)
            == before);
        assert(settled == after_silence(
            strategy,
            before,
            coefficients,
            sample_rate,
            window_size,
            1,
        ));
    }
    if frames >= bound - LEVEL_FLOOR {
        assert(settled =~= floor_frame(previous.len()));
    }
}

} // verus!
