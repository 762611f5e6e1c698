//! Stereo level metering: the peak of each channel over one callback on the
//! audio thread, and on the display thread the attack/release smoothing,
//! the sticky peak hold and the silence detector that work on what the relay
//! brings.

use vstd::prelude::*;
use crate::level::{clamp_level, clamped, level_in_range, smooth_level, smoothed, LEVEL_FLOOR};
use crate::relay::{reader_frame, relay_open, relay_peek, relay_publish, relay_stage,
    relay_update};

verus! {

/// The attack coefficient of the meters: 0.3 of the way in each update.
pub const METER_ATTACK: u32 = 300_000;

/// The release coefficient of the meters: 0.001 of the way in each update.
pub const METER_RELEASE: u32 = 1_000;

/// For how many updates a held peak stays before it is let go.
pub const PEAK_HOLD_CYCLES: u32 = 60;

/// Below this level, -50 dB, the meters count as silent.
pub const SILENCE_THRESHOLD_DB: i32 = -50_000;

/// For how many updates silence must have lasted before the faster decay
/// sets in.
pub const SILENCE_DEBOUNCE_CYCLES: u32 = 30;

/// By how much a silent meter falls in each update: 0.5 dB.
pub const SILENCE_DECAY_PER_CYCLE: i32 = 500;

/// Below this level, -80 dB, a decaying meter drops to the floor at once.
pub const SILENCE_CUTOFF_DB: i32 = -80_000;

/// One of the two channels of a stereo meter.
#[derive(Debug, Clone, Copy, PartialEq, Eq, Structural)]
pub enum Channel {
    /// The left channel, or the only channel of a mono signal.
    Left,
    /// The right channel.
    Right,
}

/// The peak levels of the two channels over one callback.
#[derive(Debug, Clone, Copy, PartialEq, Eq, Structural)]
pub struct MeterReading {
    /// The peak of the left channel.
    pub left: i32,
    /// The peak of the right channel.
    pub right: i32,
}

impl MeterReading {
    /// Whether both levels lie between the floor and the ceiling.
    pub open spec fn wf(&self) -> bool {
        level_in_range(self.left as int) && level_in_range(self.right as int)
    }

    /// The level of one channel.
    pub fn channel(&self, channel: Channel) -> (level: i32)
        ensures
            level == match channel {
                Channel::Left => self.left,
                Channel::Right => self.right,
            },
    {
        match channel {
            Channel::Left => self.left,
            Channel::Right => self.right,
        }
    }
}

/// The greater of two levels.
pub open spec fn higher(a: int, b: int) -> int {
    if a < b {
        b
    } else {
        a
    }
}

/// The peak of the levels of one channel's samples: the highest of them,
/// each held to the range between the floor and the ceiling; the floor for
/// no samples.
pub open spec fn peak_of(samples: Seq<i32>) -> int
    decreases samples.len(),
{
    if samples.len() == 0 {
        LEVEL_FLOOR as int
    } else {
        higher(peak_of(samples.drop_last()), clamped(samples.last() as int))
    }
}

/// The peak is in range, no sample lies above it, and it is the floor or the
/// level of one of the samples.
pub proof fn lemma_peak_is_maximum(samples: Seq<i32>)
    ensures
        level_in_range(peak_of(samples)),
        forall|i: int| 0 <= i < samples.len() ==> clamped(#[trigger] samples[i] as int) <= peak_of(samples),
        peak_of(samples) == LEVEL_FLOOR || exists|i: int|
            0 <= i < samples.len() && peak_of(samples) == clamped(#[trigger] samples[i] as int),
    decreases samples.len(),
{
    if samples.len() > 0 {
        let shorter = samples.drop_last();
        lemma_peak_is_maximum(shorter);
        assert forall|i: int| 0 <= i < samples.len() implies clamped(
            #[trigger] samples[i] as int,
        ) <= peak_of(samples) by {
            if i < shorter.len() {
                assert(shorter[i] == samples[i]);
            }
        }
        if peak_of(samples) != LEVEL_FLOOR {
            if peak_of(samples) == clamped(samples.last() as int) {
                assert(peak_of(samples) == clamped(samples[samples.len() - 1] as int));
            } else {
                let i = choose|i: int|
                    0 <= i < shorter.len() && peak_of(shorter) == clamped(
                        #[trigger] shorter[i] as int,
                    );
                assert(shorter[i] == samples[i]);
            }
        }
    }
}

/// The reading for the channels of one callback: the peak of the first
/// channel on the left and of the second on the right. A mono signal shows
/// on both sides, and no channels at all read as the floor.
pub open spec fn peak_reading(channels: Seq<Vec<i32>>) -> MeterReading {
    if channels.len() == 0 {
        MeterReading { left: LEVEL_FLOOR, right: LEVEL_FLOOR }
    } else if channels.len() == 1 {
        MeterReading { left: peak_of(channels[0]@) as i32, right: peak_of(channels[0]@) as i32 }
    } else {
        MeterReading { left: peak_of(channels[0]@) as i32, right: peak_of(channels[1]@) as i32 }
    }
}

/// The peak of the levels of one channel's samples.
pub fn peak_level(samples: &[i32]) -> (peak: i32)
    ensures
        peak == peak_of(samples@),
        level_in_range(peak as int),
{
    let mut peak: i32 = LEVEL_FLOOR;
    let mut i: usize = 0;
    while i < samples.len()
        invariant
            i <= samples@.len(),
            peak == peak_of(samples@.take(i as int)),
            level_in_range(peak as int),
        decreases samples@.len() - i,
    {
        proof {
            let next = samples@.take(i + 1);
            assert(next.drop_last() =~= samples@.take(i as int));
        }
        let level: i32 = clamp_level(samples[i]);
        if level > peak {
            peak = level;
        }
        i += 1;
    }
    assert(samples@.take(i as int) =~= samples@);
    peak
}

/// The peak levels, left and right, of the channels of one callback. Each
/// channel comes as the levels of its samples.
pub fn calculate_peak_levels(channels: &[Vec<i32>]) -> (peaks: (i32, i32))
    ensures
        peaks.0 == peak_reading(channels@).left,
        peaks.1 == peak_reading(channels@).right,
        level_in_range(peaks.0 as int),
        level_in_range(peaks.1 as int),
{
    let num_channels: usize = channels.len();
    if num_channels == 0 {
        return (LEVEL_FLOOR, LEVEL_FLOOR);
    }
    let left_peak: i32 = peak_level(channels[0].as_slice());
    let right_peak: i32 = if num_channels >= 2 {
        peak_level(channels[1].as_slice())
    } else {
        left_peak
    };
    (left_peak, right_peak)
}

/// The reading that a relayed frame stands for: its two entries, each held
/// to the range, if it has exactly two; the floor on both sides otherwise.
pub open spec fn reading_of(frame: Seq<i32>) -> MeterReading {
    if frame.len() == 2 {
        MeterReading { left: clamped(frame[0] as int) as i32, right: clamped(frame[1] as int) as i32 }
    } else {
        MeterReading { left: LEVEL_FLOOR, right: LEVEL_FLOOR }
    }
}

/// A silent level after one update of the faster decay: half a decibel
/// lower, and at the floor once that is below the cutoff. A level at the
/// floor stays there.
pub open spec fn decayed(level: int) -> int {
    if level > LEVEL_FLOOR {
        if level - SILENCE_DECAY_PER_CYCLE < SILENCE_CUTOFF_DB {
            LEVEL_FLOOR as int
        } else {
            level - SILENCE_DECAY_PER_CYCLE
        }
    } else {
        level
    }
}

/// What the display side remembers between updates.
#[derive(Debug, Clone, Copy, PartialEq, Eq, Structural)]
pub struct MeterState {
    /// The smoothed level of the left channel.
    pub smoothed_left: i32,
    /// The smoothed level of the right channel.
    pub smoothed_right: i32,
    /// The held peak of the left channel.
    pub peak_hold_left: i32,
    /// The held peak of the right channel.
    pub peak_hold_right: i32,
    /// The held peak of both channels: the higher of the two.
    pub peak_hold_value: i32,
    /// The number of updates since the held peak was last raised.
    pub peak_hold_counter: u32,
    /// The number of updates for which the meters have been silent.
    pub silence_counter: u32,
}

impl MeterState {
    /// The invariant: every level is in range, the held peak of both
    /// channels is the higher of the two held peaks, and the hold has not
    /// outlasted its duration.
    pub open spec fn wf(&self) -> bool {
        &&& level_in_range(self.smoothed_left as int)
        &&& level_in_range(self.smoothed_right as int)
        &&& level_in_range(self.peak_hold_left as int)
        &&& level_in_range(self.peak_hold_right as int)
        &&& self.peak_hold_value == higher(self.peak_hold_left as int, self.peak_hold_right as int)
        &&& self.peak_hold_counter < PEAK_HOLD_CYCLES
    }

    /// The state before any reading: everything at the floor.
    pub open spec fn silent() -> MeterState {
        MeterState {
            smoothed_left: LEVEL_FLOOR,
            smoothed_right: LEVEL_FLOOR,
            peak_hold_left: LEVEL_FLOOR,
            peak_hold_right: LEVEL_FLOOR,
            peak_hold_value: LEVEL_FLOOR,
            peak_hold_counter: 0,
            silence_counter: 0,
        }
    }

    /// The state after the smoothed levels have followed the inputs by one
    /// attack/release step each.
    pub open spec fn after_smoothing(self, left_db: i32, right_db: i32) -> MeterState {
        MeterState {
            smoothed_left: smoothed(
                self.smoothed_left as int,
                clamped(left_db as int),
                METER_ATTACK as int,
                METER_RELEASE as int,
            ) as i32,
            smoothed_right: smoothed(
                self.smoothed_right as int,
                clamped(right_db as int),
                METER_ATTACK as int,
                METER_RELEASE as int,
            ) as i32,
            ..self
        }
    }

    /// Whether an input raises one of the held peaks.
    pub open spec fn raises_peak(self, left_db: i32, right_db: i32) -> bool {
        clamped(left_db as int) > self.peak_hold_left || clamped(right_db as int)
            > self.peak_hold_right
    }

    /// The state after the peak hold has seen the inputs: a higher input is
    /// taken as the new held peak and the hold starts anew; otherwise the
    /// hold goes on, and after `PEAK_HOLD_CYCLES` updates without a new peak
    /// the held peaks are let go to the floor.
    pub open spec fn after_peak_hold(self, left_db: i32, right_db: i32) -> MeterState {
        if self.raises_peak(left_db, right_db) {
            let left = higher(self.peak_hold_left as int, clamped(left_db as int));
            let right = higher(self.peak_hold_right as int, clamped(right_db as int));
            MeterState {
                peak_hold_left: left as i32,
                peak_hold_right: right as i32,
                peak_hold_value: higher(left, right) as i32,
                peak_hold_counter: 0,
                ..self
            }
        } else if self.peak_hold_counter + 1 >= PEAK_HOLD_CYCLES {
            MeterState {
                peak_hold_left: LEVEL_FLOOR,
                peak_hold_right: LEVEL_FLOOR,
                peak_hold_value: LEVEL_FLOOR,
                peak_hold_counter: 0,
                ..self
            }
        } else {
            MeterState { peak_hold_counter: (self.peak_hold_counter + 1) as u32, ..self }
        }
    }

    /// The state after the silence detector has run: while the higher of the
    /// smoothed levels is below the threshold every update is counted, the
    /// count being held only at the machine's limit, and once the silence
    /// has lasted longer than the debounce both smoothed levels decay by a
    /// fixed amount in each update; a level at or above the threshold ends
    /// the silence.
    pub open spec fn after_silence_detection(self) -> MeterState {
        if higher(self.smoothed_left as int, self.smoothed_right as int) < SILENCE_THRESHOLD_DB {
            let counter = if self.silence_counter < u32::MAX {
                (self.silence_counter + 1) as u32
            } else {
                self.silence_counter
            };
            if counter > SILENCE_DEBOUNCE_CYCLES {
                MeterState {
                    smoothed_left: decayed(self.smoothed_left as int) as i32,
                    smoothed_right: decayed(self.smoothed_right as int) as i32,
                    silence_counter: counter,
                    ..self
                }
            } else {
                MeterState { silence_counter: counter, ..self }
            }
        } else {
            MeterState { silence_counter: 0, ..self }
        }
    }

    /// The state after one whole update with a reading: smoothing, then
    /// peak hold, then, where it is switched on, silence detection.
    pub open spec fn after_update(self, reading: MeterReading, silence_detection: bool) -> MeterState {
        let held = self.after_smoothing(reading.left, reading.right).after_peak_hold(
            reading.left,
            reading.right,
        );
        if silence_detection {
            held.after_silence_detection()
        } else {
            held
        }
    }

    /// The state before any reading: everything at the floor.
    pub fn new() -> (state: MeterState)
        ensures
            state == MeterState::silent(),
            state.wf(),
    {
        MeterState {
            smoothed_left: LEVEL_FLOOR,
            smoothed_right: LEVEL_FLOOR,
            peak_hold_left: LEVEL_FLOOR,
            peak_hold_right: LEVEL_FLOOR,
            peak_hold_value: LEVEL_FLOOR,
            peak_hold_counter: 0,
            silence_counter: 0,
        }
    }

    /// Lets the smoothed levels follow the inputs: quickly when a level
    /// rises, very slowly when it falls.
    pub fn update_smoothing(&mut self, left_db: i32, right_db: i32)
        requires
            old(self).wf(),
        ensures
            final(self).wf(),
            *final(self) == old(self).after_smoothing(left_db, right_db),
    {
        let left: i32 = clamp_level(left_db);
        let right: i32 = clamp_level(right_db);
        self.smoothed_left = smooth_level(self.smoothed_left, left, METER_ATTACK, METER_RELEASE);
        self.smoothed_right = smooth_level(
            self.smoothed_right,
            right,
            METER_ATTACK,
            METER_RELEASE,
        );
    }

    /// Updates the held peaks: they stick at the highest recent level for
    /// the hold duration and are then let go.
    pub fn update_peak_hold(&mut self, left_db: i32, right_db: i32)
        requires
            old(self).wf(),
        ensures
            final(self).wf(),
            *final(self) == old(self).after_peak_hold(left_db, right_db),
    {
        let left: i32 = clamp_level(left_db);
        let right: i32 = clamp_level(right_db);
        let mut new_peak: bool = false;
        if left > self.peak_hold_left {
            self.peak_hold_left = left;
            new_peak = true;
        }
        if right > self.peak_hold_right {
            self.peak_hold_right = right;
            new_peak = true;
        }
        let current_peak: i32 = if self.peak_hold_left < self.peak_hold_right {
            self.peak_hold_right
        } else {
            self.peak_hold_left
        };
        if current_peak > self.peak_hold_value {
            self.peak_hold_value = current_peak;
            new_peak = true;
        }
        if new_peak {
            self.peak_hold_counter = 0;
        } else {
            self.peak_hold_counter = self.peak_hold_counter + 1;
            if self.peak_hold_counter >= PEAK_HOLD_CYCLES {
                self.peak_hold_left = LEVEL_FLOOR;
                self.peak_hold_right = LEVEL_FLOOR;
                self.peak_hold_value = LEVEL_FLOOR;
                self.peak_hold_counter = 0;
            }
        }
    }

    /// Detects lasting silence and lets the smoothed levels decay faster
    /// then, so that the meters do not seem stuck.
    pub fn update_silence_detection(&mut self)
        requires
            old(self).wf(),
        ensures
            final(self).wf(),
            *final(self) == old(self).after_silence_detection(),
    {
        let max_level: i32 = if self.smoothed_left < self.smoothed_right {
            self.smoothed_right
        } else {
            self.smoothed_left
        };
        if max_level < SILENCE_THRESHOLD_DB {
            if self.silence_counter < u32::MAX {
                self.silence_counter = self.silence_counter + 1;
            }
            if self.silence_counter > SILENCE_DEBOUNCE_CYCLES {
                if self.smoothed_left > LEVEL_FLOOR {
                    self.smoothed_left = self.smoothed_left - SILENCE_DECAY_PER_CYCLE;
                    if self.smoothed_left < SILENCE_CUTOFF_DB {
                        self.smoothed_left = LEVEL_FLOOR;
                    }
                }
                if self.smoothed_right > LEVEL_FLOOR {
                    self.smoothed_right = self.smoothed_right - SILENCE_DECAY_PER_CYCLE;
                    if self.smoothed_right < SILENCE_CUTOFF_DB {
                        self.smoothed_right = LEVEL_FLOOR;
                    }
                }
            }
        } else {
            self.silence_counter = 0;
        }
    }
}

/// The state after the peak hold has seen each of the inputs in turn.
pub open spec fn held_through(state: MeterState, inputs: Seq<(i32, i32)>) -> MeterState
    decreases inputs.len(),
{
    if inputs.len() == 0 {
        state
    } else {
        held_through(state, inputs.drop_last()).after_peak_hold(inputs.last().0, inputs.last().1)
    }
}

/// An input above a held peak is taken as the new held peak at once, and
/// the hold starts anew.
pub proof fn lemma_peak_is_taken(state: MeterState, left_db: i32, right_db: i32)
    requires
        state.wf(),
        state.raises_peak(left_db, right_db),
    ensures
        state.after_peak_hold(left_db, right_db).peak_hold_counter == 0,
        state.after_peak_hold(left_db, right_db).peak_hold_left == higher(
            state.peak_hold_left as int,
            clamped(left_db as int),
        ),
        state.after_peak_hold(left_db, right_db).peak_hold_right == higher(
            state.peak_hold_right as int,
            clamped(right_db as int),
        ),
        state.after_peak_hold(left_db, right_db).wf(),
{
}

/// Peak hold: after a peak was taken, inputs that do not exceed it leave the
/// held peaks as they are for `PEAK_HOLD_CYCLES - 1` updates, and the update
/// after those lets them go to the floor.
pub proof fn lemma_peak_is_held(state: MeterState, inputs: Seq<(i32, i32)>)
    requires
        state.wf(),
        state.peak_hold_counter == 0,
        inputs.len() <= PEAK_HOLD_CYCLES,
        forall|i: int|
            0 <= i < inputs.len() ==> !state.raises_peak((#[trigger] inputs[i]).0, inputs[i].1),
    ensures
        held_through(state, inputs).wf(),
        inputs.len() < PEAK_HOLD_CYCLES ==> {
            &&& held_through(state, inputs).peak_hold_left == state.peak_hold_left
            &&& held_through(state, inputs).peak_hold_right == state.peak_hold_right
            &&& held_through(state, inputs).peak_hold_value == state.peak_hold_value
            &&& held_through(state, inputs).peak_hold_counter == inputs.len()
        },
        inputs.len() == PEAK_HOLD_CYCLES ==> {
            &&& held_through(state, inputs).peak_hold_left == LEVEL_FLOOR
            &&& held_through(state, inputs).peak_hold_right == LEVEL_FLOOR
            &&& held_through(state, inputs).peak_hold_value == LEVEL_FLOOR
            &&& held_through(state, inputs).peak_hold_counter == 0
        },
    decreases inputs.len(),
{
    if inputs.len() > 0 {
        let shorter = inputs.drop_last();
        assert forall|i: int| 0 <= i < shorter.len() implies !state.raises_peak(
            (#[trigger] shorter[i]).0,
            shorter[i].1,
        ) by {
            assert(shorter[i] == inputs[i]);
        }
        lemma_peak_is_held(state, shorter);
        let last = inputs[inputs.len() - 1];
        assert(!state.raises_peak(last.0, last.1));
    }
}

/// The audio thread's end of the meter: it takes the peaks of a callback
/// and hands them to the relay.
pub struct MeterProducer {
    input: triple_buffer::Input<Vec<i32>>,
    frame: Vec<i32>,
    published: MeterReading,
}

impl MeterProducer {
    /// The reading that was handed to the relay last.
    pub closed spec fn published(&self) -> MeterReading {
        self.published
    }

    /// Hands a reading to the relay.
    fn publish(&mut self, reading: MeterReading)
        ensures
            final(self).published() == reading,
    {
        self.frame.clear();
        self.frame.push(reading.left);
        self.frame.push(reading.right);
        relay_stage(&mut self.input, &self.frame);
        let _ = relay_publish(&mut self.input);
        self.published = reading;
    }

    /// Takes the peak levels of the channels of one callback and publishes
    /// them. Returns the reading that it published.
    pub fn update_peaks(&mut self, channels: &[Vec<i32>]) -> (reading: MeterReading)
        ensures
            reading == peak_reading(channels@),
            reading.wf(),
            final(self).published() == reading,
    {
        let (left, right) = calculate_peak_levels(channels);
        let reading = MeterReading { left, right };
        self.publish(reading);
        reading
    }

    /// Publishes the floor on both channels, for when the effect is switched
    /// off.
    pub fn write_silence(&mut self)
        ensures
            final(self).published() == (MeterReading { left: LEVEL_FLOOR, right: LEVEL_FLOOR }),
    {
        self.publish(MeterReading { left: LEVEL_FLOOR, right: LEVEL_FLOOR });
    }

    /// The reading that was handed to the relay last.
    pub fn last_published(&self) -> (reading: MeterReading)
        ensures
            reading == self.published(),
    {
        self.published
    }
}

/// The display thread's end of the meter: it reads what the relay brings
/// and keeps the smoothing and peak-hold state, which no other thread
/// touches.
pub struct MeterConsumer {
    output: triple_buffer::Output<Vec<i32>>,
    state: MeterState,
    silence_detection: bool,
}

impl MeterConsumer {
    /// The invariant of the state that the consumer keeps.
    pub closed spec fn wf(&self) -> bool {
        self.state.wf()
    }

    /// The state that the consumer keeps between updates.
    pub closed spec fn state(&self) -> MeterState {
        self.state
    }

    /// Whether the silence detector is switched on.
    pub closed spec fn detects_silence(&self) -> bool {
        self.silence_detection
    }

    /// The frame in the slot of the relay that the consumer owns.
    pub closed spec fn latest_frame(&self) -> Seq<i32> {
        reader_frame(self.output)
    }

    /// The reading that was published last, as far as the consumer has
    /// fetched it.
    pub open spec fn latest_reading(&self) -> MeterReading {
        reading_of(self.latest_frame())
    }

    /// Switches the silence detector on or off.
    pub fn set_silence_detection(&mut self, enabled: bool)
        ensures
            final(self).detects_silence() == enabled,
            final(self).state() == old(self).state(),
            final(self).latest_frame() == old(self).latest_frame(),
            final(self).wf() == old(self).wf(),
    {
        self.silence_detection = enabled;
    }

    /// Fetches what the audio thread published last, without blocking, and
    /// returns the reading that the consumer now holds: the new one if there
    /// was one, the one it had otherwise.
    pub fn latest_meter(&mut self) -> (reading: MeterReading)
        ensures
            reading == final(self).latest_reading(),
            reading.wf(),
            final(self).state() == old(self).state(),
            final(self).detects_silence() == old(self).detects_silence(),
            final(self).wf() == old(self).wf(),
    {
        let _ = relay_update(&mut self.output);
        decode_reading(relay_peek(&self.output))
    }

    /// One update of the display side: fetches the latest reading and runs
    /// smoothing, peak hold and silence detection on it. Returns whether the
    /// audio thread had published since the last fetch; if it had not, the
    /// reading is the one of the update before.
    pub fn update(&mut self) -> (fresh: bool)
        requires
            old(self).wf(),
        ensures
            final(self).wf(),
            final(self).state() == old(self).state().after_update(
                final(self).latest_reading(),
                old(self).detects_silence(),
            ),
            final(self).detects_silence() == old(self).detects_silence(),
            !fresh ==> final(self).latest_frame() == old(self).latest_frame(),
    {
        let fresh: bool = relay_update(&mut self.output);
        let reading: MeterReading = decode_reading(relay_peek(&self.output));
        self.state.update_smoothing(reading.left, reading.right);
        self.state.update_peak_hold(reading.left, reading.right);
        if self.silence_detection {
            self.state.update_silence_detection();
        }
        fresh
    }

    /// The smoothed levels, left and right.
    pub fn get_smoothed_levels(&self) -> (levels: (i32, i32))
        ensures
            levels.0 == self.state().smoothed_left,
            levels.1 == self.state().smoothed_right,
    {
        (self.state.smoothed_left, self.state.smoothed_right)
    }

    /// The held peak of both channels.
    pub fn get_peak_hold_db(&self) -> (level: i32)
        ensures
            level == self.state().peak_hold_value,
    {
        self.state.peak_hold_value
    }

    /// The held peaks, left and right.
    pub fn get_peak_hold_channels(&self) -> (levels: (i32, i32))
        ensures
            levels.0 == self.state().peak_hold_left,
            levels.1 == self.state().peak_hold_right,
    {
        (self.state.peak_hold_left, self.state.peak_hold_right)
    }
}

/// The reading that a relayed frame stands for.
pub fn decode_reading(frame: &Vec<i32>) -> (reading: MeterReading)
    ensures
        reading == reading_of(frame@),
        reading.wf(),
{
    if frame.len() == 2 {
        MeterReading { left: clamp_level(frame[0]), right: clamp_level(frame[1]) }
    } else {
        MeterReading { left: LEVEL_FLOOR, right: LEVEL_FLOOR }
    }
}

/// Makes the two ends of a meter: the producer for the audio thread and the
/// consumer for the display thread. Until the producer publishes, the
/// consumer reads the floor on both channels.
pub fn create_meter_channels() -> (ends: (MeterProducer, MeterConsumer))
    ensures
        ends.0.published() == (MeterReading { left: LEVEL_FLOOR, right: LEVEL_FLOOR }),
        ends.1.wf(),
        ends.1.state() == MeterState::silent(),
        ends.1.detects_silence(),
        ends.1.latest_frame() == seq![LEVEL_FLOOR, LEVEL_FLOOR],
        ends.1.latest_reading() == (MeterReading { left: LEVEL_FLOOR, right: LEVEL_FLOOR }),
{
    let initial: Vec<i32> = vec![LEVEL_FLOOR, LEVEL_FLOOR];
    let (input, output) = relay_open(&initial);
    assert(initial@ =~= seq![LEVEL_FLOOR, LEVEL_FLOOR]);
    (
        MeterProducer {
            input,
            frame: initial,
            published: MeterReading { left: LEVEL_FLOOR, right: LEVEL_FLOOR },
        },
        MeterConsumer { output, state: MeterState::new(), silence_detection: true },
    )
}

} // verus!
