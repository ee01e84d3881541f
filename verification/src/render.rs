//! The renderer: the state that the audio thread keeps between buffers and
//! the filling of one interleaved buffer, frame by frame, while level and
//! pitch ramp toward what the control surface asked for.

use crate::clock::{advance_clock, clock_after};
use crate::ramp::{
    block_value,
    lemma_block_converges,
    lemma_ramp_composes,
    ramp_advance,
    ramp_step,
    ramp_step_size,
    RAMP_RATE,
};
use vstd::arithmetic::div_mod::{
    lemma_fundamental_div_mod,
    lemma_fundamental_div_mod_converse,
    lemma_mod_bound,
};
use vstd::prelude::*;

verus! {

/// What the renderer carries from one buffer to the next, as plain numbers.
pub struct RenderView {
    /// The level at which the next sample is played.
    pub amplitude: int,
    /// The pitch at which the next sample is played.
    pub frequency: int,
    /// The sample clock: samples played so far, wrapped at the sample rate.
    pub clock: int,
    /// Samples per second of the stream.
    pub sample_rate: int,
}

/// The running state of the oscillator. It belongs to the audio thread alone.
pub struct RenderState {
    amplitude: i64,
    frequency: i64,
    clock: u32,
    sample_rate: u32,
}

impl View for RenderState {
    type V = RenderView;

    closed spec fn view(&self) -> RenderView {
        RenderView {
            amplitude: self.amplitude as int,
            frequency: self.frequency as int,
            clock: self.clock as int,
            sample_rate: self.sample_rate as int,
        }
    }
}

/// The level that the ramp aims at: an absent level is silence, exactly zero.
pub open spec fn level_target(level: Option<i64>) -> int {
    match level {
        None => 0,
        Some(gain) => gain as int,
    }
}

/// The number of frames that a buffer of `len` samples holds for `channels`
/// channels, a last incomplete frame counted.
pub open spec fn frames_in(len: int, channels: int) -> int {
    (len + channels - 1) / channels
}

/// The state after a block of `frames` frames, `whole` of them complete,
/// that aimed at `amplitude` and `frequency`.
pub open spec fn state_after_block(
    before: RenderView,
    amplitude: int,
    frequency: int,
    frames: int,
    whole: int,
) -> RenderView {
    RenderView {
        amplitude: block_value(before.amplitude, amplitude, before.sample_rate, frames as nat),
        frequency: block_value(before.frequency, frequency, before.sample_rate, frames as nat),
        clock: clock_after(before.clock, whole, before.sample_rate),
        sample_rate: before.sample_rate,
    }
}

/// What the synthesis of frame `frame` is handed in a block that starts from
/// `before` and aims at `amplitude` and `frequency`: the level and the pitch
/// that the ramps hold at that frame, the clock reading at the start of the
/// block, and the frame's number.
pub open spec fn frame_input(
    before: RenderView,
    amplitude: int,
    frequency: int,
    frame: int,
) -> (i64, i64, u32, usize) {
    (
        block_value(before.amplitude, amplitude, before.sample_rate, frame as nat) as i64,
        block_value(before.frequency, frequency, before.sample_rate, frame as nat) as i64,
        before.clock as u32,
        frame as usize,
    )
}

impl RenderState {
    #[verifier::type_invariant]
    spec fn well_formed(self) -> bool {
        self.clock < self.sample_rate
    }

    /// A renderer at rest: the clock at zero, level and pitch as given. The
    /// sample rate is not zero.
    pub fn new(sample_rate: u32, level: Option<i64>, pitch: i64) -> (state: Self)
        requires
            sample_rate > 0,
        ensures
            state@ == (RenderView {
                amplitude: level_target(level),
                frequency: pitch as int,
                clock: 0,
                sample_rate: sample_rate as int,
            }),
    {
        let amplitude: i64 = match level {
            None => 0,
            Some(gain) => gain,
        };
        RenderState { amplitude, frequency: pitch, clock: 0, sample_rate }
    }

    /// The level at which the next sample is played.
    pub fn current_amplitude(&self) -> (amplitude: i64)
        ensures
            amplitude == self@.amplitude,
    {
        self.amplitude
    }

    /// The pitch at which the next sample is played.
    pub fn current_frequency(&self) -> (frequency: i64)
        ensures
            frequency == self@.frequency,
    {
        self.frequency
    }

    /// The sample clock. It stays below the sample rate.
    pub fn phase_accumulator(&self) -> (clock: u32)
        ensures
            clock == self@.clock,
            clock < self@.sample_rate,
    {
        proof {
            use_type_invariant(self);
        }
        self.clock
    }

    /// Samples per second of the stream. It is never zero.
    pub fn sample_rate(&self) -> (rate: u32)
        ensures
            rate == self@.sample_rate,
            rate > 0,
    {
        proof {
            use_type_invariant(self);
        }
        self.sample_rate
    }

    /// Fills one interleaved buffer. `level` and `pitch` are the targets as
    /// read once for this buffer. For frame `i` the sample is whatever
    /// `synth` makes of the level and pitch that the ramps hold at that
    /// frame, the clock reading at the start of the buffer and `i`; every
    /// channel of the frame receives that one sample. A last incomplete frame
    /// is filled like the others and does not move the clock.
    pub fn render<T: Copy, F: Fn(i64, i64, u32, usize) -> T>(
        &mut self,
        data: &mut [T],
        channels: usize,
        level: Option<i64>,
        pitch: i64,
        synth: F,
    )
        requires
            channels > 0,
            forall|a: i64, f: i64, c: u32, i: usize| synth.requires((a, f, c, i)),
        ensures
            final(data)@.len() == old(data)@.len(),
            final(self)@ == state_after_block(
                old(self)@,
                level_target(level),
                pitch as int,
                frames_in(old(data)@.len() as int, channels as int),
                old(data)@.len() as int / channels as int,
            ),
            forall|j: int|
                0 <= j < old(data)@.len() ==> synth.ensures(
                    frame_input(old(self)@, level_target(level), pitch as int, j / channels as int),
                    #[trigger] final(data)@[j],
                ),
            forall|j: int, k: int|
                0 <= j < old(data)@.len() && 0 <= k < old(data)@.len() && j / channels as int == k
                    / channels as int ==> #[trigger] final(data)@[j] == #[trigger] final(data)@[k],
    {
        proof {
            use_type_invariant(&*self);
        }
        let ghost before = self@;
        let len: usize = data.len();
        let rate: u32 = self.sample_rate;
        let clock: u32 = self.clock;
        let amplitude_target: i64 = match level {
            None => 0,
            Some(gain) => gain,
        };
        let amplitude_step: i128 = ramp_step(self.amplitude, amplitude_target, rate);
        let frequency_step: i128 = ramp_step(self.frequency, pitch, rate);
        let mut amplitude: i64 = self.amplitude;
        let mut frequency: i64 = self.frequency;
        let mut frame: usize = 0;
        let mut j: usize = 0;
        proof {
            lemma_fundamental_div_mod_converse(channels - 1, channels as int, 0, channels - 1);
        }
        while j < len
            invariant
                channels > 0,
                rate > 0,
                len == data@.len(),
                j <= len,
                j < len ==> j == frame * channels,
                frame == frames_in(j as int, channels as int),
                forall|a: i64, f: i64, c: u32, i: usize| synth.requires((a, f, c, i)),
                before.sample_rate == rate,
                before.clock == clock,
                amplitude_target == level_target(level),
                amplitude_step == ramp_step_size(before.amplitude, amplitude_target as int, rate as int),
                frequency_step == ramp_step_size(before.frequency, pitch as int, rate as int),
                amplitude == block_value(
                    before.amplitude,
                    amplitude_target as int,
                    rate as int,
                    frame as nat,
                ),
                frequency == block_value(before.frequency, pitch as int, rate as int, frame as nat),
                forall|k: int|
                    0 <= k < j ==> synth.ensures(
                        frame_input(before, level_target(level), pitch as int, k / channels as int),
                        #[trigger] data@[k],
                    ),
                forall|k: int, l: int|
                    0 <= k < j && 0 <= l < j && k / channels as int == l / channels as int
                        ==> #[trigger] data@[k] == #[trigger] data@[l],
            decreases len - j,
        {
            let sample: T = synth(amplitude, frequency, clock, frame);
            let start: usize = j;
            let end: usize = if len - j < channels {
                len
            } else {
                j + channels
            };
            while j < end
                invariant
                    channels > 0,
                    len == data@.len(),
                    start <= j <= end <= len,
                    start < end,
                    end - start <= channels,
                    start == frame * channels,
                    before.sample_rate == rate,
                    before.clock == clock,
                    amplitude_target == level_target(level),
                    synth.ensures((amplitude, frequency, clock, frame), sample),
                    forall|k: int| start <= k < j ==> #[trigger] data@[k] == sample,
                    forall|k: int|
                        0 <= k < start ==> synth.ensures(
                        frame_input(before, level_target(level), pitch as int, k / channels as int),
                        #[trigger] data@[k],
                    ),
                    forall|k: int, l: int|
                        0 <= k < start && 0 <= l < start && k / channels as int == l
                            / channels as int ==> #[trigger] data@[k] == #[trigger] data@[l],
                decreases end - j,
            {
                data[j] = sample;
                j += 1;
            }
            proof {
                assert forall|k: int| 0 <= k < end implies synth.ensures(
                        frame_input(before, level_target(level), pitch as int, k / channels as int),
                        #[trigger] data@[k],
                    ) by {
                    lemma_frame_of(k, channels as int, frame as int);
                }
                assert forall|k: int, l: int|
                    0 <= k < end && 0 <= l < end && k / channels as int == l
                        / channels as int implies #[trigger] data@[k] == #[trigger] data@[l] by {
                    lemma_frame_of(k, channels as int, frame as int);
                    lemma_frame_of(l, channels as int, frame as int);
                }
                assert(frame < len) by (nonlinear_arith)
                    requires
                        start == frame * channels,
                        start < len,
                        channels > 0,
                ;
                lemma_ramp_composes(
                    before.amplitude,
                    amplitude_target as int,
                    amplitude_step as int,
                    frame as nat,
                    1,
                );
                lemma_ramp_composes(
                    before.frequency,
                    pitch as int,
                    frequency_step as int,
                    frame as nat,
                    1,
                );
                lemma_frames_grow(start as int, end as int, channels as int, frame as int);
            }
            amplitude = ramp_advance(amplitude, amplitude_target, amplitude_step);
            frequency = ramp_advance(frequency, pitch, frequency_step);
            frame += 1;
        }
        self.amplitude = amplitude;
        self.frequency = frequency;
        self.clock = advance_clock(clock, len / channels, rate);
    }
}

/// Muting arrives at silence: a block of a tenth of a second or more that
/// aims at an absent level ends at a level of exactly zero.
pub proof fn lemma_mute_reaches_silence(amplitude: int, sample_rate: int, frames: nat)
    requires
        sample_rate > 0,
        frames * RAMP_RATE >= sample_rate,
    ensures
        block_value(amplitude, level_target(None), sample_rate, frames) == 0,
{
    lemma_block_converges(amplitude, 0, sample_rate, frames);
}

/// Silence holds: while the level stays absent, a renderer that has come to
/// zero plays every later frame at zero. Nothing of an earlier level comes
/// back.
pub proof fn lemma_silence_holds(sample_rate: int, frames: nat)
    ensures
        block_value(0, level_target(None), sample_rate, frames) == 0,
{
}

/// Sample `k` lies in frame `frame` or later exactly if it lies at or after
/// the start of that frame, and in that frame while it lies before the next.
proof fn lemma_frame_of(k: int, channels: int, frame: int)
    requires
        channels > 0,
        0 <= k,
        0 <= frame,
    ensures
        k < frame * channels <==> k / channels < frame,
        frame * channels <= k < frame * channels + channels ==> k / channels == frame,
{
    lemma_fundamental_div_mod(k, channels);
    lemma_mod_bound(k, channels);
    let q = k / channels;
    assert(q < frame ==> channels * q + channels <= frame * channels) by (nonlinear_arith)
        requires
            channels > 0,
    ;
    assert(q >= frame ==> channels * q >= frame * channels) by (nonlinear_arith)
        requires
            channels > 0,
    ;
    assert(q > frame ==> channels * q >= frame * channels + channels) by (nonlinear_arith)
        requires
            channels > 0,
    ;
}

/// A frame that starts at `start`, the `frame`-th of its buffer, and ends at
/// `end` brings the count of frames up to `end` to one more.
proof fn lemma_frames_grow(start: int, end: int, channels: int, frame: int)
    requires
        channels > 0,
        frame >= 0,
        start == frame * channels,
        start < end <= start + channels,
    ensures
        frames_in(end, channels) == frame + 1,
        end < start + channels ==> end / channels == frame,
        end == start + channels ==> end == (frame + 1) * channels,
{
    assert((frame + 1) * channels == frame * channels + channels) by (nonlinear_arith);
    lemma_fundamental_div_mod_converse(
        end + channels - 1,
        channels,
        frame + 1,
        end - start - 1,
    );
    if end < start + channels {
        lemma_fundamental_div_mod_converse(end, channels, frame, end - start);
    }
}

} // verus!
