//! The control parameters shared between the control surface and the
//! renderer: the requested pitch as a key number and the requested level in
//! decibels, where an absent level means silence.

use vstd::prelude::*;

verus! {

/// Slider position that stands for silence; every position above it is a
/// level in decibels relative to full scale.
pub const MUTE: i16 = -61;

/// Lowest key that the pitch slider offers.
pub const LOWEST_SLIDER_KEY: i16 = 33;

/// Key that a freshly made parameter set asks for.
pub const DEFAULT_KEY: i16 = 69;

/// What the control surface last asked for.
#[derive(Clone, Copy, Debug, PartialEq, Eq)]
pub struct AudioParams {
    /// Requested pitch as a key number.
    pub frequency: i16,
    /// Requested level in decibels; `None` is silence, which `Some(0)` is not.
    pub amplitude: Option<i16>,
    /// Sample rate of the output stream in hertz.
    pub sample_rate: u32,
}

/// A request from the control surface.
#[derive(Clone, Copy, Debug, PartialEq, Eq)]
pub enum ControlMessage {
    /// The pitch slider moved to this key.
    SetFrequency(i16),
    /// The level slider moved to this position.
    SetAmplitude(i16),
}

/// The level that a slider position asks for.
pub open spec fn slider_level(position: i16) -> Option<i16> {
    if position == MUTE {
        None
    } else {
        Some(position)
    }
}

/// The slider position that shows a level.
pub open spec fn level_position(level: Option<i16>) -> i16 {
    match level {
        None => MUTE,
        Some(d) => d,
    }
}

/// The parameters after a request has been applied.
pub open spec fn updated(params: AudioParams, message: ControlMessage) -> AudioParams {
    match message {
        ControlMessage::SetFrequency(key) => AudioParams { frequency: key, ..params },
        ControlMessage::SetAmplitude(position) => AudioParams {
            amplitude: slider_level(position),
            ..params
        },
    }
}

/// Level asked for by a position of the level slider: the lowest position
/// mutes, any other is taken as decibels.
pub fn level_from_slider(position: i16) -> (level: Option<i16>)
    ensures
        level == slider_level(position),
{
    if position == MUTE {
        None
    } else {
        Some(position)
    }
}

/// Position at which the level slider shows `level`.
pub fn slider_from_level(level: Option<i16>) -> (position: i16)
    ensures
        position == level_position(level),
{
    match level {
        None => MUTE,
        Some(d) => d,
    }
}

impl AudioParams {
    /// Parameters for a stream of the given rate: concert pitch, muted.
    pub fn new(sample_rate: u32) -> (params: Self)
        ensures
            params == (AudioParams { frequency: DEFAULT_KEY, amplitude: None, sample_rate }),
    {
        AudioParams { frequency: DEFAULT_KEY, amplitude: None, sample_rate }
    }

    /// Replaces the requested pitch. Any key is accepted.
    pub fn set_frequency_key(&mut self, key: i16)
        ensures
            *final(self) == (AudioParams { frequency: key, ..*old(self) }),
    {
        self.frequency = key;
    }

    /// Replaces the requested level. Any level is accepted; `None` mutes.
    pub fn set_amplitude_db(&mut self, level: Option<i16>)
        ensures
            *final(self) == (AudioParams { amplitude: level, ..*old(self) }),
    {
        self.amplitude = level;
    }

    /// Both targets as they stand together: the key and the level.
    pub fn get_target(&self) -> (target: (i16, Option<i16>))
        ensures
            target == (self.frequency, self.amplitude),
    {
        (self.frequency, self.amplitude)
    }

    /// What the control surface has to show: the key and the level, from
    /// which it takes its slider positions and readouts.
    pub fn get_display_state(&self) -> (shown: (i16, Option<i16>))
        ensures
            shown == (self.frequency, self.amplitude),
    {
        (self.frequency, self.amplitude)
    }

    /// Applies one request of the control surface.
    pub fn update(&mut self, message: ControlMessage)
        ensures
            *final(self) == updated(*old(self), message),
    {
        match message {
            ControlMessage::SetFrequency(key) => {
                self.frequency = key;
            },
            ControlMessage::SetAmplitude(position) => {
                self.amplitude = level_from_slider(position);
            },
        }
    }
}

/// Showing a level on the slider and reading the slider back gives the level
/// again, for every level but the one that shares the muting position.
pub proof fn lemma_level_survives_slider(level: Option<i16>)
    requires
        level != Some(MUTE),
    ensures
        slider_level(level_position(level)) == level,
{
}

/// Reading a slider position and showing the level leaves the slider where
/// it was.
pub proof fn lemma_slider_position_stable(position: i16)
    ensures
        level_position(slider_level(position)) == position,
{
}

/// Of two requests for the same field only the later one counts, and requests
/// for different fields do not disturb each other.
pub proof fn lemma_last_write_wins(params: AudioParams, first: ControlMessage, second: ControlMessage)
    ensures
        (first is SetFrequency) == (second is SetFrequency) ==> updated(
            updated(params, first),
            second,
        ) == updated(params, second),
        (first is SetFrequency) != (second is SetFrequency) ==> updated(
            updated(params, first),
            second,
        ) == updated(updated(params, second), first),
{
}

} // verus!
