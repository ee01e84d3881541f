use audiotool::params::{
    level_from_slider, slider_from_level, AudioParams, ControlMessage, DEFAULT_KEY,
    LOWEST_SLIDER_KEY, MUTE,
};

#[test]
fn new_params_are_concert_pitch_and_muted() {
    let params = AudioParams::new(48000);
    assert_eq!(params.frequency, 69);
    assert_eq!(params.amplitude, None);
    assert_eq!(params.sample_rate, 48000);
    assert_eq!(DEFAULT_KEY, 69);
}

#[test]
fn slider_constants() {
    assert_eq!(MUTE, -61);
    assert_eq!(LOWEST_SLIDER_KEY, 33);
}

#[test]
fn set_frequency_key_replaces_only_the_key() {
    let mut params = AudioParams::new(44100);
    params.set_amplitude_db(Some(-12));
    params.set_frequency_key(81);
    assert_eq!(
        params,
        AudioParams { frequency: 81, amplitude: Some(-12), sample_rate: 44100 }
    );
}

#[test]
fn set_amplitude_db_replaces_only_the_level() {
    let mut params = AudioParams::new(44100);
    params.set_frequency_key(40);
    params.set_amplitude_db(Some(0));
    assert_eq!(
        params,
        AudioParams { frequency: 40, amplitude: Some(0), sample_rate: 44100 }
    );
    params.set_amplitude_db(None);
    assert_eq!(params, AudioParams { frequency: 40, amplitude: None, sample_rate: 44100 });
}

#[test]
fn extreme_values_are_accepted() {
    let mut params = AudioParams::new(0);
    params.set_frequency_key(i16::MIN);
    params.set_amplitude_db(Some(i16::MAX));
    assert_eq!(params.get_target(), (i16::MIN, Some(i16::MAX)));
    params.set_frequency_key(i16::MAX);
    params.set_amplitude_db(Some(i16::MIN));
    assert_eq!(params.get_target(), (i16::MAX, Some(i16::MIN)));
}

#[test]
fn get_target_is_one_snapshot_of_both_fields() {
    let mut params = AudioParams::new(48000);
    assert_eq!(params.get_target(), (69, None));
    params.set_frequency_key(57);
    params.set_amplitude_db(Some(-6));
    assert_eq!(params.get_target(), (57, Some(-6)));
    assert_eq!(params.get_display_state(), (57, Some(-6)));
}

#[test]
fn muted_is_not_zero_decibels() {
    let mut muted = AudioParams::new(48000);
    muted.set_amplitude_db(None);
    let mut full = AudioParams::new(48000);
    full.set_amplitude_db(Some(0));
    assert_ne!(muted.get_target(), full.get_target());
}

#[test]
fn last_write_wins() {
    let mut params = AudioParams::new(48000);
    params.set_frequency_key(40);
    params.set_frequency_key(41);
    params.set_frequency_key(42);
    params.set_amplitude_db(Some(-30));
    params.set_amplitude_db(Some(-3));
    assert_eq!(params.get_target(), (42, Some(-3)));
}

#[test]
fn level_from_slider_mutes_at_the_bottom() {
    assert_eq!(level_from_slider(-61), None);
    assert_eq!(level_from_slider(-60), Some(-60));
    assert_eq!(level_from_slider(0), Some(0));
    assert_eq!(level_from_slider(-62), Some(-62));
    assert_eq!(level_from_slider(i16::MIN), Some(i16::MIN));
    assert_eq!(level_from_slider(i16::MAX), Some(i16::MAX));
}

#[test]
fn slider_from_level_shows_mute_at_the_bottom() {
    assert_eq!(slider_from_level(None), -61);
    assert_eq!(slider_from_level(Some(0)), 0);
    assert_eq!(slider_from_level(Some(-60)), -60);
    assert_eq!(slider_from_level(Some(-61)), -61);
}

#[test]
fn slider_position_survives_reading_and_showing() {
    let mut position: i16 = i16::MIN;
    loop {
        assert_eq!(slider_from_level(level_from_slider(position)), position);
        if position == i16::MAX {
            break;
        }
        position += 1;
    }
}

#[test]
fn level_survives_showing_and_reading_unless_it_shares_the_mute_position() {
    assert_eq!(level_from_slider(slider_from_level(None)), None);
    let mut level: i16 = MUTE + 1;
    while level <= 0 {
        assert_eq!(level_from_slider(slider_from_level(Some(level))), Some(level));
        level += 1;
    }
    assert_eq!(level_from_slider(slider_from_level(Some(MUTE))), None);
}

#[test]
fn update_applies_a_pitch_request() {
    let mut params = AudioParams::new(48000);
    params.update(ControlMessage::SetFrequency(88));
    assert_eq!(params, AudioParams { frequency: 88, amplitude: None, sample_rate: 48000 });
}

#[test]
fn update_applies_a_level_request() {
    let mut params = AudioParams::new(48000);
    params.update(ControlMessage::SetAmplitude(-20));
    assert_eq!(
        params,
        AudioParams { frequency: 69, amplitude: Some(-20), sample_rate: 48000 }
    );
    params.update(ControlMessage::SetAmplitude(0));
    assert_eq!(params.amplitude, Some(0));
}

#[test]
fn update_mutes_at_the_bottom_of_the_slider() {
    let mut params = AudioParams::new(48000);
    params.update(ControlMessage::SetAmplitude(-10));
    params.update(ControlMessage::SetAmplitude(MUTE));
    assert_eq!(params, AudioParams { frequency: 69, amplitude: None, sample_rate: 48000 });
}

#[test]
fn updates_of_different_fields_do_not_disturb_each_other() {
    let mut one = AudioParams::new(48000);
    one.update(ControlMessage::SetFrequency(50));
    one.update(ControlMessage::SetAmplitude(-5));
    let mut other = AudioParams::new(48000);
    other.update(ControlMessage::SetAmplitude(-5));
    other.update(ControlMessage::SetFrequency(50));
    assert_eq!(one, other);
}

#[test]
fn later_update_of_one_field_supersedes_the_earlier() {
    let mut params = AudioParams::new(48000);
    params.update(ControlMessage::SetAmplitude(-5));
    params.update(ControlMessage::SetAmplitude(-7));
    assert_eq!(params.get_target(), (69, Some(-7)));
}
