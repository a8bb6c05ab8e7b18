use midi_controller_core::rotary_encoder::{
    saturating_add_custom_range, EncoderDecoder, EncoderUpdate, COUNT_MAX, COUNT_MIN,
    POLL_PERIOD_MS,
};

#[test]
fn saturating_add_stays_inside_the_range() {
    assert_eq!(saturating_add_custom_range(50, 10, 0, 100), 60);
    assert_eq!(saturating_add_custom_range(50, -10, 0, 100), 40);
    assert_eq!(saturating_add_custom_range(95, 10, 0, 100), 100);
    assert_eq!(saturating_add_custom_range(5, -10, 0, 100), 0);
    assert_eq!(saturating_add_custom_range(0, 0, 0, 100), 0);
    assert_eq!(saturating_add_custom_range(100, 0, 0, 100), 100);
}

#[test]
fn saturating_add_takes_large_deltas_at_face_value() {
    assert_eq!(saturating_add_custom_range(50, 200, 0, 100), 100);
    assert_eq!(saturating_add_custom_range(50, -200, 0, 100), 0);
    assert_eq!(saturating_add_custom_range(0, i16::MAX, 0, 100), 100);
    assert_eq!(saturating_add_custom_range(255, i16::MIN, 0, 100), 0);
    assert_eq!(saturating_add_custom_range(10, 256, 0, 255), 255);
}

#[test]
fn saturating_add_pulls_an_outside_value_into_the_range() {
    assert_eq!(saturating_add_custom_range(200, 0, 10, 20), 20);
    assert_eq!(saturating_add_custom_range(3, 0, 10, 20), 10);
    assert_eq!(saturating_add_custom_range(7, 5, 12, 12), 12);
}

#[test]
fn saturating_add_agrees_with_plain_arithmetic_everywhere() {
    for value in [0u8, 1, 50, 99, 100, 101, 254, 255] {
        for delta in [i16::MIN, -300, -101, -100, -1, 0, 1, 100, 101, 300, i16::MAX] {
            let expected = (value as i32 + delta as i32).clamp(0, 100) as u8;
            assert_eq!(saturating_add_custom_range(value, delta, 0, 100), expected);
        }
    }
}

#[test]
fn new_decoder_starts_at_zero() {
    let decoder = EncoderDecoder::new();
    assert_eq!(decoder.count(), 0);
    assert_eq!(decoder.last_value(), 0);
    assert_eq!(COUNT_MIN, 0);
    assert_eq!(COUNT_MAX, 100);
    assert_eq!(POLL_PERIOD_MS, 100);
}

#[test]
fn unchanged_reading_publishes_nothing() {
    let mut decoder = EncoderDecoder::new();
    assert_eq!(decoder.poll(0), EncoderUpdate { delta: None, count: None });
    assert_eq!(decoder.poll(4), EncoderUpdate { delta: Some(4), count: Some(4) });
    let before = decoder;
    assert_eq!(decoder.poll(4), EncoderUpdate { delta: None, count: None });
    assert_eq!(decoder.poll(4), EncoderUpdate { delta: None, count: None });
    assert_eq!(decoder, before);
    assert_eq!(decoder.count(), 4);
    assert_eq!(decoder.last_value(), 4);
}

#[test]
fn changed_reading_publishes_delta_and_count() {
    let mut decoder = EncoderDecoder::new();
    assert_eq!(decoder.poll(10), EncoderUpdate { delta: Some(10), count: Some(10) });
    assert_eq!(decoder.poll(7), EncoderUpdate { delta: Some(-3), count: Some(7) });
    assert_eq!(decoder.poll(-2), EncoderUpdate { delta: Some(-9), count: Some(0) });
    assert_eq!(decoder.count(), 0);
    assert_eq!(decoder.last_value(), -2);
}

#[test]
fn count_at_a_bound_publishes_the_delta_only() {
    let mut decoder = EncoderDecoder::new();
    assert_eq!(decoder.poll(-5), EncoderUpdate { delta: Some(-5), count: None });
    assert_eq!(decoder.count(), 0);
    assert_eq!(decoder.poll(200), EncoderUpdate { delta: Some(205), count: Some(100) });
    assert_eq!(decoder.poll(230), EncoderUpdate { delta: Some(30), count: None });
    assert_eq!(decoder.count(), 100);
}

#[test]
fn delta_wraps_around_the_counter_range() {
    let mut decoder = EncoderDecoder::new();
    assert_eq!(decoder.poll(32767), EncoderUpdate { delta: Some(32767), count: Some(100) });
    // one step further the hardware counter wraps to the lowest value
    assert_eq!(decoder.poll(i16::MIN), EncoderUpdate { delta: Some(1), count: None });
    assert_eq!(decoder.poll(i16::MAX), EncoderUpdate { delta: Some(-1), count: Some(99) });
    assert_eq!(decoder.poll(4), EncoderUpdate { delta: Some(-32763), count: Some(0) });
    assert_eq!(decoder.last_value(), 4);
}

#[test]
fn count_never_leaves_its_bounds() {
    let mut decoder = EncoderDecoder::new();
    let readings = [30i16, 90, 400, -400, 32000, -32000, 5, 6, 7, 120, 119];
    for reading in readings {
        decoder.poll(reading);
        assert!(decoder.count() <= COUNT_MAX);
        assert_eq!(decoder.last_value(), reading);
    }
}
