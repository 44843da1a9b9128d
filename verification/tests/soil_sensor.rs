use module_runtime::soil_sensor::{
    average, channel_levels, decode_samples, encode_samples, reading, SoilSensorRange,
    SoilSensorResult, SAMPLES,
};

#[test]
fn channel_selects_multiplexer_lines() {
    assert_eq!(channel_levels(0), (false, false));
    assert_eq!(channel_levels(1), (true, false));
    assert_eq!(channel_levels(2), (false, true));
    assert_eq!(channel_levels(3), (true, true));
    assert_eq!(channel_levels(6), (false, true));
}

#[test]
fn reading_scales_by_range() {
    assert_eq!(reading(SoilSensorRange::High, 150), SoilSensorResult::Measured(150));
    assert_eq!(reading(SoilSensorRange::Low, 150), SoilSensorResult::Measured(1500));
    assert_eq!(reading(SoilSensorRange::Low, 7000), SoilSensorResult::Measured(4464));
    assert_eq!(reading(SoilSensorRange::High, 65536 + 5), SoilSensorResult::Measured(5));
}

#[test]
fn average_of_ten_readings() {
    assert_eq!(SAMPLES, 10);
    let samples = [SoilSensorResult::Measured(105); 10];
    assert_eq!(average(&samples), SoilSensorResult::Measured(105));
    let mut samples = [SoilSensorResult::Measured(100); 10];
    samples[3] = SoilSensorResult::Measured(119);
    assert_eq!(average(&samples), SoilSensorResult::Measured(101));
}

#[test]
fn average_with_a_timeout() {
    let mut samples = [SoilSensorResult::Measured(100); 10];
    samples[9] = SoilSensorResult::Timeout;
    assert_eq!(average(&samples), SoilSensorResult::Timeout);
    samples[0] = SoilSensorResult::Timeout;
    assert_eq!(average(&samples), SoilSensorResult::Timeout);
    assert_eq!(average(&[SoilSensorResult::Measured(60000), SoilSensorResult::Measured(60000), SoilSensorResult::Timeout]), SoilSensorResult::Timeout);
}

#[test]
fn average_of_nothing() {
    assert_eq!(average(&[]), SoilSensorResult::Measured(0));
}

#[test]
fn samples_travel_in_eight_bytes() {
    let samples = [
        SoilSensorResult::Measured(0x0102),
        SoilSensorResult::Timeout,
        SoilSensorResult::Measured(65535),
        SoilSensorResult::Measured(7),
    ];
    let payload = encode_samples(&samples);
    assert_eq!(payload, vec![2, 1, 0, 0, 255, 255, 7, 0]);
    assert_eq!(decode_samples(&payload), Some([0x0102, 0, 65535, 7]));
}

#[test]
fn short_sample_payload() {
    assert_eq!(decode_samples(&[1, 2, 3, 4, 5, 6, 7]), None);
    assert_eq!(decode_samples(&[1, 0, 2, 0, 3, 0, 4, 0, 9]), Some([1, 2, 3, 4]));
}
