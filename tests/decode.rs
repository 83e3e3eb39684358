use adafruit_aht10::protocol::{decode, decode_humidity, decode_temperature};
use adafruit_aht10::{Aht10Error, RawReading};

#[test]
fn decode_ignores_status_echo() {
    let a = [0x00, 0xAB, 0xCD, 0xEF, 0x12, 0x34];
    let b = [0xFF, 0xAB, 0xCD, 0xEF, 0x12, 0x34];
    assert_eq!(decode(&a), decode(&b));
    assert_eq!(decode(&a), RawReading { humidity: 0xABCDE, temperature: 0xF1234 });
}

#[test]
fn decode_is_repeatable() {
    let p = [0x1C, 0x6B, 0x2A, 0x45, 0xF0, 0x0D];
    let first = decode(&p);
    let second = decode(&p);
    assert_eq!(first, second);
    let h1 = (first.humidity as f32 * 100.0) / (0x100000 as f32);
    let h2 = (second.humidity as f32 * 100.0) / (0x100000 as f32);
    assert_eq!(h1.to_bits(), h2.to_bits());
}

#[test]
fn decode_humidity_packs_twenty_bits() {
    assert_eq!(decode_humidity(&[0, 0, 0, 0, 0, 0]), 0);
    assert_eq!(decode_humidity(&[0, 0xFF, 0xFF, 0xF0, 0, 0]), 0xFFFFF);
    assert_eq!(decode_humidity(&[0, 0x01, 0x02, 0x3F, 0xFF, 0xFF]), 0x01023);
}

#[test]
fn decode_temperature_packs_twenty_bits() {
    assert_eq!(decode_temperature(&[0, 0, 0, 0, 0, 0]), 0);
    assert_eq!(decode_temperature(&[0, 0, 0, 0, 0, 1]), 1);
    assert_eq!(decode_temperature(&[0xFF, 0xFF, 0xFF, 0xF0, 0x00, 0x00]), 0);
    assert_eq!(decode_temperature(&[0, 0, 0, 0x0F, 0xFF, 0xFF]), 0xFFFFF);
}

#[test]
fn error_names() {
    assert_eq!(Aht10Error::CommunicationError.to_string(), "CommunicationError");
    assert_eq!(Aht10Error::CalibrationFailed.to_string(), "CalibrationFailed");
    assert_eq!(Aht10Error::OtherError.to_string(), "OtherError");
}
