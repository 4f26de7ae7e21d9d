use dht11::measure::validate;
use dht11::BitClass;
use dht11::Error;
use dht11::Measure;

fn checked(bytes: [u8; 5]) -> Measure {
    match validate::<()>(bytes) {
        Ok(m) => m,
        Err(_) => panic!("quintuple with matching checksum was rejected"),
    }
}

#[test]
fn validate_accepts_matching_checksum() {
    let m = checked([0x32, 0x00, 0x1B, 0x00, 0x4D]);
    assert_eq!(m.humidity_int, 0x32);
    assert_eq!(m.humidity_frac, 0x00);
    assert_eq!(m.temperature_int, 0x1B);
    assert_eq!(m.temperature_frac, 0x00);
}

#[test]
fn validate_accepts_wrapping_sum() {
    // 0xF0 + 0x20 + 0x10 + 0x05 = 0x125: only the low byte counts.
    let m = checked([0xF0, 0x20, 0x10, 0x05, 0x25]);
    assert_eq!(m.humidity_int, 0xF0);
    assert_eq!(m.humidity_frac, 0x20);
    assert_eq!(m.temperature_int, 0x10);
    assert_eq!(m.temperature_frac, 0x05);
}

#[test]
fn validate_accepts_all_zero() {
    let m = checked([0x00, 0x00, 0x00, 0x00, 0x00]);
    assert_eq!(m.humidity_int, 0x00);
    assert_eq!(m.temperature_int, 0x00);
}

#[test]
fn validate_rejects_mismatch() {
    match validate::<()>([0x32, 0x00, 0x1B, 0x00, 0x00]) {
        Err(Error::ChecksumMismatch { computed, received }) => {
            assert_eq!(computed, 0x4D);
            assert_eq!(received, 0x00);
        },
        _ => panic!("mismatched checksum byte was not reported"),
    }
}

#[test]
fn validate_rejects_off_by_one() {
    match validate::<()>([0x01, 0x02, 0x03, 0x04, 0x0B]) {
        Err(Error::ChecksumMismatch { computed, received }) => {
            assert_eq!(computed, 0x0A);
            assert_eq!(received, 0x0B);
        },
        _ => panic!("mismatched checksum byte was not reported"),
    }
}

#[test]
fn classify_nominal_zero() {
    assert_eq!(dht11::timing::classify_pulse(27), BitClass::Zero);
}

#[test]
fn classify_nominal_one() {
    assert_eq!(dht11::timing::classify_pulse(70), BitClass::One);
}

#[test]
fn classify_between_bands() {
    assert_eq!(dht11::timing::classify_pulse(48), BitClass::OutOfRange);
}

#[test]
fn classify_band_edges() {
    assert_eq!(dht11::timing::classify_pulse(21), BitClass::Zero);
    assert_eq!(dht11::timing::classify_pulse(31), BitClass::Zero);
    assert_eq!(dht11::timing::classify_pulse(20), BitClass::OutOfRange);
    assert_eq!(dht11::timing::classify_pulse(32), BitClass::OutOfRange);
    assert_eq!(dht11::timing::classify_pulse(65), BitClass::One);
    assert_eq!(dht11::timing::classify_pulse(75), BitClass::One);
    assert_eq!(dht11::timing::classify_pulse(64), BitClass::OutOfRange);
    assert_eq!(dht11::timing::classify_pulse(76), BitClass::OutOfRange);
}
