use dht11::Error;
use dht11::Interrupt;
use dht11::Measure;
use dht11::SimPin;
use dht11::DHT;

/// The reference pulse train for five transferred bytes: the release
/// period before the acknowledgment, the two roughly 80 us phases of the
/// acknowledgment pulse, then per bit a roughly 50 us low phase and a
/// high phase of 27 us (bit 0) or 70 us (bit 1), most significant bit
/// first.
fn train_for(bytes: [u8; 5]) -> Vec<i32> {
    let mut v = vec![30, 80, 80];
    for &b in bytes.iter() {
        for j in (0..8).rev() {
            v.push(50);
            v.push(if (b >> j) & 1 == 1 { 70 } else { 27 });
        }
    }
    v
}

fn read_train(train: Vec<i32>) -> Result<Measure, Error<()>> {
    DHT::read(SimPin::new(train))
}

#[test]
fn reference_train_decodes() {
    let m = read_train(train_for([0x32, 0x00, 0x1B, 0x00, 0x4D]))
        .expect("clean reference train must decode");
    assert_eq!(m.humidity_int, 50);
    assert_eq!(m.humidity_frac, 0);
    assert_eq!(m.temperature_int, 27);
    assert_eq!(m.temperature_frac, 0);
}

#[test]
fn accessors_match_fields() {
    let m = read_train(train_for([0x32, 0x00, 0x1B, 0x00, 0x4D]))
        .expect("clean reference train must decode");
    assert_eq!(m.humidity_int(), 50);
    assert_eq!(m.humidity_frac(), 0);
    assert_eq!(m.temperature_int(), 27);
    assert_eq!(m.temperature_frac(), 0);
}

#[test]
fn bit_order_is_most_significant_first() {
    // An asymmetric pattern tells MSB-first from LSB-first apart.
    let m = read_train(train_for([0x80, 0x01, 0x40, 0x02, 0xC3]))
        .expect("clean train must decode");
    assert_eq!(m.humidity_int, 0x80);
    assert_eq!(m.humidity_frac, 0x01);
    assert_eq!(m.temperature_int, 0x40);
    assert_eq!(m.temperature_frac, 0x02);
}

#[test]
fn corrupted_checksum_is_reported() {
    let mut train = train_for([0x32, 0x00, 0x1B, 0x00, 0x4D]);
    // Rewrite the last byte's bits to 0x00: every high phase short.
    let n = train.len();
    for i in 0..8 {
        train[n - 2 * i - 1] = 27;
    }
    match read_train(train) {
        Err(Error::ChecksumMismatch { computed, received }) => {
            assert_eq!(computed, 0x4D);
            assert_eq!(received, 0x00);
        },
        _ => panic!("corrupted checksum byte was not reported"),
    }
}

#[test]
fn silent_pin_times_out() {
    // A pin that never transitions: begin_transaction must fail with
    // AckTimeout within the configured bound.
    let mut pin = SimPin::new(Vec::new());
    match dht11::protocol::begin_transaction(&mut pin) {
        Err(Error::AckTimeout) => (),
        _ => panic!("a silent pin must time out"),
    }
}

#[test]
fn late_ack_times_out() {
    // The transition arrives only after the wall-clock bound: the wait
    // must report a timeout, not the late duration.
    let mut pin = SimPin::new(vec![100_000]);
    match dht11::protocol::begin_transaction(&mut pin) {
        Err(Error::AckTimeout) => (),
        _ => panic!("a transition after the bound must time out"),
    }
}

#[test]
fn silent_pin_fails_read() {
    match read_train(Vec::new()) {
        Err(Error::AckTimeout) => (),
        _ => panic!("a silent pin must time out"),
    }
}

#[test]
fn ack_pulse_out_of_band() {
    let mut train = train_for([0x32, 0x00, 0x1B, 0x00, 0x4D]);
    train[1] = 60;  // acknowledgment low phase far from 80 us
    match read_train(train) {
        Err(Error::AckPulseOutOfRange { low_us, high_us }) => {
            assert_eq!(low_us, 60);
            assert_eq!(high_us, 80);
        },
        _ => panic!("an out-of-band acknowledgment must be reported"),
    }
}

#[test]
fn ack_band_tolerance_accepted() {
    let mut train = train_for([0x32, 0x00, 0x1B, 0x00, 0x4D]);
    train[1] = 75;  // both phases at the edge of the 80 +/- 5 band
    train[2] = 85;
    assert!(read_train(train).is_ok());
}

#[test]
fn missing_transition_mid_transfer() {
    // Acknowledgment plus three clean bits, then silence.
    let full = train_for([0x32, 0x00, 0x1B, 0x00, 0x4D]);
    let train = full[..9].to_vec();
    match read_train(train) {
        Err(Error::LevelTimeout) => (),
        _ => panic!("a sensor stopping mid-transfer must be reported"),
    }
}

#[test]
fn malformed_bit_carries_its_index() {
    let mut train = train_for([0x32, 0x00, 0x1B, 0x00, 0x4D]);
    // Bit 11's high phase: entry 3 + 2 * 11 + 1.
    train[3 + 2 * 11 + 1] = 48;
    match read_train(train) {
        Err(Error::BitOutOfRange(i)) => assert_eq!(i, 11),
        _ => panic!("a malformed bit must be reported with its index"),
    }
}

#[test]
fn wait_reports_elapsed_time() {
    let mut pin = SimPin::new(vec![42]);
    match dht11::protocol::wait_for_level(&mut pin, true, 1000) {
        Ok(d) => assert_eq!(d, 42),
        _ => panic!("a transition within the bound must report its time"),
    }
}

#[test]
fn wait_honours_wall_clock_bound() {
    let mut pin = SimPin::new(vec![1500]);
    match dht11::protocol::wait_for_level(&mut pin, true, 1000) {
        Err(Error::LevelTimeout) => (),
        _ => panic!("a transition after the bound must time out"),
    }
}

#[test]
fn two_reads_agree() {
    // Two independent transactions over the same pulse train report the
    // same measurement.
    let bytes = [0x37, 0x02, 0x15, 0x09, 0x57];
    let m1 = read_train(train_for(bytes)).expect("clean train must decode");
    let m2 = read_train(train_for(bytes)).expect("clean train must decode");
    assert_eq!(m1, m2);
}

/// A pin whose driver fails outright on the first command.
struct FaultyPin;

impl Interrupt for FaultyPin {
    type Fault = u8;

    // The ghost model is never evaluated at run time.
    fn script(&self) -> vstd::seq::Seq<i32> {
        unreachable!()
    }

    fn reliable(&self) -> bool {
        unreachable!()
    }

    fn set_high(&mut self) -> Result<(), u8> {
        Err(17)
    }

    fn set_low(&mut self) -> Result<(), u8> {
        Err(17)
    }

    fn delay_us(&mut self, _us: u32) -> Result<(), u8> {
        Err(17)
    }

    fn elapsed_us(&mut self, _high: bool, _max_wait_us: i32) -> Result<Option<i32>, u8> {
        Err(17)
    }
}

#[test]
fn pin_fault_is_passed_through() {
    match DHT::read(FaultyPin) {
        Err(Error::PinFault(code)) => assert_eq!(code, 17),
        _ => panic!("a pin fault must be passed through"),
    }
}
