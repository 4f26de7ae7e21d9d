//! The protocol decoder: reset handshake, acknowledgment check, 40-bit
//! sampling loop and checksum validation, composed by [`DHT::read`].
//!
//! Every function is specified against the pin's ghost script (see
//! `crate::pin`): the sequence of durations that its waits will report.
//! The spec functions below read that script the way the decoder does —
//! one entry per wait, in order — so each contract states exactly which
//! measurement or which error a given pulse train produces.

use vstd::prelude::*;

use crate::measure::validate;
use crate::measure::Error;
use crate::measure::Measure;
use crate::pin::dropn;
use crate::pin::lemma_dropn_dropn;
use crate::pin::wait_reply;
use crate::pin::Interrupt;
use crate::timing::classify_spec;
use crate::timing::classify_pulse;
use crate::timing::in_ack_band;
use crate::timing::BitClass;
use crate::timing::ACK_NOMINAL_US;
use crate::timing::EPSILON_US;
use crate::timing::HOST_START_LOW_US;
use crate::timing::MAX_LEVEL_WAIT_US;

verus! {

/// The wall-clock wait bound, as the mathematical integer the spec
/// functions compare against.
pub open spec fn max_wait() -> int {
    MAX_LEVEL_WAIT_US as int
}

/// Whether the sensor acknowledged the start signal: the very first wait
/// — for the line to go low — saw a transition within the bound.
pub open spec fn ack_started(s: Seq<i32>) -> bool {
    wait_reply(s, max_wait()) is Some
}

/// What the wait measuring the acknowledgment low phase reports.
pub open spec fn ack_low_reply(s: Seq<i32>) -> Option<i32> {
    wait_reply(dropn(s, 1), max_wait())
}

/// What the wait measuring the acknowledgment high phase reports.
pub open spec fn ack_high_reply(s: Seq<i32>) -> Option<i32> {
    wait_reply(dropn(s, 2), max_wait())
}

/// Both phases of the acknowledgment pulse arrived and fall in the 80 us
/// band, read from a script whose first entry is the low phase.
pub open spec fn ack_phases_ok(s: Seq<i32>) -> bool {
    match (wait_reply(s, max_wait()), wait_reply(dropn(s, 1), max_wait())) {
        (Some(l), Some(h)) => in_ack_band(l as int) && in_ack_band(h as int),
        _ => false,
    }
}

/// Both acknowledgment phases arrived and fall in the 80 us band.
pub open spec fn ack_pulse_ok(s: Seq<i32>) -> bool {
    match (ack_low_reply(s), ack_high_reply(s)) {
        (Some(l), Some(h)) => in_ack_band(l as int) && in_ack_band(h as int),
        _ => false,
    }
}

/// The part of the script left for the 40 data bits, after the
/// acknowledgment start and its two phases have been consumed.
pub open spec fn data_script(s: Seq<i32>) -> Seq<i32> {
    dropn(s, 3)
}

/// Two to the power `j`.
pub open spec fn two_pow(j: nat) -> nat
    decreases j,
{
    if j == 0 {
        1
    } else {
        2 * two_pow((j - 1) as nat)
    }
}

/// Powers of two grow with the exponent.
proof fn lemma_two_pow_monotone(a: nat, b: nat)
    requires
        a <= b,
    ensures
        two_pow(a) <= two_pow(b),
    decreases b,
{
    if a < b {
        lemma_two_pow_monotone(a, (b - 1) as nat);
    }
}

/// What the wait for the low phase of bit `j` reports, on a script whose
/// first entry belongs to bit 0.  Each bit consumes two entries: its
/// roughly 50 us low phase, then the high phase whose duration encodes
/// the bit.
pub open spec fn bit_low_reply(t: Seq<i32>, j: int) -> Option<i32> {
    wait_reply(dropn(t, 2 * j), max_wait())
}

/// What the wait measuring the high phase of bit `j` reports.
pub open spec fn bit_high_reply(t: Seq<i32>, j: int) -> Option<i32> {
    wait_reply(dropn(t, 2 * j + 1), max_wait())
}

/// Bit `j` was transferred cleanly: both transitions arrived in time and
/// the high phase falls in one of the two bit bands.
pub open spec fn bit_ok(t: Seq<i32>, j: int) -> bool {
    match (bit_low_reply(t, j), bit_high_reply(t, j)) {
        (Some(_), Some(h)) => classify_spec(h as int) != BitClass::OutOfRange,
        _ => false,
    }
}

/// Bits `0` up to but excluding `j` were all transferred cleanly.
pub open spec fn bits_ok_upto(t: Seq<i32>, j: int) -> bool {
    forall|j2: int| 0 <= j2 < j ==> bit_ok(t, j2)
}

/// The value bit `j` encodes: whether its high phase classifies as `1`.
pub open spec fn bit_value(t: Seq<i32>, j: int) -> bool {
    match bit_high_reply(t, j) {
        Some(h) => classify_spec(h as int) is One,
        None => false,
    }
}

/// The value of the first `j` bits of the script, most significant bit
/// first.
pub open spec fn byte_value_prefix(t: Seq<i32>, j: int) -> nat
    decreases j,
{
    if j <= 0 {
        0
    } else {
        2 * byte_value_prefix(t, j - 1) + (if bit_value(t, j - 1) {
            1nat
        } else {
            0nat
        })
    }
}

/// The byte encoded by the first eight bits of the script.
pub open spec fn sampled_byte(t: Seq<i32>) -> nat {
    byte_value_prefix(t, 8)
}

/// All eight bits at the head of the script were transferred cleanly.
pub open spec fn byte_ok(t: Seq<i32>) -> bool {
    bits_ok_upto(t, 8)
}

/// The first disturbed bit among the eight at the head of the script is
/// a missing transition: the sensor stopped responding mid-byte.
pub open spec fn byte_fails_timeout(t: Seq<i32>) -> bool {
    exists|j: int|
        0 <= j < 8 && bits_ok_upto(t, j) && (bit_low_reply(t, j) is None || (bit_low_reply(t, j)
            is Some && bit_high_reply(t, j) is None))
}

/// Bit `j` is the first disturbed bit among the eight at the head of the
/// script, and it is malformed rather than missing: both transitions
/// arrived, but the high phase falls outside both bit bands.
pub open spec fn byte_fails_out_of_range_at(t: Seq<i32>, j: int) -> bool {
    &&& 0 <= j < 8
    &&& bits_ok_upto(t, j)
    &&& bit_low_reply(t, j) is Some
    &&& match bit_high_reply(t, j) {
        Some(h) => classify_spec(h as int) == BitClass::OutOfRange,
        None => false,
    }
}

/// Sample the eight bits of one byte, most significant bit first.  `base`
/// is the index of the byte's first bit within the 40-bit transfer and
/// only serves the index carried by `BitOutOfRange`.
fn sample_byte<P: Interrupt>(pin: &mut P, base: u8) -> (r: Result<u8, Error<P::Fault>>)
    requires
        base <= 32,
    ensures
        final(pin).reliable() == old(pin).reliable(),
        match r {
            Ok(b) => {
                &&& byte_ok(old(pin).script())
                &&& b as nat == sampled_byte(old(pin).script())
                &&& final(pin).script() == dropn(old(pin).script(), 16)
            },
            Err(Error::LevelTimeout) => byte_fails_timeout(old(pin).script()),
            Err(Error::BitOutOfRange(i)) => base <= i < base + 8 && byte_fails_out_of_range_at(
                old(pin).script(),
                i - base,
            ),
            Err(Error::PinFault(_)) => !old(pin).reliable(),
            Err(_) => false,
        },
{
    let ghost t = pin.script();
    let mut b: u8 = 0;
    let mut j: u8 = 0;
    while j < 8
        invariant
            j <= 8,
            base <= 32,
            t == old(pin).script(),
            pin.reliable() == old(pin).reliable(),
            pin.script() == dropn(t, 2 * (j as int)),
            bits_ok_upto(t, j as int),
            b as nat == byte_value_prefix(t, j as int),
            (b as nat) < two_pow(j as nat),
        decreases 8 - j,
    {
        let low = match wait_for_level(pin, true, MAX_LEVEL_WAIT_US) {
            Ok(d) => d,
            Err(e) => {
                proof {
                    if let Error::LevelTimeout = e {
                        assert(bit_low_reply(t, j as int) is None);
                        assert(byte_fails_timeout(t));
                    }
                }
                return Err(e);
            },
        };
        proof {
            lemma_dropn_dropn(t, 2 * (j as int), 1);
        }
        let high = match wait_for_level(pin, false, MAX_LEVEL_WAIT_US) {
            Ok(d) => d,
            Err(e) => {
                proof {
                    if let Error::LevelTimeout = e {
                        assert(bit_low_reply(t, j as int) == Some(low));
                        assert(bit_high_reply(t, j as int) is None);
                        assert(byte_fails_timeout(t));
                    }
                }
                return Err(e);
            },
        };
        proof {
            lemma_dropn_dropn(t, 2 * (j as int) + 1, 1);
            lemma_two_pow_monotone(j as nat, 7);
            assert(two_pow(7) == 128) by {
                reveal_with_fuel(two_pow, 8);
            }
        }
        match classify_pulse(high) {
            BitClass::Zero => {
                b = b * 2;
            },
            BitClass::One => {
                b = b * 2 + 1;
            },
            BitClass::OutOfRange => {
                proof {
                    assert(byte_fails_out_of_range_at(t, j as int));
                }
                return Err(Error::BitOutOfRange(base + j));
            },
        }
        j = j + 1;
    }
    Ok(b)
}

/// Nothing dropped is the script itself.
proof fn lemma_dropn_zero(s: Seq<i32>)
    ensures
        dropn(s, 0) == s,
{
    assert(dropn(s, 0) =~= s);
}

/// Byte `k` of the transfer was sampled cleanly, on a script whose first
/// entry belongs to bit 0 of byte 0.
pub open spec fn data_byte_ok(s: Seq<i32>, k: int) -> bool {
    byte_ok(dropn(s, 16 * k))
}

/// Bytes `0` up to but excluding `k` were all sampled cleanly.
pub open spec fn data_bytes_ok_upto(s: Seq<i32>, k: int) -> bool {
    forall|k2: int| 0 <= k2 < k ==> data_byte_ok(s, k2)
}

/// All five bytes of the transfer were sampled cleanly.
pub open spec fn data_all_ok(s: Seq<i32>) -> bool {
    data_bytes_ok_upto(s, 5)
}

/// The value of byte `k` of the transfer.
pub open spec fn data_byte(s: Seq<i32>, k: int) -> nat {
    sampled_byte(dropn(s, 16 * k))
}

/// The 40-bit transfer broke off on a missing transition: some byte `k`
/// follows `k` clean bytes and fails on a wait that timed out.
pub open spec fn sampling_fails_timeout(ds: Seq<i32>) -> bool {
    exists|k: int|
        0 <= k < 5 && data_bytes_ok_upto(ds, k) && byte_fails_timeout(dropn(ds, 16 * k))
}

/// Bit `i` of the 40-bit transfer is the first malformed bit: every
/// earlier byte is clean, and within its own byte it is the first
/// disturbed bit, with both transitions seen but the high phase outside
/// both bit bands.
pub open spec fn sampling_fails_out_of_range(ds: Seq<i32>, i: u8) -> bool {
    exists|k: int|
        0 <= k < 5 && data_bytes_ok_upto(ds, k) && 8 * k <= i < 8 * k + 8
            && byte_fails_out_of_range_at(dropn(ds, 16 * k), i - 8 * k)
}

/// Decode exactly 40 data bits into five bytes, most significant bit
/// first, a byte boundary every eight bits.
///
/// The output is a fixed five-byte buffer; the loop does not allocate.
/// A missing transition fails with `LevelTimeout`, a high phase outside
/// both bit bands with `BitOutOfRange` carrying the index of the first
/// failing bit; both leave the earlier, clean bits behind.
#[verifier::rlimit(100)]
pub fn sample_bits<P: Interrupt>(pin: &mut P) -> (r: Result<[u8; 5], Error<P::Fault>>)
    ensures
        final(pin).reliable() == old(pin).reliable(),
        match r {
            Ok(bytes) => {
                &&& data_all_ok(old(pin).script())
                &&& forall|k: int|
                    0 <= k < 5 ==> bytes@[k] as nat == data_byte(old(pin).script(), k)
                &&& final(pin).script() == dropn(old(pin).script(), 80)
            },
            Err(Error::LevelTimeout) => sampling_fails_timeout(old(pin).script()),
            Err(Error::BitOutOfRange(i)) => sampling_fails_out_of_range(old(pin).script(), i),
            Err(Error::PinFault(_)) => !old(pin).reliable(),
            Err(_) => false,
        },
{
    let ghost s = pin.script();
    proof {
        lemma_dropn_zero(s);
    }
    let b0 = match sample_byte(pin, 0) {
        Ok(b) => b,
        Err(e) => {
            proof {
                match e {
                    Error::LevelTimeout => lemma_timeout_witness(s, 0),
                    Error::BitOutOfRange(i) => lemma_out_of_range_witness(s, 0, i),
                    _ => (),
                }
            }
            return Err(e);
        },
    };
    let b1 = match sample_byte(pin, 8) {
        Ok(b) => b,
        Err(e) => {
            proof {
                lemma_sample_err_glue(s, 1);
                match e {
                    Error::LevelTimeout => lemma_timeout_witness(s, 1),
                    Error::BitOutOfRange(i) => lemma_out_of_range_witness(s, 1, i),
                    _ => (),
                }
            }
            return Err(e);
        },
    };
    proof {
        lemma_dropn_dropn(s, 16, 16);
    }
    let b2 = match sample_byte(pin, 16) {
        Ok(b) => b,
        Err(e) => {
            proof {
                lemma_sample_err_glue(s, 2);
                match e {
                    Error::LevelTimeout => lemma_timeout_witness(s, 2),
                    Error::BitOutOfRange(i) => lemma_out_of_range_witness(s, 2, i),
                    _ => (),
                }
            }
            return Err(e);
        },
    };
    proof {
        lemma_dropn_dropn(s, 32, 16);
    }
    let b3 = match sample_byte(pin, 24) {
        Ok(b) => b,
        Err(e) => {
            proof {
                lemma_sample_err_glue(s, 3);
                match e {
                    Error::LevelTimeout => lemma_timeout_witness(s, 3),
                    Error::BitOutOfRange(i) => lemma_out_of_range_witness(s, 3, i),
                    _ => (),
                }
            }
            return Err(e);
        },
    };
    proof {
        lemma_dropn_dropn(s, 48, 16);
    }
    let b4 = match sample_byte(pin, 32) {
        Ok(b) => b,
        Err(e) => {
            proof {
                lemma_sample_err_glue(s, 4);
                match e {
                    Error::LevelTimeout => lemma_timeout_witness(s, 4),
                    Error::BitOutOfRange(i) => lemma_out_of_range_witness(s, 4, i),
                    _ => (),
                }
            }
            return Err(e);
        },
    };
    proof {
        lemma_dropn_dropn(s, 64, 16);
        lemma_sample_err_glue(s, 5);
    }
    let out: [u8; 5] = [b0, b1, b2, b3, b4];
    Ok(out)
}

/// After `k` clean bytes the script seen by byte `k` is the tail at
/// `16 * k`, and cleanliness of each earlier byte transfers to the
/// whole-transfer predicates.
proof fn lemma_sample_err_glue(s: Seq<i32>, k: int)
    requires
        0 <= k <= 5,
        forall|k2: int| 0 <= k2 < k ==> #[trigger] byte_ok(dropn(s, 16 * k2)),
    ensures
        data_bytes_ok_upto(s, k),
{
}

/// Byte `k` failing on a missing transition, after `k` clean bytes, is
/// one way the whole transfer fails on a missing transition.
proof fn lemma_timeout_witness(s: Seq<i32>, k: int)
    requires
        0 <= k < 5,
        data_bytes_ok_upto(s, k),
        byte_fails_timeout(dropn(s, 16 * k)),
    ensures
        sampling_fails_timeout(s),
{
    assert(0 <= k < 5 && data_bytes_ok_upto(s, k) && byte_fails_timeout(dropn(s, 16 * k)));
}

/// Bit `i` of byte `k` being the first malformed bit, after `k` clean
/// bytes, is one way the whole transfer fails on a malformed bit.
proof fn lemma_out_of_range_witness(s: Seq<i32>, k: int, i: u8)
    requires
        0 <= k < 5,
        data_bytes_ok_upto(s, k),
        8 * k <= i < 8 * k + 8,
        byte_fails_out_of_range_at(dropn(s, 16 * k), i - 8 * k),
    ensures
        sampling_fails_out_of_range(s, i),
{
    assert(0 <= k < 5 && data_bytes_ok_upto(s, k) && 8 * k <= i < 8 * k + 8
        && byte_fails_out_of_range_at(dropn(s, 16 * k), i - 8 * k));
}

/// Pull the line low for the host start signal, release it, and wait for
/// the sensor to pull it low in acknowledgment.
///
/// Succeeds exactly when the first wait of the script sees a transition
/// within the bound; a pin that never transitions within it fails with
/// `AckTimeout`.  On success the pin is left at the start of the
/// acknowledgment low phase.
pub fn begin_transaction<P: Interrupt>(pin: &mut P) -> (r: Result<(), Error<P::Fault>>)
    ensures
        final(pin).reliable() == old(pin).reliable(),
        match r {
            Ok(()) => {
                &&& ack_started(old(pin).script())
                &&& final(pin).script() == dropn(old(pin).script(), 1)
            },
            Err(Error::AckTimeout) => {
                &&& !ack_started(old(pin).script())
                &&& final(pin).script() == dropn(old(pin).script(), 1)
            },
            Err(Error::PinFault(_)) => !old(pin).reliable(),
            Err(_) => false,
        },
{
    match pin.set_high() {
        Ok(()) => (),
        Err(f) => {
            return Err(Error::PinFault(f));
        },
    }
    match pin.set_low() {
        Ok(()) => (),
        Err(f) => {
            return Err(Error::PinFault(f));
        },
    }
    match pin.delay_us(HOST_START_LOW_US) {
        Ok(()) => (),
        Err(f) => {
            return Err(Error::PinFault(f));
        },
    }
    match pin.set_high() {
        Ok(()) => (),
        Err(f) => {
            return Err(Error::PinFault(f));
        },
    }
    match pin.elapsed_us(false, MAX_LEVEL_WAIT_US) {
        Ok(Some(_)) => Ok(()),
        Ok(None) => Err(Error::AckTimeout),
        Err(f) => Err(Error::PinFault(f)),
    }
}

/// Wait until the line reads `high`, bounded by `max_wait_us` of
/// wall-clock time, and return the microseconds the line spent at the
/// previous level.  A missing transition is `LevelTimeout`.
pub fn wait_for_level<P: Interrupt>(pin: &mut P, high: bool, max_wait_us: i32) -> (r: Result<
    i32,
    Error<P::Fault>,
>)
    requires
        max_wait_us >= 0,
    ensures
        final(pin).reliable() == old(pin).reliable(),
        match r {
            Ok(d) => {
                &&& wait_reply(old(pin).script(), max_wait_us as int) == Some(d)
                &&& final(pin).script() == dropn(old(pin).script(), 1)
            },
            Err(Error::LevelTimeout) => {
                &&& wait_reply(old(pin).script(), max_wait_us as int) is None
                &&& final(pin).script() == dropn(old(pin).script(), 1)
            },
            Err(Error::PinFault(_)) => !old(pin).reliable(),
            Err(_) => false,
        },
{
    match pin.elapsed_us(high, max_wait_us) {
        Ok(Some(d)) => Ok(d),
        Ok(None) => Err(Error::LevelTimeout),
        Err(f) => Err(Error::PinFault(f)),
    }
}

/// Measure the two phases of the acknowledgment pulse and require both
/// to fall within the 80 us band.
///
/// Out-of-band durations fail with `AckPulseOutOfRange`, carrying both
/// measurements: the line is live but the signal is corrupted, which is
/// distinct from the sensor not answering at all.
pub fn check_ack<P: Interrupt>(pin: &mut P) -> (r: Result<(), Error<P::Fault>>)
    ensures
        final(pin).reliable() == old(pin).reliable(),
        match r {
            Ok(()) => {
                &&& ack_phases_ok(old(pin).script())
                &&& final(pin).script() == dropn(old(pin).script(), 2)
            },
            Err(Error::LevelTimeout) => {
                ||| wait_reply(old(pin).script(), max_wait()) is None
                ||| (wait_reply(old(pin).script(), max_wait()) is Some && wait_reply(
                    dropn(old(pin).script(), 1),
                    max_wait(),
                ) is None)
            },
            Err(Error::AckPulseOutOfRange { low_us, high_us }) => {
                &&& wait_reply(old(pin).script(), max_wait()) == Some(low_us)
                &&& wait_reply(dropn(old(pin).script(), 1), max_wait()) == Some(high_us)
                &&& !(in_ack_band(low_us as int) && in_ack_band(high_us as int))
            },
            Err(Error::PinFault(_)) => !old(pin).reliable(),
            Err(_) => false,
        },
{
    let low = match wait_for_level(pin, true, MAX_LEVEL_WAIT_US) {
        Ok(d) => d,
        Err(e) => {
            return Err(e);
        },
    };
    let high = match wait_for_level(pin, false, MAX_LEVEL_WAIT_US) {
        Ok(d) => d,
        Err(e) => {
            return Err(e);
        },
    };
    proof {
        lemma_dropn_dropn(old(pin).script(), 1, 1);
    }
    let low_delta = if low >= ACK_NOMINAL_US {
        low - ACK_NOMINAL_US
    } else {
        ACK_NOMINAL_US - low
    };
    let high_delta = if high >= ACK_NOMINAL_US {
        high - ACK_NOMINAL_US
    } else {
        ACK_NOMINAL_US - high
    };
    if low_delta > EPSILON_US || high_delta > EPSILON_US {
        return Err(Error::AckPulseOutOfRange { low_us: low, high_us: high });
    }
    Ok(())
}

/// A successful read of the script `s` reported the measurement `m`:
/// the handshake and both acknowledgment phases were clean, all forty
/// bits were sampled cleanly, the four fields of `m` are the first four
/// decoded bytes, and the fifth decoded byte — the checksum — equals the
/// low byte of their sum.
pub open spec fn read_ok_result(s: Seq<i32>, m: Measure) -> bool {
    let ds = data_script(s);
    &&& ack_started(s)
    &&& ack_pulse_ok(s)
    &&& data_all_ok(ds)
    &&& m.humidity_int as nat == data_byte(ds, 0)
    &&& m.humidity_frac as nat == data_byte(ds, 1)
    &&& m.temperature_int as nat == data_byte(ds, 2)
    &&& m.temperature_frac as nat == data_byte(ds, 3)
    &&& data_byte(ds, 4) == (data_byte(ds, 0) + data_byte(ds, 1) + data_byte(ds, 2) + data_byte(
        ds,
        3,
    )) % 256
}

/// The exact outcome a read of a pin with script `s` owes: which
/// measurement on success, and which error on which disturbance of the
/// pulse train.  `reliable` is the pin's own fault-freedom; a pin fault
/// can surface only on a pin that is not reliable.
pub open spec fn read_matches<F>(s: Seq<i32>, reliable: bool, r: Result<Measure, Error<F>>) -> bool {
    let ds = data_script(s);
    match r {
        Ok(m) => read_ok_result(s, m),
        Err(Error::AckTimeout) => !ack_started(s),
        Err(Error::LevelTimeout) => {
            &&& ack_started(s)
            &&& {
                ||| ack_low_reply(s) is None
                ||| (ack_low_reply(s) is Some && ack_high_reply(s) is None)
                ||| (ack_pulse_ok(s) && sampling_fails_timeout(ds))
            }
        },
        Err(Error::AckPulseOutOfRange { low_us, high_us }) => {
            &&& ack_started(s)
            &&& ack_low_reply(s) == Some(low_us)
            &&& ack_high_reply(s) == Some(high_us)
            &&& !(in_ack_band(low_us as int) && in_ack_band(high_us as int))
        },
        Err(Error::BitOutOfRange(i)) => {
            &&& ack_started(s)
            &&& ack_pulse_ok(s)
            &&& sampling_fails_out_of_range(ds, i)
        },
        Err(Error::ChecksumMismatch { computed, received }) => {
            &&& ack_started(s)
            &&& ack_pulse_ok(s)
            &&& data_all_ok(ds)
            &&& computed as nat == (data_byte(ds, 0) + data_byte(ds, 1) + data_byte(ds, 2)
                + data_byte(ds, 3)) % 256
            &&& received as nat == data_byte(ds, 4)
            &&& computed != received
        },
        Err(Error::PinFault(_)) => !reliable,
    }
}

/// Two successful reads of the same pulse train report the same
/// measurement: the decoding of a script is a function of the script
/// alone, so independent transactions over identical pulse trains agree.
pub proof fn lemma_read_deterministic(s: Seq<i32>, m1: Measure, m2: Measure)
    requires
        read_ok_result(s, m1),
        read_ok_result(s, m2),
    ensures
        m1 == m2,
{
}

/// A clean pulse train on a reliable pin owes a successful read: when
/// the acknowledgment arrived, both its phases are in band, all forty
/// bits are clean and the checksum byte matches, no error of the
/// taxonomy is available to a read that meets its contract.
pub proof fn lemma_read_owes_success<F>(s: Seq<i32>, r: Result<Measure, Error<F>>)
    requires
        read_matches(s, true, r),
        ack_started(s),
        ack_pulse_ok(s),
        data_all_ok(data_script(s)),
        data_byte(data_script(s), 4) == (data_byte(data_script(s), 0) + data_byte(
            data_script(s),
            1,
        ) + data_byte(data_script(s), 2) + data_byte(data_script(s), 3)) % 256,
    ensures
        match r {
            Ok(m) => read_ok_result(s, m),
            Err(_) => false,
        },
{
    let ds = data_script(s);
    match r {
        Ok(_) => (),
        Err(e) => match e {
            Error::LevelTimeout => {
                if sampling_fails_timeout(ds) {
                    let k = choose|k: int|
                        0 <= k < 5 && data_bytes_ok_upto(ds, k) && byte_fails_timeout(
                            dropn(ds, 16 * k),
                        );
                    let t = dropn(ds, 16 * k);
                    assert(data_byte_ok(ds, k));
                    let j = choose|j: int|
                        0 <= j < 8 && bits_ok_upto(t, j) && (bit_low_reply(t, j) is None || (
                        bit_low_reply(t, j) is Some && bit_high_reply(t, j) is None));
                    assert(bit_ok(t, j));
                }
            },
            Error::BitOutOfRange(i) => {
                let k = choose|k: int|
                    0 <= k < 5 && data_bytes_ok_upto(ds, k) && 8 * k <= i < 8 * k + 8
                        && byte_fails_out_of_range_at(dropn(ds, 16 * k), i - 8 * k);
                let t = dropn(ds, 16 * k);
                assert(data_byte_ok(ds, k));
                assert(bit_ok(t, i - 8 * k));
            },
            _ => (),
        },
    }
}

/// A DHT sensor on one exclusively owned pin.
#[derive(Debug)]
pub struct DHT;

impl DHT {
    /// One full transaction: reset handshake, acknowledgment check,
    /// 40-bit sampling, byte assembly and checksum validation, in strict
    /// sequence.  The first failure ends the read and is returned as is;
    /// the pin is consumed, so a retry starts over with a fresh reset.
    #[verifier::rlimit(100)]
    pub fn read<P: Interrupt>(pin: P) -> (r: Result<Measure, Error<P::Fault>>)
        ensures
            read_matches(pin.script(), pin.reliable(), r),
    {
        let ghost s = pin.script();
        let mut p = pin;
        match begin_transaction(&mut p) {
            Ok(()) => (),
            Err(e) => {
                return Err(e);
            },
        }
        match check_ack(&mut p) {
            Ok(()) => (),
            Err(e) => {
                proof {
                    lemma_dropn_dropn(s, 1, 1);
                    if let Error::LevelTimeout = e {
                        assert(ack_low_reply(s) is None || (ack_low_reply(s) is Some
                            && ack_high_reply(s) is None));
                    }
                }
                return Err(e);
            },
        }
        proof {
            lemma_dropn_dropn(s, 1, 1);
            lemma_dropn_dropn(s, 1, 2);
        }
        let bytes = match sample_bits(&mut p) {
            Ok(b) => b,
            Err(e) => {
                return Err(e);
            },
        };
        match validate(bytes) {
            Ok(m) => Ok(m),
            Err(e) => Err(e),
        }
    }
}

} // verus!
