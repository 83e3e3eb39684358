//! Protocol constants, error taxonomy and payload decoding.
use vstd::prelude::*;

verus! {

/// 7-bit I2C address of the sensor.
pub const AHT10_I2CADDR_DEFAULT: u8 = 0x38;
/// Soft-reset opcode.
pub const AHT10_CMD_SOFTRESET: u8 = 0xBA;
/// Calibration opcode; followed by two argument bytes.
pub const AHT10_CMD_CALIBRATE: u8 = 0xE1;
/// First argument byte of the calibration command.
pub const AHT10_CALIBRATE_ARG0: u8 = 0x08;
/// Second argument byte of the calibration command.
pub const AHT10_CALIBRATE_ARG1: u8 = 0x00;
/// Measurement-trigger opcode; followed by two argument bytes.
pub const AHT10_CMD_TRIGGER: u8 = 0xAC;
/// First argument byte of the measurement trigger.
pub const AHT10_TRIGGER_ARG0: u8 = 0x33;
/// Second argument byte of the measurement trigger.
pub const AHT10_TRIGGER_ARG1: u8 = 0x00;
/// Status bit set while a calibration or measurement is in progress.
pub const AHT10_STATUS_BUSY: u8 = 0x80;
/// Status bit set once the device has calibrated itself.
pub const AHT10_STATUS_CALIBRATED: u8 = 0x08;
/// Length of a measurement payload in bytes.
pub const AHT10_PAYLOAD_LEN: usize = 6;

/// Errors reported by the driver.
#[derive(Debug, Clone, Copy, PartialEq, Eq, Structural)]
pub enum Aht10Error {
    /// A bus write or read failed, at any step of any operation.
    CommunicationError,
    /// The bus worked, but the device reports that it is not calibrated.
    CalibrationFailed,
    /// Any other condition; here, the device stayed busy for the whole
    /// polling budget.
    OtherError,
}

impl Aht10Error {
    /// Name of the error kind.
    pub fn to_string(&self) -> (r: String)
        ensures
            r@ == self.name(),
    {
        match self {
            Aht10Error::CommunicationError => String::from_str("CommunicationError"),
            Aht10Error::CalibrationFailed => String::from_str("CalibrationFailed"),
            Aht10Error::OtherError => String::from_str("OtherError"),
        }
    }

    pub open spec fn name(&self) -> Seq<char> {
        match self {
            Aht10Error::CommunicationError => "CommunicationError"@,
            Aht10Error::CalibrationFailed => "CalibrationFailed"@,
            Aht10Error::OtherError => "OtherError"@,
        }
    }
}

/// The soft-reset command sequence.
pub open spec fn soft_reset_cmd() -> Seq<u8> {
    seq![AHT10_CMD_SOFTRESET]
}

/// The calibration command sequence.
pub open spec fn calibrate_cmd() -> Seq<u8> {
    seq![AHT10_CMD_CALIBRATE, AHT10_CALIBRATE_ARG0, AHT10_CALIBRATE_ARG1]
}

/// The measurement-trigger command sequence.
pub open spec fn trigger_cmd() -> Seq<u8> {
    seq![AHT10_CMD_TRIGGER, AHT10_TRIGGER_ARG0, AHT10_TRIGGER_ARG1]
}

/// The busy bit of a status byte is set.
pub open spec fn is_busy(status: u8) -> bool {
    status & AHT10_STATUS_BUSY != 0
}

/// The calibrated bit of a status byte is set.
pub open spec fn is_calibrated(status: u8) -> bool {
    status & AHT10_STATUS_CALIBRATED != 0
}

/// 20-bit humidity count: byte 1, byte 2 and the high nibble of byte 3.
pub open spec fn humidity_count(p: Seq<u8>) -> nat
    recommends
        p.len() == 6,
{
    (p[1] as nat) * 4096 + (p[2] as nat) * 16 + (p[3] as nat) / 16
}

/// 20-bit temperature count: the low nibble of byte 3, byte 4 and byte 5.
pub open spec fn temperature_count(p: Seq<u8>) -> nat
    recommends
        p.len() == 6,
{
    ((p[3] as nat) % 16) * 65536 + (p[4] as nat) * 256 + (p[5] as nat)
}

/// The two fixed-point counts of one measurement.
///
/// Humidity in percent is `humidity * 100 / 2^20`; temperature in degrees
/// Celsius is `temperature * 200 / 2^20 - 50`.
#[derive(Debug, Clone, Copy, PartialEq, Eq, Structural)]
pub struct RawReading {
    pub humidity: u32,
    pub temperature: u32,
}

/// The reading that a six-byte payload encodes.
pub open spec fn decode_spec(p: Seq<u8>) -> RawReading
    recommends
        p.len() == 6,
{
    RawReading { humidity: humidity_count(p) as u32, temperature: temperature_count(p) as u32 }
}

} // verus!

verus! {

/// Humidity count of a six-byte payload.
pub fn decode_humidity(data: &[u8]) -> (r: u32)
    requires
        data@.len() == 6,
    ensures
        r as nat == humidity_count(data@),
        r < 0x100000,
{
    let b1 = data[1] as u32;
    let b2 = data[2] as u32;
    let b3 = data[3];
    let hi8: u8 = b3 >> 4u8;
    assert(hi8 == b3 / 16) by (bit_vector)
        requires
            hi8 == b3 >> 4u8,
    ;
    let hi = hi8 as u32;
    let mut count: u32 = b1;
    count = count << 8u32;
    count = count | b2;
    count = count << 4u32;
    count = count | hi;
    assert(count == b1 * 4096 + b2 * 16 + hi && count < 0x100000) by (bit_vector)
        requires
            b1 < 256 && b2 < 256 && hi < 16,
            count == ((((b1 << 8u32) | b2) << 4u32) | hi),
    ;
    count
}

/// Temperature count of a six-byte payload.
pub fn decode_temperature(data: &[u8]) -> (r: u32)
    requires
        data@.len() == 6,
    ensures
        r as nat == temperature_count(data@),
        r < 0x100000,
{
    let b3 = data[3];
    let lo8: u8 = b3 & 0x0Fu8;
    assert(lo8 == b3 % 16) by (bit_vector)
        requires
            lo8 == b3 & 0x0Fu8,
    ;
    let lo = lo8 as u32;
    let b4 = data[4] as u32;
    let b5 = data[5] as u32;
    let mut count: u32 = lo;
    count = count << 8u32;
    count = count | b4;
    count = count << 8u32;
    count = count | b5;
    assert(count == lo * 65536 + b4 * 256 + b5 && count < 0x100000) by (bit_vector)
        requires
            lo < 16 && b4 < 256 && b5 < 256,
            count == ((((lo << 8u32) | b4) << 8u32) | b5),
    ;
    count
}

/// Both counts of a six-byte payload; byte 0, the status echo, is ignored.
pub fn decode(data: &[u8]) -> (r: RawReading)
    requires
        data@.len() == 6,
    ensures
        r == decode_spec(data@),
        r.humidity < 0x100000,
        r.temperature < 0x100000,
{
    RawReading { humidity: decode_humidity(data), temperature: decode_temperature(data) }
}

} // verus!

verus! {

/// Decoding is a function of the payload alone, and of its bytes 1 to 5
/// alone: two payloads that agree there decode to the same reading, and each
/// count fits in 20 bits.
pub proof fn lemma_decode_depends_on_payload(a: Seq<u8>, b: Seq<u8>)
    requires
        a.len() == 6,
        b.len() == 6,
        a.subrange(1, 6) == b.subrange(1, 6),
    ensures
        decode_spec(a) == decode_spec(b),
        humidity_count(a) < 0x100000,
        temperature_count(a) < 0x100000,
{
    assert(a[1] == a.subrange(1, 6)[0]);
    assert(a[2] == a.subrange(1, 6)[1]);
    assert(a[3] == a.subrange(1, 6)[2]);
    assert(a[4] == a.subrange(1, 6)[3]);
    assert(a[5] == a.subrange(1, 6)[4]);
    assert(b[1] == b.subrange(1, 6)[0]);
    assert(b[2] == b.subrange(1, 6)[1]);
    assert(b[3] == b.subrange(1, 6)[2]);
    assert(b[4] == b.subrange(1, 6)[3]);
    assert(b[5] == b.subrange(1, 6)[4]);
}

} // verus!

verus! {

/// The humidity count spans the whole 20-bit range: bytes 1 to 3 all zero
/// give the count 0 (0 %), bytes `FF FF F0` give `2^20 - 1` (just under
/// 100 %), whatever the other bytes hold.
pub proof fn lemma_humidity_count_range(p: Seq<u8>)
    requires
        p.len() == 6,
    ensures
        p[1] == 0 && p[2] == 0 && p[3] == 0 ==> humidity_count(p) == 0,
        p[1] == 0xFF && p[2] == 0xFF && p[3] == 0xF0 ==> humidity_count(p) == 0xFFFFF,
        humidity_count(p) <= 0xFFFFF,
{
}

/// The temperature count spans the whole 20-bit range: bytes 3 to 5 all
/// zero give the count 0 (-50 degrees), bytes `00 00 01` give 1 (one step of
/// 200 / 2^20 degrees above the floor), whatever the other bytes hold; any
/// other count is at least 1.
pub proof fn lemma_temperature_count_range(p: Seq<u8>)
    requires
        p.len() == 6,
    ensures
        p[3] == 0 && p[4] == 0 && p[5] == 0 ==> temperature_count(p) == 0,
        p[3] == 0 && p[4] == 0 && p[5] == 1 ==> temperature_count(p) == 1,
        temperature_count(p) <= 0xFFFFF,
{
}

} // verus!
