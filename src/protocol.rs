use vstd::prelude::*;
use crate::timestamp::{Timestamp, DEVICE_EPOCH_UNIX_SECS};

verus! {

/// Every frame on the wire, in either direction, is this many bytes long.
pub const FRAME_LEN: usize = 64;

/// First byte of the handshake frame.
pub const HANDSHAKE_CODE: u8 = 0x04;

/// First byte of the trigger frame.
pub const TRIGGER_CODE: u8 = 0x03;

/// Reserved sensor id: the slot holds no sensor data.
pub const NO_SENSOR: u16 = 0xFFFF;

/// The fields of a response frame, before calibration.
#[derive(Clone, Copy, Debug, PartialEq, Eq, Structural)]
pub struct RawRecord {
    pub sensor: u16,
    pub value: u16,
    pub timestamp: Timestamp,
}

/// Why a time cannot be sent to the device.
#[derive(Clone, Copy, Debug, PartialEq, Eq, Structural)]
pub enum DateError {
    /// The time lies before 2000-01-01T00:00:00Z.
    BeforeEpoch,
    /// More whole seconds have passed since the device's epoch than a `u32` holds.
    BeyondRange,
}

/// Little-endian value of two bytes.
pub open spec fn le_u16(b0: u8, b1: u8) -> int {
    b0 + 256 * b1
}

/// Big-endian value of two bytes.
pub open spec fn be_u16(b0: u8, b1: u8) -> int {
    256 * b0 + b1
}

/// Little-endian value of four bytes.
pub open spec fn le_u32(b0: u8, b1: u8, b2: u8, b3: u8) -> int {
    b0 + 256 * b1 + 65536 * b2 + 16777216 * b3
}

/// The four little-endian bytes of `n`.
pub open spec fn le_bytes_u32(n: u32) -> Seq<u8> {
    seq![
        (n % 256) as u8,
        (n / 256 % 256) as u8,
        (n / 65536 % 256) as u8,
        (n / 16777216) as u8,
    ]
}

/// Whole seconds from the device's epoch to `t`, rounded towards the epoch.
pub open spec fn device_seconds(t: Timestamp) -> int {
    t.secs - DEVICE_EPOCH_UNIX_SECS
}

/// What encoding `t` as the device's seconds field gives.
pub open spec fn date_bytes_of(t: Timestamp) -> Result<Seq<u8>, DateError> {
    if device_seconds(t) < 0 {
        Err(DateError::BeforeEpoch)
    } else if device_seconds(t) > u32::MAX {
        Err(DateError::BeyondRange)
    } else {
        Ok(le_bytes_u32(device_seconds(t) as u32))
    }
}

/// The instant that a seconds field of four bytes stands for, in UTC.
pub open spec fn timestamp_of_bytes(b: Seq<u8>) -> Timestamp {
    Timestamp {
        secs: (DEVICE_EPOCH_UNIX_SECS + le_u32(b[0], b[1], b[2], b[3])) as i64,
        nanos: 0,
        offset_secs: 0,
    }
}

/// The handshake frame that carries the seconds field `b`.
pub open spec fn handshake_frame_of(b: Seq<u8>) -> Seq<u8> {
    Seq::new(
        FRAME_LEN as nat,
        |i: int|
            if i == 0 {
                HANDSHAKE_CODE
            } else if 1 <= i < 5 {
                b[i - 1]
            } else {
                0u8
            },
    )
}

/// The trigger frame.
pub open spec fn trigger_frame_spec() -> Seq<u8> {
    Seq::new(FRAME_LEN as nat, |i: int| if i == 0 { TRIGGER_CODE } else { 0u8 })
}

/// The fields of the response frame `f`.
pub open spec fn record_of(f: Seq<u8>) -> RawRecord {
    RawRecord {
        sensor: le_u16(f[2], f[3]) as u16,
        value: be_u16(f[4], f[5]) as u16,
        timestamp: timestamp_of_bytes(f.subrange(6, 10)),
    }
}

proof fn lemma_le_bytes_u32(n: u32)
    ensures
        le_u32(
            le_bytes_u32(n)[0],
            le_bytes_u32(n)[1],
            le_bytes_u32(n)[2],
            le_bytes_u32(n)[3],
        ) == n,
{
    let b = le_bytes_u32(n);
    assert(b[0] == n % 256);
    assert(b[1] == n / 256 % 256);
    assert(b[2] == n / 65536 % 256);
    assert(b[3] == n / 16777216);
    assert((n % 256) + 256 * (n / 256 % 256) + 65536 * (n / 65536 % 256) + 16777216 * (
    n / 16777216) == n) by (nonlinear_arith);
}

/// The device's seconds field for `date_time`: little-endian whole seconds
/// since 2000-01-01T00:00:00Z. Times before that epoch, or too late for a
/// `u32`, are refused.
pub fn create_arexx_date_bytes(date_time: Timestamp) -> (r: Result<[u8; 4], DateError>)
    ensures
        match r {
            Ok(b) => date_bytes_of(date_time) == Ok::<Seq<u8>, DateError>(b@),
            Err(e) => date_bytes_of(date_time) == Err::<Seq<u8>, DateError>(e),
        },
{
    if date_time.secs < DEVICE_EPOCH_UNIX_SECS {
        return Err(DateError::BeforeEpoch);
    }
    let elapsed: i64 = date_time.secs - DEVICE_EPOCH_UNIX_SECS;
    if elapsed > u32::MAX as i64 {
        return Err(DateError::BeyondRange);
    }
    let n: u32 = elapsed as u32;
    let b: [u8; 4] = [
        (n % 256) as u8,
        (n / 256 % 256) as u8,
        (n / 65536 % 256) as u8,
        (n / 16777216) as u8,
    ];
    assert(b@ =~= le_bytes_u32(n));
    Ok(b)
}

/// The instant that the device's seconds field `bytes` stands for: the device's
/// epoch plus that many seconds, in UTC. Every value is accepted.
pub fn parse_arexx_date_bytes(bytes: [u8; 4]) -> (r: Timestamp)
    ensures
        r == timestamp_of_bytes(bytes@),
{
    let n: u32 = bytes[0] as u32 + 256 * (bytes[1] as u32) + 65536 * (bytes[2] as u32)
        + 16777216 * (bytes[3] as u32);
    Timestamp::from_unix_secs(DEVICE_EPOCH_UNIX_SECS + n as i64)
}

/// The handshake frame for a session that starts at `start`: the handshake code,
/// then the seconds field of `start`, then zeros.
pub fn handshake_frame(start: Timestamp) -> (r: Result<[u8; 64], DateError>)
    ensures
        match r {
            Ok(f) => date_bytes_of(start) is Ok && f@ == handshake_frame_of(
                date_bytes_of(start)->Ok_0,
            ),
            Err(e) => date_bytes_of(start) == Err::<Seq<u8>, DateError>(e),
        },
{
    let b = match create_arexx_date_bytes(start) {
        Ok(b) => b,
        Err(e) => return Err(e),
    };
    let mut f: [u8; 64] = [0u8; 64];
    f[0] = HANDSHAKE_CODE;
    f[1] = b[0];
    f[2] = b[1];
    f[3] = b[2];
    f[4] = b[3];
    assert(f@ =~= handshake_frame_of(b@));
    Ok(f)
}

/// The trigger frame: the trigger code, then zeros.
pub fn trigger_frame() -> (r: [u8; 64])
    ensures
        r@ == trigger_frame_spec(),
{
    let mut f: [u8; 64] = [0u8; 64];
    f[0] = TRIGGER_CODE;
    assert(f@ =~= trigger_frame_spec());
    f
}

/// Reads the fields of a response frame: the sensor id from bytes 2 and 3
/// (little-endian), the raw value from bytes 4 and 5 (big-endian) and the
/// time from the seconds field in bytes 6 to 9.
pub fn decode_response(frame: &[u8; 64]) -> (r: RawRecord)
    ensures
        r == record_of(frame@),
{
    let sensor: u16 = frame[2] as u16 + 256 * (frame[3] as u16);
    let value: u16 = 256 * (frame[4] as u16) + frame[5] as u16;
    let ts_bytes: [u8; 4] = [frame[6], frame[7], frame[8], frame[9]];
    assert(ts_bytes@ =~= frame@.subrange(6, 10));
    let timestamp = parse_arexx_date_bytes(ts_bytes);
    RawRecord { sensor, value, timestamp }
}

/// Encoding a time on or after the device's epoch (and within the reach of a
/// `u32` of seconds) succeeds, and decoding the seconds field gives back the
/// same instant to the whole second, in UTC.
pub proof fn lemma_epoch_round_trip(t: Timestamp)
    requires
        DEVICE_EPOCH_UNIX_SECS <= t.secs,
        t.secs - DEVICE_EPOCH_UNIX_SECS <= u32::MAX,
    ensures
        date_bytes_of(t) is Ok,
        timestamp_of_bytes(date_bytes_of(t)->Ok_0).secs == t.secs,
        timestamp_of_bytes(date_bytes_of(t)->Ok_0).nanos == 0,
{
    lemma_le_bytes_u32(device_seconds(t) as u32);
}

/// Times before the device's epoch are always refused.
pub proof fn lemma_before_epoch_refused(t: Timestamp)
    requires
        t.secs < DEVICE_EPOCH_UNIX_SECS,
    ensures
        date_bytes_of(t) == Err::<Seq<u8>, DateError>(DateError::BeforeEpoch),
{
}

} // verus!
