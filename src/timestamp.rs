use vstd::prelude::*;

verus! {

/// An absolute point in time with a fixed UTC offset.
///
/// `secs` counts whole seconds since 1970-01-01T00:00:00Z, `nanos` the part of
/// the second after it, and `offset_secs` is the offset (east of UTC) in which
/// the time is to be shown. The offset does not change which instant is meant.
#[derive(Clone, Copy, Debug, PartialEq, Eq, Structural)]
pub struct Timestamp {
    pub secs: i64,
    pub nanos: u32,
    pub offset_secs: i32,
}

/// Unix time of 2000-01-01T00:00:00Z, the device's epoch.
pub const DEVICE_EPOCH_UNIX_SECS: i64 = 946_684_800;

impl Timestamp {
    /// The instant `secs` whole seconds after the Unix epoch, shown in UTC.
    pub fn from_unix_secs(secs: i64) -> (r: Timestamp)
        ensures
            r == (Timestamp { secs, nanos: 0, offset_secs: 0 }),
    {
        Timestamp { secs, nanos: 0, offset_secs: 0 }
    }
}

/// Relies on chrono::Local::now: the current wall-clock time with the local
/// offset. Nothing is known of the value it returns.
#[verifier::external_body]
pub(crate) fn local_now() -> (r: Timestamp) {
    let now = chrono::Local::now().fixed_offset();
    Timestamp {
        secs: now.timestamp(),
        nanos: now.timestamp_subsec_nanos(),
        offset_secs: now.offset().local_minus_utc(),
    }
}

} // verus!
