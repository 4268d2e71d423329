//! Shared types: entity identifiers and wall-clock timestamps (milliseconds since the
//! Unix epoch).
use vstd::prelude::*;

verus! {

/// `std::time::SystemTime`, a reading of the system clock; opaque here.
#[verifier::external_type_specification]
#[verifier::external_body]
pub struct ExSystemTime(std::time::SystemTime);

/// `std::time::SystemTimeError`, the error of a clock reading before a reference point;
/// opaque here.
#[verifier::external_type_specification]
#[verifier::external_body]
pub struct ExSystemTimeError(std::time::SystemTimeError);

/// `std::time::SystemTime::now`: the current reading of the system clock. It reads the
/// clock, so nothing is stated of it.
#[verifier::external_body]
fn system_time_now() -> std::time::SystemTime {
    std::time::SystemTime::now()
}

/// `SystemTime::duration_since` with `std::time::UNIX_EPOCH` as the reference point: `Ok`
/// with the distance when `t` is at or after the epoch, `Err` otherwise. Nothing is stated,
/// since `t` is opaque here.
#[verifier::external_body]
fn since_unix_epoch(t: &std::time::SystemTime) -> Result<
    core::time::Duration,
    std::time::SystemTimeError,
> {
    t.duration_since(std::time::UNIX_EPOCH)
}

/// `SystemTimeError::duration`: how far the reading lay before the reference point.
/// Nothing is stated, since the error is opaque here.
#[verifier::external_body]
fn before_epoch_by(e: &std::time::SystemTimeError) -> core::time::Duration {
    e.duration()
}

/// `Duration::as_millis`: the whole milliseconds of a duration. Nothing is stated, since
/// `Duration` is opaque here.
#[verifier::external_body]
fn whole_millis(d: &core::time::Duration) -> u128 {
    d.as_millis()
}

/// `ms` as an `i64`, saturated at `i64::MAX`.
fn saturate_i64(ms: u128) -> (t: i64)
    ensures
        t == (if ms <= i64::MAX { ms as int } else { i64::MAX as int }),
{
    if ms <= i64::MAX as u128 {
        ms as i64
    } else {
        i64::MAX
    }
}

/// The current time in milliseconds since the Unix epoch (negative before it), saturated
/// to the range of `i64`.
pub(crate) fn now_millis() -> (t: i64) {
    let now = system_time_now();
    match since_unix_epoch(&now) {
        Ok(d) => saturate_i64(whole_millis(&d)),
        Err(e) => {
            let before = before_epoch_by(&e);
            let ms = whole_millis(&before);
            if ms <= i64::MAX as u128 {
                -(ms as i64)
            } else {
                i64::MIN
            }
        },
    }
}

/// A fresh random identifier value, from `uuid::Uuid::new_v4` read back with
/// `Uuid::as_u128`. The value is random; only the fixed version (4) and variant (binary
/// 10) bits that `new_v4` sets are stated.
#[verifier::external_body]
fn random_uuid_value() -> (v: u128)
    ensures
        (v >> 76u128) & 0xfu128 == 4,
        (v >> 62u128) & 0x3u128 == 2,
{
    uuid::Uuid::new_v4().as_u128()
}

/// An entity identifier: a 128-bit value; fresh ones are random version-4 UUIDs.
#[derive(Debug, Clone, Copy, PartialEq, Eq, Hash, Structural)]
pub struct EntityId {
    value: u128,
}

impl EntityId {
    /// The identifier's value.
    pub closed spec fn spec_value(&self) -> u128 {
        self.value
    }

    /// A fresh random identifier.
    pub fn new() -> (id: Self)
        ensures
            (id.spec_value() >> 76u128) & 0xfu128 == 4,
            (id.spec_value() >> 62u128) & 0x3u128 == 2,
    {
        EntityId { value: random_uuid_value() }
    }

    /// The identifier with a given value.
    pub fn from_u128(value: u128) -> (id: Self)
        ensures
            id.spec_value() == value,
    {
        EntityId { value }
    }

    /// The identifier's value.
    pub fn as_u128(&self) -> (v: u128)
        ensures
            v == self.spec_value(),
    {
        self.value
    }
}

} // verus!
