//! Points in time, as the span since the Unix epoch.
use vstd::prelude::*;
use vstd::string::StringExecFns;

use std::fmt::Write;
use std::time::{SystemTime, UNIX_EPOCH};

use crate::utils::duration::RobustMQDuration;

verus! {

pub const UTC_TIME_FORMAT: &'static str = "%Y-%m-%d %H:%M:%S";

/// Relies on `SystemTime::now` and `SystemTime::duration_since(UNIX_EPOCH)`: the
/// clock's reading as whole seconds and nanoseconds since the epoch, or `None`
/// when it reads before the epoch.
#[verifier::external_body]
fn clock_since_epoch() -> (r: Option<(u64, u32)>)
    ensures
        r matches Some(p) ==> p.1 < 1_000_000_000,
{
    match SystemTime::now().duration_since(UNIX_EPOCH) {
        Ok(d) => Some((d.as_secs(), d.subsec_nanos())),
        Err(_) => None,
    }
}

/// What chrono writes for the UTC time `secs` seconds and `nanos` nanoseconds
/// after the epoch in the strftime format `fmt`: `None` when the time is out of
/// its range or the format holds an unknown specifier.
pub uninterp spec fn utc_formatted(secs: u64, nanos: u32, fmt: Seq<char>) -> Option<Seq<char>>;

/// Relies on `chrono::DateTime::<Utc>::from_timestamp` and `DateTime::format`:
/// the text depends on the time and the format alone.
#[verifier::external_body]
fn format_utc(secs: u64, nanos: u32, fmt: &str) -> (r: Option<String>)
    requires
        secs <= i64::MAX as u64,
    ensures
        match r {
            Some(s) => utc_formatted(secs, nanos, fmt@) == Some(s@),
            None => utc_formatted(secs, nanos, fmt@) is None,
        },
{
    match chrono::DateTime::<chrono::Utc>::from_timestamp(secs as i64, nanos) {
        Some(dt) => {
            let mut out = String::new();
            match write!(out, "{}", dt.format(fmt)) {
                Ok(()) => Some(out),
                Err(_) => None,
            }
        },
        None => None,
    }
}

/// Relies on `chrono::DateTime::<Utc>::from_timestamp`, `DateTime::with_timezone(&Local)`
/// and `DateTime::format`; the text depends on the machine's time zone.
#[verifier::external_body]
fn format_local(secs: u64, nanos: u32, fmt: &str) -> (r: Option<String>)
    requires
        secs <= i64::MAX as u64,
{
    match chrono::DateTime::<chrono::Utc>::from_timestamp(secs as i64, nanos) {
        Some(dt) => {
            let mut out = String::new();
            match write!(out, "{}", dt.with_timezone(&chrono::Local).format(fmt)) {
                Ok(()) => Some(out),
                Err(_) => None,
            }
        },
        None => None,
    }
}

/// Milliseconds since the epoch of a clock reading of whole seconds and
/// nanoseconds; 0 for a reading before the epoch (`None`).
pub fn millis_of_reading(reading: Option<(u64, u32)>) -> (r: u128)
    ensures
        r == match reading {
            Some((secs, nanos)) => secs as nat * 1000 + nanos as nat / 1_000_000,
            None => 0,
        },
{
    match reading {
        Some((secs, nanos)) => secs as u128 * 1000 + (nanos / 1_000_000) as u128,
        None => 0,
    }
}

/// Milliseconds since the Unix epoch by the system clock; 0 when the clock
/// reads before the epoch.
pub fn get_current_millisecond_timestamp() -> (r: u128)
    ensures
        r <= u64::MAX as u128 * 1000 + 999,
{
    let reading = clock_since_epoch();
    millis_of_reading(reading)
}

/// A point in time.
#[derive(Debug, Clone, Copy, Eq, PartialEq, Structural)]
pub struct RobustMQTimestamp {
    since_epoch: RobustMQDuration,
}

impl View for RobustMQTimestamp {
    type V = nat;

    /// Nanoseconds since the Unix epoch.
    closed spec fn view(&self) -> nat {
        self.since_epoch@
    }
}

impl RobustMQTimestamp {
    /// The point of a clock reading of whole seconds and nanoseconds since the
    /// epoch; the epoch itself for a reading before it (`None`).
    pub fn from_reading(reading: Option<(u64, u32)>) -> (r: RobustMQTimestamp)
        requires
            reading matches Some(p) ==> p.1 < 1_000_000_000,
        ensures
            r@ == match reading {
                Some((secs, nanos)) => secs as nat * 1_000_000_000 + nanos as nat,
                None => 0,
            },
    {
        match reading {
            Some((secs, nanos)) => RobustMQTimestamp { since_epoch: RobustMQDuration::from_parts(secs, nanos) },
            None => RobustMQTimestamp::zero(),
        }
    }

    /// The clock's reading; the epoch when it reads before the epoch.
    pub fn now() -> (r: RobustMQTimestamp)
        ensures
            r@ < (u64::MAX as nat + 1) * 1_000_000_000,
    {
        let reading = clock_since_epoch();
        RobustMQTimestamp::from_reading(reading)
    }

    /// The Unix epoch.
    pub fn zero() -> (r: RobustMQTimestamp)
        ensures
            r@ == 0,
    {
        RobustMQTimestamp { since_epoch: RobustMQDuration::zero() }
    }

    /// `micros` microseconds after the epoch.
    pub fn from_micros(micros: u64) -> (r: RobustMQTimestamp)
        ensures
            r@ == micros as nat * 1000,
            r == timestamp_from_micros(micros),
    {
        RobustMQTimestamp { since_epoch: RobustMQDuration::from_micros(micros) }
    }

    /// Whole seconds since the epoch.
    pub fn to_secs(&self) -> (r: u64)
        ensures
            r == (self@ / 1_000_000_000) as u64,
    {
        (self.since_epoch.total_nanos() / 1_000_000_000) as u64
    }

    /// Whole microseconds since the epoch, kept to their low 64 bits.
    pub fn as_micros(&self) -> (r: u64)
        ensures
            r == (self@ / 1000) as u64,
    {
        self.since_epoch.as_micros()
    }

    /// Whole milliseconds since the epoch, kept to their low 64 bits.
    pub fn as_millis(&self) -> (r: u64)
        ensures
            r == (self@ / 1_000_000) as u64,
    {
        (self.since_epoch.total_nanos() / 1_000_000) as u64
    }

    /// The UTC time in the strftime `format`; empty when chrono cannot write it.
    pub fn to_utc_string(&self, format: &str) -> (r: String)
        ensures
            ({
                let secs = self@ / 1_000_000_000;
                if secs > i64::MAX {
                    r@.len() == 0
                } else {
                    match utc_formatted(secs as u64, (self@ % 1_000_000_000) as u32, format@) {
                        Some(s) => r@ == s,
                        None => r@.len() == 0,
                    }
                }
            }),
    {
        let n = self.since_epoch.total_nanos();
        let secs = n / 1_000_000_000;
        if secs > i64::MAX as u128 {
            return String::new();
        }
        match format_utc(secs as u64, (n % 1_000_000_000) as u32, format) {
            Some(s) => s,
            None => String::new(),
        }
    }

    /// The local time in the strftime `format`; empty when chrono cannot write it.
    pub fn to_local_string(&self, format: &str) -> (r: String) {
        let n = self.since_epoch.total_nanos();
        let secs = n / 1_000_000_000;
        if secs > i64::MAX as u128 {
            return String::new();
        }
        match format_local(secs as u64, (n % 1_000_000_000) as u32, format) {
            Some(s) => s,
            None => String::new(),
        }
    }

    /// The UTC time as `%Y-%m-%d %H:%M:%S`.
    pub fn to_string(&self) -> (r: String) {
        self.to_utc_string(UTC_TIME_FORMAT)
    }
}

impl Default for RobustMQTimestamp {
    /// The clock's reading.
    fn default() -> (r: RobustMQTimestamp) {
        RobustMQTimestamp::now()
    }
}

impl From<u64> for RobustMQTimestamp {
    /// `timestamp` microseconds after the epoch.
    fn from(timestamp: u64) -> (r: RobustMQTimestamp) {
        RobustMQTimestamp::from_micros(timestamp)
    }
}

impl vstd::std_specs::convert::FromSpecImpl<u64> for RobustMQTimestamp {
    open spec fn obeys_from_spec() -> bool {
        true
    }

    open spec fn from_spec(v: u64) -> RobustMQTimestamp {
        timestamp_from_micros(v)
    }
}

impl From<RobustMQTimestamp> for u64 {
    fn from(timestamp: RobustMQTimestamp) -> (r: u64) {
        timestamp.as_micros()
    }
}

impl vstd::std_specs::convert::FromSpecImpl<RobustMQTimestamp> for u64 {
    open spec fn obeys_from_spec() -> bool {
        true
    }

    open spec fn from_spec(v: RobustMQTimestamp) -> u64 {
        (v@ / 1000) as u64
    }
}

/// The point `micros` microseconds after the epoch.
pub closed spec fn timestamp_from_micros(micros: u64) -> RobustMQTimestamp {
    RobustMQTimestamp { since_epoch: crate::utils::duration::duration_from_micros(micros) }
}

} // verus!
