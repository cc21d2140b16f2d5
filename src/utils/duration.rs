//! Durations with nanosecond precision, read and written in humantime's notation.
use vstd::prelude::*;
use vstd::string::{StrSliceExecFns, StringExecFns};

use std::time::Duration;

verus! {

pub const SEC_IN_MICRO: u64 = 1_000_000;

pub const NANOS_PER_SEC: u128 = 1_000_000_000;

/// The longest duration that `std::time::Duration` holds, in nanoseconds.
pub const MAX_NANOS: u128 = 18_446_744_073_709_551_615_999_999_999;

/// At most this many digits in a duration text. humantime can only panic when
/// the seconds of its spans sum to exactly `u64::MAX` while the sub-second
/// spans sum to exactly one second: that takes at least twelve digits in spans
/// of a second or more (a year is 31_557_600 s) and four in sub-second spans.
pub const MAX_DURATION_DIGITS: usize = 15;

/// The whole seconds of a `Duration`.
pub uninterp spec fn std_duration_secs(d: Duration) -> u64;

/// The nanoseconds of a `Duration` below its whole seconds.
pub uninterp spec fn std_duration_subsec_nanos(d: Duration) -> u32;

/// Relies on `Duration::as_secs`.
#[verifier::external_body]
fn duration_secs(d: &Duration) -> (r: u64)
    ensures
        r == std_duration_secs(*d),
{
    d.as_secs()
}

/// Relies on `Duration::subsec_nanos`, which is always below one billion.
#[verifier::external_body]
fn duration_subsec_nanos(d: &Duration) -> (r: u32)
    ensures
        r == std_duration_subsec_nanos(*d),
        r < 1_000_000_000,
{
    d.subsec_nanos()
}

/// Relies on `Duration::new`, which does not panic when `nanos` is below one billion.
#[verifier::external_body]
fn duration_from_parts(secs: u64, nanos: u32) -> (r: Duration)
    requires
        nanos < 1_000_000_000,
    ensures
        std_duration_secs(r) == secs,
        std_duration_subsec_nanos(r) == nanos,
{
    Duration::new(secs, nanos)
}

/// What `str::to_lowercase` makes of a text.
pub uninterp spec fn lower_of(s: Seq<char>) -> Seq<char>;

/// Relies on `str::to_lowercase`: the result depends on the characters alone.
#[verifier::external_body]
fn lowercase(s: &str) -> (r: String)
    ensures
        r@ == lower_of(s@),
{
    s.to_lowercase()
}

/// What `humantime::parse_duration` makes of a text: whole seconds and the
/// nanoseconds below them, or the text of its error.
pub uninterp spec fn parsed_duration(s: Seq<char>) -> Result<(u64, u32), Seq<char>>;

/// Relies on `humantime::parse_duration`, split into `Duration::as_secs` and
/// `Duration::subsec_nanos`; its error is kept as its `Display` text. With at
/// most `MAX_DURATION_DIGITS` digits it never reaches the carry into
/// `u64::MAX` seconds where it would panic in `Duration::new`.
#[verifier::external_body]
pub(crate) fn parse_human_duration_text(s: &str) -> (r: Result<(u64, u32), String>)
    requires
        digit_count(s@) <= MAX_DURATION_DIGITS,
    ensures
        parsed_duration(s@) == match r {
            Ok(p) => Ok::<(u64, u32), Seq<char>>(p),
            Err(e) => Err::<(u64, u32), Seq<char>>(e@),
        },
        r is Ok ==> r->Ok_0.1 < 1_000_000_000,
{
    match humantime::parse_duration(s) {
        Ok(d) => Ok((d.as_secs(), d.subsec_nanos())),
        Err(e) => Err(e.to_string()),
    }
}

/// What `humantime::format_duration` writes for a duration of `secs` seconds
/// and `nanos` nanoseconds.
pub uninterp spec fn formatted_duration(secs: u64, nanos: u32) -> Seq<char>;

/// Relies on `humantime::format_duration` and its `Display`: the zero duration is
/// written `0s`.
#[verifier::external_body]
pub(crate) fn format_human_duration(secs: u64, nanos: u32) -> (r: String)
    requires
        nanos < 1_000_000_000,
    ensures
        r@ == formatted_duration(secs, nanos),
        secs == 0 && nanos == 0 ==> r@ == "0s"@,
{
    humantime::format_duration(Duration::new(secs, nanos)).to_string()
}

pub open spec fn is_digit(c: char) -> bool {
    '0' <= c && c <= '9'
}

/// The number of ASCII digits in a text.
pub open spec fn digit_count(s: Seq<char>) -> nat
    decreases s.len(),
{
    if s.len() == 0 {
        0
    } else {
        digit_count(s.drop_last()) + if is_digit(s.last()) { 1nat } else { 0nat }
    }
}

/// Counts the ASCII digits of `s`.
pub fn count_digits(s: &str) -> (r: usize)
    ensures
        r == digit_count(s@),
{
    let n = s.unicode_len();
    let mut i: usize = 0;
    let mut count: usize = 0;
    while i < n
        invariant
            n == s@.len(),
            i <= n,
            count == digit_count(s@.subrange(0, i as int)),
            count <= i,
        decreases n - i,
    {
        let c = s.get_char(i);
        assert(s@.subrange(0, i + 1).drop_last() =~= s@.subrange(0, i as int));
        if '0' <= c && c <= '9' {
            count = count + 1;
        }
        i += 1;
    }
    assert(s@.subrange(0, n as int) =~= s@);
    count
}

/// A span of time, to the nanosecond.
#[derive(Debug, Clone, Copy, PartialEq, Eq, Structural)]
pub struct RobustMQDuration {
    nanos: u128,
}

impl RobustMQDuration {
    /// Never longer than the longest `std::time::Duration`.
    #[verifier::type_invariant]
    spec fn inv(&self) -> bool {
        self.nanos <= MAX_NANOS
    }
}

impl View for RobustMQDuration {
    type V = nat;

    /// The span in nanoseconds.
    closed spec fn view(&self) -> nat {
        self.nanos as nat
    }
}

pub open spec fn micros_to_nanos(micros: u64) -> nat {
    micros as nat * 1000
}

/// The span of `micros` microseconds.
pub closed spec fn duration_from_micros(micros: u64) -> RobustMQDuration {
    RobustMQDuration { nanos: (micros as nat * 1000) as u128 }
}

/// The span of `secs` seconds and `nanos` nanoseconds.
pub closed spec fn duration_from_parts_spec(secs: u64, nanos: u32) -> RobustMQDuration {
    RobustMQDuration { nanos: (secs as nat * 1_000_000_000 + nanos as nat) as u128 }
}

/// The sum of two spans, stopping at the longest `Duration`.
pub closed spec fn duration_sum(a: RobustMQDuration, b: RobustMQDuration) -> RobustMQDuration {
    if a.nanos > MAX_NANOS || b.nanos > MAX_NANOS - a.nanos {
        RobustMQDuration { nanos: MAX_NANOS }
    } else {
        RobustMQDuration { nanos: (a.nanos + b.nanos) as u128 }
    }
}

/// `duration_sum` adds the spans, saturating.
pub proof fn lemma_duration_sum(a: RobustMQDuration, b: RobustMQDuration)
    ensures
        duration_sum(a, b)@ == saturating_sum(a@, b@),
{
}

/// Two spans added, stopping at the longest `Duration`.
pub open spec fn saturating_sum(a: nat, b: nat) -> nat {
    if a + b > MAX_NANOS {
        MAX_NANOS as nat
    } else {
        a + b
    }
}

impl RobustMQDuration {
    /// A span of `nanos` nanoseconds.
    pub fn from_nanos(nanos: u128) -> (r: RobustMQDuration)
        requires
            nanos <= MAX_NANOS,
        ensures
            r@ == nanos,
    {
        RobustMQDuration { nanos }
    }

    /// The span in nanoseconds.
    pub fn total_nanos(&self) -> (r: u128)
        ensures
            r == self@,
            r <= MAX_NANOS,
    {
        proof {
            use_type_invariant(self);
        }
        self.nanos
    }

    pub fn new(duration: Duration) -> (r: RobustMQDuration)
        ensures
            r@ == std_duration_secs(duration) as nat * 1_000_000_000 + std_duration_subsec_nanos(duration) as nat,
            std_duration_subsec_nanos(duration) < 1_000_000_000,
    {
        let secs = duration_secs(&duration);
        let sub = duration_subsec_nanos(&duration);
        RobustMQDuration { nanos: secs as u128 * NANOS_PER_SEC + sub as u128 }
    }

    pub fn new_from_secs(secs: u64) -> (r: RobustMQDuration)
        ensures
            r@ == secs as nat * 1_000_000_000,
    {
        RobustMQDuration { nanos: secs as u128 * NANOS_PER_SEC }
    }

    /// A span of `micros` microseconds.
    pub fn from_micros(micros: u64) -> (r: RobustMQDuration)
        ensures
            r@ == micros_to_nanos(micros),
            r == duration_from_micros(micros),
    {
        RobustMQDuration { nanos: micros as u128 * 1000 }
    }

    /// The span of `secs` seconds and `nanos` nanoseconds.
    pub fn from_parts(secs: u64, nanos: u32) -> (r: RobustMQDuration)
        requires
            nanos < 1_000_000_000,
        ensures
            r == duration_from_parts_spec(secs, nanos),
            r@ == secs as nat * 1_000_000_000 + nanos as nat,
    {
        RobustMQDuration { nanos: secs as u128 * NANOS_PER_SEC + nanos as u128 }
    }

    /// The zero span.
    pub fn zero() -> (r: RobustMQDuration)
        ensures
            r@ == 0,
    {
        RobustMQDuration { nanos: 0 }
    }

    /// The whole seconds, kept to their low 32 bits.
    pub fn as_secs(&self) -> (r: u32)
        ensures
            r == (self@ / 1_000_000_000) as u64 as u32,
    {
        (self.nanos / NANOS_PER_SEC) as u64 as u32
    }

    /// The whole microseconds, kept to their low 64 bits.
    pub fn as_micros(&self) -> (r: u64)
        ensures
            r == (self@ / 1000) as u64,
    {
        (self.nanos / 1000) as u64
    }

    /// The span as a `std::time::Duration`.
    pub fn get_duration(&self) -> (r: Duration)
        ensures
            std_duration_secs(r) as nat == self@ / 1_000_000_000,
            std_duration_subsec_nanos(r) == self@ % 1_000_000_000,
    {
        proof {
            use_type_invariant(self);
        }
        duration_from_parts((self.nanos / NANOS_PER_SEC) as u64, (self.nanos % NANOS_PER_SEC) as u32)
    }

    /// Whether the span is under one second.
    pub fn is_zero(&self) -> (r: bool)
        ensures
            r == (self@ < 1_000_000_000),
    {
        self.nanos / NANOS_PER_SEC == 0
    }

    /// The distance between two spans.
    pub fn abs_diff(&self, other: RobustMQDuration) -> (r: RobustMQDuration)
        ensures
            r@ == if self@ >= other@ { self@ - other@ } else { other@ - self@ },
    {
        proof {
            use_type_invariant(self);
            use_type_invariant(&other);
        }
        if self.nanos >= other.nanos {
            RobustMQDuration { nanos: self.nanos - other.nanos }
        } else {
            RobustMQDuration { nanos: other.nanos - self.nanos }
        }
    }

    /// The sum of two spans, stopping at the longest `Duration`.
    pub fn saturating_add(&self, other: RobustMQDuration) -> (r: RobustMQDuration)
        ensures
            r@ == saturating_sum(self@, other@),
            r == duration_sum(*self, other),
    {
        if self.nanos > MAX_NANOS || other.nanos > MAX_NANOS - self.nanos {
            RobustMQDuration { nanos: MAX_NANOS }
        } else {
            RobustMQDuration { nanos: self.nanos + other.nanos }
        }
    }

    /// The span in humantime's notation, such as `1h 1m 1s`.
    pub fn as_human_time_string(&self) -> (r: String)
        ensures
            self@ <= MAX_NANOS ==> r@ == formatted_duration(
                (self@ / 1_000_000_000) as u64,
                (self@ % 1_000_000_000) as u32,
            ),
    {
        let n = if self.nanos > MAX_NANOS {
            MAX_NANOS
        } else {
            self.nanos
        };
        format_human_duration((n / NANOS_PER_SEC) as u64, (n % NANOS_PER_SEC) as u32)
    }

    /// The same text as `as_human_time_string`.
    pub fn to_string(&self) -> (r: String)
        ensures
            self@ <= MAX_NANOS ==> r@ == formatted_duration(
                (self@ / 1_000_000_000) as u64,
                (self@ % 1_000_000_000) as u32,
            ),
    {
        self.as_human_time_string()
    }

    /// Reads a duration: `0`, `unlimited`, `disabled` and `none` (in any case)
    /// are the zero span; anything else is read, lower-cased, by humantime. A
    /// text with more than `MAX_DURATION_DIGITS` digits is refused.
    pub fn parse_text(s: &str) -> (r: Result<RobustMQDuration, String>)
        ensures
            ({
                let l = lower_of(s@);
                if l == "0"@ || l == "unlimited"@ || l == "disabled"@ || l == "none"@ {
                    r matches Ok(d) && d@ == 0
                } else if digit_count(l) > MAX_DURATION_DIGITS {
                    r is Err
                } else {
                    match parsed_duration(l) {
                        Ok(p) => r matches Ok(d) && d@ == p.0 as nat * 1_000_000_000 + p.1 as nat,
                        Err(e) => r matches Err(m) && m@ == e,
                    }
                }
            }),
    {
        let l = lowercase(s);
        if l == String::from_str("0") || l == String::from_str("unlimited") || l == String::from_str("disabled")
            || l == String::from_str("none") {
            return Ok(RobustMQDuration { nanos: 0 });
        }
        if count_digits(l.as_str()) > MAX_DURATION_DIGITS {
            return Err(String::from_str("duration has too many digits"));
        }
        match parse_human_duration_text(l.as_str()) {
            Ok((secs, nanos)) => Ok(RobustMQDuration { nanos: secs as u128 * NANOS_PER_SEC + nanos as u128 }),
            Err(e) => Err(e),
        }
    }
}

impl std::str::FromStr for RobustMQDuration {
    type Err = String;

    fn from_str(s: &str) -> Result<Self, Self::Err> {
        RobustMQDuration::parse_text(s)
    }
}

impl Default for RobustMQDuration {
    fn default() -> (r: RobustMQDuration)
        ensures
            r@ == 0,
    {
        RobustMQDuration { nanos: 0 }
    }
}

impl std::ops::Add for RobustMQDuration {
    type Output = RobustMQDuration;

    fn add(self, rhs: RobustMQDuration) -> (r: RobustMQDuration) {
        self.saturating_add(rhs)
    }
}

impl vstd::std_specs::ops::AddSpecImpl for RobustMQDuration {
    open spec fn obeys_add_spec() -> bool {
        true
    }

    open spec fn add_req(self, rhs: RobustMQDuration) -> bool {
        true
    }

    open spec fn add_spec(self, rhs: RobustMQDuration) -> RobustMQDuration {
        duration_sum(self, rhs)
    }
}

impl From<u64> for RobustMQDuration {
    /// A span of `value` microseconds.
    fn from(value: u64) -> (r: RobustMQDuration) {
        RobustMQDuration::from_micros(value)
    }
}

impl vstd::std_specs::convert::FromSpecImpl<u64> for RobustMQDuration {
    open spec fn obeys_from_spec() -> bool {
        true
    }

    closed spec fn from_spec(v: u64) -> RobustMQDuration {
        RobustMQDuration { nanos: (v as nat * 1000) as u128 }
    }
}

impl From<Option<u64>> for RobustMQDuration {
    /// A span of the given microseconds; zero for `None`.
    fn from(value: Option<u64>) -> (r: RobustMQDuration) {
        match value {
            Some(v) => RobustMQDuration::from_micros(v),
            None => RobustMQDuration { nanos: 0 },
        }
    }
}

impl vstd::std_specs::convert::FromSpecImpl<Option<u64>> for RobustMQDuration {
    open spec fn obeys_from_spec() -> bool {
        true
    }

    closed spec fn from_spec(v: Option<u64>) -> RobustMQDuration {
        match v {
            Some(m) => RobustMQDuration { nanos: (m as nat * 1000) as u128 },
            None => RobustMQDuration { nanos: 0 },
        }
    }
}

impl From<Duration> for RobustMQDuration {
    fn from(duration: Duration) -> (r: RobustMQDuration) {
        RobustMQDuration::new(duration)
    }
}

impl vstd::std_specs::convert::FromSpecImpl<Duration> for RobustMQDuration {
    open spec fn obeys_from_spec() -> bool {
        true
    }

    closed spec fn from_spec(v: Duration) -> RobustMQDuration {
        RobustMQDuration {
            nanos: (std_duration_secs(v) as nat * 1_000_000_000 + std_duration_subsec_nanos(v) as nat) as u128,
        }
    }
}

impl From<RobustMQDuration> for u64 {
    /// The whole microseconds, kept to their low 64 bits.
    fn from(d: RobustMQDuration) -> (r: u64) {
        d.as_micros()
    }
}

impl vstd::std_specs::convert::FromSpecImpl<RobustMQDuration> for u64 {
    open spec fn obeys_from_spec() -> bool {
        true
    }

    closed spec fn from_spec(v: RobustMQDuration) -> u64 {
        (v.nanos / 1000) as u64
    }
}

} // verus!
