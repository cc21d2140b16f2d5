//! When something expires: the server's default, after a duration, or never.
use vstd::prelude::*;
use vstd::string::StringExecFns;

use crate::utils::duration::{
    count_digits, digit_count, duration_from_micros, duration_sum, lemma_duration_sum, format_human_duration, formatted_duration,
    parse_human_duration_text, parsed_duration, saturating_sum, RobustMQDuration,
    MAX_DURATION_DIGITS,
};

verus! {

/// Expiry of a token, a session or a message.
#[derive(Debug, Copy, Clone, Eq, PartialEq, Structural)]
pub enum RobustMQExpiry {
    /// Use the default expiry time from the server.
    ServerDefault,
    /// Expire after the given duration.
    ExpireDuration(RobustMQDuration),
    /// Never expire.
    NeverExpire,
}

/// An expiry with its duration in nanoseconds.
pub enum ExpiryView {
    ServerDefault,
    After(nat),
    Never,
}

impl View for RobustMQExpiry {
    type V = ExpiryView;

    open spec fn view(&self) -> ExpiryView {
        match self {
            RobustMQExpiry::ServerDefault => ExpiryView::ServerDefault,
            RobustMQExpiry::ExpireDuration(d) => ExpiryView::After(d@),
            RobustMQExpiry::NeverExpire => ExpiryView::Never,
        }
    }
}

/// Combining two expiries: "never" gives way to the other; two durations add
/// up; anything else with the server default is the server default.
pub open spec fn expiry_add(a: ExpiryView, b: ExpiryView) -> ExpiryView {
    match (a, b) {
        (ExpiryView::Never, _) => b,
        (_, ExpiryView::Never) => a,
        (ExpiryView::After(x), ExpiryView::After(y)) => ExpiryView::After(saturating_sum(x, y)),
        _ => ExpiryView::ServerDefault,
    }
}

/// Two expiries combined, exactly as `add_expiry` returns them.
pub open spec fn expiry_combine(a: RobustMQExpiry, b: RobustMQExpiry) -> RobustMQExpiry {
    match (a, b) {
        (RobustMQExpiry::NeverExpire, e) => e,
        (e, RobustMQExpiry::NeverExpire) => e,
        (RobustMQExpiry::ExpireDuration(x), RobustMQExpiry::ExpireDuration(y)) => RobustMQExpiry::ExpireDuration(
            duration_sum(x, y),
        ),
        _ => RobustMQExpiry::ServerDefault,
    }
}

/// All expiries of a list combined, starting from "never".
pub open spec fn expiry_sum(s: Seq<RobustMQExpiry>) -> RobustMQExpiry
    decreases s.len(),
{
    if s.len() == 0 {
        RobustMQExpiry::NeverExpire
    } else {
        expiry_combine(expiry_sum(s.drop_last()), s.last())
    }
}

/// The microseconds an expiry stands for: `None` for the server default,
/// `u64::MAX` for never.
pub open spec fn expiry_micros(e: RobustMQExpiry) -> Option<u64> {
    match e {
        RobustMQExpiry::ExpireDuration(d) => Some((d@ / 1000) as u64),
        RobustMQExpiry::NeverExpire => Some(u64::MAX),
        RobustMQExpiry::ServerDefault => None,
    }
}

/// The expiry that a number of microseconds stands for: `u64::MAX` is never,
/// 0 the server default.
pub open spec fn expiry_of_micros(v: u64) -> RobustMQExpiry {
    if v == u64::MAX {
        RobustMQExpiry::NeverExpire
    } else if v == 0 {
        RobustMQExpiry::ServerDefault
    } else {
        RobustMQExpiry::ExpireDuration(duration_from_micros(v))
    }
}

impl RobustMQExpiry {
    /// All the given expiries combined; `None` when none are given.
    pub fn new(values: Option<Vec<RobustMQExpiry>>) -> (r: Option<RobustMQExpiry>)
        ensures
            values is None <==> r is None,
            values matches Some(v) ==> r->0 == expiry_sum(v@),
    {
        match values {
            Some(v) => Some(RobustMQExpiry::sum_of(&v)),
            None => None,
        }
    }

    /// Two expiries combined.
    pub fn add_expiry(self, rhs: RobustMQExpiry) -> (r: RobustMQExpiry)
        ensures
            r == expiry_combine(self, rhs),
            r@ == expiry_add(self@, rhs@),
    {
        match (self, rhs) {
            (RobustMQExpiry::NeverExpire, expiry) => expiry,
            (expiry, RobustMQExpiry::NeverExpire) => expiry,
            (RobustMQExpiry::ExpireDuration(a), RobustMQExpiry::ExpireDuration(b)) => {
                proof {
                    lemma_duration_sum(a, b);
                }
                RobustMQExpiry::ExpireDuration(a.saturating_add(b))
            },
            _ => RobustMQExpiry::ServerDefault,
        }
    }

    /// All expiries of a list combined, starting from "never".
    pub fn sum_of(values: &Vec<RobustMQExpiry>) -> (r: RobustMQExpiry)
        ensures
            r == expiry_sum(values@),
    {
        let mut acc = RobustMQExpiry::NeverExpire;
        let mut i: usize = 0;
        while i < values.len()
            invariant
                i <= values@.len(),
                acc == expiry_sum(values@.subrange(0, i as int)),
            decreases values@.len() - i,
        {
            assert(values@.subrange(0, i + 1).drop_last() =~= values@.subrange(0, i as int));
            acc = acc.add_expiry(values[i]);
            i += 1;
        }
        assert(values@.subrange(0, values@.len() as int) =~= values@);
        acc
    }

    /// The microseconds it stands for: `None` for the server default, `u64::MAX`
    /// for never.
    pub fn as_micros_option(&self) -> (r: Option<u64>)
        ensures
            r == expiry_micros(*self),
    {
        match self {
            RobustMQExpiry::ExpireDuration(d) => Some(d.as_micros()),
            RobustMQExpiry::NeverExpire => Some(u64::MAX),
            RobustMQExpiry::ServerDefault => None,
        }
    }

    /// The expiry that a number of microseconds stands for.
    pub fn from_micros(v: u64) -> (r: RobustMQExpiry)
        ensures
            r == expiry_of_micros(v),
    {
        if v == u64::MAX {
            RobustMQExpiry::NeverExpire
        } else if v == 0 {
            RobustMQExpiry::ServerDefault
        } else {
            RobustMQExpiry::ExpireDuration(RobustMQDuration::from_micros(v))
        }
    }

    /// `none`, `server_default`, or the duration in humantime's notation.
    pub fn to_string(&self) -> (r: String)
        ensures
            *self == RobustMQExpiry::NeverExpire ==> r@ == "none"@,
            *self == RobustMQExpiry::ServerDefault ==> r@ == "server_default"@,
    {
        match self {
            RobustMQExpiry::NeverExpire => String::from_str("none"),
            RobustMQExpiry::ServerDefault => String::from_str("server_default"),
            RobustMQExpiry::ExpireDuration(d) => d.to_string(),
        }
    }

    /// Reads an expiry: `unlimited`/`none` (or capitalised) is never,
    /// `default`/`server_default` (or capitalised) the server default, anything
    /// else a humantime duration of at most `u32::MAX` seconds.
    pub fn parse_text(s: &str) -> (r: Result<RobustMQExpiry, String>)
        ensures
            ({
                let t = s@;
                if t == "unlimited"@ || t == "none"@ || t == "None"@ || t == "Unlimited"@ {
                    r == Ok::<RobustMQExpiry, String>(RobustMQExpiry::NeverExpire)
                } else if t == "default"@ || t == "server_default"@ || t == "Default"@ || t == "Server_default"@ {
                    r == Ok::<RobustMQExpiry, String>(RobustMQExpiry::ServerDefault)
                } else if digit_count(t) > MAX_DURATION_DIGITS {
                    r is Err
                } else {
                    match parsed_duration(t) {
                        Ok(p) => if p.0 > u32::MAX {
                            r matches Err(m) && m@ == "Value too big for expiry time, maximum value is "@
                                + formatted_duration(u32::MAX as u64, 0)
                        } else {
                            r matches Ok(e) && e@ == ExpiryView::After(p.0 as nat * 1_000_000_000 + p.1 as nat)
                        },
                        Err(e) => r matches Err(m) && m@ == e,
                    }
                }
            }),
    {
        let t = String::from_str(s);
        if t == String::from_str("unlimited") || t == String::from_str("none") || t == String::from_str("None")
            || t == String::from_str("Unlimited") {
            return Ok(RobustMQExpiry::NeverExpire);
        }
        if t == String::from_str("default") || t == String::from_str("server_default") || t == String::from_str(
            "Default",
        ) || t == String::from_str("Server_default") {
            return Ok(RobustMQExpiry::ServerDefault);
        }
        if count_digits(s) > MAX_DURATION_DIGITS {
            return Err(String::from_str("duration has too many digits"));
        }
        match parse_human_duration_text(s) {
            Err(e) => Err(e),
            Ok((secs, nanos)) => {
                if secs > u32::MAX as u64 {
                    let limit = format_human_duration(u32::MAX as u64, 0);
                    let m = String::from_str("Value too big for expiry time, maximum value is ").concat(
                        limit.as_str(),
                    );
                    Err(m)
                } else {
                    Ok(RobustMQExpiry::ExpireDuration(RobustMQDuration::from_parts(secs, nanos)))
                }
            },
        }
    }
}

impl Default for RobustMQExpiry {
    fn default() -> (r: RobustMQExpiry)
        ensures
            r == RobustMQExpiry::ServerDefault,
    {
        RobustMQExpiry::ServerDefault
    }
}

impl std::str::FromStr for RobustMQExpiry {
    type Err = String;

    fn from_str(s: &str) -> Result<Self, Self::Err> {
        RobustMQExpiry::parse_text(s)
    }
}

impl std::ops::Add for RobustMQExpiry {
    type Output = RobustMQExpiry;

    fn add(self, rhs: RobustMQExpiry) -> (r: RobustMQExpiry) {
        self.add_expiry(rhs)
    }
}

impl vstd::std_specs::ops::AddSpecImpl for RobustMQExpiry {
    open spec fn obeys_add_spec() -> bool {
        true
    }

    open spec fn add_req(self, rhs: RobustMQExpiry) -> bool {
        true
    }

    open spec fn add_spec(self, rhs: RobustMQExpiry) -> RobustMQExpiry {
        expiry_combine(self, rhs)
    }
}

impl From<&RobustMQExpiry> for Option<u64> {
    fn from(value: &RobustMQExpiry) -> (r: Option<u64>) {
        value.as_micros_option()
    }
}

impl vstd::std_specs::convert::FromSpecImpl<&RobustMQExpiry> for Option<u64> {
    open spec fn obeys_from_spec() -> bool {
        true
    }

    open spec fn from_spec(v: &RobustMQExpiry) -> Option<u64> {
        expiry_micros(*v)
    }
}

impl From<RobustMQExpiry> for Option<u64> {
    fn from(value: RobustMQExpiry) -> (r: Option<u64>) {
        value.as_micros_option()
    }
}

impl vstd::std_specs::convert::FromSpecImpl<RobustMQExpiry> for Option<u64> {
    open spec fn obeys_from_spec() -> bool {
        true
    }

    open spec fn from_spec(v: RobustMQExpiry) -> Option<u64> {
        expiry_micros(v)
    }
}

impl From<RobustMQExpiry> for u64 {
    /// 0 for the server default, `u64::MAX` for never.
    fn from(value: RobustMQExpiry) -> (r: u64) {
        match value.as_micros_option() {
            Some(v) => v,
            None => 0,
        }
    }
}

impl vstd::std_specs::convert::FromSpecImpl<RobustMQExpiry> for u64 {
    open spec fn obeys_from_spec() -> bool {
        true
    }

    open spec fn from_spec(v: RobustMQExpiry) -> u64 {
        match expiry_micros(v) {
            Some(m) => m,
            None => 0,
        }
    }
}

impl From<u64> for RobustMQExpiry {
    fn from(value: u64) -> (r: RobustMQExpiry) {
        RobustMQExpiry::from_micros(value)
    }
}

impl vstd::std_specs::convert::FromSpecImpl<u64> for RobustMQExpiry {
    open spec fn obeys_from_spec() -> bool {
        true
    }

    open spec fn from_spec(v: u64) -> RobustMQExpiry {
        expiry_of_micros(v)
    }
}

impl From<Option<u64>> for RobustMQExpiry {
    /// `None` is never.
    fn from(value: Option<u64>) -> (r: RobustMQExpiry) {
        match value {
            Some(v) => RobustMQExpiry::from_micros(v),
            None => RobustMQExpiry::NeverExpire,
        }
    }
}

impl vstd::std_specs::convert::FromSpecImpl<Option<u64>> for RobustMQExpiry {
    open spec fn obeys_from_spec() -> bool {
        true
    }

    open spec fn from_spec(v: Option<u64>) -> RobustMQExpiry {
        match v {
            Some(m) => expiry_of_micros(m),
            None => RobustMQExpiry::NeverExpire,
        }
    }
}

impl From<Vec<RobustMQExpiry>> for RobustMQExpiry {
    /// All expiries combined, starting from "never".
    fn from(values: Vec<RobustMQExpiry>) -> (r: RobustMQExpiry) {
        RobustMQExpiry::sum_of(&values)
    }
}

impl vstd::std_specs::convert::FromSpecImpl<Vec<RobustMQExpiry>> for RobustMQExpiry {
    open spec fn obeys_from_spec() -> bool {
        true
    }

    open spec fn from_spec(v: Vec<RobustMQExpiry>) -> RobustMQExpiry {
        expiry_sum(v@)
    }
}

} // verus!
