//! Access tokens: their claims, and the list of revoked ones.
use vstd::prelude::*;

use crate::share::supervisor::{contains_name, names_contain, names_unique};
use crate::utils::duration::RobustMQDuration;
use crate::utils::expiry::RobustMQExpiry;

verus! {

/// The claims that an access token carries.
#[derive(Debug, Clone, PartialEq, Eq)]
pub struct JwtClaims {
    /// Token id.
    pub jti: String,
    /// Issuer.
    pub iss: String,
    /// Audience.
    pub aud: String,
    /// Subject.
    pub sub: String,
    /// Issued at, in seconds since the epoch.
    pub iat: u64,
    /// Expiration time.
    pub exp: u64,
    /// Not before.
    pub nbf: u64,
}

/// A token that may no longer be used, until its own expiry.
#[derive(Debug, Clone, PartialEq, Eq)]
pub struct RevokedAccessToken {
    pub id: String,
    pub expiry: u64,
}

#[derive(Debug, Clone, PartialEq, Eq)]
pub struct GeneratedToken {
    pub user_id: String,
    pub access_token: String,
    pub access_token_expiry: u64,
}

/// Seconds a token lives: a billion when it never expires, none under the
/// server default, else the duration's whole seconds.
pub open spec fn token_lifetime(expiry: RobustMQExpiry) -> u64 {
    match expiry {
        RobustMQExpiry::NeverExpire => 1_000_000_000,
        RobustMQExpiry::ServerDefault => 0,
        RobustMQExpiry::ExpireDuration(d) => (d@ / 1_000_000_000) as u64 as u32 as u64,
    }
}

pub open spec fn add_saturating(a: u64, b: u64) -> u64 {
    if a as int + b as int > u64::MAX as int {
        u64::MAX
    } else {
        (a + b) as u64
    }
}

/// Issued-at, expiry and not-before times of a token issued at `now` (in
/// seconds); sums stop at `u64::MAX`.
pub fn token_times(now: u64, expiry: RobustMQExpiry, not_before: RobustMQDuration) -> (r: (u64, u64, u64))
    ensures
        r.0 == now,
        r.1 == add_saturating(now, token_lifetime(expiry)),
        r.2 == add_saturating(now, (not_before@ / 1_000_000_000) as u64 as u32 as u64),
{
    let lifetime: u64 = match expiry {
        RobustMQExpiry::NeverExpire => 1_000_000_000,
        RobustMQExpiry::ServerDefault => 0,
        RobustMQExpiry::ExpireDuration(d) => d.as_secs() as u64,
    };
    (now, now.saturating_add(lifetime), now.saturating_add(not_before.as_secs() as u64))
}

/// What a lookup in the revocation list says: whether the token is revoked,
/// and whether its entry has expired by `now` and is to be purged.
pub fn revocation_status(expiry: Option<u64>, now: u64) -> (r: (bool, bool))
    ensures
        r.0 == expiry is Some,
        r.1 == (expiry matches Some(e) && e <= now),
{
    match expiry {
        Some(e) => (true, e <= now),
        None => (false, false),
    }
}

/// A token with id `k` in the list has expired by `now`.
pub open spec fn expired_in(tokens: Seq<RevokedAccessToken>, k: Seq<char>, now: u64) -> bool {
    exists|j: int| 0 <= j < tokens.len() && (#[trigger] tokens[j]).id@ == k && tokens[j].expiry <= now
}

/// The ids of the revoked tokens whose expiry is at or before `now`.
pub fn expired_token_ids(tokens: &Vec<RevokedAccessToken>, now: u64) -> (r: Vec<String>)
    ensures
        forall|k: Seq<char>| #[trigger] names_contain(r@, k) <==> expired_in(tokens@, k, now),
        names_unique(r@),
{
    let mut r: Vec<String> = Vec::new();
    let mut i: usize = 0;
    while i < tokens.len()
        invariant
            i <= tokens@.len(),
            forall|t: int| 0 <= t < r@.len() ==> is_expired_before(tokens@, i as int, (#[trigger] r@[t])@, now),
            forall|j: int| 0 <= j < i && (#[trigger] tokens@[j]).expiry <= now ==> names_contain(r@, tokens@[j].id@),
            names_unique(r@),
        decreases tokens@.len() - i,
    {
        let ghost before = r@;
        if tokens[i].expiry <= now && contains_name(&r, &tokens[i].id) {
            proof {
                assert forall|t: int| 0 <= t < r@.len() implies is_expired_before(tokens@, i + 1, (#[trigger] r@[t])@, now) by {
                    assert(is_expired_before(tokens@, i as int, r@[t]@, now));
                }
            }
        } else if tokens[i].expiry <= now {
            r.push(tokens[i].id.clone());
            proof {
                assert forall|x: int, y: int| 0 <= x < y < r@.len() implies (#[trigger] r@[x])@ != (#[trigger] r@[y])@ by {
                    if y < before.len() {
                        assert(r@[x] == before[x] && r@[y] == before[y]);
                    } else {
                        assert(r@[x] == before[x]);
                    }
                }
                assert(r@[r@.len() - 1]@ == tokens@[i as int].id@);
                assert forall|t: int| 0 <= t < r@.len() implies is_expired_before(tokens@, i + 1, (#[trigger] r@[t])@, now) by {
                    if t < before.len() {
                        assert(r@[t] == before[t]);
                        assert(is_expired_before(tokens@, i as int, before[t]@, now));
                    }
                }
                assert forall|j: int| 0 <= j < i + 1 && (#[trigger] tokens@[j]).expiry <= now implies names_contain(r@, tokens@[j].id@) by {
                    if j < i {
                        assert(names_contain(before, tokens@[j].id@));
                        let t = choose|t: int| 0 <= t < before.len() && (#[trigger] before[t])@ == tokens@[j].id@;
                        assert(r@[t] == before[t]);
                    }
                }
            }
        } else {
            proof {
                assert forall|t: int| 0 <= t < r@.len() implies is_expired_before(tokens@, i + 1, (#[trigger] r@[t])@, now) by {
                    assert(is_expired_before(tokens@, i as int, r@[t]@, now));
                }
            }
        }
        i += 1;
    }
    proof {
        assert forall|k: Seq<char>| #[trigger] names_contain(r@, k) <==> expired_in(tokens@, k, now) by {
            if names_contain(r@, k) {
                let t = choose|t: int| 0 <= t < r@.len() && (#[trigger] r@[t])@ == k;
                assert(is_expired_before(tokens@, i as int, r@[t]@, now));
            }
            if expired_in(tokens@, k, now) {
                let j = choose|j: int| 0 <= j < tokens@.len() && (#[trigger] tokens@[j]).id@ == k && tokens@[j].expiry <= now;
                assert(names_contain(r@, tokens@[j].id@));
            }
        }
    }
    r
}

/// A token among the first `n` of the list with id `k` has expired by `now`.
pub open spec fn is_expired_before(tokens: Seq<RevokedAccessToken>, n: int, k: Seq<char>, now: u64) -> bool {
    exists|j: int| 0 <= j < n && (#[trigger] tokens[j]).id@ == k && tokens[j].expiry <= now
}

} // verus!
