//! Recipient selection for shared subscriptions.
use vstd::prelude::*;
use vstd::arithmetic::div_mod::{
    lemma_add_mod_noop_right, lemma_fundamental_div_mod, lemma_mod_multiples_vanish,
    lemma_small_mod,
};
use vstd::string::StringExecFns;

verus! {

/// How a group spreads its records over its members.
#[derive(Debug, Clone, Copy, PartialEq, Eq, Structural)]
pub enum ShareStrategy {
    RoundRobin,
    Random,
    Sticky,
    Hash,
    Local,
}

pub open spec fn strategy_of_name(s: Seq<char>) -> Option<ShareStrategy> {
    if s == "round_robin"@ {
        Some(ShareStrategy::RoundRobin)
    } else if s == "random"@ {
        Some(ShareStrategy::Random)
    } else if s == "sticky"@ {
        Some(ShareStrategy::Sticky)
    } else if s == "hash"@ {
        Some(ShareStrategy::Hash)
    } else if s == "local"@ {
        Some(ShareStrategy::Local)
    } else {
        None
    }
}

/// Reads the configured strategy name; an unknown name gives `None`.
pub fn parse_strategy(s: &str) -> (r: Option<ShareStrategy>)
    ensures
        r == strategy_of_name(s@),
{
    let s = String::from_str(s);
    if s == String::from_str("round_robin") {
        Some(ShareStrategy::RoundRobin)
    } else if s == String::from_str("random") {
        Some(ShareStrategy::Random)
    } else if s == String::from_str("sticky") {
        Some(ShareStrategy::Sticky)
    } else if s == String::from_str("hash") {
        Some(ShareStrategy::Hash)
    } else if s == String::from_str("local") {
        Some(ShareStrategy::Local)
    } else {
        None
    }
}

/// Round robin: picks `cursor mod n` and returns it with the next cursor.
pub fn round_robin_pick(cursor: usize, n: usize) -> (r: (usize, usize))
    requires
        n > 0,
    ensures
        r.0 == cursor % n,
        r.1 == r.0 + 1,
        r.0 < n,
{
    let i = cursor % n;
    (i, i + 1)
}

/// The members chosen by `k` consecutive round-robin picks from `cursor`.
pub open spec fn round_robin_run(cursor: int, n: int, k: nat) -> Seq<int>
    decreases k,
{
    if k == 0 {
        Seq::empty()
    } else {
        seq![cursor % n] + round_robin_run(cursor % n + 1, n, (k - 1) as nat)
    }
}

proof fn lemma_round_robin_run_index(cursor: int, n: int, k: nat, i: int)
    requires
        n > 0,
        cursor >= 0,
        0 <= i < k,
    ensures
        round_robin_run(cursor, n, k).len() == k,
        round_robin_run(cursor, n, k)[i] == (cursor + i) % n,
    decreases k,
{
    lemma_round_robin_run_len(cursor, n, k);
    if i > 0 {
        let c1 = cursor % n + 1;
        lemma_round_robin_run_index(c1, n, (k - 1) as nat, i - 1);
        assert(round_robin_run(cursor, n, k)[i] == round_robin_run(c1, n, (k - 1) as nat)[i - 1]);
        lemma_add_mod_noop_right(1 + i - 1, cursor, n);
        assert((cursor % n + 1 + (i - 1)) % n == (cursor + i) % n) by {
            lemma_add_mod_noop_right(i, cursor, n);
        }
    }
}

proof fn lemma_round_robin_run_len(cursor: int, n: int, k: nat)
    ensures
        round_robin_run(cursor, n, k).len() == k,
    decreases k,
{
    if k > 0 {
        lemma_round_robin_run_len(cursor % n + 1, n, (k - 1) as nat);
    }
}

/// Over a stable snapshot of `n` members, `n` consecutive round-robin picks
/// choose every member exactly once.
pub proof fn lemma_round_robin_is_permutation(cursor: int, n: int)
    requires
        n > 0,
        cursor >= 0,
    ensures
        round_robin_run(cursor, n, n as nat).len() == n,
        forall|i: int| 0 <= i < n ==> 0 <= #[trigger] round_robin_run(cursor, n, n as nat)[i] < n,
        forall|i: int, j: int|
            0 <= i < j < n ==> #[trigger] round_robin_run(cursor, n, n as nat)[i]
                != #[trigger] round_robin_run(cursor, n, n as nat)[j],
        forall|m: int| 0 <= m < n ==> #[trigger] round_robin_run(cursor, n, n as nat).contains(m),
{
    let s = round_robin_run(cursor, n, n as nat);
    lemma_round_robin_run_len(cursor, n, n as nat);
    assert forall|i: int| 0 <= i < n implies 0 <= #[trigger] s[i] < n by {
        lemma_round_robin_run_index(cursor, n, n as nat, i);
    }
    assert forall|i: int, j: int| 0 <= i < j < n implies #[trigger] s[i] != #[trigger] s[j] by {
        lemma_round_robin_run_index(cursor, n, n as nat, i);
        lemma_round_robin_run_index(cursor, n, n as nat, j);
        lemma_fundamental_div_mod(cursor + i, n);
        lemma_fundamental_div_mod(cursor + j, n);
        let qi = (cursor + i) / n;
        let qj = (cursor + j) / n;
        if s[i] == s[j] {
            assert(j - i == n * (qj - qi)) by (nonlinear_arith)
                requires
                    cursor + i == n * qi + (cursor + i) % n,
                    cursor + j == n * qj + (cursor + j) % n,
                    (cursor + i) % n == (cursor + j) % n,
            ;
            assert(false) by (nonlinear_arith)
                requires
                    j - i == n * (qj - qi),
                    0 < j - i < n,
            ;
        }
    }
    assert forall|m: int| 0 <= m < n implies #[trigger] s.contains(m) by {
        let r = cursor % n;
        let q = cursor / n;
        lemma_fundamental_div_mod(cursor, n);
        let i = if m >= r { m - r } else { m + n - r };
        lemma_round_robin_run_index(cursor, n, n as nat, i);
        if m >= r {
            assert(cursor + i == n * q + m);
        } else {
            assert(cursor + i == n * (q + 1) + m) by (nonlinear_arith)
                requires
                    cursor == n * q + r,
                    i == m + n - r,
            ;
        }
        lemma_mod_multiples_vanish(if m >= r { q } else { q + 1 }, m, n);
        lemma_small_mod(m as nat, n as nat);
        assert(s[i] == m);
    }
}

/// Random and hash selection: the member at `draw mod n`.
pub fn index_from_draw(draw: u64, n: usize) -> (r: usize)
    requires
        n > 0,
    ensures
        r == draw as int % n as int,
        r < n,
{
    (draw % (n as u64)) as usize
}

/// Sticky selection: keeps the current member while it is present and has
/// failed fewer times than the threshold; otherwise picks afresh from `draw`.
pub fn sticky_pick(current: Option<usize>, failures: u32, threshold: u32, draw: u64, n: usize) -> (r:
    usize)
    requires
        n > 0,
    ensures
        r < n,
        (match current {
            Some(i) => i < n && failures < threshold,
            None => false,
        }) ==> Some(r) == current,
        !(match current {
            Some(i) => i < n && failures < threshold,
            None => false,
        }) ==> r == draw as int % n as int,
{
    match current {
        Some(i) => if i < n && failures < threshold {
            i
        } else {
            index_from_draw(draw, n)
        },
        None => index_from_draw(draw, n),
    }
}

pub open spec fn wrap_index(start: int, t: int, n: int) -> int {
    if start + t < n {
        start + t
    } else {
        start + t - n
    }
}

/// Local selection's choice `i` from `cursor`: the first member marked local in
/// the cyclic order that starts at `cursor mod n`; `cursor mod n` when none is.
pub open spec fn local_choice(cursor: int, is_local: Seq<bool>, i: int) -> bool {
    let n = is_local.len() as int;
    let start = cursor % n;
    if exists|j: int| 0 <= j < n && is_local[j] {
        exists|t: int|
            0 <= t < n && i == wrap_index(start, t, n) && is_local[i] && forall|u: int|
                0 <= u < t ==> !is_local[#[trigger] wrap_index(start, u, n)]
    } else {
        i == start
    }
}

/// Local selection: the first member whose connection is on this node, in
/// round-robin order from `cursor`; plain round robin when there is none.
pub fn local_pick(cursor: usize, is_local: &Vec<bool>) -> (r: (usize, usize))
    requires
        is_local@.len() > 0,
    ensures
        r.0 < is_local@.len(),
        r.1 == r.0 + 1,
        local_choice(cursor as int, is_local@, r.0 as int),
{
    let n = is_local.len();
    let start = cursor % n;
    let mut k: usize = 0;
    while k < n
        invariant
            n == is_local@.len(),
            start < n,
            start == cursor % n,
            k <= n,
            forall|t: int|
                0 <= t < k ==> !is_local@[#[trigger] wrap_index(start as int, t, n as int)],
        decreases n - k,
    {
        let idx = if k < n - start {
            start + k
        } else {
            k - (n - start)
        };
        assert(idx == wrap_index(start as int, k as int, n as int));
        if is_local[idx] {
            proof {
                assert(start as int == cursor as int % n as int);
                assert(0 <= k < n && idx == wrap_index(start as int, k as int, n as int));
                assert(0 <= idx < n && is_local@[idx as int]);
                assert(forall|u: int| 0 <= u < k ==> !is_local@[#[trigger] wrap_index(start as int, u, n as int)]);
                assert(local_choice(cursor as int, is_local@, idx as int));
            }
            return (idx, idx + 1);
        }
        k += 1;
    }
    proof {
        assert forall|j: int| 0 <= j < n implies !is_local@[j] by {
            let t = if j >= start { j - start } else { j + n - start };
            assert(0 <= t < n);
            assert(wrap_index(start as int, t, n as int) == j);
        }
        assert(start as int == cursor as int % n as int);
    }
    (start, start + 1)
}

pub const FNV_OFFSET: u64 = 0xcbf29ce484222325;

pub const FNV_PRIME: u64 = 0x100000001b3;

/// The 64-bit FNV-1a digest of a byte string.
pub open spec fn fnv1a(bytes: Seq<u8>) -> u64
    decreases bytes.len(),
{
    if bytes.len() == 0 {
        FNV_OFFSET
    } else {
        (fnv1a(bytes.drop_last()) ^ (bytes.last() as u64)).wrapping_mul(FNV_PRIME)
    }
}

/// The stable digest that hash selection uses: FNV-1a over the topic followed
/// by the message key.
pub fn share_digest(topic: &Vec<u8>, key: &Vec<u8>) -> (r: u64)
    ensures
        r == fnv1a(topic@ + key@),
{
    let mut h: u64 = FNV_OFFSET;
    let mut i: usize = 0;
    while i < topic.len()
        invariant
            i <= topic@.len(),
            h == fnv1a(topic@.subrange(0, i as int)),
        decreases topic@.len() - i,
    {
        assert(topic@.subrange(0, i + 1).drop_last() =~= topic@.subrange(0, i as int));
        h = (h ^ (topic[i] as u64)).wrapping_mul(FNV_PRIME);
        i += 1;
    }
    assert(topic@.subrange(0, topic@.len() as int) =~= topic@);
    let mut j: usize = 0;
    while j < key.len()
        invariant
            j <= key@.len(),
            h == fnv1a(topic@ + key@.subrange(0, j as int)),
        decreases key@.len() - j,
    {
        assert((topic@ + key@.subrange(0, j + 1)).drop_last() =~= topic@ + key@.subrange(
            0,
            j as int,
        ));
        assert((topic@ + key@.subrange(0, j + 1)).last() == key@[j as int]);
        h = (h ^ (key[j] as u64)).wrapping_mul(FNV_PRIME);
        j += 1;
    }
    assert(key@.subrange(0, key@.len() as int) =~= key@);
    h
}

} // verus!
