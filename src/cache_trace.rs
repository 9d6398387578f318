use vstd::prelude::*;

use crate::cache::{
    after_claim, after_publish, busy, cache_wf, claim_outcome, empty_model, CacheModel, Claim,
};

verus! {

/// One step that some request takes against the shared cache.
pub enum CacheOp {
    /// A request for a key (`SingleFlightCache::try_claim`).
    Request(u8),
    /// The owner of a key's computation publishes its outcome
    /// (`SingleFlightCache::publish`).
    Publish(u8, Option<u64>),
}

pub open spec fn apply(m: CacheModel, op: CacheOp) -> CacheModel {
    match op {
        CacheOp::Request(k) => after_claim(m, k),
        CacheOp::Publish(k, c) => after_publish(m, k, c),
    }
}

/// A publication comes only from the owner of an in-flight computation.
pub open spec fn allowed(m: CacheModel, op: CacheOp) -> bool {
    match op {
        CacheOp::Request(_) => true,
        CacheOp::Publish(k, _) => busy(m, k),
    }
}

/// The state after an interleaving of steps.
pub open spec fn run_ops(m: CacheModel, ops: Seq<CacheOp>) -> CacheModel
    decreases ops.len(),
{
    if ops.len() == 0 {
        m
    } else {
        run_ops(apply(m, ops[0]), ops.drop_first())
    }
}

/// Every step of the interleaving is allowed where it is taken.
pub open spec fn valid_ops(m: CacheModel, ops: Seq<CacheOp>) -> bool
    decreases ops.len(),
{
    ops.len() == 0 || (allowed(m, ops[0]) && valid_ops(apply(m, ops[0]), ops.drop_first()))
}

/// How many requests for `k` claimed its computation.
pub open spec fn claims_of(m: CacheModel, ops: Seq<CacheOp>, k: u8) -> int
    decreases ops.len(),
{
    if ops.len() == 0 {
        0
    } else {
        (if ops[0] == CacheOp::Request(k) && claim_outcome(m, k) == Claim::Claimed {
            1int
        } else {
            0int
        }) + claims_of(apply(m, ops[0]), ops.drop_first(), k)
    }
}

/// How many computations of `k` were published as failed.
pub open spec fn failures_of(ops: Seq<CacheOp>, k: u8) -> int
    decreases ops.len(),
{
    if ops.len() == 0 {
        0
    } else {
        (if ops[0] == CacheOp::Publish(k, None) {
            1int
        } else {
            0int
        }) + failures_of(ops.drop_first(), k)
    }
}

/// Whether `k` has a value or a computation in flight.
pub open spec fn started(m: CacheModel, k: u8) -> bool {
    m.values.contains_key(k) || busy(m, k)
}

proof fn lemma_apply_wf(m: CacheModel, op: CacheOp)
    requires
        cache_wf(m),
        allowed(m, op),
    ensures
        cache_wf(apply(m, op)),
{
    let m2 = apply(m, op);
    assert forall|j: u8| #[trigger] busy(m2, j) implies !m2.values.contains_key(j) by {
        match op {
            CacheOp::Request(k) => {
                if j != k {
                    assert(busy(m, j));
                }
            },
            CacheOp::Publish(k, _) => {
                assert(busy(m, j));
            },
        }
    }
}

proof fn lemma_claims_balance(m: CacheModel, ops: Seq<CacheOp>, k: u8)
    requires
        cache_wf(m),
        valid_ops(m, ops),
    ensures
        claims_of(m, ops, k) == failures_of(ops, k) + (if started(run_ops(m, ops), k) {
            1int
        } else {
            0int
        }) - (if started(m, k) {
            1int
        } else {
            0int
        }),
    decreases ops.len(),
{
    if ops.len() > 0 {
        lemma_apply_wf(m, ops[0]);
        lemma_claims_balance(apply(m, ops[0]), ops.drop_first(), k);
        match ops[0] {
            CacheOp::Request(_) => {},
            CacheOp::Publish(j, c) => {
                if j == k {
                    assert(busy(m, k));
                }
            },
        }
    }
}

/// Single flight: over any interleaving of requests and publications that
/// starts from an empty cache, the number of requests for a key that claim
/// its computation is the number of its failed computations, plus one
/// exactly when the key ends up cached or in flight. So a key is computed
/// at most once more than it failed, and once only where nothing failed.
pub proof fn lemma_single_flight(ops: Seq<CacheOp>, k: u8)
    requires
        valid_ops(empty_model(), ops),
    ensures
        claims_of(empty_model(), ops, k) == failures_of(ops, k) + (if started(
            run_ops(empty_model(), ops),
            k,
        ) {
            1int
        } else {
            0int
        }),
        claims_of(empty_model(), ops, k) <= failures_of(ops, k) + 1,
        failures_of(ops, k) == 0 ==> claims_of(empty_model(), ops, k) <= 1,
{
    lemma_claims_balance(empty_model(), ops, k);
}

/// A published value is final: whatever requests and publications follow,
/// the key keeps that value, and every request for it is answered from the
/// cache with that value.
pub proof fn lemma_published_value_is_final(m: CacheModel, ops: Seq<CacheOp>, k: u8)
    requires
        cache_wf(m),
        valid_ops(m, ops),
        m.values.contains_key(k),
    ensures
        run_ops(m, ops).values.contains_key(k),
        run_ops(m, ops).values[k] == m.values[k],
        claim_outcome(run_ops(m, ops), k) == Claim::Cached(m.values[k]),
    decreases ops.len(),
{
    if ops.len() > 0 {
        lemma_apply_wf(m, ops[0]);
        if let CacheOp::Publish(j, _) = ops[0] {
            assert(busy(m, j));
        }
        lemma_published_value_is_final(apply(m, ops[0]), ops.drop_first(), k);
    }
}

/// Whether a step concerns key `k`.
pub open spec fn touches(op: CacheOp, k: u8) -> bool {
    match op {
        CacheOp::Request(j) => j == k,
        CacheOp::Publish(j, _) => j == k,
    }
}

/// No lost wakeups: a request that waits on `k` keeps waiting through any
/// number of steps on other keys (each wakeup they cause finds `k` still in
/// flight), and stops waiting as soon as the computation of `k` is
/// published, whether it succeeded or failed.
pub proof fn lemma_wait_ends_with_publication(
    m: CacheModel,
    ops: Seq<CacheOp>,
    k: u8,
    computed: Option<u64>,
)
    requires
        cache_wf(m),
        valid_ops(m, ops),
        claim_outcome(m, k) == Claim::Wait,
        forall|i: int| 0 <= i < ops.len() ==> !touches(#[trigger] ops[i], k),
    ensures
        cache_wf(run_ops(m, ops)),
        claim_outcome(run_ops(m, ops), k) == Claim::Wait,
        claim_outcome(after_publish(run_ops(m, ops), k, computed), k) != Claim::Wait,
    decreases ops.len(),
{
    if ops.len() > 0 {
        lemma_apply_wf(m, ops[0]);
        assert(!touches(ops[0], k));
        assert forall|i: int| 0 <= i < ops.drop_first().len() implies !touches(
            #[trigger] ops.drop_first()[i],
            k,
        ) by {
            assert(ops.drop_first()[i] == ops[i + 1]);
        }
        lemma_wait_ends_with_publication(apply(m, ops[0]), ops.drop_first(), k, computed);
    }
}

/// A failed computation does not poison its key: the next request for it
/// claims a fresh computation, and publishing that one's value makes it
/// cached.
pub proof fn lemma_failure_allows_retry(m: CacheModel, k: u8, v: u64)
    requires
        cache_wf(m),
        busy(m, k),
    ensures
        claim_outcome(after_publish(m, k, None), k) == Claim::Claimed,
        busy(after_claim(after_publish(m, k, None), k), k),
        claim_outcome(after_publish(after_claim(after_publish(m, k, None), k), k, Some(v)), k)
            == Claim::Cached(v),
{
}

} // verus!
