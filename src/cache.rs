use vstd::prelude::*;

use std::collections::HashMap;

verus! {

broadcast use vstd::std_specs::hash::group_hash_axioms;

/// The progress of one key: no computation in flight, or one is.
#[derive(Clone, Copy, Debug, PartialEq, Eq, Structural)]
pub enum CacheState {
    Ready,
    WorkInProgress,
}

/// Where a result came from.
#[derive(Clone, Copy, Debug, PartialEq, Eq, Structural)]
pub enum WorkPerformed {
    /// Read from the cache; somebody else computed it.
    FromCache,
    /// Computed by this request.
    New,
}

/// A message back to the caller.
#[derive(Clone, Copy, Debug, PartialEq, Eq, Structural)]
pub enum ResultMsg {
    /// The key, its value, and where the value came from.
    Completed(u8, u64, WorkPerformed),
    /// The computation for this key failed; a later request may retry it.
    Failed(u8),
    /// All work is done; nothing follows.
    AllDone,
}

/// What a request for a key must do next.
#[derive(Clone, Copy, Debug, PartialEq, Eq, Structural)]
pub enum Claim {
    /// The value is cached: use it.
    Cached(u64),
    /// Another request is computing the key: wait for its publication,
    /// then ask again.
    Wait,
    /// This request now owns the computation, and must publish its outcome.
    Claimed,
}

impl Claim {
    /// The reply that a request for `key` can send at once: the cached
    /// value, marked as read from the cache; none while it must wait or
    /// compute.
    pub fn answer(&self, key: u8) -> (r: Option<ResultMsg>)
        ensures
            r == (match *self {
                Claim::Cached(v) => Some(ResultMsg::Completed(key, v, WorkPerformed::FromCache)),
                _ => None,
            }),
    {
        match *self {
            Claim::Cached(v) => Some(ResultMsg::Completed(key, v, WorkPerformed::FromCache)),
            _ => None,
        }
    }
}

/// The cache's state as mathematics: the published values, and the
/// progress of every key that a request has ever claimed.
pub ghost struct CacheModel {
    pub values: Map<u8, u64>,
    pub progress: Map<u8, CacheState>,
}

pub open spec fn empty_model() -> CacheModel {
    CacheModel { values: Map::empty(), progress: Map::empty() }
}

/// Whether a computation for `k` is in flight.
pub open spec fn busy(m: CacheModel, k: u8) -> bool {
    m.progress.contains_key(k) && m.progress[k] == CacheState::WorkInProgress
}

/// A key being computed has no value yet.
pub open spec fn cache_wf(m: CacheModel) -> bool {
    forall|k: u8| #[trigger] busy(m, k) ==> !m.values.contains_key(k)
}

/// The answer to a request for `k`: the cached value if there is one; else
/// wait while another request computes it; else compute it.
pub open spec fn claim_outcome(m: CacheModel, k: u8) -> Claim {
    if m.values.contains_key(k) {
        Claim::Cached(m.values[k])
    } else if busy(m, k) {
        Claim::Wait
    } else {
        Claim::Claimed
    }
}

/// The state after a request for `k`: a claim marks the key in progress.
pub open spec fn after_claim(m: CacheModel, k: u8) -> CacheModel {
    if claim_outcome(m, k) == Claim::Claimed {
        CacheModel { progress: m.progress.insert(k, CacheState::WorkInProgress), ..m }
    } else {
        m
    }
}

/// The state after the owner of `k` publishes the outcome of its
/// computation: a value is stored, a failure stores nothing, and either way
/// the key is ready again.
pub open spec fn after_publish(m: CacheModel, k: u8, computed: Option<u64>) -> CacheModel {
    CacheModel {
        values: match computed {
            Some(v) => m.values.insert(k, v),
            None => m.values,
        },
        progress: m.progress.insert(k, CacheState::Ready),
    }
}

/// What the owner of a computation reports to its caller.
pub open spec fn publish_message(k: u8, computed: Option<u64>) -> ResultMsg {
    match computed {
        Some(v) => ResultMsg::Completed(k, v, WorkPerformed::New),
        None => ResultMsg::Failed(k),
    }
}

/// The work done for a key: its value is the key plus one hundred.
pub fn expensive(key: u8) -> (r: u64)
    ensures
        r == key + 100,
{
    key as u64 + 100
}

/// A cache of computed values with per-key progress, so that a key is
/// computed by one request at a time while the others wait and then reuse
/// its value. The embedding program keeps it behind one lock and wakes
/// waiters whenever a key is published.
pub struct SingleFlightCache {
    values: HashMap<u8, u64>,
    progress: HashMap<u8, CacheState>,
}

impl SingleFlightCache {
    pub closed spec fn model(&self) -> CacheModel {
        CacheModel { values: self.values@, progress: self.progress@ }
    }

    pub open spec fn wf(&self) -> bool {
        cache_wf(self.model())
    }

    pub fn new() -> (r: Self)
        ensures
            r.wf(),
            r.model() == empty_model(),
    {
        let r = SingleFlightCache { values: HashMap::new(), progress: HashMap::new() };
        assert(r.model().values =~= Map::empty());
        assert(r.model().progress =~= Map::empty());
        r
    }

    /// The published value of `key`, if any.
    pub fn cached(&self, key: u8) -> (r: Option<u64>)
        ensures
            r == (if self.model().values.contains_key(key) {
                Some(self.model().values[key])
            } else {
                None
            }),
    {
        match self.values.get(&key) {
            Some(v) => Some(*v),
            None => None,
        }
    }

    /// The progress of `key`; a key never claimed is ready.
    pub fn progress_of(&self, key: u8) -> (r: CacheState)
        ensures
            r == (if busy(self.model(), key) {
                CacheState::WorkInProgress
            } else {
                CacheState::Ready
            }),
    {
        match self.progress.get(&key) {
            Some(s) => *s,
            None => CacheState::Ready,
        }
    }

    /// Answers a request for `key`, and claims the computation when the key
    /// is neither cached nor in progress.
    pub fn try_claim(&mut self, key: u8) -> (r: Claim)
        requires
            old(self).wf(),
        ensures
            final(self).wf(),
            r == claim_outcome(old(self).model(), key),
            final(self).model() == after_claim(old(self).model(), key),
    {
        if let Some(v) = self.cached(key) {
            return Claim::Cached(v);
        }
        match self.progress_of(key) {
            CacheState::WorkInProgress => Claim::Wait,
            CacheState::Ready => {
                self.progress.insert(key, CacheState::WorkInProgress);
                proof {
                    let m = self.model();
                    assert forall|k: u8| #[trigger] busy(m, k) implies !m.values.contains_key(k) by {
                        if k != key {
                            assert(busy(old(self).model(), k));
                        }
                    }
                }
                Claim::Claimed
            },
        }
    }

    /// Publishes the outcome of the computation that the caller claimed for
    /// `key`: the value, or `None` where the computation failed. The key is
    /// ready again either way, so no waiter is left stuck.
    pub fn publish(&mut self, key: u8, computed: Option<u64>) -> (r: ResultMsg)
        requires
            old(self).wf(),
            busy(old(self).model(), key),
        ensures
            final(self).wf(),
            final(self).model() == after_publish(old(self).model(), key, computed),
            r == publish_message(key, computed),
    {
        let r = match computed {
            Some(v) => {
                self.values.insert(key, v);
                ResultMsg::Completed(key, v, WorkPerformed::New)
            },
            None => ResultMsg::Failed(key),
        };
        self.progress.insert(key, CacheState::Ready);
        proof {
            let m = self.model();
            assert forall|k: u8| #[trigger] busy(m, k) implies !m.values.contains_key(k) by {
                assert(k != key);
                assert(busy(old(self).model(), k));
            }
        }
        r
    }
}

} // verus!
