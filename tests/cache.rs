use single_flight::cache::{expensive, CacheState, Claim, ResultMsg, SingleFlightCache, WorkPerformed};

#[test]
fn expensive_adds_one_hundred() {
    assert_eq!(expensive(0), 100);
    assert_eq!(expensive(1), 101);
    assert_eq!(expensive(255), 355);
}

#[test]
fn many_requests_compute_once() {
    let mut cache = SingleFlightCache::new();
    let mut claimed = 0;
    for _ in 0..10 {
        if cache.try_claim(3) == Claim::Claimed {
            claimed += 1;
        }
    }
    assert_eq!(claimed, 1);
    cache.publish(3, Some(103));
    let mut answers = Vec::new();
    for _ in 0..9 {
        let c = cache.try_claim(3);
        assert_eq!(c, Claim::Cached(103));
        answers.push(c.answer(3));
    }
    for a in answers {
        assert_eq!(a, Some(ResultMsg::Completed(3, 103, WorkPerformed::FromCache)));
    }
}

#[test]
fn other_keys_do_not_end_a_wait() {
    let mut cache = SingleFlightCache::new();
    assert_eq!(cache.try_claim(1), Claim::Claimed);
    assert_eq!(cache.try_claim(2), Claim::Claimed);
    assert_eq!(cache.try_claim(1), Claim::Wait);
    cache.publish(2, Some(102));
    assert_eq!(cache.try_claim(1), Claim::Wait);
    assert_eq!(cache.progress_of(1), CacheState::WorkInProgress);
    cache.publish(1, Some(101));
    assert_eq!(cache.progress_of(1), CacheState::Ready);
    assert_eq!(cache.try_claim(1), Claim::Cached(101));
    assert_eq!(cache.try_claim(2), Claim::Cached(102));
}

#[test]
fn fresh_cache_is_empty() {
    let cache = SingleFlightCache::new();
    assert_eq!(cache.cached(0), None);
    assert_eq!(cache.progress_of(0), CacheState::Ready);
}

#[test]
fn answer_only_for_cached() {
    assert_eq!(Claim::Wait.answer(1), None);
    assert_eq!(Claim::Claimed.answer(1), None);
    assert_eq!(Claim::Cached(7).answer(1), Some(ResultMsg::Completed(1, 7, WorkPerformed::FromCache)));
}
