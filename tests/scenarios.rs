use single_flight::cache::{expensive, Claim, ResultMsg, SingleFlightCache, WorkPerformed};
use single_flight::dispatcher::{DispatchAction, DispatchEvent, Dispatcher, WorkMsg};

fn work(k: u8) -> DispatchEvent {
    DispatchEvent::Queue(WorkMsg::Work(k))
}

/// A job that finds its key free or cached, run to its end.
fn run_job(cache: &mut SingleFlightCache, key: u8) -> ResultMsg {
    let claim = cache.try_claim(key);
    match claim.answer(key) {
        Some(msg) => msg,
        None => {
            assert_eq!(claim, Claim::Claimed);
            cache.publish(key, Some(expensive(key)))
        }
    }
}

#[test]
fn scenario_two_keys() {
    let mut d = Dispatcher::new();
    let mut cache = SingleFlightCache::new();
    let mut out = Vec::new();
    assert_eq!(d.handle(work(1)), Ok(DispatchAction::Spawn(1)));
    assert_eq!(d.handle(work(2)), Ok(DispatchAction::Spawn(2)));
    assert_eq!(d.handle(DispatchEvent::Queue(WorkMsg::Exit)), Ok(DispatchAction::Wait));
    out.push(run_job(&mut cache, 1));
    assert_eq!(d.handle(DispatchEvent::PoolDone), Ok(DispatchAction::Wait));
    out.push(run_job(&mut cache, 2));
    assert_eq!(d.handle(DispatchEvent::PoolDone), Ok(DispatchAction::AllDone));
    out.push(ResultMsg::AllDone);
    assert_eq!(
        out,
        vec![
            ResultMsg::Completed(1, 101, WorkPerformed::New),
            ResultMsg::Completed(2, 102, WorkPerformed::New),
            ResultMsg::AllDone,
        ]
    );
}

#[test]
fn scenario_duplicate_key() {
    let mut d = Dispatcher::new();
    let mut cache = SingleFlightCache::new();
    let mut out = Vec::new();
    assert_eq!(d.handle(work(1)), Ok(DispatchAction::Spawn(1)));
    assert_eq!(d.handle(work(2)), Ok(DispatchAction::Spawn(2)));
    assert_eq!(d.handle(work(2)), Ok(DispatchAction::Spawn(2)));
    assert_eq!(d.handle(DispatchEvent::Queue(WorkMsg::Exit)), Ok(DispatchAction::Wait));
    // The two jobs for key 2 run at once: the second waits on the first.
    assert_eq!(cache.try_claim(2), Claim::Claimed);
    assert_eq!(cache.try_claim(2), Claim::Wait);
    out.push(run_job(&mut cache, 1));
    assert_eq!(d.handle(DispatchEvent::PoolDone), Ok(DispatchAction::Wait));
    assert_eq!(cache.try_claim(2), Claim::Wait);
    out.push(cache.publish(2, Some(expensive(2))));
    assert_eq!(d.handle(DispatchEvent::PoolDone), Ok(DispatchAction::Wait));
    out.push(run_job(&mut cache, 2));
    assert_eq!(d.handle(DispatchEvent::PoolDone), Ok(DispatchAction::AllDone));
    out.push(ResultMsg::AllDone);
    assert_eq!(out.len(), 4);
    assert_eq!(out[0], ResultMsg::Completed(1, 101, WorkPerformed::New));
    assert_eq!(out[1], ResultMsg::Completed(2, 102, WorkPerformed::New));
    assert_eq!(out[2], ResultMsg::Completed(2, 102, WorkPerformed::FromCache));
    assert_eq!(out[3], ResultMsg::AllDone);
}

#[test]
fn scenario_failure_then_retry() {
    let mut cache = SingleFlightCache::new();
    assert_eq!(cache.try_claim(5), Claim::Claimed);
    assert_eq!(cache.try_claim(5), Claim::Wait);
    assert_eq!(cache.publish(5, None), ResultMsg::Failed(5));
    assert_eq!(cache.cached(5), None);
    assert_eq!(cache.try_claim(5), Claim::Claimed);
    assert_eq!(cache.publish(5, Some(expensive(5))), ResultMsg::Completed(5, 105, WorkPerformed::New));
    assert_eq!(cache.try_claim(5), Claim::Cached(105));
}
