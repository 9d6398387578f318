use vstd::prelude::*;

use crate::worker_state::WorkerState;

verus! {

/// A control message on the work queue.
#[derive(Clone, Copy, Debug, PartialEq, Eq, Structural)]
pub enum WorkMsg {
    /// Compute (or fetch) the value of this key.
    Work(u8),
    /// No more work will follow.
    Exit,
}

/// What the dispatcher's loop wakes up on.
#[derive(Clone, Copy, Debug, PartialEq, Eq, Structural)]
pub enum DispatchEvent {
    /// A message arrived on the work queue.
    Queue(WorkMsg),
    /// Every sender of the work queue is gone: an implicit shutdown.
    QueueClosed,
    /// A pool job reported that it has finished.
    PoolDone,
}

/// What the dispatcher's loop does next.
#[derive(Clone, Copy, Debug, PartialEq, Eq, Structural)]
pub enum DispatchAction {
    /// Hand a job for this key to the pool.
    Spawn(u8),
    /// Nothing to announce; keep waiting for events.
    Wait,
    /// Announce that all work is done, then stop the loop.
    AllDone,
}

/// A broken protocol: the loop must stop loudly.
#[derive(Clone, Copy, Debug, PartialEq, Eq, Structural)]
pub enum DispatchError {
    /// The pool reported a finished job while none was outstanding.
    UnexpectedPoolResult,
    /// The outstanding-work counter is at its largest value.
    TooManyOutstanding,
}

/// The dispatcher's state as mathematics.
pub ghost struct DispatchModel {
    pub outstanding: int,
    pub shutdown: bool,
    pub finished: bool,
}

/// The state before any event.
pub open spec fn initial_model() -> DispatchModel {
    DispatchModel { outstanding: 0, shutdown: false, finished: false }
}

/// Whether an event asks for shutdown, explicitly or by a closed queue.
pub open spec fn is_shutdown(ev: DispatchEvent) -> bool {
    ev == DispatchEvent::Queue(WorkMsg::Exit) || ev == DispatchEvent::QueueClosed
}

/// One transition of the dispatcher: the next state and the outcome.
/// On an error the state is left as it was.
pub open spec fn step(m: DispatchModel, ev: DispatchEvent) -> (DispatchModel, Result<
    DispatchAction,
    DispatchError,
>) {
    match ev {
        DispatchEvent::Queue(WorkMsg::Work(k)) => {
            if m.outstanding >= i16::MAX {
                (m, Err(DispatchError::TooManyOutstanding))
            } else {
                (
                    DispatchModel { outstanding: m.outstanding + 1, ..m },
                    Ok(DispatchAction::Spawn(k)),
                )
            }
        },
        DispatchEvent::PoolDone => {
            if m.outstanding <= 0 {
                (m, Err(DispatchError::UnexpectedPoolResult))
            } else if m.outstanding == 1 && m.shutdown {
                (
                    DispatchModel { outstanding: 0, shutdown: true, finished: true },
                    Ok(DispatchAction::AllDone),
                )
            } else {
                (
                    DispatchModel { outstanding: m.outstanding - 1, ..m },
                    Ok(DispatchAction::Wait),
                )
            }
        },
        _ => {
            if m.outstanding == 0 {
                (
                    DispatchModel { outstanding: 0, shutdown: true, finished: true },
                    Ok(DispatchAction::AllDone),
                )
            } else {
                (DispatchModel { shutdown: true, ..m }, Ok(DispatchAction::Wait))
            }
        },
    }
}

/// The actions of a loop fed `evs` from state `m`: one per event, until the
/// loop stops (after announcing completion) or hits a protocol error.
pub open spec fn replay(m: DispatchModel, evs: Seq<DispatchEvent>) -> Seq<DispatchAction>
    decreases evs.len(),
{
    if evs.len() == 0 || m.finished {
        seq![]
    } else {
        match step(m, evs[0]).1 {
            Ok(a) => seq![a] + replay(step(m, evs[0]).0, evs.drop_first()),
            Err(_) => seq![],
        }
    }
}

/// How many jobs were handed to the pool.
pub open spec fn spawn_count(acts: Seq<DispatchAction>) -> int
    decreases acts.len(),
{
    if acts.len() == 0 {
        0
    } else {
        (if acts[0] is Spawn {
            1int
        } else {
            0int
        }) + spawn_count(acts.drop_first())
    }
}

/// How many finished jobs the pool reported.
pub open spec fn done_count(evs: Seq<DispatchEvent>) -> int
    decreases evs.len(),
{
    if evs.len() == 0 {
        0
    } else {
        (if evs[0] == DispatchEvent::PoolDone {
            1int
        } else {
            0int
        }) + done_count(evs.drop_first())
    }
}

/// Whether any of the events asks for shutdown.
pub open spec fn shutdown_seen(evs: Seq<DispatchEvent>) -> bool {
    exists|i: int| 0 <= i < evs.len() && is_shutdown(#[trigger] evs[i])
}

spec fn accounted(m: DispatchModel, evs: Seq<DispatchEvent>, i: int) -> bool {
    let acts = replay(m, evs);
    let left = m.outstanding + spawn_count(acts.take(i + 1)) - done_count(evs.take(i + 1));
    &&& left >= 0
    &&& (acts[i] == DispatchAction::AllDone <==> ((m.shutdown || shutdown_seen(evs.take(i + 1)))
        && left == 0))
    &&& (acts[i] == DispatchAction::AllDone ==> i == acts.len() - 1)
}

proof fn lemma_replay_accounting(m: DispatchModel, evs: Seq<DispatchEvent>)
    requires
        m.outstanding >= 0,
    ensures
        replay(m, evs).len() <= evs.len(),
        forall|i: int| 0 <= i < replay(m, evs).len() ==> #[trigger] accounted(m, evs, i),
    decreases evs.len(),
{
    if evs.len() == 0 || m.finished {
        return;
    }
    let (m2, r) = step(m, evs[0]);
    if r is Err {
        return;
    }
    let acts = replay(m, evs);
    let rest = replay(m2, evs.drop_first());
    lemma_replay_accounting(m2, evs.drop_first());
    assert forall|i: int| 0 <= i < acts.len() implies #[trigger] accounted(m, evs, i) by {
        assert(acts.take(i + 1).drop_first() =~= rest.take(i));
        assert(evs.take(i + 1).drop_first() =~= evs.drop_first().take(i));
        assert(acts.take(i + 1)[0] == acts[0]);
        assert(evs.take(i + 1)[0] == evs[0]);
        assert(shutdown_seen(evs.take(i + 1)) <==> (is_shutdown(evs[0]) || shutdown_seen(
            evs.drop_first().take(i),
        ))) by {
            if shutdown_seen(evs.take(i + 1)) {
                let j = choose|j: int|
                    0 <= j < i + 1 && is_shutdown(#[trigger] evs.take(i + 1)[j]);
                if j > 0 {
                    assert(evs.drop_first().take(i)[j - 1] == evs.take(i + 1)[j]);
                }
            }
            if shutdown_seen(evs.drop_first().take(i)) {
                let j = choose|j: int|
                    0 <= j < i && is_shutdown(#[trigger] evs.drop_first().take(i)[j]);
                assert(evs.take(i + 1)[j + 1] == evs.drop_first().take(i)[j]);
            }
            if is_shutdown(evs[0]) {
                assert(is_shutdown(evs.take(i + 1)[0]));
            }
        }
        if i > 0 {
            assert(acts[i] == rest[i - 1]);
            assert(accounted(m2, evs.drop_first(), i - 1));
        }
    }
}

/// Shutdown accounting over any run of the loop from its initial state.
/// At every step the completions reported never exceed the jobs handed out;
/// the loop announces completion exactly at the first step where shutdown
/// has been asked for and every job handed out has reported back (each job
/// sends its result before it reports), and nothing follows that
/// announcement, so it is made at most once.
pub proof fn lemma_all_done_once_after_all_work(evs: Seq<DispatchEvent>)
    ensures
        forall|i: int|
            0 <= i < replay(initial_model(), evs).len() ==> {
                &&& done_count(evs.take(i + 1)) <= spawn_count(
                    replay(initial_model(), evs).take(i + 1),
                )
                &&& (#[trigger] replay(initial_model(), evs)[i] == DispatchAction::AllDone <==> (
                shutdown_seen(evs.take(i + 1)) && done_count(evs.take(i + 1)) == spawn_count(
                    replay(initial_model(), evs).take(i + 1),
                )))
                &&& (replay(initial_model(), evs)[i] == DispatchAction::AllDone ==> i == replay(
                    initial_model(),
                    evs,
                ).len() - 1)
            },
{
    lemma_replay_accounting(initial_model(), evs);
    assert forall|i: int| 0 <= i < replay(initial_model(), evs).len() implies {
        &&& done_count(evs.take(i + 1)) <= spawn_count(replay(initial_model(), evs).take(i + 1))
        &&& (#[trigger] replay(initial_model(), evs)[i] == DispatchAction::AllDone <==> (
        shutdown_seen(evs.take(i + 1)) && done_count(evs.take(i + 1)) == spawn_count(
            replay(initial_model(), evs).take(i + 1),
        )))
        &&& (replay(initial_model(), evs)[i] == DispatchAction::AllDone ==> i == replay(
            initial_model(),
            evs,
        ).len() - 1)
    } by {
        assert(accounted(initial_model(), evs, i));
    }
}

/// The dispatcher's loop: owns the outstanding-work counter and the
/// shutdown flag, and decides when the terminal message may be sent.
pub struct Dispatcher {
    state: WorkerState,
    finished: bool,
}

impl Dispatcher {
    pub closed spec fn model(&self) -> DispatchModel {
        DispatchModel {
            outstanding: self.state.outstanding(),
            shutdown: self.state.shutting_down(),
            finished: self.finished,
        }
    }

    pub open spec fn wf(&self) -> bool {
        self.model().outstanding >= 0
    }

    pub fn new() -> (r: Self)
        ensures
            r.wf(),
            r.model() == initial_model(),
    {
        Dispatcher { state: WorkerState::init(), finished: false }
    }

    /// Whether the terminal message has been announced.
    pub fn is_finished(&self) -> (r: bool)
        ensures
            r == self.model().finished,
    {
        self.finished
    }

    /// How many jobs are out in the pool.
    pub fn outstanding(&self) -> (r: i16)
        ensures
            r as int == self.model().outstanding,
    {
        self.state.ongoing()
    }

    /// Handles one event of a loop that has not stopped yet.
    pub fn handle(&mut self, ev: DispatchEvent) -> (r: Result<DispatchAction, DispatchError>)
        requires
            old(self).wf(),
            !old(self).model().finished,
        ensures
            final(self).wf(),
            (final(self).model(), r) == step(old(self).model(), ev),
    {
        match ev {
            DispatchEvent::Queue(WorkMsg::Work(k)) => {
                if self.state.ongoing() == i16::MAX {
                    return Err(DispatchError::TooManyOutstanding);
                }
                self.state.set_ongoing(1);
                Ok(DispatchAction::Spawn(k))
            },
            DispatchEvent::PoolDone => {
                if self.state.is_no_more_work() {
                    return Err(DispatchError::UnexpectedPoolResult);
                }
                self.state.unset_ongoing(1);
                if self.state.is_no_more_work() && self.state.is_existing() {
                    self.finished = true;
                    Ok(DispatchAction::AllDone)
                } else {
                    Ok(DispatchAction::Wait)
                }
            },
            _ => {
                self.state.set_existing(true);
                if self.state.is_no_more_work() {
                    self.finished = true;
                    Ok(DispatchAction::AllDone)
                } else {
                    Ok(DispatchAction::Wait)
                }
            },
        }
    }
}

} // verus!
