//! What holds of a pool of workers over any course of events.

use crate::worker_pool::{is_made_from, Placement, PoolView, WorkerPool};
use vstd::prelude::*;

verus! {

/// Something that happens to a pool, with how the outside work that it calls for goes. It is
/// over before the next event: a job that is being sent hands no other job to the pool. For
/// jobs that do, see [`PoolStep`].
pub enum PoolEvent<W, J> {
    /// A job is handed to the pool. `spawned` is the worker that could be spawned, if one is
    /// needed, and `dispatched` tells whether the job could be sent to its worker.
    Execute { job: J, spawned: Option<W>, dispatched: bool },
    /// A busy worker is done. `dispatched` tells whether its next job could be sent to it, if
    /// there is one.
    Complete { worker: usize, dispatched: bool },
}

/// A pool, and what became of the jobs that were handed to it, each list in the order of the
/// events.
pub struct PoolHistory<W, J> {
    pub pool: PoolView<W, J>,
    /// The jobs that the pool took: sent to a worker or queued.
    pub accepted: Seq<J>,
    /// The jobs that were sent to a worker.
    pub started: Seq<J>,
    /// The jobs that were handed back with an error.
    pub refused: Seq<J>,
    /// The jobs that waited and could then not be sent to the worker that was free.
    pub lost: Seq<J>,
    /// The jobs that were queued.
    pub queued: Seq<J>,
    /// The jobs that were taken off the queue, started or lost.
    pub dequeued: Seq<J>,
}

impl<W, J> PoolHistory<W, J> {
    /// The beginning, with this pool.
    pub open spec fn start(pool: PoolView<W, J>) -> PoolHistory<W, J> {
        PoolHistory {
            pool,
            accepted: seq![],
            started: seq![],
            refused: seq![],
            lost: seq![],
            queued: seq![],
            dequeued: seq![],
        }
    }

    /// The history with one more event. A worker that is not busy is not done with anything.
    pub open spec fn after(self, event: PoolEvent<W, J>) -> PoolHistory<W, J> {
        match event {
            PoolEvent::Execute { job, spawned, dispatched } => {
                let pool = self.pool.executed(job, spawned, dispatched);
                match self.pool.placement() {
                    Placement::Wait => PoolHistory {
                        pool,
                        accepted: self.accepted.push(job),
                        queued: self.queued.push(job),
                        ..self
                    },
                    placement => if dispatched && (spawned is Some || placement is Idle) {
                        PoolHistory {
                            pool,
                            accepted: self.accepted.push(job),
                            started: self.started.push(job),
                            ..self
                        }
                    } else {
                        PoolHistory { pool, refused: self.refused.push(job), ..self }
                    },
                }
            },
            PoolEvent::Complete { worker, dispatched } => if !self.pool.is_busy(worker) {
                self
            } else {
                let pool = self.pool.completed(worker, dispatched);
                match self.pool.next_job() {
                    None => PoolHistory { pool, ..self },
                    Some(job) => if dispatched {
                        PoolHistory {
                            pool,
                            started: self.started.push(job),
                            dequeued: self.dequeued.push(job),
                            ..self
                        }
                    } else {
                        PoolHistory {
                            pool,
                            lost: self.lost.push(job),
                            dequeued: self.dequeued.push(job),
                            ..self
                        }
                    },
                }
            },
        }
    }

    /// The history with all of `events`.
    pub open spec fn after_all(self, events: Seq<PoolEvent<W, J>>) -> PoolHistory<W, J>
        decreases events.len(),
    {
        if events.len() == 0 {
            self
        } else {
            self.after_all(events.drop_last()).after(events.last())
        }
    }
}

/// The jobs that `events` hand to the pool, in order.
pub open spec fn submitted<W, J>(events: Seq<PoolEvent<W, J>>) -> Seq<J>
    decreases events.len(),
{
    if events.len() == 0 {
        seq![]
    } else {
        let before = submitted(events.drop_last());
        match events.last() {
            PoolEvent::Execute { job, .. } => before.push(job),
            PoolEvent::Complete { .. } => before,
        }
    }
}

/// The number of workers that a pool may have fits in the numbers that workers go by.
pub open spec fn is_countable<W, J>(pool: PoolView<W, J>) -> bool {
    pool.max <= usize::MAX
}

/// There are no more idle workers than workers.
pub proof fn lemma_idle_are_live<W, J>(pool: PoolView<W, J>)
    requires
        pool.wf(),
    ensures
        pool.idle.len() <= pool.workers.len(),
{
    let numbers = pool.idle.map_values(|w: usize| w as int);
    assert(numbers.no_duplicates());
    numbers.unique_seq_to_set();
    let all = vstd::set_lib::set_int_range(0, pool.workers.len() as int);
    vstd::set_lib::lemma_int_range(0, pool.workers.len() as int);
    assert(numbers.to_set().subset_of(all)) by {
        assert forall|x: int| numbers.to_set().contains(x) implies all.contains(x) by {
            let i = choose|i: int| 0 <= i < numbers.len() && numbers[i] == x;
            assert(pool.idle[i] < pool.workers.len());
        }
    }
    vstd::set_lib::lemma_len_subset(numbers.to_set(), all);
}

/// One event keeps what holds of every state.
pub proof fn lemma_event_keeps_wf<W, J>(history: PoolHistory<W, J>, event: PoolEvent<W, J>)
    requires
        history.pool.wf(),
        is_countable(history.pool),
    ensures
        history.after(event).pool.wf(),
        history.after(event).pool.max == history.pool.max,
        history.pool.workers.is_prefix_of(history.after(event).pool.workers),
{
    let pool = history.pool;
    match event {
        PoolEvent::Execute { job, spawned, dispatched } => {
            if pool.idle.len() > 0 {
                let worker = pool.idle.last();
                let rest = pool.idle.drop_last();
                assert(!rest.contains(worker));
                assert(rest.push(worker) =~= pool.idle);
            } else if pool.workers.len() < pool.max {
                let worker = pool.workers.len() as usize;
                assert(!pool.idle.contains(worker));
            }
        },
        PoolEvent::Complete { worker, dispatched } => {},
    }
}

/// However many jobs come, no more workers are spawned than the cap allows, and none is given
/// up or replaced: the pool keeps what holds of every state.
pub proof fn law_cap_is_kept<W, J>(pool: PoolView<W, J>, events: Seq<PoolEvent<W, J>>)
    requires
        pool.wf(),
        is_countable(pool),
    ensures
        ({
            let after = PoolHistory::start(pool).after_all(events).pool;
            &&& after.wf()
            &&& after.max == pool.max
            &&& pool.workers.is_prefix_of(after.workers)
            &&& after.workers.len() <= pool.max
            &&& 0 <= after.busy() <= pool.max
        }),
    decreases events.len(),
{
    if events.len() > 0 {
        law_cap_is_kept(pool, events.drop_last());
        lemma_event_keeps_wf(
            PoolHistory::start(pool).after_all(events.drop_last()),
            events.last(),
        );
    }
    lemma_idle_are_live(PoolHistory::start(pool).after_all(events).pool);
}

/// Jobs that wait wait only while every worker has a job.
pub open spec fn is_settled<W, J>(pool: PoolView<W, J>) -> bool {
    pool.pending.len() > 0 ==> pool.idle.len() == 0
}

/// Jobs are first in, first out: those that were started and then those that wait are, in
/// that order, the jobs that the pool took, and none waits beside an idle worker. This holds
/// as long as no job that waited was lost.
pub proof fn law_first_in_first_out<W, J>(pool: PoolView<W, J>, events: Seq<PoolEvent<W, J>>)
    requires
        pool.wf(),
        is_countable(pool),
        pool.pending.len() == 0,
        PoolHistory::start(pool).after_all(events).lost.len() == 0,
    ensures
        ({
            let after = PoolHistory::start(pool).after_all(events);
            &&& after.started + after.pool.pending == after.accepted
            &&& is_settled(after.pool)
        }),
    decreases events.len(),
{
    let start = PoolHistory::start(pool);
    let after = start.after_all(events);
    if events.len() == 0 {
        assert(after.started + after.pool.pending =~= after.accepted);
    } else {
        let before = start.after_all(events.drop_last());
        assert(before.lost.len() == 0);
        law_first_in_first_out(pool, events.drop_last());
        law_cap_is_kept(pool, events.drop_last());
        match events.last() {
            PoolEvent::Execute { job, spawned, dispatched } => {
                if before.pool.idle.len() > 0 || before.pool.workers.len() < before.pool.max {
                    assert(before.pool.pending.len() == 0);
                    assert(before.pool.pending =~= seq![]);
                    assert(before.started =~= before.accepted);
                    assert(after.pool.pending =~= seq![]);
                    assert(after.started + after.pool.pending =~= after.started);
                } else {
                    assert(after.started + after.pool.pending =~= (before.started
                        + before.pool.pending).push(job));
                }
            },
            PoolEvent::Complete { worker, dispatched } => {
                if before.pool.is_busy(worker) && before.pool.pending.len() > 0 {
                    assert(dispatched);
                    assert(after.started + after.pool.pending =~= before.started
                        + before.pool.pending);
                } else if before.pool.is_busy(worker) {
                    assert(after.pool.pending =~= before.pool.pending);
                }
            },
        }
    }
}

/// No job is duplicated or forgotten: each job that was handed in was taken or refused, and
/// each that was taken was started, waits or was lost.
pub proof fn law_every_job_is_accounted_for<W, J>(pool: PoolView<W, J>, events: Seq<PoolEvent<W, J>>)
    requires
        pool.wf(),
        is_countable(pool),
        pool.pending.len() == 0,
    ensures
        ({
            let after = PoolHistory::start(pool).after_all(events);
            &&& submitted(events).to_multiset() == after.accepted.to_multiset().add(
                after.refused.to_multiset(),
            )
            &&& after.accepted.to_multiset() == after.started.to_multiset().add(
                after.pool.pending.to_multiset(),
            ).add(after.lost.to_multiset())
        }),
    decreases events.len(),
{
    broadcast use vstd::seq_lib::group_to_multiset_ensures;
    broadcast use vstd::multiset::group_multiset_axioms;

    let start = PoolHistory::start(pool);
    let after = start.after_all(events);
    if events.len() == 0 {
        assert(pool.pending =~= seq![]);
        assert(after.pool.pending.to_multiset() =~= vstd::multiset::Multiset::empty());
        assert(submitted(events).to_multiset() =~= after.accepted.to_multiset().add(
            after.refused.to_multiset(),
        ));
        assert(after.accepted.to_multiset() =~= after.started.to_multiset().add(
            after.pool.pending.to_multiset(),
        ).add(after.lost.to_multiset()));
    } else {
        let before = start.after_all(events.drop_last());
        law_every_job_is_accounted_for(pool, events.drop_last());
        match events.last() {
            PoolEvent::Execute { job, spawned, dispatched } => {
                assert(submitted(events).to_multiset() =~= after.accepted.to_multiset().add(
                    after.refused.to_multiset(),
                ));
                assert(after.accepted.to_multiset() =~= after.started.to_multiset().add(
                    after.pool.pending.to_multiset(),
                ).add(after.lost.to_multiset()));
            },
            PoolEvent::Complete { worker, dispatched } => {
                if before.pool.is_busy(worker) && before.pool.pending.len() > 0 {
                    let job = before.pool.pending[0];
                    let rest = before.pool.pending.drop_first();
                    assert(before.pool.pending =~= seq![job] + rest);
                    vstd::seq_lib::lemma_multiset_commutative(seq![job], rest);
                    assert(seq![job].to_multiset() =~= vstd::multiset::Multiset::singleton(
                        job,
                    )) by {
                        assert(seq![job] =~= Seq::<J>::empty().push(job));
                    }
                    assert(after.accepted.to_multiset() =~= after.started.to_multiset().add(
                        after.pool.pending.to_multiset(),
                    ).add(after.lost.to_multiset()));
                }
            },
        }
    }
}

/// Whatever fails, the queue is first in, first out: the jobs that were taken off it, started
/// or lost, and then those that wait are, in that order, the jobs that were queued.
pub proof fn law_queue_keeps_its_order<W, J>(pool: PoolView<W, J>, events: Seq<PoolEvent<W, J>>)
    requires
        pool.pending.len() == 0,
    ensures
        ({
            let after = PoolHistory::start(pool).after_all(events);
            after.dequeued + after.pool.pending == after.queued
        }),
    decreases events.len(),
{
    let start = PoolHistory::start(pool);
    let after = start.after_all(events);
    if events.len() > 0 {
        let before = start.after_all(events.drop_last());
        law_queue_keeps_its_order(pool, events.drop_last());
        match events.last() {
            PoolEvent::Execute { job, .. } => {
                if before.pool.placement() is Wait {
                    assert(after.dequeued + after.pool.pending =~= (before.dequeued
                        + before.pool.pending).push(job));
                } else {
                    assert(after.pool.pending == before.pool.pending);
                }
            },
            PoolEvent::Complete { worker, .. } => {
                assert(after.dequeued + after.pool.pending =~= before.dequeued
                    + before.pool.pending);
            },
        }
    } else {
        assert(after.dequeued + after.pool.pending =~= after.queued);
    }
}

/// A job that cannot be sent to the idle worker that it was given to leaves the pool as it
/// was, and so does one for which no worker can be spawned.
pub proof fn law_failure_keeps_the_pool<W, J>(pool: PoolView<W, J>, job: J)
    ensures
        pool.placement() is Idle ==> pool.executed(job, None, false) == pool,
        pool.placement() is New ==> pool.executed(job, None, false) == pool,
{
}

/// Workers are reused: a worker that is done while no job waits gets the next job, and no
/// worker is spawned for it.
pub proof fn law_workers_are_reused<W, J>(pool: PoolView<W, J>, worker: usize, job: J)
    requires
        pool.pending.len() == 0,
    ensures
        pool.completed(worker, true).placement() == (Placement::Idle { worker }),
        pool.completed(worker, true).executed(job, None, true) == pool,
{
    assert(pool.idle.push(worker).drop_last() =~= pool.idle);
}

/// A pool with a cap of one is a lane: it never has two jobs at work at once.
pub proof fn law_cap_of_one_is_a_lane<W, J>(pool: PoolView<W, J>, events: Seq<PoolEvent<W, J>>)
    requires
        pool.wf(),
        pool.max == 1,
    ensures
        PoolHistory::start(pool).after_all(events).pool.busy() <= 1,
{
    law_cap_is_kept(pool, events);
}

/// One step of what happens to a pool. Between placing a job and hearing that it could not be
/// sent, other steps may happen.
pub enum PoolStep<W, J> {
    /// A job is placed. `spawned` is the worker that could be spawned, if one is needed.
    Submit { job: J, spawned: Option<W> },
    /// A busy worker is done and gets its next job, if there is one.
    Done { worker: usize },
    /// A job could not be sent to its worker, which is idle again.
    Failed { worker: usize },
}

/// A pool, and what went through its queue.
pub struct QueueHistory<W, J> {
    pub pool: PoolView<W, J>,
    /// The jobs that were queued, in order.
    pub queued: Seq<J>,
    /// The jobs that were taken off the queue, in order.
    pub dequeued: Seq<J>,
}

impl<W, J> QueueHistory<W, J> {
    /// The beginning, with this pool.
    pub open spec fn start(pool: PoolView<W, J>) -> QueueHistory<W, J> {
        QueueHistory { pool, queued: seq![], dequeued: seq![] }
    }

    /// The history with one more step. A worker that is not busy is not done with anything,
    /// and no job is being sent to it.
    pub open spec fn after(self, step: PoolStep<W, J>) -> QueueHistory<W, J> {
        match step {
            PoolStep::Submit { job, spawned } => {
                let pool = self.pool.placed(job, spawned);
                if self.pool.placement() is Wait {
                    QueueHistory { pool, queued: self.queued.push(job), ..self }
                } else {
                    QueueHistory { pool, ..self }
                }
            },
            PoolStep::Done { worker } => if !self.pool.is_busy(worker) {
                self
            } else {
                let pool = self.pool.after_done(worker);
                match self.pool.next_job() {
                    Some(job) => QueueHistory { pool, dequeued: self.dequeued.push(job), ..self },
                    None => QueueHistory { pool, ..self },
                }
            },
            PoolStep::Failed { worker } => if !self.pool.is_busy(worker) {
                self
            } else {
                QueueHistory { pool: self.pool.after_push(worker), ..self }
            },
        }
    }

    /// The history with all of `steps`.
    pub open spec fn after_all(self, steps: Seq<PoolStep<W, J>>) -> QueueHistory<W, J>
        decreases steps.len(),
    {
        if steps.len() == 0 {
            self
        } else {
            self.after_all(steps.drop_last()).after(steps.last())
        }
    }
}

/// However the steps of several jobs mix, the cap is kept, no worker is given up or replaced,
/// and the queue is first in, first out.
pub proof fn law_mixed_steps_keep_cap_and_queue<W, J>(
    pool: PoolView<W, J>,
    steps: Seq<PoolStep<W, J>>,
)
    requires
        pool.wf(),
        is_countable(pool),
        pool.pending.len() == 0,
    ensures
        ({
            let after = QueueHistory::start(pool).after_all(steps);
            &&& after.pool.wf()
            &&& after.pool.max == pool.max
            &&& pool.workers.is_prefix_of(after.pool.workers)
            &&& 0 <= after.pool.busy() <= pool.max
            &&& after.dequeued + after.pool.pending == after.queued
        }),
    decreases steps.len(),
{
    let start = QueueHistory::start(pool);
    let after = start.after_all(steps);
    if steps.len() > 0 {
        let before = start.after_all(steps.drop_last());
        law_mixed_steps_keep_cap_and_queue(pool, steps.drop_last());
        match steps.last() {
            PoolStep::Submit { job, .. } => {
                if before.pool.placement() is Wait {
                    assert(after.dequeued + after.pool.pending =~= (before.dequeued
                        + before.pool.pending).push(job));
                }
            },
            _ => {
                assert(after.dequeued + after.pool.pending =~= before.dequeued
                    + before.pool.pending);
            },
        }
    } else {
        assert(after.dequeued + after.pool.pending =~= after.queued);
    }
    lemma_idle_are_live(after.pool);
}

/// A job that is handed to the pool in one go is placed and, if it cannot be sent, gives its
/// worker back; and a worker that is done in one go gets its next job and, if that cannot be
/// sent, is given back.
pub proof fn law_events_are_made_of_steps<W, J>(
    pool: PoolView<W, J>,
    job: J,
    spawned: Option<W>,
    worker: usize,
)
    ensures
        pool.executed(job, spawned, true) == pool.placed(job, spawned),
        pool.placement() matches Placement::Idle { worker } ==> pool.executed(job, spawned, false)
            == pool.placed(job, spawned).after_push(worker),
        pool.placement() is New && spawned is Some ==> pool.executed(job, spawned, false)
            == pool.placed(job, spawned).after_push(pool.workers.len() as usize),
        pool.completed(worker, true) == pool.after_done(worker),
        pool.next_job() is Some ==> pool.completed(worker, false) == pool.after_done(
            worker,
        ).after_push(worker),
{
    if pool.idle.len() > 0 {
        assert(pool.idle.drop_last().push(pool.idle.last()) =~= pool.idle);
    }
}

/// Any error that comes back while a pool's first workers are spawned is returned, and nothing
/// else keeps the pool from being made: there is a pool exactly if every reply is a worker, and
/// an error is the one error among the replies.
pub proof fn law_any_spawn_error_is_returned<W, J, E>(
    outcome: Result<WorkerPool<W, J>, E>,
    replies: Seq<Result<W, E>>,
    initial: usize,
    max_workers: usize,
    script_src: Seq<char>,
    worker_js_preamble: Seq<char>,
    wasm_bindgen_name: Seq<char>,
)
    requires
        is_made_from(
            outcome,
            replies,
            initial,
            max_workers,
            script_src,
            worker_js_preamble,
            wasm_bindgen_name,
        ),
    ensures
        outcome is Ok <==> forall|i: int| 0 <= i < replies.len() ==> #[trigger] replies[i] is Ok,
        forall|i: int|
            0 <= i < replies.len() ==> (#[trigger] replies[i] matches Err(e) ==> outcome == Err::<
                WorkerPool<W, J>,
                E,
            >(e)),
{
}

} // verus!
