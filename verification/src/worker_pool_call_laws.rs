//! What a pool of workers does, told from the inputs and results of its functions alone.

use crate::worker_pool::{
    are_counts, is_made_from, is_reply, is_script_src, leads, script_text, text_or,
    PoolState, PoolView, Submission, WorkerPool,
};
use vstd::prelude::*;

verus! {

/// What a worker runs behind the preamble: it imports the script at `src`, loads the module with
/// the object of that name, and runs the jobs that it receives.
pub open spec fn bootstrap(src: Seq<char>, name: Seq<char>) -> Seq<char> {
    "\n            importScripts('"@ + src
        + "');\n            const FRB_ACTION_PANIC = 3;\n            onmessage = event => {\n                let init = "@
        + name
        + "(...event.data).catch(err => {\n                    setTimeout(() => { throw err })\n                    throw err\n                })\n                onmessage = async event => {\n                    await init\n                    const [payload, ...transfer] = event.data\n                    try {\n                        "@
        + name
        + ".receive_transfer_closure(payload, transfer)\n                    } catch (err) {\n                        if (transfer[0] && typeof transfer[0].postMessage === 'function') {\n                            // panic\n                            transfer[0].postMessage([FRB_ACTION_PANIC, err.toString()])\n                        }\n                        setTimeout(() => { throw err })\n                        postMessage(null)\n                        throw err\n                    }\n                }\n            }"@
}

/// The script of a worker is the preamble and the rest of the script behind it.
proof fn lemma_script_text(preamble: Seq<char>, src: Seq<char>, name: Seq<char>)
    ensures
        script_text(preamble, src, name) == preamble + bootstrap(src, name),
{
    assert(script_text(preamble, src, name) =~= preamble + bootstrap(src, name));
}

/// The script of a worker is the preamble, followed by what the script address and the module's
/// name give.
pub proof fn law_worker_runs_preamble_and_bootstrap<W, J>(
    pool: &WorkerPool<W, J>,
    script: String,
)
    requires
        call_ensures(WorkerPool::<W, J>::worker_script, (pool,), script),
    ensures
        script@ == pool.worker_js_preamble@ + bootstrap(
            pool.script_src@,
            pool.wasm_bindgen_name@,
        ),
{
    lemma_script_text(pool.worker_js_preamble@, pool.script_src@, pool.wasm_bindgen_name@);
}

/// Whatever the preamble, an empty one too, what follows it in a worker's script does not depend
/// on it and begins with the import of the script at the pool's address.
pub proof fn law_every_worker_imports_the_script<W, J, V, K>(
    pool: &WorkerPool<W, J>,
    other: &WorkerPool<V, K>,
    script: String,
    other_script: String,
)
    requires
        call_ensures(WorkerPool::<W, J>::worker_script, (pool,), script),
        call_ensures(WorkerPool::<V, K>::worker_script, (other,), other_script),
        pool.script_src@ == other.script_src@,
        pool.wasm_bindgen_name@ == other.wasm_bindgen_name@,
    ensures
        exists|rest: Seq<char>|
            script@ == #[trigger] (pool.worker_js_preamble@ + rest) && other_script@
                == other.worker_js_preamble@ + rest && ("\n            importScripts('"@
                + pool.script_src@ + "');"@).is_prefix_of(rest),
{
    law_worker_runs_preamble_and_bootstrap(pool, script);
    law_worker_runs_preamble_and_bootstrap(other, other_script);
    let src = pool.script_src@;
    let rest = bootstrap(src, pool.wasm_bindgen_name@);
    let import = "\n            importScripts('"@ + src + "');"@;
    reveal_strlit("');");
    reveal_strlit("');\n            const FRB_ACTION_PANIC = 3;\n            onmessage = event => {\n                let init = ");
    let head = "\n            importScripts('"@ + src;
    let init = "');\n            const FRB_ACTION_PANIC = 3;\n            onmessage = event => {\n                let init = "@;
    assert(init.take(3) =~= "');"@);
    assert(forall|i: int|
        head.len() <= i < head.len() + 3 ==> rest[i] == init[i - head.len()] && import[i]
            == "');"@[i - head.len()]);
    assert(forall|i: int| 0 <= i < 3 ==> init[i] == "');"@[i]);
    assert(import =~= rest.take(import.len() as int));
    assert(script@ == pool.worker_js_preamble@ + rest);
}

/// What can be said of the state of every pool: there is room for a worker, and for as many as
/// there are; the idle ones are among them, each once; and jobs wait only if there is no room
/// for another worker.
pub open spec fn is_sound<W, J>(pool: PoolView<W, J>) -> bool {
    &&& pool.max >= 1
    &&& pool.workers.len() <= pool.max
    &&& forall|i: int, j: int|
        #![trigger pool.idle[i], pool.idle[j]]
        0 <= i < j < pool.idle.len() ==> pool.idle[i] != pool.idle[j]
    &&& forall|i: int| 0 <= i < pool.idle.len() ==> #[trigger] pool.idle[i] < pool.workers.len()
    &&& pool.workers.len() < pool.max ==> pool.pending.len() == 0
}

/// The worker was spawned, and is at none of the positions of the idle ones.
pub open spec fn has_a_job<W, J>(pool: PoolView<W, J>, worker: usize) -> bool {
    &&& worker < pool.workers.len()
    &&& forall|i: int| 0 <= i < pool.idle.len() ==> #[trigger] pool.idle[i] != worker
}

/// The states that the functions of a pool ask for and keep are the sound ones, and the workers
/// that they ask for are those with a job.
pub proof fn law_pools_are_asked_to_be_sound<W, J>(pool: PoolView<W, J>, worker: usize)
    ensures
        pool.wf() <==> is_sound(pool),
        pool.is_busy(worker) <==> has_a_job(pool, worker),
{
    if is_sound(pool) {
        assert forall|i: int, j: int|
            0 <= i < pool.idle.len() && 0 <= j < pool.idle.len() && i
                != j implies pool.idle[i] != pool.idle[j] by {
            if i < j {
                assert(pool.idle[i] != pool.idle[j]);
            } else {
                assert(pool.idle[j] != pool.idle[i]);
            }
        }
    }
}

/// A job that is placed goes to the idle worker that is last in line; without one, to a worker
/// that is spawned for it with the pool's script, if there is room for it; and else to the end of
/// the queue. Nothing else about the pool changes, and an error while the worker is spawned is
/// returned and changes nothing.
pub proof fn law_job_is_placed<W, J, E, S>(
    job: J,
    spawn: S,
    outcome: Result<Submission<J>, E>,
) where S: FnOnce(&str) -> Result<W, E>
    ensures
        forall|pool: &mut WorkerPool<W, J>|
            #[trigger] call_ensures(
                WorkerPool::<W, J>::submit::<E, S>,
                (pool, job, spawn),
                outcome,
            ) ==> {
                let before = pool.state@;
                let after = final(pool).state@;
                &&& is_sound(after)
                &&& final(pool).script_src == pool.script_src
                &&& final(pool).worker_js_preamble == pool.worker_js_preamble
                &&& final(pool).wasm_bindgen_name == pool.wasm_bindgen_name
                &&& if before.idle.len() > 0 {
                    &&& outcome == Ok::<_, E>(
                        Submission::Dispatch { worker: before.idle.last(), job },
                    )
                    &&& after == (PoolView { idle: before.idle.drop_last(), ..before })
                } else if before.workers.len() < before.max {
                    exists|text: &str, spawned: Result<W, E>|
                        text@ == pool.worker_js_preamble@ + bootstrap(
                            pool.script_src@,
                            pool.wasm_bindgen_name@,
                        ) && #[trigger] call_ensures(spawn, (text,), spawned) && match spawned {
                            Ok(worker) => {
                                &&& outcome == Ok::<_, E>(
                                    Submission::Dispatch {
                                        worker: before.workers.len() as usize,
                                        job,
                                    },
                                )
                                &&& after == (PoolView {
                                    workers: before.workers.push(worker),
                                    ..before
                                })
                            },
                            Err(e) => outcome == Err::<Submission<J>, E>(e) && after == before,
                        }
                } else {
                    &&& outcome == Ok::<_, E>(Submission::<J>::Queued)
                    &&& after == (PoolView { pending: before.pending.push(job), ..before })
                }
            },
        forall|pool: &mut WorkerPool<W, J>|
            is_sound(pool.state@) && (pool.state@.idle.len() == 0 && pool.state@.workers.len()
                < pool.state@.max ==> forall|text: &str|
                text@ == pool.worker_js_preamble@ + bootstrap(
                    pool.script_src@,
                    pool.wasm_bindgen_name@,
                ) ==> #[trigger] call_requires(spawn, (text,))) ==> #[trigger] call_requires(
                WorkerPool::<W, J>::submit::<E, S>,
                (pool, job, spawn),
            ),
{
    assert forall|pre: Seq<char>, src: Seq<char>, name: Seq<char>| #[trigger]
        script_text(pre, src, name) == pre + bootstrap(src, name) by {
        lemma_script_text(pre, src, name);
    }
    assert forall|view: PoolView<W, J>| #[trigger] view.wf() <==> is_sound(view) by {
        law_pools_are_asked_to_be_sound(view, 0);
    }
}

/// A worker to which its job could not be sent is idle again, last in line. The outcome of the
/// sending is handed on.
pub proof fn law_failed_sending_gives_the_worker_back<W, J, E>(
    worker: usize,
    dispatched: Result<(), E>,
    outcome: Result<(), E>,
)
    ensures
        forall|pool: &mut WorkerPool<W, J>|
            #[trigger] call_ensures(
                WorkerPool::<W, J>::dispatch_to_worker::<E>,
                (pool, worker, dispatched),
                outcome,
            ) ==> {
                &&& outcome == dispatched
                &&& is_sound(final(pool).state@)
                &&& final(pool).script_src == pool.script_src
                &&& final(pool).worker_js_preamble == pool.worker_js_preamble
                &&& final(pool).wasm_bindgen_name == pool.wasm_bindgen_name
                &&& final(pool).state@ == if dispatched is Ok {
                    pool.state@
                } else {
                    PoolView { idle: pool.state@.idle.push(worker), ..pool.state@ }
                }
            },
        forall|pool: &mut WorkerPool<W, J>|
            is_sound(pool.state@) && has_a_job(pool.state@, worker) ==> #[trigger] call_requires(
                WorkerPool::<W, J>::dispatch_to_worker::<E>,
                (pool, worker, dispatched),
            ),
{
    assert forall|view: PoolView<W, J>, worker: usize| #[trigger] view.is_busy(worker)
        <==> has_a_job(view, worker) by {
        law_pools_are_asked_to_be_sound(view, worker);
    }
    assert forall|view: PoolView<W, J>| #[trigger] view.wf() <==> is_sound(view) by {
        law_pools_are_asked_to_be_sound(view, 0);
    }
}

/// A job that is handed to a pool is sent to the idle worker that is last in line, which is then
/// at work; without one, to a worker that is spawned for it with the pool's script, if there is
/// room for it; and else it waits behind the others. A worker to which it could not be sent is
/// idle. The outcome is that of the sending or the error of the spawning; waiting is no error.
pub proof fn law_job_is_executed<W, J, E, S, D>(
    job: J,
    spawn: S,
    dispatch: D,
    outcome: Result<(), E>,
) where S: FnOnce(&str) -> Result<W, E>, D: FnOnce(usize, &W, J) -> Result<(), E>
    ensures
        forall|pool: &mut WorkerPool<W, J>|
            #[trigger] call_ensures(
                WorkerPool::<W, J>::execute::<E, S, D>,
                (pool, job, spawn, dispatch),
                outcome,
            ) ==> {
                let before = pool.state@;
                let after = final(pool).state@;
                let number = before.workers.len() as usize;
                &&& is_sound(after)
                &&& final(pool).script_src == pool.script_src
                &&& final(pool).worker_js_preamble == pool.worker_js_preamble
                &&& final(pool).wasm_bindgen_name == pool.wasm_bindgen_name
                &&& if before.idle.len() > 0 {
                    let worker = before.idle.last();
                    &&& call_ensures(
                        dispatch,
                        (worker, &before.workers[worker as int], job),
                        outcome,
                    )
                    &&& after == if outcome is Ok {
                        PoolView { idle: before.idle.drop_last(), ..before }
                    } else {
                        before
                    }
                } else if before.workers.len() < before.max {
                    exists|text: &str, spawned: Result<W, E>|
                        text@ == pool.worker_js_preamble@ + bootstrap(
                            pool.script_src@,
                            pool.wasm_bindgen_name@,
                        ) && #[trigger] call_ensures(spawn, (text,), spawned) && match spawned {
                            Ok(worker) => {
                                &&& call_ensures(dispatch, (number, &worker, job), outcome)
                                &&& after == if outcome is Ok {
                                    PoolView { workers: before.workers.push(worker), ..before }
                                } else {
                                    PoolView {
                                        workers: before.workers.push(worker),
                                        idle: before.idle.push(number),
                                        ..before
                                    }
                                }
                            },
                            Err(e) => outcome == Err::<(), E>(e) && after == before,
                        }
                } else {
                    &&& outcome is Ok
                    &&& after == (PoolView { pending: before.pending.push(job), ..before })
                }
            },
        forall|pool: &mut WorkerPool<W, J>|
            is_sound(pool.state@) && (pool.state@.idle.len() > 0 ==> call_requires(
                dispatch,
                (
                    pool.state@.idle.last(),
                    &pool.state@.workers[pool.state@.idle.last() as int],
                    job,
                ),
            )) && (pool.state@.idle.len() == 0 && pool.state@.workers.len() < pool.state@.max ==> {
                &&& forall|text: &str|
                    text@ == pool.worker_js_preamble@ + bootstrap(
                        pool.script_src@,
                        pool.wasm_bindgen_name@,
                    ) ==> #[trigger] call_requires(spawn, (text,))
                &&& forall|text: &str, worker: W|
                    text@ == pool.worker_js_preamble@ + bootstrap(
                        pool.script_src@,
                        pool.wasm_bindgen_name@,
                    ) && #[trigger] call_ensures(spawn, (text,), Ok(worker)) ==> call_requires(
                        dispatch,
                        (pool.state@.workers.len() as usize, &worker, job),
                    )
            }) ==> #[trigger] call_requires(
                WorkerPool::<W, J>::execute::<E, S, D>,
                (pool, job, spawn, dispatch),
            ),
{
    assert forall|pre: Seq<char>, src: Seq<char>, name: Seq<char>| #[trigger]
        script_text(pre, src, name) == pre + bootstrap(src, name) by {
        lemma_script_text(pre, src, name);
    }
    assert forall|view: PoolView<W, J>| #[trigger] view.wf() <==> is_sound(view) by {
        law_pools_are_asked_to_be_sound(view, 0);
    }
}

/// A worker that is done gets the job that has waited longest, which then no longer waits; without
/// one it is idle, last in line.
pub proof fn law_done_worker_gets_the_longest_waiting_job<W, J>(worker: usize, next: Option<J>)
    ensures
        forall|state: &mut PoolState<W, J>|
            #[trigger] call_ensures(PoolState::<W, J>::done, (state, worker), next) ==> {
                &&& is_sound(final(state)@)
                &&& if state@.pending.len() > 0 {
                    &&& next == Some(state@.pending[0])
                    &&& final(state)@ == (PoolView {
                        pending: state@.pending.drop_first(),
                        ..state@
                    })
                } else {
                    &&& next is None
                    &&& final(state)@ == (PoolView { idle: state@.idle.push(worker), ..state@ })
                }
            },
        forall|state: &mut PoolState<W, J>|
            is_sound(state@) && has_a_job(state@, worker) ==> #[trigger] call_requires(
                PoolState::<W, J>::done,
                (state, worker),
            ),
{
    assert forall|view: PoolView<W, J>, worker: usize| #[trigger] view.is_busy(worker)
        <==> has_a_job(view, worker) by {
        law_pools_are_asked_to_be_sound(view, worker);
    }
    assert forall|view: PoolView<W, J>| #[trigger] view.wf() <==> is_sound(view) by {
        law_pools_are_asked_to_be_sound(view, 0);
    }
}

/// A worker to which the job that waited could not be sent is idle, last in line, and the error is
/// handed out; one to which it could be sent stays at work.
pub proof fn law_failed_next_job_gives_the_worker_back<W, J, E>(
    worker: usize,
    dispatched: Result<(), E>,
    failure: Option<E>,
)
    ensures
        forall|state: &mut PoolState<W, J>|
            #[trigger] call_ensures(
                PoolState::<W, J>::next_dispatched::<E>,
                (state, worker, dispatched),
                failure,
            ) ==> is_sound(final(state)@) && match dispatched {
                Ok(_) => failure is None && final(state)@ == state@,
                Err(e) => failure == Some(e) && final(state)@ == (PoolView {
                    idle: state@.idle.push(worker),
                    ..state@
                }),
            },
        forall|state: &mut PoolState<W, J>|
            is_sound(state@) && has_a_job(state@, worker) ==> #[trigger] call_requires(
                PoolState::<W, J>::next_dispatched::<E>,
                (state, worker, dispatched),
            ),
{
    assert forall|view: PoolView<W, J>, worker: usize| #[trigger] view.is_busy(worker)
        <==> has_a_job(view, worker) by {
        law_pools_are_asked_to_be_sound(view, worker);
    }
    assert forall|view: PoolView<W, J>| #[trigger] view.wf() <==> is_sound(view) by {
        law_pools_are_asked_to_be_sound(view, 0);
    }
}

/// A worker that is done is sent the job that has waited longest. If that fails the job is gone, the
/// worker is idle, and the error is handed out. Without a job the worker is idle.
pub proof fn law_done_worker_is_sent_its_next_job<W, J, E, D>(
    worker: usize,
    dispatch: D,
    failure: Option<E>,
) where D: FnOnce(usize, &W, J) -> Result<(), E>
    ensures
        forall|state: &mut PoolState<W, J>|
            #[trigger] call_ensures(
                PoolState::<W, J>::complete::<E, D>,
                (state, worker, dispatch),
                failure,
            ) ==> {
                &&& is_sound(final(state)@)
                &&& if state@.pending.len() > 0 {
                    exists|dispatched: Result<(), E>| #[trigger]
                        call_ensures(
                            dispatch,
                            (worker, &state@.workers[worker as int], state@.pending[0]),
                            dispatched,
                        ) && match dispatched {
                            Ok(_) => failure is None && final(state)@ == (PoolView {
                                pending: state@.pending.drop_first(),
                                ..state@
                            }),
                            Err(e) => failure == Some(e) && final(state)@ == (PoolView {
                                pending: state@.pending.drop_first(),
                                idle: state@.idle.push(worker),
                                ..state@
                            }),
                        }
                } else {
                    &&& failure is None
                    &&& final(state)@ == (PoolView { idle: state@.idle.push(worker), ..state@ })
                }
            },
        forall|state: &mut PoolState<W, J>|
            is_sound(state@) && has_a_job(state@, worker) && (state@.pending.len() > 0
                ==> call_requires(
                dispatch,
                (worker, &state@.workers[worker as int], state@.pending[0]),
            )) ==> #[trigger] call_requires(
                PoolState::<W, J>::complete::<E, D>,
                (state, worker, dispatch),
            ),
{
    assert forall|view: PoolView<W, J>, worker: usize| #[trigger] view.is_busy(worker)
        <==> has_a_job(view, worker) by {
        law_pools_are_asked_to_be_sound(view, worker);
    }
    assert forall|view: PoolView<W, J>| #[trigger] view.wf() <==> is_sound(view) by {
        law_pools_are_asked_to_be_sound(view, 0);
    }
}

/// A worker that is added before it is needed is idle, last in line. An error is handed back and
/// changes nothing.
pub proof fn law_added_worker_is_idle<W, J, E>(
    spawned: Result<W, E>,
    outcome: Result<(), E>,
)
    ensures
        forall|pool: &mut WorkerPool<W, J>|
            #[trigger] call_ensures(
                WorkerPool::<W, J>::add_idle_worker::<E>,
                (pool, spawned),
                outcome,
            ) ==> {
                &&& is_sound(final(pool).state@)
                &&& final(pool).script_src == pool.script_src
                &&& final(pool).worker_js_preamble == pool.worker_js_preamble
                &&& final(pool).wasm_bindgen_name == pool.wasm_bindgen_name
                &&& match spawned {
                    Ok(worker) => outcome is Ok && final(pool).state@ == (PoolView {
                        workers: pool.state@.workers.push(worker),
                        idle: pool.state@.idle.push(pool.state@.workers.len() as usize),
                        ..pool.state@
                    }),
                    Err(e) => outcome == Err::<(), E>(e) && final(pool).state@ == pool.state@,
                }
            },
        forall|pool: &mut WorkerPool<W, J>|
            is_sound(pool.state@) && pool.state@.workers.len() < pool.state@.max
                ==> #[trigger] call_requires(
                WorkerPool::<W, J>::add_idle_worker::<E>,
                (pool, spawned),
            ),
{
    assert forall|view: PoolView<W, J>| #[trigger] view.wf() <==> is_sound(view) by {
        law_pools_are_asked_to_be_sound(view, 0);
    }
}

/// The handle of a worker is the one that it was spawned with, and it is busy exactly if it was
/// spawned and is not idle.
pub proof fn law_workers_are_found_by_number<W, J>(
    state: &PoolState<W, J>,
    worker: usize,
    handle: &W,
    busy: bool,
)
    ensures
        call_ensures(PoolState::<W, J>::handle, (state, worker), handle) ==> *handle
            == state@.workers[worker as int],
        call_ensures(PoolState::<W, J>::is_busy, (state, worker), busy) ==> busy == has_a_job(
            state@,
            worker,
        ),
        worker < state@.workers.len() ==> call_requires(
            PoolState::<W, J>::handle,
            (state, worker),
        ),
        call_requires(PoolState::<W, J>::is_busy, (state, worker)),
{
    law_pools_are_asked_to_be_sound(state@, worker);
}

/// `i` is the position of one of `replies`.
pub open spec fn is_one_of<R>(i: int, replies: Seq<R>) -> bool {
    0 <= i < replies.len()
}

/// As many steps as there are `replies` go through `states`, from `first` to `last`.
pub open spec fn go_through<T, R>(states: Seq<T>, replies: Seq<R>, first: T, last: T) -> bool {
    &&& states.len() == replies.len() + 1
    &&& states[0] == first
    &&& states[replies.len() as int] == last
}

/// `outcome` is right if `replies` came back, in this order, when workers were asked for. A first
/// error is the last reply and is returned. Else there is a reply for each of the workers that
/// were asked for, up to the cap, which is at least one; the pool has these workers and no other,
/// all idle, the first of them first; no job waits; and its scripts are the given ones.
pub open spec fn comes_of<W, J, E>(
    outcome: Result<WorkerPool<W, J>, E>,
    replies: Seq<Result<W, E>>,
    initial: usize,
    max_workers: usize,
    src: Seq<char>,
    preamble: Seq<char>,
    name: Seq<char>,
) -> bool {
    let cap: usize = if max_workers == 0 {
        1
    } else {
        max_workers
    };
    let count: usize = if initial <= cap {
        initial
    } else {
        cap
    };
    match outcome {
        Ok(pool) => {
            let view = pool.state@;
            &&& is_sound(view)
            &&& replies.len() == count
            &&& view.workers.len() == count
            &&& forall|i: int|
                0 <= i < count ==> #[trigger] replies[i] == Ok::<W, E>(view.workers[i])
            &&& view.idle.len() == count
            &&& forall|i: int| 0 <= i < count ==> #[trigger] view.idle[i] == i
            &&& view.pending.len() == 0
            &&& view.max == cap
            &&& pool.script_src@ == src
            &&& pool.worker_js_preamble@ == preamble
            &&& pool.wasm_bindgen_name@ == name
        },
        Err(e) => {
            &&& 1 <= replies.len() <= count
            &&& replies[replies.len() - 1] == Err::<W, E>(e)
            &&& forall|i: int| 0 <= i < replies.len() - 1 ==> #[trigger] replies[i] is Ok
        },
    }
}

/// The text that is given, and else the default.
pub open spec fn default_text(given: Option<String>, default: Seq<char>) -> Seq<char> {
    match given {
        Some(text) => text@,
        None => default,
    }
}

/// `src` is the address that is given, and else the one that `script_path` found.
pub open spec fn is_address<P: FnOnce() -> String>(
    given: Option<String>,
    script_path: P,
    src: Seq<char>,
) -> bool {
    match given {
        Some(text) => src == text@,
        None => exists|found: String| #[trigger]
            call_ensures(script_path, (), found) && found@ == src,
    }
}

/// A number that is given and not zero is the number of workers to begin with and the cap. For
/// zero there is none to begin with, and the cap is what the hardware runs at once. If no number
/// is given, both are.
pub open spec fn are_sizes<H: Fn() -> usize>(
    given: Option<usize>,
    hardware_concurrency: H,
    initial: usize,
    max: usize,
) -> bool {
    if given is None {
        initial == max && call_ensures(hardware_concurrency, (), max)
    } else if given == Some(0usize) {
        initial == 0 && call_ensures(hardware_concurrency, (), max)
    } else {
        given == Some(initial) && initial == max
    }
}

proof fn lemma_making<W, J, T, E>()
    ensures
        forall|pre: Seq<char>, src: Seq<char>, name: Seq<char>| #[trigger]
            script_text(pre, src, name) == pre + bootstrap(src, name),
        forall|states: Seq<T>, replies: Seq<Result<W, E>>, first: T, last: T| #[trigger]
            leads(states, replies, first, last) ==> go_through(states, replies, first, last),
        forall|i: int, replies: Seq<Result<W, E>>| #[trigger]
            is_one_of(i, replies) ==> is_reply(replies, i),
        forall|
            outcome: Result<WorkerPool<W, J>, E>,
            replies: Seq<Result<W, E>>,
            initial: usize,
            max: usize,
            src: Seq<char>,
            pre: Seq<char>,
            name: Seq<char>,
        | #[trigger]
            is_made_from(outcome, replies, initial, max, src, pre, name) ==> comes_of(
                outcome,
                replies,
                initial,
                max,
                src,
                pre,
                name,
            ),
        forall|given: Option<String>, default: Seq<char>| #[trigger]
            text_or(given, default) == default_text(given, default),
{
    assert forall|pre: Seq<char>, src: Seq<char>, name: Seq<char>| #[trigger]
        script_text(pre, src, name) == pre + bootstrap(src, name) by {
        lemma_script_text(pre, src, name);
    }
    assert forall|
        outcome: Result<WorkerPool<W, J>, E>,
        replies: Seq<Result<W, E>>,
        initial: usize,
        max: usize,
        src: Seq<char>,
        pre: Seq<char>,
        name: Seq<char>,
    | #[trigger]
        is_made_from(outcome, replies, initial, max, src, pre, name) implies comes_of(
        outcome,
        replies,
        initial,
        max,
        src,
        pre,
        name,
    ) by {
        if let Ok(pool) = outcome {
            law_pools_are_asked_to_be_sound(pool.state@, 0);
        }
    }
}

/// A pool is made by asking `spawn` for its first workers, one after the other, each with the
/// pool's script and the state of `spawner` that the one before left, and never again after an
/// error; what comes of it is right for the replies.
pub proof fn law_raw_pool_comes_of_its_replies<W, J, E, T, S>(
    initial: usize,
    max_workers: usize,
    script_src: String,
    worker_js_preamble: String,
    wasm_bindgen_name: String,
    spawn: S,
    outcome: Result<WorkerPool<W, J>, E>,
) where S: Fn(&mut T, &str) -> Result<W, E>
    ensures
        forall|spawner: &mut T|
            #[trigger] call_ensures(
                WorkerPool::<W, J>::new_raw_with_max::<E, T, S>,
                (
                    initial,
                    max_workers,
                    script_src,
                    worker_js_preamble,
                    wasm_bindgen_name,
                    spawner,
                    spawn,
                ),
                outcome,
            ) ==> exists|states: Seq<T>, replies: Seq<Result<W, E>>| #[trigger]
                go_through(states, replies, *spawner, *final(spawner)) && comes_of(
                    outcome,
                    replies,
                    initial,
                    max_workers,
                    script_src@,
                    worker_js_preamble@,
                    wasm_bindgen_name@,
                ) && forall|i: int|
                    #[trigger] is_one_of(i, replies) ==> exists|asked: &mut T, text: &str|
                        *asked == states[i] && text@ == worker_js_preamble@ + bootstrap(
                            script_src@,
                            wasm_bindgen_name@,
                        ) && #[trigger] call_ensures(spawn, (asked, text), replies[i])
                            && *final(asked) == states[i + 1],
        forall|spawner: &mut T|
            (initial > 0 ==> forall|asked: &mut T, text: &str|
                text@ == worker_js_preamble@ + bootstrap(
                    script_src@,
                    wasm_bindgen_name@,
                ) ==> #[trigger] call_requires(spawn, (asked, text))) ==> #[trigger] call_requires(
                WorkerPool::<W, J>::new_raw_with_max::<E, T, S>,
                (
                    initial,
                    max_workers,
                    script_src,
                    worker_js_preamble,
                    wasm_bindgen_name,
                    spawner,
                    spawn,
                ),
            ),
{
    lemma_making::<W, J, T, E>();
}

/// Like a pool whose cap is given, one that is given a number of workers comes of its replies, with
/// the cap that the number and the hardware give.
pub proof fn law_raw_pool_of_a_number_comes_of_its_replies<W, J, E, H, T, S>(
    initial: usize,
    script_src: String,
    worker_js_preamble: String,
    wasm_bindgen_name: String,
    hardware_concurrency: H,
    spawn: S,
    outcome: Result<WorkerPool<W, J>, E>,
) where H: Fn() -> usize, S: Fn(&mut T, &str) -> Result<W, E>
    ensures
        forall|spawner: &mut T|
            #[trigger] call_ensures(
                WorkerPool::<W, J>::new_raw::<E, H, T, S>,
                (
                    initial,
                    script_src,
                    worker_js_preamble,
                    wasm_bindgen_name,
                    hardware_concurrency,
                    spawner,
                    spawn,
                ),
                outcome,
            ) ==> exists|max: usize, states: Seq<T>, replies: Seq<Result<W, E>>| #[trigger]
                are_sizes(Some(initial), hardware_concurrency, initial, max)
                    && #[trigger] go_through(states, replies, *spawner, *final(spawner))
                    && comes_of(
                    outcome,
                    replies,
                    initial,
                    max,
                    script_src@,
                    worker_js_preamble@,
                    wasm_bindgen_name@,
                ) && forall|i: int|
                    #[trigger] is_one_of(i, replies) ==> exists|asked: &mut T, text: &str|
                        *asked == states[i] && text@ == worker_js_preamble@ + bootstrap(
                            script_src@,
                            wasm_bindgen_name@,
                        ) && #[trigger] call_ensures(spawn, (asked, text), replies[i])
                            && *final(asked) == states[i + 1],
        forall|spawner: &mut T|
            (initial == 0 ==> call_requires(hardware_concurrency, ())) && (initial > 0 ==> forall|asked: &mut T, text: &str|
                text@ == worker_js_preamble@ + bootstrap(
                    script_src@,
                    wasm_bindgen_name@,
                ) ==> #[trigger] call_requires(spawn, (asked, text))) ==> #[trigger] call_requires(
                WorkerPool::<W, J>::new_raw::<E, H, T, S>,
                (
                    initial,
                    script_src,
                    worker_js_preamble,
                    wasm_bindgen_name,
                    hardware_concurrency,
                    spawner,
                    spawn,
                ),
            ),
{
    lemma_making::<W, J, T, E>();
    assert forall|given: Option<usize>, initial: usize, max: usize| #[trigger]
        are_counts(given, hardware_concurrency, initial, max) implies are_sizes(
        given,
        hardware_concurrency,
        initial,
        max,
    ) by {
    }
}

/// A pool with defaults comes of its replies, with an empty preamble, the module name
/// `wasm_bindgen` and the address that `script_path` finds where none is given.
pub proof fn law_pool_with_defaults_comes_of_its_replies<W, J, E, P, T, S>(
    initial: usize,
    max_workers: usize,
    script_src: Option<String>,
    worker_js_preamble: Option<String>,
    wasm_bindgen_name: Option<String>,
    script_path: P,
    spawn: S,
    outcome: Result<WorkerPool<W, J>, E>,
) where P: FnOnce() -> String, S: Fn(&mut T, &str) -> Result<W, E>
    ensures
        forall|spawner: &mut T|
            #[trigger] call_ensures(
                WorkerPool::<W, J>::new_with_max::<E, P, T, S>,
                (
                    initial,
                    max_workers,
                    script_src,
                    worker_js_preamble,
                    wasm_bindgen_name,
                    script_path,
                    spawner,
                    spawn,
                ),
                outcome,
            ) ==> exists|src: Seq<char>, states: Seq<T>, replies: Seq<Result<W, E>>| #[trigger]
                is_address(script_src, script_path, src) && #[trigger] go_through(
                    states,
                    replies,
                    *spawner,
                    *final(spawner),
                ) && comes_of(
                    outcome,
                    replies,
                    initial,
                    max_workers,
                    src,
                    default_text(worker_js_preamble, seq![]),
                    default_text(wasm_bindgen_name, "wasm_bindgen"@),
                ) && forall|i: int|
                    #[trigger] is_one_of(i, replies) ==> exists|asked: &mut T, text: &str|
                        *asked == states[i] && text@ == default_text(worker_js_preamble, seq![]) + bootstrap(
                            src,
                            default_text(wasm_bindgen_name, "wasm_bindgen"@),
                        ) && #[trigger] call_ensures(spawn, (asked, text), replies[i])
                            && *final(asked) == states[i + 1],
        forall|spawner: &mut T|
            (script_src is None ==> call_requires(script_path, ())) && (initial > 0 ==> forall|
                src: Seq<char>,
            | #[trigger]
                is_address(script_src, script_path, src) ==> forall|asked: &mut T, text: &str|
                text@ == default_text(worker_js_preamble, seq![]) + bootstrap(
                    src,
                    default_text(wasm_bindgen_name, "wasm_bindgen"@),
                ) ==> #[trigger] call_requires(spawn, (asked, text))) ==> #[trigger] call_requires(
                WorkerPool::<W, J>::new_with_max::<E, P, T, S>,
                (
                    initial,
                    max_workers,
                    script_src,
                    worker_js_preamble,
                    wasm_bindgen_name,
                    script_path,
                    spawner,
                    spawn,
                ),
            ),
{
    lemma_making::<W, J, T, E>();
    assert forall|src: Seq<char>| #[trigger]
        is_script_src(script_src, script_path, src) implies is_address(
        script_src,
        script_path,
        src,
    ) by {
    }
}

/// A pool with defaults that is given a number of workers, or none, comes of its replies, with the
/// sizes that the number and the hardware give.
pub proof fn law_pool_of_a_number_comes_of_its_replies<W, J, E, H, P, T, S>(
    initial: Option<usize>,
    script_src: Option<String>,
    worker_js_preamble: Option<String>,
    wasm_bindgen_name: Option<String>,
    hardware_concurrency: H,
    script_path: P,
    spawn: S,
    outcome: Result<WorkerPool<W, J>, E>,
) where
    H: Fn() -> usize,
    P: FnOnce() -> String,
    S: Fn(&mut T, &str) -> Result<W, E>,

    ensures
        forall|spawner: &mut T|
            #[trigger] call_ensures(
                WorkerPool::<W, J>::new::<E, H, P, T, S>,
                (
                    initial,
                    script_src,
                    worker_js_preamble,
                    wasm_bindgen_name,
                    hardware_concurrency,
                    script_path,
                    spawner,
                    spawn,
                ),
                outcome,
            ) ==> exists|
                first: usize,
                max: usize,
                src: Seq<char>,
                states: Seq<T>,
                replies: Seq<Result<W, E>>,
            |
                #[trigger] are_sizes(initial, hardware_concurrency, first, max)
                    && #[trigger] is_address(script_src, script_path, src)
                    && #[trigger] go_through(states, replies, *spawner, *final(spawner))
                    && comes_of(
                    outcome,
                    replies,
                    first,
                    max,
                    src,
                    default_text(worker_js_preamble, seq![]),
                    default_text(wasm_bindgen_name, "wasm_bindgen"@),
                ) && forall|i: int|
                    #[trigger] is_one_of(i, replies) ==> exists|asked: &mut T, text: &str|
                        *asked == states[i] && text@ == default_text(worker_js_preamble, seq![]) + bootstrap(
                            src,
                            default_text(wasm_bindgen_name, "wasm_bindgen"@),
                        ) && #[trigger] call_ensures(spawn, (asked, text), replies[i])
                            && *final(asked) == states[i + 1],
        forall|spawner: &mut T|
            (initial is None || initial == Some(0usize) ==> call_requires(
                hardware_concurrency,
                (),
            )) && (initial is None ==> forall|n: usize| #[trigger]
                call_ensures(hardware_concurrency, (), n) ==> n >= 1) && (script_src is None
                ==> call_requires(script_path, ())) && (initial != Some(0usize) ==> forall|
                src: Seq<char>,
            | #[trigger]
                is_address(script_src, script_path, src) ==> forall|asked: &mut T, text: &str|
                text@ == default_text(worker_js_preamble, seq![]) + bootstrap(
                    src,
                    default_text(wasm_bindgen_name, "wasm_bindgen"@),
                ) ==> #[trigger] call_requires(spawn, (asked, text))) ==> #[trigger] call_requires(
                WorkerPool::<W, J>::new::<E, H, P, T, S>,
                (
                    initial,
                    script_src,
                    worker_js_preamble,
                    wasm_bindgen_name,
                    hardware_concurrency,
                    script_path,
                    spawner,
                    spawn,
                ),
            ),
{
    lemma_making::<W, J, T, E>();
    assert forall|src: Seq<char>| #[trigger]
        is_script_src(script_src, script_path, src) implies is_address(
        script_src,
        script_path,
        src,
    ) by {
    }
    assert forall|given: Option<usize>, initial: usize, max: usize| #[trigger]
        are_counts(given, hardware_concurrency, initial, max) implies are_sizes(
        given,
        hardware_concurrency,
        initial,
        max,
    ) by {
    }
}

} // verus!
