//! Scheduling of a capped pool of web workers.
//!
//! The pool decides which worker a job goes to, when a worker is spawned and which
//! jobs wait. Whoever embeds it hands in how a worker is spawned and how a job is sent to
//! one, and tells the pool when a worker is done. The pool keeps a handle of type `W` to
//! each worker; workers go by their number, in the order in which they were spawned.
//!
//! A pool that begins with workers spawns them one after the other, each with the state of the
//! `spawner` that the one before left. So the contracts can say how often `spawn` is asked, and
//! that it is not asked again after an error.

use std::collections::VecDeque;
use vstd::prelude::*;

verus! {

/// Where a job goes that is handed to the pool.
pub enum Placement {
    /// To this idle worker.
    Idle { worker: usize },
    /// To a worker that is spawned for it.
    New,
    /// Nowhere, until a worker is done.
    Wait,
}

/// What becomes of a job that is handed to the pool.
#[derive(Debug, PartialEq, Eq)]
pub enum Submission<J> {
    /// The job is to be sent to this worker.
    Dispatch { worker: usize, job: J },
    /// The job waits until a worker is done.
    Queued,
}

/// The state of a pool.
pub struct PoolView<W, J> {
    /// The workers that were spawned, each at its number.
    pub workers: Seq<W>,
    /// The workers without a job, the one that gets the next job last.
    pub idle: Seq<usize>,
    /// The jobs that wait, the one that has waited longest first.
    pub pending: Seq<J>,
    /// How many workers may be spawned.
    pub max: nat,
}

impl<W, J> PoolView<W, J> {
    /// What holds of every state: the cap is at least one, and there are no more workers
    /// than it allows; the idle ones are among them, each listed once; and no job waits as
    /// long as another worker may be spawned.
    pub open spec fn wf(self) -> bool {
        &&& 1 <= self.max
        &&& self.workers.len() <= self.max
        &&& self.idle.no_duplicates()
        &&& forall|i: int|
            0 <= i < self.idle.len() ==> #[trigger] self.idle[i] < self.workers.len()
        &&& self.pending.len() > 0 ==> self.workers.len() == self.max
    }

    /// The worker was spawned and has a job.
    pub open spec fn is_busy(self, worker: usize) -> bool {
        worker < self.workers.len() && !self.idle.contains(worker)
    }

    /// How many workers have a job.
    pub open spec fn busy(self) -> int {
        self.workers.len() - self.idle.len()
    }

    /// Where a job goes: an idle worker gets it, else a new one if there may be one more,
    /// and else it waits.
    pub open spec fn placement(self) -> Placement {
        if self.idle.len() > 0 {
            Placement::Idle { worker: self.idle.last() }
        } else if self.workers.len() < self.max {
            Placement::New
        } else {
            Placement::Wait
        }
    }

    /// The pool with the next idle worker at work.
    pub open spec fn after_pop(self) -> PoolView<W, J> {
        PoolView { idle: self.idle.drop_last(), ..self }
    }

    /// The pool with one more worker, which is not idle.
    pub open spec fn after_spawn(self, worker: W) -> PoolView<W, J> {
        PoolView { workers: self.workers.push(worker), ..self }
    }

    /// The pool with a worker back among the idle ones.
    pub open spec fn after_push(self, worker: usize) -> PoolView<W, J> {
        PoolView { idle: self.idle.push(worker), ..self }
    }

    /// The pool with one more job that waits.
    pub open spec fn after_queue(self, job: J) -> PoolView<W, J> {
        PoolView { pending: self.pending.push(job), ..self }
    }

    /// The pool after a job was placed and before it is sent to its worker, if it has one.
    /// `spawned` is the worker that was spawned for it, if one was needed and could be.
    pub open spec fn placed(self, job: J, spawned: Option<W>) -> PoolView<W, J> {
        match self.placement() {
            Placement::Idle { .. } => self.after_pop(),
            Placement::New => match spawned {
                Some(worker) => self.after_spawn(worker),
                None => self,
            },
            Placement::Wait => self.after_queue(job),
        }
    }

    /// The pool after a job was handed to it. `spawned` is the worker that was spawned for
    /// it, if one was needed and could be, and `dispatched` tells whether the job could be
    /// sent to its worker. A worker that the job could not be sent to is idle.
    pub open spec fn executed(self, job: J, spawned: Option<W>, dispatched: bool) -> PoolView<
        W,
        J,
    > {
        match self.placement() {
            Placement::Idle { .. } => if dispatched {
                self.after_pop()
            } else {
                self
            },
            Placement::New => match spawned {
                Some(worker) => if dispatched {
                    self.after_spawn(worker)
                } else {
                    self.after_spawn(worker).after_push(self.workers.len() as usize)
                },
                None => self,
            },
            Placement::Wait => self.after_queue(job),
        }
    }

    /// The pool after a worker was done and before its next job, if there is one, was sent to
    /// it. Without one the worker is idle.
    pub open spec fn after_done(self, worker: usize) -> PoolView<W, J> {
        if self.pending.len() > 0 {
            PoolView { pending: self.pending.drop_first(), ..self }
        } else {
            self.after_push(worker)
        }
    }

    /// The pool after a worker was done: it gets the job that has waited longest, and
    /// without one it is idle. `dispatched` tells whether that job could be sent to it; if
    /// it could not, the job is gone and the worker is idle.
    pub open spec fn completed(self, worker: usize, dispatched: bool) -> PoolView<W, J> {
        if self.pending.len() > 0 && !dispatched {
            self.after_done(worker).after_push(worker)
        } else {
            self.after_done(worker)
        }
    }

    /// The job that a worker gets when it is done.
    pub open spec fn next_job(self) -> Option<J> {
        if self.pending.len() > 0 {
            Some(self.pending[0])
        } else {
            None
        }
    }
}

/// The workers and jobs of a pool.
#[derive(Debug)]
pub struct PoolState<W, J> {
    /// The workers spawned by this pool, idle and busy.
    handles: Vec<W>,
    /// Idle workers ready to accept a new job.
    workers: Vec<usize>,
    /// Jobs that wait, first in first out, once all workers are busy.
    pending: VecDeque<J>,
    /// Hard upper bound for the workers of this pool.
    max_workers: usize,
}

impl<W, J> View for PoolState<W, J> {
    type V = PoolView<W, J>;

    closed spec fn view(&self) -> PoolView<W, J> {
        PoolView {
            workers: self.handles@,
            idle: self.workers@,
            pending: self.pending@,
            max: self.max_workers as nat,
        }
    }
}

impl<W, J> PoolState<W, J> {
    /// A pool without workers that may have `max_workers` of them.
    fn new(max_workers: usize) -> (state: Self)
        requires
            max_workers >= 1,
        ensures
            state@.wf(),
            state@ == (PoolView::<W, J> {
                workers: seq![],
                idle: seq![],
                pending: seq![],
                max: max_workers as nat,
            }),
    {
        PoolState {
            handles: Vec::new(),
            workers: Vec::new(),
            pending: VecDeque::new(),
            max_workers,
        }
    }

    /// The worker of this number.
    pub fn handle(&self, worker: usize) -> (handle: &W)
        requires
            worker < self@.workers.len(),
        ensures
            *handle == self@.workers[worker as int],
    {
        &self.handles[worker]
    }

    /// Whether a worker was spawned and has a job.
    pub fn is_busy(&self, worker: usize) -> (busy: bool)
        ensures
            busy == self@.is_busy(worker),
    {
        let mut i: usize = 0;
        while i < self.workers.len()
            invariant
                i <= self.workers.len(),
                forall|k: int| 0 <= k < i ==> self@.idle[k] != worker,
            decreases self.workers.len() - i,
        {
            if self.workers[i] == worker {
                assert(self@.idle[i as int] == worker);
                return false;
            }
            i += 1;
        }
        worker < self.handles.len()
    }

    /// Takes back a worker that is without a job.
    fn push(&mut self, worker: usize)
        requires
            old(self)@.wf(),
            old(self)@.is_busy(worker),
        ensures
            final(self)@.wf(),
            final(self)@ == old(self)@.after_push(worker),
    {
        self.workers.push(worker);
    }

    /// A worker is done with its job. The result is its next job, to be sent to it, if there
    /// is one; else the worker is idle. How the sending went is for
    /// [`next_dispatched`](Self::next_dispatched).
    pub fn done(&mut self, worker: usize) -> (next: Option<J>)
        requires
            old(self)@.wf(),
            old(self)@.is_busy(worker),
        ensures
            final(self)@.wf(),
            final(self)@ == old(self)@.after_done(worker),
            next == old(self)@.next_job(),
            next is Some ==> final(self)@.is_busy(worker),
    {
        let next = self.pending.pop_front();
        if next.is_none() {
            self.push(worker);
        }
        next
    }

    /// Whether the job that waited could be sent to the worker that was done. If it could
    /// not, the worker is idle, and the result is the error, to be logged.
    pub fn next_dispatched<E>(&mut self, worker: usize, dispatched: Result<(), E>) -> (failure:
        Option<E>)
        requires
            old(self)@.wf(),
            old(self)@.is_busy(worker),
        ensures
            final(self)@.wf(),
            match dispatched {
                Ok(_) => failure is None && final(self)@ == old(self)@,
                Err(e) => failure == Some(e) && final(self)@ == old(self)@.after_push(worker),
            },
    {
        match dispatched {
            Ok(_) => None,
            Err(e) => {
                self.push(worker);
                Some(e)
            },
        }
    }

    /// A worker is done with its job. It is sent the job that has waited longest, and without
    /// one it is idle. The result is the error if that job could not be sent, to be logged.
    pub fn complete<E, D>(&mut self, worker: usize, dispatch: D) -> (failure: Option<E>) where
        D: FnOnce(usize, &W, J) -> Result<(), E>,

        requires
            old(self)@.wf(),
            old(self)@.is_busy(worker),
            old(self)@.next_job() matches Some(job) ==> call_requires(
                dispatch,
                (worker, &old(self)@.workers[worker as int], job),
            ),
        ensures
            final(self)@.wf(),
            match old(self)@.next_job() {
                Some(job) => exists|dispatched: Result<(), E>| #[trigger]
                    call_ensures(
                        dispatch,
                        (worker, &old(self)@.workers[worker as int], job),
                        dispatched,
                    ) && final(self)@ == old(self)@.completed(worker, dispatched is Ok) && failure
                        == match dispatched {
                        Ok(_) => None,
                        Err(e) => Some(e),
                    },
                None => failure is None && final(self)@ == old(self)@.completed(worker, true),
            },
    {
        match self.done(worker) {
            Some(job) => {
                let dispatched = dispatch(worker, self.handle(worker), job);
                self.next_dispatched(worker, dispatched)
            },
            None => None,
        }
    }
}

/// The worker's script up to the address of the script that it imports.
pub const SCRIPT_IMPORT: &'static str = "\n            importScripts('";

/// The worker's script from there to the name of the module's object.
pub const SCRIPT_INIT: &'static str =
    "');\n            const FRB_ACTION_PANIC = 3;\n            onmessage = event => {\n                let init = ";

/// The worker's script from there to the second use of that name.
pub const SCRIPT_RECEIVE: &'static str =
    "(...event.data).catch(err => {\n                    setTimeout(() => { throw err })\n                    throw err\n                })\n                onmessage = async event => {\n                    await init\n                    const [payload, ...transfer] = event.data\n                    try {\n                        ";

/// The rest of the worker's script.
pub const SCRIPT_END: &'static str =
    ".receive_transfer_closure(payload, transfer)\n                    } catch (err) {\n                        if (transfer[0] && typeof transfer[0].postMessage === 'function') {\n                            // panic\n                            transfer[0].postMessage([FRB_ACTION_PANIC, err.toString()])\n                        }\n                        setTimeout(() => { throw err })\n                        postMessage(null)\n                        throw err\n                    }\n                }\n            }";

/// A pool of workers, and what it takes to spawn one.
#[derive(Debug)]
pub struct WorkerPool<W, J> {
    /// The workers and the jobs.
    pub state: PoolState<W, J>,
    /// Where a worker finds the script that loads the module.
    pub script_src: String,
    /// Script that a worker runs first.
    pub worker_js_preamble: String,
    /// The name of the module's object in a worker.
    pub wasm_bindgen_name: String,
}

/// The characters of a string that is given, and else those of the default.
pub open spec fn text_or(given: Option<String>, default: Seq<char>) -> Seq<char> {
    match given {
        Some(text) => text@,
        None => default,
    }
}

/// The larger of the two.
pub open spec fn at_least(n: usize, least: usize) -> usize {
    if n < least {
        least
    } else {
        n
    }
}

/// The smaller of the two.
pub open spec fn at_most(n: usize, most: usize) -> usize {
    if n > most {
        most
    } else {
        n
    }
}

/// The script that a worker runs.
pub open spec fn script_text(
    worker_js_preamble: Seq<char>,
    script_src: Seq<char>,
    wasm_bindgen_name: Seq<char>,
) -> Seq<char> {
    worker_js_preamble + SCRIPT_IMPORT@ + script_src + SCRIPT_INIT@ + wasm_bindgen_name
        + SCRIPT_RECEIVE@ + wasm_bindgen_name + SCRIPT_END@
}

/// A pool for which these workers were spawned before the first job.
pub open spec fn fresh_pool<W, J>(workers: Seq<W>, max_workers: usize) -> PoolView<W, J> {
    PoolView {
        workers,
        idle: Seq::new(workers.len(), |i: int| i as usize),
        pending: seq![],
        max: max_workers as nat,
    }
}

/// `src` is the given address, or else what `script_path` found.
pub open spec fn is_script_src<P: FnOnce() -> String>(
    given: Option<String>,
    script_path: P,
    src: Seq<char>,
) -> bool {
    match given {
        Some(text) => src == text@,
        None => exists|found: String| #[trigger]
            call_ensures(script_path, (), found) && src == found@,
    }
}

/// A pool for which `given` workers are asked for begins with `initial` workers and has the cap
/// `max_workers`: as many, or as many as `hardware_concurrency` found if no number is given; and
/// if the number is zero, none to begin with and as many as it found at most.
pub open spec fn are_counts<H: Fn() -> usize>(
    given: Option<usize>,
    hardware_concurrency: H,
    initial: usize,
    max_workers: usize,
) -> bool {
    match given {
        Some(n) if n > 0 => initial == n && max_workers == n,
        Some(_) => initial == 0 && call_ensures(hardware_concurrency, (), max_workers),
        None => call_ensures(hardware_concurrency, (), initial) && max_workers == initial,
    }
}

/// `spawn` was asked for a worker with this script, and gave `outcome`.
pub open spec fn gave<W, E, S: FnOnce(&str) -> Result<W, E>>(
    spawn: S,
    script: Seq<char>,
    outcome: Result<W, E>,
) -> bool {
    exists|text: &str| text@ == script && #[trigger] call_ensures(spawn, (text,), outcome)
}

/// `spawn` can be asked for a worker with this script.
pub open spec fn can_spawn<W, E, S: FnOnce(&str) -> Result<W, E>>(
    spawn: S,
    script: Seq<char>,
) -> bool {
    forall|text: &str| text@ == script ==> #[trigger] call_requires(spawn, (text,))
}

/// `spawn` can be asked for a worker with this script, in any state of the spawner.
pub open spec fn can_spawn_with<T, W, E, S: Fn(&mut T, &str) -> Result<W, E>>(
    spawn: S,
    script: Seq<char>,
) -> bool {
    forall|spawner: &mut T, text: &str|
        text@ == script ==> #[trigger] call_requires(spawn, (spawner, text))
}

/// `states` leads from `first` to `last`, in as many steps as there are `replies`.
pub open spec fn leads<T, R>(states: Seq<T>, replies: Seq<R>, first: T, last: T) -> bool {
    &&& states.len() == replies.len() + 1
    &&& states[0] == first
    &&& states.last() == last
}

/// `i` is the position of one of `replies`.
pub open spec fn is_reply<R>(replies: Seq<R>, i: int) -> bool {
    0 <= i < replies.len()
}

/// `outcome` is what becomes of a pool for these counts and scripts, if `replies` came back, in
/// this order, when workers were asked for. If no error came back there are as many replies as
/// workers were asked for and the cap, which is at least one, allows, and the pool begins with
/// them, all idle. The first error is the last reply, and there is no pool.
pub open spec fn is_made_from<W, J, E>(
    outcome: Result<WorkerPool<W, J>, E>,
    replies: Seq<Result<W, E>>,
    initial: usize,
    max_workers: usize,
    script_src: Seq<char>,
    worker_js_preamble: Seq<char>,
    wasm_bindgen_name: Seq<char>,
) -> bool {
    let max = at_least(max_workers, 1);
    match outcome {
        Ok(pool) => {
            let workers = pool.state@.workers;
            &&& pool.state@.wf()
            &&& pool.state@ == fresh_pool::<W, J>(workers, max)
            &&& workers.len() == at_most(initial, max)
            &&& replies == workers.map_values(|worker: W| Ok::<W, E>(worker))
            &&& pool.script_src@ == script_src
            &&& pool.worker_js_preamble@ == worker_js_preamble
            &&& pool.wasm_bindgen_name@ == wasm_bindgen_name
        },
        Err(e) => {
            &&& 0 < replies.len() <= at_most(initial, max)
            &&& replies.last() == Err::<W, E>(e)
            &&& forall|i: int| 0 <= i < replies.len() - 1 ==> #[trigger] replies[i] is Ok
        },
    }
}

impl<W, J> WorkerPool<W, J> {
    /// The script that a worker of this pool runs.
    pub open spec fn script(self) -> Seq<char> {
        script_text(self.worker_js_preamble@, self.script_src@, self.wasm_bindgen_name@)
    }

    /// `self` has what it takes to spawn workers from `other`.
    pub open spec fn spawns_like(self, other: Self) -> bool {
        &&& self.script_src == other.script_src
        &&& self.worker_js_preamble == other.worker_js_preamble
        &&& self.wasm_bindgen_name == other.wasm_bindgen_name
    }

    /// A pool of `initial` workers, or of as many as the hardware runs at once, with a
    /// default for what is not given. `initial` is also the cap, except that zero means
    /// to spawn workers when they are needed, up to what the hardware runs at once. An error
    /// is the first that kept a worker from being spawned.
    pub fn new<E, H, P, T, S>(
        initial: Option<usize>,
        script_src: Option<String>,
        worker_js_preamble: Option<String>,
        wasm_bindgen_name: Option<String>,
        hardware_concurrency: H,
        script_path: P,
        spawner: &mut T,
        spawn: S,
    ) -> (outcome: Result<Self, E>) where
        H: Fn() -> usize,
        P: FnOnce() -> String,
        S: Fn(&mut T, &str) -> Result<W, E>,

        requires
            initial is None || initial == Some(0usize) ==> call_requires(hardware_concurrency, ()),
            initial is None ==> forall|n: usize|
                call_ensures(hardware_concurrency, (), n) ==> n >= 1,
            script_src is None ==> call_requires(script_path, ()),
            initial != Some(0usize) ==> forall|src: Seq<char>| #[trigger]
                is_script_src(script_src, script_path, src) ==> can_spawn_with(
                    spawn,
                    script_text(
                        text_or(worker_js_preamble, seq![]),
                        src,
                        text_or(wasm_bindgen_name, "wasm_bindgen"@),
                    ),
                ),
        ensures
            exists|
                first: usize,
                max: usize,
                src: Seq<char>,
                states: Seq<T>,
                replies: Seq<Result<W, E>>,
            |
                #[trigger] are_counts(initial, hardware_concurrency, first, max)
                    && #[trigger] is_script_src(script_src, script_path, src) && #[trigger] leads(
                    states,
                    replies,
                    *old(spawner),
                    *final(spawner),
                ) && is_made_from(
                    outcome,
                    replies,
                    first,
                    max,
                    src,
                    text_or(worker_js_preamble, seq![]),
                    text_or(wasm_bindgen_name, "wasm_bindgen"@),
                ) && forall|i: int|
                    #[trigger] is_reply(replies, i) ==> exists|asked: &mut T, text: &str|
                        *asked == states[i] && text@ == script_text(
                            text_or(worker_js_preamble, seq![]),
                            src,
                            text_or(wasm_bindgen_name, "wasm_bindgen"@),
                        ) && #[trigger] call_ensures(spawn, (asked, text), replies[i])
                            && *final(asked) == states[i + 1],
    {
        let first: usize = match initial {
            Some(n) => n,
            None => hardware_concurrency(),
        };
        let max: usize = if first == 0 {
            hardware_concurrency()
        } else {
            first
        };
        assert(are_counts(initial, hardware_concurrency, first, max));
        Self::new_with_max(
            first,
            max,
            script_src,
            worker_js_preamble,
            wasm_bindgen_name,
            script_path,
            spawner,
            spawn,
        )
    }

    /// A pool whose cap differs from the number of workers that it begins with. With
    /// `initial = 0` and `max_workers = 1` no worker is spawned before the first job,
    /// and jobs wait in line while that one worker is busy.
    pub fn new_with_max<E, P, T, S>(
        initial: usize,
        max_workers: usize,
        script_src: Option<String>,
        worker_js_preamble: Option<String>,
        wasm_bindgen_name: Option<String>,
        script_path: P,
        spawner: &mut T,
        spawn: S,
    ) -> (outcome: Result<Self, E>) where
        P: FnOnce() -> String,
        S: Fn(&mut T, &str) -> Result<W, E>,

        requires
            script_src is None ==> call_requires(script_path, ()),
            initial > 0 ==> forall|src: Seq<char>| #[trigger]
                is_script_src(script_src, script_path, src) ==> can_spawn_with(
                    spawn,
                    script_text(
                        text_or(worker_js_preamble, seq![]),
                        src,
                        text_or(wasm_bindgen_name, "wasm_bindgen"@),
                    ),
                ),
        ensures
            exists|src: Seq<char>, states: Seq<T>, replies: Seq<Result<W, E>>| #[trigger]
                is_script_src(script_src, script_path, src) && #[trigger] leads(
                    states,
                    replies,
                    *old(spawner),
                    *final(spawner),
                ) && is_made_from(
                    outcome,
                    replies,
                    initial,
                    max_workers,
                    src,
                    text_or(worker_js_preamble, seq![]),
                    text_or(wasm_bindgen_name, "wasm_bindgen"@),
                ) && forall|i: int|
                    #[trigger] is_reply(replies, i) ==> exists|asked: &mut T, text: &str|
                        *asked == states[i] && text@ == script_text(
                            text_or(worker_js_preamble, seq![]),
                            src,
                            text_or(wasm_bindgen_name, "wasm_bindgen"@),
                        ) && #[trigger] call_ensures(spawn, (asked, text), replies[i])
                            && *final(asked) == states[i + 1],
    {
        let src = match script_src {
            Some(src) => src,
            None => script_path(),
        };
        assert(is_script_src(script_src, script_path, src@));
        let preamble = match worker_js_preamble {
            Some(preamble) => preamble,
            None => String::new(),
        };
        let name = match wasm_bindgen_name {
            Some(name) => name,
            None => "wasm_bindgen".to_owned(),
        };
        assert(preamble@ == text_or(worker_js_preamble, seq![]));
        assert(name@ == text_or(wasm_bindgen_name, "wasm_bindgen"@));
        Self::new_raw_with_max(initial, max_workers, src, preamble, name, spawner, spawn)
    }

    /// Like [`new`](Self::new), with everything given. The cap is `initial`, and for zero
    /// what the hardware runs at once.
    pub fn new_raw<E, H, T, S>(
        initial: usize,
        script_src: String,
        worker_js_preamble: String,
        wasm_bindgen_name: String,
        hardware_concurrency: H,
        spawner: &mut T,
        spawn: S,
    ) -> (outcome: Result<Self, E>) where
        H: Fn() -> usize,
        S: Fn(&mut T, &str) -> Result<W, E>,

        requires
            initial == 0 ==> call_requires(hardware_concurrency, ()),
            initial > 0 ==> can_spawn_with(
                spawn,
                script_text(worker_js_preamble@, script_src@, wasm_bindgen_name@),
            ),
        ensures
            exists|max: usize, states: Seq<T>, replies: Seq<Result<W, E>>| #[trigger]
                are_counts(Some(initial), hardware_concurrency, initial, max) && #[trigger] leads(
                    states,
                    replies,
                    *old(spawner),
                    *final(spawner),
                ) && is_made_from(
                    outcome,
                    replies,
                    initial,
                    max,
                    script_src@,
                    worker_js_preamble@,
                    wasm_bindgen_name@,
                ) && forall|i: int|
                    #[trigger] is_reply(replies, i) ==> exists|asked: &mut T, text: &str|
                        *asked == states[i] && text@ == script_text(
                            worker_js_preamble@,
                            script_src@,
                            wasm_bindgen_name@,
                        ) && #[trigger] call_ensures(spawn, (asked, text), replies[i])
                            && *final(asked) == states[i + 1],
    {
        let max: usize = if initial == 0 {
            hardware_concurrency()
        } else {
            initial
        };
        assert(are_counts(Some(initial), hardware_concurrency, initial, max));
        Self::new_raw_with_max(
            initial,
            max,
            script_src,
            worker_js_preamble,
            wasm_bindgen_name,
            spawner,
            spawn,
        )
    }

    /// Like [`new_with_max`](Self::new_with_max), with everything given. The cap is at
    /// least one, and no more workers are spawned to begin with than it allows. `spawn` is
    /// asked for them one after the other, and not again after an error.
    pub fn new_raw_with_max<E, T, S>(
        initial: usize,
        max_workers: usize,
        script_src: String,
        worker_js_preamble: String,
        wasm_bindgen_name: String,
        spawner: &mut T,
        spawn: S,
    ) -> (outcome: Result<Self, E>) where S: Fn(&mut T, &str) -> Result<W, E>
        requires
            initial > 0 ==> can_spawn_with(
                spawn,
                script_text(worker_js_preamble@, script_src@, wasm_bindgen_name@),
            ),
        ensures
            exists|states: Seq<T>, replies: Seq<Result<W, E>>| #[trigger]
                leads(states, replies, *old(spawner), *final(spawner)) && is_made_from(
                    outcome,
                    replies,
                    initial,
                    max_workers,
                    script_src@,
                    worker_js_preamble@,
                    wasm_bindgen_name@,
                ) && forall|i: int|
                    #[trigger] is_reply(replies, i) ==> exists|asked: &mut T, text: &str|
                        *asked == states[i] && text@ == script_text(
                            worker_js_preamble@,
                            script_src@,
                            wasm_bindgen_name@,
                        ) && #[trigger] call_ensures(spawn, (asked, text), replies[i])
                            && *final(asked) == states[i + 1],
    {
        let cap: usize = if max_workers < 1 {
            1
        } else {
            max_workers
        };
        let first: usize = if initial > cap {
            cap
        } else {
            initial
        };
        let mut pool = WorkerPool {
            state: PoolState::new(cap),
            script_src,
            worker_js_preamble,
            wasm_bindgen_name,
        };
        let ghost made = pool;
        let ghost mut states: Seq<T> = seq![*spawner];
        let ghost mut replies: Seq<Result<W, E>> = seq![];
        let mut spawned: usize = 0;
        assert(pool.state@.idle =~= fresh_pool::<W, J>(seq![], cap).idle);
        while spawned < first
            invariant
                spawned <= first,
                cap == at_least(max_workers, 1),
                first == at_most(initial, cap),
                initial > 0 ==> can_spawn_with(spawn, made.script()),
                pool.state@.wf(),
                pool.state@.workers.len() == spawned,
                pool.state@ == fresh_pool::<W, J>(pool.state@.workers, cap),
                pool.spawns_like(made),
                made.script_src == script_src,
                made.worker_js_preamble == worker_js_preamble,
                made.wasm_bindgen_name == wasm_bindgen_name,
                leads(states, replies, *old(spawner), *spawner),
                replies == pool.state@.workers.map_values(|worker: W| Ok::<W, E>(worker)),
                forall|i: int|
                    #[trigger] is_reply(replies, i) ==> exists|asked: &mut T, text: &str|
                        *asked == states[i] && text@ == made.script()
                            && #[trigger] call_ensures(spawn, (asked, text), replies[i])
                            && *final(asked) == states[i + 1],
            decreases first - spawned,
        {
            let ghost states_before = states;
            let ghost replies_before = replies;
            let script = pool.worker_script();
            let reply = spawn(spawner, script.as_str());
            assert(exists|asked: &mut T, text: &str|
                *asked == states_before.last() && text@ == made.script()
                    && #[trigger] call_ensures(spawn, (asked, text), reply)
                    && *final(asked) == *spawner);
            proof {
                states = states.push(*spawner);
                replies = replies.push(reply);
                assert(replies[replies_before.len() as int] == reply);
                assert(states[states_before.len() as int] == *spawner);
                assert(states[replies_before.len() as int] == states_before.last());
                assert forall|i: int| #[trigger] is_reply(replies, i) implies exists|
                    asked: &mut T,
                    text: &str,
                |
                    *asked == states[i] && text@ == made.script()
                        && #[trigger] call_ensures(spawn, (asked, text), replies[i])
                        && *final(asked) == states[i + 1] by {
                    if is_reply(replies_before, i) {
                        assert(states_before[i] == states[i]);
                        assert(states_before[i + 1] == states[i + 1]);
                        assert(replies_before[i] == replies[i]);
                    }
                }
            }
            match pool.add_idle_worker(reply) {
                Ok(_) => {},
                Err(e) => {
                    assert(leads(states, replies, *old(spawner), *spawner));
                    assert(replies.last() == Err::<W, E>(e));
                    assert(forall|i: int|
                        0 <= i < replies.len() - 1 ==> #[trigger] replies[i] is Ok);
                    return Err(e);
                },
            }
            spawned += 1;
            assert(pool.state@.idle =~= fresh_pool::<W, J>(pool.state@.workers, cap).idle);
            assert(replies =~= pool.state@.workers.map_values(|worker: W| Ok::<W, E>(worker)));
        }
        Ok(pool)
    }

    /// Takes in a worker that was to be spawned before it is needed, if it was: it is idle. An
    /// error is handed back and leaves the pool as it was.
    pub fn add_idle_worker<E>(&mut self, spawned: Result<W, E>) -> (outcome: Result<(), E>)
        requires
            old(self).state@.wf(),
            old(self).state@.workers.len() < old(self).state@.max,
        ensures
            final(self).state@.wf(),
            final(self).spawns_like(*old(self)),
            match spawned {
                Ok(handle) => outcome is Ok && final(self).state@ == old(self).state@.after_spawn(
                    handle,
                ).after_push(old(self).state@.workers.len() as usize),
                Err(e) => outcome == Err::<(), E>(e) && final(self).state@ == old(self).state@,
            },
    {
        match self.spawn_for_pool(spawned) {
            Ok(worker) => {
                self.state.push(worker);
                Ok(())
            },
            Err(e) => Err(e),
        }
    }

    /// The script that a worker of this pool runs.
    pub fn worker_script(&self) -> (script: String)
        ensures
            script@ == self.script(),
    {
        let mut script = self.worker_js_preamble.clone();
        script.append(SCRIPT_IMPORT);
        script.append(self.script_src.as_str());
        script.append(SCRIPT_INIT);
        script.append(self.wasm_bindgen_name.as_str());
        script.append(SCRIPT_RECEIVE);
        script.append(self.wasm_bindgen_name.as_str());
        script.append(SCRIPT_END);
        script
    }

    /// Takes in a worker that was to be spawned for this pool, if it was. The result is its
    /// number, and the worker is the caller's to give a job or to push.
    fn spawn_for_pool<E>(&mut self, spawned: Result<W, E>) -> (worker: Result<usize, E>)
        requires
            old(self).state@.wf(),
            old(self).state@.workers.len() < old(self).state@.max,
        ensures
            final(self).state@.wf(),
            final(self).spawns_like(*old(self)),
            match spawned {
                Ok(handle) => {
                    &&& worker matches Ok(number)
                    &&& number == old(self).state@.workers.len()
                    &&& final(self).state@ == old(self).state@.after_spawn(handle)
                    &&& final(self).state@.is_busy(number)
                },
                Err(e) => worker == Err::<usize, E>(e) && final(self).state@ == old(self).state@,
            },
    {
        match spawned {
            Ok(handle) => {
                let number: usize = self.state.handles.len();
                self.state.handles.push(handle);
                assert(!self.state@.idle.contains(number)) by {
                    assert(forall|i: int|
                        0 <= i < self.state@.idle.len() ==> #[trigger] self.state@.idle[i]
                            < old(self).state@.workers.len());
                }
                Ok(number)
            },
            Err(e) => Err(e),
        }
    }

    /// Places a job: with an idle worker if there is one, else with a new one if the cap allows
    /// it, and else in the line of those that wait. The result tells whether the job is to be
    /// sent to a worker; how that went is for
    /// [`dispatch_to_worker`](Self::dispatch_to_worker). An error is the one that kept the
    /// worker from being spawned.
    pub fn submit<E, S>(&mut self, job: J, spawn: S) -> (outcome: Result<
        Submission<J>,
        E,
    >) where S: FnOnce(&str) -> Result<W, E>
        requires
            old(self).state@.wf(),
            old(self).state@.placement() is New ==> can_spawn(spawn, old(self).script()),
        ensures
            final(self).state@.wf(),
            final(self).spawns_like(*old(self)),
            outcome matches Ok(Submission::Dispatch { worker, .. }) ==> {
                final(self).state@.is_busy(worker)
            },
            match old(self).state@.placement() {
                Placement::Idle { worker } => {
                    &&& outcome == Ok::<_, E>(Submission::Dispatch { worker, job })
                    &&& final(self).state@ == old(self).state@.placed(job, None)
                },
                Placement::New => exists|spawned: Result<W, E>| #[trigger]
                    gave(spawn, old(self).script(), spawned) && match spawned {
                        Ok(handle) => {
                            &&& outcome == Ok::<_, E>(
                                Submission::Dispatch {
                                    worker: old(self).state@.workers.len() as usize,
                                    job,
                                },
                            )
                            &&& final(self).state@ == old(self).state@.placed(
                                job,
                                Some(handle),
                            )
                        },
                        Err(e) => {
                            &&& outcome == Err::<Submission<J>, E>(e)
                            &&& final(self).state@ == old(self).state@.placed(job, None)
                        },
                    },
                Placement::Wait => {
                    &&& outcome == Ok::<_, E>(Submission::<J>::Queued)
                    &&& final(self).state@ == old(self).state@.placed(job, None)
                },
            },
    {
        let idle_worker = self.state.workers.pop();
        if let Some(worker) = idle_worker {
            return Ok(Submission::Dispatch { worker, job });
        }
        if self.state.handles.len() < self.state.max_workers {
            let script = self.worker_script();
            let spawned = spawn(script.as_str());
            assert(gave(spawn, old(self).script(), spawned));
            return match self.spawn_for_pool(spawned) {
                Ok(worker) => Ok(Submission::Dispatch { worker, job }),
                Err(e) => Err(e),
            };
        }
        self.state.pending.push_back(job);
        Ok(Submission::Queued)
    }

    /// Whether a job could be sent to the worker that it was placed with. If it could not, the
    /// worker is idle again, so that the pool can go on, and whoever handed in the job gets the
    /// error.
    pub fn dispatch_to_worker<E>(&mut self, worker: usize, dispatched: Result<(), E>) -> (outcome:
        Result<(), E>)
        requires
            old(self).state@.wf(),
            old(self).state@.is_busy(worker),
        ensures
            final(self).state@.wf(),
            final(self).spawns_like(*old(self)),
            outcome == dispatched,
            match dispatched {
                Ok(_) => final(self).state@ == old(self).state@,
                Err(_) => final(self).state@ == old(self).state@.after_push(worker),
            },
    {
        match dispatched {
            Ok(sent) => Ok(sent),
            Err(e) => {
                self.state.push(worker);
                Err(e)
            },
        }
    }

    /// Hands a job to the pool: to an idle worker if there is one, else to a new one if
    /// the cap allows it, and else to the line of those that wait. A job that waits is no
    /// error. An error is the one that kept the worker from being spawned or the job from
    /// being sent.
    pub fn execute<E, S, D>(&mut self, job: J, spawn: S, dispatch: D) -> (outcome: Result<
        (),
        E,
    >) where S: FnOnce(&str) -> Result<W, E>, D: FnOnce(usize, &W, J) -> Result<(), E>
        requires
            old(self).state@.wf(),
            match old(self).state@.placement() {
                Placement::Idle { worker } => call_requires(
                    dispatch,
                    (worker, &old(self).state@.workers[worker as int], job),
                ),
                Placement::New => {
                    &&& can_spawn(spawn, old(self).script())
                    &&& forall|handle: W| #[trigger]
                        gave(spawn, old(self).script(), Ok(handle)) ==> call_requires(
                            dispatch,
                            (old(self).state@.workers.len() as usize, &handle, job),
                        )
                },
                Placement::Wait => true,
            },
        ensures
            final(self).state@.wf(),
            final(self).spawns_like(*old(self)),
            match old(self).state@.placement() {
                Placement::Idle { worker } => {
                    &&& call_ensures(
                        dispatch,
                        (worker, &old(self).state@.workers[worker as int], job),
                        outcome,
                    )
                    &&& final(self).state@ == old(self).state@.executed(job, None, outcome is Ok)
                },
                Placement::New => exists|spawned: Result<W, E>| #[trigger]
                    gave(spawn, old(self).script(), spawned) && match spawned {
                        Ok(handle) => {
                            &&& call_ensures(
                                dispatch,
                                (old(self).state@.workers.len() as usize, &handle, job),
                                outcome,
                            )
                            &&& final(self).state@ == old(self).state@.executed(
                                job,
                                Some(handle),
                                outcome is Ok,
                            )
                        },
                        Err(e) => {
                            &&& outcome == Err::<(), E>(e)
                            &&& final(self).state@ == old(self).state@.executed(job, None, false)
                        },
                    },
                Placement::Wait => {
                    &&& outcome is Ok
                    &&& final(self).state@ == old(self).state@.executed(job, None, true)
                },
            },
    {
        proof {
            let idle = self.state@.idle;
            if idle.len() > 0 {
                assert(idle.drop_last().push(idle.last()) =~= idle);
            }
        }
        match self.submit(job, spawn) {
            Ok(Submission::Dispatch { worker, job }) => {
                let dispatched = dispatch(worker, self.state.handle(worker), job);
                self.dispatch_to_worker(worker, dispatched)
            },
            Ok(Submission::Queued) => Ok(()),
            Err(e) => Err(e),
        }
    }
}

} // verus!
