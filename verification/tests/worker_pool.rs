use frb_lanes::worker_pool::{Submission, WorkerPool};
use std::cell::{Cell, RefCell};

/// The worker that was spawned as this one.
#[derive(Debug, PartialEq, Eq)]
struct Worker(usize);

type Pool = WorkerPool<Worker, &'static str>;

/// Stands in for the browser: counts the workers that are spawned, keeps the jobs that are
/// sent to them, and fails where it is told to.
struct Browser {
    spawned: Cell<usize>,
    sent: RefCell<Vec<(usize, &'static str)>>,
    spawn_fails: Cell<bool>,
    post_fails: Cell<bool>,
}

impl Browser {
    fn new() -> Self {
        Browser {
            spawned: Cell::new(0),
            sent: RefCell::new(Vec::new()),
            spawn_fails: Cell::new(false),
            post_fails: Cell::new(false),
        }
    }

    fn spawn(&self, _script: &str) -> Result<Worker, &'static str> {
        if self.spawn_fails.get() {
            return Err("spawn failed");
        }
        let worker = Worker(self.spawned.get());
        self.spawned.set(self.spawned.get() + 1);
        Ok(worker)
    }

    fn post(&self, number: usize, worker: &Worker, job: &'static str) -> Result<(), &'static str> {
        assert_eq!(number, worker.0);
        if self.post_fails.get() {
            return Err("post failed");
        }
        self.sent.borrow_mut().push((worker.0, job));
        Ok(())
    }

    fn pool(&self, initial: usize, max_workers: usize) -> Pool {
        WorkerPool::new_raw_with_max(
            initial,
            max_workers,
            "app.js".to_string(),
            "".to_string(),
            "wasm_bindgen".to_string(),
            &mut (),
            |_: &mut (), script: &str| self.spawn(script),
        )
        .unwrap()
    }

    fn execute(
        &self,
        pool: &mut Pool,
        job: &'static str,
    ) -> Result<(), &'static str> {
        pool.execute(
            job,
            |script: &str| self.spawn(script),
            |number, worker: &Worker, job| self.post(number, worker, job),
        )
    }

    fn complete(&self, pool: &mut Pool, worker: usize) -> Option<&'static str> {
        pool.state
            .complete(worker, |number, worker: &Worker, job| {
                self.post(number, worker, job)
            })
    }

    fn sent(&self) -> Vec<(usize, &'static str)> {
        self.sent.borrow().clone()
    }
}

#[test]
fn a_lazy_lane_spawns_on_first_use_and_queues_in_order() {
    let browser = Browser::new();
    let mut pool = browser.pool(0, 1);
    assert_eq!(browser.spawned.get(), 0);
    for job in ["a", "b", "c"] {
        assert_eq!(browser.execute(&mut pool, job), Ok(()));
    }
    assert_eq!(browser.spawned.get(), 1);
    assert_eq!(browser.sent(), vec![(0, "a")]);
    assert_eq!(browser.complete(&mut pool, 0), None);
    assert_eq!(browser.execute(&mut pool, "d"), Ok(()));
    assert_eq!(browser.complete(&mut pool, 0), None);
    assert_eq!(browser.complete(&mut pool, 0), None);
    assert_eq!(browser.complete(&mut pool, 0), None);
    assert_eq!(browser.execute(&mut pool, "e"), Ok(()));
    assert_eq!(
        browser.sent(),
        vec![(0, "a"), (0, "b"), (0, "c"), (0, "d"), (0, "e")]
    );
    assert_eq!(browser.spawned.get(), 1);
}

#[test]
fn the_cap_is_kept() {
    let browser = Browser::new();
    let mut pool = browser.pool(0, 2);
    for job in ["a", "b", "c", "d"] {
        assert_eq!(browser.execute(&mut pool, job), Ok(()));
    }
    assert_eq!(browser.spawned.get(), 2);
    assert_eq!(browser.sent(), vec![(0, "a"), (1, "b")]);
    assert_eq!(browser.complete(&mut pool, 1), None);
    assert_eq!(browser.complete(&mut pool, 0), None);
    assert_eq!(
        browser.sent(),
        vec![(0, "a"), (1, "b"), (1, "c"), (0, "d")]
    );
    assert_eq!(browser.spawned.get(), 2);
}

#[test]
fn idle_workers_are_used_before_new_ones() {
    let browser = Browser::new();
    let mut pool = browser.pool(2, 3);
    assert_eq!(browser.spawned.get(), 2);
    for job in ["a", "b", "c"] {
        assert_eq!(browser.execute(&mut pool, job), Ok(()));
    }
    assert_eq!(browser.spawned.get(), 3);
    assert_eq!(browser.complete(&mut pool, 0), None);
    assert_eq!(browser.execute(&mut pool, "d"), Ok(()));
    assert_eq!(
        browser.sent(),
        vec![(1, "a"), (0, "b"), (2, "c"), (0, "d")]
    );
    assert_eq!(browser.spawned.get(), 3);
}

#[test]
fn a_failed_post_keeps_the_worker() {
    let browser = Browser::new();
    let mut pool = browser.pool(1, 1);
    browser.post_fails.set(true);
    assert_eq!(browser.execute(&mut pool, "a"), Err("post failed"));
    browser.post_fails.set(false);
    assert_eq!(browser.execute(&mut pool, "b"), Ok(()));
    assert_eq!(browser.sent(), vec![(0, "b")]);
    assert_eq!(browser.spawned.get(), 1);
}

#[test]
fn a_failed_post_keeps_a_new_worker() {
    let browser = Browser::new();
    let mut pool = browser.pool(0, 1);
    browser.post_fails.set(true);
    assert_eq!(browser.execute(&mut pool, "a"), Err("post failed"));
    browser.post_fails.set(false);
    assert_eq!(browser.execute(&mut pool, "b"), Ok(()));
    assert_eq!(browser.sent(), vec![(0, "b")]);
    assert_eq!(browser.spawned.get(), 1);
}

#[test]
fn a_failed_spawn_changes_nothing() {
    let browser = Browser::new();
    let mut pool = browser.pool(0, 1);
    browser.spawn_fails.set(true);
    assert_eq!(browser.execute(&mut pool, "a"), Err("spawn failed"));
    browser.spawn_fails.set(false);
    assert_eq!(browser.execute(&mut pool, "b"), Ok(()));
    assert_eq!(browser.sent(), vec![(0, "b")]);
}

#[test]
fn a_failed_spawn_at_the_beginning_fails_the_pool() {
    let browser = Browser::new();
    browser.spawn_fails.set(true);
    let outcome = WorkerPool::<Worker, u8>::new_raw_with_max(
        1,
        1,
        "app.js".to_string(),
        "".to_string(),
        "wasm_bindgen".to_string(),
        &mut (),
        |_: &mut (), script: &str| browser.spawn(script),
    );
    assert_eq!(outcome.err(), Some("spawn failed"));
}

/// Makes a pool with a spawner that counts how often it is asked, and fails the second time.
fn asked_for(initial: usize, max_workers: usize) -> (Result<usize, &'static str>, usize) {
    let mut asked: usize = 0;
    let outcome = WorkerPool::<usize, u8>::new_raw_with_max(
        initial,
        max_workers,
        "app.js".to_string(),
        "".to_string(),
        "wasm_bindgen".to_string(),
        &mut asked,
        |asked: &mut usize, _: &str| {
            *asked += 1;
            if *asked == 2 {
                Err("second spawn failed")
            } else {
                Ok(*asked)
            }
        },
    );
    (outcome.map(|pool| *pool.state.handle(0)), asked)
}

#[test]
fn the_first_failed_spawn_is_the_last() {
    assert_eq!(asked_for(4, 4), (Err("second spawn failed"), 2));
    assert_eq!(asked_for(4, 1), (Ok(1), 1));
    assert_eq!(asked_for(1, 4), (Ok(1), 1));
}

#[test]
fn a_worker_may_be_added_before_it_is_needed() {
    let browser = Browser::new();
    let mut pool = browser.pool(0, 2);
    assert_eq!(pool.add_idle_worker(Err("spawn failed")), Err("spawn failed"));
    assert_eq!(pool.add_idle_worker(browser.spawn("")), Ok(()));
    assert!(!pool.state.is_busy(0));
    assert_eq!(browser.execute(&mut pool, "a"), Ok(()));
    assert_eq!(browser.sent(), vec![(0, "a")]);
    assert_eq!(browser.spawned.get(), 1);
}

#[test]
fn a_waiting_job_that_cannot_be_sent_frees_its_worker() {
    let browser = Browser::new();
    let mut pool = browser.pool(1, 1);
    for job in ["a", "b", "c"] {
        assert_eq!(browser.execute(&mut pool, job), Ok(()));
    }
    browser.post_fails.set(true);
    assert_eq!(browser.complete(&mut pool, 0), Some("post failed"));
    browser.post_fails.set(false);
    // The worker is idle, and the next job overtakes the one that still waits.
    assert_eq!(browser.execute(&mut pool, "d"), Ok(()));
    assert_eq!(browser.complete(&mut pool, 0), None);
    assert_eq!(browser.sent(), vec![(0, "a"), (0, "d"), (0, "c")]);
}

#[test]
fn a_job_is_placed_and_then_sent() {
    let browser = Browser::new();
    let mut pool = browser.pool(1, 1);
    assert!(!pool.state.is_busy(0));
    assert!(!pool.state.is_busy(1));
    assert_eq!(
        pool.submit("a", |script: &str| browser.spawn(script)),
        Ok(Submission::Dispatch {
            worker: 0,
            job: "a"
        })
    );
    assert!(pool.state.is_busy(0));
    assert_eq!(*pool.state.handle(0), Worker(0));
    assert_eq!(pool.dispatch_to_worker(0, Ok::<(), ()>(())), Ok(()));
    assert_eq!(
        pool.submit("b", |script: &str| browser.spawn(script)),
        Ok(Submission::Queued)
    );
    assert_eq!(pool.state.done(0), Some("b"));
    assert_eq!(pool.state.next_dispatched(0, Err("post failed")), Some("post failed"));
    assert!(!pool.state.is_busy(0));
    assert_eq!(
        pool.submit("c", |script: &str| browser.spawn(script)),
        Ok(Submission::Dispatch {
            worker: 0,
            job: "c"
        })
    );
    assert_eq!(pool.dispatch_to_worker(0, Err("post failed")), Err("post failed"));
    assert!(!pool.state.is_busy(0));
    assert_eq!(browser.spawned.get(), 1);
}

#[test]
fn a_job_may_be_placed_while_another_is_sent() {
    let browser = Browser::new();
    let mut pool = browser.pool(1, 1);
    for (job, placed) in [
        (
            "a",
            Submission::Dispatch {
                worker: 0,
                job: "a",
            },
        ),
        ("b", Submission::Queued),
        ("c", Submission::Queued),
    ] {
        assert_eq!(
            pool.submit(job, |script: &str| browser.spawn(script)),
            Ok(placed)
        );
    }
    assert_eq!(pool.dispatch_to_worker(0, Err("post failed")), Err("post failed"));
    assert_eq!(browser.execute(&mut pool, "d"), Ok(()));
    assert_eq!(pool.state.done(0), Some("b"));
    assert_eq!(pool.state.next_dispatched(0, Err("post failed")), Some("post failed"));
    assert_eq!(browser.execute(&mut pool, "e"), Ok(()));
    assert_eq!(pool.state.done(0), Some("c"));
    assert_eq!(pool.state.next_dispatched(0, Ok::<(), ()>(())), None);
    assert_eq!(pool.state.done(0), None);
    assert_eq!(browser.spawned.get(), 1);
}

#[test]
fn nothing_is_spawned_without_need() {
    let browser = Browser::new();
    let mut pool = browser.pool(1, 1);
    for job in ["a", "b"] {
        let outcome: Result<(), &str> = pool.execute(
            job,
            |_: &str| panic!("no worker is needed"),
            |number, worker: &Worker, job| browser.post(number, worker, job),
        );
        assert_eq!(outcome, Ok(()));
    }
    assert_eq!(browser.sent(), vec![(0, "a")]);
}

/// How many workers the pool begins with, and how many it may have.
fn counts(make: impl Fn(&Browser) -> Pool) -> (usize, usize) {
    let browser = Browser::new();
    let mut pool = make(&browser);
    let initial = browser.spawned.get();
    for _ in 0..20 {
        browser.execute(&mut pool, "job").unwrap();
    }
    (initial, browser.spawned.get())
}

#[test]
fn counts_are_kept_in_bounds() {
    assert_eq!(counts(|browser| browser.pool(5, 3)), (3, 3));
    assert_eq!(counts(|browser| browser.pool(5, 0)), (1, 1));
    assert_eq!(counts(|browser| browser.pool(0, 0)), (0, 1));
    assert_eq!(counts(|browser| browser.pool(2, 6)), (2, 6));
}

fn new_pool(browser: &Browser, initial: Option<usize>) -> Pool {
    WorkerPool::new(
        initial,
        None,
        None,
        None,
        || 4,
        || "found.js".to_string(),
        &mut (),
        |_: &mut (), script: &str| browser.spawn(script),
    )
    .unwrap()
}

#[test]
fn the_number_of_workers_is_also_the_cap() {
    assert_eq!(counts(|browser| new_pool(browser, Some(2))), (2, 2));
}

#[test]
fn no_workers_to_begin_with_are_capped_by_the_hardware() {
    assert_eq!(counts(|browser| new_pool(browser, Some(0))), (0, 4));
}

#[test]
fn without_a_number_the_hardware_decides() {
    assert_eq!(counts(|browser| new_pool(browser, None)), (4, 4));
}

#[test]
fn raw_pools_have_the_same_caps() {
    let raw = |browser: &Browser, initial: usize| -> Pool {
        WorkerPool::new_raw(
            initial,
            "app.js".to_string(),
            "// first".to_string(),
            "module".to_string(),
            || 4,
            &mut (),
            |_: &mut (), script: &str| browser.spawn(script),
        )
        .unwrap()
    };
    assert_eq!(counts(|browser| raw(browser, 0)), (0, 4));
    assert_eq!(counts(|browser| raw(browser, 3)), (3, 3));
    let pool = raw(&Browser::new(), 3);
    assert_eq!(pool.script_src, "app.js");
    assert_eq!(pool.worker_js_preamble, "// first");
    assert_eq!(pool.wasm_bindgen_name, "module");
}

#[test]
fn what_is_not_given_has_a_default() {
    let pool = new_pool(&Browser::new(), Some(1));
    assert_eq!(pool.script_src, "found.js");
    assert_eq!(pool.worker_js_preamble, "");
    assert_eq!(pool.wasm_bindgen_name, "wasm_bindgen");
    let pool = WorkerPool::<Worker, u8>::new_with_max(
        0,
        1,
        Some("app.js".to_string()),
        Some("// first".to_string()),
        Some("module".to_string()),
        || panic!("the script is given"),
        &mut (),
        |_: &mut (), _: &str| Err("no worker is needed"),
    )
    .unwrap();
    assert_eq!(pool.script_src, "app.js");
    assert_eq!(pool.worker_js_preamble, "// first");
    assert_eq!(pool.wasm_bindgen_name, "module");
}

#[test]
fn workers_run_the_script_of_the_pool() {
    let worker_js_preamble = "// first";
    let script_src = "app.js";
    let wasm_bindgen_name = "module";
    let expected = format!(
        "{worker_js_preamble}
            importScripts('{script_src}');
            const FRB_ACTION_PANIC = 3;
            onmessage = event => {{
                let init = {wasm_bindgen_name}(...event.data).catch(err => {{
                    setTimeout(() => {{ throw err }})
                    throw err
                }})
                onmessage = async event => {{
                    await init
                    const [payload, ...transfer] = event.data
                    try {{
                        {wasm_bindgen_name}.receive_transfer_closure(payload, transfer)
                    }} catch (err) {{
                        if (transfer[0] && typeof transfer[0].postMessage === 'function') {{
                            // panic
                            transfer[0].postMessage([FRB_ACTION_PANIC, err.toString()])
                        }}
                        setTimeout(() => {{ throw err }})
                        postMessage(null)
                        throw err
                    }}
                }}
            }}",
    );
    let mut scripts: Vec<String> = Vec::new();
    let mut pool = WorkerPool::<(), u8>::new_raw_with_max(
        1,
        2,
        script_src.to_string(),
        worker_js_preamble.to_string(),
        wasm_bindgen_name.to_string(),
        &mut scripts,
        |scripts: &mut Vec<String>, script: &str| {
            scripts.push(script.to_string());
            Ok::<(), ()>(())
        },
    )
    .unwrap();
    for job in 0..2 {
        let spawn = |script: &str| {
            scripts.push(script.to_string());
            Ok::<(), ()>(())
        };
        assert_eq!(pool.execute(job, spawn, |_, _: &(), _| Ok(())), Ok(()));
    }
    assert_eq!(scripts, vec![expected.clone(), expected.clone()]);
    assert_eq!(pool.worker_script(), expected);
}
