use frb_lanes::handler::thread_executor::{
    JobDrive, PanicReport, SyncReply, TaskAction, ThreadExecuteUtils,
};
use frb_lanes::handler::{
    FfiCallMode, HandlerError, Rust2DartSender, TaskContext, TaskInfo, Thread, ThreadExecutor,
    ThreadJob, ThreadRouter,
};
use frb_lanes::thread_pool::SingleThreadAsyncLane;
use futures::StreamExt;
use std::cell::RefCell;
use std::future::Future;
use std::sync::mpsc;
use std::time::Duration;

#[derive(Clone, Copy, Debug, PartialEq, Eq)]
struct NoOpErrorListener;

type BoxedJob = Box<dyn FnOnce() + Send + 'static>;

/// A router with one lane: one thread, with one local executor.
struct SingleWorkerLane {
    worker: SingleThreadAsyncLane<BoxedJob>,
}

impl SingleWorkerLane {
    fn new(thread_name: &str) -> Self {
        let (tx, mut rx) = futures::channel::mpsc::unbounded::<BoxedJob>();
        let thread = threadpool::ThreadPool::with_name(thread_name.to_string(), 1);
        thread.execute(move || {
            let runtime = tokio::runtime::Builder::new_current_thread().build().unwrap();
            let local = tokio::task::LocalSet::new();
            local.block_on(&runtime, async move {
                while let Some(job) = rx.next().await {
                    job();
                }
            });
        });
        SingleWorkerLane {
            worker: SingleThreadAsyncLane::new(tx),
        }
    }
}

impl<T, Fut> ThreadRouter<ThreadJob<NoOpErrorListener, i64, T>> for SingleWorkerLane
where
    T: FnOnce(TaskContext) -> Fut + Send + 'static,
    Fut: Future<Output = Result<&'static str, &'static str>> + 'static,
{
    fn execute_on(&self, _thread: Thread, job: ThreadJob<NoOpErrorListener, i64, T>) {
        self.worker.execute(Box::new(move || {
            let drive = job.drive;
            let run = async move {
                let (future, end) = job.start();
                end.finish(future.await);
            };
            match drive {
                JobDrive::SpawnLocal => {
                    tokio::task::spawn_local(run);
                }
                JobDrive::Inline => futures::executor::block_on(run),
            }
        }));
    }
}

fn worker_task(port: i64) -> TaskInfo<i64> {
    TaskInfo {
        port: Some(port),
        debug_name: "repro",
        mode: FfiCallMode::Normal,
        thread: Thread::Worker("w"),
    }
}

#[test]
fn awaiting_task_must_not_pin_single_worker_lane() {
    let exec = ThreadExecutor::new(NoOpErrorListener, SingleWorkerLane::new("repro-lane"));

    // Opened by B and awaited by A.
    let (gate_tx, gate_rx) = futures::channel::oneshot::channel::<()>();
    let (done_tx, done_rx) = mpsc::channel::<&'static str>();

    // A comes first, takes the only worker and awaits B.
    let done_a = done_tx.clone();
    exec.execute_async(worker_task(1), move |_ctx| async move {
        let _ = gate_rx.await;
        let _ = done_a.send("A");
        Ok("a")
    });

    // B is queued behind A on the same lane, and can only run if A's await frees the worker.
    let done_b = done_tx.clone();
    exec.execute_async(worker_task(2), move |_ctx| async move {
        let _ = gate_tx.send(());
        let _ = done_b.send("B");
        Ok("b")
    });
    drop(done_tx);

    let mut done = Vec::new();
    while done.len() < 2 {
        match done_rx.recv_timeout(Duration::from_secs(5)) {
            Ok(who) => done.push(who),
            Err(_) => panic!("single-worker lane pinned: only completed {done:?}"),
        }
    }

    done.sort_unstable();
    assert_eq!(
        done,
        vec!["A", "B"],
        "both tasks on the single-worker lane must make progress"
    );
}

/// Keeps the jobs that it is handed.
struct Recorder<J> {
    routed: RefCell<Vec<(Thread, J)>>,
}

impl<J> Recorder<J> {
    fn new() -> Self {
        Recorder {
            routed: RefCell::new(Vec::new()),
        }
    }
}

impl<J> ThreadRouter<J> for Recorder<J> {
    fn execute_on(&self, thread: Thread, job: J) {
        self.routed.borrow_mut().push((thread, job));
    }
}

#[test]
fn calls_are_routed_to_the_lane_of_their_thread() {
    let exec = ThreadExecutor::new(7u8, Recorder::<ThreadJob<u8, i64, &str>>::new());
    exec.execute_normal(worker_task(41), "normal");
    let mut on_main = worker_task(42);
    on_main.thread = Thread::Main;
    exec.execute_async(on_main, "async");

    let routed = exec.pools().routed.borrow();
    assert_eq!(
        *routed,
        vec![
            (
                Thread::Worker("w"),
                ThreadJob {
                    error_listener: 7u8,
                    port: 41,
                    task: "normal",
                    drive: JobDrive::Inline
                }
            ),
            (
                Thread::Main,
                ThreadJob {
                    error_listener: 7u8,
                    port: 42,
                    task: "async",
                    drive: JobDrive::SpawnLocal
                }
            ),
        ]
    );
}

#[test]
fn sync_calls_run_inline() {
    let exec = ThreadExecutor::new(7u8, Recorder::<ThreadJob<u8, i64, &str>>::new());
    let info = TaskInfo::<i64> {
        port: None,
        debug_name: "getter",
        mode: FfiCallMode::Sync,
        thread: Thread::Main,
    };
    let mut runs = 0;
    let reply = exec.execute_sync(info, || {
        runs += 1;
        Ok::<&str, &str>("data")
    });
    assert_eq!(
        reply,
        SyncReply {
            message: "data",
            notice: None
        }
    );
    let reply = exec.execute_sync(info, || {
        runs += 1;
        Err::<&str, &str>("failed")
    });
    assert_eq!(
        reply,
        SyncReply {
            message: "failed",
            notice: Some((7u8, HandlerError::CustomError))
        }
    );
    assert_eq!(runs, 2);
    assert!(exec.pools().routed.borrow().is_empty());
}

#[test]
fn a_result_is_sent() {
    let sender = Rust2DartSender::new(5);
    assert_eq!(
        ThreadExecuteUtils::handle_result(Ok::<u32, u32>(9), sender, "el"),
        vec![TaskAction::SendOrWarn { sender, message: 9 }]
    );
}

#[test]
fn an_error_is_reported_and_then_sent() {
    let sender = Rust2DartSender::new(5);
    assert_eq!(
        ThreadExecuteUtils::handle_result(Err::<u32, u32>(9), sender, "el"),
        vec![
            TaskAction::OnError {
                listener: "el",
                error: HandlerError::CustomError
            },
            TaskAction::SendOrWarn { sender, message: 9 },
        ]
    );
}

#[test]
fn a_panic_is_reported_on_the_port() {
    assert_eq!(
        ThreadExecuteUtils::handle_panic(Err("boom"), "el", 3),
        Some(PanicReport {
            listener: "el",
            port: 3,
            error: "boom"
        })
    );
    assert_eq!(ThreadExecuteUtils::handle_panic::<&str, i64, &str>(Ok(()), "el", 3), None);
}

#[test]
fn an_inline_job_runs_its_task() {
    let job = ThreadJob {
        error_listener: "el",
        port: 8,
        task: |_ctx: TaskContext| Err::<u32, u32>(4),
        drive: JobDrive::Inline,
    };
    assert_eq!(
        job.run(),
        vec![
            TaskAction::OnError {
                listener: "el",
                error: HandlerError::CustomError
            },
            TaskAction::SendOrWarn {
                sender: Rust2DartSender { port: 8 },
                message: 4
            },
        ]
    );
}

#[test]
fn ports_may_be_of_any_type() {
    let exec = ThreadExecutor::new(7u8, Recorder::<ThreadJob<u8, String, &str>>::new());
    let info = TaskInfo {
        port: Some("port".to_string()),
        debug_name: "web",
        mode: FfiCallMode::Normal,
        thread: Thread::Main,
    };
    exec.execute_normal(info, "task");
    assert_eq!(exec.pools().routed.borrow()[0].1.port, "port");
}

#[test]
fn normal_and_async_calls_call_for_the_same_actions() {
    for ret in [Ok("message"), Err("error")] {
        let normal = ThreadJob {
            error_listener: "el",
            port: 8,
            task: move |_ctx: TaskContext| ret,
            drive: JobDrive::Inline,
        };
        let spawned = ThreadJob {
            error_listener: "el",
            port: 8,
            task: move |_ctx: TaskContext| async move { ret },
            drive: JobDrive::SpawnLocal,
        };
        let (future, end) = spawned.start();
        assert_eq!(
            normal.run(),
            end.finish(futures::executor::block_on(future))
        );
    }
}

#[test]
fn task_info_does_not_change_a_sync_answer() {
    let exec = ThreadExecutor::new(7u8, Recorder::<ThreadJob<u8, i64, &str>>::new());
    let info = TaskInfo::<i64> {
        port: None,
        debug_name: "other",
        mode: FfiCallMode::Stream,
        thread: Thread::Main,
    };
    assert_eq!(
        exec.execute_sync(worker_task(1), || Err::<u8, u8>(2)),
        exec.execute_sync(info, || Err::<u8, u8>(2))
    );
}
