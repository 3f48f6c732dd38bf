use frb_lanes::thread_pool::{BaseThreadPool, SimpleThreadPool, SingleThreadAsyncLane};
use futures::StreamExt;
use std::sync::mpsc;
use std::time::Duration;

#[test]
fn a_pool_runs_jobs() {
    let pool = SimpleThreadPool(threadpool::ThreadPool::new(2));
    let (tx, rx) = mpsc::channel();
    for i in 0..4 {
        let tx = tx.clone();
        pool.execute(move || tx.send(i).unwrap());
    }
    let mut seen = Vec::new();
    for _ in 0..4 {
        seen.push(rx.recv_timeout(Duration::from_secs(5)).unwrap());
    }
    seen.sort_unstable();
    assert_eq!(seen, vec![0, 1, 2, 3]);
}

#[test]
fn the_default_pool_runs_jobs() {
    let pool = SimpleThreadPool::default();
    let (tx, rx) = mpsc::channel();
    pool.execute(move || tx.send(true).unwrap());
    assert_eq!(rx.recv_timeout(Duration::from_secs(5)), Ok(true));
}

#[test]
fn a_lane_gets_jobs_in_order() {
    let (tx, rx) = futures::channel::mpsc::unbounded::<u32>();
    let lane = SingleThreadAsyncLane::new(tx);
    lane.execute(1);
    lane.execute(2);
    lane.execute(3);
    drop(lane);
    let jobs: Vec<u32> = futures::executor::block_on(rx.collect());
    assert_eq!(jobs, vec![1, 2, 3]);
}

#[test]
fn a_lane_without_a_thread_drops_jobs() {
    let (tx, rx) = futures::channel::mpsc::unbounded::<u32>();
    let lane = SingleThreadAsyncLane::new(tx);
    drop(rx);
    lane.execute(1);
}
