//! Native lanes: pools of threads, and single threads that drive futures.

use crate::pool_queue::queue_on_pool;
use futures::channel::mpsc::{TrySendError, UnboundedSender};
use vstd::prelude::*;

verus! {

/// Something that runs jobs off the caller's thread.
pub trait BaseThreadPool {
    /// Runs `job`, once.
    fn execute<F>(&self, job: F) where F: FnOnce() + Send + 'static
        requires
            call_requires(job, ()),
    ;
}

/// A pool of threads. A job that waits holds its thread.
#[derive(Debug, Default)]
pub struct SimpleThreadPool(pub threadpool::ThreadPool);

impl BaseThreadPool for SimpleThreadPool {
    /// Hands `job` to the threads of the pool.
    fn execute<F>(&self, job: F) where F: FnOnce() + Send + 'static
        ensures
            call_ensures(queue_on_pool::<F>, (&self.0, job), ()),
    {
        queue_on_pool(&self.0, job)
    }
}

/// The type `UnboundedSender` of the crate futures: the sending end of a channel.
#[verifier::external_type_specification]
#[verifier::external_body]
#[verifier::reject_recursive_types(T)]
pub struct ExUnboundedSender<T>(UnboundedSender<T>);

/// The type `TrySendError` of the crate futures: why a message could not be sent.
#[verifier::external_type_specification]
#[verifier::external_body]
#[verifier::reject_recursive_types(T)]
pub struct ExTrySendError<T>(TrySendError<T>);

/// `UnboundedSender::unbounded_send` of the crate futures queues the message, or
/// returns it in the error if the receiving end is gone. Nothing is claimed of which
/// it is: that depends on the other end.
pub assume_specification<T>[ UnboundedSender::<T>::unbounded_send ](
    sender: &UnboundedSender<T>,
    msg: T,
) -> (sent: Result<(), TrySendError<T>>)
;

/// A lane with one thread of its own, which takes jobs off a channel in the order in
/// which they were sent and runs each inside a local executor.
///
/// A job that spawns a future there gives way to the other jobs of the lane whenever
/// the future awaits, unlike a job that blocks a thread of a [`SimpleThreadPool`].
#[verifier::reject_recursive_types(J)]
pub struct SingleThreadAsyncLane<J> {
    tx: UnboundedSender<J>,
}

impl<J> SingleThreadAsyncLane<J> {
    /// The channel to the lane's thread.
    pub closed spec fn sender(self) -> UnboundedSender<J> {
        self.tx
    }

    /// The lane whose thread receives what `tx` sends.
    pub fn new(tx: UnboundedSender<J>) -> (lane: Self)
        ensures
            lane.sender() == tx,
    {
        SingleThreadAsyncLane { tx }
    }

    /// Sends `job` to the lane. If the lane's thread is gone, the job is dropped.
    pub fn execute(&self, job: J)
        ensures
            exists|sent: Result<(), TrySendError<J>>|
                call_ensures(
                    UnboundedSender::<J>::unbounded_send,
                    (&self.sender(), job),
                    sent,
                ),
    {
        let _ = self.tx.unbounded_send(job);
    }
}

/// A job that a lane is given is sent on the channel that the lane was made with. A lane takes
/// every job.
pub proof fn law_lane_sends_on_its_channel<J>(
    tx: UnboundedSender<J>,
    lane: SingleThreadAsyncLane<J>,
    job: J,
)
    requires
        call_ensures(SingleThreadAsyncLane::<J>::new, (tx,), lane),
    ensures
        call_requires(SingleThreadAsyncLane::<J>::execute, (&lane, job)),
        call_ensures(SingleThreadAsyncLane::<J>::execute, (&lane, job), ()) ==> exists|
            sent: Result<(), TrySendError<J>>,
        | #[trigger]
            call_ensures(UnboundedSender::<J>::unbounded_send, (&tx, job), sent),
{
}

} // verus!
