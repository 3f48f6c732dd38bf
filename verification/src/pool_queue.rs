//! The queue of a pool of threads.

use vstd::prelude::*;

verus! {

/// The type `ThreadPool` of the crate threadpool.
#[verifier::external_type_specification]
#[verifier::external_body]
pub struct ExThreadPool(threadpool::ThreadPool);

/// Calls `ThreadPool::execute` of the crate threadpool, which queues the job for the
/// threads of the pool. Nothing is claimed of what follows: the job runs on another
/// thread, when one is free.
#[verifier::external_body]
pub fn queue_on_pool<F>(pool: &threadpool::ThreadPool, job: F) where F: FnOnce() + Send + 'static
    requires
        call_requires(job, ()),
{
    pool.execute(job)
}

} // verus!
