//! What the executor does with calls and their results, told from inputs and results alone.

use super::thread_executor::{
    JobDrive, JobEnd, PanicReport, SyncReply, TaskAction, ThreadExecuteUtils, ThreadExecutor,
    ThreadJob, ThreadRouter,
};
use super::{HandlerError, Rust2DartSender, TaskContext, TaskInfo};
use vstd::prelude::*;

verus! {

/// A normal call goes to the router that the executor was made with, for the call's thread, as a
/// job with the call's task and port and the executor's listener, which is run inline.
pub proof fn law_normal_call_reaches_the_lane_of_its_thread<EL: Copy, P, MessagePort, T>(
    error_listener: EL,
    pools: P,
    executor: ThreadExecutor<EL, P>,
    task_info: TaskInfo<MessagePort>,
    port: MessagePort,
    task: T,
) where P: ThreadRouter<ThreadJob<EL, MessagePort, T>>
    requires
        call_ensures(ThreadExecutor::<EL, P>::new, (error_listener, pools), executor),
        task_info.port == Some(port),
    ensures
        call_requires(
            ThreadExecutor::<EL, P>::execute_normal::<MessagePort, T>,
            (&executor, task_info, task),
        ),
        call_ensures(
            ThreadExecutor::<EL, P>::execute_normal::<MessagePort, T>,
            (&executor, task_info, task),
            (),
        ) ==> call_ensures(
            P::execute_on,
            (
                &pools,
                task_info.thread,
                ThreadJob { error_listener, port, task, drive: JobDrive::Inline },
            ),
            (),
        ),
{
}

/// An asynchronous call goes to the router that the executor was made with, for the call's thread,
/// as a job with the call's task and port and the executor's listener, which is spawned.
pub proof fn law_async_call_reaches_the_lane_of_its_thread<EL: Copy, P, MessagePort, T>(
    error_listener: EL,
    pools: P,
    executor: ThreadExecutor<EL, P>,
    task_info: TaskInfo<MessagePort>,
    port: MessagePort,
    task: T,
) where P: ThreadRouter<ThreadJob<EL, MessagePort, T>>
    requires
        call_ensures(ThreadExecutor::<EL, P>::new, (error_listener, pools), executor),
        task_info.port == Some(port),
    ensures
        call_requires(
            ThreadExecutor::<EL, P>::execute_async::<MessagePort, T>,
            (&executor, task_info, task),
        ),
        call_ensures(
            ThreadExecutor::<EL, P>::execute_async::<MessagePort, T>,
            (&executor, task_info, task),
            (),
        ) ==> call_ensures(
            P::execute_on,
            (
                &pools,
                task_info.thread,
                ThreadJob { error_listener, port, task, drive: JobDrive::SpawnLocal },
            ),
            (),
        ),
{
}

/// The router that an executor gives is the one that it was made with.
pub proof fn law_executor_keeps_its_router<EL: Copy, P>(
    error_listener: EL,
    pools: P,
    executor: ThreadExecutor<EL, P>,
    kept: &P,
)
    requires
        call_ensures(ThreadExecutor::<EL, P>::new, (error_listener, pools), executor),
        call_ensures(ThreadExecutor::<EL, P>::pools, (&executor,), kept),
    ensures
        *kept == pools,
{
}

/// A synchronous call runs its task and answers with what the task returned. The listener that the
/// executor was made with is told exactly if that is an error.
pub proof fn law_sync_call_answers_with_the_result_of_its_task<EL: Copy, P, MessagePort, M, F>(
    error_listener: EL,
    pools: P,
    executor: ThreadExecutor<EL, P>,
    task_info: TaskInfo<MessagePort>,
    sync_task: F,
    reply: SyncReply<EL, M>,
) where F: FnOnce() -> Result<M, M>
    requires
        call_ensures(ThreadExecutor::<EL, P>::new, (error_listener, pools), executor),
    ensures
        call_requires(sync_task, ()) ==> call_requires(
            ThreadExecutor::<EL, P>::execute_sync::<MessagePort, M, F>,
            (&executor, task_info, sync_task),
        ),
        call_ensures(
            ThreadExecutor::<EL, P>::execute_sync::<MessagePort, M, F>,
            (&executor, task_info, sync_task),
            reply,
        ) ==> exists|ret: Result<M, M>| #[trigger]
            call_ensures(sync_task, (), ret) && match ret {
                Ok(data) => reply.message == data && reply.notice is None,
                Err(error) => reply.message == error && reply.notice == Some(
                    (error_listener, HandlerError::CustomError),
                ),
            },
{
}

/// What `handle_sync_result` answers with is what the task returned; the listener is told exactly
/// of an error.
pub proof fn law_sync_result_is_the_answer<EL, M>(
    ret: Result<M, M>,
    el: EL,
    reply: SyncReply<EL, M>,
)
    requires
        call_ensures(ThreadExecuteUtils::handle_sync_result::<EL, M>, (ret, el), reply),
    ensures
        match ret {
            Ok(data) => reply.message == data && reply.notice is None,
            Err(error) => reply.message == error && reply.notice == Some(
                (el, HandlerError::CustomError),
            ),
        },
{
}

/// A result is sent, once, by the given sender; before an error is sent, and only then, the given
/// listener is told.
pub proof fn law_result_is_sent_and_errors_are_reported_first<EL, MessagePort, M>(
    ret: Result<M, M>,
    sender: Rust2DartSender<MessagePort>,
    el: EL,
    actions: Vec<TaskAction<EL, MessagePort, M>>,
)
    requires
        call_ensures(
            ThreadExecuteUtils::handle_result::<EL, MessagePort, M>,
            (ret, sender, el),
            actions,
        ),
    ensures
        match ret {
            Ok(message) => actions@.len() == 1 && actions@[0] == TaskAction::<
                EL,
                MessagePort,
                M,
            >::SendOrWarn { sender, message },
            Err(message) => actions@.len() == 2 && actions@[0] == TaskAction::<
                EL,
                MessagePort,
                M,
            >::OnError { listener: el, error: HandlerError::CustomError } && actions@[1]
                == TaskAction::<EL, MessagePort, M>::SendOrWarn { sender, message },
        },
{
}

/// The end of a job sends the result to the job's port; before an error is sent, and only then,
/// the job's listener is told.
pub proof fn law_job_ends_with_its_result_on_its_port<EL, MessagePort, M>(
    end: JobEnd<EL, MessagePort>,
    ret: Result<M, M>,
    actions: Vec<TaskAction<EL, MessagePort, M>>,
)
    requires
        call_ensures(JobEnd::<EL, MessagePort>::finish::<M>, (end, ret), actions),
    ensures
        ({
            let sender = Rust2DartSender { port: end.port };
            match ret {
                Ok(message) => actions@.len() == 1 && actions@[0] == TaskAction::<
                    EL,
                    MessagePort,
                    M,
                >::SendOrWarn { sender, message },
                Err(message) => actions@.len() == 2 && actions@[0] == TaskAction::<
                    EL,
                    MessagePort,
                    M,
                >::OnError { listener: end.error_listener, error: HandlerError::CustomError }
                    && actions@[1] == TaskAction::<EL, MessagePort, M>::SendOrWarn {
                    sender,
                    message,
                },
            }
        }),
{
}

/// A job that is started calls its task with a context, and ends at its own port and listener.
pub proof fn law_started_job_calls_its_task<EL, MessagePort, T, R>(
    job: ThreadJob<EL, MessagePort, T>,
    context: TaskContext,
    started: (R, JobEnd<EL, MessagePort>),
) where T: FnOnce(TaskContext) -> R
    requires
        call_ensures(TaskContext::new, (), context),
        call_ensures(ThreadJob::<EL, MessagePort, T>::start::<R>, (job,), started),
    ensures
        call_ensures(job.task, (context,), started.0),
        started.1.port == job.port,
        started.1.error_listener == job.error_listener,
{
}

/// A job that is run inline calls its task, sends what it returned to the job's port, and tells
/// the job's listener before, exactly of an error.
pub proof fn law_job_sends_what_its_task_returned<EL, MessagePort, T, M>(
    job: ThreadJob<EL, MessagePort, T>,
    context: TaskContext,
    actions: Vec<TaskAction<EL, MessagePort, M>>,
) where T: FnOnce(TaskContext) -> Result<M, M>
    requires
        call_ensures(TaskContext::new, (), context),
        call_ensures(ThreadJob::<EL, MessagePort, T>::run::<M>, (job,), actions),
    ensures
        exists|ret: Result<M, M>| #[trigger]
            call_ensures(job.task, (context,), ret) && match ret {
                Ok(message) => actions@.len() == 1 && actions@[0] == TaskAction::<
                    EL,
                    MessagePort,
                    M,
                >::SendOrWarn { sender: Rust2DartSender { port: job.port }, message },
                Err(message) => actions@.len() == 2 && actions@[0] == TaskAction::<
                    EL,
                    MessagePort,
                    M,
                >::OnError { listener: job.error_listener, error: HandlerError::CustomError }
                    && actions@[1] == TaskAction::<EL, MessagePort, M>::SendOrWarn {
                    sender: Rust2DartSender { port: job.port },
                    message,
                },
            },
{
}

/// A panic, and nothing else, is reported: to the given listener, on the given port.
pub proof fn law_panics_are_reported<EL, MessagePort, E>(
    guarded: Result<(), E>,
    el: EL,
    port: MessagePort,
    report: Option<PanicReport<EL, MessagePort, E>>,
)
    requires
        call_ensures(
            ThreadExecuteUtils::handle_panic::<EL, MessagePort, E>,
            (guarded, el, port),
            report,
        ),
    ensures
        guarded is Ok ==> report is None,
        guarded matches Err(error) ==> {
            &&& report matches Some(told)
            &&& told.listener == el
            &&& told.port == port
            &&& told.error == error
        },
{
}

/// A sender sends to the port that it was made for.
pub proof fn law_sender_keeps_its_port<MessagePort>(
    port: MessagePort,
    sender: Rust2DartSender<MessagePort>,
)
    requires
        call_ensures(Rust2DartSender::<MessagePort>::new, (port,), sender),
    ensures
        sender.port == port,
{
}

/// What handles results takes every result, and a job can be started and run whenever its task can
/// be called.
pub proof fn law_results_and_jobs_are_always_taken<EL, MessagePort, M, E, T, R, U>(
    ret: Result<M, M>,
    sender: Rust2DartSender<MessagePort>,
    el: EL,
    end: JobEnd<EL, MessagePort>,
    guarded: Result<(), E>,
    port: MessagePort,
    job: ThreadJob<EL, MessagePort, T>,
    inline: ThreadJob<EL, MessagePort, U>,
) where T: FnOnce(TaskContext) -> R, U: FnOnce(TaskContext) -> Result<M, M>
    ensures
        call_requires(ThreadExecuteUtils::handle_result::<EL, MessagePort, M>, (ret, sender, el)),
        call_requires(ThreadExecuteUtils::handle_sync_result::<EL, M>, (ret, el)),
        call_requires(
            ThreadExecuteUtils::handle_panic::<EL, MessagePort, E>,
            (guarded, el, port),
        ),
        call_requires(JobEnd::<EL, MessagePort>::finish::<M>, (end, ret)),
        (forall|context: TaskContext| #[trigger] call_requires(job.task, (context,)))
            ==> call_requires(ThreadJob::<EL, MessagePort, T>::start::<R>, (job,)),
        (forall|context: TaskContext| #[trigger] call_requires(inline.task, (context,)))
            ==> call_requires(ThreadJob::<EL, MessagePort, U>::run::<M>, (inline,)),
{
}

} // verus!
